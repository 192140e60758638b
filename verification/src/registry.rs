//! Records and enumerations of the registry, as they stand in its messages.

use vstd::prelude::*;
use vstd::slice::slice_to_vec;
use crate::text::str_eq;

verus! {

/// The identifier of a non-interactive distributed key generation (NI-DKG).
#[derive(Debug, PartialEq, Eq)]
pub struct NiDkgId {
    pub start_block_height: u64,
    pub dealer_subnet: Vec<u8>,
    /// The number of a `NiDkgTag`.
    pub dkg_tag: i32,
    pub remote_target_id: Option<Vec<u8>>,
}

/// What a `NiDkgId` stands for.
pub struct NiDkgIdView {
    pub start_block_height: u64,
    pub dealer_subnet: Seq<u8>,
    pub dkg_tag: i32,
    pub remote_target_id: Option<Seq<u8>>,
}

impl View for NiDkgId {
    type V = NiDkgIdView;

    open spec fn view(&self) -> NiDkgIdView {
        NiDkgIdView {
            start_block_height: self.start_block_height,
            dealer_subnet: self.dealer_subnet@,
            dkg_tag: self.dkg_tag,
            remote_target_id: match self.remote_target_id {
                Some(target) => Some(target@),
                None => None,
            },
        }
    }
}

impl Clone for NiDkgId {
    fn clone(&self) -> (copy: Self)
        ensures
            copy@ == self@,
    {
        NiDkgId {
            start_block_height: self.start_block_height,
            dealer_subnet: slice_to_vec(self.dealer_subnet.as_slice()),
            dkg_tag: self.dkg_tag,
            remote_target_id: match &self.remote_target_id {
                Some(target) => Some(slice_to_vec(target.as_slice())),
                None => None,
            },
        }
    }
}

/// A number of cycles, in two halves of 64 bits.
#[derive(Clone, Copy, Debug, PartialEq, Eq)]
pub struct NominalCycles {
    pub high: u64,
    pub low: u64,
}

/// The tag of a non-interactive distributed key generation (NI-DKG).
#[derive(Clone, Copy, Debug, PartialEq, Eq, Hash, PartialOrd, Ord, Structural)]
pub enum NiDkgTag {
    Unspecified,
    LowThreshold,
    HighThreshold,
}

impl NiDkgTag {
    /// The name of the value in the definition of the messages.
    pub open spec fn name_spec(self) -> Seq<char> {
        match self {
            NiDkgTag::Unspecified => "NI_DKG_TAG_UNSPECIFIED"@,
            NiDkgTag::LowThreshold => "NI_DKG_TAG_LOW_THRESHOLD"@,
            NiDkgTag::HighThreshold => "NI_DKG_TAG_HIGH_THRESHOLD"@,
        }
    }

    /// The name of the value in the definition of the messages. The names are
    /// fixed as long as the definition is, so programs may rely on them.
    pub fn as_str_name(&self) -> (name: &'static str)
        ensures
            name@ == self.name_spec(),
    {
        match self {
            NiDkgTag::Unspecified => "NI_DKG_TAG_UNSPECIFIED",
            NiDkgTag::LowThreshold => "NI_DKG_TAG_LOW_THRESHOLD",
            NiDkgTag::HighThreshold => "NI_DKG_TAG_HIGH_THRESHOLD",
        }
    }

    /// The value whose name in the definition of the messages is `value`, if there is one.
    pub fn from_str_name(value: &str) -> (found: Option<Self>)
        ensures
            match found {
                Some(v) => value@ == v.name_spec(),
                None => forall|v: NiDkgTag| value@ != #[trigger] v.name_spec(),
            },
    {
        if str_eq(value, "NI_DKG_TAG_UNSPECIFIED") {
            Some(Self::Unspecified)
        } else if str_eq(value, "NI_DKG_TAG_LOW_THRESHOLD") {
            Some(Self::LowThreshold)
        } else if str_eq(value, "NI_DKG_TAG_HIGH_THRESHOLD") {
            Some(Self::HighThreshold)
        } else {
            None
        }
    }

    /// No two values have the same name, so `from_str_name` gives back the
    /// value that `as_str_name` was called on.
    pub proof fn lemma_names_distinct(a: Self, b: Self)
        requires
            a.name_spec() == b.name_spec(),
        ensures
            a == b,
    {
        reveal_strlit("NI_DKG_TAG_UNSPECIFIED");
        reveal_strlit("NI_DKG_TAG_LOW_THRESHOLD");
        reveal_strlit("NI_DKG_TAG_HIGH_THRESHOLD");
        let x = a.name_spec();
        let y = b.name_spec();
        assert(x.len() == y.len());
    }
}

/// The reason for which a message was rejected.
#[derive(Clone, Copy, Debug, PartialEq, Eq, Hash, PartialOrd, Ord, Structural)]
pub enum RejectCode {
    Unspecified,
    SysFatal,
    SysTransient,
    DestinationInvalid,
    CanisterReject,
    CanisterError,
}

impl RejectCode {
    /// The name of the value in the definition of the messages.
    pub open spec fn name_spec(self) -> Seq<char> {
        match self {
            RejectCode::Unspecified => "REJECT_CODE_UNSPECIFIED"@,
            RejectCode::SysFatal => "REJECT_CODE_SYS_FATAL"@,
            RejectCode::SysTransient => "REJECT_CODE_SYS_TRANSIENT"@,
            RejectCode::DestinationInvalid => "REJECT_CODE_DESTINATION_INVALID"@,
            RejectCode::CanisterReject => "REJECT_CODE_CANISTER_REJECT"@,
            RejectCode::CanisterError => "REJECT_CODE_CANISTER_ERROR"@,
        }
    }

    /// The name of the value in the definition of the messages. The names are
    /// fixed as long as the definition is, so programs may rely on them.
    pub fn as_str_name(&self) -> (name: &'static str)
        ensures
            name@ == self.name_spec(),
    {
        match self {
            RejectCode::Unspecified => "REJECT_CODE_UNSPECIFIED",
            RejectCode::SysFatal => "REJECT_CODE_SYS_FATAL",
            RejectCode::SysTransient => "REJECT_CODE_SYS_TRANSIENT",
            RejectCode::DestinationInvalid => "REJECT_CODE_DESTINATION_INVALID",
            RejectCode::CanisterReject => "REJECT_CODE_CANISTER_REJECT",
            RejectCode::CanisterError => "REJECT_CODE_CANISTER_ERROR",
        }
    }

    /// The value whose name in the definition of the messages is `value`, if there is one.
    pub fn from_str_name(value: &str) -> (found: Option<Self>)
        ensures
            match found {
                Some(v) => value@ == v.name_spec(),
                None => forall|v: RejectCode| value@ != #[trigger] v.name_spec(),
            },
    {
        if str_eq(value, "REJECT_CODE_UNSPECIFIED") {
            Some(Self::Unspecified)
        } else if str_eq(value, "REJECT_CODE_SYS_FATAL") {
            Some(Self::SysFatal)
        } else if str_eq(value, "REJECT_CODE_SYS_TRANSIENT") {
            Some(Self::SysTransient)
        } else if str_eq(value, "REJECT_CODE_DESTINATION_INVALID") {
            Some(Self::DestinationInvalid)
        } else if str_eq(value, "REJECT_CODE_CANISTER_REJECT") {
            Some(Self::CanisterReject)
        } else if str_eq(value, "REJECT_CODE_CANISTER_ERROR") {
            Some(Self::CanisterError)
        } else {
            None
        }
    }

    /// No two values have the same name, so `from_str_name` gives back the
    /// value that `as_str_name` was called on.
    pub proof fn lemma_names_distinct(a: Self, b: Self)
        requires
            a.name_spec() == b.name_spec(),
        ensures
            a == b,
    {
        reveal_strlit("REJECT_CODE_UNSPECIFIED");
        reveal_strlit("REJECT_CODE_SYS_FATAL");
        reveal_strlit("REJECT_CODE_SYS_TRANSIENT");
        reveal_strlit("REJECT_CODE_DESTINATION_INVALID");
        reveal_strlit("REJECT_CODE_CANISTER_REJECT");
        reveal_strlit("REJECT_CODE_CANISTER_ERROR");
        let x = a.name_spec();
        let y = b.name_spec();
        assert(x.len() == y.len());
    }
}

} // verus!

//! Principals, and the subnet and canister identifiers that wrap one.

use vstd::prelude::*;
use vstd::slice::slice_to_vec;
use crate::order::{bytes_eq, bytes_lt, lex_lt};
use crate::sorted::SortKey;

verus! {

/// The greatest number of bytes that a principal holds.
pub const MAX_PRINCIPAL_LEN: usize = 29;

/// The textual form of the principal that holds `bytes`: the check sum and
/// the bytes in base 32, in groups of five characters.
pub uninterp spec fn principal_text(bytes: Seq<u8>) -> Seq<char>;

/// Calls `candid::Principal::from_slice` and then `to_text`, which renders a
/// principal of at most 29 bytes as text. The text depends on the bytes alone;
/// the contract gives it the name `principal_text` and claims no more.
#[verifier::external_body]
fn principal_to_text(bytes: &[u8]) -> (text: String)
    requires
        bytes@.len() <= MAX_PRINCIPAL_LEN,
    ensures
        text@ == principal_text(bytes@),
{
    candid::Principal::from_slice(bytes).to_text()
}

/// An opaque identifier of at most 29 bytes.
#[derive(Debug, PartialEq, Eq, PartialOrd, Ord, Hash)]
pub struct PrincipalId {
    raw: Vec<u8>,
}

impl View for PrincipalId {
    type V = Seq<u8>;

    closed spec fn view(&self) -> Seq<u8> {
        self.raw@
    }
}

impl PrincipalId {
    #[verifier::type_invariant]
    spec fn inv(self) -> bool {
        self.raw@.len() <= MAX_PRINCIPAL_LEN
    }

    /// The principal that holds `bytes`, where they are at most 29.
    pub fn try_from_slice(bytes: &[u8]) -> (principal: Option<PrincipalId>)
        ensures
            principal is Some <==> bytes@.len() <= MAX_PRINCIPAL_LEN,
            principal is Some ==> principal->0@ == bytes@,
    {
        if bytes.len() <= MAX_PRINCIPAL_LEN {
            Some(PrincipalId { raw: slice_to_vec(bytes) })
        } else {
            None
        }
    }

    /// The bytes of the principal.
    pub fn as_slice(&self) -> (bytes: &[u8])
        ensures
            bytes@ == self@,
            bytes@.len() <= MAX_PRINCIPAL_LEN,
    {
        proof {
            use_type_invariant(self);
        }
        self.raw.as_slice()
    }

    /// The textual form of the principal.
    pub fn to_text(&self) -> (text: String)
        ensures
            text@ == principal_text(self@),
    {
        principal_to_text(self.as_slice())
    }

    /// Whether `self` and `other` hold the same bytes.
    pub fn same(&self, other: &PrincipalId) -> (same: bool)
        ensures
            same == (self@ == other@),
    {
        bytes_eq(self.as_slice(), other.as_slice())
    }

    /// Whether `self` comes strictly before `other` in the byte-wise order.
    pub fn precedes(&self, other: &PrincipalId) -> (before: bool)
        ensures
            before == lex_lt(self@, other@),
    {
        bytes_lt(self.as_slice(), other.as_slice())
    }
}

impl Clone for PrincipalId {
    fn clone(&self) -> (copy: Self)
        ensures
            copy@ == self@,
    {
        PrincipalId { raw: slice_to_vec(self.as_slice()) }
    }
}

/// The identifier of a subnet.
#[derive(Debug, PartialEq, Eq, PartialOrd, Ord, Hash)]
pub struct SubnetId {
    principal: PrincipalId,
}

impl View for SubnetId {
    type V = Seq<u8>;

    closed spec fn view(&self) -> Seq<u8> {
        self.principal@
    }
}

impl SubnetId {
    /// The subnet that `principal` names.
    pub fn new(principal: PrincipalId) -> (subnet: SubnetId)
        ensures
            subnet@ == principal@,
    {
        SubnetId { principal }
    }

    /// The principal of the subnet.
    pub fn get(&self) -> (principal: PrincipalId)
        ensures
            principal@ == self@,
    {
        self.principal.clone()
    }

    /// The principal of the subnet, borrowed.
    pub fn get_ref(&self) -> (principal: &PrincipalId)
        ensures
            principal@ == self@,
    {
        &self.principal
    }

    /// The textual form of the subnet's principal.
    pub fn to_text(&self) -> (text: String)
        ensures
            text@ == principal_text(self@),
    {
        self.principal.to_text()
    }
}

impl Clone for SubnetId {
    fn clone(&self) -> (copy: Self)
        ensures
            copy@ == self@,
    {
        SubnetId { principal: self.principal.clone() }
    }
}

impl SortKey for SubnetId {
    open spec fn sort_bytes(&self) -> Seq<u8> {
        self@
    }

    fn comes_before(&self, other: &Self) -> (before: bool) {
        self.principal.precedes(&other.principal)
    }

    fn same_key(&self, other: &Self) -> (same: bool) {
        self.principal.same(&other.principal)
    }
}

/// The identifier of a user.
#[derive(Debug, PartialEq, Eq, PartialOrd, Ord, Hash)]
pub struct UserId {
    principal: PrincipalId,
}

impl View for UserId {
    type V = Seq<u8>;

    closed spec fn view(&self) -> Seq<u8> {
        self.principal@
    }
}

impl UserId {
    /// The user that `principal` names.
    pub fn new(principal: PrincipalId) -> (user: UserId)
        ensures
            user@ == principal@,
    {
        UserId { principal }
    }

    /// The principal of the user.
    pub fn get(&self) -> (principal: PrincipalId)
        ensures
            principal@ == self@,
    {
        self.principal.clone()
    }
}

impl Clone for UserId {
    fn clone(&self) -> (copy: Self)
        ensures
            copy@ == self@,
    {
        UserId { principal: self.principal.clone() }
    }
}

/// The identifier of a node.
#[derive(Debug, PartialEq, Eq, PartialOrd, Ord, Hash)]
pub struct NodeId {
    principal: PrincipalId,
}

impl View for NodeId {
    type V = Seq<u8>;

    closed spec fn view(&self) -> Seq<u8> {
        self.principal@
    }
}

impl NodeId {
    /// The node that `principal` names.
    pub fn new(principal: PrincipalId) -> (node: NodeId)
        ensures
            node@ == principal@,
    {
        NodeId { principal }
    }

    /// The principal of the node.
    pub fn get(&self) -> (principal: PrincipalId)
        ensures
            principal@ == self@,
    {
        self.principal.clone()
    }
}

impl Clone for NodeId {
    fn clone(&self) -> (copy: Self)
        ensures
            copy@ == self@,
    {
        NodeId { principal: self.principal.clone() }
    }
}

/// The identifier of a canister.
#[derive(Debug, PartialEq, Eq, PartialOrd, Ord, Hash)]
pub struct CanisterId {
    principal: PrincipalId,
}

impl View for CanisterId {
    type V = Seq<u8>;

    closed spec fn view(&self) -> Seq<u8> {
        self.principal@
    }
}

impl CanisterId {
    /// The canister that `principal` names.
    pub fn new(principal: PrincipalId) -> (canister: CanisterId)
        ensures
            canister@ == principal@,
    {
        CanisterId { principal }
    }

    /// The principal of the canister.
    pub fn get(&self) -> (principal: PrincipalId)
        ensures
            principal@ == self@,
    {
        self.principal.clone()
    }

    /// The principal of the canister, borrowed.
    pub fn get_ref(&self) -> (principal: &PrincipalId)
        ensures
            principal@ == self@,
    {
        &self.principal
    }
}

impl Clone for CanisterId {
    fn clone(&self) -> (copy: Self)
        ensures
            copy@ == self@,
    {
        CanisterId { principal: self.principal.clone() }
    }
}

impl From<SubnetId> for CanisterId {
    fn from(subnet: SubnetId) -> (canister: Self) {
        CanisterId { principal: subnet.principal }
    }
}

impl vstd::std_specs::convert::FromSpecImpl<SubnetId> for CanisterId {
    open spec fn obeys_from_spec() -> bool {
        true
    }

    closed spec fn from_spec(subnet: SubnetId) -> Self {
        CanisterId { principal: subnet.principal }
    }
}

/// The canister that stands for a subnet has the subnet's principal.
pub proof fn lemma_canister_of_subnet(subnet: SubnetId)
    ensures
        <CanisterId as vstd::std_specs::convert::FromSpec<SubnetId>>::from_spec(subnet)@ == subnet@,
{
}

} // verus!

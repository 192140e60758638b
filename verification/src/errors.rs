//! Why a request finds no destination, and how the reason reads.

use vstd::prelude::*;
use crate::ids::{principal_text, CanisterId, PrincipalId, SubnetId};
use crate::keys::{keys_view, EcdsaKeyId, EcdsaKeyIdView};
use crate::method::Method;

verus! {

/// Why no subnet serves a key as a request needs it. Each reason holds the
/// key that was asked for and what the topology held in its place.
#[derive(Debug)]
pub enum EcdsaKeyError {
    /// The key was asked of a subnet that the network does not have.
    UnknownSubnet { key_id: EcdsaKeyId, subnet_id: SubnetId },
    /// The key was asked of a subnet that does not hold it. `held_keys` are
    /// the keys that this subnet holds.
    KeyNotHeld { key_id: EcdsaKeyId, subnet_id: SubnetId, held_keys: Vec<EcdsaKeyId> },
    /// A signature was asked with a key that no subnet signs with.
    /// `signing_keys` are the keys that some subnet signs with.
    NoSigningSubnet { key_id: EcdsaKeyId, signing_keys: Vec<EcdsaKeyId> },
    /// No subnet holds the key. `existing_keys` are the keys that some subnet
    /// holds, each once and in ascending order.
    NoHolder { key_id: EcdsaKeyId, existing_keys: Vec<EcdsaKeyId> },
}

/// What an `EcdsaKeyError` stands for.
pub enum EcdsaKeyErrorView {
    UnknownSubnet { key: EcdsaKeyIdView, subnet: Seq<u8> },
    KeyNotHeld { key: EcdsaKeyIdView, subnet: Seq<u8>, held: Seq<EcdsaKeyIdView> },
    NoSigningSubnet { key: EcdsaKeyIdView, signing: Seq<EcdsaKeyIdView> },
    NoHolder { key: EcdsaKeyIdView, existing: Seq<EcdsaKeyIdView> },
}

impl View for EcdsaKeyError {
    type V = EcdsaKeyErrorView;

    open spec fn view(&self) -> EcdsaKeyErrorView {
        match self {
            EcdsaKeyError::UnknownSubnet { key_id, subnet_id } => EcdsaKeyErrorView::UnknownSubnet {
                key: key_id@,
                subnet: subnet_id@,
            },
            EcdsaKeyError::KeyNotHeld { key_id, subnet_id, held_keys } => EcdsaKeyErrorView::KeyNotHeld {
                key: key_id@,
                subnet: subnet_id@,
                held: keys_view(held_keys@),
            },
            EcdsaKeyError::NoSigningSubnet { key_id, signing_keys } => EcdsaKeyErrorView::NoSigningSubnet {
                key: key_id@,
                signing: keys_view(signing_keys@),
            },
            EcdsaKeyError::NoHolder { key_id, existing_keys } => EcdsaKeyErrorView::NoHolder {
                key: key_id@,
                existing: keys_view(existing_keys@),
            },
        }
    }
}

/// The textual forms of `keys`, with a comma and a space between each two.
pub open spec fn joined(keys: Seq<EcdsaKeyIdView>) -> Seq<char>
    decreases keys.len(),
{
    if keys.len() == 0 {
        Seq::empty()
    } else if keys.len() == 1 {
        keys[0].text()
    } else {
        joined(keys.drop_last()) + ", "@ + keys.last().text()
    }
}

/// The list of `keys` as it stands in the text of an error, in square brackets.
pub open spec fn keys_text(keys: Seq<EcdsaKeyIdView>) -> Seq<char> {
    "["@ + joined(keys) + "]"@
}

impl EcdsaKeyErrorView {
    /// The text of the error.
    pub open spec fn message(self) -> Seq<char> {
        match self {
            EcdsaKeyErrorView::UnknownSubnet { key, subnet } => "Requested ECDSA key "@ + key.text()
                + " from unknown subnet "@ + principal_text(subnet),
            EcdsaKeyErrorView::KeyNotHeld { key, subnet, held } => "Requested ECDSA key "@
                + key.text() + " on subnet "@ + principal_text(subnet) + ", subnet has keys: "@
                + keys_text(held),
            EcdsaKeyErrorView::NoSigningSubnet { key, signing } => "Requested ECDSA key: "@
                + key.text() + ", existing keys with signing enabled: "@ + keys_text(signing),
            EcdsaKeyErrorView::NoHolder { key, existing } => "Requested ECDSA key: "@ + key.text()
                + ", existing keys: "@ + keys_text(existing),
        }
    }
}

/// The list of `keys` as it stands in the text of an error.
pub fn format_keys(keys: &Vec<EcdsaKeyId>) -> (text: String)
    ensures
        text@ == keys_text(keys_view(keys@)),
{
    let ghost views = keys_view(keys@);
    let mut text = String::from_str("[");
    let mut i: usize = 0;
    while i < keys.len()
        invariant
            i <= keys.len(),
            views == keys_view(keys@),
            text@ == "["@ + joined(views.take(i as int)),
        decreases keys.len() - i,
    {
        if i > 0 {
            text.append(", ");
        }
        text.append(keys[i].to_text().as_str());
        proof {
            let done = views.take(i as int);
            let next = views.take(i + 1);
            assert(next.drop_last() =~= done);
            assert(next.last() == views[i as int]);
            if i == 0 {
                assert(joined(done) =~= Seq::<char>::empty());
            }
            assert(text@ =~= "["@ + joined(next));
        }
        i += 1;
    }
    proof {
        assert(views.take(keys.len() as int) =~= views);
    }
    text.append("]");
    text
}

impl EcdsaKeyError {
    /// The text of the error: the key that was asked for, and what was found.
    pub fn message(&self) -> (text: String)
        ensures
            text@ == self@.message(),
    {
        match self {
            EcdsaKeyError::UnknownSubnet { key_id, subnet_id } => {
                let mut text = String::from_str("Requested ECDSA key ");
                text.append(key_id.to_text().as_str());
                text.append(" from unknown subnet ");
                text.append(subnet_id.to_text().as_str());
                text
            },
            EcdsaKeyError::KeyNotHeld { key_id, subnet_id, held_keys } => {
                let mut text = String::from_str("Requested ECDSA key ");
                text.append(key_id.to_text().as_str());
                text.append(" on subnet ");
                text.append(subnet_id.to_text().as_str());
                text.append(", subnet has keys: ");
                text.append(format_keys(held_keys).as_str());
                text
            },
            EcdsaKeyError::NoSigningSubnet { key_id, signing_keys } => {
                let mut text = String::from_str("Requested ECDSA key: ");
                text.append(key_id.to_text().as_str());
                text.append(", existing keys with signing enabled: ");
                text.append(format_keys(signing_keys).as_str());
                text
            },
            EcdsaKeyError::NoHolder { key_id, existing_keys } => {
                let mut text = String::from_str("Requested ECDSA key: ");
                text.append(key_id.to_text().as_str());
                text.append(", existing keys: ");
                text.append(format_keys(existing_keys).as_str());
                text
            },
        }
    }
}

/// Declares `candid::Error`, the error with which a payload is refused, so
/// that a `ResolveDestinationError` can carry one. Nothing is claimed of it.
#[verifier::external_type_specification]
#[verifier::external_body]
pub struct ExCandidError(candid::Error);

/// Why no destination was found for a request.
#[derive(Debug)]
pub enum ResolveDestinationError {
    /// The payload is not what the method takes.
    CandidError(candid::Error),
    /// The management canister has no method of this name.
    MethodNotFound(String),
    /// No subnet owns the canister that the method is called on.
    SubnetNotFound(CanisterId, Method),
    /// The request names its destination itself.
    AlreadyResolved(PrincipalId),
    /// No subnet serves the key as the request needs it.
    EcdsaKeyError(EcdsaKeyError),
}

/// What a `ResolveDestinationError` stands for.
pub enum ResolveDestinationErrorView {
    CandidError(candid::Error),
    MethodNotFound(Seq<char>),
    SubnetNotFound(Seq<u8>, Method),
    AlreadyResolved(Seq<u8>),
    EcdsaKeyError(EcdsaKeyErrorView),
}

impl View for ResolveDestinationError {
    type V = ResolveDestinationErrorView;

    open spec fn view(&self) -> ResolveDestinationErrorView {
        match self {
            ResolveDestinationError::CandidError(err) => ResolveDestinationErrorView::CandidError(*err),
            ResolveDestinationError::MethodNotFound(name) => ResolveDestinationErrorView::MethodNotFound(
                name@,
            ),
            ResolveDestinationError::SubnetNotFound(canister, method) => ResolveDestinationErrorView::SubnetNotFound(
                canister@,
                *method,
            ),
            ResolveDestinationError::AlreadyResolved(principal) => ResolveDestinationErrorView::AlreadyResolved(
                principal@,
            ),
            ResolveDestinationError::EcdsaKeyError(error) => ResolveDestinationErrorView::EcdsaKeyError(
                error@,
            ),
        }
    }
}

impl From<candid::Error> for ResolveDestinationError {
    fn from(err: candid::Error) -> (error: Self) {
        ResolveDestinationError::CandidError(err)
    }
}

impl vstd::std_specs::convert::FromSpecImpl<candid::Error> for ResolveDestinationError {
    open spec fn obeys_from_spec() -> bool {
        true
    }

    open spec fn from_spec(err: candid::Error) -> Self {
        ResolveDestinationError::CandidError(err)
    }
}

/// The destination or the error that a result stands for.
pub type Outcome = Result<Seq<u8>, ResolveDestinationErrorView>;

/// What the result of a resolution stands for.
pub open spec fn outcome(result: Result<PrincipalId, ResolveDestinationError>) -> Outcome {
    match result {
        Ok(principal) => Ok(principal@),
        Err(error) => Err(error@),
    }
}

} // verus!

//! What holds of every resolution, whatever the topology and the request.

use vstd::prelude::*;
use crate::ids::{PrincipalId, SubnetId};
use crate::keys::EcdsaKeyIdView;
use crate::order::{lemma_lex_asymmetric, lex_le};
use crate::errors::{
    outcome, EcdsaKeyErrorView, Outcome, ResolveDestinationError, ResolveDestinationErrorView,
};
use crate::routing::{
    resolve_destination, resolve_spec, route_bitcoin_spec, route_ecdsa_spec, served_by_owner,
    served_locally, target_canister, BitcoinNetwork, EcdsaSubnetKind, Request,
};
use crate::seqs::{first_index, is_first, lemma_first_index_found, lemma_first_index_is_first, lemma_first_index_none};
use crate::topology::{
    has_id, holds, lemma_route_unique, owns, serves_bitcoin_testnet, NetworkTopology,
    NetworkTopologyView,
};

verus! {

/// A request whose method is served locally goes to the subnet on which it
/// is made, whatever the topology holds.
pub proof fn lemma_served_locally(
    topology: NetworkTopologyView,
    request: Request,
    own_subnet: Seq<u8>,
)
    requires
        served_locally(request.method_spec()),
    ensures
        resolve_spec(topology, request, own_subnet) == Outcome::Ok(own_subnet),
{
}

/// A request is about a canister exactly when its method is served by the
/// owner of a canister.
pub proof fn lemma_target_canister(request: Request)
    ensures
        target_canister(request) is Some <==> served_by_owner(request.method_spec()),
{
}

/// A request about a canister that lies in a range of the routing table goes
/// to the subnet that owns the range.
pub proof fn lemma_served_by_owner(
    topology: NetworkTopologyView,
    request: Request,
    own_subnet: Seq<u8>,
    range: int,
)
    requires
        topology.wf(),
        target_canister(request) is Some,
        0 <= range < topology.routing_table.len(),
        topology.routing_table[range].contains(target_canister(request)->0),
    ensures
        resolve_spec(topology, request, own_subnet) == Outcome::Ok(
            topology.routing_table[range].subnet,
        ),
{
    lemma_route_unique(topology.routing_table, target_canister(request)->0, range);
}

/// A request about a canister that lies in no range of the routing table is
/// refused, and the error holds that canister and the method.
pub proof fn lemma_no_owner(topology: NetworkTopologyView, request: Request, own_subnet: Seq<u8>)
    requires
        target_canister(request) is Some,
        forall|i: int|
            0 <= i < topology.routing_table.len() ==> !(#[trigger] topology.routing_table[i]).contains(
                target_canister(request)->0,
            ),
    ensures
        resolve_spec(topology, request, own_subnet) == Outcome::Err(
            ResolveDestinationErrorView::SubnetNotFound(
                target_canister(request)->0,
                request.method_spec(),
            ),
        ),
{
    let canister = target_canister(request)->0;
    assert forall|i: int| 0 <= i < topology.routing_table.len() implies !owns(canister)(
        #[trigger] topology.routing_table[i],
    ) by {}
    lemma_first_index_none(topology.routing_table, owns(canister));
}

/// The entry of a subnet of a well-formed topology is found under its identifier.
pub proof fn lemma_subnet_found(topology: NetworkTopologyView, i: int)
    requires
        topology.wf(),
        0 <= i < topology.subnets.len(),
    ensures
        topology.subnet(topology.subnets[i].id) == Some(topology.subnets[i].topology),
{
    let id = topology.subnets[i].id;
    assert forall|j: int| 0 <= j < i implies !has_id(id)(#[trigger] topology.subnets[j]) by {
        lemma_lex_asymmetric(topology.subnets[j].id, id);
    }
    assert(is_first(topology.subnets, has_id(id), i));
    lemma_first_index_found(topology.subnets, has_id(id), i);
}

/// A key asked of a subnet that holds it is served by that subnet, whether a
/// signature is needed or not, and whichever subnets sign with the key.
pub proof fn lemma_requested_subnet_holds_key(
    key: EcdsaKeyIdView,
    topology: NetworkTopologyView,
    i: int,
    kind: EcdsaSubnetKind,
)
    requires
        topology.wf(),
        0 <= i < topology.subnets.len(),
        topology.subnets[i].topology.ecdsa_keys_held.contains(key),
    ensures
        route_ecdsa_spec(key, topology, Some(topology.subnets[i].id), kind) == Outcome::Ok(
            topology.subnets[i].id,
        ),
{
    lemma_subnet_found(topology, i);
}

/// A key asked of a subnet that does not hold it is refused, and the error
/// lists the keys that this subnet holds.
pub proof fn lemma_requested_subnet_lacks_key(
    key: EcdsaKeyIdView,
    topology: NetworkTopologyView,
    i: int,
    kind: EcdsaSubnetKind,
)
    requires
        topology.wf(),
        0 <= i < topology.subnets.len(),
        !topology.subnets[i].topology.ecdsa_keys_held.contains(key),
    ensures
        route_ecdsa_spec(key, topology, Some(topology.subnets[i].id), kind) == Outcome::Err(
            ResolveDestinationErrorView::EcdsaKeyError(
                EcdsaKeyErrorView::KeyNotHeld {
                    key,
                    subnet: topology.subnets[i].id,
                    held: topology.subnets[i].topology.ecdsa_keys_held,
                },
            ),
        ),
{
    lemma_subnet_found(topology, i);
}

/// A signature with a key that no subnet signs with is refused, and the
/// error lists the keys of the whole signing index.
pub proof fn lemma_no_signing_subnet(key: EcdsaKeyIdView, topology: NetworkTopologyView)
    requires
        topology.signing_subnets(key).len() == 0,
    ensures
        route_ecdsa_spec(key, topology, None, EcdsaSubnetKind::HoldsAndSignWithKey) == Outcome::Err(
            ResolveDestinationErrorView::EcdsaKeyError(
                EcdsaKeyErrorView::NoSigningSubnet { key, signing: topology.signing_keys() },
            ),
        ),
        forall|other: EcdsaKeyIdView|
            topology.signing_keys().contains(other) <==> exists|i: int|
                0 <= i < topology.ecdsa_signing_subnets.len() && (
                #[trigger] topology.ecdsa_signing_subnets[i]).key == other,
{
    let keys = topology.signing_keys();
    assert forall|other: EcdsaKeyIdView| keys.contains(other) <==> exists|i: int|
        0 <= i < topology.ecdsa_signing_subnets.len() && (
        #[trigger] topology.ecdsa_signing_subnets[i]).key == other by {
        if keys.contains(other) {
            let i = choose|i: int| 0 <= i < keys.len() && keys[i] == other;
            assert(topology.ecdsa_signing_subnets[i].key == other);
        }
        if exists|i: int|
            0 <= i < topology.ecdsa_signing_subnets.len() && (
            #[trigger] topology.ecdsa_signing_subnets[i]).key == other {
            let i = choose|i: int|
                0 <= i < topology.ecdsa_signing_subnets.len() && (
                #[trigger] topology.ecdsa_signing_subnets[i]).key == other;
            assert(keys[i] == other);
        }
    }
}

/// Where no signature is needed and no other subnet signs with the key, a
/// request about a key that some subnet holds goes to the holder with the
/// least identifier, whether that subnet signs with the key or not.
pub proof fn lemma_first_holder_serves(key: EcdsaKeyIdView, topology: NetworkTopologyView)
    requires
        topology.wf(),
        topology.first_holder(key) is Some,
        topology.signing_subnets(key).len() > 0 ==> topology.signing_subnets(key)[0]
            == topology.first_holder(key)->0,
    ensures
        route_ecdsa_spec(key, topology, None, EcdsaSubnetKind::OnlyHoldsKey) == Outcome::Ok(
            topology.first_holder(key)->0,
        ),
        forall|i: int|
            0 <= i < topology.subnets.len() && (
            #[trigger] topology.subnets[i]).topology.ecdsa_keys_held.contains(key) ==> lex_le(
                topology.first_holder(key)->0,
                topology.subnets[i].id,
            ),
{
    lemma_first_index_is_first(topology.subnets, holds(key));
    let first = first_index(topology.subnets, holds(key))->0;
    assert forall|i: int|
        0 <= i < topology.subnets.len() && (
        #[trigger] topology.subnets[i]).topology.ecdsa_keys_held.contains(key) implies lex_le(
        topology.subnets[first].id,
        topology.subnets[i].id,
    ) by {
        if i < first {
            assert(!holds(key)(topology.subnets[i]));
        }
    }
}

/// A request about a Bitcoin test network goes to the test canister where
/// the routing table has it, whichever subnets serve the test network.
pub proof fn lemma_testnet_canister_first(
    network: BitcoinNetwork,
    topology: NetworkTopologyView,
    own_subnet: Seq<u8>,
)
    requires
        network != BitcoinNetwork::Mainnet,
        topology.bitcoin_testnet_canister_id is Some,
        topology.routes(topology.bitcoin_testnet_canister_id->0),
    ensures
        route_bitcoin_spec(network, topology, own_subnet)
            == topology.bitcoin_testnet_canister_id->0,
{
}

/// A request about a Bitcoin test network stays on the own subnet where no
/// test canister is set and no subnet serves the test network.
pub proof fn lemma_testnet_falls_back(
    network: BitcoinNetwork,
    topology: NetworkTopologyView,
    own_subnet: Seq<u8>,
)
    requires
        network != BitcoinNetwork::Mainnet,
        topology.bitcoin_testnet_canister_id is None,
        forall|i: int|
            0 <= i < topology.subnets.len() ==> !(#[trigger] topology.subnets[i]).topology.bitcoin_testnet,
    ensures
        route_bitcoin_spec(network, topology, own_subnet) == own_subnet,
{
    assert forall|i: int| 0 <= i < topology.subnets.len() implies !serves_bitcoin_testnet()(
        #[trigger] topology.subnets[i],
    ) by {}
    lemma_first_index_none(topology.subnets, serves_bitcoin_testnet());
}

/// A request about the Bitcoin main network goes to the main canister where
/// one is set, whether the routing table has it or not.
pub proof fn lemma_mainnet_canister(topology: NetworkTopologyView, own_subnet: Seq<u8>)
    requires
        topology.bitcoin_mainnet_canister_id is Some,
    ensures
        route_bitcoin_spec(BitcoinNetwork::Mainnet, topology, own_subnet)
            == topology.bitcoin_mainnet_canister_id->0,
{
}

/// Resolving the same request twice on the same topology gives the same
/// destination or the same error.
pub proof fn lemma_resolution_repeats(
    topology: &NetworkTopology,
    request: &Request,
    own_subnet: SubnetId,
    first: Result<PrincipalId, ResolveDestinationError>,
    second: Result<PrincipalId, ResolveDestinationError>,
)
    requires
        call_ensures(resolve_destination, (topology, request, own_subnet), first),
        call_ensures(resolve_destination, (topology, request, own_subnet), second),
    ensures
        outcome(first) == outcome(second),
{
}

} // verus!

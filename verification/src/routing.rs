//! Where a call to the management canister is sent: the rules that pick the
//! subnet or canister that serves it.

use vstd::prelude::*;
use crate::errors::{
    outcome, EcdsaKeyError, EcdsaKeyErrorView, Outcome, ResolveDestinationError,
    ResolveDestinationErrorView,
};
use crate::ids::{lemma_canister_of_subnet, CanisterId, PrincipalId, SubnetId};
use crate::keys::{clone_keys, keys_view, lemma_listing_unique, listing, EcdsaKeyId, EcdsaKeyIdView};
use crate::method::Method;
use crate::topology::{route_spec, NetworkTopology, NetworkTopologyView};

verus! {

/// The Bitcoin network that a request is about.
#[derive(Clone, Copy, Debug, PartialEq, Eq, Hash, Structural)]
pub enum BitcoinNetwork {
    /// The main network.
    Mainnet,
    /// The public test network.
    Testnet,
    /// A local network for regression tests; it is served where the test network is.
    Regtest,
}

/// What is asked of the subnet that a request about a key is sent to.
#[derive(Clone, Copy, Debug, PartialEq, Eq, Hash, Structural)]
pub enum EcdsaSubnetKind {
    /// The subnet holds a share of the key.
    OnlyHoldsKey,
    /// The subnet holds a share of the key and signs with it.
    HoldsAndSignWithKey,
}

/// The destination of a request about `key`: the subnet asked for, where it
/// holds the key; else the first subnet that signs with the key; else, where
/// no signature is needed, the first subnet that holds it.
pub open spec fn route_ecdsa_spec(
    key: EcdsaKeyIdView,
    topology: NetworkTopologyView,
    requested_subnet: Option<Seq<u8>>,
    kind: EcdsaSubnetKind,
) -> Outcome {
    match requested_subnet {
        Some(subnet) => match topology.subnet(subnet) {
            None => Err(
                ResolveDestinationErrorView::EcdsaKeyError(
                    EcdsaKeyErrorView::UnknownSubnet { key, subnet },
                ),
            ),
            Some(found) => if found.ecdsa_keys_held.contains(key) {
                Ok(subnet)
            } else {
                Err(
                    ResolveDestinationErrorView::EcdsaKeyError(
                        EcdsaKeyErrorView::KeyNotHeld { key, subnet, held: found.ecdsa_keys_held },
                    ),
                )
            },
        },
        None => if topology.signing_subnets(key).len() > 0 {
            Ok(topology.signing_subnets(key)[0])
        } else {
            match kind {
                EcdsaSubnetKind::HoldsAndSignWithKey => Err(
                    ResolveDestinationErrorView::EcdsaKeyError(
                        EcdsaKeyErrorView::NoSigningSubnet { key, signing: topology.signing_keys() },
                    ),
                ),
                EcdsaSubnetKind::OnlyHoldsKey => match topology.first_holder(key) {
                    Some(subnet) => Ok(subnet),
                    None => Err(
                        ResolveDestinationErrorView::EcdsaKeyError(
                            EcdsaKeyErrorView::NoHolder {
                                key,
                                existing: listing(topology.held_keys()),
                            },
                        ),
                    ),
                },
            }
        },
    }
}

/// The destination of a request about a Bitcoin network. For the test
/// networks: the test canister where the routing table has it, else the first
/// subnet that serves the test network, else the own subnet. For the main
/// network: the main canister where one is set, else the own subnet.
pub open spec fn route_bitcoin_spec(
    network: BitcoinNetwork,
    topology: NetworkTopologyView,
    own_subnet: Seq<u8>,
) -> Seq<u8> {
    match network {
        BitcoinNetwork::Mainnet => match topology.bitcoin_mainnet_canister_id {
            Some(canister) => canister,
            None => own_subnet,
        },
        BitcoinNetwork::Testnet | BitcoinNetwork::Regtest => if topology.bitcoin_testnet_canister_id is Some
            && topology.routes(topology.bitcoin_testnet_canister_id->0) {
            topology.bitcoin_testnet_canister_id->0
        } else {
            match topology.first_bitcoin_testnet_subnet() {
                Some(subnet) => subnet,
                None => own_subnet,
            }
        },
    }
}

/// The destination of a call of `method` on `canister`: the subnet that owns
/// the canister.
pub open spec fn route_canister_spec(
    topology: NetworkTopologyView,
    canister: Seq<u8>,
    method: Method,
) -> Outcome {
    match route_spec(topology.routing_table, canister) {
        Some(subnet) => Ok(subnet),
        None => Err(ResolveDestinationErrorView::SubnetNotFound(canister, method)),
    }
}

/// Routes a request about the key `key_id`. Where `requested_subnet` names a
/// subnet, the request goes there if the subnet holds the key, whether or not
/// it signs with it. Else it goes to the first subnet that signs with the
/// key, and where none does and no signature is needed, to the first subnet
/// that holds it.
pub fn route_ecdsa_message(
    key_id: &EcdsaKeyId,
    network_topology: &NetworkTopology,
    requested_subnet: &Option<SubnetId>,
    signing_must_be_enabled: EcdsaSubnetKind,
) -> (result: Result<PrincipalId, ResolveDestinationError>)
    ensures
        outcome(result) == route_ecdsa_spec(
            key_id@,
            network_topology@,
            match requested_subnet {
                Some(subnet) => Some(subnet@),
                None => None,
            },
            signing_must_be_enabled,
        ),
{
    match requested_subnet {
        Some(subnet_id) => match network_topology.subnet(subnet_id) {
            None => Err(
                ResolveDestinationError::EcdsaKeyError(
                    EcdsaKeyError::UnknownSubnet {
                        key_id: key_id.clone(),
                        subnet_id: subnet_id.clone(),
                    },
                ),
            ),
            Some(subnet_topology) => {
                if subnet_topology.ecdsa_keys_held.contains(key_id) {
                    Ok(subnet_id.get())
                } else {
                    Err(
                        ResolveDestinationError::EcdsaKeyError(
                            EcdsaKeyError::KeyNotHeld {
                                key_id: key_id.clone(),
                                subnet_id: subnet_id.clone(),
                                held_keys: clone_keys(subnet_topology.ecdsa_keys_held.key_list()),
                            },
                        ),
                    )
                }
            },
        },
        None => {
            // Where some subnet signs with the key, the first of them is the destination.
            match network_topology.signing_subnets(key_id) {
                Some(subnets) => {
                    if subnets.len() > 0 {
                        return Ok(subnets[0].get());
                    }
                },
                None => {},
            }
            // Else the request is refused, or, where no signature is needed,
            // goes to the first subnet that holds the key.
            match signing_must_be_enabled {
                EcdsaSubnetKind::HoldsAndSignWithKey => {
                    let signing_keys = clone_keys(network_topology.ecdsa_signing_subnets.key_list());
                    proof {
                        assert(keys_view(network_topology.ecdsa_signing_subnets.keys())
                            =~= network_topology@.signing_keys());
                    }
                    Err(
                        ResolveDestinationError::EcdsaKeyError(
                            EcdsaKeyError::NoSigningSubnet { key_id: key_id.clone(), signing_keys },
                        ),
                    )
                },
                EcdsaSubnetKind::OnlyHoldsKey => {
                    match network_topology.first_holder(key_id) {
                        Some(subnet_id) => Ok(subnet_id.get()),
                        None => {
                            let existing = network_topology.held_keys();
                            proof {
                                lemma_listing_unique(existing@, network_topology@.held_keys());
                            }
                            Err(
                                ResolveDestinationError::EcdsaKeyError(
                                    EcdsaKeyError::NoHolder {
                                        key_id: key_id.clone(),
                                        existing_keys: clone_keys(existing.key_list()),
                                    },
                                ),
                            )
                        },
                    }
                },
            }
        },
    }
}

/// Routes a request about a Bitcoin network.
pub fn route_bitcoin_message(
    network: BitcoinNetwork,
    network_topology: &NetworkTopology,
    own_subnet: SubnetId,
) -> (destination: PrincipalId)
    ensures
        destination@ == route_bitcoin_spec(network, network_topology@, own_subnet@),
{
    match network {
        BitcoinNetwork::Testnet | BitcoinNetwork::Regtest => {
            // The test canister comes first, if the routing table has it;
            // then a subnet that serves the test network; then the own subnet.
            match &network_topology.bitcoin_testnet_canister_id {
                Some(canister_id) => {
                    if network_topology.routing_table.route(canister_id.get_ref()).is_some() {
                        return canister_id.get();
                    }
                },
                None => {},
            }
            match network_topology.first_bitcoin_testnet_subnet() {
                Some(subnet_id) => subnet_id.get(),
                None => own_subnet.get(),
            }
        },
        BitcoinNetwork::Mainnet => {
            // The main canister is not looked up in the routing table.
            match &network_topology.bitcoin_mainnet_canister_id {
                Some(canister_id) => canister_id.get(),
                None => {
                    proof {
                        lemma_canister_of_subnet(own_subnet);
                    }
                    CanisterId::from(own_subnet).get()
                },
            }
        },
    }
}

/// Routes a call of `method` on the canister `canister_id` to the subnet that
/// owns the canister.
pub fn route_canister_message(
    network_topology: &NetworkTopology,
    canister_id: &CanisterId,
    method: Method,
) -> (result: Result<PrincipalId, ResolveDestinationError>)
    ensures
        outcome(result) == route_canister_spec(network_topology@, canister_id@, method),
{
    match network_topology.routing_table.route(canister_id.get_ref()) {
        Some(subnet_id) => Ok(subnet_id.get()),
        None => Err(ResolveDestinationError::SubnetNotFound(canister_id.clone(), method)),
    }
}

/// A call to the management canister: its method and, of its payload, what
/// decides where the call is sent.
#[derive(Debug)]
pub enum Request {
    /// Creates a canister.
    CreateCanister,
    /// Asks for random bytes.
    RawRand,
    /// Creates a canister with cycles, on a test network.
    ProvisionalCreateCanisterWithCycles,
    /// Makes an HTTP request to the outside.
    HttpRequest,
    /// Hands a Bitcoin transaction to the adapter of the own subnet.
    BitcoinSendTransactionInternal,
    /// Asks the adapter of the own subnet for the blocks that follow a block.
    BitcoinGetSuccessors,
    /// Sets up the first distributed key generation of a new subnet.
    SetupInitialDKG,
    /// Changes the settings of `canister_id`.
    UpdateSettings { canister_id: CanisterId },
    /// Installs code into `canister_id`.
    InstallCode { canister_id: CanisterId },
    /// Changes the controller of `canister_id`.
    SetController { canister_id: CanisterId },
    /// Asks for the status of `canister_id`.
    CanisterStatus { canister_id: CanisterId },
    /// Starts `canister_id`.
    StartCanister { canister_id: CanisterId },
    /// Stops `canister_id`.
    StopCanister { canister_id: CanisterId },
    /// Deletes `canister_id`.
    DeleteCanister { canister_id: CanisterId },
    /// Removes the code of `canister_id`.
    UninstallCode { canister_id: CanisterId },
    /// Deposits cycles into `canister_id`.
    DepositCycles { canister_id: CanisterId },
    /// Adds cycles to `canister_id`, on a test network.
    ProvisionalTopUpCanister { canister_id: CanisterId },
    /// Asks for the balance of an address on `network`.
    BitcoinGetBalance { network: BitcoinNetwork },
    /// Asks for the unspent outputs of an address on `network`.
    BitcoinGetUtxos { network: BitcoinNetwork },
    /// Sends a transaction to `network`.
    BitcoinSendTransaction { network: BitcoinNetwork },
    /// Asks for the current fee percentiles of `network`.
    BitcoinGetCurrentFeePercentiles { network: BitcoinNetwork },
    /// Asks for the public key of `key_id`.
    ECDSAPublicKey { key_id: EcdsaKeyId },
    /// Asks for a signature with `key_id`.
    SignWithECDSA { key_id: EcdsaKeyId },
    /// Computes the first dealings of `key_id` on the subnet `subnet_id`, which holds the key.
    ComputeInitialEcdsaDealings { key_id: EcdsaKeyId, subnet_id: SubnetId },
}

impl Request {
    /// The method that the request calls.
    pub open spec fn method_spec(self) -> Method {
        match self {
            Request::CreateCanister => Method::CreateCanister,
            Request::RawRand => Method::RawRand,
            Request::ProvisionalCreateCanisterWithCycles => Method::ProvisionalCreateCanisterWithCycles,
            Request::HttpRequest => Method::HttpRequest,
            Request::BitcoinSendTransactionInternal => Method::BitcoinSendTransactionInternal,
            Request::BitcoinGetSuccessors => Method::BitcoinGetSuccessors,
            Request::SetupInitialDKG => Method::SetupInitialDKG,
            Request::UpdateSettings { .. } => Method::UpdateSettings,
            Request::InstallCode { .. } => Method::InstallCode,
            Request::SetController { .. } => Method::SetController,
            Request::CanisterStatus { .. } => Method::CanisterStatus,
            Request::StartCanister { .. } => Method::StartCanister,
            Request::StopCanister { .. } => Method::StopCanister,
            Request::DeleteCanister { .. } => Method::DeleteCanister,
            Request::UninstallCode { .. } => Method::UninstallCode,
            Request::DepositCycles { .. } => Method::DepositCycles,
            Request::ProvisionalTopUpCanister { .. } => Method::ProvisionalTopUpCanister,
            Request::BitcoinGetBalance { .. } => Method::BitcoinGetBalance,
            Request::BitcoinGetUtxos { .. } => Method::BitcoinGetUtxos,
            Request::BitcoinSendTransaction { .. } => Method::BitcoinSendTransaction,
            Request::BitcoinGetCurrentFeePercentiles { .. } => Method::BitcoinGetCurrentFeePercentiles,
            Request::ECDSAPublicKey { .. } => Method::ECDSAPublicKey,
            Request::SignWithECDSA { .. } => Method::SignWithECDSA,
            Request::ComputeInitialEcdsaDealings { .. } => Method::ComputeInitialEcdsaDealings,
        }
    }

    /// The method that the request calls.
    pub fn method(&self) -> (method: Method)
        ensures
            method == self.method_spec(),
    {
        match self {
            Request::CreateCanister => Method::CreateCanister,
            Request::RawRand => Method::RawRand,
            Request::ProvisionalCreateCanisterWithCycles => Method::ProvisionalCreateCanisterWithCycles,
            Request::HttpRequest => Method::HttpRequest,
            Request::BitcoinSendTransactionInternal => Method::BitcoinSendTransactionInternal,
            Request::BitcoinGetSuccessors => Method::BitcoinGetSuccessors,
            Request::SetupInitialDKG => Method::SetupInitialDKG,
            Request::UpdateSettings { .. } => Method::UpdateSettings,
            Request::InstallCode { .. } => Method::InstallCode,
            Request::SetController { .. } => Method::SetController,
            Request::CanisterStatus { .. } => Method::CanisterStatus,
            Request::StartCanister { .. } => Method::StartCanister,
            Request::StopCanister { .. } => Method::StopCanister,
            Request::DeleteCanister { .. } => Method::DeleteCanister,
            Request::UninstallCode { .. } => Method::UninstallCode,
            Request::DepositCycles { .. } => Method::DepositCycles,
            Request::ProvisionalTopUpCanister { .. } => Method::ProvisionalTopUpCanister,
            Request::BitcoinGetBalance { .. } => Method::BitcoinGetBalance,
            Request::BitcoinGetUtxos { .. } => Method::BitcoinGetUtxos,
            Request::BitcoinSendTransaction { .. } => Method::BitcoinSendTransaction,
            Request::BitcoinGetCurrentFeePercentiles { .. } => Method::BitcoinGetCurrentFeePercentiles,
            Request::ECDSAPublicKey { .. } => Method::ECDSAPublicKey,
            Request::SignWithECDSA { .. } => Method::SignWithECDSA,
            Request::ComputeInitialEcdsaDealings { .. } => Method::ComputeInitialEcdsaDealings,
        }
    }
}

/// The methods that are served by the subnet on which they are called,
/// whatever the topology holds.
pub open spec fn served_locally(method: Method) -> bool {
    ||| method == Method::CreateCanister
    ||| method == Method::RawRand
    ||| method == Method::ProvisionalCreateCanisterWithCycles
    ||| method == Method::HttpRequest
    ||| method == Method::BitcoinSendTransactionInternal
    ||| method == Method::BitcoinGetSuccessors
    ||| method == Method::SetupInitialDKG
}

/// The methods that are called on a canister and served by the subnet that owns it.
pub open spec fn served_by_owner(method: Method) -> bool {
    ||| method == Method::UpdateSettings
    ||| method == Method::InstallCode
    ||| method == Method::SetController
    ||| method == Method::CanisterStatus
    ||| method == Method::StartCanister
    ||| method == Method::StopCanister
    ||| method == Method::DeleteCanister
    ||| method == Method::UninstallCode
    ||| method == Method::DepositCycles
    ||| method == Method::ProvisionalTopUpCanister
}

/// The canister that a request is about, if its method is called on one.
pub open spec fn target_canister(request: Request) -> Option<Seq<u8>> {
    match request {
        Request::UpdateSettings { canister_id } => Some(canister_id@),
        Request::InstallCode { canister_id } => Some(canister_id@),
        Request::SetController { canister_id } => Some(canister_id@),
        Request::CanisterStatus { canister_id } => Some(canister_id@),
        Request::StartCanister { canister_id } => Some(canister_id@),
        Request::StopCanister { canister_id } => Some(canister_id@),
        Request::DeleteCanister { canister_id } => Some(canister_id@),
        Request::UninstallCode { canister_id } => Some(canister_id@),
        Request::DepositCycles { canister_id } => Some(canister_id@),
        Request::ProvisionalTopUpCanister { canister_id } => Some(canister_id@),
        _ => None,
    }
}

/// The destination of `request` when it is made on the subnet `own_subnet`.
pub open spec fn resolve_spec(
    topology: NetworkTopologyView,
    request: Request,
    own_subnet: Seq<u8>,
) -> Outcome {
    match request {
        Request::CreateCanister
        | Request::RawRand
        | Request::ProvisionalCreateCanisterWithCycles
        | Request::HttpRequest
        | Request::BitcoinSendTransactionInternal
        | Request::BitcoinGetSuccessors
        | Request::SetupInitialDKG => Ok(own_subnet),
        Request::UpdateSettings { canister_id } => route_canister_spec(topology, canister_id@, Method::UpdateSettings),
        Request::InstallCode { canister_id } => route_canister_spec(topology, canister_id@, Method::InstallCode),
        Request::SetController { canister_id } => route_canister_spec(topology, canister_id@, Method::SetController),
        Request::CanisterStatus { canister_id } => route_canister_spec(topology, canister_id@, Method::CanisterStatus),
        Request::StartCanister { canister_id } => route_canister_spec(topology, canister_id@, Method::StartCanister),
        Request::StopCanister { canister_id } => route_canister_spec(topology, canister_id@, Method::StopCanister),
        Request::DeleteCanister { canister_id } => route_canister_spec(topology, canister_id@, Method::DeleteCanister),
        Request::UninstallCode { canister_id } => route_canister_spec(topology, canister_id@, Method::UninstallCode),
        Request::DepositCycles { canister_id } => route_canister_spec(topology, canister_id@, Method::DepositCycles),
        Request::ProvisionalTopUpCanister { canister_id } => route_canister_spec(topology, canister_id@, Method::ProvisionalTopUpCanister),
        Request::BitcoinGetBalance { network } => Ok(route_bitcoin_spec(network, topology, own_subnet)),
        Request::BitcoinGetUtxos { network } => Ok(route_bitcoin_spec(network, topology, own_subnet)),
        Request::BitcoinSendTransaction { network } => Ok(route_bitcoin_spec(network, topology, own_subnet)),
        Request::BitcoinGetCurrentFeePercentiles { network } => Ok(route_bitcoin_spec(network, topology, own_subnet)),
        Request::ECDSAPublicKey { key_id } => route_ecdsa_spec(
            key_id@,
            topology,
            None,
            EcdsaSubnetKind::OnlyHoldsKey,
        ),
        Request::SignWithECDSA { key_id } => route_ecdsa_spec(
            key_id@,
            topology,
            None,
            EcdsaSubnetKind::HoldsAndSignWithKey,
        ),
        Request::ComputeInitialEcdsaDealings { key_id, subnet_id } => route_ecdsa_spec(
            key_id@,
            topology,
            Some(subnet_id@),
            EcdsaSubnetKind::OnlyHoldsKey,
        ),
    }
}

/// Tells the method that is called under `method_name`, or that there is none.
pub fn classify_method(method_name: &str) -> (result: Result<Method, ResolveDestinationError>)
    ensures
        match result {
            Ok(method) => method_name@ == method.name_spec(),
            Err(error) => {
                &&& error@ == ResolveDestinationErrorView::MethodNotFound(method_name@)
                &&& forall|method: Method| method_name@ != #[trigger] method.name_spec()
            },
        },
{
    match Method::from_name(method_name) {
        Some(method) => Ok(method),
        None => Err(ResolveDestinationError::MethodNotFound(String::from_str(method_name))),
    }
}

/// Finds the subnet or canister to which `request`, made on the subnet
/// `own_subnet`, is sent.
pub fn resolve_destination(
    network_topology: &NetworkTopology,
    request: &Request,
    own_subnet: SubnetId,
) -> (result: Result<PrincipalId, ResolveDestinationError>)
    ensures
        outcome(result) == resolve_spec(network_topology@, *request, own_subnet@),
{
    match request {
        Request::CreateCanister
        | Request::RawRand
        | Request::ProvisionalCreateCanisterWithCycles
        | Request::HttpRequest
        | Request::BitcoinSendTransactionInternal
        | Request::BitcoinGetSuccessors => Ok(own_subnet.get()),
        // Only the subnet that may set up a new subnet makes this call, so it
        // is served where it is made.
        Request::SetupInitialDKG => Ok(own_subnet.get()),
        Request::UpdateSettings { canister_id } => route_canister_message(
            network_topology,
            canister_id,
            Method::UpdateSettings,
        ),
        Request::InstallCode { canister_id } => route_canister_message(
            network_topology,
            canister_id,
            Method::InstallCode,
        ),
        Request::SetController { canister_id } => route_canister_message(
            network_topology,
            canister_id,
            Method::SetController,
        ),
        Request::CanisterStatus { canister_id } => route_canister_message(
            network_topology,
            canister_id,
            Method::CanisterStatus,
        ),
        Request::StartCanister { canister_id } => route_canister_message(
            network_topology,
            canister_id,
            Method::StartCanister,
        ),
        Request::StopCanister { canister_id } => route_canister_message(
            network_topology,
            canister_id,
            Method::StopCanister,
        ),
        Request::DeleteCanister { canister_id } => route_canister_message(
            network_topology,
            canister_id,
            Method::DeleteCanister,
        ),
        Request::UninstallCode { canister_id } => route_canister_message(
            network_topology,
            canister_id,
            Method::UninstallCode,
        ),
        Request::DepositCycles { canister_id } => route_canister_message(
            network_topology,
            canister_id,
            Method::DepositCycles,
        ),
        Request::ProvisionalTopUpCanister { canister_id } => route_canister_message(
            network_topology,
            canister_id,
            Method::ProvisionalTopUpCanister,
        ),
        Request::BitcoinGetBalance { network } => Ok(
            route_bitcoin_message(*network, network_topology, own_subnet),
        ),
        Request::BitcoinGetUtxos { network } => Ok(
            route_bitcoin_message(*network, network_topology, own_subnet),
        ),
        Request::BitcoinSendTransaction { network } => Ok(
            route_bitcoin_message(*network, network_topology, own_subnet),
        ),
        Request::BitcoinGetCurrentFeePercentiles { network } => Ok(
            route_bitcoin_message(*network, network_topology, own_subnet),
        ),
        Request::ECDSAPublicKey { key_id } => route_ecdsa_message(
            key_id,
            network_topology,
            &None,
            EcdsaSubnetKind::OnlyHoldsKey,
        ),
        Request::SignWithECDSA { key_id } => route_ecdsa_message(
            key_id,
            network_topology,
            &None,
            EcdsaSubnetKind::HoldsAndSignWithKey,
        ),
        Request::ComputeInitialEcdsaDealings { key_id, subnet_id } => route_ecdsa_message(
            key_id,
            network_topology,
            &Some(subnet_id.clone()),
            EcdsaSubnetKind::OnlyHoldsKey,
        ),
    }
}

/// Finds the destination of a call of which `decoded` is what the decoder
/// made of the payload: where it refused the payload, its error is the
/// result; else the request is resolved.
pub fn resolve_decoded(
    network_topology: &NetworkTopology,
    decoded: Result<Request, candid::Error>,
    own_subnet: SubnetId,
) -> (result: Result<PrincipalId, ResolveDestinationError>)
    ensures
        outcome(result) == match decoded {
            Ok(request) => resolve_spec(network_topology@, request, own_subnet@),
            Err(error) => Outcome::Err(ResolveDestinationErrorView::CandidError(error)),
        },
{
    match decoded {
        Ok(request) => resolve_destination(network_topology, &request, own_subnet),
        Err(error) => Err(ResolveDestinationError::from(error)),
    }
}

} // verus!

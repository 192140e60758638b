use ic_routing::ids::{CanisterId, PrincipalId, SubnetId};
use ic_routing::keys::{EcdsaCurve, EcdsaKeyId};
use ic_routing::method::Method;
use ic_routing::errors::{format_keys, EcdsaKeyError, ResolveDestinationError};
use ic_routing::routing::{
    classify_method, resolve_decoded, resolve_destination, route_bitcoin_message,
    route_canister_message, route_ecdsa_message, BitcoinNetwork, EcdsaSubnetKind, Request,
};
use ic_routing::topology::{CanisterIdRange, NetworkTopology, SubnetTopology};

fn key_id1() -> EcdsaKeyId {
    EcdsaKeyId {
        curve: EcdsaCurve::Secp256k1,
        name: "some_key".to_string(),
    }
}

fn key_id2() -> EcdsaKeyId {
    EcdsaKeyId {
        curve: EcdsaCurve::Secp256k1,
        name: "other_key".to_string(),
    }
}

fn new_subnet_test_id(n: u64) -> PrincipalId {
    let mut bytes = n.to_le_bytes().to_vec();
    bytes.push(0xfc);
    bytes.push(0x01);
    PrincipalId::try_from_slice(&bytes).unwrap()
}

fn subnet_test_id(n: u64) -> SubnetId {
    SubnetId::new(new_subnet_test_id(n))
}

fn canister_test_id(n: u64) -> CanisterId {
    let mut bytes = n.to_be_bytes().to_vec();
    bytes.push(0x01);
    bytes.push(0x01);
    CanisterId::new(PrincipalId::try_from_slice(&bytes).unwrap())
}

fn subnet_with_keys(keys: Vec<EcdsaKeyId>) -> SubnetTopology {
    let mut subnet = SubnetTopology::default();
    for key in keys {
        subnet.ecdsa_keys_held.insert(key);
    }
    subnet
}

/// Two subnets have key_id1, but only one of the subnets is enabled
/// to sign with it.
/// Only one subnet has key_id2, and it isn't enabled to sign with it.
fn network_with_ecdsa_subnets() -> NetworkTopology {
    let subnet_id0 = subnet_test_id(0);
    let mut topology = NetworkTopology::default();
    // Only subnet 0 can sign with the first key.
    topology
        .ecdsa_signing_subnets
        .insert(key_id1(), vec![subnet_id0.clone()]);
    // Subnet 0 holds both keys.
    topology
        .subnets
        .insert(subnet_id0, subnet_with_keys(vec![key_id1(), key_id2()]));
    // Subnet 1 holds only the first key.
    topology
        .subnets
        .insert(subnet_test_id(1), subnet_with_keys(vec![key_id1()]));
    topology
        .subnets
        .insert(subnet_test_id(2), SubnetTopology::default());
    topology
}

fn network_without_ecdsa_subnet() -> NetworkTopology {
    NetworkTopology::default()
}

fn compute_initial_ecdsa_dealings_req(key_id: EcdsaKeyId, subnet_id: SubnetId) -> Request {
    Request::ComputeInitialEcdsaDealings { key_id, subnet_id }
}

fn ecdsa_sign_req(key_id: EcdsaKeyId) -> Request {
    Request::SignWithECDSA { key_id }
}

fn public_key_req(key_id: EcdsaKeyId) -> Request {
    Request::ECDSAPublicKey { key_id }
}

/// Resolves a call as it arrives: under the name of its method.
fn resolve(
    topology: &NetworkTopology,
    method_name: &str,
    request: &Request,
    own_subnet: SubnetId,
) -> Result<PrincipalId, ResolveDestinationError> {
    let method = classify_method(method_name)?;
    assert_eq!(method, request.method());
    resolve_destination(topology, request, own_subnet)
}

fn key_error(result: Result<PrincipalId, ResolveDestinationError>) -> String {
    match result.unwrap_err() {
        ResolveDestinationError::EcdsaKeyError(err) => err.message(),
        other => panic!("unexpected error: {:?}", other),
    }
}

#[test]
fn resolve_compute_initial_ecdsa_dealings() {
    assert_eq!(
        resolve(
            &network_with_ecdsa_subnets(),
            Method::ComputeInitialEcdsaDealings.name(),
            &compute_initial_ecdsa_dealings_req(key_id1(), subnet_test_id(1)),
            subnet_test_id(2),
        )
        .unwrap(),
        new_subnet_test_id(1)
    )
}

#[test]
fn resolve_compute_initial_ecdsa_dealings_key_not_held_error() {
    assert_eq!(
        key_error(resolve(
            &network_with_ecdsa_subnets(),
            Method::ComputeInitialEcdsaDealings.name(),
            &compute_initial_ecdsa_dealings_req(key_id1(), subnet_test_id(2)),
            subnet_test_id(2),
        )),
        format!(
            "Requested ECDSA key {} on subnet {}, subnet has keys: []",
            key_id1().to_text(),
            subnet_test_id(2).to_text()
        )
    )
}

#[test]
fn resolve_compute_initial_ecdsa_dealings_unknown_subnet_error() {
    assert_eq!(
        key_error(resolve(
            &network_with_ecdsa_subnets(),
            Method::ComputeInitialEcdsaDealings.name(),
            &compute_initial_ecdsa_dealings_req(key_id1(), subnet_test_id(3)),
            subnet_test_id(2),
        )),
        format!(
            "Requested ECDSA key {} from unknown subnet {}",
            key_id1().to_text(),
            subnet_test_id(3).to_text()
        )
    )
}

#[test]
fn resolve_compute_initial_ecdsa_dealings_wrong_subnet_error() {
    assert_eq!(
        key_error(resolve(
            &network_with_ecdsa_subnets(),
            Method::ComputeInitialEcdsaDealings.name(),
            // Subnet 2 doesn't have the requested key.
            &compute_initial_ecdsa_dealings_req(key_id1(), subnet_test_id(2)),
            subnet_test_id(2),
        )),
        format!(
            "Requested ECDSA key {} on subnet {}, subnet has keys: []",
            key_id1().to_text(),
            subnet_test_id(2).to_text(),
        )
    )
}

#[test]
fn resolve_compute_initial_ecdsa_dealings_subnet_not_found_error() {
    assert_eq!(
        key_error(resolve(
            &network_with_ecdsa_subnets(),
            Method::ComputeInitialEcdsaDealings.name(),
            // Subnet 3 doesn't exist
            &compute_initial_ecdsa_dealings_req(key_id1(), subnet_test_id(3)),
            subnet_test_id(2),
        )),
        format!(
            "Requested ECDSA key {} from unknown subnet {}",
            key_id1().to_text(),
            subnet_test_id(3).to_text(),
        )
    )
}

#[test]
fn resolve_ecdsa_sign() {
    assert_eq!(
        resolve(
            &network_with_ecdsa_subnets(),
            Method::SignWithECDSA.name(),
            &ecdsa_sign_req(key_id1()),
            subnet_test_id(1),
        )
        .unwrap(),
        new_subnet_test_id(0)
    )
}

#[test]
fn resolve_ecdsa_sign_error() {
    assert_eq!(
        key_error(resolve(
            &network_without_ecdsa_subnet(),
            Method::SignWithECDSA.name(),
            &ecdsa_sign_req(key_id1()),
            subnet_test_id(1),
        )),
        format!(
            "Requested ECDSA key: {}, existing keys with signing enabled: []",
            key_id1().to_text()
        )
    )
}

#[test]
fn resolve_ecdsa_public_key_works_without_signing_enabled() {
    assert_eq!(
        resolve(
            &network_with_ecdsa_subnets(),
            Method::ECDSAPublicKey.name(),
            &public_key_req(key_id2()),
            subnet_test_id(1),
        )
        .unwrap(),
        new_subnet_test_id(0)
    )
}

#[test]
fn resolve_ecdsa_initial_dealings_works_without_signing_enabled() {
    assert_eq!(
        resolve(
            &network_with_ecdsa_subnets(),
            Method::ComputeInitialEcdsaDealings.name(),
            &compute_initial_ecdsa_dealings_req(key_id2(), subnet_test_id(0)),
            subnet_test_id(1),
        )
        .unwrap(),
        new_subnet_test_id(0)
    )
}

#[test]
fn error_texts_are_spelled_out() {
    let topology = network_with_ecdsa_subnets();
    assert_eq!(
        key_error(route_ecdsa_message(
            &key_id1(),
            &topology,
            &Some(subnet_test_id(3)),
            EcdsaSubnetKind::OnlyHoldsKey,
        )),
        "Requested ECDSA key Secp256k1:some_key from unknown subnet y6zu2-uqdaa-aaaaa-aaaap-yai"
    );
    assert_eq!(
        key_error(route_ecdsa_message(
            &key_id2(),
            &topology,
            &Some(subnet_test_id(1)),
            EcdsaSubnetKind::OnlyHoldsKey,
        )),
        "Requested ECDSA key Secp256k1:other_key on subnet yndj2-3ybaa-aaaaa-aaaap-yai, subnet has keys: [Secp256k1:some_key]"
    );
    assert_eq!(
        key_error(route_ecdsa_message(
            &key_id2(),
            &topology,
            &None,
            EcdsaSubnetKind::HoldsAndSignWithKey,
        )),
        "Requested ECDSA key: Secp256k1:other_key, existing keys with signing enabled: [Secp256k1:some_key]"
    );
    let missing = EcdsaKeyId {
        curve: EcdsaCurve::Secp256k1,
        name: "missing".to_string(),
    };
    assert_eq!(
        key_error(route_ecdsa_message(
            &missing,
            &topology,
            &None,
            EcdsaSubnetKind::OnlyHoldsKey,
        )),
        "Requested ECDSA key: Secp256k1:missing, existing keys: [Secp256k1:other_key, Secp256k1:some_key]"
    );
}

#[test]
fn format_keys_separates_with_commas() {
    assert_eq!(format_keys(&vec![]), "[]");
    assert_eq!(format_keys(&vec![key_id1()]), "[Secp256k1:some_key]");
    assert_eq!(
        format_keys(&vec![key_id1(), key_id2(), key_id1()]),
        "[Secp256k1:some_key, Secp256k1:other_key, Secp256k1:some_key]"
    );
}

#[test]
fn existing_keys_are_listed_once_and_in_order() {
    let mut topology = NetworkTopology::default();
    let key = |name: &str| EcdsaKeyId {
        curve: EcdsaCurve::Secp256k1,
        name: name.to_string(),
    };
    topology.subnets.insert(
        subnet_test_id(5),
        subnet_with_keys(vec![key("zeta"), key("beta")]),
    );
    topology.subnets.insert(
        subnet_test_id(4),
        subnet_with_keys(vec![key("beta"), key("alpha"), key("be")]),
    );
    assert_eq!(
        key_error(route_ecdsa_message(
            &key("gamma"),
            &topology,
            &None,
            EcdsaSubnetKind::OnlyHoldsKey,
        )),
        "Requested ECDSA key: Secp256k1:gamma, existing keys: [Secp256k1:alpha, Secp256k1:be, Secp256k1:beta, Secp256k1:zeta]"
    );
}

#[test]
fn requested_subnet_is_honoured_without_signing() {
    // Subnet 1 holds the first key and does not sign with it.
    for kind in [
        EcdsaSubnetKind::OnlyHoldsKey,
        EcdsaSubnetKind::HoldsAndSignWithKey,
    ] {
        assert_eq!(
            route_ecdsa_message(
                &key_id1(),
                &network_with_ecdsa_subnets(),
                &Some(subnet_test_id(1)),
                kind,
            )
            .unwrap(),
            new_subnet_test_id(1)
        );
    }
}

#[test]
fn signing_subnet_comes_before_holders() {
    let mut topology = network_with_ecdsa_subnets();
    // Subnet 1 signs with the first key now; subnet 0 still holds it.
    topology
        .ecdsa_signing_subnets
        .insert(key_id1(), vec![subnet_test_id(1), subnet_test_id(0)]);
    for kind in [
        EcdsaSubnetKind::OnlyHoldsKey,
        EcdsaSubnetKind::HoldsAndSignWithKey,
    ] {
        assert_eq!(
            route_ecdsa_message(&key_id1(), &topology, &None, kind).unwrap(),
            new_subnet_test_id(1)
        );
    }
}

#[test]
fn first_holder_is_the_least_subnet() {
    let mut topology = NetworkTopology::default();
    topology
        .subnets
        .insert(subnet_test_id(7), subnet_with_keys(vec![key_id2()]));
    topology
        .subnets
        .insert(subnet_test_id(3), subnet_with_keys(vec![key_id2()]));
    topology
        .subnets
        .insert(subnet_test_id(1), subnet_with_keys(vec![key_id1()]));
    // Another subnet signs with another key.
    topology
        .ecdsa_signing_subnets
        .insert(key_id1(), vec![subnet_test_id(1)]);
    assert_eq!(
        route_ecdsa_message(
            &key_id2(),
            &topology,
            &None,
            EcdsaSubnetKind::OnlyHoldsKey
        )
        .unwrap(),
        new_subnet_test_id(3)
    );
}

#[test]
fn empty_signing_entry_counts_as_none() {
    let mut topology = network_with_ecdsa_subnets();
    topology.ecdsa_signing_subnets.insert(key_id2(), vec![]);
    assert_eq!(
        key_error(route_ecdsa_message(
            &key_id2(),
            &topology,
            &None,
            EcdsaSubnetKind::HoldsAndSignWithKey,
        )),
        "Requested ECDSA key: Secp256k1:other_key, existing keys with signing enabled: [Secp256k1:other_key, Secp256k1:some_key]"
    );
    assert_eq!(
        route_ecdsa_message(
            &key_id2(),
            &topology,
            &None,
            EcdsaSubnetKind::OnlyHoldsKey
        )
        .unwrap(),
        new_subnet_test_id(0)
    );
}

#[test]
fn local_methods_stay_on_own_subnet() {
    let topology = network_with_ecdsa_subnets();
    for request in [
        Request::CreateCanister,
        Request::RawRand,
        Request::ProvisionalCreateCanisterWithCycles,
        Request::HttpRequest,
        Request::BitcoinSendTransactionInternal,
        Request::BitcoinGetSuccessors,
        Request::SetupInitialDKG,
    ] {
        assert_eq!(
            resolve_destination(&topology, &request, subnet_test_id(9)).unwrap(),
            new_subnet_test_id(9)
        );
        assert_eq!(
            resolve_destination(&NetworkTopology::default(), &request, subnet_test_id(9)).unwrap(),
            new_subnet_test_id(9)
        );
    }
}

fn network_with_ranges() -> NetworkTopology {
    let mut topology = NetworkTopology::default();
    topology
        .routing_table
        .insert(
            CanisterIdRange {
                start: canister_test_id(0x100),
                end: canister_test_id(0x1ff),
            },
            subnet_test_id(1),
        )
        .unwrap();
    topology
        .routing_table
        .insert(
            CanisterIdRange {
                start: canister_test_id(0),
                end: canister_test_id(0xff),
            },
            subnet_test_id(0),
        )
        .unwrap();
    topology
}

#[test]
fn canister_methods_go_to_the_owner() {
    let topology = network_with_ranges();
    let requests = |canister_id: fn() -> CanisterId| {
        vec![
            Request::UpdateSettings {
                canister_id: canister_id(),
            },
            Request::InstallCode {
                canister_id: canister_id(),
            },
            Request::SetController {
                canister_id: canister_id(),
            },
            Request::CanisterStatus {
                canister_id: canister_id(),
            },
            Request::StartCanister {
                canister_id: canister_id(),
            },
            Request::StopCanister {
                canister_id: canister_id(),
            },
            Request::DeleteCanister {
                canister_id: canister_id(),
            },
            Request::UninstallCode {
                canister_id: canister_id(),
            },
            Request::DepositCycles {
                canister_id: canister_id(),
            },
            Request::ProvisionalTopUpCanister {
                canister_id: canister_id(),
            },
        ]
    };
    for request in requests(|| canister_test_id(0x42)) {
        assert_eq!(
            resolve_destination(&topology, &request, subnet_test_id(9)).unwrap(),
            new_subnet_test_id(0)
        );
    }
    for request in requests(|| canister_test_id(0x1ff)) {
        assert_eq!(
            resolve_destination(&topology, &request, subnet_test_id(9)).unwrap(),
            new_subnet_test_id(1)
        );
    }
    for request in requests(|| canister_test_id(0x200)) {
        let method = request.method();
        match resolve_destination(&topology, &request, subnet_test_id(9)).unwrap_err() {
            ResolveDestinationError::SubnetNotFound(canister_id, found) => {
                assert_eq!(canister_id, canister_test_id(0x200));
                assert_eq!(found, method);
            }
            other => panic!("unexpected error: {:?}", other),
        }
    }
}

#[test]
fn route_canister_message_reports_the_method() {
    let topology = network_with_ranges();
    assert_eq!(
        route_canister_message(&topology, &canister_test_id(0x100), Method::StopCanister).unwrap(),
        new_subnet_test_id(1)
    );
    assert!(matches!(
        route_canister_message(&NetworkTopology::default(), &canister_test_id(1), Method::StopCanister),
        Err(ResolveDestinationError::SubnetNotFound(_, Method::StopCanister))
    ));
}

#[test]
fn unknown_method_is_reported_by_name() {
    match classify_method("no_such_method") {
        Err(ResolveDestinationError::MethodNotFound(name)) => assert_eq!(name, "no_such_method"),
        other => panic!("unexpected result: {:?}", other),
    }
    assert!(matches!(
        classify_method("Create_Canister"),
        Err(ResolveDestinationError::MethodNotFound(_))
    ));
    assert!(matches!(
        classify_method(""),
        Err(ResolveDestinationError::MethodNotFound(_))
    ));
    assert_eq!(
        classify_method("create_canister").unwrap(),
        Method::CreateCanister
    );
}

#[test]
fn bitcoin_testnet_prefers_the_canister_that_exists() {
    let mut topology = network_with_ranges();
    let mut serving = SubnetTopology::default();
    serving.bitcoin_testnet = true;
    topology.subnets.insert(subnet_test_id(6), serving);
    topology.bitcoin_testnet_canister_id = Some(canister_test_id(0x10));
    for network in [BitcoinNetwork::Testnet, BitcoinNetwork::Regtest] {
        assert_eq!(
            route_bitcoin_message(network, &topology, subnet_test_id(9)),
            canister_test_id(0x10).get()
        );
    }
    // A canister that no range holds is passed over.
    topology.bitcoin_testnet_canister_id = Some(canister_test_id(0x1000));
    for network in [BitcoinNetwork::Testnet, BitcoinNetwork::Regtest] {
        assert_eq!(
            route_bitcoin_message(network, &topology, subnet_test_id(9)),
            new_subnet_test_id(6)
        );
    }
}

#[test]
fn bitcoin_testnet_takes_the_first_serving_subnet() {
    let mut topology = NetworkTopology::default();
    for n in [8, 2, 5, 1] {
        let mut subnet = SubnetTopology::default();
        subnet.bitcoin_testnet = n != 1;
        topology.subnets.insert(subnet_test_id(n), subnet);
    }
    assert_eq!(
        route_bitcoin_message(BitcoinNetwork::Testnet, &topology, subnet_test_id(9)),
        new_subnet_test_id(2)
    );
    assert_eq!(
        resolve_destination(
            &topology,
            &Request::BitcoinGetUtxos {
                network: BitcoinNetwork::Regtest
            },
            subnet_test_id(9)
        )
        .unwrap(),
        new_subnet_test_id(2)
    );
}

#[test]
fn bitcoin_testnet_falls_back_to_own_subnet() {
    let topology = network_with_ecdsa_subnets();
    for network in [BitcoinNetwork::Testnet, BitcoinNetwork::Regtest] {
        assert_eq!(
            route_bitcoin_message(network, &topology, subnet_test_id(9)),
            new_subnet_test_id(9)
        );
    }
}

#[test]
fn bitcoin_mainnet_takes_the_canister_unseen() {
    let mut topology = NetworkTopology::default();
    assert_eq!(
        route_bitcoin_message(BitcoinNetwork::Mainnet, &topology, subnet_test_id(9)),
        new_subnet_test_id(9)
    );
    // No range holds the canister, and a subnet serves the test network.
    let mut serving = SubnetTopology::default();
    serving.bitcoin_testnet = true;
    topology.subnets.insert(subnet_test_id(6), serving);
    assert_eq!(
        route_bitcoin_message(BitcoinNetwork::Mainnet, &topology, subnet_test_id(9)),
        new_subnet_test_id(9)
    );
    topology.bitcoin_mainnet_canister_id = Some(canister_test_id(0x77));
    assert_eq!(
        route_bitcoin_message(BitcoinNetwork::Mainnet, &topology, subnet_test_id(9)),
        canister_test_id(0x77).get()
    );
    for request in [
        Request::BitcoinGetBalance {
            network: BitcoinNetwork::Mainnet,
        },
        Request::BitcoinGetUtxos {
            network: BitcoinNetwork::Mainnet,
        },
        Request::BitcoinSendTransaction {
            network: BitcoinNetwork::Mainnet,
        },
        Request::BitcoinGetCurrentFeePercentiles {
            network: BitcoinNetwork::Mainnet,
        },
    ] {
        assert_eq!(
            resolve_destination(&topology, &request, subnet_test_id(9)).unwrap(),
            canister_test_id(0x77).get()
        );
    }
}

#[test]
fn resolving_twice_gives_the_same() {
    let topology = network_with_ecdsa_subnets();
    let requests = [
        compute_initial_ecdsa_dealings_req(key_id1(), subnet_test_id(2)),
        ecdsa_sign_req(key_id2()),
        public_key_req(key_id2()),
        Request::RawRand,
        Request::StartCanister {
            canister_id: canister_test_id(1),
        },
    ];
    for request in requests.iter() {
        let first = resolve_destination(&topology, request, subnet_test_id(1));
        let second = resolve_destination(&topology, request, subnet_test_id(1));
        assert_eq!(format!("{:?}", first), format!("{:?}", second));
    }
}

#[test]
fn request_names_its_method() {
    assert_eq!(Request::RawRand.method(), Method::RawRand);
    assert_eq!(
        public_key_req(key_id1()).method(),
        Method::ECDSAPublicKey
    );
    assert_eq!(
        Request::BitcoinGetBalance {
            network: BitcoinNetwork::Testnet
        }
        .method(),
        Method::BitcoinGetBalance
    );
    assert_eq!(
        Request::ProvisionalTopUpCanister {
            canister_id: canister_test_id(3)
        }
        .method(),
        Method::ProvisionalTopUpCanister
    );
}

#[test]
fn refused_payload_gives_the_decoder_error() {
    let topology = network_with_ecdsa_subnets();
    let refused = candid::decode_one::<u64>(&[1, 2, 3]).unwrap_err();
    let text = refused.to_string();
    match resolve_decoded(&topology, Err(refused), subnet_test_id(1)).unwrap_err() {
        ResolveDestinationError::CandidError(error) => assert_eq!(error.to_string(), text),
        other => panic!("unexpected error: {:?}", other),
    }
    assert_eq!(
        resolve_decoded(&topology, Ok(ecdsa_sign_req(key_id1())), subnet_test_id(1)).unwrap(),
        new_subnet_test_id(0)
    );
    assert!(matches!(
        ResolveDestinationError::from(candid::decode_one::<u64>(&[]).unwrap_err()),
        ResolveDestinationError::CandidError(_)
    ));
}

#[test]
fn key_errors_hold_what_was_found() {
    let topology = network_with_ecdsa_subnets();
    match route_ecdsa_message(
        &key_id2(),
        &topology,
        &Some(subnet_test_id(1)),
        EcdsaSubnetKind::OnlyHoldsKey,
    )
    .unwrap_err()
    {
        ResolveDestinationError::EcdsaKeyError(EcdsaKeyError::KeyNotHeld {
            key_id,
            subnet_id,
            held_keys,
        }) => {
            assert_eq!(key_id, key_id2());
            assert_eq!(subnet_id, subnet_test_id(1));
            assert_eq!(held_keys, vec![key_id1()]);
        }
        other => panic!("unexpected error: {:?}", other),
    }
    match route_ecdsa_message(
        &key_id2(),
        &topology,
        &Some(subnet_test_id(8)),
        EcdsaSubnetKind::OnlyHoldsKey,
    )
    .unwrap_err()
    {
        ResolveDestinationError::EcdsaKeyError(EcdsaKeyError::UnknownSubnet {
            key_id,
            subnet_id,
        }) => {
            assert_eq!(key_id, key_id2());
            assert_eq!(subnet_id, subnet_test_id(8));
        }
        other => panic!("unexpected error: {:?}", other),
    }
    match route_ecdsa_message(
        &key_id2(),
        &topology,
        &None,
        EcdsaSubnetKind::HoldsAndSignWithKey,
    )
    .unwrap_err()
    {
        ResolveDestinationError::EcdsaKeyError(EcdsaKeyError::NoSigningSubnet {
            key_id,
            signing_keys,
        }) => {
            assert_eq!(key_id, key_id2());
            assert_eq!(signing_keys, vec![key_id1()]);
        }
        other => panic!("unexpected error: {:?}", other),
    }
    let missing = EcdsaKeyId {
        curve: EcdsaCurve::Secp256k1,
        name: "missing".to_string(),
    };
    match route_ecdsa_message(&missing, &topology, &None, EcdsaSubnetKind::OnlyHoldsKey)
        .unwrap_err()
    {
        ResolveDestinationError::EcdsaKeyError(EcdsaKeyError::NoHolder {
            key_id,
            existing_keys,
        }) => {
            assert_eq!(key_id, missing);
            assert_eq!(existing_keys, vec![key_id2(), key_id1()]);
        }
        other => panic!("unexpected error: {:?}", other),
    }
}

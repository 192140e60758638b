use ic_routing::ids::{CanisterId, NodeId, PrincipalId, SubnetId, UserId};
use ic_routing::keys::{clone_keys, EcdsaCurve, EcdsaKeyId, EcdsaKeySet};
use ic_routing::order::{bytes_eq, bytes_lt};
use ic_routing::sorted::{SortKey, SortedMap};
use ic_routing::text::str_eq;
use ic_routing::topology::{
    CanisterIdRange, NetworkTopology, RoutingTable, RoutingTableError, SubnetTopology,
};

fn principal(bytes: &[u8]) -> PrincipalId {
    PrincipalId::try_from_slice(bytes).unwrap()
}

fn canister(n: u64) -> CanisterId {
    let mut bytes = n.to_be_bytes().to_vec();
    bytes.push(0x01);
    bytes.push(0x01);
    CanisterId::new(principal(&bytes))
}

fn subnet(n: u8) -> SubnetId {
    SubnetId::new(principal(&[n, 0xfc, 0x01]))
}

fn range(start: u64, end: u64) -> CanisterIdRange {
    CanisterIdRange {
        start: canister(start),
        end: canister(end),
    }
}

fn key(name: &str) -> EcdsaKeyId {
    EcdsaKeyId {
        curve: EcdsaCurve::Secp256k1,
        name: name.to_string(),
    }
}

#[test]
fn bytes_are_ordered_lexicographically() {
    assert!(bytes_lt(&[], &[0]));
    assert!(!bytes_lt(&[], &[]));
    assert!(!bytes_lt(&[0], &[]));
    assert!(bytes_lt(&[1, 2], &[1, 3]));
    assert!(bytes_lt(&[1, 2], &[1, 2, 0]));
    assert!(!bytes_lt(&[1, 2, 0], &[1, 2]));
    assert!(bytes_lt(&[1, 255, 255], &[2]));
    assert!(!bytes_lt(&[2], &[1, 255, 255]));
    assert!(!bytes_lt(&[7, 7], &[7, 7]));
    assert!(bytes_eq(&[7, 7], &[7, 7]));
    assert!(!bytes_eq(&[7, 7], &[7, 8]));
    assert!(!bytes_eq(&[7, 7], &[7]));
    assert!(bytes_eq(&[], &[]));
}

#[test]
fn strings_compare_by_their_characters() {
    assert!(str_eq("", ""));
    assert!(str_eq("raw_rand", "raw_rand"));
    assert!(!str_eq("raw_rand", "raw_rana"));
    assert!(!str_eq("raw_rand", "raw_ran"));
    assert!(str_eq("gr\u{fc}n", "gr\u{fc}n"));
    assert!(!str_eq("gr\u{fc}n", "grun"));
}

#[test]
fn keys_are_ordered_by_name() {
    assert!(key("a").comes_before(&key("b")));
    assert!(key("a").comes_before(&key("ab")));
    assert!(!key("b").comes_before(&key("ab")));
    assert!(!key("a").comes_before(&key("a")));
    assert!(key("a").same_key(&key("a")));
    assert!(!key("a").same_key(&key("A")));
    assert!(key("Z").comes_before(&key("a")));
    assert_eq!(key("key_1").to_text(), "Secp256k1:key_1");
    assert_eq!(key("").to_text(), "Secp256k1:");
    assert_eq!(EcdsaCurve::Secp256k1.as_str(), "Secp256k1");
    assert_eq!(EcdsaCurve::Secp256k1.ordinal(), 0);
    assert_eq!(key("k").clone(), key("k"));
}

#[test]
fn subnets_are_ordered_by_their_bytes() {
    assert!(subnet(1).comes_before(&subnet(2)));
    assert!(!subnet(2).comes_before(&subnet(1)));
    assert!(subnet(2).same_key(&subnet(2)));
    assert!(SubnetId::new(principal(&[1])).comes_before(&SubnetId::new(principal(&[1, 0]))));
    assert!(SubnetId::new(principal(&[1, 9])).comes_before(&SubnetId::new(principal(&[2]))));
}

#[test]
fn sorted_map_keeps_keys_in_order() {
    let mut map: SortedMap<SubnetId, u32> = SortedMap::new();
    assert_eq!(map.len(), 0);
    assert_eq!(map.find(&subnet(1)), None);
    map.insert(subnet(5), 50);
    map.insert(subnet(1), 10);
    map.insert(subnet(9), 90);
    map.insert(subnet(3), 30);
    assert_eq!(map.len(), 4);
    assert_eq!(
        map.key_list(),
        &vec![subnet(1), subnet(3), subnet(5), subnet(9)]
    );
    assert_eq!(map.find(&subnet(1)), Some(0));
    assert_eq!(map.find(&subnet(5)), Some(2));
    assert_eq!(map.find(&subnet(9)), Some(3));
    assert_eq!(map.find(&subnet(4)), None);
    assert_eq!(map.find(&subnet(0)), None);
    assert_eq!(map.find(&subnet(10)), None);
    assert_eq!(*map.value_at(1), 30);
    assert_eq!(*map.key_at(1), subnet(3));
    // A key that is there keeps its place and takes the new value.
    map.insert(subnet(3), 33);
    assert_eq!(map.len(), 4);
    assert_eq!(*map.value_at(1), 33);
    assert_eq!(*map.value_at(0), 10);
    assert_eq!(*map.value_at(2), 50);
}

#[test]
fn key_set_holds_each_key_once() {
    let mut set = EcdsaKeySet::new();
    assert!(!set.contains(&key("a")));
    assert_eq!(set.key_list(), &Vec::<EcdsaKeyId>::new());
    set.insert(key("m"));
    set.insert(key("a"));
    set.insert(key("z"));
    set.insert(key("m"));
    set.insert(key("ma"));
    assert_eq!(
        set.key_list(),
        &vec![key("a"), key("m"), key("ma"), key("z")]
    );
    assert!(set.contains(&key("ma")));
    assert!(!set.contains(&key("mz")));
    set.insert_all(&vec![key("b"), key("a"), key("zz")]);
    assert_eq!(
        set.key_list(),
        &vec![key("a"), key("b"), key("m"), key("ma"), key("z"), key("zz")]
    );
    assert_eq!(&clone_keys(set.key_list()), set.key_list());
    assert_eq!(clone_keys(&vec![]), Vec::<EcdsaKeyId>::new());
}

#[test]
fn held_keys_are_the_union() {
    let mut topology = NetworkTopology::default();
    assert_eq!(topology.held_keys().key_list(), &Vec::<EcdsaKeyId>::new());
    let mut first = SubnetTopology::new();
    first.ecdsa_keys_held.insert_all(&vec![key("q"), key("c")]);
    let mut second = SubnetTopology::new();
    second.ecdsa_keys_held.insert_all(&vec![key("c"), key("a")]);
    topology.subnets.insert(subnet(2), first);
    topology.subnets.insert(subnet(1), second);
    topology.subnets.insert(subnet(3), SubnetTopology::new());
    assert_eq!(
        topology.held_keys().key_list(),
        &vec![key("a"), key("c"), key("q")]
    );
}

#[test]
fn routing_table_finds_the_range() {
    let mut table = RoutingTable::new();
    assert_eq!(table.len(), 0);
    assert_eq!(table.route(canister(5).get_ref()), None);
    assert_eq!(table.insert(range(10, 19), subnet(1)), Ok(()));
    assert_eq!(table.insert(range(30, 30), subnet(3)), Ok(()));
    assert_eq!(table.insert(range(0, 9), subnet(0)), Ok(()));
    assert_eq!(table.len(), 3);
    assert_eq!(table.route(canister(0).get_ref()), Some(subnet(0)));
    assert_eq!(table.route(canister(9).get_ref()), Some(subnet(0)));
    assert_eq!(table.route(canister(10).get_ref()), Some(subnet(1)));
    assert_eq!(table.route(canister(19).get_ref()), Some(subnet(1)));
    assert_eq!(table.route(canister(20).get_ref()), None);
    assert_eq!(table.route(canister(29).get_ref()), None);
    assert_eq!(table.route(canister(30).get_ref()), Some(subnet(3)));
    assert_eq!(table.route(canister(31).get_ref()), None);
    assert_eq!(table.route(&principal(&[])), None);
}

#[test]
fn routing_table_refuses_bad_ranges() {
    let mut table = RoutingTable::new();
    assert_eq!(
        table.insert(range(5, 4), subnet(1)),
        Err(RoutingTableError::EmptyRange)
    );
    assert_eq!(table.insert(range(10, 19), subnet(1)), Ok(()));
    assert_eq!(table.insert(range(30, 39), subnet(3)), Ok(()));
    for (start, end) in [
        (10, 19),
        (0, 10),
        (19, 25),
        (12, 13),
        (0, 100),
        (25, 30),
        (39, 39),
        (15, 35),
    ] {
        assert_eq!(
            table.insert(range(start, end), subnet(7)),
            Err(RoutingTableError::NotDisjoint)
        );
    }
    assert_eq!(table.len(), 2);
    assert_eq!(table.insert(range(20, 29), subnet(2)), Ok(()));
    assert_eq!(table.route(canister(25).get_ref()), Some(subnet(2)));
    assert_eq!(table.route(canister(35).get_ref()), Some(subnet(3)));
}

#[test]
fn topology_looks_up_subnets_and_signers() {
    let mut topology = NetworkTopology::default();
    topology.well_formed();
    assert!(topology.subnet(&subnet(1)).is_none());
    assert!(topology.signing_subnets(&key("k")).is_none());
    assert!(topology.first_holder(&key("k")).is_none());
    assert!(topology.first_bitcoin_testnet_subnet().is_none());
    let mut holder = SubnetTopology::new();
    holder.ecdsa_keys_held.insert(key("k"));
    let mut serving = SubnetTopology::new();
    serving.bitcoin_testnet = true;
    topology.subnets.insert(subnet(4), serving);
    topology.subnets.insert(subnet(2), holder);
    topology.subnets.insert(subnet(1), SubnetTopology::default());
    topology
        .ecdsa_signing_subnets
        .insert(key("k"), vec![subnet(2), subnet(1)]);
    topology.well_formed();
    assert!(topology
        .subnet(&subnet(2))
        .unwrap()
        .ecdsa_keys_held
        .contains(&key("k")));
    assert!(!topology.subnet(&subnet(4)).unwrap().ecdsa_keys_held.contains(&key("k")));
    assert!(topology.subnet(&subnet(4)).unwrap().bitcoin_testnet);
    assert!(topology.subnet(&subnet(3)).is_none());
    assert_eq!(
        topology.signing_subnets(&key("k")),
        Some(&vec![subnet(2), subnet(1)])
    );
    assert_eq!(topology.signing_subnets(&key("j")), None);
    assert_eq!(topology.first_holder(&key("k")), Some(&subnet(2)));
    assert_eq!(topology.first_holder(&key("j")), None);
    assert_eq!(topology.first_bitcoin_testnet_subnet(), Some(&subnet(4)));
}

#[test]
fn identifiers_wrap_their_principal() {
    let p = principal(&[1, 2, 3]);
    assert_eq!(SubnetId::new(p.clone()).get(), p);
    assert_eq!(SubnetId::new(p.clone()).get_ref(), &p);
    assert_eq!(CanisterId::new(p.clone()).get(), p);
    assert_eq!(CanisterId::new(p.clone()).get_ref(), &p);
    assert_eq!(UserId::new(p.clone()).get(), p);
    assert_eq!(NodeId::new(p.clone()).get(), p);
    assert_eq!(CanisterId::from(SubnetId::new(p.clone())).get(), p);
    assert_eq!(SubnetId::new(p.clone()).clone(), SubnetId::new(p.clone()));
    assert_eq!(UserId::new(p.clone()).clone(), UserId::new(p.clone()));
    assert_eq!(NodeId::new(p.clone()).clone(), NodeId::new(p.clone()));
    assert_eq!(CanisterId::new(p.clone()).clone(), CanisterId::new(p));
}

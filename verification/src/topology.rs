//! A snapshot of the network: which subnet owns which canister identifiers,
//! which keys each subnet holds, and which subnets sign with which key.

use vstd::prelude::*;
use crate::ids::{CanisterId, PrincipalId, SubnetId};
use crate::keys::{
    is_listing, keys_ascending, lemma_sort_bytes_injective, EcdsaKeyId, EcdsaKeyIdView, EcdsaKeySet,
};
use crate::order::{lemma_lex_le_not_gt, lemma_lex_transitive, lex_le, lex_lt};
use crate::seqs::{first_index, is_first, lemma_first_index_found, lemma_first_index_none};
use crate::sorted::{lemma_ascending_distinct, sort_bytes_of, SortKey, SortedMap};

verus! {

/// The identifiers from `start` to `end`, both included.
pub struct CanisterIdRange {
    pub start: CanisterId,
    pub end: CanisterId,
}

/// A range of identifiers and the subnet that owns it.
pub struct RouteView {
    pub start: Seq<u8>,
    pub end: Seq<u8>,
    pub subnet: Seq<u8>,
}

impl RouteView {
    /// `id` lies in the range.
    pub open spec fn contains(self, id: Seq<u8>) -> bool {
        lex_le(self.start, id) && lex_le(id, self.end)
    }

    /// The range ends before `other` starts, or starts after `other` ends.
    pub open spec fn disjoint(self, other: RouteView) -> bool {
        lex_lt(self.end, other.start) || lex_lt(other.end, self.start)
    }
}

/// The condition that picks the ranges in which `id` lies.
pub open spec fn owns(id: Seq<u8>) -> spec_fn(RouteView) -> bool {
    |route: RouteView| route.contains(id)
}

/// No range is empty, and each ends before the next starts.
pub open spec fn routes_wf(table: Seq<RouteView>) -> bool {
    &&& forall|i: int| 0 <= i < table.len() ==> lex_le((#[trigger] table[i]).start, table[i].end)
    &&& forall|i: int, j: int|
        0 <= i < j < table.len() ==> lex_lt((#[trigger] table[i]).end, (#[trigger] table[j]).start)
}

/// The subnet that owns the range in which `id` lies, if it lies in one.
pub open spec fn route_spec(table: Seq<RouteView>, id: Seq<u8>) -> Option<Seq<u8>> {
    match first_index(table, owns(id)) {
        Some(i) => Some(table[i].subnet),
        None => None,
    }
}

/// In a well-formed table an identifier lies in at most one range, so the
/// owner of any range in which it lies is the subnet it routes to.
pub proof fn lemma_route_unique(table: Seq<RouteView>, id: Seq<u8>, i: int)
    requires
        routes_wf(table),
        0 <= i < table.len(),
        table[i].contains(id),
    ensures
        route_spec(table, id) == Some(table[i].subnet),
{
    assert forall|j: int| 0 <= j < i implies !owns(id)(#[trigger] table[j]) by {
        if table[j].contains(id) {
            // id <= end_j < start_i <= id
            lemma_lex_le_not_gt(id, table[j].end);
            if table[i].start != id {
                lemma_lex_transitive(table[j].end, table[i].start, id);
            }
        }
    }
    assert(is_first(table, owns(id), i));
    lemma_first_index_found(table, owns(id), i);
}

/// `pos` is where a range that starts at `start` belongs in `table`: the
/// ranges before `pos`, and no others, end before `start`.
pub open spec fn is_route_place(table: Seq<RouteView>, pos: int, start: Seq<u8>) -> bool {
    &&& 0 <= pos <= table.len()
    &&& forall|j: int| 0 <= j < pos ==> lex_lt((#[trigger] table[j]).end, start)
    &&& pos < table.len() ==> !lex_lt(table[pos].end, start)
}

/// A range that is not empty and ends before the range at its place starts
/// shares no identifier with a range of the table, and the table stays well
/// formed when the range is put at its place.
pub proof fn lemma_insert_route(table: Seq<RouteView>, pos: int, added: RouteView)
    requires
        routes_wf(table),
        is_route_place(table, pos, added.start),
        lex_le(added.start, added.end),
        pos < table.len() ==> lex_lt(added.end, table[pos].start),
    ensures
        routes_wf(table.insert(pos, added)),
        forall|i: int| 0 <= i < table.len() ==> added.disjoint(#[trigger] table[i]),
{
    let after = table.insert(pos, added);
    assert forall|j: int| pos <= j < table.len() implies lex_lt(
        added.end,
        (#[trigger] table[j]).start,
    ) by {
        if j > pos {
            // added.end < start of the range at pos <= its end < start of the range at j
            let next = table[pos];
            assert(lex_lt(next.end, table[j].start));
            if next.start != next.end {
                lemma_lex_transitive(next.start, next.end, table[j].start);
            }
            lemma_lex_transitive(added.end, next.start, table[j].start);
        }
    }
    assert forall|i: int| 0 <= i < after.len() implies lex_le(
        (#[trigger] after[i]).start,
        after[i].end,
    ) by {
        if i < pos {
            assert(after[i] == table[i]);
        } else if i > pos {
            assert(after[i] == table[i - 1]);
        }
    }
    assert forall|i: int, j: int| 0 <= i < j < after.len() implies lex_lt(
        (#[trigger] after[i]).end,
        (#[trigger] after[j]).start,
    ) by {
        if i < pos {
            assert(after[i] == table[i]);
        } else if i > pos {
            assert(after[i] == table[i - 1]);
        }
        if j < pos {
            assert(after[j] == table[j]);
        } else if j > pos {
            assert(after[j] == table[j - 1]);
        }
    }
}

struct RouteEntry {
    start: CanisterId,
    end: CanisterId,
    subnet: SubnetId,
}

impl View for RouteEntry {
    type V = RouteView;

    closed spec fn view(&self) -> RouteView {
        RouteView { start: self.start@, end: self.end@, subnet: self.subnet@ }
    }
}

/// Why a range was not taken into a routing table.
#[derive(Clone, Copy, Debug, PartialEq, Eq, Structural)]
pub enum RoutingTableError {
    /// The range ends before it starts.
    EmptyRange,
    /// The range shares an identifier with a range of the table.
    NotDisjoint,
}

/// The ranges of canister identifiers that are assigned, each with the subnet
/// that owns it. The ranges share no identifier.
pub struct RoutingTable {
    entries: Vec<RouteEntry>,
}

impl View for RoutingTable {
    type V = Seq<RouteView>;

    closed spec fn view(&self) -> Seq<RouteView> {
        Seq::new(self.entries@.len(), |i: int| self.entries@[i]@)
    }
}

impl RoutingTable {
    #[verifier::type_invariant]
    spec fn inv(self) -> bool {
        routes_wf(self@)
    }

    /// A table without ranges.
    pub fn new() -> (table: Self)
        ensures
            table@.len() == 0,
    {
        RoutingTable { entries: Vec::new() }
    }

    /// The number of ranges.
    pub fn len(&self) -> (n: usize)
        ensures
            n == self@.len(),
            routes_wf(self@),
    {
        proof {
            use_type_invariant(self);
        }
        self.entries.len()
    }

    /// The subnet that owns the range in which `principal` lies.
    pub fn route(&self, principal: &PrincipalId) -> (owner: Option<SubnetId>)
        ensures
            routes_wf(self@),
            match owner {
                Some(subnet) => route_spec(self@, principal@) == Some(subnet@),
                None => route_spec(self@, principal@) is None,
            },
    {
        proof {
            use_type_invariant(self);
        }
        let ghost id = principal@;
        let mut i: usize = 0;
        while i < self.entries.len()
            invariant
                i <= self.entries.len(),
                id == principal@,
                routes_wf(self@),
                forall|j: int| 0 <= j < i ==> !owns(id)(#[trigger] self@[j]),
            decreases self.entries.len() - i,
        {
            let entry = &self.entries[i];
            proof {
                lemma_lex_le_not_gt(entry.start@, id);
                lemma_lex_le_not_gt(id, entry.end@);
                assert(self@[i as int] == entry@);
            }
            if !principal.precedes(entry.start.get_ref()) && !entry.end.get_ref().precedes(principal) {
                proof {
                    assert(is_first(self@, owns(id), i as int));
                    lemma_first_index_found(self@, owns(id), i as int);
                }
                return Some(entry.subnet.clone());
            }
            i += 1;
        }
        proof {
            lemma_first_index_none(self@, owns(id));
        }
        None
    }

    /// Takes `range` into the table as owned by `subnet`, unless it is empty
    /// or shares an identifier with a range of the table.
    pub fn insert(&mut self, range: CanisterIdRange, subnet: SubnetId) -> (done: Result<
        (),
        RoutingTableError,
    >)
        ensures
            routes_wf(final(self)@),
            ({
                let added = RouteView { start: range.start@, end: range.end@, subnet: subnet@ };
                let fits = forall|i: int|
                    0 <= i < old(self)@.len() ==> added.disjoint(#[trigger] old(self)@[i]);
                match done {
                    Ok(_) => {
                        &&& lex_le(added.start, added.end)
                        &&& fits
                        &&& exists|pos: int|
                            is_route_place(old(self)@, pos, added.start) && final(self)@ == old(
                                self,
                            )@.insert(pos, added)
                    },
                    Err(RoutingTableError::EmptyRange) => {
                        &&& !lex_le(added.start, added.end)
                        &&& final(self)@ == old(self)@
                    },
                    Err(RoutingTableError::NotDisjoint) => {
                        &&& lex_le(added.start, added.end)
                        &&& !fits
                        &&& final(self)@ == old(self)@
                    },
                }
            }),
    {
        proof {
            use_type_invariant(&*self);
        }
        let ghost table = self@;
        let ghost added = RouteView { start: range.start@, end: range.end@, subnet: subnet@ };
        proof {
            lemma_lex_le_not_gt(added.start, added.end);
        }
        if range.end.get_ref().precedes(range.start.get_ref()) {
            return Err(RoutingTableError::EmptyRange);
        }
        // The ranges that end before the new one starts stay in front of it.
        let mut pos: usize = 0;
        while pos < self.entries.len() && self.entries[pos].end.get_ref().precedes(
            range.start.get_ref(),
        )
            invariant
                pos <= self.entries.len(),
                table == self@,
                added.start == range.start@,
                forall|j: int| 0 <= j < pos ==> lex_lt((#[trigger] table[j]).end, added.start),
            decreases self.entries.len() - pos,
        {
            assert(table[pos as int] == self.entries@[pos as int]@);
            pos += 1;
        }
        // The next range, if there is one, has to start after the new one ends.
        if pos < self.entries.len() {
            assert(table[pos as int] == self.entries@[pos as int]@);
            if !range.end.get_ref().precedes(self.entries[pos].start.get_ref()) {
                assert(!added.disjoint(table[pos as int]));
                return Err(RoutingTableError::NotDisjoint);
            }
        }
        proof {
            lemma_insert_route(table, pos as int, added);
        }
        let entry = RouteEntry { start: range.start, end: range.end, subnet };
        let mut taken = RoutingTable { entries: Vec::new() };
        std::mem::swap(self, &mut taken);
        let RoutingTable { mut entries } = taken;
        entries.insert(pos, entry);
        proof {
            let now = Seq::new(entries@.len(), |i: int| entries@[i]@);
            assert(now =~= table.insert(pos as int, added));
        }
        *self = RoutingTable { entries };
        Ok(())
    }
}

/// What routing reads of one subnet.
pub struct SubnetTopology {
    /// The keys of which the subnet holds a share.
    pub ecdsa_keys_held: EcdsaKeySet,
    /// Whether the subnet serves requests for the Bitcoin test network.
    pub bitcoin_testnet: bool,
}

/// What a `SubnetTopology` stands for.
pub struct SubnetTopologyView {
    pub ecdsa_keys_held: Seq<EcdsaKeyIdView>,
    pub bitcoin_testnet: bool,
}

impl View for SubnetTopology {
    type V = SubnetTopologyView;

    open spec fn view(&self) -> SubnetTopologyView {
        SubnetTopologyView {
            ecdsa_keys_held: self.ecdsa_keys_held@,
            bitcoin_testnet: self.bitcoin_testnet,
        }
    }
}

impl SubnetTopology {
    /// A subnet that holds no key and does not serve the Bitcoin test network.
    pub fn new() -> (subnet: Self)
        ensures
            subnet@.ecdsa_keys_held.len() == 0,
            !subnet@.bitcoin_testnet,
    {
        SubnetTopology { ecdsa_keys_held: EcdsaKeySet::new(), bitcoin_testnet: false }
    }
}

impl Default for SubnetTopology {
    fn default() -> (subnet: Self)
        ensures
            subnet@.ecdsa_keys_held.len() == 0,
            !subnet@.bitcoin_testnet,
    {
        SubnetTopology::new()
    }
}

/// A subnet of the network, under its identifier.
pub struct SubnetEntry {
    pub id: Seq<u8>,
    pub topology: SubnetTopologyView,
}

/// A key and the subnets that sign with it. The first of them is the one that
/// requests are sent to.
pub struct SigningEntry {
    pub key: EcdsaKeyIdView,
    pub subnets: Seq<Seq<u8>>,
}

/// What a `NetworkTopology` stands for.
pub struct NetworkTopologyView {
    /// The subnets, in ascending order of their identifiers.
    pub subnets: Seq<SubnetEntry>,
    /// The ranges of canister identifiers, each with its owner.
    pub routing_table: Seq<RouteView>,
    /// The keys that some subnet signs with, in ascending order.
    pub ecdsa_signing_subnets: Seq<SigningEntry>,
    /// The canister that serves the Bitcoin test network.
    pub bitcoin_testnet_canister_id: Option<Seq<u8>>,
    /// The canister that serves the Bitcoin main network.
    pub bitcoin_mainnet_canister_id: Option<Seq<u8>>,
}

/// The condition that picks the subnet with the identifier `id`.
pub open spec fn has_id(id: Seq<u8>) -> spec_fn(SubnetEntry) -> bool {
    |entry: SubnetEntry| entry.id == id
}

/// The condition that picks the subnets that hold `key`.
pub open spec fn holds(key: EcdsaKeyIdView) -> spec_fn(SubnetEntry) -> bool {
    |entry: SubnetEntry| entry.topology.ecdsa_keys_held.contains(key)
}

/// The condition that picks the subnets that serve the Bitcoin test network.
pub open spec fn serves_bitcoin_testnet() -> spec_fn(SubnetEntry) -> bool {
    |entry: SubnetEntry| entry.topology.bitcoin_testnet
}

/// The condition that picks the entry of `key` in the signing index.
pub open spec fn signs_with(key: EcdsaKeyIdView) -> spec_fn(SigningEntry) -> bool {
    |entry: SigningEntry| entry.key == key
}

impl NetworkTopologyView {
    /// The subnets ascend strictly by their identifiers, the entries of the
    /// signing index by their keys, and the routing table is well formed.
    pub open spec fn wf(self) -> bool {
        &&& forall|i: int, j: int|
            0 <= i < j < self.subnets.len() ==> lex_lt(
                (#[trigger] self.subnets[i]).id,
                (#[trigger] self.subnets[j]).id,
            )
        &&& forall|i: int, j: int|
            0 <= i < j < self.ecdsa_signing_subnets.len() ==> (
            #[trigger] self.ecdsa_signing_subnets[i]).key.lt(
                (#[trigger] self.ecdsa_signing_subnets[j]).key,
            )
        &&& routes_wf(self.routing_table)
    }

    /// The subnet with the identifier `id`, if the network has it.
    pub open spec fn subnet(self, id: Seq<u8>) -> Option<SubnetTopologyView> {
        match first_index(self.subnets, has_id(id)) {
            Some(i) => Some(self.subnets[i].topology),
            None => None,
        }
    }

    /// Whether the signing index has an entry for `key`.
    pub open spec fn has_signing_entry(self, key: EcdsaKeyIdView) -> bool {
        first_index(self.ecdsa_signing_subnets, signs_with(key)) is Some
    }

    /// The subnets that sign with `key`, in the order of the signing index.
    /// Empty where no subnet signs with it.
    pub open spec fn signing_subnets(self, key: EcdsaKeyIdView) -> Seq<Seq<u8>> {
        match first_index(self.ecdsa_signing_subnets, signs_with(key)) {
            Some(i) => self.ecdsa_signing_subnets[i].subnets,
            None => Seq::empty(),
        }
    }

    /// The keys of the signing index, in ascending order.
    pub open spec fn signing_keys(self) -> Seq<EcdsaKeyIdView> {
        Seq::new(self.ecdsa_signing_subnets.len(), |i: int| self.ecdsa_signing_subnets[i].key)
    }

    /// The first subnet, in ascending order of identifiers, that holds `key`.
    pub open spec fn first_holder(self, key: EcdsaKeyIdView) -> Option<Seq<u8>> {
        match first_index(self.subnets, holds(key)) {
            Some(i) => Some(self.subnets[i].id),
            None => None,
        }
    }

    /// The first subnet, in ascending order of identifiers, that serves the
    /// Bitcoin test network.
    pub open spec fn first_bitcoin_testnet_subnet(self) -> Option<Seq<u8>> {
        match first_index(self.subnets, serves_bitcoin_testnet()) {
            Some(i) => Some(self.subnets[i].id),
            None => None,
        }
    }

    /// The keys that some subnet holds.
    pub open spec fn held_keys(self) -> Set<EcdsaKeyIdView> {
        Set::new(
            |key: EcdsaKeyIdView|
                exists|i: int|
                    0 <= i < self.subnets.len() && (
                    #[trigger] self.subnets[i]).topology.ecdsa_keys_held.contains(key),
        )
    }

    /// Whether `id` lies in a range of the routing table.
    pub open spec fn routes(self, id: Seq<u8>) -> bool {
        route_spec(self.routing_table, id) is Some
    }
}

/// A snapshot of the network, as the registry gives it.
pub struct NetworkTopology {
    /// The subnets of the network.
    pub subnets: SortedMap<SubnetId, SubnetTopology>,
    /// The owner of each range of canister identifiers.
    pub routing_table: RoutingTable,
    /// For each key, the subnets that sign with it. The first of them is the
    /// one that requests are sent to.
    pub ecdsa_signing_subnets: SortedMap<EcdsaKeyId, Vec<SubnetId>>,
    /// The canister that serves the Bitcoin test network.
    pub bitcoin_testnet_canister_id: Option<CanisterId>,
    /// The canister that serves the Bitcoin main network.
    pub bitcoin_mainnet_canister_id: Option<CanisterId>,
}

/// What each subnet of `ids` stands for, in the same order.
pub open spec fn subnet_ids_view(ids: Seq<SubnetId>) -> Seq<Seq<u8>> {
    Seq::new(ids.len(), |i: int| ids[i]@)
}

/// What an optional canister identifier stands for.
pub open spec fn canister_view(id: Option<CanisterId>) -> Option<Seq<u8>> {
    match id {
        Some(canister) => Some(canister@),
        None => None,
    }
}

impl View for NetworkTopology {
    type V = NetworkTopologyView;

    open spec fn view(&self) -> NetworkTopologyView {
        NetworkTopologyView {
            subnets: Seq::new(
                self.subnets.keys().len(),
                |i: int| SubnetEntry { id: self.subnets.keys()[i]@, topology: self.subnets.values()[i]@ },
            ),
            routing_table: self.routing_table@,
            ecdsa_signing_subnets: Seq::new(
                self.ecdsa_signing_subnets.keys().len(),
                |i: int|
                    SigningEntry {
                        key: self.ecdsa_signing_subnets.keys()[i]@,
                        subnets: subnet_ids_view(self.ecdsa_signing_subnets.values()[i]@),
                    },
            ),
            bitcoin_testnet_canister_id: canister_view(self.bitcoin_testnet_canister_id),
            bitcoin_mainnet_canister_id: canister_view(self.bitcoin_mainnet_canister_id),
        }
    }
}

impl NetworkTopology {
    /// A network without subnets, ranges, keys or Bitcoin canisters.
    pub fn new() -> (topology: Self)
        ensures
            topology@.subnets.len() == 0,
            topology@.routing_table.len() == 0,
            topology@.ecdsa_signing_subnets.len() == 0,
            topology@.bitcoin_testnet_canister_id is None,
            topology@.bitcoin_mainnet_canister_id is None,
    {
        NetworkTopology {
            subnets: SortedMap::new(),
            routing_table: RoutingTable::new(),
            ecdsa_signing_subnets: SortedMap::new(),
            bitcoin_testnet_canister_id: None,
            bitcoin_mainnet_canister_id: None,
        }
    }

    /// Shows that the snapshot is well formed. Nothing is computed.
    pub fn well_formed(&self)
        ensures
            self@.wf(),
    {
        let subnets = self.subnets.len();
        let signing = self.ecdsa_signing_subnets.len();
        let ranges = self.routing_table.len();
        proof {
            let ids = sort_bytes_of(self.subnets.keys());
            assert forall|i: int, j: int| 0 <= i < j < self@.subnets.len() implies lex_lt(
                (#[trigger] self@.subnets[i]).id,
                (#[trigger] self@.subnets[j]).id,
            ) by {
                assert(lex_lt(ids[i], ids[j]));
            }
            let keys = sort_bytes_of(self.ecdsa_signing_subnets.keys());
            assert forall|i: int, j: int|
                0 <= i < j < self@.ecdsa_signing_subnets.len() implies (
            #[trigger] self@.ecdsa_signing_subnets[i]).key.lt(
                (#[trigger] self@.ecdsa_signing_subnets[j]).key,
            ) by {
                assert(lex_lt(keys[i], keys[j]));
            }
        }
    }

    /// The subnet with the identifier `id`, if the network has it.
    pub fn subnet(&self, id: &SubnetId) -> (found: Option<&SubnetTopology>)
        ensures
            match found {
                Some(topology) => self@.subnet(id@) == Some(topology@),
                None => self@.subnet(id@) is None,
            },
    {
        let ghost entries = self@.subnets;
        match self.subnets.find(id) {
            Some(i) => {
                let topology = self.subnets.value_at(i);
                proof {
                    assert(entries[i as int].id == id@);
                    assert forall|j: int| 0 <= j < i implies !has_id(id@)(#[trigger] entries[j]) by {
                        if entries[j].id == id@ {
                            lemma_ascending_distinct(sort_bytes_of(self.subnets.keys()), j, i as int);
                        }
                    }
                    assert(is_first(entries, has_id(id@), i as int));
                    lemma_first_index_found(entries, has_id(id@), i as int);
                }
                Some(topology)
            },
            None => {
                proof {
                    assert forall|j: int| 0 <= j < entries.len() implies !has_id(id@)(
                        #[trigger] entries[j],
                    ) by {
                        assert(self.subnets.keys()[j].sort_bytes() != id.sort_bytes());
                    }
                    lemma_first_index_none(entries, has_id(id@));
                }
                None
            },
        }
    }

    /// The subnets that sign with `key`, in the order of the signing index,
    /// if the index has the key.
    pub fn signing_subnets(&self, key: &EcdsaKeyId) -> (found: Option<&Vec<SubnetId>>)
        ensures
            found is Some <==> self@.has_signing_entry(key@),
            match found {
                Some(subnets) => subnet_ids_view(subnets@) == self@.signing_subnets(key@),
                None => self@.signing_subnets(key@).len() == 0,
            },
    {
        let ghost entries = self@.ecdsa_signing_subnets;
        let ghost keys = self.ecdsa_signing_subnets.keys();
        match self.ecdsa_signing_subnets.find(key) {
            Some(i) => {
                let subnets = self.ecdsa_signing_subnets.value_at(i);
                proof {
                    lemma_sort_bytes_injective(keys[i as int]@, key@);
                    assert(entries[i as int].key == key@);
                    assert forall|j: int| 0 <= j < i implies !signs_with(key@)(
                        #[trigger] entries[j],
                    ) by {
                        if entries[j].key == key@ {
                            lemma_ascending_distinct(
                                sort_bytes_of(keys),
                                j,
                                i as int,
                            );
                        }
                    }
                    assert(is_first(entries, signs_with(key@), i as int));
                    lemma_first_index_found(entries, signs_with(key@), i as int);
                }
                Some(subnets)
            },
            None => {
                proof {
                    assert forall|j: int| 0 <= j < entries.len() implies !signs_with(key@)(
                        #[trigger] entries[j],
                    ) by {
                        assert(keys[j].sort_bytes() != key.sort_bytes());
                    }
                    lemma_first_index_none(entries, signs_with(key@));
                }
                None
            },
        }
    }

    /// The first subnet, in ascending order of identifiers, that holds `key`.
    pub fn first_holder(&self, key: &EcdsaKeyId) -> (found: Option<&SubnetId>)
        ensures
            match found {
                Some(subnet) => self@.first_holder(key@) == Some(subnet@),
                None => self@.first_holder(key@) is None,
            },
    {
        let ghost entries = self@.subnets;
        let n = self.subnets.len();
        let mut i: usize = 0;
        while i < n
            invariant
                i <= n,
                n == self.subnets.keys().len(),
                entries == self@.subnets,
                forall|j: int| 0 <= j < i ==> !holds(key@)(#[trigger] entries[j]),
            decreases n - i,
        {
            if self.subnets.value_at(i).ecdsa_keys_held.contains(key) {
                proof {
                    assert(is_first(entries, holds(key@), i as int));
                    lemma_first_index_found(entries, holds(key@), i as int);
                }
                return Some(self.subnets.key_at(i));
            }
            i += 1;
        }
        proof {
            lemma_first_index_none(entries, holds(key@));
        }
        None
    }

    /// The keys that some subnet holds.
    pub fn held_keys(&self) -> (keys: EcdsaKeySet)
        ensures
            is_listing(keys@, self@.held_keys()),
    {
        let ghost subnets = self@.subnets;
        let mut keys = EcdsaKeySet::new();
        let n = self.subnets.len();
        let mut i: usize = 0;
        while i < n
            invariant
                i <= n,
                n == self.subnets.keys().len(),
                subnets == self@.subnets,
                keys_ascending(keys@),
                forall|key: EcdsaKeyIdView|
                    keys@.contains(key) <==> exists|s: int|
                        0 <= s < i && (#[trigger] subnets[s]).topology.ecdsa_keys_held.contains(key),
            decreases n - i,
        {
            let ghost before = keys@;
            keys.insert_all(self.subnets.value_at(i).ecdsa_keys_held.key_list());
            proof {
                assert forall|key: EcdsaKeyIdView| keys@.contains(key) <==> exists|s: int|
                    0 <= s < i + 1 && (#[trigger] subnets[s]).topology.ecdsa_keys_held.contains(
                        key,
                    ) by {
                    if before.contains(key) {
                        let s = choose|s: int|
                            0 <= s < i && (#[trigger] subnets[s]).topology.ecdsa_keys_held.contains(
                                key,
                            );
                        assert(subnets[s].topology.ecdsa_keys_held.contains(key));
                    }
                    if subnets[i as int].topology.ecdsa_keys_held.contains(key) {
                        assert(keys@.contains(key));
                    }
                }
            }
            i += 1;
        }
        keys
    }

    /// The first subnet, in ascending order of identifiers, that serves the
    /// Bitcoin test network.
    pub fn first_bitcoin_testnet_subnet(&self) -> (found: Option<&SubnetId>)
        ensures
            match found {
                Some(subnet) => self@.first_bitcoin_testnet_subnet() == Some(subnet@),
                None => self@.first_bitcoin_testnet_subnet() is None,
            },
    {
        let ghost entries = self@.subnets;
        let n = self.subnets.len();
        let mut i: usize = 0;
        while i < n
            invariant
                i <= n,
                n == self.subnets.keys().len(),
                entries == self@.subnets,
                forall|j: int| 0 <= j < i ==> !serves_bitcoin_testnet()(#[trigger] entries[j]),
            decreases n - i,
        {
            if self.subnets.value_at(i).bitcoin_testnet {
                proof {
                    assert(is_first(entries, serves_bitcoin_testnet(), i as int));
                    lemma_first_index_found(entries, serves_bitcoin_testnet(), i as int);
                }
                return Some(self.subnets.key_at(i));
            }
            i += 1;
        }
        proof {
            lemma_first_index_none(entries, serves_bitcoin_testnet());
        }
        None
    }
}

impl Default for NetworkTopology {
    fn default() -> (topology: Self)
        ensures
            topology@.subnets.len() == 0,
            topology@.routing_table.len() == 0,
            topology@.ecdsa_signing_subnets.len() == 0,
            topology@.bitcoin_testnet_canister_id is None,
            topology@.bitcoin_mainnet_canister_id is None,
    {
        NetworkTopology::new()
    }
}

} // verus!

//! Identifiers of threshold ECDSA keys, their order and their textual form.

use vstd::prelude::*;
use vstd::utf8::{encode_utf8, encode_utf8_decode_utf8};
use crate::order::{
    bytes_eq, bytes_lt, lemma_lex_asymmetric, lemma_lex_irreflexive, lemma_lex_prepend, lex_lt,
};
use crate::sorted::{sort_bytes_of, strictly_ascending, SortKey, SortedMap};

verus! {

/// The curves on which a threshold ECDSA key can lie.
#[derive(Clone, Copy, Debug, PartialEq, Eq, PartialOrd, Ord, Hash, Structural)]
pub enum EcdsaCurve {
    Secp256k1,
}

impl EcdsaCurve {
    /// The place of the curve among the curves.
    pub open spec fn rank(self) -> u8 {
        match self {
            EcdsaCurve::Secp256k1 => 0,
        }
    }

    /// The name of the curve as it stands in the textual form of a key.
    pub open spec fn text(self) -> Seq<char> {
        match self {
            EcdsaCurve::Secp256k1 => "Secp256k1"@,
        }
    }

    /// The place of the curve among the curves.
    pub fn ordinal(&self) -> (rank: u8)
        ensures
            rank == self.rank(),
    {
        match self {
            EcdsaCurve::Secp256k1 => 0,
        }
    }

    /// The name of the curve.
    pub fn as_str(&self) -> (name: &'static str)
        ensures
            name@ == self.text(),
    {
        match self {
            EcdsaCurve::Secp256k1 => "Secp256k1",
        }
    }
}

/// A threshold ECDSA key, named by its curve and a name. Two identifiers are
/// the same key when both agree.
#[derive(Debug, PartialEq, Eq, PartialOrd, Ord, Hash)]
pub struct EcdsaKeyId {
    pub curve: EcdsaCurve,
    pub name: String,
}

/// What an `EcdsaKeyId` stands for.
pub struct EcdsaKeyIdView {
    pub curve: EcdsaCurve,
    pub name: Seq<char>,
}

impl View for EcdsaKeyId {
    type V = EcdsaKeyIdView;

    open spec fn view(&self) -> EcdsaKeyIdView {
        EcdsaKeyIdView { curve: self.curve, name: self.name@ }
    }
}

impl EcdsaKeyIdView {
    /// The bytes that order the keys: first by curve, then by the bytes of the name.
    pub open spec fn sort_bytes(self) -> Seq<u8> {
        seq![self.curve.rank()] + encode_utf8(self.name)
    }

    /// `self` comes strictly before `other`.
    pub open spec fn lt(self, other: EcdsaKeyIdView) -> bool {
        lex_lt(self.sort_bytes(), other.sort_bytes())
    }

    /// The textual form: the curve, a colon and the name.
    pub open spec fn text(self) -> Seq<char> {
        self.curve.text() + ":"@ + self.name
    }
}

/// Two keys with the same sort bytes are the same key.
pub proof fn lemma_sort_bytes_injective(a: EcdsaKeyIdView, b: EcdsaKeyIdView)
    requires
        a.sort_bytes() == b.sort_bytes(),
    ensures
        a == b,
{
    let x = a.sort_bytes();
    let y = b.sort_bytes();
    assert(x[0] == a.curve.rank());
    assert(y[0] == b.curve.rank());
    assert(x.skip(1) =~= encode_utf8(a.name));
    assert(y.skip(1) =~= encode_utf8(b.name));
    encode_utf8_decode_utf8(a.name);
    encode_utf8_decode_utf8(b.name);
}

impl EcdsaKeyId {
    /// The textual form of the key.
    pub fn to_text(&self) -> (text: String)
        ensures
            text@ == self@.text(),
    {
        let mut text = String::from_str(self.curve.as_str());
        text.append(":");
        text.append(self.name.as_str());
        text
    }
}

impl Clone for EcdsaKeyId {
    fn clone(&self) -> (copy: Self)
        ensures
            copy@ == self@,
    {
        EcdsaKeyId { curve: self.curve, name: self.name.clone() }
    }
}

impl SortKey for EcdsaKeyId {
    open spec fn sort_bytes(&self) -> Seq<u8> {
        self@.sort_bytes()
    }

    fn comes_before(&self, other: &Self) -> (before: bool) {
        let a = self.curve.ordinal();
        let b = other.curve.ordinal();
        proof {
            lemma_lex_prepend(a, encode_utf8(self.name@), b, encode_utf8(other.name@));
        }
        if a != b {
            a < b
        } else {
            bytes_lt(self.name.as_str().as_bytes(), other.name.as_str().as_bytes())
        }
    }

    fn same_key(&self, other: &Self) -> (same: bool) {
        let a = self.curve.ordinal();
        let b = other.curve.ordinal();
        let same = a == b && bytes_eq(
            self.name.as_str().as_bytes(),
            other.name.as_str().as_bytes(),
        );
        proof {
            let x = self@.sort_bytes();
            let y = other@.sort_bytes();
            assert(x[0] == a && y[0] == b);
            assert(x.skip(1) =~= encode_utf8(self.name@));
            assert(y.skip(1) =~= encode_utf8(other.name@));
            if same {
                assert(x =~= y);
            }
        }
        same
    }
}

/// What each key of `keys` stands for, in the same order.
pub open spec fn keys_view(keys: Seq<EcdsaKeyId>) -> Seq<EcdsaKeyIdView> {
    Seq::new(keys.len(), |i: int| keys[i]@)
}

/// Each key comes strictly before all that follow it.
pub open spec fn keys_ascending(keys: Seq<EcdsaKeyIdView>) -> bool {
    forall|i: int, j: int| 0 <= i < j < keys.len() ==> (#[trigger] keys[i]).lt(#[trigger] keys[j])
}

/// Keys whose sort bytes ascend strictly are keys that ascend strictly.
pub proof fn lemma_keys_ascending(keys: Seq<EcdsaKeyId>)
    requires
        strictly_ascending(sort_bytes_of(keys)),
    ensures
        keys_ascending(keys_view(keys)),
{
    let b = sort_bytes_of(keys);
    let v = keys_view(keys);
    assert forall|i: int, j: int| 0 <= i < j < v.len() implies (#[trigger] v[i]).lt(#[trigger] v[j]) by {
        assert(lex_lt(b[i], b[j]));
    }
}

/// `list` holds the keys of `set`, each once, in ascending order.
pub open spec fn is_listing(list: Seq<EcdsaKeyIdView>, set: Set<EcdsaKeyIdView>) -> bool {
    &&& keys_ascending(list)
    &&& forall|key: EcdsaKeyIdView| set.contains(key) <==> list.contains(key)
}

/// The keys of `set`, each once, in ascending order.
pub open spec fn listing(set: Set<EcdsaKeyIdView>) -> Seq<EcdsaKeyIdView> {
    choose|list: Seq<EcdsaKeyIdView>| is_listing(list, set)
}

/// Two ascending sequences that hold the same keys are the same sequence.
pub proof fn lemma_ascending_same_keys(a: Seq<EcdsaKeyIdView>, b: Seq<EcdsaKeyIdView>)
    requires
        keys_ascending(a),
        keys_ascending(b),
        forall|key: EcdsaKeyIdView| a.contains(key) <==> b.contains(key),
    ensures
        a == b,
    decreases a.len(),
{
    if a.len() == 0 {
        if b.len() > 0 {
            assert(b.contains(b[0]));
        }
        assert(a =~= b);
    } else {
        assert(a.contains(a[0]));
        assert(b.len() > 0) by {
            let j = choose|j: int| 0 <= j < b.len() && b[j] == a[0];
        }
        // The last key of each is the greatest of all, so it is the same key.
        let x = a.last();
        let y = b.last();
        assert(a.contains(x));
        assert(b.contains(y));
        let i = choose|i: int| 0 <= i < a.len() && a[i] == y;
        let j = choose|j: int| 0 <= j < b.len() && b[j] == x;
        assert(x == y) by {
            if x != y {
                assert(a[i].lt(x));
                assert(b[j].lt(y));
                lemma_lex_asymmetric(x.sort_bytes(), y.sort_bytes());
            }
        }
        // What stands before the last key holds the same keys in both.
        let a0 = a.drop_last();
        let b0 = b.drop_last();
        assert forall|key: EcdsaKeyIdView| a0.contains(key) <==> b0.contains(key) by {
            if a0.contains(key) {
                let p = choose|p: int| 0 <= p < a0.len() && a0[p] == key;
                assert(a[p] == key);
                assert(a.contains(key));
                let q = choose|q: int| 0 <= q < b.len() && b[q] == key;
                if q == b.len() - 1 {
                    assert(a[p].lt(x));
                    lemma_lex_irreflexive(x.sort_bytes());
                }
                assert(b0[q] == key);
            }
            if b0.contains(key) {
                let q = choose|q: int| 0 <= q < b0.len() && b0[q] == key;
                assert(b[q] == key);
                assert(b.contains(key));
                let p = choose|p: int| 0 <= p < a.len() && a[p] == key;
                if p == a.len() - 1 {
                    assert(b[q].lt(y));
                    lemma_lex_irreflexive(y.sort_bytes());
                }
                assert(a0[p] == key);
            }
        }
        lemma_ascending_same_keys(a0, b0);
        assert(a =~= a0.push(x));
        assert(b =~= b0.push(y));
    }
}

/// A set of keys has one listing at most: whatever lists it is `listing` of it.
pub proof fn lemma_listing_unique(list: Seq<EcdsaKeyIdView>, set: Set<EcdsaKeyIdView>)
    requires
        is_listing(list, set),
    ensures
        listing(set) == list,
{
    lemma_ascending_same_keys(listing(set), list);
}

/// A copy of `keys`.
pub fn clone_keys(keys: &Vec<EcdsaKeyId>) -> (copy: Vec<EcdsaKeyId>)
    ensures
        keys_view(copy@) == keys_view(keys@),
{
    let mut copy: Vec<EcdsaKeyId> = Vec::new();
    let mut i: usize = 0;
    while i < keys.len()
        invariant
            i <= keys.len(),
            copy@.len() == i,
            forall|j: int| 0 <= j < i ==> (#[trigger] copy@[j])@ == keys@[j]@,
        decreases keys.len() - i,
    {
        copy.push(keys[i].clone());
        i += 1;
    }
    assert(keys_view(copy@) =~= keys_view(keys@));
    copy
}

/// A set of keys, walked in ascending order.
pub struct EcdsaKeySet {
    keys: SortedMap<EcdsaKeyId, ()>,
}

impl View for EcdsaKeySet {
    type V = Seq<EcdsaKeyIdView>;

    closed spec fn view(&self) -> Seq<EcdsaKeyIdView> {
        keys_view(self.keys.keys())
    }
}

impl EcdsaKeySet {
    /// The empty set.
    pub fn new() -> (set: Self)
        ensures
            set@.len() == 0,
    {
        EcdsaKeySet { keys: SortedMap::new() }
    }

    /// Shows that the keys of the set ascend. Nothing is computed.
    fn ascending(&self)
        ensures
            keys_ascending(self@),
    {
        let keys = self.keys.key_list();
        proof {
            lemma_keys_ascending(keys@);
        }
    }

    /// Whether `key` is in the set.
    pub fn contains(&self, key: &EcdsaKeyId) -> (held: bool)
        ensures
            held == self@.contains(key@),
    {
        let found = self.keys.find(key);
        proof {
            let keys = self.keys.keys();
            match found {
                Some(i) => {
                    lemma_sort_bytes_injective(keys[i as int]@, key@);
                    assert(self@[i as int] == key@);
                },
                None => {
                    assert forall|i: int| 0 <= i < self@.len() implies self@[i] != key@ by {
                        assert(keys[i].sort_bytes() != key.sort_bytes());
                    }
                },
            }
        }
        found.is_some()
    }

    /// Puts `key` into the set.
    pub fn insert(&mut self, key: EcdsaKeyId)
        ensures
            keys_ascending(final(self)@),
            forall|k: EcdsaKeyIdView| final(self)@.contains(k) <==> (old(self)@.contains(k) || k == key@),
    {
        let ghost before = self.keys.keys();
        let ghost added = key@;
        let ghost bytes = key.sort_bytes();
        self.keys.insert(key, ());
        proof {
            let after = self.keys.keys();
            lemma_keys_ascending(after);
            let old_v = keys_view(before);
            let new_v = keys_view(after);
            match old(self).keys.index_of(bytes) {
                Some(i) => {
                    lemma_sort_bytes_injective(before[i]@, added);
                    assert(new_v =~= old_v);
                    assert(old_v[i] == added);
                },
                None => {
                    let pos = choose|pos: int|
                        0 <= pos <= before.len() && after == before.insert(pos, key);
                    assert(new_v =~= old_v.insert(pos, added));
                    assert forall|k: EcdsaKeyIdView| new_v.contains(k) implies (old_v.contains(k) || k
                        == added) by {
                        let j = choose|j: int| 0 <= j < new_v.len() && new_v[j] == k;
                        if j < pos {
                            assert(old_v[j] == k);
                        } else if j > pos {
                            assert(old_v[j - 1] == k);
                        }
                    }
                    assert forall|k: EcdsaKeyIdView| (old_v.contains(k) || k == added) implies new_v.contains(
                        k,
                    ) by {
                        if k == added {
                            assert(new_v[pos] == k);
                        } else {
                            let j = choose|j: int| 0 <= j < old_v.len() && old_v[j] == k;
                            if j < pos {
                                assert(new_v[j] == k);
                            } else {
                                assert(new_v[j + 1] == k);
                            }
                        }
                    }
                },
            }
        }
    }

    /// Puts each key of `keys` into the set.
    pub fn insert_all(&mut self, keys: &Vec<EcdsaKeyId>)
        ensures
            keys_ascending(final(self)@),
            forall|k: EcdsaKeyIdView|
                final(self)@.contains(k) <==> (old(self)@.contains(k) || keys_view(keys@).contains(k)),
    {
        let ghost added = keys_view(keys@);
        self.ascending();
        let mut i: usize = 0;
        while i < keys.len()
            invariant
                i <= keys.len(),
                added == keys_view(keys@),
                keys_ascending(self@),
                forall|k: EcdsaKeyIdView|
                    self@.contains(k) <==> (old(self)@.contains(k) || added.take(i as int).contains(k)),
            decreases keys.len() - i,
        {
            let ghost before = self@;
            self.insert(keys[i].clone());
            proof {
                let done = added.take(i as int);
                let next = added.take(i + 1);
                assert(next =~= done.push(added[i as int]));
                assert forall|k: EcdsaKeyIdView| next.contains(k) <==> (done.contains(k) || k
                    == added[i as int]) by {
                    if done.contains(k) {
                        let j = choose|j: int| 0 <= j < done.len() && done[j] == k;
                        assert(next[j] == k);
                    }
                    if k == added[i as int] {
                        assert(next[i as int] == k);
                    }
                }
            }
            i += 1;
        }
        proof {
            assert(added.take(keys.len() as int) =~= added);
        }
    }

    /// The keys of the set, from the smallest on.
    pub fn key_list(&self) -> (keys: &Vec<EcdsaKeyId>)
        ensures
            keys_view(keys@) == self@,
            keys_ascending(self@),
    {
        let keys = self.keys.key_list();
        proof {
            lemma_keys_ascending(keys@);
        }
        keys
    }
}

} // verus!

//! Maps kept as vectors in strictly ascending key order, so that walking one
//! visits its keys from the smallest on.

use vstd::prelude::*;
use crate::order::{lemma_lex_asymmetric, lemma_lex_total, lemma_lex_transitive, lex_le, lex_lt};

verus! {

/// A type whose values are ordered, and told apart, by a byte string.
pub trait SortKey: Sized {
    /// The bytes that order a value. Two values with the same bytes are one key.
    spec fn sort_bytes(&self) -> Seq<u8>;

    /// Whether `self` comes strictly before `other`.
    fn comes_before(&self, other: &Self) -> (before: bool)
        ensures
            before == lex_lt(self.sort_bytes(), other.sort_bytes()),
    ;

    /// Whether `self` and `other` are the same key.
    fn same_key(&self, other: &Self) -> (same: bool)
        ensures
            same == (self.sort_bytes() == other.sort_bytes()),
    ;
}

/// Each byte string comes strictly before all that follow it.
pub open spec fn strictly_ascending(s: Seq<Seq<u8>>) -> bool {
    forall|i: int, j: int| 0 <= i < j < s.len() ==> lex_lt(#[trigger] s[i], #[trigger] s[j])
}

/// The sort bytes of each key of `keys`, in the same order.
pub open spec fn sort_bytes_of<K: SortKey>(keys: Seq<K>) -> Seq<Seq<u8>> {
    Seq::new(keys.len(), |i: int| keys[i].sort_bytes())
}

/// `pos` is where `k` stands in `s`, or where it would have to be put: all
/// before `pos` come before `k`, and `k` comes before all after `pos`.
pub open spec fn is_place(s: Seq<Seq<u8>>, pos: int, k: Seq<u8>) -> bool {
    &&& 0 <= pos <= s.len()
    &&& forall|j: int| 0 <= j < pos ==> lex_lt(#[trigger] s[j], k)
    &&& forall|j: int| pos <= j < s.len() ==> lex_le(k, #[trigger] s[j])
}

/// In a strictly ascending sequence no byte string stands twice.
pub proof fn lemma_ascending_distinct(s: Seq<Seq<u8>>, i: int, j: int)
    requires
        strictly_ascending(s),
        0 <= i < s.len(),
        0 <= j < s.len(),
        s[i] == s[j],
    ensures
        i == j,
{
    if i < j {
        lemma_lex_asymmetric(s[i], s[j]);
    } else if j < i {
        lemma_lex_asymmetric(s[j], s[i]);
    }
}

/// A byte string stands in a strictly ascending sequence at its place or nowhere.
pub proof fn lemma_only_at_place(s: Seq<Seq<u8>>, pos: int, k: Seq<u8>, i: int)
    requires
        strictly_ascending(s),
        is_place(s, pos, k),
        0 <= i < s.len(),
        s[i] == k,
    ensures
        i == pos,
{
    if i < pos {
        lemma_lex_asymmetric(s[i], k);
    } else if i > pos {
        assert(lex_lt(s[pos], s[i]));
        if k != s[pos] {
            lemma_lex_transitive(k, s[pos], s[i]);
        }
        lemma_lex_asymmetric(s[pos], s[i]);
    }
}

/// Putting `k` at its place, where it does not stand yet, keeps a sequence
/// strictly ascending.
pub proof fn lemma_insert_ascending(s: Seq<Seq<u8>>, pos: int, k: Seq<u8>)
    requires
        strictly_ascending(s),
        is_place(s, pos, k),
        pos < s.len() ==> s[pos] != k,
    ensures
        strictly_ascending(s.insert(pos, k)),
{
    let t = s.insert(pos, k);
    assert forall|j: int| pos <= j < s.len() implies lex_lt(k, #[trigger] s[j]) by {
        if s[j] == k {
            lemma_only_at_place(s, pos, k, j);
        }
    }
    assert forall|i: int, j: int| 0 <= i < j < t.len() implies lex_lt(
        #[trigger] t[i],
        #[trigger] t[j],
    ) by {
        let a = if i < pos {
            i
        } else {
            i - 1
        };
        let b = if j < pos {
            j
        } else {
            j - 1
        };
        if i != pos {
            assert(t[i] == s[a]);
        }
        if j != pos {
            assert(t[j] == s[b]);
        }
    }
}

/// The place of `probe` among `keys`.
fn place_of<K: SortKey>(keys: &Vec<K>, probe: &K) -> (pos: usize)
    requires
        strictly_ascending(sort_bytes_of(keys@)),
    ensures
        is_place(sort_bytes_of(keys@), pos as int, probe.sort_bytes()),
{
    let ghost s = sort_bytes_of(keys@);
    let ghost p = probe.sort_bytes();
    let mut lo: usize = 0;
    let mut hi: usize = keys.len();
    while lo < hi
        invariant
            lo <= hi <= keys.len(),
            s == sort_bytes_of(keys@),
            p == probe.sort_bytes(),
            strictly_ascending(s),
            forall|j: int| 0 <= j < lo ==> lex_lt(#[trigger] s[j], p),
            forall|j: int| hi <= j < s.len() ==> lex_le(p, #[trigger] s[j]),
        decreases hi - lo,
    {
        let mid = lo + (hi - lo) / 2;
        assert(s[mid as int] == keys[mid as int].sort_bytes());
        if keys[mid].comes_before(probe) {
            assert forall|j: int| 0 <= j < mid + 1 implies lex_lt(#[trigger] s[j], p) by {
                if j < mid {
                    lemma_lex_transitive(s[j], s[mid as int], p);
                }
            }
            lo = mid + 1;
        } else {
            assert forall|j: int| mid <= j < s.len() implies lex_le(p, #[trigger] s[j]) by {
                lemma_lex_total(p, s[mid as int]);
                if j > mid && p != s[mid as int] {
                    lemma_lex_transitive(p, s[mid as int], s[j]);
                }
            }
            hi = mid;
        }
    }
    lo
}

/// A map from keys of type `K` to values of type `V`, walked in ascending key order.
pub struct SortedMap<K: SortKey, V> {
    keys: Vec<K>,
    values: Vec<V>,
}

impl<K: SortKey, V> SortedMap<K, V> {
    #[verifier::type_invariant]
    spec fn inv(self) -> bool {
        self.wf()
    }

    /// The keys, from the smallest on.
    pub closed spec fn keys(&self) -> Seq<K> {
        self.keys@
    }

    /// The values, each at the index of its key.
    pub closed spec fn values(&self) -> Seq<V> {
        self.values@
    }

    /// What holds of every map: each key has its value, and the keys ascend strictly.
    pub open spec fn wf(&self) -> bool {
        &&& self.keys().len() == self.values().len()
        &&& strictly_ascending(sort_bytes_of(self.keys()))
    }

    /// The index at which `bytes` stands among the keys, if it does.
    pub open spec fn index_of(&self, bytes: Seq<u8>) -> Option<int> {
        if exists|i: int|
            0 <= i < self.keys().len() && #[trigger] self.keys()[i].sort_bytes() == bytes {
            Some(
                choose|i: int|
                    0 <= i < self.keys().len() && #[trigger] self.keys()[i].sort_bytes() == bytes,
            )
        } else {
            None
        }
    }

    /// An empty map.
    pub fn new() -> (map: Self)
        ensures
            map.wf(),
            map.keys().len() == 0,
    {
        SortedMap { keys: Vec::new(), values: Vec::new() }
    }

    /// The number of entries.
    pub fn len(&self) -> (n: usize)
        ensures
            self.wf(),
            n == self.keys().len(),
    {
        proof {
            use_type_invariant(self);
        }
        self.keys.len()
    }

    /// The key of the entry at index `i`.
    pub fn key_at(&self, i: usize) -> (key: &K)
        requires
            i < self.keys().len(),
        ensures
            self.wf(),
            *key == self.keys()[i as int],
    {
        proof {
            use_type_invariant(self);
        }
        &self.keys[i]
    }

    /// The value of the entry at index `i`.
    pub fn value_at(&self, i: usize) -> (value: &V)
        requires
            i < self.keys().len(),
        ensures
            self.wf(),
            *value == self.values()[i as int],
    {
        proof {
            use_type_invariant(self);
        }
        &self.values[i]
    }

    /// The keys, from the smallest on.
    pub fn key_list(&self) -> (keys: &Vec<K>)
        ensures
            self.wf(),
            keys@ == self.keys(),
    {
        proof {
            use_type_invariant(self);
        }
        &self.keys
    }

    /// The place of `key` among the keys, and whether the key stands there.
    fn locate(&self, key: &K) -> (place: (usize, bool))
        ensures
            self.wf(),
            is_place(sort_bytes_of(self.keys()), place.0 as int, key.sort_bytes()),
            place.1 ==> self.index_of(key.sort_bytes()) == Some(place.0 as int),
            !place.1 ==> self.index_of(key.sort_bytes()) is None,
    {
        proof {
            use_type_invariant(self);
        }
        let pos = place_of(&self.keys, key);
        let found = pos < self.keys.len() && self.keys[pos].same_key(key);
        proof {
            let s = sort_bytes_of(self.keys());
            let p = key.sort_bytes();
            if found {
                assert(self.keys()[pos as int].sort_bytes() == p);
            }
            match self.index_of(p) {
                Some(i) => {
                    assert(s[i] == p);
                    lemma_only_at_place(s, pos as int, p, i);
                },
                None => {},
            }
        }
        (pos, found)
    }

    /// The index of the entry whose key is `key`, if there is one.
    pub fn find(&self, key: &K) -> (found: Option<usize>)
        ensures
            self.wf(),
            match found {
                Some(i) => self.index_of(key.sort_bytes()) == Some(i as int),
                None => self.index_of(key.sort_bytes()) is None,
            },
    {
        let (pos, found) = self.locate(key);
        if found {
            Some(pos)
        } else {
            None
        }
    }

    /// Puts `value` under `key`. Where the map has the key, the value takes
    /// the place of the one that stood under it; else the entry takes its
    /// place among the others.
    pub fn insert(&mut self, key: K, value: V)
        ensures
            final(self).wf(),
            match old(self).index_of(key.sort_bytes()) {
                Some(i) => {
                    &&& final(self).keys() == old(self).keys()
                    &&& final(self).values() == old(self).values().update(i, value)
                },
                None => exists|pos: int|
                    {
                        &&& is_place(sort_bytes_of(old(self).keys()), pos, key.sort_bytes())
                        &&& final(self).keys() == old(self).keys().insert(pos, key)
                        &&& final(self).values() == old(self).values().insert(pos, value)
                    },
            },
    {
        proof {
            use_type_invariant(&*self);
        }
        let ghost s = sort_bytes_of(self.keys());
        let ghost p = key.sort_bytes();
        let (pos, found) = self.locate(&key);
        let mut taken = SortedMap { keys: Vec::new(), values: Vec::new() };
        std::mem::swap(self, &mut taken);
        let SortedMap { mut keys, mut values } = taken;
        if found {
            values.set(pos, value);
        } else {
            proof {
                if pos < s.len() && s[pos as int] == p {
                    assert(old(self).keys()[pos as int].sort_bytes() == p);
                }
                lemma_insert_ascending(s, pos as int, p);
                assert(sort_bytes_of(keys@.insert(pos as int, key)) =~= s.insert(pos as int, p));
            }
            keys.insert(pos, key);
            values.insert(pos, value);
        }
        *self = SortedMap { keys, values };
    }
}

} // verus!

//! The byte-wise order in which identifiers and key names are compared.

use vstd::prelude::*;

verus! {

/// `a` comes strictly before `b`, given that the two agree below index `from`.
pub open spec fn lex_lt_from(a: Seq<u8>, b: Seq<u8>, from: int) -> bool
    decreases a.len() - from,
{
    if from < 0 || from >= b.len() {
        false
    } else if from >= a.len() {
        true
    } else if a[from] != b[from] {
        a[from] < b[from]
    } else {
        lex_lt_from(a, b, from + 1)
    }
}

/// The byte-wise lexicographic order: the first byte in which the two differ
/// decides, and a proper prefix comes before what it is a prefix of.
pub open spec fn lex_lt(a: Seq<u8>, b: Seq<u8>) -> bool {
    lex_lt_from(a, b, 0)
}

/// `a` is `b` or comes before it.
pub open spec fn lex_le(a: Seq<u8>, b: Seq<u8>) -> bool {
    a == b || lex_lt(a, b)
}

/// The two sequences hold the same bytes below index `upto`.
pub open spec fn agree_below(a: Seq<u8>, b: Seq<u8>, upto: int) -> bool {
    &&& 0 <= upto <= a.len()
    &&& upto <= b.len()
    &&& forall|j: int| 0 <= j < upto ==> a[j] == b[j]
}

proof fn lemma_lt_from_irreflexive(a: Seq<u8>, from: int)
    requires
        0 <= from,
    ensures
        !lex_lt_from(a, a, from),
    decreases a.len() - from,
{
    if from < a.len() {
        lemma_lt_from_irreflexive(a, from + 1);
    }
}

proof fn lemma_lt_from_transitive(a: Seq<u8>, b: Seq<u8>, c: Seq<u8>, from: int)
    requires
        0 <= from,
        lex_lt_from(a, b, from),
        lex_lt_from(b, c, from),
    ensures
        lex_lt_from(a, c, from),
    decreases a.len() - from,
{
    if from < a.len() && a[from] == b[from] && b[from] == c[from] {
        lemma_lt_from_transitive(a, b, c, from + 1);
    }
}

proof fn lemma_lt_from_total(a: Seq<u8>, b: Seq<u8>, from: int)
    requires
        agree_below(a, b, from),
        a != b,
    ensures
        lex_lt_from(a, b, from) || lex_lt_from(b, a, from),
    decreases a.len() - from,
{
    if from < a.len() && from < b.len() && a[from] == b[from] {
        lemma_lt_from_total(a, b, from + 1);
    } else if from >= a.len() && from >= b.len() {
        assert(a =~= b);
    }
}

proof fn lemma_lt_from_asymmetric(a: Seq<u8>, b: Seq<u8>, from: int)
    requires
        0 <= from,
        lex_lt_from(a, b, from),
    ensures
        !lex_lt_from(b, a, from),
    decreases a.len() - from,
{
    if from < a.len() && a[from] == b[from] {
        lemma_lt_from_asymmetric(a, b, from + 1);
    }
}

/// Nothing comes before itself.
pub proof fn lemma_lex_irreflexive(a: Seq<u8>)
    ensures
        !lex_lt(a, a),
{
    lemma_lt_from_irreflexive(a, 0);
}

/// If `a` comes before `b`, then `b` does not come before `a`.
pub proof fn lemma_lex_asymmetric(a: Seq<u8>, b: Seq<u8>)
    requires
        lex_lt(a, b),
    ensures
        !lex_lt(b, a),
        a != b,
{
    lemma_lt_from_asymmetric(a, b, 0);
    lemma_lt_from_irreflexive(a, 0);
}

/// The order is transitive.
pub proof fn lemma_lex_transitive(a: Seq<u8>, b: Seq<u8>, c: Seq<u8>)
    requires
        lex_lt(a, b),
        lex_lt(b, c),
    ensures
        lex_lt(a, c),
{
    lemma_lt_from_transitive(a, b, c, 0);
}

/// Of two different sequences one comes before the other.
pub proof fn lemma_lex_total(a: Seq<u8>, b: Seq<u8>)
    ensures
        a == b || lex_lt(a, b) || lex_lt(b, a),
{
    if a != b {
        lemma_lt_from_total(a, b, 0);
    }
}

/// `a` is `b` or comes before it exactly when `b` does not come before `a`.
pub proof fn lemma_lex_le_not_gt(a: Seq<u8>, b: Seq<u8>)
    ensures
        lex_le(a, b) == !lex_lt(b, a),
{
    lemma_lex_total(a, b);
    lemma_lex_irreflexive(a);
    if lex_lt(a, b) {
        lemma_lex_asymmetric(a, b);
    }
}

/// Putting the same byte in front of two sequences keeps their order, and of
/// two different first bytes the smaller decides.
pub proof fn lemma_lex_prepend(x: u8, a: Seq<u8>, y: u8, b: Seq<u8>)
    ensures
        lex_lt(seq![x] + a, seq![y] + b) == (x < y || (x == y && lex_lt(a, b))),
{
    let p = seq![x] + a;
    let q = seq![y] + b;
    assert(p[0] == x && q[0] == y);
    if x == y {
        lemma_lt_from_shift(x, a, b, 0);
    }
}

proof fn lemma_lt_from_shift(x: u8, a: Seq<u8>, b: Seq<u8>, from: int)
    requires
        0 <= from,
    ensures
        lex_lt_from(seq![x] + a, seq![x] + b, from + 1) == lex_lt_from(a, b, from),
    decreases a.len() - from,
{
    let p = seq![x] + a;
    let q = seq![x] + b;
    if from < a.len() && from < b.len() {
        assert(p[from + 1] == a[from]);
        assert(q[from + 1] == b[from]);
        if a[from] == b[from] {
            lemma_lt_from_shift(x, a, b, from + 1);
        }
    }
}

/// Whether `a` comes strictly before `b` in the byte-wise order.
pub fn bytes_lt(a: &[u8], b: &[u8]) -> (before: bool)
    ensures
        before == lex_lt(a@, b@),
{
    let mut i: usize = 0;
    while i < a.len() && i < b.len() && a[i] == b[i]
        invariant
            agree_below(a@, b@, i as int),
            lex_lt(a@, b@) == lex_lt_from(a@, b@, i as int),
        decreases a.len() - i,
    {
        i += 1;
    }
    if i >= b.len() {
        false
    } else if i >= a.len() {
        true
    } else {
        a[i] < b[i]
    }
}

/// Whether `a` and `b` hold the same bytes.
pub fn bytes_eq(a: &[u8], b: &[u8]) -> (same: bool)
    ensures
        same == (a@ == b@),
{
    if a.len() != b.len() {
        return false;
    }
    let mut i: usize = 0;
    while i < a.len()
        invariant
            a.len() == b.len(),
            agree_below(a@, b@, i as int),
        decreases a.len() - i,
    {
        if a[i] != b[i] {
            return false;
        }
        i += 1;
    }
    assert(a@ =~= b@);
    true
}

} // verus!

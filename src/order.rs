//! Lexicographic order on byte sequences, and the order-independent pairing
//! of two hash values that the tree is built with.

use vstd::prelude::*;

verus! {

/// `a` comes strictly before `b` in lexicographic order: at the first
/// position where they differ the byte of `a` is smaller, or `a` is a proper
/// prefix of `b`.
pub open spec fn lex_lt(a: Seq<u8>, b: Seq<u8>) -> bool
    decreases a.len(),
{
    if a.len() == 0 {
        b.len() > 0
    } else if b.len() == 0 {
        false
    } else if a[0] != b[0] {
        a[0] < b[0]
    } else {
        lex_lt(a.drop_first(), b.drop_first())
    }
}

/// The two values of a merge step, the smaller first.
pub open spec fn ordered_concat(working: Seq<u8>, sibling: Seq<u8>) -> Seq<u8> {
    if lex_lt(working, sibling) {
        working + sibling
    } else {
        sibling + working
    }
}

/// Lexicographic order is asymmetric.
pub proof fn lemma_lex_lt_asymmetric(a: Seq<u8>, b: Seq<u8>)
    ensures
        lex_lt(a, b) ==> !lex_lt(b, a),
    decreases a.len(),
{
    if a.len() > 0 && b.len() > 0 && a[0] == b[0] {
        lemma_lex_lt_asymmetric(a.drop_first(), b.drop_first());
    }
}

/// Lexicographic order is total: two sequences neither of which comes
/// before the other are equal.
pub proof fn lemma_lex_lt_total(a: Seq<u8>, b: Seq<u8>)
    ensures
        !lex_lt(a, b) && !lex_lt(b, a) ==> a == b,
    decreases a.len(),
{
    if a.len() > 0 && b.len() > 0 && a[0] == b[0] {
        lemma_lex_lt_total(a.drop_first(), b.drop_first());
        if a.drop_first() == b.drop_first() {
            assert(a =~= seq![a[0]] + a.drop_first());
            assert(b =~= seq![b[0]] + b.drop_first());
        }
    }
}

/// Which of the two values held the working role does not matter: the
/// merge step concatenates the same bytes either way.
pub proof fn lemma_ordered_concat_symmetric(a: Seq<u8>, b: Seq<u8>)
    ensures
        ordered_concat(a, b) == ordered_concat(b, a),
{
    lemma_lex_lt_asymmetric(a, b);
    lemma_lex_lt_asymmetric(b, a);
    lemma_lex_lt_total(a, b);
}

/// For `a` before `b`, the merge step hashes `a` followed by `b`, whichever
/// of the two was the working value.
pub proof fn lemma_smaller_goes_first(a: Seq<u8>, b: Seq<u8>)
    requires
        lex_lt(a, b),
    ensures
        ordered_concat(a, b) == a + b,
        ordered_concat(b, a) == a + b,
{
    lemma_lex_lt_asymmetric(a, b);
}

/// Whether `a` comes strictly before `b` in lexicographic order.
pub fn lex_less(a: &[u8], b: &[u8]) -> (less: bool)
    ensures
        less == lex_lt(a@, b@),
{
    let mut i: usize = 0;
    assert(a@.skip(0) =~= a@);
    assert(b@.skip(0) =~= b@);
    while i < a.len() && i < b.len()
        invariant
            i <= a@.len(),
            i <= b@.len(),
            lex_lt(a@, b@) == lex_lt(a@.skip(i as int), b@.skip(i as int)),
        decreases a.len() - i,
    {
        if a[i] != b[i] {
            return a[i] < b[i];
        }
        assert(a@.skip(i as int).drop_first() =~= a@.skip(i + 1));
        assert(b@.skip(i as int).drop_first() =~= b@.skip(i + 1));
        i = i + 1;
    }
    i < b.len()
}

} // verus!

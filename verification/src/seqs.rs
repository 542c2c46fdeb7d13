//! Small facts about sequences and row-major positions used across the proofs.
use vstd::prelude::*;

verus! {

/// Filtering a sequence with one more element at the end.
pub proof fn lemma_filter_push<A>(s: Seq<A>, e: A, p: spec_fn(A) -> bool)
    ensures
        s.push(e).filter(p) == if p(e) {
            s.filter(p).push(e)
        } else {
            s.filter(p)
        },
{
    reveal(Seq::filter);
    assert(s.push(e).drop_last() == s);
}

/// Filtering the empty sequence.
pub proof fn lemma_filter_empty<A>(p: spec_fn(A) -> bool)
    ensures
        Seq::<A>::empty().filter(p) == Seq::<A>::empty(),
{
    reveal(Seq::filter);
}

/// A row-major position splits back into its row and column.
pub proof fn lemma_row_major(y: int, x: int, w: int)
    requires
        0 <= x < w,
        0 <= y,
    ensures
        (y * w + x) / w == y,
        (y * w + x) % w == x,
{
    vstd::arithmetic::div_mod::lemma_fundamental_div_mod_converse(y * w + x, w, y, x);
}

} // verus!

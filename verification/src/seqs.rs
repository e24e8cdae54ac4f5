//! Lemmas about sequences that the fleet logic's loops rely on.
use vstd::prelude::*;

verus! {

/// Filtering the first `i + 1` items extends the filtered first `i` items by item `i` exactly
/// when it passes the predicate.
pub proof fn lemma_filter_step<A>(s: Seq<A>, pred: spec_fn(A) -> bool, i: int)
    requires
        0 <= i < s.len(),
    ensures
        s.take(i + 1).filter(pred) == if pred(s[i]) {
            s.take(i).filter(pred).push(s[i])
        } else {
            s.take(i).filter(pred)
        },
{
    reveal(Seq::filter);
    assert(s.take(i + 1).drop_last() =~= s.take(i));
}

} // verus!

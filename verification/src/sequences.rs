//! What holds of sequences in general.

use vstd::prelude::*;

verus! {

/// Filtering a sequence that ends in `x` filters what stands before `x` and
/// keeps `x` if it passes.
pub proof fn filter_of_push<A>(s: Seq<A>, x: A, pred: spec_fn(A) -> bool)
    ensures
        s.push(x).filter(pred) == if pred(x) {
            s.filter(pred).push(x)
        } else {
            s.filter(pred)
        },
{
    reveal(Seq::filter);
    assert(s.push(x).drop_last() =~= s);
}

} // verus!

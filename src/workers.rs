use crate::outcome::{totals_fit, totals_of, Totals};
use vstd::math::min;
use vstd::prelude::*;

verus! {

/// The worker count of a run: the requested count, or the machine's
/// parallelism when none was requested, never more than there are items.
pub open spec fn spec_clamp_workers(requested: Option<usize>, available: usize, items: usize) -> usize {
    match requested {
        Some(n) => min(n as int, items as int) as usize,
        None => min(available as int, items as int) as usize,
    }
}

/// How many worker threads a run uses.
pub fn clamp_workers(requested: Option<usize>, available: usize, items: usize) -> (r: usize)
    ensures
        r == spec_clamp_workers(requested, available, items),
{
    let wanted = match requested {
        Some(n) => n,
        None => available,
    };
    if wanted < items {
        wanted
    } else {
        items
    }
}

/// Degenerate inputs: more workers requested than there are items gives one
/// worker per item; no items gives no workers, and a run with no workers
/// finalizes to zero totals.
pub proof fn lemma_degenerate_inputs(requested: usize, available: usize, items: usize)
    ensures
        requested >= items ==> spec_clamp_workers(Some(requested), available, items) == items,
        items == 0 ==> spec_clamp_workers(Some(requested), available, items) == 0
            && spec_clamp_workers(None, available, items) == 0,
        totals_fit(Seq::empty()),
        totals_of(Seq::empty()) == (Totals { total_before: 0, total_after: 0, reported: 0, failed: 0 }),
{
}

} // verus!

use vstd::prelude::*;

verus! {

/// What the task body reported for one item.
#[derive(Clone, Copy, Debug, PartialEq, Eq, Structural)]
pub enum ItemOutcome {
    /// The item shrank from `before` to `after` bytes and the smaller output was kept.
    Saved { before: usize, after: usize },
    /// The item did not shrink (`after >= before`), so nothing was written.
    Skipped { before: usize, after: usize },
    /// The task body failed on the item.
    Failed,
}

impl ItemOutcome {
    /// The size before, counted in the totals only for a saved item.
    pub open spec fn saved_before(self) -> nat {
        match self {
            ItemOutcome::Saved { before, .. } => before as nat,
            _ => 0,
        }
    }

    /// The size after, counted in the totals only for a saved item.
    pub open spec fn saved_after(self) -> nat {
        match self {
            ItemOutcome::Saved { after, .. } => after as nat,
            _ => 0,
        }
    }

    /// Classifies a successful run of the task body by its two sizes.
    pub fn from_sizes(before: usize, after: usize) -> (r: ItemOutcome)
        ensures
            r == (if after < before {
                ItemOutcome::Saved { before, after }
            } else {
                ItemOutcome::Skipped { before, after }
            }),
    {
        if after < before {
            ItemOutcome::Saved { before, after }
        } else {
            ItemOutcome::Skipped { before, after }
        }
    }
}

/// A quantity that the totals add up over items.
#[derive(Clone, Copy, Debug, PartialEq, Eq, Structural)]
pub enum Measure {
    SavedBefore,
    SavedAfter,
    Failures,
    Items,
}

impl ItemOutcome {
    /// What one item contributes to the measure `m`.
    pub open spec fn measure(self, m: Measure) -> nat {
        match m {
            Measure::SavedBefore => self.saved_before(),
            Measure::SavedAfter => self.saved_after(),
            Measure::Failures => if self is Failed { 1nat } else { 0nat },
            Measure::Items => 1,
        }
    }
}

/// The measure `m` summed over the items `s`.
pub open spec fn sum_of(s: Seq<ItemOutcome>, m: Measure) -> nat
    decreases s.len(),
{
    if s.len() == 0 {
        0
    } else {
        sum_of(s.drop_last(), m) + s.last().measure(m)
    }
}

/// Sum of the before-sizes of the saved items of `s`.
pub open spec fn sum_before(s: Seq<ItemOutcome>) -> nat {
    sum_of(s, Measure::SavedBefore)
}

/// Sum of the after-sizes of the saved items of `s`.
pub open spec fn sum_after(s: Seq<ItemOutcome>) -> nat {
    sum_of(s, Measure::SavedAfter)
}

/// Number of failed items in `s`.
pub open spec fn count_failed(s: Seq<ItemOutcome>) -> nat {
    sum_of(s, Measure::Failures)
}

/// The measure `m` summed over each worker's items, worker by worker.
pub open spec fn sum_over_workers(ws: Seq<Seq<ItemOutcome>>, m: Measure) -> nat
    decreases ws.len(),
{
    if ws.len() == 0 {
        0
    } else {
        sum_over_workers(ws.drop_last(), m) + sum_of(ws.last(), m)
    }
}

/// Number of items over all workers.
pub open spec fn items_over_workers(ws: Seq<Seq<ItemOutcome>>) -> nat
    decreases ws.len(),
{
    if ws.len() == 0 {
        0
    } else {
        items_over_workers(ws.drop_last()) + ws.last().len()
    }
}

proof fn lemma_sum_of_concat(a: Seq<ItemOutcome>, b: Seq<ItemOutcome>, m: Measure)
    ensures
        sum_of(a + b, m) == sum_of(a, m) + sum_of(b, m),
    decreases b.len(),
{
    if b.len() > 0 {
        assert((a + b).drop_last() =~= a + b.drop_last());
        lemma_sum_of_concat(a, b.drop_last(), m);
    } else {
        assert(a + b =~= a);
    }
}

proof fn lemma_sum_of_remove(s: Seq<ItemOutcome>, j: int, m: Measure)
    requires
        0 <= j < s.len(),
    ensures
        sum_of(s, m) == sum_of(s.remove(j), m) + s[j].measure(m),
{
    let pre = s.subrange(0, j);
    let post = s.subrange(j + 1, s.len() as int);
    assert(s =~= pre + seq![s[j]] + post);
    assert(s.remove(j) =~= pre + post);
    lemma_sum_of_concat(pre + seq![s[j]], post, m);
    lemma_sum_of_concat(pre, seq![s[j]], m);
    lemma_sum_of_concat(pre, post, m);
    let one = seq![s[j]];
    assert(one.drop_last() =~= Seq::<ItemOutcome>::empty());
    assert(one.last() == s[j]);
    assert(sum_of(one.drop_last(), m) == 0);
    assert(sum_of(one, m) == s[j].measure(m));
}

/// Any sum over items depends only on which items there are, not on their order.
pub proof fn lemma_sum_of_order_free(a: Seq<ItemOutcome>, b: Seq<ItemOutcome>, m: Measure)
    requires
        a.to_multiset() =~= b.to_multiset(),
    ensures
        sum_of(a, m) == sum_of(b, m),
    decreases a.len(),
{
    broadcast use vstd::seq_lib::group_to_multiset_ensures;

    if a.len() == 0 {
        assert(b.to_multiset().len() == 0);
        assert(b.len() == 0);
    } else {
        let x = a.last();
        assert(a.to_multiset().count(x) > 0) by {
            assert(a.drop_last().push(x) =~= a);
        }
        assert(b.contains(x));
        let j = choose|j: int| 0 <= j < b.len() && b[j] == x;
        assert(a.drop_last().push(x) =~= a);
        assert(a.drop_last().to_multiset() =~= b.remove(j).to_multiset());
        lemma_sum_of_order_free(a.drop_last(), b.remove(j), m);
        lemma_sum_of_remove(b, j, m);
    }
}

/// Summing worker by worker is summing over all the items that the workers took together.
pub proof fn lemma_sum_over_workers_flat(ws: Seq<Seq<ItemOutcome>>, m: Measure)
    ensures
        sum_over_workers(ws, m) == sum_of(ws.flatten(), m),
        items_over_workers(ws) == ws.flatten().len(),
    decreases ws.len(),
{
    if ws.len() == 0 {
    } else {
        let init = ws.drop_last();
        lemma_sum_over_workers_flat(init, m);
        assert(ws =~= init + seq![ws.last()]);
        vstd::seq_lib::lemma_flatten_concat(init, seq![ws.last()]);
        seq![ws.last()].lemma_flatten_one_element();
        lemma_sum_of_concat(init.flatten(), ws.last(), m);
    }
}

/// The totals of a run do not depend on which worker processed which item: two
/// assignments of the same items to workers give the same sums.
pub proof fn lemma_totals_independent_of_assignment(
    a: Seq<Seq<ItemOutcome>>,
    b: Seq<Seq<ItemOutcome>>,
    m: Measure,
)
    requires
        a.flatten().to_multiset() =~= b.flatten().to_multiset(),
    ensures
        sum_over_workers(a, m) == sum_over_workers(b, m),
        items_over_workers(a) == items_over_workers(b),
{
    broadcast use vstd::seq_lib::group_to_multiset_ensures;

    lemma_sum_over_workers_flat(a, m);
    lemma_sum_over_workers_flat(b, m);
    lemma_sum_of_order_free(a.flatten(), b.flatten(), m);
    assert(a.flatten().len() == a.flatten().to_multiset().len());
}

/// One worker's running totals over the items it processed.
#[derive(Clone, Copy, Debug, PartialEq, Eq, Structural)]
pub struct WorkerOutcome {
    pub before: usize,
    pub after: usize,
    pub reported: usize,
    pub failed: usize,
}

impl WorkerOutcome {
    /// The totals are exactly those of the items `s`, in any order.
    pub open spec fn tallies(self, s: Seq<ItemOutcome>) -> bool {
        &&& self.before == sum_before(s)
        &&& self.after == sum_after(s)
        &&& self.reported == s.len()
        &&& self.failed == count_failed(s)
    }

    /// Whether one more item fits in the counters.
    pub open spec fn fits(self, o: ItemOutcome) -> bool {
        &&& self.before + o.saved_before() <= usize::MAX
        &&& self.after + o.saved_after() <= usize::MAX
        &&& self.reported + 1 <= usize::MAX
        &&& self.failed + 1 <= usize::MAX
    }

    /// Totals of a worker that processed nothing yet.
    pub fn new() -> (r: WorkerOutcome)
        ensures
            r.tallies(Seq::empty()),
    {
        WorkerOutcome { before: 0, after: 0, reported: 0, failed: 0 }
    }

    /// Whether `record(o)` can be called without overflowing a counter.
    pub fn can_record(&self, o: ItemOutcome) -> (r: bool)
        ensures
            r == self.fits(o),
    {
        match o {
            ItemOutcome::Saved { before, after } => {
                before <= usize::MAX - self.before && after <= usize::MAX - self.after
                    && self.reported < usize::MAX && self.failed < usize::MAX
            },
            _ => self.reported < usize::MAX && self.failed < usize::MAX,
        }
    }

    /// Adds one item's outcome to the totals.
    pub fn record(&mut self, o: ItemOutcome)
        requires
            old(self).fits(o),
        ensures
            final(self).before == old(self).before + o.saved_before(),
            final(self).after == old(self).after + o.saved_after(),
            final(self).reported == old(self).reported + 1,
            final(self).failed == old(self).failed + o.measure(Measure::Failures),
            forall|s: Seq<ItemOutcome>| old(self).tallies(s) ==> final(self).tallies(s.push(o)),
    {
        match o {
            ItemOutcome::Saved { before, after } => {
                self.before = self.before + before;
                self.after = self.after + after;
            },
            ItemOutcome::Failed => {
                self.failed = self.failed + 1;
            },
            _ => {},
        }
        self.reported = self.reported + 1;
        proof {
            assert forall|s: Seq<ItemOutcome>| old(self).tallies(s) implies self.tallies(s.push(o)) by {
                assert(s.push(o).drop_last() =~= s);
            }
        }
    }
}

impl WorkerOutcome {
    /// The counter that holds the measure `m`.
    pub open spec fn field(self, m: Measure) -> nat {
        match m {
            Measure::SavedBefore => self.before as nat,
            Measure::SavedAfter => self.after as nat,
            Measure::Failures => self.failed as nat,
            Measure::Items => self.reported as nat,
        }
    }

    /// Reads the counter that holds the measure `m`.
    pub fn get(&self, m: Measure) -> (r: usize)
        ensures
            r == self.field(m),
    {
        match m {
            Measure::SavedBefore => self.before,
            Measure::SavedAfter => self.after,
            Measure::Failures => self.failed,
            Measure::Items => self.reported,
        }
    }
}

/// The measure `m` summed over the published slots; an empty slot adds nothing.
pub open spec fn published_sum(slots: Seq<Option<WorkerOutcome>>, m: Measure) -> nat
    decreases slots.len(),
{
    if slots.len() == 0 {
        0
    } else {
        published_sum(slots.drop_last(), m) + match slots.last() {
            Some(w) => w.field(m),
            None => 0,
        }
    }
}

/// Whether every combined total fits in a `usize`.
pub open spec fn totals_fit(slots: Seq<Option<WorkerOutcome>>) -> bool {
    &&& published_sum(slots, Measure::SavedBefore) <= usize::MAX
    &&& published_sum(slots, Measure::SavedAfter) <= usize::MAX
    &&& published_sum(slots, Measure::Failures) <= usize::MAX
    &&& published_sum(slots, Measure::Items) <= usize::MAX
}

/// The combined totals of a run.
#[derive(Clone, Copy, Debug, PartialEq, Eq, Structural)]
pub struct Totals {
    pub total_before: usize,
    pub total_after: usize,
    pub reported: usize,
    pub failed: usize,
}

/// The totals that the slots add up to.
pub open spec fn totals_of(slots: Seq<Option<WorkerOutcome>>) -> Totals {
    Totals {
        total_before: published_sum(slots, Measure::SavedBefore) as usize,
        total_after: published_sum(slots, Measure::SavedAfter) as usize,
        reported: published_sum(slots, Measure::Items) as usize,
        failed: published_sum(slots, Measure::Failures) as usize,
    }
}

proof fn lemma_published_prefix(slots: Seq<Option<WorkerOutcome>>, i: int, m: Measure)
    requires
        0 <= i <= slots.len(),
    ensures
        published_sum(slots.subrange(0, i), m) <= published_sum(slots, m),
    decreases slots.len() - i,
{
    if i == slots.len() {
        assert(slots.subrange(0, i) =~= slots);
    } else {
        lemma_published_prefix(slots, i + 1, m);
        assert(slots.subrange(0, i + 1).drop_last() =~= slots.subrange(0, i));
    }
}

/// One slot per worker, each written once by its worker when its loop ends, and
/// summed once after every worker has ended.
pub struct Aggregator {
    slots: Vec<Option<WorkerOutcome>>,
}

impl View for Aggregator {
    type V = Seq<Option<WorkerOutcome>>;

    closed spec fn view(&self) -> Seq<Option<WorkerOutcome>> {
        self.slots@
    }
}

impl Aggregator {
    /// An aggregator with `workers` empty slots.
    pub fn new(workers: usize) -> (r: Aggregator)
        ensures
            r@ =~= Seq::new(workers as nat, |i: int| None::<WorkerOutcome>),
    {
        let mut slots: Vec<Option<WorkerOutcome>> = Vec::new();
        let mut i: usize = 0;
        while i < workers
            invariant
                i <= workers,
                slots@ =~= Seq::new(i as nat, |k: int| None::<WorkerOutcome>),
            decreases workers - i,
        {
            slots.push(None);
            i = i + 1;
        }
        Aggregator { slots }
    }

    /// Number of slots.
    pub fn len(&self) -> (r: usize)
        ensures
            r == self@.len(),
    {
        self.slots.len()
    }

    /// Whether worker `worker` has published its outcome.
    pub fn is_published(&self, worker: usize) -> (r: bool)
        requires
            worker < self@.len(),
        ensures
            r == self@[worker as int] is Some,
    {
        self.slots[worker].is_some()
    }

    /// Writes the outcome of worker `worker` into its slot.
    pub fn publish(&mut self, worker: usize, outcome: WorkerOutcome)
        requires
            worker < old(self)@.len(),
            old(self)@[worker as int] is None,
        ensures
            final(self)@ == old(self)@.update(worker as int, Some(outcome)),
    {
        self.slots.set(worker, Some(outcome));
    }

    /// The measure `m` over all published slots, or `None` if it overflows.
    fn published_total(&self, m: Measure) -> (r: Option<usize>)
        ensures
            r == (if published_sum(self@, m) <= usize::MAX {
                Some(published_sum(self@, m) as usize)
            } else {
                None
            }),
    {
        let mut sum: usize = 0;
        let mut i: usize = 0;
        while i < self.slots.len()
            invariant
                i <= self.slots.len(),
                sum == published_sum(self@.subrange(0, i as int), m),
            decreases self.slots.len() - i,
        {
            proof {
                assert(self@.subrange(0, i + 1).drop_last() =~= self@.subrange(0, i as int));
                lemma_published_prefix(self@, i + 1, m);
            }
            match self.slots[i] {
                Some(w) => {
                    let x = w.get(m);
                    if x > usize::MAX - sum {
                        return None;
                    }
                    sum = sum + x;
                },
                None => {},
            }
            i = i + 1;
        }
        proof {
            assert(self@.subrange(0, i as int) =~= self@);
        }
        Some(sum)
    }

    /// The combined totals over every published slot, or `None` when one of them
    /// does not fit in a `usize`.
    pub fn finalize(&self) -> (r: Option<Totals>)
        ensures
            r == (if totals_fit(self@) { Some(totals_of(self@)) } else { None }),
    {
        let b = self.published_total(Measure::SavedBefore);
        let a = self.published_total(Measure::SavedAfter);
        let n = self.published_total(Measure::Items);
        let f = self.published_total(Measure::Failures);
        match (b, a, n, f) {
            (Some(total_before), Some(total_after), Some(reported), Some(failed)) => Some(
                Totals { total_before, total_after, reported, failed },
            ),
            _ => None,
        }
    }
}

/// Once every worker has published the totals of the items it processed, each
/// combined total is the sum, over all those items, of what each item reported.
pub proof fn lemma_published_totals(
    slots: Seq<Option<WorkerOutcome>>,
    ws: Seq<Seq<ItemOutcome>>,
    m: Measure,
)
    requires
        slots.len() == ws.len(),
        forall|i: int| 0 <= i < slots.len() ==> (#[trigger] slots[i]) is Some && slots[i]->0.tallies(ws[i]),
    ensures
        published_sum(slots, m) == sum_of(ws.flatten(), m),
    decreases slots.len(),
{
    lemma_sum_over_workers_flat(ws, m);
    lemma_published_by_worker(slots, ws, m);
}

proof fn lemma_sum_of_items(s: Seq<ItemOutcome>)
    ensures
        sum_of(s, Measure::Items) == s.len(),
    decreases s.len(),
{
    if s.len() > 0 {
        lemma_sum_of_items(s.drop_last());
    }
}

proof fn lemma_published_by_worker(
    slots: Seq<Option<WorkerOutcome>>,
    ws: Seq<Seq<ItemOutcome>>,
    m: Measure,
)
    requires
        slots.len() == ws.len(),
        forall|i: int| 0 <= i < slots.len() ==> (#[trigger] slots[i]) is Some && slots[i]->0.tallies(ws[i]),
    ensures
        published_sum(slots, m) == sum_over_workers(ws, m),
    decreases slots.len(),
{
    if slots.len() > 0 {
        let k = slots.len() - 1;
        assert(slots[k] is Some && slots[k]->0.tallies(ws[k]));
        lemma_sum_of_items(ws.last());
        lemma_published_by_worker(slots.drop_last(), ws.drop_last(), m);
    }
}

} // verus!

use vstd::multiset::Multiset;
use vstd::prelude::*;

verus! {

broadcast use {
    vstd::seq_lib::group_to_multiset_ensures,
    vstd::multiset::group_multiset_axioms,
    vstd::seq_lib::lemma_multiset_commutative,
};

/// The task queue set at one moment: the global pool and one local queue per
/// worker, each listed front first.
pub struct QueueModel<T> {
    pub global: Seq<T>,
    pub locals: Seq<Seq<T>>,
}

/// Everything that the local queues hold.
pub open spec fn locals_contents<T>(locals: Seq<Seq<T>>) -> Multiset<T>
    decreases locals.len(),
{
    if locals.len() == 0 {
        Multiset::empty()
    } else {
        locals_contents(locals.drop_last()).add(locals.last().to_multiset())
    }
}

/// The first worker index at or after `from` whose local queue is not empty.
pub open spec fn first_nonempty<T>(locals: Seq<Seq<T>>, from: int) -> Option<int>
    decreases locals.len() - from,
{
    if from < 0 || from >= locals.len() {
        None
    } else if locals[from].len() > 0 {
        Some(from)
    } else {
        first_nonempty(locals, from + 1)
    }
}

impl<T> QueueModel<T> {
    /// Everything that the queue set holds.
    pub open spec fn contents(self) -> Multiset<T> {
        self.global.to_multiset().add(locals_contents(self.locals))
    }

    /// The queue set right after seeding: every item in the global pool and
    /// `workers` empty local queues.
    pub open spec fn seeded(items: Seq<T>, workers: nat) -> QueueModel<T> {
        QueueModel { global: items, locals: Seq::new(workers, |i: int| Seq::<T>::empty()) }
    }

    /// The local queue of `w` with its front taken off.
    pub open spec fn without_front(self, w: int) -> QueueModel<T> {
        QueueModel { global: self.global, locals: self.locals.update(w, self.locals[w].drop_first()) }
    }

    /// One attempt of worker `w` to obtain a task: first its own local queue,
    /// then a batch of `batch` items from the global pool (the first is
    /// returned, the rest go to its local queue), then the first peer, by
    /// index, whose queue is not empty. `None` is the worker's exit.
    pub open spec fn next_task(self, w: int, batch: nat) -> Option<(T, QueueModel<T>)> {
        if !(0 <= w < self.locals.len()) {
            None
        } else if self.locals[w].len() > 0 {
            Some((self.locals[w][0], self.without_front(w)))
        } else if self.global.len() > 0 {
            let k = if batch < 1 { 1 } else if batch > self.global.len() { self.global.len() as int } else { batch as int };
            Some(
                (
                    self.global[0],
                    QueueModel {
                        global: self.global.subrange(k, self.global.len() as int),
                        locals: self.locals.update(w, self.global.subrange(1, k)),
                    },
                ),
            )
        } else {
            match first_nonempty(self.locals, 0) {
                Some(j) => Some((self.locals[j][0], self.without_front(j))),
                None => None,
            }
        }
    }
}

/// One step of a schedule: which worker acts, and how large a batch it takes
/// from the global pool if it gets there.
pub struct Attempt {
    pub worker: int,
    pub batch: nat,
}

/// The tasks handed out, in order, and the queue set left, after the attempts
/// `sched` were made one after another from `q`.
pub open spec fn run<T>(q: QueueModel<T>, sched: Seq<Attempt>) -> (Seq<T>, QueueModel<T>)
    decreases sched.len(),
{
    if sched.len() == 0 {
        (Seq::empty(), q)
    } else {
        let (taken, mid) = run(q, sched.drop_last());
        match mid.next_task(sched.last().worker, sched.last().batch) {
            Some((t, next)) => (taken.push(t), next),
            None => (taken, mid),
        }
    }
}

proof fn lemma_locals_update<T>(locals: Seq<Seq<T>>, j: int, s: Seq<T>)
    requires
        0 <= j < locals.len(),
    ensures
        locals_contents(locals).add(s.to_multiset()) =~= locals_contents(locals.update(j, s)).add(
            locals[j].to_multiset(),
        ),
    decreases locals.len(),
{
    let u = locals.update(j, s);
    if j == locals.len() - 1 {
        assert(u.drop_last() =~= locals.drop_last());
        assert(u.last() == s);
        assert(locals_contents(u) == locals_contents(locals.drop_last()).add(s.to_multiset()));
        assert(locals_contents(locals) == locals_contents(locals.drop_last()).add(locals[j].to_multiset()));
    } else {
        assert(u.drop_last() =~= locals.drop_last().update(j, s));
        assert(u.last() == locals.last());
        lemma_locals_update(locals.drop_last(), j, s);
        assert(locals.drop_last()[j] == locals[j]);
        assert(locals_contents(u) == locals_contents(u.drop_last()).add(locals.last().to_multiset()));
        assert(locals_contents(locals) == locals_contents(locals.drop_last()).add(locals.last().to_multiset()));
    }
    let lhs = locals_contents(locals).add(s.to_multiset());
    let rhs = locals_contents(u).add(locals[j].to_multiset());
    assert forall|x: T| lhs.count(x) == rhs.count(x) by {
        assert(lhs.count(x) == locals_contents(locals).count(x) + s.to_multiset().count(x));
        if j == locals.len() - 1 {
            assert(locals_contents(locals).count(x) == locals_contents(locals.drop_last()).count(x) + locals[j].to_multiset().count(x));
            assert(locals_contents(u).count(x) == locals_contents(locals.drop_last()).count(x) + s.to_multiset().count(x));
        } else {
            let a = locals_contents(locals.drop_last()).add(s.to_multiset());
            let b = locals_contents(locals.drop_last().update(j, s)).add(locals[j].to_multiset());
            assert(a.count(x) == b.count(x));
        }
    }
}

proof fn lemma_front_multiset<T>(s: Seq<T>)
    requires
        s.len() > 0,
    ensures
        s.to_multiset() =~= s.drop_first().to_multiset().insert(s[0]),
{
    assert(s =~= seq![s[0]] + s.drop_first());
    assert(seq![s[0]] =~= Seq::<T>::empty().push(s[0]));
}

proof fn lemma_first_nonempty<T>(locals: Seq<Seq<T>>, from: int)
    requires
        0 <= from,
    ensures
        match first_nonempty(locals, from) {
            Some(j) => from <= j < locals.len() && locals[j].len() > 0,
            None => forall|i: int| from <= i < locals.len() ==> (#[trigger] locals[i]).len() == 0,
        },
    decreases locals.len() - from,
{
    if from < locals.len() && locals[from].len() == 0 {
        lemma_first_nonempty(locals, from + 1);
    }
}

proof fn lemma_all_empty<T>(locals: Seq<Seq<T>>)
    requires
        forall|i: int| 0 <= i < locals.len() ==> (#[trigger] locals[i]).len() == 0,
    ensures
        locals_contents(locals) =~= Multiset::empty(),
    decreases locals.len(),
{
    if locals.len() > 0 {
        lemma_all_empty(locals.drop_last());
        assert(locals.last() =~= Seq::<T>::empty());
    }
}

proof fn lemma_take_front<T>(q: QueueModel<T>, w: int)
    requires
        0 <= w < q.locals.len(),
        q.locals[w].len() > 0,
    ensures
        q.contents() =~= q.without_front(w).contents().insert(q.locals[w][0]),
        q.without_front(w).locals.len() == q.locals.len(),
{
    let rest = q.locals[w].drop_first();
    let x = q.locals[w][0];
    lemma_front_multiset(q.locals[w]);
    lemma_locals_update(q.locals, w, rest);
    let lhs = q.contents();
    let rhs = q.without_front(w).contents().insert(x);
    let l0 = locals_contents(q.locals);
    let l1 = locals_contents(q.without_front(w).locals);
    assert forall|y: T| lhs.count(y) == rhs.count(y) by {
        assert(l0.add(rest.to_multiset()).count(y) == l1.add(q.locals[w].to_multiset()).count(y));
        assert(q.locals[w].to_multiset().count(y) == rest.to_multiset().insert(x).count(y));
    }
}

/// A worker obtains a task exactly when the queue set is not empty, and the task
/// it obtains leaves the queue set: nothing is duplicated and nothing is lost.
pub proof fn lemma_next_task<T>(q: QueueModel<T>, w: int, batch: nat)
    requires
        0 <= w < q.locals.len(),
    ensures
        q.next_task(w, batch) is None <==> q.contents().len() == 0,
        match q.next_task(w, batch) {
            Some((t, next)) => {
                &&& q.contents() =~= next.contents().insert(t)
                &&& next.locals.len() == q.locals.len()
            },
            None => true,
        },
{
    if q.locals[w].len() > 0 {
        lemma_take_front(q, w);
    } else if q.global.len() > 0 {
        let g = q.global;
        let k = if batch < 1 { 1 } else if batch > g.len() { g.len() as int } else { batch as int };
        assert(g =~= seq![g[0]] + g.subrange(1, k) + g.subrange(k, g.len() as int));
        assert(seq![g[0]] =~= Seq::<T>::empty().push(g[0]));
        let mid = g.subrange(1, k);
        let tail = g.subrange(k, g.len() as int);
        lemma_locals_update(q.locals, w, mid);
        assert(q.locals[w] =~= Seq::<T>::empty());
        let next = QueueModel {
            global: g.subrange(k, g.len() as int),
            locals: q.locals.update(w, g.subrange(1, k)),
        };
        let l0 = locals_contents(q.locals);
        let l1 = locals_contents(next.locals);
        let gm = (seq![g[0]] + mid + tail).to_multiset();
        assert(gm =~= (seq![g[0]] + mid).to_multiset().add(tail.to_multiset()));
        assert((seq![g[0]] + mid).to_multiset() =~= seq![g[0]].to_multiset().add(mid.to_multiset()));
        assert forall|y: T| q.contents().count(y) == next.contents().insert(g[0]).count(y) by {
            assert(l0.add(mid.to_multiset()).count(y) == l1.add(q.locals[w].to_multiset()).count(y));
            assert(g.to_multiset().count(y) == gm.count(y));
        }
        assert(q.contents() =~= next.contents().insert(g[0]));
    } else {
        lemma_first_nonempty(q.locals, 0);
        match first_nonempty(q.locals, 0) {
            Some(j) => {
                lemma_take_front(q, j);
            },
            None => {
                lemma_all_empty(q.locals);
                assert(q.global =~= Seq::<T>::empty());
            },
        }
    }
}

/// Whether every attempt of `sched` is made by one of `workers` workers.
pub open spec fn valid_schedule(sched: Seq<Attempt>, workers: nat) -> bool {
    forall|i: int| 0 <= i < sched.len() ==> 0 <= (#[trigger] sched[i]).worker < workers
}

/// Over any schedule, what was handed out together with what is left is exactly
/// what the queue set held at the start; every attempt on a non-empty queue set
/// obtains a task.
pub proof fn lemma_run_conserves<T>(q: QueueModel<T>, sched: Seq<Attempt>)
    requires
        valid_schedule(sched, q.locals.len()),
    ensures
        run(q, sched).1.locals.len() == q.locals.len(),
        q.contents() =~= run(q, sched).0.to_multiset().add(run(q, sched).1.contents()),
        run(q, sched).0.len() + run(q, sched).1.contents().len() == q.contents().len(),
    decreases sched.len(),
{
    if sched.len() > 0 {
        let init = sched.drop_last();
        assert(valid_schedule(init, q.locals.len())) by {
            assert forall|i: int| 0 <= i < init.len() implies 0 <= (#[trigger] init[i]).worker < q.locals.len() by {
                assert(init[i] == sched[i]);
            }
        }
        lemma_run_conserves(q, init);
        let (taken, mid) = run(q, init);
        let a = sched.last();
        assert(sched[sched.len() - 1] == a);
        lemma_next_task(mid, a.worker, a.batch);
        match mid.next_task(a.worker, a.batch) {
            Some((t, next)) => {
                assert forall|y: T| q.contents().count(y) == taken.push(t).to_multiset().add(next.contents()).count(y) by {
                    assert(taken.push(t).to_multiset() =~= taken.to_multiset().insert(t));
                    assert(mid.contents().count(y) == next.contents().insert(t).count(y));
                }
                assert(q.contents() =~= taken.push(t).to_multiset().add(next.contents()));
                assert(next.contents().len() + 1 == mid.contents().len());
            },
            None => {},
        }
    }
}

/// Exactly-once processing: when a run that started from the seeded queue set
/// ends with every worker exiting, the tasks handed out are exactly the items,
/// each as often as it was seeded; distinct items are each handed out once.
pub proof fn lemma_exactly_once<T>(items: Seq<T>, workers: nat, sched: Seq<Attempt>)
    requires
        valid_schedule(sched, workers),
        workers >= 1,
        forall|w: int, b: nat|
            0 <= w < workers ==> (#[trigger] run(QueueModel::seeded(items, workers), sched).1.next_task(w, b)) is None,
    ensures
        run(QueueModel::seeded(items, workers), sched).0.to_multiset() =~= items.to_multiset(),
        run(QueueModel::seeded(items, workers), sched).0.len() == items.len(),
        items.no_duplicates() ==> run(QueueModel::seeded(items, workers), sched).0.no_duplicates(),
{
    let q = QueueModel::seeded(items, workers);
    let (taken, end) = run(q, sched);
    lemma_run_conserves(q, sched);
    assert(end.next_task(0, 0) is None);
    lemma_next_task(end, 0, 0);
    lemma_all_empty(q.locals);
    assert(end.contents() =~= Multiset::empty());
    assert(taken.to_multiset() =~= q.contents());
    assert(q.contents() =~= items.to_multiset());
    if items.no_duplicates() {
        items.lemma_multiset_has_no_duplicates();
        taken.lemma_multiset_has_no_duplicates_conv();
    }
}

/// Termination: over any schedule from the seeded queue set, at most as many
/// attempts obtain a task as there are items; an attempt fails only once every
/// queue is empty, and then every worker's next attempt is its exit. Each
/// worker thus exits after at most one failed attempt, so a run makes at most
/// `items.len() + workers` attempts, each looking at no more than `workers + 1`
/// queues.
pub proof fn lemma_terminates<T>(items: Seq<T>, workers: nat, sched: Seq<Attempt>, w: int, b: nat)
    requires
        valid_schedule(sched, workers),
        0 <= w < workers,
    ensures
        run(QueueModel::seeded(items, workers), sched).0.len() <= items.len(),
        run(QueueModel::seeded(items, workers), sched).1.next_task(w, b) is None
            <==> run(QueueModel::seeded(items, workers), sched).0.len() == items.len(),
{
    let q = QueueModel::seeded(items, workers);
    let (taken, end) = run(q, sched);
    lemma_run_conserves(q, sched);
    lemma_next_task(end, w, b);
    lemma_all_empty(q.locals);
    assert(q.contents() =~= items.to_multiset());
}

} // verus!

use imgpress::outcome::{Aggregator, ItemOutcome, Totals, WorkerOutcome};
use imgpress::queues::{after_miss, find_task, Stage, TaskQueues};
use imgpress::workers::clamp_workers;
use std::collections::BTreeSet;

fn items(n: usize) -> Vec<String> {
    (1..=n).map(|i| format!("item{}", i)).collect()
}

fn tally(results: &[ItemOutcome]) -> WorkerOutcome {
    let mut w = WorkerOutcome::new();
    for r in results {
        assert!(w.can_record(*r));
        w.record(*r);
    }
    w
}

#[test]
fn seven_items_three_workers_totals() {
    // before = [10,20,10,30,20,10,30], after = half, item 3 fails
    let before = [10usize, 20, 10, 30, 20, 10, 30];
    let outcome = |i: usize| {
        if i == 3 {
            ItemOutcome::Failed
        } else {
            ItemOutcome::from_sizes(before[i - 1], before[i - 1] / 2)
        }
    };
    let a = tally(&[outcome(1), outcome(4)]);
    let b = tally(&[outcome(2), outcome(5), outcome(7)]);
    let c = tally(&[outcome(3), outcome(6)]);
    let mut agg = Aggregator::new(3);
    agg.publish(0, a);
    agg.publish(1, b);
    agg.publish(2, c);
    let t = agg.finalize().unwrap();
    assert_eq!(t, Totals { total_before: 120, total_after: 60, reported: 7, failed: 1 });
    assert_eq!(t.reported - t.failed, 6);
}

#[test]
fn totals_do_not_depend_on_assignment() {
    let rs = [
        ItemOutcome::from_sizes(100, 40),
        ItemOutcome::from_sizes(50, 60),
        ItemOutcome::Failed,
        ItemOutcome::from_sizes(7, 3),
    ];
    let mut one = Aggregator::new(2);
    one.publish(0, tally(&rs[..1]));
    one.publish(1, tally(&rs[1..]));
    let mut other = Aggregator::new(3);
    other.publish(2, tally(&[rs[3], rs[0]]));
    other.publish(0, tally(&[rs[2]]));
    other.publish(1, tally(&[rs[1]]));
    let t1 = one.finalize().unwrap();
    assert_eq!(t1, other.finalize().unwrap());
    assert_eq!(t1, Totals { total_before: 107, total_after: 43, reported: 4, failed: 1 });
    // recomputing gives the same totals
    assert_eq!(one.finalize().unwrap(), t1);
}

#[test]
fn skipped_items_are_not_counted_as_saved() {
    assert_eq!(ItemOutcome::from_sizes(10, 10), ItemOutcome::Skipped { before: 10, after: 10 });
    assert_eq!(ItemOutcome::from_sizes(10, 12), ItemOutcome::Skipped { before: 10, after: 12 });
    assert_eq!(ItemOutcome::from_sizes(10, 9), ItemOutcome::Saved { before: 10, after: 9 });
    let w = tally(&[ItemOutcome::from_sizes(10, 12)]);
    assert_eq!(w, WorkerOutcome { before: 0, after: 0, reported: 1, failed: 0 });
}

#[test]
fn record_refuses_overflow() {
    let w = WorkerOutcome { before: usize::MAX - 5, after: 0, reported: 0, failed: 0 };
    assert!(!w.can_record(ItemOutcome::Saved { before: 6, after: 1 }));
    assert!(w.can_record(ItemOutcome::Saved { before: 5, after: 1 }));
    assert!(w.can_record(ItemOutcome::Failed));
}

#[test]
fn finalize_reports_overflow() {
    let mut agg = Aggregator::new(2);
    agg.publish(0, WorkerOutcome { before: usize::MAX, after: 1, reported: 1, failed: 0 });
    agg.publish(1, WorkerOutcome { before: 1, after: 0, reported: 1, failed: 0 });
    assert_eq!(agg.finalize(), None);
}

#[test]
fn publish_fills_one_slot() {
    let mut agg = Aggregator::new(2);
    assert_eq!(agg.len(), 2);
    assert!(!agg.is_published(0));
    agg.publish(1, WorkerOutcome::new());
    assert!(agg.is_published(1));
    assert!(!agg.is_published(0));
}

#[test]
fn worker_count_clamps_to_items() {
    assert_eq!(clamp_workers(Some(10), 4, 2), 2);
    assert_eq!(clamp_workers(None, 8, 100), 8);
    assert_eq!(clamp_workers(None, 8, 3), 3);
    assert_eq!(clamp_workers(Some(3), 8, 7), 3);
}

#[test]
fn no_items_is_a_no_op_run() {
    let n = clamp_workers(None, 8, 0);
    assert_eq!(n, 0);
    let agg = Aggregator::new(n);
    assert_eq!(agg.finalize(), Some(Totals { total_before: 0, total_after: 0, reported: 0, failed: 0 }));
}

#[test]
fn stages_go_local_global_peers_exit() {
    assert_eq!(after_miss(Stage::Local, 2), Stage::Global);
    assert_eq!(after_miss(Stage::Global, 2), Stage::Peer(0));
    assert_eq!(after_miss(Stage::Peer(0), 2), Stage::Peer(1));
    assert_eq!(after_miss(Stage::Peer(1), 2), Stage::Exit);
    assert_eq!(after_miss(Stage::Global, 0), Stage::Exit);
    assert_eq!(after_miss(Stage::Exit, 3), Stage::Exit);
}

#[test]
fn every_item_is_handed_out_once() {
    let input = items(7);
    let w = clamp_workers(Some(3), 8, input.len());
    let q = TaskQueues::seeded(input.clone(), w);
    assert_eq!(q.locals.len(), 3);
    assert_eq!(q.stealers.len(), 3);
    let mut seen = Vec::new();
    let mut exited = vec![false; w];
    while exited.iter().any(|e| !e) {
        for i in 0..w {
            if exited[i] {
                continue;
            }
            match find_task(&q.locals[i], &q.global, &q.stealers) {
                Some((task, stage)) => {
                    assert_ne!(stage, Stage::Exit);
                    seen.push(task);
                }
                None => exited[i] = true,
            }
        }
    }
    assert_eq!(seen.len(), 7);
    let distinct: BTreeSet<_> = seen.iter().cloned().collect();
    let expected: BTreeSet<_> = input.into_iter().collect();
    assert_eq!(distinct, expected);
    for i in 0..w {
        assert!(find_task(&q.locals[i], &q.global, &q.stealers).is_none());
    }
}

#[test]
fn work_is_stolen_from_a_peer() {
    let q = TaskQueues::seeded(items(6), 2);
    // worker 0 takes a batch from the global pool
    let (_, stage) = find_task(&q.locals[0], &q.global, &q.stealers).unwrap();
    assert_eq!(stage, Stage::Global);
    let mut count = 1;
    // worker 1 drains everything that is left, stealing from worker 0 at the end
    let mut stages = Vec::new();
    while let Some((_, s)) = find_task(&q.locals[1], &q.global, &q.stealers) {
        stages.push(s);
        count += 1;
    }
    assert_eq!(count, 6);
    assert!(stages.contains(&Stage::Peer(0)));
    assert!(find_task(&q.locals[0], &q.global, &q.stealers).is_none());
}

#[test]
fn two_items_with_ten_requested_workers() {
    let input = items(2);
    let w = clamp_workers(Some(10), 16, input.len());
    assert_eq!(w, 2);
    let q = TaskQueues::seeded(input, w);
    let mut n = 0;
    for i in 0..w {
        while find_task(&q.locals[i], &q.global, &q.stealers).is_some() {
            n += 1;
        }
    }
    assert_eq!(n, 2);
}

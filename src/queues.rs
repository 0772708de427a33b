use crossbeam_deque::{Injector, Stealer, Worker};
use vstd::prelude::*;

verus! {

#[verifier::external_type_specification]
#[verifier::external_body]
#[verifier::reject_recursive_types(T)]
pub struct ExInjector<T>(Injector<T>);

#[verifier::external_type_specification]
#[verifier::external_body]
#[verifier::reject_recursive_types(T)]
pub struct ExWorker<T>(Worker<T>);

#[verifier::external_type_specification]
#[verifier::external_body]
#[verifier::reject_recursive_types(T)]
pub struct ExStealer<T>(Stealer<T>);

/// Relies on `crossbeam_deque::Injector::new`: an empty global pool.
#[verifier::external_body]
fn new_global() -> (r: Injector<String>) {
    Injector::new()
}

/// Relies on `crossbeam_deque::Injector::push`: adds a task to the global pool.
#[verifier::external_body]
fn push_global(global: &Injector<String>, task: String) {
    global.push(task)
}

/// Relies on `crossbeam_deque::Worker::new_fifo`: an empty local queue whose
/// owner pops from the front.
#[verifier::external_body]
fn new_local() -> (r: Worker<String>) {
    Worker::new_fifo()
}

/// Relies on `crossbeam_deque::Worker::stealer`: a handle through which other
/// workers steal from the local queue.
#[verifier::external_body]
fn stealer_of(local: &Worker<String>) -> (r: Stealer<String>) {
    local.stealer()
}

/// Relies on `crossbeam_deque::Worker::pop`: the front task of the worker's own
/// queue, or `None` when it is empty.
#[verifier::external_body]
fn pop_local(local: &Worker<String>) -> (r: Option<String>) {
    local.pop()
}

/// Relies on `crossbeam_deque::Injector::steal_batch_and_pop` and
/// `Steal::success`: moves a batch of tasks from the global pool into `local`
/// and returns one of them; `None` when the pool was empty or contended.
#[verifier::external_body]
fn steal_global_batch(global: &Injector<String>, local: &Worker<String>) -> (r: Option<String>) {
    global.steal_batch_and_pop(local).success()
}

/// Relies on `crossbeam_deque::Stealer::steal` and `Steal::success`: one task
/// taken from a peer's queue; `None` when it was empty or contended.
#[verifier::external_body]
fn steal_from_peer(peer: &Stealer<String>) -> (r: Option<String>) {
    peer.steal().success()
}

/// The queue set of a run: the global pool, one local queue per worker, and
/// the stealer handle of each local queue, in worker order.
pub struct TaskQueues {
    pub global: Injector<String>,
    pub locals: Vec<Worker<String>>,
    pub stealers: Vec<Stealer<String>>,
}

impl TaskQueues {
    /// A queue set for `workers` workers whose global pool is seeded with `items`.
    pub fn seeded(items: Vec<String>, workers: usize) -> (r: TaskQueues)
        ensures
            r.locals.len() == workers,
            r.stealers.len() == workers,
    {
        let mut locals: Vec<Worker<String>> = Vec::new();
        let mut stealers: Vec<Stealer<String>> = Vec::new();
        let mut i: usize = 0;
        while i < workers
            invariant
                i <= workers,
                locals.len() == i,
                stealers.len() == i,
            decreases workers - i,
        {
            let local = new_local();
            stealers.push(stealer_of(&local));
            locals.push(local);
            i = i + 1;
        }
        let global = new_global();
        let mut items = items;
        while items.len() > 0
            decreases items.len(),
        {
            let task = items.remove(0);
            push_global(&global, task);
        }
        TaskQueues { global, locals, stealers }
    }
}

/// Where a worker looks for its next task.
#[derive(Clone, Copy, Debug, PartialEq, Eq, Structural)]
pub enum Stage {
    /// Its own local queue.
    Local,
    /// A batch from the global pool.
    Global,
    /// The queue of the peer with this index.
    Peer(usize),
    /// Every source came up empty: the worker's loop ends.
    Exit,
}

/// The stage that follows a miss at `stage`, with `peers` stealer handles.
pub open spec fn spec_after_miss(stage: Stage, peers: usize) -> Stage {
    match stage {
        Stage::Local => Stage::Global,
        Stage::Global => if peers > 0 { Stage::Peer(0) } else { Stage::Exit },
        Stage::Peer(i) => if i + 1 < peers { Stage::Peer((i + 1) as usize) } else { Stage::Exit },
        Stage::Exit => Stage::Exit,
    }
}

/// How many more looks a worker can make from `stage` before it exits.
pub open spec fn looks_left(stage: Stage, peers: usize) -> nat {
    match stage {
        Stage::Local => (peers + 2) as nat,
        Stage::Global => (peers + 1) as nat,
        Stage::Peer(i) => if i < peers { (peers - i) as nat } else { 0 },
        Stage::Exit => 0,
    }
}

/// The stage that follows a miss: local, then global, then each peer in index
/// order, then exit. Each miss brings the worker one look closer to its exit.
pub fn after_miss(stage: Stage, peers: usize) -> (r: Stage)
    ensures
        r == spec_after_miss(stage, peers),
        stage != Stage::Exit && (stage matches Stage::Peer(i) ==> i < peers)
            ==> looks_left(r, peers) < looks_left(stage, peers),
{
    match stage {
        Stage::Local => Stage::Global,
        Stage::Global => if peers > 0 { Stage::Peer(0) } else { Stage::Exit },
        Stage::Peer(i) => if i < peers && i + 1 < peers { Stage::Peer(i + 1) } else { Stage::Exit },
        Stage::Exit => Stage::Exit,
    }
}

/// One search of a worker for a task: its own queue first, then a batch from
/// the global pool, then each peer in index order. Returns the task with the
/// stage where it was found, or `None` when every source came up empty, after
/// at most `stealers.len() + 2` looks.
pub fn find_task(local: &Worker<String>, global: &Injector<String>, stealers: &Vec<Stealer<String>>) -> (r: Option<(String, Stage)>)
    ensures
        r matches Some((_, s)) ==> s != Stage::Exit && (s matches Stage::Peer(j) ==> j < stealers.len()),
{
    let peers = stealers.len();
    let mut stage = Stage::Local;
    loop
        invariant
            peers == stealers.len(),
            stage matches Stage::Peer(j) ==> j < peers,
        decreases looks_left(stage, peers),
    {
        let got = match stage {
            Stage::Local => pop_local(local),
            Stage::Global => steal_global_batch(global, local),
            Stage::Peer(j) => steal_from_peer(&stealers[j]),
            Stage::Exit => {
                return None;
            },
        };
        match got {
            Some(task) => {
                return Some((task, stage));
            },
            None => {
                stage = after_miss(stage, peers);
            },
        }
    }
}

} // verus!

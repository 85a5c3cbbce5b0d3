//! Task queues: one global queue, and one local queue for every processor.
//!
//! Both are queues of task identifiers held by `crossbeam_deque`. The handles that the crate gives
//! out for stealing are made for a single call and dropped with it, so a queue can be reached only
//! through the struct that owns it, and its contents change only under a mutable borrow.

use crossbeam_deque::{Injector, Steal, Worker};
use vstd::prelude::*;

verus! {

/// The global queue type of `crossbeam_deque`.
#[verifier::external_type_specification]
#[verifier::external_body]
#[verifier::reject_recursive_types(T)]
pub struct ExInjector<T>(Injector<T>);

/// The local queue type of `crossbeam_deque`.
#[verifier::external_type_specification]
#[verifier::external_body]
#[verifier::reject_recursive_types(T)]
pub struct ExWorker<T>(Worker<T>);

/// The tasks in a global queue, oldest first.
pub uninterp spec fn injector_tasks(q: Injector<u64>) -> Seq<u64>;

/// The tasks in a local queue, oldest first.
pub uninterp spec fn worker_tasks(w: Worker<u64>) -> Seq<u64>;

/// Whether a local queue was made in the first-in first-out flavor and no stealing handle to it is
/// held anywhere.
pub uninterp spec fn worker_private_fifo(w: Worker<u64>) -> bool;

/// What came of an attempt to steal a task.
#[derive(Clone, Copy, Debug, PartialEq, Eq, Structural)]
pub enum Stolen {
    /// There was nothing to steal.
    Empty,
    /// A task was stolen.
    Success(u64),
    /// It failed spuriously and has to be repeated.
    Retry,
}

/// One task `taken` left the front of a queue, and the tasks behind it, up to some number, moved
/// in order to the back of another queue.
pub open spec fn batch_taken(
    from0: Seq<u64>,
    from1: Seq<u64>,
    into0: Seq<u64>,
    into1: Seq<u64>,
    taken: u64,
) -> bool {
    let moved = into1.len() - into0.len();
    &&& 0 <= moved < from0.len()
    &&& taken == from0[0]
    &&& into1 == into0 + from0.subrange(1, 1 + moved)
    &&& from1 == from0.subrange(1 + moved, from0.len() as int)
}

/// At least one task, and those behind it up to some number, moved in order from the front of a
/// queue to the back of another queue.
pub open spec fn batch_moved(
    from0: Seq<u64>,
    from1: Seq<u64>,
    into0: Seq<u64>,
    into1: Seq<u64>,
) -> bool {
    let moved = into1.len() - into0.len();
    &&& 0 < moved <= from0.len()
    &&& into1 == into0 + from0.subrange(0, moved)
    &&& from1 == from0.subrange(moved, from0.len() as int)
}

/// Calls `Injector::new`: the new queue is empty.
#[verifier::external_body]
fn injector_new() -> (q: Injector<u64>)
    ensures
        injector_tasks(q) == Seq::<u64>::empty(),
{
    Injector::new()
}

/// Calls `Injector::push`: the task goes to the back of the queue.
#[verifier::external_body]
fn injector_push(q: &mut Injector<u64>, task: u64)
    ensures
        injector_tasks(*final(q)) == injector_tasks(*old(q)).push(task),
{
    q.push(task)
}

/// Calls `Injector::steal_batch_and_pop`: an empty queue answers `Empty`; otherwise the front task
/// is returned and a batch of those behind it goes to the local queue, or the attempt fails
/// spuriously and changes nothing. How large the batch is, is left open.
#[verifier::external_body]
fn injector_steal_batch_and_pop(q: &mut Injector<u64>, dest: &mut Worker<u64>) -> (r: Stolen)
    requires
        worker_private_fifo(*old(dest)),
    ensures
        worker_private_fifo(*final(dest)),
        r is Empty <==> injector_tasks(*old(q)).len() == 0,
        r matches Stolen::Success(task) ==> batch_taken(
            injector_tasks(*old(q)),
            injector_tasks(*final(q)),
            worker_tasks(*old(dest)),
            worker_tasks(*final(dest)),
            task,
        ),
        !(r is Success) ==> injector_tasks(*final(q)) == injector_tasks(*old(q)) && worker_tasks(
            *final(dest),
        ) == worker_tasks(*old(dest)),
{
    match q.steal_batch_and_pop(dest) {
        Steal::Empty => Stolen::Empty,
        Steal::Success(task) => Stolen::Success(task),
        Steal::Retry => Stolen::Retry,
    }
}

/// What came of an attempt to move a batch of tasks.
#[derive(Clone, Copy, Debug, PartialEq, Eq, Structural)]
pub enum Moved {
    /// There was nothing to move.
    Empty,
    /// Some tasks were moved.
    Success,
    /// It failed spuriously and has to be repeated.
    Retry,
}

/// Calls `Injector::steal_batch`: an empty queue answers `Empty`; otherwise a batch of tasks goes
/// from its front to the back of the local queue, or the attempt fails spuriously and changes
/// nothing. How large the batch is, is left open.
#[verifier::external_body]
fn injector_steal_batch(q: &mut Injector<u64>, dest: &mut Worker<u64>) -> (r: Moved)
    requires
        worker_private_fifo(*old(dest)),
    ensures
        worker_private_fifo(*final(dest)),
        r is Empty <==> injector_tasks(*old(q)).len() == 0,
        r is Success ==> batch_moved(
            injector_tasks(*old(q)),
            injector_tasks(*final(q)),
            worker_tasks(*old(dest)),
            worker_tasks(*final(dest)),
        ),
        !(r is Success) ==> injector_tasks(*final(q)) == injector_tasks(*old(q)) && worker_tasks(
            *final(dest),
        ) == worker_tasks(*old(dest)),
{
    match q.steal_batch(dest) {
        Steal::Empty => Moved::Empty,
        Steal::Success(()) => Moved::Success,
        Steal::Retry => Moved::Retry,
    }
}

/// Calls `Worker::new_fifo`: the new queue is empty, first-in first-out, and nobody else can reach
/// it.
#[verifier::external_body]
fn worker_new_fifo() -> (w: Worker<u64>)
    ensures
        worker_tasks(w) == Seq::<u64>::empty(),
        worker_private_fifo(w),
{
    Worker::new_fifo()
}

/// Calls `Worker::push`: the task goes to the back of the queue.
#[verifier::external_body]
fn worker_push(w: &mut Worker<u64>, task: u64)
    requires
        worker_private_fifo(*old(w)),
    ensures
        worker_private_fifo(*final(w)),
        worker_tasks(*final(w)) == worker_tasks(*old(w)).push(task),
{
    w.push(task)
}

/// Calls `Worker::pop`: the front task of a first-in first-out queue is removed and returned, and
/// an empty queue gives nothing.
#[verifier::external_body]
fn worker_pop(w: &mut Worker<u64>) -> (r: Option<u64>)
    requires
        worker_private_fifo(*old(w)),
    ensures
        worker_private_fifo(*final(w)),
        r is None <==> worker_tasks(*old(w)).len() == 0,
        r is None ==> worker_tasks(*final(w)) == worker_tasks(*old(w)),
        r matches Some(task) ==> task == worker_tasks(*old(w))[0] && worker_tasks(*final(w))
            == worker_tasks(*old(w)).subrange(1, worker_tasks(*old(w)).len() as int),
{
    w.pop()
}

/// Calls `Stealer::steal_batch_and_pop` on a handle to `victim`: an empty queue answers `Empty`;
/// otherwise the front task is returned and a batch of those behind it goes to the back of `dest`.
/// How large the batch is, is left open. The attempt fails only if another thread steals at the
/// same time, which no thread can while both queues are borrowed and no handle to them is held.
#[verifier::external_body]
fn worker_steal_batch_and_pop(victim: &mut Worker<u64>, dest: &mut Worker<u64>) -> (r: Stolen)
    requires
        worker_private_fifo(*old(victim)),
        worker_private_fifo(*old(dest)),
    ensures
        worker_private_fifo(*final(victim)),
        worker_private_fifo(*final(dest)),
        !(r is Retry),
        r is Empty <==> worker_tasks(*old(victim)).len() == 0,
        r matches Stolen::Success(task) ==> batch_taken(
            worker_tasks(*old(victim)),
            worker_tasks(*final(victim)),
            worker_tasks(*old(dest)),
            worker_tasks(*final(dest)),
            task,
        ),
        r is Empty ==> worker_tasks(*final(victim)) == worker_tasks(*old(victim)) && worker_tasks(
            *final(dest),
        ) == worker_tasks(*old(dest)),
{
    match victim.stealer().steal_batch_and_pop(dest) {
        Steal::Empty => Stolen::Empty,
        Steal::Success(task) => Stolen::Success(task),
        Steal::Retry => Stolen::Retry,
    }
}

/// The local queue of a processor.
pub struct LocalQueue {
    worker: Worker<u64>,
}

impl View for LocalQueue {
    type V = Seq<u64>;

    closed spec fn view(&self) -> Seq<u64> {
        worker_tasks(self.worker)
    }
}

impl LocalQueue {
    pub closed spec fn wf(&self) -> bool {
        worker_private_fifo(self.worker)
    }

    /// Creates an empty queue.
    pub fn new() -> (q: LocalQueue)
        ensures
            q.wf(),
            q@ == Seq::<u64>::empty(),
    {
        LocalQueue { worker: worker_new_fifo() }
    }

    /// Adds a task at the back.
    pub fn push(&mut self, task: u64)
        requires
            old(self).wf(),
        ensures
            final(self).wf(),
            final(self)@ == old(self)@.push(task),
    {
        worker_push(&mut self.worker, task);
    }

    /// Takes the task at the front.
    pub fn pop(&mut self) -> (r: Option<u64>)
        requires
            old(self).wf(),
        ensures
            final(self).wf(),
            r is None <==> old(self)@.len() == 0,
            r is None ==> final(self)@ == old(self)@,
            r matches Some(task) ==> task == old(self)@[0] && final(self)@ == old(self)@.subrange(
                1,
                old(self)@.len() as int,
            ),
    {
        worker_pop(&mut self.worker)
    }

    /// Takes the task at the front of another queue, and a batch of those behind it into this one.
    pub fn steal_from(&mut self, victim: &mut LocalQueue) -> (r: Stolen)
        requires
            old(self).wf(),
            old(victim).wf(),
        ensures
            final(self).wf(),
            final(victim).wf(),
            !(r is Retry),
            r is Empty <==> old(victim)@.len() == 0,
            r matches Stolen::Success(task) ==> batch_taken(
                old(victim)@,
                final(victim)@,
                old(self)@,
                final(self)@,
                task,
            ),
            r is Empty ==> final(victim)@ == old(victim)@ && final(self)@ == old(self)@,
    {
        worker_steal_batch_and_pop(&mut victim.worker, &mut self.worker)
    }
}

/// The global queue.
pub struct GlobalQueue {
    injector: Injector<u64>,
}

impl View for GlobalQueue {
    type V = Seq<u64>;

    closed spec fn view(&self) -> Seq<u64> {
        injector_tasks(self.injector)
    }
}

impl GlobalQueue {
    /// Creates an empty queue.
    pub fn new() -> (q: GlobalQueue)
        ensures
            q@ == Seq::<u64>::empty(),
    {
        GlobalQueue { injector: injector_new() }
    }

    /// Adds a task at the back.
    pub fn push(&mut self, task: u64)
        ensures
            final(self)@ == old(self)@.push(task),
    {
        injector_push(&mut self.injector, task);
    }

    /// Takes the task at the front, and a batch of those behind it into a local queue. The attempt
    /// is repeated as long as it fails spuriously; only a run of failures as long as the counter
    /// can count gives `Retry`.
    pub fn steal_batch_and_pop(&mut self, dest: &mut LocalQueue) -> (r: Stolen)
        requires
            old(dest).wf(),
        ensures
            final(dest).wf(),
            r is Empty <==> old(self)@.len() == 0,
            r matches Stolen::Success(task) ==> batch_taken(
                old(self)@,
                final(self)@,
                old(dest)@,
                final(dest)@,
                task,
            ),
            !(r is Success) ==> final(self)@ == old(self)@ && final(dest)@ == old(dest)@,
    {
        let mut left: u64 = u64::MAX;
        loop
            invariant
                dest.wf(),
                self@ == old(self)@,
                dest@ == old(dest)@,
            decreases left,
        {
            match injector_steal_batch_and_pop(&mut self.injector, &mut dest.worker) {
                Stolen::Retry => {
                    if left == 0 {
                        return Stolen::Retry;
                    }
                    left = left - 1;
                },
                r => {
                    return r;
                },
            }
        }
    }

    /// Moves a batch of tasks from the front into a local queue. The attempt is repeated as long as
    /// it fails spuriously; only a run of failures as long as the counter can count gives `Retry`.
    pub fn steal_batch(&mut self, dest: &mut LocalQueue) -> (r: Moved)
        requires
            old(dest).wf(),
        ensures
            final(dest).wf(),
            r is Empty <==> old(self)@.len() == 0,
            r is Success ==> batch_moved(old(self)@, final(self)@, old(dest)@, final(dest)@),
            !(r is Success) ==> final(self)@ == old(self)@ && final(dest)@ == old(dest)@,
    {
        let mut left: u64 = u64::MAX;
        loop
            invariant
                dest.wf(),
                self@ == old(self)@,
                dest@ == old(dest)@,
            decreases left,
        {
            match injector_steal_batch(&mut self.injector, &mut dest.worker) {
                Moved::Retry => {
                    if left == 0 {
                        return Moved::Retry;
                    }
                    left = left - 1;
                },
                r => {
                    return r;
                },
            }
        }
    }
}

} // verus!

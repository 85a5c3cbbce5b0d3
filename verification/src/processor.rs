//! Processors, and the operations that move tasks between their queues.

use crate::queue::{batch_moved, batch_taken, GlobalQueue, LocalQueue, Moved, Stolen};
use vstd::multiset::Multiset;
use vstd::prelude::*;

verus! {

/// The state of a worker thread.
pub struct Processor {
    /// The local task queue.
    worker: LocalQueue,
    /// Contains the next task to run as an optimization that skips queues.
    slot: Option<u64>,
}

/// The tasks that a processor holds.
#[verifier::ext_equal]
pub struct ProcessorView {
    /// The local queue, oldest task first.
    pub queue: Seq<u64>,
    /// The task to run next.
    pub slot: Option<u64>,
}

impl ProcessorView {
    /// A processor without tasks.
    pub open spec fn empty() -> ProcessorView {
        ProcessorView { queue: Seq::empty(), slot: None }
    }

    /// The task in the slot, or else the oldest one in the queue.
    pub open spec fn next(self) -> Option<u64> {
        if self.slot is Some {
            self.slot
        } else if self.queue.len() > 0 {
            Some(self.queue[0])
        } else {
            None
        }
    }

    /// What is left without `next`.
    pub open spec fn rest(self) -> ProcessorView {
        if self.slot is Some {
            ProcessorView { queue: self.queue, slot: None }
        } else if self.queue.len() > 0 {
            ProcessorView {
                queue: self.queue.subrange(1, self.queue.len() as int),
                slot: None,
            }
        } else {
            self
        }
    }

    /// The task in the slot, if any, moved to the back of the queue.
    pub open spec fn flushed(self) -> ProcessorView {
        match self.slot {
            Some(task) => ProcessorView { queue: self.queue.push(task), slot: None },
            None => self,
        }
    }

    /// A new task in the slot; the one that was there, if any, moved to the back of the queue.
    pub open spec fn scheduled(self, task: u64) -> ProcessorView {
        ProcessorView { queue: self.flushed().queue, slot: Some(task) }
    }

    /// All tasks held, each as often as it occurs.
    pub open spec fn tasks(self) -> Multiset<u64> {
        match self.slot {
            Some(task) => self.queue.to_multiset().insert(task),
            None => self.queue.to_multiset(),
        }
    }
}

impl View for Processor {
    type V = ProcessorView;

    closed spec fn view(&self) -> ProcessorView {
        ProcessorView { queue: self.worker@, slot: self.slot }
    }
}

impl Processor {
    pub closed spec fn wf(&self) -> bool {
        self.worker.wf()
    }

    /// Creates a new processor.
    pub fn new() -> (p: Processor)
        ensures
            p.wf(),
            p@ == ProcessorView::empty(),
    {
        Processor { worker: LocalQueue::new(), slot: None }
    }

    /// Schedules a task to run on this processor, and says whether that pushed a task out of the
    /// slot into the queue.
    pub fn schedule(&mut self, task: u64) -> (displaced: bool)
        requires
            old(self).wf(),
        ensures
            final(self).wf(),
            final(self)@ == old(self)@.scheduled(task),
            displaced == old(self)@.slot is Some,
    {
        let displaced = self.flush_slot();
        self.slot = Some(task);
        displaced
    }

    /// Flushes a task from the slot into the local queue, and says whether there was one.
    pub fn flush_slot(&mut self) -> (flushed: bool)
        requires
            old(self).wf(),
        ensures
            final(self).wf(),
            final(self)@ == old(self)@.flushed(),
            flushed == old(self)@.slot is Some,
    {
        match self.slot.take() {
            Some(task) => {
                self.worker.push(task);
                true
            },
            None => false,
        }
    }

    /// Takes the task out of the slot.
    pub fn take_slot(&mut self) -> (r: Option<u64>)
        requires
            old(self).wf(),
        ensures
            final(self).wf(),
            r == old(self)@.slot,
            final(self)@ == (ProcessorView { queue: old(self)@.queue, slot: None }),
    {
        self.slot.take()
    }

    /// Pops a task from this processor.
    pub fn pop_task(&mut self) -> (r: Option<u64>)
        requires
            old(self).wf(),
        ensures
            final(self).wf(),
            r == old(self)@.next(),
            final(self)@ == old(self)@.rest(),
    {
        match self.slot.take() {
            Some(task) => Some(task),
            None => self.worker.pop(),
        }
    }
}

/// The queues of a scheduler: the global one, and those of all its processors. A processor is named
/// by its position.
pub struct Queues {
    injector: GlobalQueue,
    processors: Vec<Processor>,
}

/// The tasks in the queues of a scheduler.
#[verifier::ext_equal]
pub struct QueuesView {
    /// The global queue, oldest task first.
    pub global: Seq<u64>,
    /// The tasks that each processor holds.
    pub local: Seq<ProcessorView>,
}

/// All tasks held by some processors.
pub open spec fn local_tasks(local: Seq<ProcessorView>) -> Multiset<u64>
    decreases local.len(),
{
    if local.len() == 0 {
        Multiset::empty()
    } else {
        local_tasks(local.drop_last()).add(local.last().tasks())
    }
}

impl QueuesView {
    /// Queues without tasks, for some number of processors.
    pub open spec fn empty(cpus: nat) -> QueuesView {
        QueuesView {
            global: Seq::empty(),
            local: Seq::new(cpus, |p: int| ProcessorView::empty()),
        }
    }

    /// All tasks, each as often as it occurs.
    pub open spec fn tasks(self) -> Multiset<u64> {
        self.global.to_multiset().add(local_tasks(self.local))
    }

    /// A task added at the back of the global queue.
    pub open spec fn pushed(self, task: u64) -> QueuesView {
        QueuesView { global: self.global.push(task), local: self.local }
    }

    /// One processor replaced.
    pub open spec fn with(self, p: int, v: ProcessorView) -> QueuesView {
        QueuesView { global: self.global, local: self.local.update(p, v) }
    }

    /// A task scheduled on a processor.
    pub open spec fn scheduled(self, p: int, task: u64) -> QueuesView {
        self.with(p, self.local[p].scheduled(task))
    }

    /// The slot of a processor flushed into its queue.
    pub open spec fn flushed(self, p: int) -> QueuesView {
        self.with(p, self.local[p].flushed())
    }

    /// No processor has a task in its queue.
    pub open spec fn local_queues_empty(self) -> bool {
        forall|v: int| 0 <= v < self.local.len() ==> (#[trigger] self.local[v]).queue.len() == 0
    }
}

/// The processor that is looked at after `j` others, when the search begins at `start` and goes
/// round `n` processors.
pub open spec fn rotated(start: int, j: int, n: int) -> int {
    if start + j < n {
        start + j
    } else {
        start + j - n
    }
}

/// Processor `p` tried to take a task from the global queue.
pub open spec fn stole_from_global(q0: QueuesView, q1: QueuesView, p: int, r: Stolen) -> bool {
    match r {
        Stolen::Empty => q0.global.len() == 0 && q1 == q0,
        Stolen::Retry => q0.global.len() > 0 && q1 == q0,
        Stolen::Success(task) => {
            let queue = q1.local[p].queue;
            &&& batch_taken(q0.global, q1.global, q0.local[p].queue, queue, task)
            &&& q1.local == q0.local.update(p, ProcessorView { queue, slot: q0.local[p].slot })
        },
    }
}

/// Processor `p` took a task from the queue of processor `v`, which may be its own.
pub open spec fn stole_from(q0: QueuesView, q1: QueuesView, p: int, v: int, task: u64) -> bool {
    let mine = ProcessorView { queue: q1.local[p].queue, slot: q0.local[p].slot };
    let theirs = ProcessorView { queue: q1.local[v].queue, slot: q0.local[v].slot };
    &&& q1.global == q0.global
    &&& if v == p {
        &&& q0.local[p].queue.len() > 0
        &&& task == q0.local[p].queue[0]
        &&& mine.queue == q0.local[p].queue.subrange(1, q0.local[p].queue.len() as int)
        &&& q1.local == q0.local.update(p, mine)
    } else {
        &&& batch_taken(q0.local[v].queue, theirs.queue, q0.local[p].queue, mine.queue, task)
        &&& q1.local == q0.local.update(p, mine).update(v, theirs)
    }
}

/// Processor `p` went round the queues of all processors, beginning at `start`, and took a task
/// from the first one that had any.
pub open spec fn stole_from_others(
    q0: QueuesView,
    q1: QueuesView,
    p: int,
    start: int,
    r: Stolen,
) -> bool {
    match r {
        Stolen::Empty => q0.local_queues_empty() && q1 == q0,
        Stolen::Retry => false,
        Stolen::Success(task) => exists|j: int|
            {
                &&& 0 <= j < q0.local.len()
                &&& stole_from(q0, q1, p, #[trigger] rotated(start, j, q0.local.len() as int), task)
                &&& forall|i: int|
                    0 <= i < j ==> q0.local[#[trigger] rotated(
                        start,
                        i,
                        q0.local.len() as int,
                    )].queue.len() == 0
            },
    }
}

/// Processor `p` took the next of its own tasks, or else one from the global queue.
pub open spec fn found_nearby(q0: QueuesView, q1: QueuesView, p: int, r: Stolen) -> bool {
    match q0.local[p].next() {
        Some(task) => r == Stolen::Success(task) && q1 == q0.with(p, q0.local[p].rest()),
        None => stole_from_global(q0, q1, p, r),
    }
}

/// Processor `p` took the next of its own tasks, or else one from a processor's queue.
pub open spec fn found_in_others(
    q0: QueuesView,
    q1: QueuesView,
    p: int,
    start: int,
    r: Stolen,
) -> bool {
    match q0.local[p].next() {
        Some(task) => r == Stolen::Success(task) && q1 == q0.with(p, q0.local[p].rest()),
        None => stole_from_others(q0, q1, p, start, r),
    }
}

/// Processor `p` took the next of its own tasks, or else one from the global queue, or else one
/// from a processor's queue.
pub open spec fn found_anywhere(
    q0: QueuesView,
    q1: QueuesView,
    p: int,
    start: int,
    r: Stolen,
) -> bool {
    if q0.local[p].next() is Some || q0.global.len() > 0 {
        found_nearby(q0, q1, p, r)
    } else {
        stole_from_others(q0, q1, p, start, r)
    }
}

/// Processor `p` took the task in its slot, or else one from a processor's queue.
pub open spec fn found_in_slot_or_others(
    q0: QueuesView,
    q1: QueuesView,
    p: int,
    start: int,
    r: Stolen,
) -> bool {
    match q0.local[p].slot {
        Some(task) => r == Stolen::Success(task) && q1 == q0.with(
            p,
            ProcessorView { queue: q0.local[p].queue, slot: None },
        ),
        None => stole_from_others(q0, q1, p, start, r),
    }
}

/// Processor `p` moved a batch of tasks from the global queue to its own.
pub open spec fn refilled(q0: QueuesView, q1: QueuesView, p: int, r: Moved) -> bool {
    match r {
        Moved::Empty => q0.global.len() == 0 && q1 == q0,
        Moved::Retry => q0.global.len() > 0 && q1 == q0,
        Moved::Success => {
            let queue = q1.local[p].queue;
            &&& batch_moved(q0.global, q1.global, q0.local[p].queue, queue)
            &&& q1.local == q0.local.update(p, ProcessorView { queue, slot: q0.local[p].slot })
        },
    }
}

impl View for Queues {
    type V = QueuesView;

    closed spec fn view(&self) -> QueuesView {
        QueuesView {
            global: self.injector@,
            local: Seq::new(self.processors@.len(), |p: int| self.processors@[p]@),
        }
    }
}

impl Queues {
    pub closed spec fn wf(&self) -> bool {
        forall|p: int| 0 <= p < self.processors@.len() ==> (#[trigger] self.processors@[p]).wf()
    }

    /// Creates empty queues for some number of processors.
    pub fn new(cpus: usize) -> (q: Queues)
        ensures
            q.wf(),
            q@ == QueuesView::empty(cpus as nat),
    {
        let mut processors: Vec<Processor> = Vec::new();
        for i in 0..cpus
            invariant
                processors@.len() == i,
                forall|p: int|
                    0 <= p < i ==> (#[trigger] processors@[p]).wf() && processors@[p]@
                        == ProcessorView::empty(),
        {
            processors.push(Processor::new());
        }
        Queues { injector: GlobalQueue::new(), processors }
    }

    /// The number of processors.
    pub fn cpus(&self) -> (n: usize)
        ensures
            n == self@.local.len(),
    {
        self.processors.len()
    }

    /// Adds a task to the global queue.
    pub fn push(&mut self, task: u64)
        requires
            old(self).wf(),
        ensures
            final(self).wf(),
            final(self)@ == old(self)@.pushed(task),
    {
        self.injector.push(task);
    }

    /// Schedules a task to run on a processor, and says whether that pushed a task out of the slot
    /// into the queue.
    pub fn schedule(&mut self, p: usize, task: u64) -> (displaced: bool)
        requires
            old(self).wf(),
            p < old(self)@.local.len(),
        ensures
            final(self).wf(),
            final(self)@ == old(self)@.scheduled(p as int, task),
            displaced == old(self)@.local[p as int].slot is Some,
    {
        self.processors[p].schedule(task)
    }

    /// Flushes a task from the slot of a processor into its queue, and says whether there was one.
    pub fn flush_slot(&mut self, p: usize) -> (flushed: bool)
        requires
            old(self).wf(),
            p < old(self)@.local.len(),
        ensures
            final(self).wf(),
            final(self)@ == old(self)@.flushed(p as int),
            flushed == old(self)@.local[p as int].slot is Some,
    {
        self.processors[p].flush_slot()
    }

    /// Steals a task from the global queue.
    pub fn steal_from_global(&mut self, p: usize) -> (r: Stolen)
        requires
            old(self).wf(),
            p < old(self)@.local.len(),
        ensures
            final(self).wf(),
            stole_from_global(old(self)@, final(self)@, p as int, r),
    {
        let r = self.injector.steal_batch_and_pop(&mut self.processors[p].worker);
        proof {
            let mine = ProcessorView {
                queue: self@.local[p as int].queue,
                slot: old(self)@.local[p as int].slot,
            };
            assert(self@.local =~= old(self)@.local.update(p as int, mine));
            if !(r is Success) {
                assert(mine == old(self)@.local[p as int]);
                assert(self@.local =~= old(self)@.local);
            }
        }
        r
    }

    /// Moves a batch of tasks from the global queue to that of a processor.
    pub fn steal_batch(&mut self, p: usize) -> (r: Moved)
        requires
            old(self).wf(),
            p < old(self)@.local.len(),
        ensures
            final(self).wf(),
            refilled(old(self)@, final(self)@, p as int, r),
    {
        let r = self.injector.steal_batch(&mut self.processors[p].worker);
        proof {
            let mine = ProcessorView {
                queue: self@.local[p as int].queue,
                slot: old(self)@.local[p as int].slot,
            };
            assert(self@.local =~= old(self)@.local.update(p as int, mine));
            if !(r is Success) {
                assert(mine == old(self)@.local[p as int]);
                assert(self@.local =~= old(self)@.local);
            }
        }
        r
    }

    /// Steals a task from the queue of one processor, which may be the same.
    fn steal_from(&mut self, p: usize, v: usize) -> (r: Stolen)
        requires
            old(self).wf(),
            p < old(self)@.local.len(),
            v < old(self)@.local.len(),
        ensures
            final(self).wf(),
            !(r is Retry),
            r is Empty <==> old(self)@.local[v as int].queue.len() == 0,
            r is Empty ==> final(self)@ == old(self)@,
            r matches Stolen::Success(task) ==> stole_from(
                old(self)@,
                final(self)@,
                p as int,
                v as int,
                task,
            ),
    {
        let r = if p == v {
            match self.processors[p].worker.pop() {
                Some(task) => Stolen::Success(task),
                None => Stolen::Empty,
            }
        } else if p < v {
            let (low, high) = self.processors.as_mut_slice().split_at_mut(v);
            low[p].worker.steal_from(&mut high[0].worker)
        } else {
            let (low, high) = self.processors.as_mut_slice().split_at_mut(p);
            high[0].worker.steal_from(&mut low[v].worker)
        };
        proof {
            let mine = ProcessorView {
                queue: self@.local[p as int].queue,
                slot: old(self)@.local[p as int].slot,
            };
            let theirs = ProcessorView {
                queue: self@.local[v as int].queue,
                slot: old(self)@.local[v as int].slot,
            };
            if p == v {
                assert(self@.local =~= old(self)@.local.update(p as int, mine));
            } else {
                assert(self@.local =~= old(self)@.local.update(p as int, mine).update(
                    v as int,
                    theirs,
                ));
            }
            if r is Empty {
                assert(mine == old(self)@.local[p as int]);
                assert(theirs == old(self)@.local[v as int]);
                assert(self@.local =~= old(self)@.local);
            }
        }
        r
    }

    /// Steals a task from other processors. The search begins at `start`, goes round all the queues
    /// and ends at the first one that has a task.
    pub fn steal_from_others(&mut self, p: usize, start: usize) -> (r: Stolen)
        requires
            old(self).wf(),
            p < old(self)@.local.len(),
            start < old(self)@.local.len(),
        ensures
            final(self).wf(),
            stole_from_others(old(self)@, final(self)@, p as int, start as int, r),
    {
        let len: usize = self.processors.len();
        let mut v: usize = start;
        let mut j: usize = 0;
        while j < len
            invariant
                self.wf(),
                self@ == old(self)@,
                len == self@.local.len(),
                p < len,
                start < len,
                j <= len,
                j < len ==> v == rotated(start as int, j as int, len as int),
                forall|i: int|
                    0 <= i < j ==> self@.local[#[trigger] rotated(
                        start as int,
                        i,
                        len as int,
                    )].queue.len() == 0,
            decreases len - j,
        {
            if let Stolen::Success(task) = self.steal_from(p, v) {
                return Stolen::Success(task);
            }
            j = j + 1;
            v = if v + 1 == len {
                0
            } else {
                v + 1
            };
        }
        proof {
            assert forall|u: int| 0 <= u < len implies (#[trigger] self@.local[u]).queue.len()
                == 0 by {
                let i = if u >= start {
                    u - start
                } else {
                    u - start + len
                };
                assert(rotated(start as int, i, len as int) == u);
            }
        }
        Stolen::Empty
    }

    /// Takes the next task of a processor, or else steals one from the global queue.
    pub fn find_nearby(&mut self, p: usize) -> (r: Stolen)
        requires
            old(self).wf(),
            p < old(self)@.local.len(),
        ensures
            final(self).wf(),
            found_nearby(old(self)@, final(self)@, p as int, r),
    {
        if let Some(task) = self.pop_task(p) {
            return Stolen::Success(task);
        }
        self.steal_from_global(p)
    }

    /// Takes the next task of a processor, or else steals one from other processors.
    pub fn find_in_others(&mut self, p: usize, start: usize) -> (r: Stolen)
        requires
            old(self).wf(),
            p < old(self)@.local.len(),
            start < old(self)@.local.len(),
        ensures
            final(self).wf(),
            found_in_others(old(self)@, final(self)@, p as int, start as int, r),
    {
        if let Some(task) = self.pop_task(p) {
            return Stolen::Success(task);
        }
        self.steal_from_others(p, start)
    }

    /// Takes the task in the slot of a processor, or else steals one from other processors.
    pub fn find_in_slot_or_others(&mut self, p: usize, start: usize) -> (r: Stolen)
        requires
            old(self).wf(),
            p < old(self)@.local.len(),
            start < old(self)@.local.len(),
        ensures
            final(self).wf(),
            found_in_slot_or_others(old(self)@, final(self)@, p as int, start as int, r),
    {
        if let Some(task) = self.take_slot(p) {
            return Stolen::Success(task);
        }
        self.steal_from_others(p, start)
    }

    /// Finds a runnable task.
    ///
    /// This method might steal some tasks from the global queue or from sibling processors.
    pub fn find_task(&mut self, p: usize, steal_from_siblings: bool, start: usize) -> (r: Stolen)
        requires
            old(self).wf(),
            p < old(self)@.local.len(),
            start < old(self)@.local.len(),
        ensures
            final(self).wf(),
            !steal_from_siblings ==> found_nearby(old(self)@, final(self)@, p as int, r),
            steal_from_siblings ==> found_anywhere(
                old(self)@,
                final(self)@,
                p as int,
                start as int,
                r,
            ),
    {
        match self.find_nearby(p) {
            Stolen::Empty => {
                if steal_from_siblings {
                    self.steal_from_others(p, start)
                } else {
                    Stolen::Empty
                }
            },
            r => r,
        }
    }

    /// Pops a task from a processor. Without one the processor stays as it is.
    fn pop_task(&mut self, p: usize) -> (r: Option<u64>)
        requires
            old(self).wf(),
            p < old(self)@.local.len(),
        ensures
            final(self).wf(),
            r == old(self)@.local[p as int].next(),
            r is Some ==> final(self)@ == old(self)@.with(
                p as int,
                old(self)@.local[p as int].rest(),
            ),
            r is None ==> final(self)@ == old(self)@,
    {
        let r = self.processors[p].pop_task();
        proof {
            assert(self@.local =~= old(self)@.local.update(
                p as int,
                old(self)@.local[p as int].rest(),
            ));
            if r is None {
                assert(self@.local =~= old(self)@.local);
            }
        }
        r
    }

    /// Takes the task out of the slot of a processor. Without one the processor stays as it is.
    fn take_slot(&mut self, p: usize) -> (r: Option<u64>)
        requires
            old(self).wf(),
            p < old(self)@.local.len(),
        ensures
            final(self).wf(),
            r == old(self)@.local[p as int].slot,
            r is Some ==> final(self)@ == old(self)@.with(
                p as int,
                ProcessorView { queue: old(self)@.local[p as int].queue, slot: None },
            ),
            r is None ==> final(self)@ == old(self)@,
    {
        let r = self.processors[p].take_slot();
        proof {
            assert(self@.local =~= old(self)@.local.update(
                p as int,
                ProcessorView { queue: old(self)@.local[p as int].queue, slot: None },
            ));
            if r is None {
                assert(self@.local =~= old(self)@.local);
            }
        }
        r
    }
}

/// Replacing one processor exchanges its tasks for those of the new one.
pub proof fn lemma_local_update(local: Seq<ProcessorView>, p: int, v: ProcessorView)
    requires
        0 <= p < local.len(),
    ensures
        local_tasks(local.update(p, v)).add(local[p].tasks()) == local_tasks(local).add(v.tasks()),
    decreases local.len(),
{
    let new = local.update(p, v);
    if p == local.len() - 1 {
        assert(new.drop_last() =~= local.drop_last());
        assert(local_tasks(new).add(local[p].tasks()) =~= local_tasks(local).add(v.tasks()));
    } else {
        lemma_local_update(local.drop_last(), p, v);
        assert(new.drop_last() =~= local.drop_last().update(p, v));
        assert(local_tasks(new).add(local[p].tasks()) =~= local_tasks(new.drop_last()).add(
            local[p].tasks(),
        ).add(local.last().tasks()));
        assert(local_tasks(local).add(v.tasks()) =~= local_tasks(local.drop_last()).add(
            v.tasks(),
        ).add(local.last().tasks()));
    }
}

/// The tasks of a queue are those before a position and those from it on.
proof fn lemma_split_tasks(s: Seq<u64>, k: int)
    requires
        0 <= k <= s.len(),
    ensures
        s.to_multiset() == s.subrange(0, k).to_multiset().add(
            s.subrange(k, s.len() as int).to_multiset(),
        ),
{
    assert(s =~= s.subrange(0, k) + s.subrange(k, s.len() as int));
    vstd::seq_lib::lemma_multiset_commutative(s.subrange(0, k), s.subrange(k, s.len() as int));
}

/// The tasks of a queue are the first one and the rest.
proof fn lemma_first_task(s: Seq<u64>)
    requires
        s.len() > 0,
    ensures
        s.to_multiset() == s.subrange(1, s.len() as int).to_multiset().insert(s[0]),
{
    broadcast use vstd::seq_lib::group_to_multiset_ensures;

    lemma_split_tasks(s, 1);
    assert(s.subrange(0, 1) =~= Seq::<u64>::empty().push(s[0]));
    assert(s.subrange(0, 1).to_multiset() =~= Multiset::<u64>::empty().insert(s[0])) by {
        assert(Seq::<u64>::empty().to_multiset() =~= Multiset::<u64>::empty()) by {
            Seq::<u64>::empty().to_multiset_ensures();
        }
    }
    assert(s.to_multiset() =~= s.subrange(1, s.len() as int).to_multiset().insert(s[0]));
}

/// Taking a task and moving others behind it loses and invents none.
proof fn lemma_batch_taken_tasks(
    from0: Seq<u64>,
    from1: Seq<u64>,
    into0: Seq<u64>,
    into1: Seq<u64>,
    taken: u64,
)
    requires
        batch_taken(from0, from1, into0, into1, taken),
    ensures
        from0.to_multiset().add(into0.to_multiset()) == from1.to_multiset().add(
            into1.to_multiset(),
        ).insert(taken),
{
    let moved = into1.len() - into0.len();
    let rest = from0.subrange(1, from0.len() as int);
    lemma_first_task(from0);
    lemma_split_tasks(rest, moved);
    assert(rest.subrange(0, moved) =~= from0.subrange(1, 1 + moved));
    assert(rest.subrange(moved, rest.len() as int) =~= from1);
    vstd::seq_lib::lemma_multiset_commutative(into0, from0.subrange(1, 1 + moved));
    assert(from0.to_multiset().add(into0.to_multiset()) =~= from1.to_multiset().add(
        into1.to_multiset(),
    ).insert(taken));
}

/// Moving a batch of tasks loses and invents none.
proof fn lemma_batch_moved_tasks(
    from0: Seq<u64>,
    from1: Seq<u64>,
    into0: Seq<u64>,
    into1: Seq<u64>,
)
    requires
        batch_moved(from0, from1, into0, into1),
    ensures
        from0.to_multiset().add(into0.to_multiset()) == from1.to_multiset().add(
            into1.to_multiset(),
        ),
{
    let moved = into1.len() - into0.len();
    lemma_split_tasks(from0, moved);
    vstd::seq_lib::lemma_multiset_commutative(into0, from0.subrange(0, moved));
    assert(from0.to_multiset().add(into0.to_multiset()) =~= from1.to_multiset().add(
        into1.to_multiset(),
    ));
}

/// Empty queues hold no task.
pub proof fn empty_queues_hold_no_task(cpus: nat)
    ensures
        QueuesView::empty(cpus).tasks() == Multiset::<u64>::empty(),
    decreases cpus,
{
    let q = QueuesView::empty(cpus);
    assert(Seq::<u64>::empty().to_multiset() =~= Multiset::<u64>::empty()) by {
        Seq::<u64>::empty().to_multiset_ensures();
    }
    if cpus > 0 {
        let less = QueuesView::empty((cpus - 1) as nat);
        empty_queues_hold_no_task((cpus - 1) as nat);
        assert(q.local.drop_last() =~= less.local);
    }
    assert(q.tasks() =~= Multiset::<u64>::empty());
}

/// Pushing a task adds it, and only it.
pub proof fn pushing_adds_the_task(q: QueuesView, task: u64)
    ensures
        q.pushed(task).tasks() == q.tasks().insert(task),
{
    broadcast use vstd::seq_lib::group_to_multiset_ensures;

    assert(q.pushed(task).tasks() =~= q.tasks().insert(task));
}

/// Scheduling a task adds it, and only it.
pub proof fn scheduling_adds_the_task(q: QueuesView, p: int, task: u64)
    requires
        0 <= p < q.local.len(),
    ensures
        q.scheduled(p, task).tasks() == q.tasks().insert(task),
{
    broadcast use vstd::seq_lib::group_to_multiset_ensures;

    let v = q.local[p].scheduled(task);
    lemma_local_update(q.local, p, v);
    assert(v.tasks() =~= q.local[p].tasks().insert(task));
    let other = local_tasks(q.scheduled(p, task).local);
    assert(other.add(q.local[p].tasks()) =~= local_tasks(q.local).insert(task).add(
        q.local[p].tasks(),
    ));
    lemma_cancel(other, local_tasks(q.local).insert(task), q.local[p].tasks());
    assert(q.scheduled(p, task).tasks() =~= q.tasks().insert(task));
}

/// Flushing a slot keeps all tasks.
pub proof fn flushing_keeps_the_tasks(q: QueuesView, p: int)
    requires
        0 <= p < q.local.len(),
    ensures
        q.flushed(p).tasks() == q.tasks(),
{
    broadcast use vstd::seq_lib::group_to_multiset_ensures;

    let v = q.local[p].flushed();
    lemma_local_update(q.local, p, v);
    assert(v.tasks() =~= q.local[p].tasks());
    lemma_cancel(local_tasks(q.flushed(p).local), local_tasks(q.local), v.tasks());
}

/// What is added to both sides cancels.
proof fn lemma_cancel(a: Multiset<u64>, b: Multiset<u64>, c: Multiset<u64>)
    requires
        a.add(c) == b.add(c),
    ensures
        a == b,
{
    assert forall|t: u64| a.count(t) == b.count(t) by {
        assert(a.add(c).count(t) == a.count(t) + c.count(t));
        assert(b.add(c).count(t) == b.count(t) + c.count(t));
    }
    assert(a =~= b);
}

/// A processor without its next task holds all its other tasks.
proof fn lemma_rest_tasks(v: ProcessorView)
    requires
        v.next() is Some,
    ensures
        v.tasks() == v.rest().tasks().insert(v.next()->0),
{
    if v.slot is None {
        lemma_first_task(v.queue);
    }
}

/// Taking one processor's task away takes away it and no other.
proof fn lemma_take_from_processor(q: QueuesView, p: int, v: ProcessorView, task: u64)
    requires
        0 <= p < q.local.len(),
        q.local[p].tasks() == v.tasks().insert(task),
    ensures
        q.with(p, v).tasks().insert(task) == q.tasks(),
{
    lemma_local_update(q.local, p, v);
    let left = local_tasks(q.with(p, v).local);
    assert(left.insert(task).add(v.tasks()) =~= left.add(q.local[p].tasks()));
    lemma_cancel(left.insert(task), local_tasks(q.local), v.tasks());
    assert(q.with(p, v).tasks().insert(task) =~= q.tasks());
}

/// A processor's tasks, with another queue.
proof fn lemma_other_queue(v: ProcessorView, queue: Seq<u64>)
    ensures
        (ProcessorView { queue, slot: v.slot }).tasks().add(v.queue.to_multiset())
            == v.tasks().add(queue.to_multiset()),
{
    let new = ProcessorView { queue, slot: v.slot };
    assert(new.tasks().add(v.queue.to_multiset()) =~= v.tasks().add(queue.to_multiset()));
}

/// Stealing from the global queue takes away the task that is found, and no other.
pub proof fn finding_global_takes_one_task(q0: QueuesView, q1: QueuesView, p: int, r: Stolen)
    requires
        0 <= p < q0.local.len(),
        stole_from_global(q0, q1, p, r),
    ensures
        after_taking(q0, q1, r),
{
    if let Stolen::Success(task) = r {
        let a = q0.local[p];
        let b = ProcessorView { queue: q1.local[p].queue, slot: a.slot };
        lemma_batch_taken_tasks(q0.global, q1.global, a.queue, b.queue, task);
        lemma_other_queue(a, b.queue);
        lemma_local_update(q0.local, p, b);
        let g0 = q0.global.to_multiset();
        let g1 = q1.global.to_multiset();
        let x = g0.add(a.queue.to_multiset());
        assert forall|t: u64| q0.tasks().count(t) == q1.tasks().insert(task).count(t) by {
            assert(x.count(t) == g1.add(b.queue.to_multiset()).insert(task).count(t));
            assert(b.tasks().add(a.queue.to_multiset()).count(t) == a.tasks().add(
                b.queue.to_multiset(),
            ).count(t));
            assert(local_tasks(q1.local).add(a.tasks()).count(t) == local_tasks(q0.local).add(
                b.tasks(),
            ).count(t));
        }
        assert(q0.tasks() =~= q1.tasks().insert(task));
    }
}

/// What a theft from a processor's queue returns was there, and everything else still is.
proof fn lemma_stole_from_tasks(q0: QueuesView, q1: QueuesView, p: int, v: int, task: u64)
    requires
        0 <= p < q0.local.len(),
        0 <= v < q0.local.len(),
        stole_from(q0, q1, p, v, task),
    ensures
        after_taking(q0, q1, Stolen::Success(task)),
{
    let a = q0.local[p];
    let mine = ProcessorView { queue: q1.local[p].queue, slot: a.slot };
    if v == p {
        lemma_first_task(a.queue);
        assert(a.tasks() =~= mine.tasks().insert(task));
        lemma_take_from_processor(q0, p, mine, task);
        assert(q1 == q0.with(p, mine));
    } else {
        let c = q0.local[v];
        let theirs = ProcessorView { queue: q1.local[v].queue, slot: c.slot };
        let mid = q0.local.update(p, mine);
        lemma_batch_taken_tasks(c.queue, theirs.queue, a.queue, mine.queue, task);
        lemma_other_queue(a, mine.queue);
        lemma_other_queue(c, theirs.queue);
        lemma_local_update(q0.local, p, mine);
        lemma_local_update(mid, v, theirs);
        assert(mid[v] == c);
        assert forall|t: u64|
            local_tasks(q0.local).count(t) == local_tasks(q1.local).insert(task).count(t) by {
            assert(c.queue.to_multiset().add(a.queue.to_multiset()).count(t)
                == theirs.queue.to_multiset().add(mine.queue.to_multiset()).insert(task).count(t));
            assert(mine.tasks().add(a.queue.to_multiset()).count(t) == a.tasks().add(
                mine.queue.to_multiset(),
            ).count(t));
            assert(theirs.tasks().add(c.queue.to_multiset()).count(t) == c.tasks().add(
                theirs.queue.to_multiset(),
            ).count(t));
            assert(local_tasks(mid).add(a.tasks()).count(t) == local_tasks(q0.local).add(
                mine.tasks(),
            ).count(t));
            assert(local_tasks(q1.local).add(c.tasks()).count(t) == local_tasks(mid).add(
                theirs.tasks(),
            ).count(t));
        }
        assert(local_tasks(q0.local) =~= local_tasks(q1.local).insert(task));
        assert(q0.tasks() =~= q1.tasks().insert(task));
    }
    assert(q1.local.len() == q0.local.len());
}

/// The queues as they stand after a task was looked for: what was found is gone, once, and
/// everything else is still there; without a find nothing changed.
pub open spec fn after_taking(q0: QueuesView, q1: QueuesView, r: Stolen) -> bool {
    &&& q1.local.len() == q0.local.len()
    &&& match r {
        Stolen::Success(task) => q0.tasks() == q1.tasks().insert(task),
        _ => q1 == q0,
    }
}

/// Going round the queues of all processors takes away the task that is found, and no other.
pub proof fn stealing_from_others_takes_one_task(
    q0: QueuesView,
    q1: QueuesView,
    p: int,
    start: int,
    r: Stolen,
)
    requires
        0 <= p < q0.local.len(),
        0 <= start < q0.local.len(),
        stole_from_others(q0, q1, p, start, r),
    ensures
        after_taking(q0, q1, r),
{
    if let Stolen::Success(task) = r {
        let j = choose|j: int|
            0 <= j < q0.local.len() && stole_from(
                q0,
                q1,
                p,
                #[trigger] rotated(start, j, q0.local.len() as int),
                task,
            );
        lemma_stole_from_tasks(q0, q1, p, rotated(start, j, q0.local.len() as int), task);
    }
}

/// Looking for a task nearby takes away the one that is found, and no other.
pub proof fn finding_nearby_takes_one_task(q0: QueuesView, q1: QueuesView, p: int, r: Stolen)
    requires
        0 <= p < q0.local.len(),
        found_nearby(q0, q1, p, r),
    ensures
        after_taking(q0, q1, r),
{
    match q0.local[p].next() {
        Some(task) => {
            lemma_rest_tasks(q0.local[p]);
            lemma_take_from_processor(q0, p, q0.local[p].rest(), task);
        },
        None => {
            finding_global_takes_one_task(q0, q1, p, r);
        },
    }
}

/// Looking for a task at the other processors takes away the one that is found, and no other.
pub proof fn finding_in_others_takes_one_task(
    q0: QueuesView,
    q1: QueuesView,
    p: int,
    start: int,
    r: Stolen,
)
    requires
        0 <= p < q0.local.len(),
        0 <= start < q0.local.len(),
        found_in_others(q0, q1, p, start, r),
    ensures
        after_taking(q0, q1, r),
{
    match q0.local[p].next() {
        Some(task) => {
            lemma_rest_tasks(q0.local[p]);
            lemma_take_from_processor(q0, p, q0.local[p].rest(), task);
        },
        None => {
            stealing_from_others_takes_one_task(q0, q1, p, start, r);
        },
    }
}

/// Looking for a task everywhere takes away the one that is found, and no other.
pub proof fn finding_anywhere_takes_one_task(
    q0: QueuesView,
    q1: QueuesView,
    p: int,
    start: int,
    r: Stolen,
)
    requires
        0 <= p < q0.local.len(),
        0 <= start < q0.local.len(),
        found_anywhere(q0, q1, p, start, r),
    ensures
        after_taking(q0, q1, r),
{
    if q0.local[p].next() is Some || q0.global.len() > 0 {
        finding_nearby_takes_one_task(q0, q1, p, r);
    } else {
        stealing_from_others_takes_one_task(q0, q1, p, start, r);
    }
}

/// Looking for a task in the slot and then at the other processors takes away the one that is
/// found, and no other.
pub proof fn finding_in_slot_or_others_takes_one_task(
    q0: QueuesView,
    q1: QueuesView,
    p: int,
    start: int,
    r: Stolen,
)
    requires
        0 <= p < q0.local.len(),
        0 <= start < q0.local.len(),
        found_in_slot_or_others(q0, q1, p, start, r),
    ensures
        after_taking(q0, q1, r),
{
    match q0.local[p].slot {
        Some(task) => {
            lemma_rest_tasks(q0.local[p]);
            lemma_take_from_processor(q0, p, q0.local[p].rest(), task);
        },
        None => {
            stealing_from_others_takes_one_task(q0, q1, p, start, r);
        },
    }
}

/// Refilling a local queue from the global one keeps all tasks.
pub proof fn refilling_keeps_the_tasks(q0: QueuesView, q1: QueuesView, p: int, r: Moved)
    requires
        0 <= p < q0.local.len(),
        refilled(q0, q1, p, r),
    ensures
        q1.local.len() == q0.local.len(),
        q1.tasks() == q0.tasks(),
{
    if r is Success {
        let a = q0.local[p];
        let b = ProcessorView { queue: q1.local[p].queue, slot: a.slot };
        lemma_batch_moved_tasks(q0.global, q1.global, a.queue, b.queue);
        lemma_other_queue(a, b.queue);
        lemma_local_update(q0.local, p, b);
        let g0 = q0.global.to_multiset();
        let g1 = q1.global.to_multiset();
        assert forall|t: u64| q0.tasks().count(t) == q1.tasks().count(t) by {
            assert(g0.add(a.queue.to_multiset()).count(t) == g1.add(b.queue.to_multiset()).count(
                t,
            ));
            assert(b.tasks().add(a.queue.to_multiset()).count(t) == a.tasks().add(
                b.queue.to_multiset(),
            ).count(t));
            assert(local_tasks(q1.local).add(a.tasks()).count(t) == local_tasks(q0.local).add(
                b.tasks(),
            ).count(t));
        }
        assert(q0.tasks() =~= q1.tasks());
    }
}

/// A task that was just scheduled on a processor is the next one that the processor finds, and
/// finding it leaves the slot empty and the queue with the task that it pushed out at its back.
pub proof fn scheduled_task_is_found_next(
    q0: QueuesView,
    q1: QueuesView,
    p: int,
    task: u64,
    r: Stolen,
)
    requires
        0 <= p < q0.local.len(),
        found_nearby(q0.scheduled(p, task), q1, p, r),
    ensures
        r == Stolen::Success(task),
        q1 == q0.flushed(p),
{
    assert(q1.local =~= q0.flushed(p).local);
}

/// Tasks leave the global queue in the order in which they came: the stolen task first, then those
/// that go to the back of the local queue, then those that stay.
pub proof fn global_queue_keeps_its_order(q0: QueuesView, q1: QueuesView, p: int, task: u64)
    requires
        0 <= p < q0.local.len(),
        stole_from_global(q0, q1, p, Stolen::Success(task)),
    ensures
        ({
            let before = q0.local[p].queue;
            let after = q1.local[p].queue;
            &&& before.len() <= after.len()
            &&& after.subrange(0, before.len() as int) == before
            &&& q0.global == seq![task] + after.subrange(before.len() as int, after.len() as int)
                + q1.global
        }),
{
    let before = q0.local[p].queue;
    let after = q1.local[p].queue;
    assert(after.subrange(0, before.len() as int) =~= before);
    assert(q0.global =~= seq![task] + after.subrange(before.len() as int, after.len() as int)
        + q1.global);
}

/// Where nothing is found anywhere, nothing is left to find: the global queue and all local queues
/// are empty, and so is the searching processor's slot.
pub proof fn nothing_found_means_nothing_there(
    q0: QueuesView,
    q1: QueuesView,
    p: int,
    start: int,
)
    requires
        0 <= p < q0.local.len(),
        found_anywhere(q0, q1, p, start, Stolen::Empty),
    ensures
        q0.global.len() == 0,
        q0.local_queues_empty(),
        q0.local[p].slot is None,
{
}

/// The search goes round all processors and looks at each once, wherever it begins.
pub proof fn search_visits_every_processor_once(start: int, n: int, v: int)
    requires
        0 <= start < n,
        0 <= v < n,
    ensures
        exists|j: int| 0 <= j < n && #[trigger] rotated(start, j, n) == v,
        forall|i: int, j: int|
            0 <= i < n && 0 <= j < n && #[trigger] rotated(start, i, n) == #[trigger] rotated(
                start,
                j,
                n,
            ) ==> i == j,
{
    let j = if v >= start {
        v - start
    } else {
        v - start + n
    };
    assert(rotated(start, j, n) == v);
}

} // verus!

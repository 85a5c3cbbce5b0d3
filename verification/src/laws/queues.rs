//! Laws of the task queues.

use crate::processor::{
    found_anywhere, found_in_others, found_in_slot_or_others, found_nearby, lemma_local_update,
    local_tasks, refilled, rotated, stole_from, stole_from_global, stole_from_others,
    ProcessorView, QueuesView,
};
use crate::queue::{Moved, Stolen};
use vstd::multiset::Multiset;
use vstd::prelude::*;

verus! {

/// A task, or none, as a list.
pub open spec fn as_list(task: Option<u64>) -> Seq<u64> {
    match task {
        Some(task) => seq![task],
        None => Seq::empty(),
    }
}

/// The queues with those of one processor replaced.
pub open spec fn replaced(
    q: QueuesView,
    p: int,
    queue: Seq<u64>,
    slot: Option<u64>,
) -> QueuesView {
    QueuesView { global: q.global, local: q.local.update(p, ProcessorView { queue, slot }) }
}

/// A processor has no task of its own.
pub open spec fn has_none(q: QueuesView, p: int) -> bool {
    q.local[p].slot is None && q.local[p].queue.len() == 0
}

/// Processor `p` took a task of its own: the one in its slot, or else the oldest in its queue.
pub open spec fn takes_own(q0: QueuesView, q1: QueuesView, p: int, task: u64) -> bool {
    let mine = q0.local[p];
    ||| mine.slot == Some(task) && q1 == replaced(q0, p, mine.queue, None)
    ||| {
        &&& mine.slot is None
        &&& mine.queue.len() > 0
        &&& task == mine.queue[0]
        &&& q1 == replaced(q0, p, mine.queue.subrange(1, mine.queue.len() as int), None)
    }
}

/// Processor `p` took the oldest task of the global queue, and the next ones, in order, went to the
/// back of its own queue: `n` tasks have left the global queue in all.
pub open spec fn takes_global_batch(
    q0: QueuesView,
    q1: QueuesView,
    p: int,
    task: u64,
    n: int,
) -> bool {
    let mine = q0.local[p];
    &&& 1 <= n <= q0.global.len()
    &&& task == q0.global[0]
    &&& q1.global == q0.global.subrange(n, q0.global.len() as int)
    &&& q1.local == q0.local.update(
        p,
        ProcessorView { queue: mine.queue + q0.global.subrange(1, n), slot: mine.slot },
    )
}

/// Processor `p` took the oldest task of the global queue, and a batch behind it.
pub open spec fn takes_global(q0: QueuesView, q1: QueuesView, p: int, task: u64) -> bool {
    exists|n: int| #[trigger] takes_global_batch(q0, q1, p, task, n)
}

/// The processor that comes `j` places after `start` in a circle of `n`.
pub open spec fn around(start: int, j: int, n: int) -> int {
    (start + j) % n
}

/// Processor `p` took the oldest task from the queue of processor `v`, and the next `c` ones, in
/// order, went to the back of its own queue. From its own queue it takes one task alone.
pub open spec fn takes_from(
    q0: QueuesView,
    q1: QueuesView,
    p: int,
    v: int,
    task: u64,
    c: int,
) -> bool {
    let mine = q0.local[p];
    let theirs = q0.local[v];
    &&& theirs.queue.len() > 0
    &&& task == theirs.queue[0]
    &&& q1.global == q0.global
    &&& if v == p {
        q1 == replaced(q0, p, mine.queue.subrange(1, mine.queue.len() as int), mine.slot)
    } else {
        &&& 0 <= c < theirs.queue.len()
        &&& q1.local == q0.local.update(
            p,
            ProcessorView { queue: mine.queue + theirs.queue.subrange(1, 1 + c), slot: mine.slot },
        ).update(
            v,
            ProcessorView {
                queue: theirs.queue.subrange(1 + c, theirs.queue.len() as int),
                slot: theirs.slot,
            },
        )
    }
}

/// Processor `p` took a task from the first processor with a queued task, going round from `start`.
pub open spec fn takes_around(
    q0: QueuesView,
    q1: QueuesView,
    p: int,
    start: int,
    task: u64,
) -> bool {
    let n = q0.local.len() as int;
    exists|j: int, c: int|
        {
            &&& 0 <= j < n
            &&& #[trigger] takes_from(q0, q1, p, around(start, j, n), task, c)
            &&& forall|i: int|
                0 <= i < j ==> q0.local[#[trigger] around(start, i, n)].queue.len() == 0
        }
}

/// Processor `p` took a task: one of its own, or else one from the global queue, or else one from
/// another processor.
pub open spec fn takes_anything(
    q0: QueuesView,
    q1: QueuesView,
    p: int,
    start: int,
    task: u64,
) -> bool {
    ||| takes_own(q0, q1, p, task)
    ||| has_none(q0, p) && takes_global(q0, q1, p, task)
    ||| has_none(q0, p) && q0.global.len() == 0 && takes_around(q0, q1, p, start, task)
}

/// There is no task for processor `p` to find anywhere.
pub open spec fn nothing_anywhere(q: QueuesView, p: int) -> bool {
    q.local[p].slot is None && q.global.len() == 0 && none_queued(q)
}

/// No processor has a task in its queue.
pub open spec fn none_queued(q: QueuesView) -> bool {
    forall|v: int| 0 <= v < q.local.len() ==> (#[trigger] q.local[v]).queue.len() == 0
}

/// A task that is pushed goes to the back of the global queue, and no processor is concerned.
pub proof fn pushing_goes_to_the_back(q: QueuesView, task: u64)
    ensures
        q.pushed(task).global == q.global + seq![task],
        q.pushed(task).local == q.local,
{
    assert(q.pushed(task).global =~= q.global + seq![task]);
}

/// A task that is scheduled takes the slot of the processor, the task that was there goes to the
/// back of its queue, and nothing else changes.
pub proof fn scheduling_takes_the_slot(q: QueuesView, p: int, task: u64)
    requires
        0 <= p < q.local.len(),
    ensures
        q.scheduled(p, task) == replaced(
            q,
            p,
            q.local[p].queue + as_list(q.local[p].slot),
            Some(task),
        ),
{
    assert(q.scheduled(p, task).local[p].queue =~= q.local[p].queue + as_list(q.local[p].slot));
    assert(q.scheduled(p, task).local =~= replaced(
        q,
        p,
        q.local[p].queue + as_list(q.local[p].slot),
        Some(task),
    ).local);
}

/// Flushing empties the slot of the processor, the task that was there goes to the back of its
/// queue, and nothing else changes.
pub proof fn flushing_empties_the_slot(q: QueuesView, p: int)
    requires
        0 <= p < q.local.len(),
    ensures
        q.flushed(p) == replaced(q, p, q.local[p].queue + as_list(q.local[p].slot), None),
{
    assert(q.flushed(p).local[p].queue =~= q.local[p].queue + as_list(q.local[p].slot));
    assert(q.flushed(p).local =~= replaced(
        q,
        p,
        q.local[p].queue + as_list(q.local[p].slot),
        None,
    ).local);
}

/// A processor runs the task in its slot first, then those in its queue, oldest first, and is left
/// with the others.
pub proof fn processor_hands_out_slot_then_queue(v: ProcessorView)
    ensures
        v.next() is Some == (v.slot is Some || v.queue.len() > 0),
        v.next() matches Some(task) ==> as_list(v.slot) + v.queue == seq![task] + as_list(
            v.rest().slot,
        ) + v.rest().queue,
        v.next() is None ==> v.rest() == v,
        v.rest().slot is None,
        v.flushed().slot is None,
        v.flushed().queue == v.queue + as_list(v.slot),
        forall|task: u64|
            (#[trigger] v.scheduled(task)).slot == Some(task) && v.scheduled(task).queue == v.queue
                + as_list(v.slot),
{
    if let Some(task) = v.next() {
        assert(as_list(v.slot) + v.queue =~= seq![task] + as_list(v.rest().slot)
            + v.rest().queue);
    }
    assert(v.flushed().queue =~= v.queue + as_list(v.slot));
    assert forall|task: u64|
        (#[trigger] v.scheduled(task)).slot == Some(task) && v.scheduled(task).queue == v.queue
            + as_list(v.slot) by {
        assert(v.scheduled(task).queue =~= v.queue + as_list(v.slot));
    }
}

/// Stealing from the global queue takes the oldest task and a batch behind it. It fails for good if
/// and only if the queue is empty, and then, as when it has to be repeated, nothing changes.
pub proof fn stealing_from_global_takes_the_oldest(
    q0: QueuesView,
    q1: QueuesView,
    p: int,
    r: Stolen,
)
    requires
        0 <= p < q0.local.len(),
        stole_from_global(q0, q1, p, r),
    ensures
        r is Empty == (q0.global.len() == 0),
        match r {
            Stolen::Success(task) => takes_global(q0, q1, p, task),
            _ => q1 == q0,
        },
{
    if let Stolen::Success(task) = r {
        let n = 1 + q1.local[p].queue.len() - q0.local[p].queue.len();
        assert(takes_global_batch(q0, q1, p, task, n));
    }
}

/// The place in the circle is the one that the search looks at.
proof fn lemma_around(start: int, j: int, n: int)
    requires
        0 <= start < n,
        0 <= j < n,
    ensures
        around(start, j, n) == rotated(start, j, n),
        0 <= around(start, j, n) < n,
{
    if start + j < n {
        vstd::arithmetic::div_mod::lemma_small_mod((start + j) as nat, n as nat);
    } else {
        vstd::arithmetic::div_mod::lemma_fundamental_div_mod_converse(
            start + j,
            n,
            1,
            start + j - n,
        );
    }
}

/// Stealing from the processors takes the oldest task of the first one with a queued task, going
/// round from `start`, and a batch behind it. It fails if and only if no processor has a queued
/// task, and then nothing changes.
pub proof fn stealing_goes_round(q0: QueuesView, q1: QueuesView, p: int, start: int, r: Stolen)
    requires
        0 <= p < q0.local.len(),
        0 <= start < q0.local.len(),
        stole_from_others(q0, q1, p, start, r),
    ensures
        !(r is Retry),
        r is Empty == none_queued(q0),
        match r {
            Stolen::Success(task) => takes_around(q0, q1, p, start, task),
            _ => q1 == q0,
        },
{
    let n = q0.local.len() as int;
    if let Stolen::Success(task) = r {
        let j = choose|j: int|
            {
                &&& 0 <= j < n
                &&& stole_from(
                    q0,
                    q1,
                    p,
                    #[trigger] rotated(start, j, n),
                    task,
                )
                &&& forall|i: int|
                    0 <= i < j ==> q0.local[#[trigger] rotated(start, i, n)].queue.len() == 0
            };
        let v = around(start, j, n);
        let c = q1.local[p].queue.len() - q0.local[p].queue.len();
        lemma_around(start, j, n);
        assert forall|i: int| 0 <= i < j implies q0.local[#[trigger] around(
            start,
            i,
            n,
        )].queue.len() == 0 by {
            lemma_around(start, i, n);
            assert(q0.local[rotated(start, i, n)].queue.len() == 0);
        }
        assert(takes_from(q0, q1, p, v, task, c));
        assert(q0.local[v].queue.len() > 0);
    }
}

/// A search nearby prefers the processor's own tasks, the slot first, to those of the global queue.
pub proof fn search_nearby_prefers_own_tasks(q0: QueuesView, q1: QueuesView, p: int, r: Stolen)
    requires
        0 <= p < q0.local.len(),
        found_nearby(q0, q1, p, r),
    ensures
        r is Empty == (has_none(q0, p) && q0.global.len() == 0),
        r is Retry ==> has_none(q0, p) && q0.global.len() > 0,
        match r {
            Stolen::Success(task) => takes_own(q0, q1, p, task) || has_none(q0, p) && takes_global(
                q0,
                q1,
                p,
                task,
            ),
            _ => q1 == q0,
        },
{
    if q0.local[p].next() is None {
        stealing_from_global_takes_the_oldest(q0, q1, p, r);
    }
}

/// A search at the other processors prefers the processor's own tasks, the slot first.
pub proof fn search_at_others_prefers_own_tasks(
    q0: QueuesView,
    q1: QueuesView,
    p: int,
    start: int,
    r: Stolen,
)
    requires
        0 <= p < q0.local.len(),
        0 <= start < q0.local.len(),
        found_in_others(q0, q1, p, start, r),
    ensures
        !(r is Retry),
        r is Empty == (q0.local[p].slot is None && none_queued(q0)),
        match r {
            Stolen::Success(task) => takes_own(q0, q1, p, task) || has_none(q0, p) && takes_around(
                q0,
                q1,
                p,
                start,
                task,
            ),
            _ => q1 == q0,
        },
{
    if q0.local[p].next() is None {
        stealing_goes_round(q0, q1, p, start, r);
    }
}

/// A search everywhere prefers the processor's own tasks, the slot first, then those of the global
/// queue, then those of other processors.
pub proof fn search_everywhere_has_an_order(
    q0: QueuesView,
    q1: QueuesView,
    p: int,
    start: int,
    r: Stolen,
)
    requires
        0 <= p < q0.local.len(),
        0 <= start < q0.local.len(),
        found_anywhere(q0, q1, p, start, r),
    ensures
        r is Empty == nothing_anywhere(q0, p),
        r is Retry ==> has_none(q0, p) && q0.global.len() > 0,
        match r {
            Stolen::Success(task) => takes_anything(q0, q1, p, start, task),
            _ => q1 == q0,
        },
{
    if q0.local[p].next() is Some || q0.global.len() > 0 {
        search_nearby_prefers_own_tasks(q0, q1, p, r);
    } else {
        stealing_goes_round(q0, q1, p, start, r);
    }
}

/// A search in the slot and at all processors takes the task in the slot, or else goes round.
pub proof fn search_in_slot_then_round(
    q0: QueuesView,
    q1: QueuesView,
    p: int,
    start: int,
    r: Stolen,
)
    requires
        0 <= p < q0.local.len(),
        0 <= start < q0.local.len(),
        found_in_slot_or_others(q0, q1, p, start, r),
    ensures
        !(r is Retry),
        r is Empty == (q0.local[p].slot is None && none_queued(q0)),
        match r {
            Stolen::Success(task) => {
                ||| q0.local[p].slot == Some(task) && q1 == replaced(
                    q0,
                    p,
                    q0.local[p].queue,
                    None,
                )
                ||| q0.local[p].slot is None && takes_around(q0, q1, p, start, task)
            },
            _ => q1 == q0,
        },
{
    if q0.local[p].slot is None {
        stealing_goes_round(q0, q1, p, start, r);
    }
}

/// Refilling moves at least one task, oldest first, from the global queue to the back of the
/// processor's queue. It fails for good if and only if the global queue is empty.
pub proof fn refilling_moves_the_oldest(q0: QueuesView, q1: QueuesView, p: int, r: Moved)
    requires
        0 <= p < q0.local.len(),
        refilled(q0, q1, p, r),
    ensures
        r is Empty == (q0.global.len() == 0),
        r is Success ==> refills(q0, q1, p),
        !(r is Success) ==> q1 == q0,
{
    if r is Success {
        let n = q1.local[p].queue.len() - q0.local[p].queue.len();
        assert(refills_batch(q0, q1, p, n));
    }
}

/// The `n` oldest tasks of the global queue went, in order, to the back of a processor's queue.
pub open spec fn refills_batch(q0: QueuesView, q1: QueuesView, p: int, n: int) -> bool {
    let mine = q0.local[p];
    &&& 1 <= n <= q0.global.len()
    &&& q1.global == q0.global.subrange(n, q0.global.len() as int)
    &&& q1.local == q0.local.update(
        p,
        ProcessorView { queue: mine.queue + q0.global.subrange(0, n), slot: mine.slot },
    )
}

/// At least one of the oldest tasks of the global queue went to the back of a processor's queue.
pub open spec fn refills(q0: QueuesView, q1: QueuesView, p: int) -> bool {
    exists|n: int| #[trigger] refills_batch(q0, q1, p, n)
}

/// After a processor took a task of its own, or one from elsewhere because it had none, its slot is
/// empty.
pub proof fn taking_leaves_the_slot_empty(
    q0: QueuesView,
    q1: QueuesView,
    p: int,
    start: int,
    task: u64,
)
    requires
        0 <= p < q0.local.len(),
        0 <= start < q0.local.len(),
        takes_anything(q0, q1, p, start, task),
    ensures
        q1.local.len() == q0.local.len(),
        q1.local[p].slot is None,
{
    if !takes_own(q0, q1, p, task) && !takes_global(q0, q1, p, task) {
        let n = q0.local.len() as int;
        let (j, c) = choose|j: int, c: int|
            {
                &&& 0 <= j < n
                &&& #[trigger] takes_from(q0, q1, p, around(start, j, n), task, c)
                &&& forall|i: int|
                    0 <= i < j ==> q0.local[#[trigger] around(start, i, n)].queue.len() == 0
            };
        lemma_around(start, j, n);
    }
}

/// New queues hold nothing.
pub proof fn new_queues_are_empty(cpus: nat, p: int)
    ensures
        QueuesView::empty(cpus).global == Seq::<u64>::empty(),
        QueuesView::empty(cpus).local.len() == cpus,
        0 <= p < cpus ==> QueuesView::empty(cpus).local[p].slot is None
            && QueuesView::empty(cpus).local[p].queue == Seq::<u64>::empty(),
{
}

/// A task waits as often as it is in the global queue, in the queues and in the slots: it is
/// counted in one more or one less place, it waits once more or once less.
pub proof fn tasks_are_counted_everywhere(q: QueuesView, p: int, queue: Seq<u64>, slot: Option<u64>)
    requires
        0 <= p < q.local.len(),
    ensures
        q.local.len() == 1 ==> q.tasks() == q.global.to_multiset().add(
            q.local[0].queue.to_multiset(),
        ).add(as_list(q.local[0].slot).to_multiset()),
        replaced(q, p, queue, slot).tasks().add(q.local[p].queue.to_multiset()).add(
            as_list(q.local[p].slot).to_multiset(),
        ) == q.tasks().add(queue.to_multiset()).add(as_list(slot).to_multiset()),
        forall|global: Seq<u64>|
            (#[trigger] (QueuesView { global, local: q.local }).tasks()).add(
                q.global.to_multiset(),
            ) == q.tasks().add(global.to_multiset()),
{
    broadcast use vstd::seq_lib::group_to_multiset_ensures;

    let v = ProcessorView { queue, slot };
    lemma_processor_tasks(v);
    lemma_processor_tasks(q.local[p]);
    lemma_local_update(q.local, p, v);
    if q.local.len() == 1 {
        lemma_processor_tasks(q.local[0]);
        assert(q.local.drop_last().len() == 0);
        assert(local_tasks(q.local.drop_last()) =~= Multiset::empty());
        assert(q.tasks() =~= q.global.to_multiset().add(q.local[0].queue.to_multiset()).add(
            as_list(q.local[0].slot).to_multiset(),
        ));
    }
    let w = replaced(q, p, queue, slot);
    assert(w.tasks().add(q.local[p].queue.to_multiset()).add(
        as_list(q.local[p].slot).to_multiset(),
    ) =~= w.global.to_multiset().add(
        local_tasks(w.local).add(q.local[p].tasks()),
    ));
    assert(q.tasks().add(queue.to_multiset()).add(as_list(slot).to_multiset())
        =~= q.global.to_multiset().add(local_tasks(q.local).add(v.tasks())));
    assert forall|global: Seq<u64>|
        (#[trigger] (QueuesView { global, local: q.local }).tasks()).add(q.global.to_multiset())
            == q.tasks().add(global.to_multiset()) by {
        assert((QueuesView { global, local: q.local }).tasks().add(q.global.to_multiset())
            =~= q.tasks().add(global.to_multiset()));
    }
}

/// The tasks of a processor are those in its queue and the one in its slot.
proof fn lemma_processor_tasks(v: ProcessorView)
    ensures
        v.tasks() == v.queue.to_multiset().add(as_list(v.slot).to_multiset()),
{
    broadcast use vstd::seq_lib::group_to_multiset_ensures;

    if let Some(task) = v.slot {
        assert(as_list(v.slot) =~= Seq::<u64>::empty().push(task));
        assert(Seq::<u64>::empty().to_multiset().len() == 0);
        assert(v.tasks() =~= v.queue.to_multiset().add(as_list(v.slot).to_multiset()));
    } else {
        assert(as_list(v.slot).to_multiset().len() == 0);
        assert(v.tasks() =~= v.queue.to_multiset().add(as_list(v.slot).to_multiset()));
    }
}

} // verus!

//! What becomes of tasks in the course of time.

use vstd::multiset::Multiset;
use vstd::prelude::*;

verus! {

/// What one call does to the tasks that wait to be run.
pub ghost enum Change {
    /// A task was scheduled.
    Scheduled(u64),
    /// A task was handed out to be run.
    HandedOut(u64),
    /// Nothing.
    Unchanged,
}

/// The tasks that wait before and after such a call.
pub open spec fn changes(before: Multiset<u64>, change: Change, after: Multiset<u64>) -> bool {
    match change {
        Change::Scheduled(task) => after == before.insert(task),
        Change::HandedOut(task) => before == after.insert(task),
        Change::Unchanged => after == before,
    }
}

/// The tasks that wait, from a beginning without tasks, before and after each of some calls.
pub open spec fn history(waiting: Seq<Multiset<u64>>, calls: Seq<Change>) -> bool {
    &&& waiting.len() == calls.len() + 1
    &&& waiting[0] == Multiset::<u64>::empty()
    &&& forall|i: int|
        0 <= i < calls.len() ==> changes(waiting[i], #[trigger] calls[i], waiting[i + 1])
}

/// The tasks that some calls have scheduled, each as often as it was.
pub open spec fn scheduled(calls: Seq<Change>) -> Multiset<u64>
    decreases calls.len(),
{
    if calls.len() == 0 {
        Multiset::empty()
    } else {
        match calls.last() {
            Change::Scheduled(task) => scheduled(calls.drop_last()).insert(task),
            _ => scheduled(calls.drop_last()),
        }
    }
}

/// The tasks that some calls have handed out, each as often as it was.
pub open spec fn handed_out(calls: Seq<Change>) -> Multiset<u64>
    decreases calls.len(),
{
    if calls.len() == 0 {
        Multiset::empty()
    } else {
        match calls.last() {
            Change::HandedOut(task) => handed_out(calls.drop_last()).insert(task),
            _ => handed_out(calls.drop_last()),
        }
    }
}

/// No task is lost and none is run more often than it was scheduled: at any time the tasks that
/// were scheduled are those that were handed out and those that still wait.
pub proof fn every_task_is_handed_out_or_waits(waiting: Seq<Multiset<u64>>, calls: Seq<Change>)
    requires
        history(waiting, calls),
    ensures
        scheduled(calls) == handed_out(calls).add(waiting.last()),
    decreases calls.len(),
{
    if calls.len() == 0 {
        assert(scheduled(calls) =~= handed_out(calls).add(waiting.last()));
    } else {
        let n = calls.len() - 1;
        assert(changes(waiting[n], calls[n], waiting[n + 1]));
        assert forall|i: int| 0 <= i < n implies changes(
            waiting.drop_last()[i],
            #[trigger] calls.drop_last()[i],
            waiting.drop_last()[i + 1],
        ) by {
            assert(changes(waiting[i], calls[i], waiting[i + 1]));
        }
        every_task_is_handed_out_or_waits(waiting.drop_last(), calls.drop_last());
        assert(scheduled(calls) =~= handed_out(calls).add(waiting.last()));
    }
}

} // verus!

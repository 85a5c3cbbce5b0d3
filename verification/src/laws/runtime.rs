//! Laws of the runtime.

use crate::action::{Action, Step, RUNS, SHORT_SLEEP, SLEEPS, YIELDS};
use crate::fleet::{
    identifier_names_one_machine, machines_hold_existing_processors, relieving_keeps_wf,
    spinning_up_keeps_wf, stuck_among_is_bounded, FleetView, Machine,
};
use crate::laws::fleet::{
    about_to_start, absent, all_checked, dropped_machine_frees_its_processor, listed,
    machines_are_found_by_their_identifiers, new_ones_start, parked_machine_is_set_aside,
    putting_replaces_one_machine, relieving_checks_every_machine, silent,
    spinning_up_takes_an_idle_processor,
};
use crate::laws::queues::{
    as_list, flushing_empties_the_slot, has_none, none_queued, nothing_anywhere,
    pushing_goes_to_the_back, replaced, scheduling_takes_the_slot,
    search_at_others_prefers_own_tasks, search_nearby_prefers_own_tasks,
    stealing_from_global_takes_the_oldest, takes_anything, takes_around, takes_global,
    takes_global_batch, takes_own, taking_leaves_the_slot_empty,
};
use crate::processor::{
    found_in_others, found_nearby, stole_from_global, ProcessorView, QueuesView,
};
use crate::queue::Stolen;
use crate::rt::reactor::ReactorView;
use crate::rt::runtime::{
    machine_step, making_machines_keeps_every_processor, task_kept, MachineRun, Phase, RuntimeView,
    SHORTEST_DELAY,
};
use vstd::prelude::*;

verus! {

/// A machine thread begins with a round, and has counted nothing.
pub proof fn threads_begin_with_a_round(id: u64)
    ensures
        MachineRun::initial(id).id == id,
        MachineRun::initial(id).phase is Begin,
        MachineRun::initial(id).runs == 0,
        MachineRun::initial(id).fails == 0,
{
}

/// The numbers by which machines and the driving thread go.
pub proof fn numbers_of_the_runtime()
    ensures
        RUNS == 64,
        YIELDS == 3,
        SLEEPS == 1,
        SHORT_SLEEP == 10,
        SHORTEST_DELAY == 1000,
{
}

/// A new runtime has idle processors and nothing else.
pub proof fn new_runtime_is_idle(reactor: ReactorView, cpus: nat, p: int)
    ensures
        ({
            let v = RuntimeView::initial(reactor, cpus);
            &&& v.reactor == reactor
            &&& v.cpus() == cpus
            &&& v.queues.global.len() == 0
            &&& none_queued(v.queues)
            &&& 0 <= p < cpus ==> v.queues.local[p].slot is None
            &&& v.fleet.idle.len() == cpus
            &&& 0 <= p < cpus <= usize::MAX ==> v.fleet.idle[p] == p
            &&& v.fleet.machines.len() == 0
            &&& v.fleet.parked is None
            &&& !v.progress
        }),
{
}

/// A task that is scheduled from a machine, running or polling, takes the slot of its processor.
/// The task that was there goes to the back of the processor's queue, and only then somebody has to
/// be notified. From elsewhere it goes to the back of the global queue, and somebody has to be
/// notified.
pub proof fn scheduled_task_goes_to_the_machine(
    v: RuntimeView,
    current: Option<u64>,
    task: u64,
    i: int,
)
    requires
        v.wf(),
    ensures
        ({
            let w = v.scheduled(current, task);
            let notifies = v.scheduling_notifies(current);
            &&& current is None || absent(v.fleet, current->0) ==> notifies && w == (RuntimeView {
                queues: QueuesView { global: v.queues.global + seq![task], ..v.queues },
                ..v
            })
            &&& current is Some && listed(v.fleet, current->0, i) ==> {
                let p = v.fleet.machines[i].processor as int;
                let mine = v.queues.local[p];
                &&& notifies == mine.slot is Some
                &&& w == (RuntimeView {
                    queues: replaced(v.queues, p, mine.queue + as_list(mine.slot), Some(task)),
                    ..v
                })
            }
            &&& current is Some && v.fleet.parked is Some && v.fleet.parked->0.id == current->0
                ==> {
                let p = v.fleet.parked->0.processor as int;
                let mine = v.queues.local[p];
                &&& notifies == mine.slot is Some
                &&& w == (RuntimeView {
                    queues: replaced(v.queues, p, mine.queue + as_list(mine.slot), Some(task)),
                    ..v
                })
            }
        }),
{
    pushing_goes_to_the_back(v.queues, task);
    if let Some(id) = current {
        machines_are_found_by_their_identifiers(v.fleet, id);
        machines_hold_existing_processors(v.fleet, v.cpus(), id);
        if let Some(m) = v.fleet.find(id) {
            scheduling_takes_the_slot(v.queues, m.processor as int, task);
        }
        if listed(v.fleet, id, i) {
            identifier_names_one_machine(v.fleet, i);
        }
    }
}

/// Asking to yield marks the machine that runs on the current thread, and changes nothing else.
pub proof fn yielding_marks_one_machine(v: RuntimeView, current: Option<u64>, i: int)
    requires
        v.wf(),
    ensures
        current is None || absent(v.fleet, current->0) ==> v.yielded(current) == v,
        current is Some && listed(v.fleet, current->0, i) ==> v.yielded(current) == (RuntimeView {
            fleet: FleetView {
                machines: v.fleet.machines.update(
                    i,
                    Machine { yielding: true, ..v.fleet.machines[i] },
                ),
                ..v.fleet
            },
            ..v
        }),
        current is Some && v.fleet.parked is Some && v.fleet.parked->0.id == current->0
            ==> v.yielded(current) == (RuntimeView {
            fleet: FleetView {
                parked: Some(Machine { yielding: true, ..v.fleet.parked->0 }),
                ..v.fleet
            },
            ..v
        }),
{
    if let Some(id) = current {
        machines_are_found_by_their_identifiers(v.fleet, id);
        if v.fleet.parked is Some && v.fleet.parked->0.id == id {
            putting_replaces_one_machine(
                v.fleet,
                Machine { yielding: true, ..v.fleet.parked->0 },
                i,
            );
        }
        if listed(v.fleet, id, i) {
            identifier_names_one_machine(v.fleet, i);
            putting_replaces_one_machine(
                v.fleet,
                Machine { yielding: true, ..v.fleet.machines[i] },
                i,
            );
        }
    }
}

/// In every round a machine makes progress, however many tasks it ran in a row. If its task has
/// asked to yield, the slot of its processor is emptied, the task that was there goes to the back
/// of the queue, and a notification is due for it. After sixty-four tasks in a row the global queue
/// gets its turn next, and the reactor is polled unless a machine is polling it.
pub proof fn every_round_makes_progress_and_yields(
    m0: MachineRun,
    v0: RuntimeView,
    start: int,
    m1: MachineRun,
    v1: RuntimeView,
    s: Step,
    i: int,
)
    requires
        v0.wf(),
        m0.phase is Begin,
        listed(v0.fleet, m0.id, i),
        machine_step(m0, v0, start, m1, v1, s),
    ensures
        ({
            let m = v0.fleet.machines[i];
            let p = m.processor as int;
            let mine = v0.queues.local[p];
            &&& v1.fleet == (FleetView {
                machines: v0.fleet.machines.update(
                    i,
                    Machine { progress: true, yielding: false, ..m },
                ),
                ..v0.fleet
            })
            &&& v1.queues == if m.yielding {
                replaced(v0.queues, p, mine.queue + as_list(mine.slot), None)
            } else {
                v0.queues
            }
            &&& s.notify == (m.yielding && mine.slot is Some)
            &&& v1.reactor == v0.reactor
            &&& v1.progress == v0.progress
            &&& m0.runs < 64 ==> s.action == Action::Continue && m1 == (MachineRun {
                phase: Phase::Nearby,
                ..m0
            })
            &&& m0.runs >= 64 ==> m1 == (MachineRun { phase: Phase::Refill, ..m0 })
            &&& m0.runs >= 64 && v0.fleet.parked is None ==> s.action == Action::QuickPoll
            &&& m0.runs >= 64 && v0.fleet.parked is Some ==> s.action == Action::Continue
        }),
{
    let m = v0.fleet.machines[i];
    identifier_names_one_machine(v0.fleet, i);
    machines_hold_existing_processors(v0.fleet, v0.cpus(), m0.id);
    flushing_empties_the_slot(v0.queues, m.processor as int);
    putting_replaces_one_machine(
        v0.fleet,
        Machine { progress: true, yielding: false, ..m },
        i,
    );
}

/// The oldest task of the global queue went to the very back of a processor's queue, behind the
/// next tasks of the global queue, `n` tasks in all, and behind the task from the slot, which is
/// empty.
pub open spec fn global_turn(q0: QueuesView, q1: QueuesView, p: int, n: int) -> bool {
    let mine = q0.local[p];
    &&& 1 <= n <= q0.global.len()
    &&& q1.global == q0.global.subrange(n, q0.global.len() as int)
    &&& q1.local == q0.local.update(
        p,
        ProcessorView {
            queue: mine.queue + q0.global.subrange(1, n) + as_list(mine.slot) + seq![q0.global[0]],
            slot: None,
        },
    )
}

/// When the global queue gets its turn, tasks leave it for the back of the processor's queue, and
/// so does the task in the slot. A notification is due if any task moved. The machine then starts
/// to count anew. Only a spurious failure, for which the global queue must have a task, repeats the
/// step.
pub proof fn global_queue_and_slot_move_to_the_queue(
    m0: MachineRun,
    v0: RuntimeView,
    start: int,
    m1: MachineRun,
    v1: RuntimeView,
    s: Step,
    i: int,
)
    requires
        v0.wf(),
        m0.phase is Refill,
        listed(v0.fleet, m0.id, i),
        machine_step(m0, v0, start, m1, v1, s),
    ensures
        ({
            let p = v0.fleet.machines[i].processor as int;
            let mine = v0.queues.local[p];
            &&& s.action == Action::Continue
            &&& v1 == (RuntimeView { queues: v1.queues, ..v0 })
            &&& {
                ||| v0.queues.global.len() > 0 && m1 == m0 && v1 == v0 && !s.notify
                ||| {
                    &&& m1 == (MachineRun { phase: Phase::Nearby, runs: 0, ..m0 })
                    &&& s.notify == (v0.queues.global.len() > 0 || mine.slot is Some)
                    &&& v0.queues.global.len() == 0 ==> v1.queues == replaced(
                        v0.queues,
                        p,
                        mine.queue + as_list(mine.slot),
                        None,
                    )
                    &&& v0.queues.global.len() > 0 ==> exists|n: int| #[trigger]
                        global_turn(v0.queues, v1.queues, p, n)
                }
            }
        }),
{
    let q0 = v0.queues;
    let p = v0.fleet.machines[i].processor as int;
    identifier_names_one_machine(v0.fleet, i);
    machines_hold_existing_processors(v0.fleet, v0.cpus(), m0.id);
    flushing_empties_the_slot(q0, p);
    if q0.global.len() > 0 && !(m1 == m0 && v1 == v0 && !s.notify) {
        let (q, task) = choose|q: QueuesView, task: u64|
            {
                &&& #[trigger] stole_from_global(q0, q, p, Stolen::Success(task))
                &&& v1 == (RuntimeView { queues: q.scheduled(p, task).flushed(p), ..v0 })
            };
        stealing_from_global_takes_the_oldest(q0, q, p, Stolen::Success(task));
        let n = choose|n: int| #[trigger] takes_global_batch(q0, q, p, task, n);
        scheduling_takes_the_slot(q, p, task);
        flushing_empties_the_slot(q.scheduled(p, task), p);
        let mine = q0.local[p];
        assert(v1.queues.local =~= q0.local.update(
            p,
            ProcessorView {
                queue: mine.queue + q0.global.subrange(1, n) + as_list(mine.slot)
                    + seq![q0.global[0]],
                slot: None,
            },
        ));
        assert(global_turn(q0, v1.queues, p, n));
    }
}

/// A machine that looks nearby runs the task in its slot, or else the oldest in its queue, or else
/// the oldest in the global queue. It looks further if and only if there is none of these.
pub proof fn machine_runs_what_is_nearby(
    m0: MachineRun,
    v0: RuntimeView,
    start: int,
    m1: MachineRun,
    v1: RuntimeView,
    s: Step,
    i: int,
)
    requires
        v0.wf(),
        m0.phase is Nearby,
        m0.runs < 64,
        listed(v0.fleet, m0.id, i),
        machine_step(m0, v0, start, m1, v1, s),
    ensures
        ({
            let p = v0.fleet.machines[i].processor as int;
            let q0 = v0.queues;
            &&& !s.notify
            &&& v1 == (RuntimeView { queues: v1.queues, ..v0 })
            &&& match s.action {
                Action::Run(task) => {
                    &&& m1.id == m0.id && m1.phase is Begin && m1.runs == m0.runs + 1 && m1.fails
                        == 0
                    &&& takes_own(q0, v1.queues, p, task) || has_none(q0, p) && takes_global(
                        q0,
                        v1.queues,
                        p,
                        task,
                    )
                },
                _ => {
                    &&& v1 == v0
                    &&& has_none(q0, p)
                    &&& q0.global.len() > 0 ==> m1 == m0 && s.action == Action::Continue
                    &&& q0.global.len() == 0 ==> m1 == (MachineRun { phase: Phase::Others, ..m0 })
                        && s.action == if v0.fleet.parked is None {
                        Action::QuickPoll
                    } else {
                        Action::Continue
                    }
                },
            }
        }),
{
    let p = v0.fleet.machines[i].processor as int;
    identifier_names_one_machine(v0.fleet, i);
    machines_hold_existing_processors(v0.fleet, v0.cpus(), m0.id);
    let r = match s.action {
        Action::Run(task) => Stolen::Success(task),
        _ => if m1 == m0 {
            Stolen::Retry
        } else {
            Stolen::Empty
        },
    };
    search_nearby_prefers_own_tasks(v0.queues, v1.queues, p, r);
}

/// A machine that looks at the other processors runs a task of its own, if it has one by now, or
/// else the oldest task of the first processor with a queued task. It goes away empty-handed if and
/// only if its slot and all queues are empty.
pub proof fn machine_runs_what_others_have(
    m0: MachineRun,
    v0: RuntimeView,
    start: int,
    m1: MachineRun,
    v1: RuntimeView,
    s: Step,
    i: int,
)
    requires
        v0.wf(),
        m0.phase is Others,
        m0.runs < 64,
        0 <= start < v0.cpus(),
        listed(v0.fleet, m0.id, i),
        machine_step(m0, v0, start, m1, v1, s),
    ensures
        ({
            let p = v0.fleet.machines[i].processor as int;
            let q0 = v0.queues;
            &&& !s.notify
            &&& v1 == (RuntimeView { queues: v1.queues, ..v0 })
            &&& match s.action {
                Action::Run(task) => {
                    &&& m1.id == m0.id && m1.phase is Begin && m1.runs == m0.runs + 1 && m1.fails
                        == 0
                    &&& takes_own(q0, v1.queues, p, task) || has_none(q0, p) && takes_around(
                        q0,
                        v1.queues,
                        p,
                        start,
                        task,
                    )
                },
                _ => {
                    &&& v1 == v0
                    &&& q0.local[p].slot is None
                    &&& none_queued(q0)
                    &&& s.action == Action::Continue
                    &&& m1 == (MachineRun { phase: Phase::Miss, ..m0 })
                },
            }
        }),
{
    let p = v0.fleet.machines[i].processor as int;
    identifier_names_one_machine(v0.fleet, i);
    machines_hold_existing_processors(v0.fleet, v0.cpus(), m0.id);
    let r = match s.action {
        Action::Run(task) => Stolen::Success(task),
        _ => Stolen::Empty,
    };
    search_at_others_prefers_own_tasks(v0.queues, v1.queues, p, start, r);
}

/// A machine that found nothing yields three times in a row, then sleeps for ten microseconds once,
/// and then turns idle and begins to count anew. Nothing else changes.
pub proof fn machine_without_tasks_yields_sleeps_and_turns_idle(
    m0: MachineRun,
    v0: RuntimeView,
    start: int,
    m1: MachineRun,
    v1: RuntimeView,
    s: Step,
    i: int,
)
    requires
        v0.wf(),
        m0.phase is Miss,
        m0.fails <= 4,
        listed(v0.fleet, m0.id, i),
        machine_step(m0, v0, start, m1, v1, s),
    ensures
        v1 == v0,
        !s.notify,
        m1.id == m0.id,
        m1.runs == 0,
        m0.fails < 3 ==> s.action == Action::Yield,
        m0.fails == 3 ==> s.action == Action::Sleep(10),
        m0.fails < 4 ==> m1.phase is Begin && m1.fails == m0.fails + 1,
        m0.fails == 4 ==> s.action == Action::Continue && m1.phase is Idle && m1.fails == 0,
{
    identifier_names_one_machine(v0.fleet, i);
}

/// A machine that has lost its processor takes part in nothing: it changes nothing, runs nothing,
/// and ends as soon as it has looked for tasks in vain.
pub proof fn machine_without_processor_does_nothing(
    m0: MachineRun,
    v0: RuntimeView,
    start: int,
    m1: MachineRun,
    v1: RuntimeView,
    s: Step,
)
    requires
        v0.wf(),
        absent(v0.fleet, m0.id),
        machine_step(m0, v0, start, m1, v1, s),
    ensures
        v1 == v0,
        !s.notify,
        m1.id == m0.id,
        m1.fails == m0.fails,
        match m0.phase {
            Phase::Begin => m1.runs == m0.runs && if m0.runs >= 64 {
                m1.phase is Refill && s.action == if v0.fleet.parked is None {
                    Action::QuickPoll
                } else {
                    Action::Continue
                }
            } else {
                m1.phase is Nearby && s.action == Action::Continue
            },
            Phase::Refill => m1.phase is Nearby && m1.runs == 0 && s.action == Action::Continue,
            Phase::Nearby => m1.phase is Others && m1.runs == m0.runs && s.action
                == if v0.fleet.parked is None {
                Action::QuickPoll
            } else {
                Action::Continue
            },
            Phase::Others => m1.phase is Miss && m1.runs == m0.runs && s.action
                == Action::Continue,
            _ => m1.phase is Done && s.action == Action::Exit,
        },
{
    machines_are_found_by_their_identifiers(v0.fleet, m0.id);
}

/// An idle machine looks for a task everywhere once more. One that it finds goes to its slot, to be
/// run next. If there is none, it waits for the reactor, unless a machine does so already: then it
/// makes its processor idle and ends.
pub proof fn idle_machine_keeps_a_task_or_blocks_or_ends(
    m0: MachineRun,
    v0: RuntimeView,
    start: int,
    m1: MachineRun,
    v1: RuntimeView,
    s: Step,
    i: int,
)
    requires
        v0.wf(),
        m0.phase is Idle,
        0 <= start < v0.cpus(),
        listed(v0.fleet, m0.id, i),
        machine_step(m0, v0, start, m1, v1, s),
    ensures
        ({
            let f = v0.fleet;
            let p = f.machines[i].processor as int;
            let q0 = v0.queues;
            &&& !s.notify
            &&& match s.action {
                Action::Continue => {
                    ||| m1 == m0 && v1 == v0 && has_none(q0, p) && q0.global.len() > 0
                    ||| m1 == (MachineRun { phase: Phase::Begin, ..m0 }) && exists|
                        q: QueuesView,
                        task: u64,
                    |
                        {
                            &&& #[trigger] takes_anything(q0, q, p, start, task)
                            &&& v1 == (RuntimeView {
                                queues: replaced(q, p, q.local[p].queue, Some(task)),
                                ..v0
                            })
                        }
                },
                Action::Block => {
                    &&& nothing_anywhere(q0, p)
                    &&& f.parked is None
                    &&& m1 == (MachineRun { phase: Phase::Wake, ..m0 })
                    &&& v1 == (RuntimeView {
                        fleet: FleetView {
                            parked: Some(f.machines[i]),
                            machines: f.machines.update(i, f.machines.last()).subrange(
                                0,
                                f.machines.len() - 1,
                            ),
                            ..f
                        },
                        progress: true,
                        ..v0
                    })
                },
                Action::Exit => {
                    &&& nothing_anywhere(q0, p)
                    &&& f.parked is Some
                    &&& m1 == (MachineRun { phase: Phase::Done, ..m0 })
                    &&& v1 == (RuntimeView {
                        fleet: FleetView {
                            idle: f.idle + seq![f.machines[i].processor],
                            machines: f.machines.subrange(0, i) + f.machines.subrange(
                                i + 1,
                                f.machines.len() as int,
                            ),
                            ..f
                        },
                        ..v0
                    })
                },
                _ => false,
            }
        }),
{
    let f = v0.fleet;
    let p = f.machines[i].processor as int;
    let q0 = v0.queues;
    identifier_names_one_machine(f, i);
    machines_hold_existing_processors(f, v0.cpus(), m0.id);
    dropped_machine_frees_its_processor(f, i);
    parked_machine_is_set_aside(f, i);
    if s.action == Action::Continue {
        if exists|q: QueuesView, task: u64|
            {
                &&& #[trigger] found_nearby(q0, q, p, Stolen::Success(task))
                &&& task_kept(m0, v0, q, p, task, m1, v1, s)
            } {
            let (q, task) = choose|q: QueuesView, task: u64|
                {
                    &&& #[trigger] found_nearby(q0, q, p, Stolen::Success(task))
                    &&& task_kept(m0, v0, q, p, task, m1, v1, s)
                };
            search_nearby_prefers_own_tasks(q0, q, p, Stolen::Success(task));
            assert(takes_anything(q0, q, p, start, task));
            taking_leaves_the_slot_empty(q0, q, p, start, task);
            scheduling_takes_the_slot(q, p, task);
            assert(q.local[p].queue + as_list(None) =~= q.local[p].queue);
        } else if exists|q: QueuesView, task: u64|
            {
                &&& #[trigger] found_in_others(q0, q, p, start, Stolen::Success(task))
                &&& task_kept(m0, v0, q, p, task, m1, v1, s)
            } {
            search_nearby_prefers_own_tasks(q0, q0, p, Stolen::Empty);
            let (q, task) = choose|q: QueuesView, task: u64|
                {
                    &&& #[trigger] found_in_others(q0, q, p, start, Stolen::Success(task))
                    &&& task_kept(m0, v0, q, p, task, m1, v1, s)
                };
            search_at_others_prefers_own_tasks(q0, q, p, start, Stolen::Success(task));
            assert(takes_anything(q0, q, p, start, task));
            taking_leaves_the_slot_empty(q0, q, p, start, task);
            scheduling_takes_the_slot(q, p, task);
            assert(q.local[p].queue + as_list(None) =~= q.local[p].queue);
        } else {
            search_nearby_prefers_own_tasks(q0, q0, p, Stolen::Retry);
        }
    } else {
        search_nearby_prefers_own_tasks(q0, q0, p, Stolen::Empty);
        search_at_others_prefers_own_tasks(q0, q0, p, start, Stolen::Empty);
    }
}

/// A machine that has polled the reactor is behind the other machines again, as it was, and begins
/// another round. A thread that has ended does nothing.
pub proof fn polling_machine_comes_back(
    m0: MachineRun,
    v0: RuntimeView,
    start: int,
    m1: MachineRun,
    v1: RuntimeView,
    s: Step,
)
    requires
        v0.wf(),
        machine_step(m0, v0, start, m1, v1, s),
    ensures
        m0.phase is Wake && v0.fleet.parked is Some && v0.fleet.parked->0.id == m0.id ==> {
            &&& s == (Step { notify: false, action: Action::Continue })
            &&& m1 == (MachineRun { phase: Phase::Begin, ..m0 })
            &&& v1 == (RuntimeView {
                fleet: FleetView {
                    machines: v0.fleet.machines + seq![v0.fleet.parked->0],
                    parked: None,
                    ..v0.fleet
                },
                progress: true,
                ..v0
            })
        },
        m0.phase is Done ==> m1 == m0 && v1 == v0 && s == (Step {
            notify: false,
            action: Action::Exit,
        }),
{
    if let Some(m) = v0.fleet.parked {
        assert(v0.fleet.unparked().machines =~= v0.fleet.machines + seq![m]);
    }
}

/// Making machines checks every running machine, whether a machine polls the reactor or not: each
/// one that was silent since the last check loses its processor to a new machine, which is among
/// those returned, and the others keep theirs. If no machine polls the reactor, and none did since
/// the last round, the last idle processor gets a machine too. Nothing else changes.
pub proof fn making_machines_relieves_the_silent(v: RuntimeView)
    requires
        v.wf(),
        v.fleet.next_id + v.fleet.machines.len() < u64::MAX,
    ensures
        ({
            let w = v.machines_made();
            let n = v.fleet.machines.len() as int;
            let one_more = v.fleet.parked is None && !v.progress && v.fleet.idle.len() > 0;
            &&& w.queues == v.queues
            &&& w.reactor == v.reactor
            &&& w.progress == (v.progress && v.fleet.parked is Some)
            &&& w.fleet.parked == v.fleet.parked
            &&& all_checked(v.fleet, w.fleet)
            &&& new_ones_start(v.fleet, w.fleet)
            &&& v.machines_to_make() == w.fleet.next_id - v.fleet.next_id
            &&& one_more ==> {
                &&& w.fleet.idle == v.fleet.idle.subrange(0, v.fleet.idle.len() - 1)
                &&& w.fleet.machines.len() == n + 1
                &&& w.fleet.machines[n].processor == v.fleet.idle.last()
                &&& w.fleet.machines[n].id == w.fleet.next_id - 1
                &&& about_to_start(w.fleet.machines[n])
            }
            &&& !one_more ==> w.fleet.idle == v.fleet.idle && w.fleet.machines.len() == n
        }),
{
    let f = v.fleet;
    let r = f.all_relieved();
    let w = v.machines_made().fleet;
    let n = f.machines.len() as int;
    relieving_checks_every_machine(f, v.cpus());
    relieving_keeps_wf(f, v.cpus());
    stuck_among_is_bounded(f.machines, 0, n);
    spinning_up_keeps_wf(r, v.cpus());
    spinning_up_takes_an_idle_processor(r);
    if v.fleet.parked is None && !v.progress && f.idle.len() > 0 {
        assert forall|j: int| 0 <= j < n implies #[trigger] w.machines[j] == r.machines[j] by {
            assert(w.machines.subrange(0, n)[j] == r.machines[j]);
        }
        assert forall|i: int| 0 <= i < n && silent(#[trigger] f.machines[i]) implies absent(
            w,
            f.machines[i].id,
        ) by {
            assert(absent(r, f.machines[i].id));
            assert(f.machines[i].id < f.next_id);
            assert forall|j: int| 0 <= j < w.machines.len() implies (#[trigger] w.machines[j]).id
                != f.machines[i].id by {
                if j < n {
                    assert(r.machines[j].id != f.machines[i].id);
                }
            }
        }
        assert forall|id: u64| f.next_id <= id < w.next_id implies (#[trigger] w.find(
            id,
        ) matches Some(m) && m.id == id && about_to_start(m)) && exists|i: int| #[trigger]
            listed(w, id, i) by {
            if id < r.next_id {
                assert(r.find(id) is Some);
                let i = choose|i: int| #[trigger] listed(r, id, i);
                assert(w.machines[i] == r.machines[i]);
                assert(listed(w, id, i));
                identifier_names_one_machine(w, i);
                identifier_names_one_machine(r, i);
            } else {
                assert(listed(w, id, n));
                identifier_names_one_machine(w, n);
            }
        }
    }
}

/// After a round of making machines, the identifier of a machine that was silent finds nothing, and
/// one of the returned identifiers finds a machine that holds its processor.
pub proof fn silent_machine_is_taken_over(v: RuntimeView, i: int)
    requires
        v.wf(),
        v.fleet.next_id + v.fleet.machines.len() < u64::MAX,
        0 <= i < v.fleet.machines.len(),
        !v.fleet.machines[i].progress,
        !v.fleet.machines[i].polling,
    ensures
        v.machines_made().fleet.find(v.fleet.machines[i].id) is None,
        exists|k: int|
            {
                &&& 0 <= k < v.machines_to_make()
                &&& (#[trigger] v.machines_made().fleet.find(
                    (v.fleet.next_id + k) as u64,
                )) matches Some(m) && m.processor == v.fleet.machines[i].processor
            },
{
    let w = v.machines_made().fleet;
    making_machines_relieves_the_silent(v);
    making_machines_keeps_every_processor(v);
    assert(silent(v.fleet.machines[i]));
    machines_are_found_by_their_identifiers(w, v.fleet.machines[i].id);
    identifier_names_one_machine(w, i);
    let k = w.machines[i].id - v.fleet.next_id;
    assert((v.fleet.next_id + k) as u64 == w.machines[i].id);
    assert(w.find((v.fleet.next_id + k) as u64) is Some);
}

} // verus!

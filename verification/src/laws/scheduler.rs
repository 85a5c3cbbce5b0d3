//! Laws of the scheduler.

use crate::action::{RUNS, SHORT_SLEEP, SLEEPS, YIELDS, Action, Step};
use crate::fleet::{
    identifier_names_one_machine, machines_hold_existing_processors, relieving_first_keeps_wf,
    spinning_up_keeps_wf, FleetView, Machine,
};
use crate::laws::fleet::{
    about_to_start, absent, dropped_machine_frees_its_processor, first_silent, listed,
    machines_are_found_by_their_identifiers, none_silent, only_silent_machines_are_relieved,
    putting_replaces_one_machine, relieving_first_checks_up_to_a_silent_machine, silent,
    spinning_up_takes_an_idle_processor, used_up,
};
use crate::laws::queues::{
    as_list, flushing_empties_the_slot, has_none, none_queued, nothing_anywhere,
    pushing_goes_to_the_back, refilling_moves_the_oldest, refills_batch, replaced,
    scheduling_takes_the_slot, search_everywhere_has_an_order, search_nearby_prefers_own_tasks,
    takes_anything, takes_global, takes_own, taking_leaves_the_slot_empty,
};
use crate::processor::{found_anywhere, found_nearby, refilled, ProcessorView, QueuesView};
use crate::queue::{Moved, Stolen};
use crate::rt::reactor::ReactorView;
use crate::runtime::scheduler::{
    machine_step, task_kept, MachineRun, Phase, SchedulerView, SHORTEST_DELAY,
};
use vstd::prelude::*;

verus! {

/// The scheduler with one of its machines replaced.
pub open spec fn marked(v: SchedulerView, i: int, m: Machine) -> SchedulerView {
    SchedulerView {
        fleet: FleetView { machines: v.fleet.machines.update(i, m), ..v.fleet },
        ..v
    }
}

/// A task that is scheduled from a machine takes the slot of its processor, and the task that was
/// there goes to the back of the processor's queue. From elsewhere it goes to the back of the
/// global queue. Whenever a task went to a queue while any thread blocks on the reactor, or is
/// about to, that thread has to be notified.
pub proof fn scheduled_task_goes_to_the_machine(
    v: SchedulerView,
    current: Option<u64>,
    task: u64,
    i: int,
)
    requires
        v.wf(),
    ensures
        ({
            let w = v.scheduled(current, task);
            let notifies = v.scheduling_notifies(current);
            &&& current is None || absent(v.fleet, current->0) ==> {
                &&& notifies == v.polling
                &&& w == (SchedulerView {
                    queues: QueuesView { global: v.queues.global + seq![task], ..v.queues },
                    ..v
                })
            }
            &&& current is Some && listed(v.fleet, current->0, i) ==> {
                let p = v.fleet.machines[i].processor as int;
                let mine = v.queues.local[p];
                &&& notifies == (v.polling && mine.slot is Some)
                &&& w == (SchedulerView {
                    queues: replaced(v.queues, p, mine.queue + as_list(mine.slot), Some(task)),
                    ..v
                })
            }
        }),
{
    pushing_goes_to_the_back(v.queues, task);
    if let Some(id) = current {
        machines_are_found_by_their_identifiers(v.fleet, id);
        machines_hold_existing_processors(v.fleet, v.cpus(), id);
        if let Some(m) = v.fleet.find(id) {
            scheduling_takes_the_slot(v.queues, m.processor as int, task);
        }
        if listed(v.fleet, id, i) {
            identifier_names_one_machine(v.fleet, i);
        }
    }
}

/// While a thread blocks on the reactor, or is about to, a task is scheduled without a notification
/// only where it goes to an empty slot: the global queue and all local queues are as they were.
pub proof fn silent_scheduling_fills_an_empty_slot(
    v: SchedulerView,
    current: Option<u64>,
    task: u64,
    p: int,
)
    requires
        v.wf(),
        v.polling,
        !v.scheduling_notifies(current),
        0 <= p < v.cpus(),
    ensures
        v.scheduled(current, task).queues.global == v.queues.global,
        v.scheduled(current, task).queues.local[p].queue == v.queues.local[p].queue,
        v.queues.local[p].slot is Some ==> v.scheduled(current, task).queues.local[p]
            == v.queues.local[p],
{
    let id = current->0;
    machines_are_found_by_their_identifiers(v.fleet, id);
    if current is None || absent(v.fleet, id) {
        scheduled_task_goes_to_the_machine(v, current, task, 0);
    } else {
        let i = choose|i: int|
            0 <= i < v.fleet.machines.len() && (#[trigger] v.fleet.machines[i]).id == id;
        scheduled_task_goes_to_the_machine(v, current, task, i);
        machines_hold_existing_processors(v.fleet, v.cpus(), id);
        identifier_names_one_machine(v.fleet, i);
        let mine = v.queues.local[v.fleet.machines[i].processor as int];
        assert(mine.queue + as_list(None) =~= mine.queue);
    }
}

/// In every round a machine makes progress, however many tasks it ran in a row, and nothing else
/// changes. After sixty-four tasks in a row the reactor is polled and the global queue gets its
/// turn.
pub proof fn every_round_makes_progress(
    m0: MachineRun,
    v0: SchedulerView,
    start: int,
    m1: MachineRun,
    v1: SchedulerView,
    s: Step,
    i: int,
)
    requires
        v0.wf(),
        m0.phase is Begin,
        listed(v0.fleet, m0.id, i),
        machine_step(m0, v0, start, m1, v1, s),
    ensures
        v1 == marked(v0, i, Machine { progress: true, ..v0.fleet.machines[i] }),
        !s.notify,
        m0.runs < 64 ==> s.action == Action::Continue && m1 == (MachineRun {
            phase: Phase::Nearby,
            ..m0
        }),
        m0.runs >= 64 ==> s.action == Action::QuickPoll && m1 == (MachineRun {
            phase: Phase::Refill,
            ..m0
        }),
{
    identifier_names_one_machine(v0.fleet, i);
    putting_replaces_one_machine(
        v0.fleet,
        Machine { progress: true, ..v0.fleet.machines[i] },
        i,
    );
}

/// A machine that began a round since it was last checked is not taken for stuck: a check leaves it
/// its processor.
pub proof fn machine_that_began_a_round_keeps_its_processor(
    m0: MachineRun,
    v0: SchedulerView,
    start: int,
    m1: MachineRun,
    v1: SchedulerView,
    s: Step,
    i: int,
)
    requires
        v0.wf(),
        v0.fleet.next_id + v0.fleet.machines.len() < u64::MAX,
        m0.phase is Begin,
        listed(v0.fleet, m0.id, i),
        machine_step(m0, v0, start, m1, v1, s),
        v1.wf(),
    ensures
        v1.checked().fleet.find(m0.id) matches Some(m) && m.processor
            == v0.fleet.machines[i].processor,
        v1.supervised().fleet.find(m0.id) matches Some(m) && m.processor
            == v0.fleet.machines[i].processor,
{
    every_round_makes_progress(m0, v0, start, m1, v1, s, i);
    assert(v1.fleet.machines[i].id == m0.id);
    only_silent_machines_are_relieved(v1.fleet, v1.cpus(), i);
    relieving_first_keeps_wf(v1.fleet, v1.cpus());
    let r = v1.fleet.first_relieved();
    spinning_up_keeps_wf(r, v1.cpus());
    assert(r.spun_up().machines[i] == r.machines[i]);
    identifier_names_one_machine(r, i);
    identifier_names_one_machine(r.spun_up(), i);
}

/// Tasks of the global queue, `n` of them, oldest first, and then the task from the slot, which is
/// empty, went to the back of a processor's queue.
pub open spec fn global_turn(q0: QueuesView, q1: QueuesView, p: int, n: int) -> bool {
    let mine = q0.local[p];
    &&& 1 <= n <= q0.global.len()
    &&& q1.global == q0.global.subrange(n, q0.global.len() as int)
    &&& q1.local == q0.local.update(
        p,
        ProcessorView {
            queue: mine.queue + q0.global.subrange(0, n) + as_list(mine.slot),
            slot: None,
        },
    )
}

/// When the global queue gets its turn, tasks leave it for the back of the processor's queue, and
/// so does the task in the slot. Only a spurious failure, for which the global queue must have a
/// task, repeats the step.
pub proof fn global_queue_and_slot_move_to_the_queue(
    m0: MachineRun,
    v0: SchedulerView,
    start: int,
    m1: MachineRun,
    v1: SchedulerView,
    s: Step,
    i: int,
)
    requires
        v0.wf(),
        m0.phase is Refill,
        listed(v0.fleet, m0.id, i),
        machine_step(m0, v0, start, m1, v1, s),
    ensures
        ({
            let p = v0.fleet.machines[i].processor as int;
            let mine = v0.queues.local[p];
            &&& s == (Step { notify: false, action: Action::Continue })
            &&& v1 == (SchedulerView { queues: v1.queues, ..v0 })
            &&& {
                ||| v0.queues.global.len() > 0 && m1 == m0 && v1 == v0
                ||| {
                    &&& m1 == (MachineRun { phase: Phase::Nearby, runs: 0, ..m0 })
                    &&& v0.queues.global.len() == 0 ==> v1.queues == replaced(
                        v0.queues,
                        p,
                        mine.queue + as_list(mine.slot),
                        None,
                    )
                    &&& v0.queues.global.len() > 0 ==> exists|n: int| #[trigger]
                        global_turn(v0.queues, v1.queues, p, n)
                }
            }
        }),
{
    let q0 = v0.queues;
    let p = v0.fleet.machines[i].processor as int;
    let mine = q0.local[p];
    identifier_names_one_machine(v0.fleet, i);
    machines_hold_existing_processors(v0.fleet, v0.cpus(), m0.id);
    if !(q0.global.len() > 0 && m1 == m0 && v1 == v0) {
        let (q, r) = choose|q: QueuesView, r: Moved|
            {
                &&& #[trigger] refilled(q0, q, p, r)
                &&& !(r is Retry)
                &&& v1 == (SchedulerView { queues: q.flushed(p), ..v0 })
            };
        refilling_moves_the_oldest(q0, q, p, r);
        flushing_empties_the_slot(q, p);
        if r is Success {
            let n = choose|n: int| #[trigger] refills_batch(q0, q, p, n);
            assert(v1.queues.local =~= q0.local.update(
                p,
                ProcessorView {
                    queue: mine.queue + q0.global.subrange(0, n) + as_list(mine.slot),
                    slot: None,
                },
            ));
            assert(global_turn(q0, v1.queues, p, n));
        }
    }
}

/// A machine that looks nearby runs the task in its slot, or else the oldest in its queue, or else
/// the oldest in the global queue. It polls the reactor and looks further if and only if there is
/// none of these.
pub proof fn machine_runs_what_is_nearby(
    m0: MachineRun,
    v0: SchedulerView,
    start: int,
    m1: MachineRun,
    v1: SchedulerView,
    s: Step,
    i: int,
)
    requires
        v0.wf(),
        m0.phase is Nearby,
        m0.runs < 64,
        listed(v0.fleet, m0.id, i),
        machine_step(m0, v0, start, m1, v1, s),
    ensures
        ({
            let p = v0.fleet.machines[i].processor as int;
            let q0 = v0.queues;
            let base = v0;
            &&& !s.notify
            &&& v1 == (SchedulerView { queues: v1.queues, ..base })
            &&& match s.action {
                Action::Run(task) => {
                    &&& m1.id == m0.id && m1.phase is Begin && m1.runs == m0.runs + 1 && m1.fails
                        == 0
                    &&& takes_own(q0, v1.queues, p, task) || has_none(q0, p) && takes_global(
                        q0,
                        v1.queues,
                        p,
                        task,
                    )
                },
                _ => {
                    &&& v1 == base
                    &&& has_none(q0, p)
                    &&& q0.global.len() > 0 ==> m1 == m0 && s.action == Action::Continue
                    &&& q0.global.len() == 0 ==> m1 == (MachineRun { phase: Phase::Anywhere, ..m0 })
                        && s.action == Action::QuickPoll
                },
            }
        }),
{
    let p = v0.fleet.machines[i].processor as int;
    identifier_names_one_machine(v0.fleet, i);
    machines_hold_existing_processors(v0.fleet, v0.cpus(), m0.id);
    let r = match s.action {
        Action::Run(task) => Stolen::Success(task),
        _ => if m1 == m0 {
            Stolen::Retry
        } else {
            Stolen::Empty
        },
    };
    search_nearby_prefers_own_tasks(v0.queues, v1.queues, p, r);
}

/// A machine that looks everywhere runs a task of its own, or else the oldest in the global queue,
/// or else the oldest of the first processor with a queued task. It goes away empty-handed if and
/// only if there is none of these.
pub proof fn machine_runs_what_is_anywhere(
    m0: MachineRun,
    v0: SchedulerView,
    start: int,
    m1: MachineRun,
    v1: SchedulerView,
    s: Step,
    i: int,
)
    requires
        v0.wf(),
        m0.phase is Anywhere,
        m0.runs < 64,
        0 <= start < v0.cpus(),
        listed(v0.fleet, m0.id, i),
        machine_step(m0, v0, start, m1, v1, s),
    ensures
        ({
            let p = v0.fleet.machines[i].processor as int;
            let q0 = v0.queues;
            &&& !s.notify
            &&& v1 == (SchedulerView { queues: v1.queues, ..v0 })
            &&& match s.action {
                Action::Run(task) => {
                    &&& m1.id == m0.id && m1.phase is Begin && m1.runs == m0.runs + 1 && m1.fails
                        == 0
                    &&& takes_anything(q0, v1.queues, p, start, task)
                },
                _ => {
                    &&& v1 == v0
                    &&& s.action == Action::Continue
                    &&& has_none(q0, p)
                    &&& q0.global.len() > 0 ==> m1 == m0
                    &&& q0.global.len() == 0 ==> none_queued(q0) && m1 == (MachineRun {
                        phase: Phase::Miss,
                        ..m0
                    })
                },
            }
        }),
{
    let p = v0.fleet.machines[i].processor as int;
    identifier_names_one_machine(v0.fleet, i);
    machines_hold_existing_processors(v0.fleet, v0.cpus(), m0.id);
    let r = match s.action {
        Action::Run(task) => Stolen::Success(task),
        _ => if m1 == m0 {
            Stolen::Retry
        } else {
            Stolen::Empty
        },
    };
    search_everywhere_has_an_order(v0.queues, v1.queues, p, start, r);
}

/// A machine that found nothing yields three times in a row, then sleeps for ten microseconds once,
/// and from then on tries to block on the reactor each time. Nothing else changes.
pub proof fn machine_without_tasks_yields_sleeps_and_claims(
    m0: MachineRun,
    v0: SchedulerView,
    start: int,
    m1: MachineRun,
    v1: SchedulerView,
    s: Step,
    i: int,
)
    requires
        v0.wf(),
        m0.phase is Miss,
        m0.fails <= 5,
        listed(v0.fleet, m0.id, i),
        machine_step(m0, v0, start, m1, v1, s),
    ensures
        v1 == v0,
        !s.notify,
        m1.id == m0.id,
        m1.runs == 0,
        m1.fails == if m0.fails < 5 {
            m0.fails + 1
        } else {
            5
        },
        m0.fails < 3 ==> s.action == Action::Yield && m1.phase is Begin,
        m0.fails == 3 ==> s.action == Action::Sleep(10) && m1.phase is Begin,
        m0.fails >= 4 ==> s.action == Action::Continue && m1.phase is Claim,
{
    identifier_names_one_machine(v0.fleet, i);
}

/// The right to block on the reactor goes to the first machine that claims it. Another machine
/// that claims it makes its processor idle and ends.
pub proof fn second_claim_ends_the_machine(
    m0: MachineRun,
    v0: SchedulerView,
    start: int,
    m1: MachineRun,
    v1: SchedulerView,
    s: Step,
    i: int,
)
    requires
        v0.wf(),
        m0.phase is Claim,
        listed(v0.fleet, m0.id, i),
        machine_step(m0, v0, start, m1, v1, s),
    ensures
        !s.notify,
        !v0.polling ==> {
            &&& s.action == Action::Continue
            &&& m1 == (MachineRun { phase: Phase::NearbyAgain, ..m0 })
            &&& v1 == (SchedulerView { polling: true, ..v0 })
        },
        v0.polling ==> {
            let f = v0.fleet;
            &&& s.action == Action::Exit
            &&& m1 == (MachineRun { phase: Phase::Done, ..m0 })
            &&& v1 == (SchedulerView {
                fleet: FleetView {
                    idle: f.idle + seq![f.machines[i].processor],
                    machines: f.machines.update(i, f.machines.last()).subrange(
                        0,
                        f.machines.len() - 1,
                    ),
                    ..f
                },
                ..v0
            })
        },
{
    identifier_names_one_machine(v0.fleet, i);
    dropped_machine_frees_its_processor(v0.fleet, i);
}

/// Having the right to block, a machine looks nearby once more. A task that it finds goes to its
/// slot, to be run next, and the right is given up. Otherwise the reactor is polled before it looks
/// everywhere.
pub proof fn machine_looks_nearby_before_it_blocks(
    m0: MachineRun,
    v0: SchedulerView,
    start: int,
    m1: MachineRun,
    v1: SchedulerView,
    s: Step,
    i: int,
)
    requires
        v0.wf(),
        m0.phase is NearbyAgain,
        0 <= start < v0.cpus(),
        listed(v0.fleet, m0.id, i),
        machine_step(m0, v0, start, m1, v1, s),
    ensures
        ({
            let p = v0.fleet.machines[i].processor as int;
            let q0 = v0.queues;
            &&& !s.notify
            &&& match s.action {
                Action::Continue => {
                    ||| m1 == m0 && v1 == v0 && has_none(q0, p) && q0.global.len() > 0
                    ||| m1 == (MachineRun { phase: Phase::Begin, ..m0 }) && exists|
                        q: QueuesView,
                        task: u64,
                    |
                        {
                            &&& #[trigger] takes_anything(q0, q, p, start, task)
                            &&& !has_none(q0, p) || q0.global.len() > 0
                            &&& v1 == (SchedulerView {
                                queues: replaced(q, p, q.local[p].queue, Some(task)),
                                polling: false,
                                ..v0
                            })
                        }
                },
                _ => {
                    &&& s.action == Action::QuickPoll
                    &&& has_none(q0, p)
                    &&& q0.global.len() == 0
                    &&& v1 == v0
                    &&& m1 == (MachineRun { phase: Phase::AnywhereAgain, ..m0 })
                },
            }
        }),
{
    let p = v0.fleet.machines[i].processor as int;
    let q0 = v0.queues;
    identifier_names_one_machine(v0.fleet, i);
    machines_hold_existing_processors(v0.fleet, v0.cpus(), m0.id);
    if s.action == Action::Continue {
        if exists|q: QueuesView, task: u64|
            {
                &&& #[trigger] found_nearby(q0, q, p, Stolen::Success(task))
                &&& task_kept(m0, v0, q, p, task, m1, v1, s)
            } {
            let (q, task) = choose|q: QueuesView, task: u64|
                {
                    &&& #[trigger] found_nearby(q0, q, p, Stolen::Success(task))
                    &&& task_kept(m0, v0, q, p, task, m1, v1, s)
                };
            search_nearby_prefers_own_tasks(q0, q, p, Stolen::Success(task));
            assert(takes_anything(q0, q, p, start, task));
            taking_leaves_the_slot_empty(q0, q, p, start, task);
            scheduling_takes_the_slot(q, p, task);
            assert(q.local[p].queue + as_list(None) =~= q.local[p].queue);
        } else {
            search_nearby_prefers_own_tasks(q0, q0, p, Stolen::Retry);
        }
    } else {
        search_nearby_prefers_own_tasks(q0, q0, p, Stolen::Empty);
    }
}

/// Having the right to block, a machine looks everywhere once more. A task that it finds goes to
/// its slot, to be run next, and the right is given up. It blocks if and only if there is none, and
/// is marked as blocking then.
pub proof fn machine_looks_everywhere_before_it_blocks(
    m0: MachineRun,
    v0: SchedulerView,
    start: int,
    m1: MachineRun,
    v1: SchedulerView,
    s: Step,
    i: int,
)
    requires
        v0.wf(),
        m0.phase is AnywhereAgain,
        0 <= start < v0.cpus(),
        listed(v0.fleet, m0.id, i),
        machine_step(m0, v0, start, m1, v1, s),
    ensures
        ({
            let p = v0.fleet.machines[i].processor as int;
            let q0 = v0.queues;
            &&& !s.notify
            &&& match s.action {
                Action::Continue => {
                    ||| m1 == m0 && v1 == v0 && has_none(q0, p) && q0.global.len() > 0
                    ||| m1 == (MachineRun { phase: Phase::Begin, ..m0 }) && exists|
                        q: QueuesView,
                        task: u64,
                    |
                        {
                            &&& #[trigger] takes_anything(q0, q, p, start, task)
                            &&& v1 == (SchedulerView {
                                queues: replaced(q, p, q.local[p].queue, Some(task)),
                                polling: false,
                                ..v0
                            })
                        }
                },
                _ => {
                    &&& s.action == Action::Block
                    &&& nothing_anywhere(q0, p)
                    &&& v1 == (SchedulerView {
                        progress: true,
                        ..marked(v0, i, Machine { polling: true, ..v0.fleet.machines[i] })
                    })
                    &&& m1 == (MachineRun { phase: Phase::Wake, ..m0 })
                },
            }
        }),
{
    let p = v0.fleet.machines[i].processor as int;
    let q0 = v0.queues;
    identifier_names_one_machine(v0.fleet, i);
    machines_hold_existing_processors(v0.fleet, v0.cpus(), m0.id);
    putting_replaces_one_machine(
        v0.fleet,
        Machine { polling: true, ..v0.fleet.machines[i] },
        i,
    );
    if s.action == Action::Continue {
        if exists|q: QueuesView, task: u64|
            {
                &&& #[trigger] found_anywhere(q0, q, p, start, Stolen::Success(task))
                &&& task_kept(m0, v0, q, p, task, m1, v1, s)
            } {
            let (q, task) = choose|q: QueuesView, task: u64|
                {
                    &&& #[trigger] found_anywhere(q0, q, p, start, Stolen::Success(task))
                    &&& task_kept(m0, v0, q, p, task, m1, v1, s)
                };
            search_everywhere_has_an_order(q0, q, p, start, Stolen::Success(task));
            taking_leaves_the_slot_empty(q0, q, p, start, task);
            scheduling_takes_the_slot(q, p, task);
            assert(q.local[p].queue + as_list(None) =~= q.local[p].queue);
        } else {
            search_everywhere_has_an_order(q0, q0, p, start, Stolen::Retry);
        }
    } else {
        search_everywhere_has_an_order(q0, q0, p, start, Stolen::Empty);
    }
}

/// A machine that stops waiting is no longer marked so, gives up the right to wait, and begins
/// another round. A thread that has ended does nothing.
pub proof fn waking_machine_gives_up_the_right(
    m0: MachineRun,
    v0: SchedulerView,
    start: int,
    m1: MachineRun,
    v1: SchedulerView,
    s: Step,
    i: int,
)
    requires
        v0.wf(),
        machine_step(m0, v0, start, m1, v1, s),
    ensures
        m0.phase is Wake ==> s == (Step { notify: false, action: Action::Continue }) && m1 == (
        MachineRun { phase: Phase::Begin, ..m0 }),
        m0.phase is Wake && listed(v0.fleet, m0.id, i) ==> v1 == (SchedulerView {
            polling: false,
            ..marked(v0, i, Machine { polling: false, ..v0.fleet.machines[i] })
        }),
        m0.phase is Wake && absent(v0.fleet, m0.id) ==> v1 == (SchedulerView {
            polling: false,
            ..v0
        }),
        m0.phase is Done ==> m1 == m0 && v1 == v0 && s == (Step {
            notify: false,
            action: Action::Exit,
        }),
{
    machines_are_found_by_their_identifiers(v0.fleet, m0.id);
    if listed(v0.fleet, m0.id, i) {
        identifier_names_one_machine(v0.fleet, i);
        putting_replaces_one_machine(
            v0.fleet,
            Machine { polling: false, ..v0.fleet.machines[i] },
            i,
        );
    }
}

/// A machine that has lost its processor runs nothing and touches no queue and no other machine. It
/// ends as soon as it has looked for tasks in vain, unless it has just claimed the right to
/// block on the reactor: then it does so once.
pub proof fn machine_without_processor_runs_nothing(
    m0: MachineRun,
    v0: SchedulerView,
    start: int,
    m1: MachineRun,
    v1: SchedulerView,
    s: Step,
)
    requires
        v0.wf(),
        absent(v0.fleet, m0.id),
        machine_step(m0, v0, start, m1, v1, s),
    ensures
        v1.queues == v0.queues,
        v1.fleet == v0.fleet,
        !s.notify,
        m1.id == m0.id,
        match m0.phase {
            Phase::Begin => v1 == v0 && m1.runs == m0.runs && if m0.runs >= 64 {
                m1.phase is Refill && s.action == Action::QuickPoll
            } else {
                m1.phase is Nearby && s.action == Action::Continue
            },
            Phase::Refill => v1 == v0 && m1.phase is Nearby && m1.runs == 0 && s.action
                == Action::Continue,
            Phase::Nearby => v1 == v0 && m1.phase is Anywhere && m1.runs == m0.runs && s.action
                == Action::QuickPoll,
            Phase::Anywhere => v1 == v0 && m1.phase is Miss && m1.runs == m0.runs && s.action
                == Action::Continue,
            Phase::Miss => v1 == v0 && m1.phase is Done && s.action == Action::Exit,
            Phase::Claim => if v0.polling {
                v1 == v0 && m1.phase is Done && s.action == Action::Exit
            } else {
                v1 == (SchedulerView { polling: true, ..v0 }) && m1.phase is NearbyAgain && s.action
                    == Action::Continue
            },
            Phase::NearbyAgain => v1 == v0 && m1.phase is AnywhereAgain && s.action
                == Action::QuickPoll,
            Phase::AnywhereAgain => v1 == (SchedulerView { progress: true, ..v0 })
                && m1.phase is Wake && s.action == Action::Block,
            Phase::Wake => v1 == (SchedulerView { polling: false, ..v0 }) && m1.phase is Begin
                && s.action == Action::Continue,
            Phase::Done => v1 == v0 && m1 == m0 && s.action == Action::Exit,
        },
{
    machines_are_found_by_their_identifiers(v0.fleet, m0.id);
}

/// A machine that is started takes the last idle processor, if there is one, and nothing else
/// changes.
pub proof fn launching_takes_an_idle_processor(v: SchedulerView)
    requires
        v.wf(),
        v.fleet.next_id < u64::MAX,
    ensures
        ({
            let w = v.launched();
            let n = v.fleet.machines.len() as int;
            &&& w == (SchedulerView { fleet: w.fleet, ..v })
            &&& v.fleet.idle.len() == 0 ==> w == v
            &&& v.fleet.idle.len() > 0 ==> {
                &&& w.fleet.idle == v.fleet.idle.subrange(0, v.fleet.idle.len() - 1)
                &&& w.fleet.machines.len() == n + 1
                &&& w.fleet.machines.subrange(0, n) == v.fleet.machines
                &&& w.fleet.machines[n].id == v.fleet.next_id
                &&& w.fleet.machines[n].processor == v.fleet.idle.last()
                &&& about_to_start(w.fleet.machines[n])
                &&& w.fleet.next_id == v.fleet.next_id + 1
            }
        }),
{
    spinning_up_takes_an_idle_processor(v.fleet);
}

/// A check of the machines changes the machines alone.
pub proof fn checking_changes_machines_alone(v: SchedulerView)
    ensures
        v.checked() == (SchedulerView { fleet: v.checked().fleet, ..v }),
        v.checked().fleet == v.fleet.first_relieved(),
{
}

/// A round of the scheduler thread checks the machines up to the first silent one, which loses its
/// processor to a machine that is started. If no thread blocks on the reactor, and none did since
/// the last round, the last idle processor gets a machine too. The next round asks anew whether a
/// thread did.
pub proof fn rounds_relieve_the_first_silent_machine(v: SchedulerView, i: int)
    requires
        v.wf(),
        v.fleet.next_id + 2 <= u64::MAX,
    ensures
        ({
            let w = v.supervised();
            let f = v.fleet;
            let n = f.machines.len() as int;
            let one_more = !v.progress && !v.polling && f.idle.len() > 0;
            let relieved: int = if none_silent(f) {
                0
            } else {
                1
            };
            &&& w == (SchedulerView { fleet: w.fleet, progress: false, ..v })
            &&& v.quiet() == (!v.progress && !v.polling)
            &&& f.any_stuck() == !none_silent(f)
            &&& w.fleet.parked == f.parked
            &&& w.fleet.next_id == f.next_id + relieved + if one_more {
                1int
            } else {
                0
            }
            &&& v.started().len() == w.fleet.next_id - f.next_id
            &&& forall|k: int|
                0 <= k < v.started().len() ==> #[trigger] v.started()[k] == f.next_id + k
            &&& first_silent(f, i) ==> {
                &&& w.fleet.machines[i].id == f.next_id
                &&& w.fleet.machines[i].processor == f.machines[i].processor
                &&& about_to_start(w.fleet.machines[i])
                &&& forall|j: int|
                    0 <= j < i ==> #[trigger] w.fleet.machines[j] == used_up(f.machines[j])
                &&& forall|j: int| i < j < n ==> #[trigger] w.fleet.machines[j] == f.machines[j]
            }
            &&& none_silent(f) ==> forall|j: int|
                0 <= j < n ==> #[trigger] w.fleet.machines[j] == used_up(f.machines[j])
            &&& one_more ==> {
                &&& w.fleet.idle == f.idle.subrange(0, f.idle.len() - 1)
                &&& w.fleet.machines.len() == n + 1
                &&& w.fleet.machines[n].id == w.fleet.next_id - 1
                &&& w.fleet.machines[n].processor == f.idle.last()
                &&& about_to_start(w.fleet.machines[n])
            }
            &&& !one_more ==> w.fleet.idle == f.idle && w.fleet.machines.len() == n
        }),
{
    let f = v.fleet;
    let r = f.first_relieved();
    let w = v.supervised().fleet;
    let n = f.machines.len() as int;
    relieving_first_checks_up_to_a_silent_machine(f, v.cpus(), i);
    if !none_silent(f) {
        let k = choose|k: int| f.first_stuck(k);
        assert(f.any_stuck());
        assert(first_silent(f, k)) by {
            assert forall|j: int| 0 <= j < k implies !silent(#[trigger] f.machines[j]) by {
                assert(!f.machines[j].stuck());
            }
        }
        relieving_first_checks_up_to_a_silent_machine(f, v.cpus(), k);
    }
    spinning_up_takes_an_idle_processor(r);
    if v.quiet() && f.idle.len() > 0 {
        assert forall|j: int| 0 <= j < n implies #[trigger] w.machines[j] == r.machines[j] by {
            assert(w.machines.subrange(0, n)[j] == r.machines[j]);
        }
    }
}

/// A machine thread begins with a round, and has counted nothing.
pub proof fn threads_begin_with_a_round(id: u64)
    ensures
        MachineRun::initial(id).id == id,
        MachineRun::initial(id).phase is Begin,
        MachineRun::initial(id).runs == 0,
        MachineRun::initial(id).fails == 0,
{
}

/// The numbers by which machines and the scheduler thread go.
pub proof fn numbers_of_the_scheduler()
    ensures
        RUNS == 64,
        YIELDS == 3,
        SLEEPS == 1,
        SHORT_SLEEP == 10,
        SHORTEST_DELAY == 500,
{
}

/// A new scheduler has idle processors and nothing else.
pub proof fn new_scheduler_is_idle(reactor: ReactorView, cpus: nat, p: int)
    ensures
        ({
            let v = SchedulerView::initial(reactor, cpus);
            &&& v.reactor == reactor
            &&& v.cpus() == cpus
            &&& v.queues.global.len() == 0
            &&& none_queued(v.queues)
            &&& 0 <= p < cpus ==> v.queues.local[p].slot is None
            &&& v.fleet.idle.len() == cpus
            &&& 0 <= p < cpus <= usize::MAX ==> v.fleet.idle[p] == p
            &&& v.fleet.machines.len() == 0
            &&& v.fleet.parked is None
            &&& !v.progress
            &&& !v.polling
        }),
{
}

} // verus!

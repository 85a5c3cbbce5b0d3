//! Laws of the pool.

use crate::action::{RUNS, SHORT_SLEEP, SLEEPS, YIELDS, Action, Step};
use crate::fleet::{
    identifier_names_one_machine, machines_hold_existing_processors, relieving_keeps_wf,
    spinning_up_keeps_wf, stuck_among_is_bounded, FleetView, Machine,
};
use crate::laws::fleet::{
    about_to_start, absent, all_checked, dropped_machine_frees_its_processor, listed,
    machines_are_found_by_their_identifiers, new_ones_start, putting_replaces_one_machine,
    relieving_checks_every_machine, silent, spinning_up_takes_an_idle_processor,
};
use crate::laws::queues::{
    as_list, flushing_empties_the_slot, has_none, none_queued, pushing_goes_to_the_back,
    refilling_moves_the_oldest, refills_batch, replaced, scheduling_takes_the_slot,
    search_in_slot_then_round, search_nearby_prefers_own_tasks, takes_around, takes_global,
    takes_own,
};
use crate::processor::{refilled, ProcessorView, QueuesView};
use crate::queue::{Moved, Stolen};
use crate::task::executor::pool::{machine_step, MachineRun, Phase, SchedulerView, ROUND};
use vstd::prelude::*;

verus! {

/// The scheduler with one of its machines replaced.
pub open spec fn marked(v: SchedulerView, i: int, m: Machine) -> SchedulerView {
    SchedulerView {
        fleet: FleetView { machines: v.fleet.machines.update(i, m), ..v.fleet },
        ..v
    }
}

/// A task that is scheduled from a machine takes the slot of its processor, and the task that was
/// there goes to the back of the processor's queue. From elsewhere it goes to the back of the
/// global queue. Whenever a task went to a queue while any thread waits for I/O events, or is about
/// to, that thread has to be notified.
pub proof fn scheduled_task_goes_to_the_machine(
    v: SchedulerView,
    current: Option<u64>,
    task: u64,
    i: int,
)
    requires
        v.wf(),
    ensures
        ({
            let w = v.scheduled(current, task);
            let notifies = v.scheduling_notifies(current);
            &&& current is None || absent(v.fleet, current->0) ==> {
                &&& notifies == v.deep_sleep
                &&& w == (SchedulerView {
                    queues: QueuesView { global: v.queues.global + seq![task], ..v.queues },
                    ..v
                })
            }
            &&& current is Some && listed(v.fleet, current->0, i) ==> {
                let p = v.fleet.machines[i].processor as int;
                let mine = v.queues.local[p];
                &&& notifies == (v.deep_sleep && mine.slot is Some)
                &&& w == (SchedulerView {
                    queues: replaced(v.queues, p, mine.queue + as_list(mine.slot), Some(task)),
                    ..v
                })
            }
        }),
{
    pushing_goes_to_the_back(v.queues, task);
    if let Some(id) = current {
        machines_are_found_by_their_identifiers(v.fleet, id);
        machines_hold_existing_processors(v.fleet, v.cpus(), id);
        if let Some(m) = v.fleet.find(id) {
            scheduling_takes_the_slot(v.queues, m.processor as int, task);
        }
        if listed(v.fleet, id, i) {
            identifier_names_one_machine(v.fleet, i);
        }
    }
}

/// While a thread waits for I/O events, or is about to, a task is scheduled without a notification
/// only where it goes to an empty slot: the global queue and all local queues are as they were.
pub proof fn silent_scheduling_fills_an_empty_slot(
    v: SchedulerView,
    current: Option<u64>,
    task: u64,
    p: int,
)
    requires
        v.wf(),
        v.deep_sleep,
        !v.scheduling_notifies(current),
        0 <= p < v.cpus(),
    ensures
        v.scheduled(current, task).queues.global == v.queues.global,
        v.scheduled(current, task).queues.local[p].queue == v.queues.local[p].queue,
        v.queues.local[p].slot is Some ==> v.scheduled(current, task).queues.local[p]
            == v.queues.local[p],
{
    let id = current->0;
    machines_are_found_by_their_identifiers(v.fleet, id);
    if current is None || absent(v.fleet, id) {
        scheduled_task_goes_to_the_machine(v, current, task, 0);
    } else {
        let i = choose|i: int|
            0 <= i < v.fleet.machines.len() && (#[trigger] v.fleet.machines[i]).id == id;
        scheduled_task_goes_to_the_machine(v, current, task, i);
        machines_hold_existing_processors(v.fleet, v.cpus(), id);
        identifier_names_one_machine(v.fleet, i);
        let mine = v.queues.local[v.fleet.machines[i].processor as int];
        assert(mine.queue + as_list(None) =~= mine.queue);
    }
}

/// A round begins with the search for a task. After sixty-four tasks in a row the reactor is polled
/// and the global queue gets its turn first, and the machine starts to count anew.
pub proof fn rounds_begin_with_a_search(
    m0: MachineRun,
    v0: SchedulerView,
    start: int,
    m1: MachineRun,
    v1: SchedulerView,
    s: Step,
    i: int,
)
    requires
        v0.wf(),
        m0.phase is Begin,
        machine_step(m0, v0, start, m1, v1, s),
    ensures
        v1 == v0,
        !s.notify,
        m0.runs < 64 ==> s.action == Action::Continue && m1 == (MachineRun {
            phase: Phase::Nearby,
            ..m0
        }),
        m0.runs >= 64 ==> s.action == Action::QuickPoll && m1 == (MachineRun {
            phase: Phase::Refill,
            runs: 0,
            ..m0
        }),
{
}

/// Tasks of the global queue, `n` of them, oldest first, and then the task from the slot, which is
/// empty, went to the back of a processor's queue.
pub open spec fn global_turn(q0: QueuesView, q1: QueuesView, p: int, n: int) -> bool {
    let mine = q0.local[p];
    &&& 1 <= n <= q0.global.len()
    &&& q1.global == q0.global.subrange(n, q0.global.len() as int)
    &&& q1.local == q0.local.update(
        p,
        ProcessorView {
            queue: mine.queue + q0.global.subrange(0, n) + as_list(mine.slot),
            slot: None,
        },
    )
}

/// When the global queue gets its turn, tasks leave it for the back of the processor's queue, and
/// so does the task in the slot. Only a spurious failure, for which the global queue must have a
/// task, repeats the step.
pub proof fn global_queue_and_slot_move_to_the_queue(
    m0: MachineRun,
    v0: SchedulerView,
    start: int,
    m1: MachineRun,
    v1: SchedulerView,
    s: Step,
    i: int,
)
    requires
        v0.wf(),
        m0.phase is Refill,
        listed(v0.fleet, m0.id, i),
        machine_step(m0, v0, start, m1, v1, s),
    ensures
        ({
            let p = v0.fleet.machines[i].processor as int;
            let mine = v0.queues.local[p];
            &&& s == (Step { notify: false, action: Action::Continue })
            &&& v1 == (SchedulerView { queues: v1.queues, ..v0 })
            &&& {
                ||| v0.queues.global.len() > 0 && m1 == m0 && v1 == v0
                ||| {
                    &&& m1 == (MachineRun { phase: Phase::Nearby, ..m0 })
                    &&& v0.queues.global.len() == 0 ==> v1.queues == replaced(
                        v0.queues,
                        p,
                        mine.queue + as_list(mine.slot),
                        None,
                    )
                    &&& v0.queues.global.len() > 0 ==> exists|n: int| #[trigger]
                        global_turn(v0.queues, v1.queues, p, n)
                }
            }
        }),
{
    let q0 = v0.queues;
    let p = v0.fleet.machines[i].processor as int;
    let mine = q0.local[p];
    identifier_names_one_machine(v0.fleet, i);
    machines_hold_existing_processors(v0.fleet, v0.cpus(), m0.id);
    if !(q0.global.len() > 0 && m1 == m0 && v1 == v0) {
        let (q, r) = choose|q: QueuesView, r: Moved|
            {
                &&& #[trigger] refilled(q0, q, p, r)
                &&& !(r is Retry)
                &&& v1 == (SchedulerView { queues: q.flushed(p), ..v0 })
            };
        refilling_moves_the_oldest(q0, q, p, r);
        flushing_empties_the_slot(q, p);
        if r is Success {
            let n = choose|n: int| #[trigger] refills_batch(q0, q, p, n);
            assert(v1.queues.local =~= q0.local.update(
                p,
                ProcessorView {
                    queue: mine.queue + q0.global.subrange(0, n) + as_list(mine.slot),
                    slot: None,
                },
            ));
            assert(global_turn(q0, v1.queues, p, n));
        }
    }
}

/// A machine that looks nearby runs the task in its slot, or else the oldest in its queue, or else
/// the oldest in the global queue. It polls the reactor and looks further if and only if there is
/// none of these. It makes progress in any case.
pub proof fn machine_runs_what_is_nearby(
    m0: MachineRun,
    v0: SchedulerView,
    start: int,
    m1: MachineRun,
    v1: SchedulerView,
    s: Step,
    i: int,
)
    requires
        v0.wf(),
        m0.phase is Nearby,
        m0.runs < 64,
        listed(v0.fleet, m0.id, i),
        machine_step(m0, v0, start, m1, v1, s),
    ensures
        ({
            let p = v0.fleet.machines[i].processor as int;
            let q0 = v0.queues;
            let base = marked(v0, i, Machine { progress: true, ..v0.fleet.machines[i] });
            &&& !s.notify
            &&& v1 == (SchedulerView { queues: v1.queues, ..base })
            &&& match s.action {
                Action::Run(task) => {
                    &&& m1.id == m0.id && m1.phase is Begin && m1.runs == m0.runs + 1 && m1.fails
                        == 0
                    &&& takes_own(q0, v1.queues, p, task) || has_none(q0, p) && takes_global(
                        q0,
                        v1.queues,
                        p,
                        task,
                    )
                },
                _ => {
                    &&& v1 == base
                    &&& has_none(q0, p)
                    &&& q0.global.len() > 0 ==> m1 == m0 && s.action == Action::Continue
                    &&& q0.global.len() == 0 ==> m1 == (MachineRun { phase: Phase::Others, ..m0 })
                        && s.action == Action::QuickPoll
                },
            }
        }),
{
    let p = v0.fleet.machines[i].processor as int;
    identifier_names_one_machine(v0.fleet, i);
    machines_hold_existing_processors(v0.fleet, v0.cpus(), m0.id);
    putting_replaces_one_machine(
        v0.fleet,
        Machine { progress: true, ..v0.fleet.machines[i] },
        i,
    );
    let r = match s.action {
        Action::Run(task) => Stolen::Success(task),
        _ => if m1 == m0 {
            Stolen::Retry
        } else {
            Stolen::Empty
        },
    };
    search_nearby_prefers_own_tasks(v0.queues, v1.queues, p, r);
}

/// Processor `p` took the task in its slot, or else went round all processors.
pub open spec fn takes_slot_or_around(
    q0: QueuesView,
    q1: QueuesView,
    p: int,
    start: int,
    task: u64,
) -> bool {
    ||| q0.local[p].slot == Some(task) && q1 == replaced(q0, p, q0.local[p].queue, None)
    ||| q0.local[p].slot is None && takes_around(q0, q1, p, start, task)
}

/// A machine that looks in its slot and at all processors runs the task in the slot, or else the
/// oldest task of the first processor with a queued task. It goes away empty-handed if and only if
/// there is none of these.
pub proof fn machine_runs_what_others_have(
    m0: MachineRun,
    v0: SchedulerView,
    start: int,
    m1: MachineRun,
    v1: SchedulerView,
    s: Step,
    i: int,
)
    requires
        v0.wf(),
        m0.phase is Others,
        m0.runs < 64,
        0 <= start < v0.cpus(),
        listed(v0.fleet, m0.id, i),
        machine_step(m0, v0, start, m1, v1, s),
    ensures
        ({
            let p = v0.fleet.machines[i].processor as int;
            let q0 = v0.queues;
            &&& !s.notify
            &&& v1 == (SchedulerView { queues: v1.queues, ..v0 })
            &&& match s.action {
                Action::Run(task) => {
                    &&& m1.id == m0.id && m1.phase is Begin && m1.runs == m0.runs + 1 && m1.fails
                        == 0
                    &&& takes_slot_or_around(q0, v1.queues, p, start, task)
                },
                _ => {
                    &&& v1 == v0
                    &&& s.action == Action::Continue
                    &&& q0.local[p].slot is None
                    &&& none_queued(q0)
                    &&& m1 == (MachineRun { phase: Phase::Miss, ..m0 })
                },
            }
        }),
{
    let p = v0.fleet.machines[i].processor as int;
    identifier_names_one_machine(v0.fleet, i);
    machines_hold_existing_processors(v0.fleet, v0.cpus(), m0.id);
    let r = match s.action {
        Action::Run(task) => Stolen::Success(task),
        _ => Stolen::Empty,
    };
    search_in_slot_then_round(v0.queues, v1.queues, p, start, r);
}

/// A machine that found nothing yields three times in a row, then sleeps for ten microseconds once,
/// and from then on tries to wait for I/O events each time. Nothing else changes.
pub proof fn machine_without_tasks_yields_sleeps_and_claims(
    m0: MachineRun,
    v0: SchedulerView,
    start: int,
    m1: MachineRun,
    v1: SchedulerView,
    s: Step,
    i: int,
)
    requires
        v0.wf(),
        m0.phase is Miss,
        m0.fails <= 5,
        listed(v0.fleet, m0.id, i),
        machine_step(m0, v0, start, m1, v1, s),
    ensures
        v1 == v0,
        !s.notify,
        m1.id == m0.id,
        m1.runs == 0,
        m1.fails == if m0.fails < 5 {
            m0.fails + 1
        } else {
            5
        },
        m0.fails < 3 ==> s.action == Action::Yield && m1.phase is Begin,
        m0.fails == 3 ==> s.action == Action::Sleep(10) && m1.phase is Begin,
        m0.fails >= 4 ==> s.action == Action::Continue && m1.phase is Claim,
{
    identifier_names_one_machine(v0.fleet, i);
}

/// The right to wait for I/O events goes to the first machine that claims it. Another machine
/// that claims it makes its processor idle and ends.
pub proof fn second_claim_ends_the_machine(
    m0: MachineRun,
    v0: SchedulerView,
    start: int,
    m1: MachineRun,
    v1: SchedulerView,
    s: Step,
    i: int,
)
    requires
        v0.wf(),
        m0.phase is Claim,
        listed(v0.fleet, m0.id, i),
        machine_step(m0, v0, start, m1, v1, s),
    ensures
        !s.notify,
        !v0.deep_sleep ==> {
            &&& s.action == Action::Continue
            &&& m1 == (MachineRun { phase: Phase::NearbyAgain, ..m0 })
            &&& v1 == (SchedulerView { deep_sleep: true, ..v0 })
        },
        v0.deep_sleep ==> {
            let f = v0.fleet;
            &&& s.action == Action::Exit
            &&& m1 == (MachineRun { phase: Phase::Done, ..m0 })
            &&& v1 == (SchedulerView {
                fleet: FleetView {
                    idle: f.idle + seq![f.machines[i].processor],
                    machines: f.machines.update(i, f.machines.last()).subrange(
                        0,
                        f.machines.len() - 1,
                    ),
                    ..f
                },
                ..v0
            })
        },
{
    identifier_names_one_machine(v0.fleet, i);
    dropped_machine_frees_its_processor(v0.fleet, i);
}

/// Having the right to sleep, a machine looks nearby once more, and makes progress. A task that it
/// finds is run, and the right is given up. Otherwise the reactor is polled before it looks
/// further.
pub proof fn machine_looks_nearby_before_it_sleeps(
    m0: MachineRun,
    v0: SchedulerView,
    start: int,
    m1: MachineRun,
    v1: SchedulerView,
    s: Step,
    i: int,
)
    requires
        v0.wf(),
        m0.phase is NearbyAgain,
        m0.runs < 64,
        listed(v0.fleet, m0.id, i),
        machine_step(m0, v0, start, m1, v1, s),
    ensures
        ({
            let p = v0.fleet.machines[i].processor as int;
            let q0 = v0.queues;
            let base = marked(v0, i, Machine { progress: true, ..v0.fleet.machines[i] });
            &&& !s.notify
            &&& match s.action {
                Action::Run(task) => {
                    &&& m1.id == m0.id && m1.phase is Begin && m1.runs == m0.runs + 1 && m1.fails
                        == 0
                    &&& v1 == (SchedulerView { queues: v1.queues, deep_sleep: false, ..base })
                    &&& takes_own(q0, v1.queues, p, task) || has_none(q0, p) && takes_global(
                        q0,
                        v1.queues,
                        p,
                        task,
                    )
                },
                _ => {
                    &&& v1 == base
                    &&& has_none(q0, p)
                    &&& q0.global.len() > 0 ==> m1 == m0 && s.action == Action::Continue
                    &&& q0.global.len() == 0 ==> s.action == Action::QuickPoll && m1 == (
                    MachineRun { phase: Phase::OthersAgain, ..m0 })
                },
            }
        }),
{
    let p = v0.fleet.machines[i].processor as int;
    identifier_names_one_machine(v0.fleet, i);
    machines_hold_existing_processors(v0.fleet, v0.cpus(), m0.id);
    putting_replaces_one_machine(
        v0.fleet,
        Machine { progress: true, ..v0.fleet.machines[i] },
        i,
    );
    match s.action {
        Action::Run(task) => search_nearby_prefers_own_tasks(
            v0.queues,
            v1.queues,
            p,
            Stolen::Success(task),
        ),
        Action::Continue => search_nearby_prefers_own_tasks(
            v0.queues,
            v0.queues,
            p,
            Stolen::Retry,
        ),
        _ => search_nearby_prefers_own_tasks(v0.queues, v0.queues, p, Stolen::Empty),
    }
}

/// The scheduler with one more sleep counted, from zero again after the largest number.
pub open spec fn one_more_sleep(v: SchedulerView) -> usize {
    if v.ticker == usize::MAX {
        0
    } else {
        (v.ticker + 1) as usize
    }
}

/// Having the right to sleep, a machine looks in its slot and at all processors once more. A task
/// that it finds is run, and the right is given up. It sleeps if and only if there is none; it is
/// marked as sleeping then, and the sleep is counted.
pub proof fn machine_looks_at_others_before_it_sleeps(
    m0: MachineRun,
    v0: SchedulerView,
    start: int,
    m1: MachineRun,
    v1: SchedulerView,
    s: Step,
    i: int,
)
    requires
        v0.wf(),
        m0.phase is OthersAgain,
        m0.runs < 64,
        0 <= start < v0.cpus(),
        listed(v0.fleet, m0.id, i),
        machine_step(m0, v0, start, m1, v1, s),
    ensures
        ({
            let p = v0.fleet.machines[i].processor as int;
            let q0 = v0.queues;
            &&& !s.notify
            &&& match s.action {
                Action::Run(task) => {
                    &&& m1.id == m0.id && m1.phase is Begin && m1.runs == m0.runs + 1 && m1.fails
                        == 0
                    &&& v1 == (SchedulerView { queues: v1.queues, deep_sleep: false, ..v0 })
                    &&& takes_slot_or_around(q0, v1.queues, p, start, task)
                },
                _ => {
                    &&& s.action == Action::Block
                    &&& q0.local[p].slot is None
                    &&& none_queued(q0)
                    &&& m1 == (MachineRun { phase: Phase::Wake, ..m0 })
                    &&& v1 == (SchedulerView {
                        ticker: one_more_sleep(v0),
                        ..marked(v0, i, Machine { polling: true, ..v0.fleet.machines[i] })
                    })
                },
            }
        }),
{
    let p = v0.fleet.machines[i].processor as int;
    identifier_names_one_machine(v0.fleet, i);
    machines_hold_existing_processors(v0.fleet, v0.cpus(), m0.id);
    putting_replaces_one_machine(
        v0.fleet,
        Machine { polling: true, ..v0.fleet.machines[i] },
        i,
    );
    match s.action {
        Action::Run(task) => search_in_slot_then_round(
            v0.queues,
            v1.queues,
            p,
            start,
            Stolen::Success(task),
        ),
        _ => search_in_slot_then_round(v0.queues, v0.queues, p, start, Stolen::Empty),
    }
}

/// A machine that stops waiting is no longer marked so, gives up the right to wait, and begins
/// another round. A thread that has ended does nothing.
pub proof fn waking_machine_gives_up_the_right(
    m0: MachineRun,
    v0: SchedulerView,
    start: int,
    m1: MachineRun,
    v1: SchedulerView,
    s: Step,
    i: int,
)
    requires
        v0.wf(),
        machine_step(m0, v0, start, m1, v1, s),
    ensures
        m0.phase is Wake ==> s == (Step { notify: false, action: Action::Continue }) && m1 == (
        MachineRun { phase: Phase::Begin, ..m0 }),
        m0.phase is Wake && listed(v0.fleet, m0.id, i) ==> v1 == (SchedulerView {
            deep_sleep: false,
            ..marked(v0, i, Machine { polling: false, ..v0.fleet.machines[i] })
        }),
        m0.phase is Wake && absent(v0.fleet, m0.id) ==> v1 == (SchedulerView {
            deep_sleep: false,
            ..v0
        }),
        m0.phase is Done ==> m1 == m0 && v1 == v0 && s == (Step {
            notify: false,
            action: Action::Exit,
        }),
{
    machines_are_found_by_their_identifiers(v0.fleet, m0.id);
    if listed(v0.fleet, m0.id, i) {
        identifier_names_one_machine(v0.fleet, i);
        putting_replaces_one_machine(
            v0.fleet,
            Machine { polling: false, ..v0.fleet.machines[i] },
            i,
        );
    }
}

/// A machine that has lost its processor runs nothing and touches no queue and no other machine. It
/// ends as soon as it has looked for tasks in vain, unless it has just claimed the right to
/// wait for I/O events: then it does so once.
pub proof fn machine_without_processor_runs_nothing(
    m0: MachineRun,
    v0: SchedulerView,
    start: int,
    m1: MachineRun,
    v1: SchedulerView,
    s: Step,
)
    requires
        v0.wf(),
        absent(v0.fleet, m0.id),
        machine_step(m0, v0, start, m1, v1, s),
    ensures
        v1.queues == v0.queues,
        v1.fleet == v0.fleet,
        !s.notify,
        m1.id == m0.id,
        match m0.phase {
            Phase::Begin => v1 == v0 && if m0.runs >= 64 {
                m1.phase is Refill && s.action == Action::QuickPoll
            } else {
                m1.phase is Nearby && s.action == Action::Continue
            },
            Phase::Refill => v1 == v0 && m1.phase is Nearby && s.action == Action::Continue,
            Phase::Nearby => v1 == v0 && m1.phase is Miss && s.action == Action::Continue,
            Phase::Others => v1 == v0 && m1.phase is Miss && s.action == Action::Continue,
            Phase::Miss => v1 == v0 && m1.phase is Done && s.action == Action::Exit,
            Phase::Claim => if v0.deep_sleep {
                v1 == v0 && m1.phase is Done && s.action == Action::Exit
            } else {
                v1 == (SchedulerView { deep_sleep: true, ..v0 }) && m1.phase is NearbyAgain
                    && s.action == Action::Continue
            },
            Phase::NearbyAgain => v1 == (SchedulerView { ticker: one_more_sleep(v0), ..v0 })
                && m1.phase is Wake && s.action == Action::Block,
            Phase::OthersAgain => v1 == (SchedulerView { ticker: one_more_sleep(v0), ..v0 })
                && m1.phase is Wake && s.action == Action::Block,
            Phase::Wake => v1 == (SchedulerView { deep_sleep: false, ..v0 }) && m1.phase is Begin
                && s.action == Action::Continue,
            Phase::Done => v1 == v0 && m1 == m0 && s.action == Action::Exit,
        },
{
    machines_are_found_by_their_identifiers(v0.fleet, m0.id);
}

/// A machine that is started takes the last idle processor, if there is one, and nothing else
/// changes.
pub proof fn launching_takes_an_idle_processor(v: SchedulerView)
    requires
        v.wf(),
        v.fleet.next_id < u64::MAX,
    ensures
        ({
            let w = v.launched();
            let n = v.fleet.machines.len() as int;
            &&& w == (SchedulerView { fleet: w.fleet, ..v })
            &&& v.fleet.idle.len() == 0 ==> w == v
            &&& v.fleet.idle.len() > 0 ==> {
                &&& w.fleet.idle == v.fleet.idle.subrange(0, v.fleet.idle.len() - 1)
                &&& w.fleet.machines.len() == n + 1
                &&& w.fleet.machines.subrange(0, n) == v.fleet.machines
                &&& w.fleet.machines[n].id == v.fleet.next_id
                &&& w.fleet.machines[n].processor == v.fleet.idle.last()
                &&& about_to_start(w.fleet.machines[n])
                &&& w.fleet.next_id == v.fleet.next_id + 1
            }
        }),
{
    spinning_up_takes_an_idle_processor(v.fleet);
}

/// A round of the scheduler thread checks every machine: each one that was silent since the last
/// check loses its processor to a machine that is started, and the others keep theirs. If no
/// machine sleeps, and none went to sleep since the last round, the last idle processor gets a
/// machine too. Nothing else changes.
pub proof fn rounds_relieve_the_silent(v: SchedulerView, tick: usize)
    requires
        v.wf(),
        v.fleet.next_id + v.fleet.machines.len() < u64::MAX,
    ensures
        ({
            let w = v.supervised(tick);
            let f = v.fleet;
            let n = f.machines.len() as int;
            let one_more = tick == v.ticker && !v.deep_sleep && f.idle.len() > 0;
            &&& w == (SchedulerView { fleet: w.fleet, ..v })
            &&& w.fleet.parked == f.parked
            &&& all_checked(f, w.fleet)
            &&& new_ones_start(f, w.fleet)
            &&& v.machines_to_start(tick) == w.fleet.next_id - f.next_id
            &&& one_more ==> {
                &&& w.fleet.idle == f.idle.subrange(0, f.idle.len() - 1)
                &&& w.fleet.machines.len() == n + 1
                &&& w.fleet.machines[n].processor == f.idle.last()
                &&& w.fleet.machines[n].id == w.fleet.next_id - 1
                &&& about_to_start(w.fleet.machines[n])
            }
            &&& !one_more ==> w.fleet.idle == f.idle && w.fleet.machines.len() == n
        }),
{
    let f = v.fleet;
    let r = f.all_relieved();
    let w = v.supervised(tick).fleet;
    let n = f.machines.len() as int;
    relieving_checks_every_machine(f, v.cpus());
    relieving_keeps_wf(f, v.cpus());
    stuck_among_is_bounded(f.machines, 0, n);
    spinning_up_keeps_wf(r, v.cpus());
    spinning_up_takes_an_idle_processor(r);
    if tick == v.ticker && !v.deep_sleep && f.idle.len() > 0 {
        assert forall|j: int| 0 <= j < n implies #[trigger] w.machines[j] == r.machines[j] by {
            assert(w.machines.subrange(0, n)[j] == r.machines[j]);
        }
        assert forall|i: int| 0 <= i < n && silent(#[trigger] f.machines[i]) implies absent(
            w,
            f.machines[i].id,
        ) by {
            assert(absent(r, f.machines[i].id));
            assert(f.machines[i].id < f.next_id);
            assert forall|j: int| 0 <= j < w.machines.len() implies (#[trigger] w.machines[j]).id
                != f.machines[i].id by {
                if j < n {
                    assert(r.machines[j].id != f.machines[i].id);
                }
            }
        }
        assert forall|id: u64| f.next_id <= id < w.next_id implies (#[trigger] w.find(
            id,
        ) matches Some(m) && m.id == id && about_to_start(m)) && exists|i: int| #[trigger]
            listed(w, id, i) by {
            if id < r.next_id {
                assert(r.find(id) is Some);
                let i = choose|i: int| #[trigger] listed(r, id, i);
                assert(w.machines[i] == r.machines[i]);
                assert(listed(w, id, i));
                identifier_names_one_machine(w, i);
                identifier_names_one_machine(r, i);
            } else {
                assert(listed(w, id, n));
                identifier_names_one_machine(w, n);
            }
        }
    }
}

/// A machine thread begins with a round, and has counted nothing.
pub proof fn threads_begin_with_a_round(id: u64)
    ensures
        MachineRun::initial(id).id == id,
        MachineRun::initial(id).phase is Begin,
        MachineRun::initial(id).runs == 0,
        MachineRun::initial(id).fails == 0,
{
}

/// The numbers by which machines and the scheduler thread go.
pub proof fn numbers_of_the_pool()
    ensures
        RUNS == 64,
        YIELDS == 3,
        SLEEPS == 1,
        SHORT_SLEEP == 10,
        ROUND == 10_000,
{
}

/// A new pool has idle processors and nothing else.
pub proof fn new_pool_is_idle(cpus: nat, p: int)
    ensures
        ({
            let v = SchedulerView::initial(cpus);
            &&& v.cpus() == cpus
            &&& v.queues.global.len() == 0
            &&& none_queued(v.queues)
            &&& 0 <= p < cpus ==> v.queues.local[p].slot is None
            &&& v.fleet.idle.len() == cpus
            &&& 0 <= p < cpus <= usize::MAX ==> v.fleet.idle[p] == p
            &&& v.fleet.machines.len() == 0
            &&& v.fleet.parked is None
            &&& v.ticker == 0
            &&& !v.deep_sleep
        }),
{
}

} // verus!

//! The pool: its state, and the steps by which a machine thread and the scheduler thread change it.
//!
//! A step is a decision. What it cannot do itself (run a task, sleep, poll for I/O events) it
//! returns as an action, and the thread that performs the action then asks for the next step. The
//! state is meant to be kept behind a lock, which is held for a step and not for an action.

use crate::action::{Action, Step, RUNS, SHORT_SLEEP, SLEEPS, YIELDS};
use crate::cpus::{at_least_one, available};
use crate::crew::{
    blocking_thread_keeps_its_processor, crews_always_match, starts_keep_the_match,
    steps_keep_the_match, threads_are_never_forgotten, Crew, Thread,
};
use crate::fleet::{
    identifier_names_one_machine, initial_fleet_is_wf, machines_hold_existing_processors,
    overseeing_is_transitive, position, progress_keeps_the_processor, putting_keeps_the_others,
    putting_keeps_wf, relieving_keeps_wf, relieving_oversees, spinning_down_keeps_the_others,
    spinning_down_keeps_wf, spinning_up_keeps_wf, spinning_up_oversees, stuck_among,
    stuck_among_is_bounded, stuck_machine_is_relieved, Fleet, FleetView, Machine,
};
use crate::history::{changes, every_task_is_handed_out_or_waits, handed_out, scheduled, Change};
use crate::processor::{
    empty_queues_hold_no_task, finding_in_slot_or_others_takes_one_task,
    finding_nearby_takes_one_task, flushing_keeps_the_tasks, found_in_slot_or_others,
    found_nearby, pushing_adds_the_task, refilled, refilling_keeps_the_tasks,
    scheduling_adds_the_task, Queues, QueuesView,
};
use crate::queue::{Moved, Stolen};
use crate::tracing::rt::machine_scheduled_task;
use vstd::multiset::Multiset;
use vstd::prelude::*;

verus! {

/// The time between two rounds of the scheduler thread, in microseconds.
pub const ROUND: u64 = 10_000;

/// The state of a scheduler.
pub struct Scheduler {
    /// The global queue of tasks, and those of the processors.
    queues: Queues,
    /// The pool: machines with assigned processors, and idle processors.
    fleet: Fleet,
    /// Counts how often a machine went to sleep, and begins anew when it has counted as far as it
    /// can.
    ticker: usize,
    /// Set to `true` while a machine is about to wait, or is waiting, for I/O events.
    deep_sleep: bool,
}

/// The state of a scheduler.
#[verifier::ext_equal]
pub struct SchedulerView {
    pub queues: QueuesView,
    pub fleet: FleetView,
    pub ticker: usize,
    pub deep_sleep: bool,
}

impl SchedulerView {
    /// A scheduler in which nothing has happened yet.
    pub open spec fn initial(cpus: nat) -> SchedulerView {
        SchedulerView {
            queues: QueuesView::empty(cpus),
            fleet: FleetView::initial(cpus),
            ticker: 0,
            deep_sleep: false,
        }
    }

    /// The number of processors.
    pub open spec fn cpus(self) -> nat {
        self.queues.local.len()
    }

    /// There is a processor, and each one is idle or held by a machine.
    pub open spec fn wf(self) -> bool {
        &&& self.cpus() >= 1
        &&& self.fleet.wf(self.cpus())
        &&& self.fleet.parked is None
    }

    /// All tasks that wait to be run, each as often as it occurs.
    pub open spec fn tasks(self) -> Multiset<u64> {
        self.queues.tasks()
    }

    /// The processor of the machine that runs on the current thread, if any.
    pub open spec fn current_processor(self, current: Option<u64>) -> Option<usize> {
        match current {
            Some(id) => match self.fleet.find(id) {
                Some(m) => Some(m.processor),
                None => None,
            },
            None => None,
        }
    }

    /// A task scheduled from the current thread: on the processor of its machine, or else in the
    /// global queue.
    pub open spec fn scheduled(self, current: Option<u64>, task: u64) -> SchedulerView {
        let queues = match self.current_processor(current) {
            Some(p) => self.queues.scheduled(p as int, task),
            None => self.queues.pushed(task),
        };
        SchedulerView { queues, ..self }
    }

    /// Scheduling a task puts one into a queue, where other threads can find it, while a machine is
    /// waiting for I/O events.
    pub open spec fn scheduling_notifies(self, current: Option<u64>) -> bool {
        self.deep_sleep && match self.current_processor(current) {
            Some(p) => self.queues.local[p as int].slot is Some,
            None => true,
        }
    }

    /// A machine has made progress.
    pub open spec fn progressed(self, id: u64) -> SchedulerView {
        match self.fleet.find(id) {
            Some(m) => SchedulerView {
                fleet: self.fleet.put(Machine { progress: true, ..m }),
                ..self
            },
            None => self,
        }
    }

    /// A machine goes to sleep, or has woken up.
    pub open spec fn asleep(self, id: u64, polling: bool) -> SchedulerView {
        match self.fleet.find(id) {
            Some(m) => SchedulerView { fleet: self.fleet.put(Machine { polling, ..m }), ..self },
            None => self,
        }
    }

    /// A machine goes to sleep, and that is counted.
    pub open spec fn gone_to_sleep(self, id: u64) -> SchedulerView {
        SchedulerView {
            ticker: if self.ticker == usize::MAX {
                0
            } else {
                (self.ticker + 1) as usize
            },
            ..self.asleep(id, true)
        }
    }

    /// A machine started on an idle processor, if there is one.
    pub open spec fn launched(self) -> SchedulerView {
        SchedulerView { fleet: self.fleet.spun_up(), ..self }
    }

    /// A round of the scheduler thread: machines that are stuck lose their processors to new ones,
    /// and if no machine sleeps, and none went to sleep since the last round, one more starts.
    pub open spec fn supervised(self, tick: usize) -> SchedulerView {
        let fleet = self.fleet.all_relieved();
        SchedulerView {
            fleet: if tick == self.ticker && !self.deep_sleep {
                fleet.spun_up()
            } else {
                fleet
            },
            ..self
        }
    }

    /// How many machines such a round starts.
    pub open spec fn machines_to_start(self, tick: usize) -> nat {
        let stuck = stuck_among(self.fleet.machines, self.fleet.machines.len() as int);
        if tick == self.ticker && !self.deep_sleep && self.fleet.idle.len() > 0 {
            stuck + 1
        } else {
            stuck
        }
    }
}

/// How far a machine thread is in its loop.
#[derive(Clone, Copy, Debug, PartialEq, Eq, Structural)]
pub enum Phase {
    /// Begin another round.
    Begin,
    /// Give the global queue its turn.
    Refill,
    /// Look for a task nearby.
    Nearby,
    /// Look for a task in the slot, and at the other processors.
    Others,
    /// No task was found.
    Miss,
    /// No task was found for some time.
    Claim,
    /// Look for a task nearby once more, before going to sleep.
    NearbyAgain,
    /// Look for a task in the slot, and at the other processors, once more, before going to sleep.
    OthersAgain,
    /// Waiting for I/O events is over.
    Wake,
    /// The thread has ended.
    Done,
}

/// The loop of a machine thread.
#[derive(Clone, Copy, Debug, PartialEq, Eq, Structural)]
pub struct MachineRun {
    /// The machine.
    pub id: u64,
    /// How far the thread is.
    pub phase: Phase,
    /// The number of times the thread found work in a row.
    pub runs: u32,
    /// The number of times the thread didn't find work in a row, as far as it is counted.
    pub fails: u32,
}

impl MachineRun {
    /// A state that can be reached.
    pub open spec fn wf(self) -> bool {
        &&& self.runs <= RUNS
        &&& self.runs == RUNS ==> self.phase is Begin
        &&& self.fails <= YIELDS + SLEEPS + 1
    }

    /// The state in which a machine thread starts.
    pub open spec fn initial(id: u64) -> MachineRun {
        MachineRun { id, phase: Phase::Begin, runs: 0, fails: 0 }
    }

    /// Another phase.
    pub open spec fn at(self, phase: Phase) -> MachineRun {
        MachineRun { phase, ..self }
    }

    /// A task was found.
    pub open spec fn found(self) -> MachineRun {
        MachineRun { phase: Phase::Begin, runs: (self.runs + 1) as u32, fails: 0, ..self }
    }

    /// The thread has the right to wait for I/O events.
    pub open spec fn claims_sleep(self) -> bool {
        self.phase is NearbyAgain || self.phase is OthersAgain || self.phase is Wake
    }
}

/// A step that gives the global queue its turn: a batch of tasks from it, and then the task in the
/// slot, go to the back of the local queue.
pub open spec fn refill_step(
    m0: MachineRun,
    v0: SchedulerView,
    m1: MachineRun,
    v1: SchedulerView,
    s: Step,
) -> bool {
    let next = m0.at(Phase::Nearby);
    &&& s == (Step { notify: false, action: Action::Continue })
    &&& match v0.fleet.find(m0.id) {
        None => m1 == next && v1 == v0,
        Some(m) => {
            let p = m.processor as int;
            ||| v0.queues.global.len() > 0 && m1 == m0 && v1 == v0
            ||| {
                &&& m1 == next
                &&& exists|q: QueuesView, r: Moved|
                    {
                        &&& #[trigger] refilled(v0.queues, q, p, r)
                        &&& !(r is Retry)
                        &&& v1 == (SchedulerView { queues: q.flushed(p), ..v0 })
                    }
            }
        },
    }
}

/// A step that looks for a task nearby.
pub open spec fn nearby_step(
    m0: MachineRun,
    v0: SchedulerView,
    m1: MachineRun,
    v1: SchedulerView,
    s: Step,
) -> bool {
    &&& !s.notify
    &&& match v0.fleet.find(m0.id) {
        None => m1 == m0.at(Phase::Miss) && v1 == v0 && s.action == Action::Continue,
        Some(m) => {
            let p = m.processor as int;
            &&& v1 == (SchedulerView { queues: v1.queues, ..v0.progressed(m0.id) })
            &&& match s.action {
                Action::Run(task) => m1 == m0.found() && found_nearby(
                    v0.queues,
                    v1.queues,
                    p,
                    Stolen::Success(task),
                ),
                Action::Continue => m1 == m0 && found_nearby(
                    v0.queues,
                    v1.queues,
                    p,
                    Stolen::Retry,
                ),
                _ => m1 == m0.at(Phase::Others) && s.action == Action::QuickPoll && found_nearby(
                    v0.queues,
                    v1.queues,
                    p,
                    Stolen::Empty,
                ),
            }
        },
    }
}

/// A step that looks for a task in the slot, and at the other processors.
pub open spec fn others_step(
    m0: MachineRun,
    v0: SchedulerView,
    start: int,
    m1: MachineRun,
    v1: SchedulerView,
    s: Step,
) -> bool {
    let next = m0.at(Phase::Miss);
    &&& !s.notify
    &&& match v0.fleet.find(m0.id) {
        None => m1 == next && v1 == v0 && s.action == Action::Continue,
        Some(m) => {
            let p = m.processor as int;
            &&& v1 == (SchedulerView { queues: v1.queues, ..v0 })
            &&& match s.action {
                Action::Run(task) => m1 == m0.found() && found_in_slot_or_others(
                    v0.queues,
                    v1.queues,
                    p,
                    start,
                    Stolen::Success(task),
                ),
                _ => m1 == next && s.action == Action::Continue && found_in_slot_or_others(
                    v0.queues,
                    v1.queues,
                    p,
                    start,
                    Stolen::Empty,
                ),
            }
        },
    }
}

/// A step after no task was found: the thread yields a few times, sleeps a few times, and then
/// tries to wait for I/O events. Without a processor it ends.
pub open spec fn miss_step(m0: MachineRun, v0: SchedulerView, m1: MachineRun, s: Step) -> bool {
    let fails = if m0.fails <= YIELDS + SLEEPS {
        (m0.fails + 1) as u32
    } else {
        m0.fails
    };
    &&& !s.notify
    &&& if v0.fleet.find(m0.id) is None {
        m1 == m0.at(Phase::Done) && s.action == Action::Exit
    } else if fails <= YIELDS {
        &&& s.action == Action::Yield
        &&& m1 == (MachineRun { phase: Phase::Begin, runs: 0, fails, ..m0 })
    } else if fails <= YIELDS + SLEEPS {
        &&& s.action == Action::Sleep(SHORT_SLEEP)
        &&& m1 == (MachineRun { phase: Phase::Begin, runs: 0, fails, ..m0 })
    } else {
        &&& s.action == Action::Continue
        &&& m1 == (MachineRun { phase: Phase::Claim, runs: 0, fails, ..m0 })
    }
}

/// A step that claims the right to wait for I/O events. If another machine has it, this one gives
/// its processor back and ends.
pub open spec fn claim_step(
    m0: MachineRun,
    v0: SchedulerView,
    m1: MachineRun,
    v1: SchedulerView,
    s: Step,
) -> bool {
    &&& !s.notify
    &&& if v0.deep_sleep {
        &&& s.action == Action::Exit
        &&& m1 == m0.at(Phase::Done)
        &&& v1 == match position(v0.fleet.machines, m0.id) {
            Some(i) => SchedulerView { fleet: v0.fleet.spun_down(i), ..v0 },
            None => v0,
        }
    } else {
        &&& s.action == Action::Continue
        &&& m1 == m0.at(Phase::NearbyAgain)
        &&& v1 == (SchedulerView { deep_sleep: true, ..v0 })
    }
}

/// A step that looks for a task nearby once more. Without a processor the machine goes to sleep at
/// once.
pub open spec fn nearby_again_step(
    m0: MachineRun,
    v0: SchedulerView,
    m1: MachineRun,
    v1: SchedulerView,
    s: Step,
) -> bool {
    &&& !s.notify
    &&& match v0.fleet.find(m0.id) {
        None => {
            &&& m1 == m0.at(Phase::Wake)
            &&& v1 == v0.gone_to_sleep(m0.id)
            &&& s.action == Action::Block
        },
        Some(m) => {
            let p = m.processor as int;
            match s.action {
                Action::Run(task) => {
                    &&& m1 == m0.found()
                    &&& v1 == (SchedulerView {
                        queues: v1.queues,
                        deep_sleep: false,
                        ..v0.progressed(m0.id)
                    })
                    &&& found_nearby(v0.queues, v1.queues, p, Stolen::Success(task))
                },
                Action::Continue => {
                    &&& m1 == m0
                    &&& v1 == v0.progressed(m0.id)
                    &&& found_nearby(v0.queues, v0.queues, p, Stolen::Retry)
                },
                _ => {
                    &&& s.action == Action::QuickPoll
                    &&& m1 == m0.at(Phase::OthersAgain)
                    &&& v1 == v0.progressed(m0.id)
                    &&& found_nearby(v0.queues, v0.queues, p, Stolen::Empty)
                },
            }
        },
    }
}

/// A step that looks for a task in the slot, and at the other processors, once more, and if there
/// is none, goes to sleep.
pub open spec fn others_again_step(
    m0: MachineRun,
    v0: SchedulerView,
    start: int,
    m1: MachineRun,
    v1: SchedulerView,
    s: Step,
) -> bool {
    let asleep = m1 == m0.at(Phase::Wake) && v1 == v0.gone_to_sleep(m0.id) && s.action
        == Action::Block;
    &&& !s.notify
    &&& match v0.fleet.find(m0.id) {
        None => asleep,
        Some(m) => {
            let p = m.processor as int;
            match s.action {
                Action::Run(task) => {
                    &&& m1 == m0.found()
                    &&& v1 == (SchedulerView { queues: v1.queues, deep_sleep: false, ..v0 })
                    &&& found_in_slot_or_others(
                        v0.queues,
                        v1.queues,
                        p,
                        start,
                        Stolen::Success(task),
                    )
                },
                _ => asleep && found_in_slot_or_others(
                    v0.queues,
                    v0.queues,
                    p,
                    start,
                    Stolen::Empty,
                ),
            }
        },
    }
}

/// A step of a machine thread.
pub open spec fn machine_step(
    m0: MachineRun,
    v0: SchedulerView,
    start: int,
    m1: MachineRun,
    v1: SchedulerView,
    s: Step,
) -> bool {
    match m0.phase {
        Phase::Begin => {
            &&& v1 == v0
            &&& !s.notify
            &&& if m0.runs >= RUNS {
                &&& m1 == (MachineRun { phase: Phase::Refill, runs: 0, ..m0 })
                &&& s.action == Action::QuickPoll
            } else {
                m1 == m0.at(Phase::Nearby) && s.action == Action::Continue
            }
        },
        Phase::Refill => refill_step(m0, v0, m1, v1, s),
        Phase::Nearby => nearby_step(m0, v0, m1, v1, s),
        Phase::Others => others_step(m0, v0, start, m1, v1, s),
        Phase::Miss => v1 == v0 && miss_step(m0, v0, m1, s),
        Phase::Claim => claim_step(m0, v0, m1, v1, s),
        Phase::NearbyAgain => nearby_again_step(m0, v0, m1, v1, s),
        Phase::OthersAgain => others_again_step(m0, v0, start, m1, v1, s),
        Phase::Wake => {
            &&& m1 == m0.at(Phase::Begin)
            &&& s == (Step { notify: false, action: Action::Continue })
            &&& v1 == (SchedulerView { deep_sleep: false, ..v0.asleep(m0.id, false) })
        },
        Phase::Done => m1 == m0 && v1 == v0 && s == (Step { notify: false, action: Action::Exit }),
    }
}

/// A step hands out a task, and then that task is gone, once; any other step keeps all tasks. The
/// processors stay as many as they are.
pub open spec fn tasks_after_step(v0: SchedulerView, v1: SchedulerView, action: Action) -> bool {
    &&& v1.cpus() == v0.cpus()
    &&& match action {
        Action::Run(task) => v0.tasks() == v1.tasks().insert(task),
        _ => v1.tasks() == v0.tasks(),
    }
}

impl View for Scheduler {
    type V = SchedulerView;

    closed spec fn view(&self) -> SchedulerView {
        SchedulerView {
            queues: self.queues@,
            fleet: self.fleet@,
            ticker: self.ticker,
            deep_sleep: self.deep_sleep,
        }
    }
}

impl Scheduler {
    /// The queues are in order.
    pub closed spec fn queues_wf(&self) -> bool {
        self.queues.wf()
    }

    pub open spec fn wf(&self) -> bool {
        self.queues_wf() && self@.wf()
    }

    /// Creates a new scheduler, with a processor for every CPU.
    pub fn new() -> (sched: Scheduler)
        ensures
            sched.wf(),
            sched@ == SchedulerView::initial(sched@.cpus()),
            sched@.tasks() == Multiset::<u64>::empty(),
    {
        Scheduler::with_processors(available())
    }

    /// Creates a new scheduler with some number of processors, but at least one.
    pub fn with_processors(cpus: usize) -> (sched: Scheduler)
        ensures
            sched.wf(),
            sched@ == SchedulerView::initial(sched@.cpus()),
            sched@.cpus() == if cpus >= 1 {
                cpus as nat
            } else {
                1
            },
            sched@.tasks() == Multiset::<u64>::empty(),
    {
        let cpus: usize = at_least_one(cpus);
        let sched = Scheduler {
            queues: Queues::new(cpus),
            fleet: Fleet::new(cpus),
            ticker: 0,
            deep_sleep: false,
        };
        proof {
            initial_fleet_is_wf(cpus as nat);
            empty_queues_hold_no_task(cpus as nat);
        }
        sched
    }

    /// The number of processors.
    pub fn cpus(&self) -> (n: usize)
        ensures
            n == self@.cpus(),
    {
        self.queues.cpus()
    }

    /// Says whether identifiers are left for the machines that one more round may start.
    pub fn can_start_machines(&self) -> (r: bool)
        ensures
            r == (self@.fleet.next_id + self@.fleet.machines.len() < u64::MAX),
    {
        let n: u64 = self.fleet.len() as u64;
        n < u64::MAX && self.fleet.can_start(n + 1)
    }

    /// Takes an idle processor and spins up a machine to run it.
    pub fn spin_up(&mut self) -> (started: Option<u64>)
        requires
            old(self).wf(),
            old(self)@.fleet.next_id < u64::MAX,
        ensures
            final(self).wf(),
            final(self)@ == old(self)@.launched(),
            started == if old(self)@.fleet.idle.len() == 0 {
                None
            } else {
                Some(old(self)@.fleet.next_id)
            },
    {
        proof {
            spinning_up_keeps_wf(self@.fleet, self@.cpus());
        }
        self.fleet.spin_up()
    }

    /// Takes the processors of machines that are stuck on a task and not making any progress. New
    /// machines, which are returned, take over.
    pub fn check_stuck_machines(&mut self) -> (started: Vec<u64>)
        requires
            old(self).wf(),
            old(self)@.fleet.next_id + old(self)@.fleet.machines.len() <= u64::MAX,
        ensures
            final(self).wf(),
            final(self)@ == (SchedulerView {
                fleet: old(self)@.fleet.all_relieved(),
                ..old(self)@
            }),
            started@ == Seq::new(
                stuck_among(old(self)@.fleet.machines, old(self)@.fleet.machines.len() as int),
                |k: int| (old(self)@.fleet.next_id + k) as u64,
            ),
    {
        proof {
            relieving_keeps_wf(self@.fleet, self@.cpus());
        }
        self.fleet.relieve_all()
    }

    /// Runs the scheduler for one round: checks the running machines, and spins up another one if
    /// no machine sleeps and none went to sleep since the last round, at which the ticker stood at
    /// `tick`. The machines to start are returned.
    pub fn run(&mut self, tick: &mut usize) -> (started: Vec<u64>)
        requires
            old(self).wf(),
            old(self)@.fleet.next_id + old(self)@.fleet.machines.len() < u64::MAX,
        ensures
            final(self).wf(),
            final(self)@ == old(self)@.supervised(*old(tick)),
            *final(tick) == old(self)@.ticker,
            started@ == Seq::new(
                old(self)@.machines_to_start(*old(tick)),
                |k: int| (old(self)@.fleet.next_id + k) as u64,
            ),
    {
        proof {
            stuck_among_is_bounded(
                self@.fleet.machines,
                0,
                self@.fleet.machines.len() as int,
            );
        }
        let mut started = self.check_stuck_machines();
        let t: usize = self.ticker;
        if *tick != t {
            *tick = t;
        } else if !self.deep_sleep {
            if let Some(id) = self.spin_up() {
                started.push(id);
            }
        }
        started
    }

    /// The processor of a machine.
    fn processor(&self, id: u64) -> (r: Option<usize>)
        requires
            self.wf(),
        ensures
            match r {
                Some(p) => p < self@.cpus() && self@.fleet.find(id) is Some && self@.fleet.find(
                    id,
                )->0.processor == p,
                None => self@.fleet.find(id) is None,
            },
    {
        match self.fleet.find(id) {
            Some(m) => {
                proof {
                    machines_hold_existing_processors(self@.fleet, self@.cpus(), id);
                }
                Some(m.processor)
            },
            None => None,
        }
    }

    /// Notes that a machine has made progress.
    fn note_progress(&mut self, id: u64)
        requires
            old(self).wf(),
        ensures
            final(self).wf(),
            final(self)@ == old(self)@.progressed(id),
    {
        if let Some(m) = self.fleet.find(id) {
            let new = Machine { progress: true, ..m };
            proof {
                machines_hold_existing_processors(self@.fleet, self@.cpus(), id);
                putting_keeps_wf(self@.fleet, self@.cpus(), new);
            }
            self.fleet.put(new);
        }
    }

    /// Notes that a machine sleeps, or has woken up.
    fn note_sleeping(&mut self, id: u64, polling: bool)
        requires
            old(self).wf(),
        ensures
            final(self).wf(),
            final(self)@ == old(self)@.asleep(id, polling),
    {
        if let Some(m) = self.fleet.find(id) {
            let new = Machine { polling, ..m };
            proof {
                machines_hold_existing_processors(self@.fleet, self@.cpus(), id);
                putting_keeps_wf(self@.fleet, self@.cpus(), new);
            }
            self.fleet.put(new);
        }
    }

    /// Spins down a machine.
    pub fn spin_down(&mut self, id: u64)
        requires
            old(self).wf(),
        ensures
            final(self).wf(),
            final(self)@ == match position(old(self)@.fleet.machines, id) {
                Some(i) => SchedulerView { fleet: old(self)@.fleet.spun_down(i), ..old(self)@ },
                None => old(self)@,
            },
    {
        let ghost i = position(self@.fleet.machines, id);
        proof {
            if i is Some {
                spinning_down_keeps_wf(self@.fleet, self@.cpus(), i->0);
            }
        }
        self.fleet.spin_down(id);
    }
}

impl MachineRun {
    /// Begins the loop of a machine thread.
    pub fn new(id: u64) -> (m: MachineRun)
        ensures
            m == MachineRun::initial(id),
            m.wf(),
    {
        MachineRun { id, phase: Phase::Begin, runs: 0, fails: 0 }
    }

    /// Hands out a task that was found.
    fn run_task(&mut self, task: u64) -> (s: Step)
        requires
            old(self).wf(),
            old(self).runs < RUNS,
        ensures
            *final(self) == old(self).found(),
            final(self).wf(),
            s == (Step { notify: false, action: Action::Run(task) }),
    {
        self.phase = Phase::Begin;
        self.runs = self.runs + 1;
        self.fails = 0;
        Step { notify: false, action: Action::Run(task) }
    }

    /// Gives the global queue its turn.
    fn flush(&mut self, sched: &mut Scheduler) -> (s: Step)
        requires
            old(sched).wf(),
            old(self).wf(),
            old(self).phase is Refill,
        ensures
            final(sched).wf(),
            final(self).wf(),
            refill_step(*old(self), old(sched)@, *final(self), final(sched)@, s),
            tasks_after_step(old(sched)@, final(sched)@, s.action),
    {
        if let Some(p) = sched.processor(self.id) {
            let r = sched.queues.steal_batch(p);
            if let Moved::Retry = r {
                return Step { notify: false, action: Action::Continue };
            }
            proof {
                refilling_keeps_the_tasks(old(sched)@.queues, sched@.queues, p as int, r);
                flushing_keeps_the_tasks(sched@.queues, p as int);
            }
            sched.queues.flush_slot(p);
        }
        self.phase = Phase::Nearby;
        Step { notify: false, action: Action::Continue }
    }

    /// Looks for a task nearby.
    fn look_nearby(&mut self, sched: &mut Scheduler) -> (s: Step)
        requires
            old(sched).wf(),
            old(self).wf(),
            old(self).phase is Nearby,
        ensures
            final(sched).wf(),
            final(self).wf(),
            nearby_step(*old(self), old(sched)@, *final(self), final(sched)@, s),
            tasks_after_step(old(sched)@, final(sched)@, s.action),
    {
        match sched.processor(self.id) {
            None => {
                self.phase = Phase::Miss;
                Step { notify: false, action: Action::Continue }
            },
            Some(p) => {
                sched.note_progress(self.id);
                let r = sched.queues.find_nearby(p);
                proof {
                    finding_nearby_takes_one_task(old(sched)@.queues, sched@.queues, p as int, r);
                }
                match r {
                    Stolen::Success(task) => self.run_task(task),
                    Stolen::Retry => Step { notify: false, action: Action::Continue },
                    Stolen::Empty => {
                        self.phase = Phase::Others;
                        Step { notify: false, action: Action::QuickPoll }
                    },
                }
            },
        }
    }

    /// Looks for a task in the slot, and at the other processors.
    fn look_at_others(&mut self, sched: &mut Scheduler, start: usize) -> (s: Step)
        requires
            old(sched).wf(),
            old(self).wf(),
            old(self).phase is Others,
            start < old(sched)@.cpus(),
        ensures
            final(sched).wf(),
            final(self).wf(),
            others_step(*old(self), old(sched)@, start as int, *final(self), final(sched)@, s),
            tasks_after_step(old(sched)@, final(sched)@, s.action),
    {
        if let Some(p) = sched.processor(self.id) {
            let r = sched.queues.find_in_slot_or_others(p, start);
            proof {
                finding_in_slot_or_others_takes_one_task(
                    old(sched)@.queues,
                    sched@.queues,
                    p as int,
                    start as int,
                    r,
                );
            }
            if let Stolen::Success(task) = r {
                return self.run_task(task);
            }
        }
        self.phase = Phase::Miss;
        Step { notify: false, action: Action::Continue }
    }

    /// Decides how to go on after no task was found.
    fn miss(&mut self, sched: &Scheduler) -> (s: Step)
        requires
            sched.wf(),
            old(self).wf(),
            old(self).phase is Miss,
        ensures
            final(self).wf(),
            miss_step(*old(self), sched@, *final(self), s),
    {
        if sched.processor(self.id).is_none() {
            // The processor was stolen.
            self.phase = Phase::Done;
            return Step { notify: false, action: Action::Exit };
        }
        self.runs = 0;
        if self.fails <= YIELDS + SLEEPS {
            self.fails = self.fails + 1;
        }
        if self.fails <= YIELDS {
            // Yield the current thread a few times.
            self.phase = Phase::Begin;
            Step { notify: false, action: Action::Yield }
        } else if self.fails <= YIELDS + SLEEPS {
            // Put the current thread to sleep a few times.
            self.phase = Phase::Begin;
            Step { notify: false, action: Action::Sleep(SHORT_SLEEP) }
        } else {
            self.phase = Phase::Claim;
            Step { notify: false, action: Action::Continue }
        }
    }

    /// Claims the right to wait for I/O events, or else ends.
    fn claim(&mut self, sched: &mut Scheduler) -> (s: Step)
        requires
            old(sched).wf(),
            old(self).wf(),
            old(self).phase is Claim,
        ensures
            final(sched).wf(),
            final(self).wf(),
            claim_step(*old(self), old(sched)@, *final(self), final(sched)@, s),
            tasks_after_step(old(sched)@, final(sched)@, s.action),
    {
        if sched.deep_sleep {
            sched.spin_down(self.id);
            self.phase = Phase::Done;
            return Step { notify: false, action: Action::Exit };
        }
        sched.deep_sleep = true;
        self.phase = Phase::NearbyAgain;
        Step { notify: false, action: Action::Continue }
    }

    /// Goes to sleep until there are I/O events.
    fn sleep(&mut self, sched: &mut Scheduler) -> (s: Step)
        requires
            old(sched).wf(),
            old(self).wf(),
            old(self).runs < RUNS,
        ensures
            final(sched).wf(),
            final(self).wf(),
            *final(self) == old(self).at(Phase::Wake),
            final(sched)@ == old(sched)@.gone_to_sleep(old(self).id),
            s == (Step { notify: false, action: Action::Block }),
    {
        sched.ticker = if sched.ticker == usize::MAX {
            0
        } else {
            sched.ticker + 1
        };
        sched.note_sleeping(self.id, true);
        self.phase = Phase::Wake;
        Step { notify: false, action: Action::Block }
    }

    /// Looks for a task nearby once more.
    fn look_nearby_again(&mut self, sched: &mut Scheduler) -> (s: Step)
        requires
            old(sched).wf(),
            old(self).wf(),
            old(self).phase is NearbyAgain,
        ensures
            final(sched).wf(),
            final(self).wf(),
            nearby_again_step(*old(self), old(sched)@, *final(self), final(sched)@, s),
            tasks_after_step(old(sched)@, final(sched)@, s.action),
    {
        match sched.processor(self.id) {
            None => self.sleep(sched),
            Some(p) => {
                sched.note_progress(self.id);
                let r = sched.queues.find_nearby(p);
                proof {
                    finding_nearby_takes_one_task(old(sched)@.queues, sched@.queues, p as int, r);
                }
                match r {
                    Stolen::Success(task) => {
                        sched.deep_sleep = false;
                        self.run_task(task)
                    },
                    Stolen::Retry => Step { notify: false, action: Action::Continue },
                    Stolen::Empty => {
                        self.phase = Phase::OthersAgain;
                        Step { notify: false, action: Action::QuickPoll }
                    },
                }
            },
        }
    }

    /// Looks for a task in the slot, and at the other processors, once more, and if there is none,
    /// goes to sleep.
    fn look_at_others_again(&mut self, sched: &mut Scheduler, start: usize) -> (s: Step)
        requires
            old(sched).wf(),
            old(self).wf(),
            old(self).phase is OthersAgain,
            start < old(sched)@.cpus(),
        ensures
            final(sched).wf(),
            final(self).wf(),
            others_again_step(
                *old(self),
                old(sched)@,
                start as int,
                *final(self),
                final(sched)@,
                s,
            ),
            tasks_after_step(old(sched)@, final(sched)@, s.action),
    {
        if let Some(p) = sched.processor(self.id) {
            let r = sched.queues.find_in_slot_or_others(p, start);
            proof {
                finding_in_slot_or_others_takes_one_task(
                    old(sched)@.queues,
                    sched@.queues,
                    p as int,
                    start as int,
                    r,
                );
            }
            if let Stolen::Success(task) = r {
                sched.deep_sleep = false;
                return self.run_task(task);
            }
        }
        self.sleep(sched)
    }

    /// Does the next step of a machine thread. A search at the other processors begins at `start`,
    /// which the caller picks at random.
    pub fn step(&mut self, sched: &mut Scheduler, start: usize) -> (s: Step)
        requires
            old(sched).wf(),
            old(self).wf(),
            start < old(sched)@.cpus(),
        ensures
            final(sched).wf(),
            final(self).wf(),
            machine_step(*old(self), old(sched)@, start as int, *final(self), final(sched)@, s),
            tasks_after_step(old(sched)@, final(sched)@, s.action),
    {
        match self.phase {
            Phase::Begin => {
                if self.runs >= RUNS {
                    self.runs = 0;
                    self.phase = Phase::Refill;
                    Step { notify: false, action: Action::QuickPoll }
                } else {
                    self.phase = Phase::Nearby;
                    Step { notify: false, action: Action::Continue }
                }
            },
            Phase::Refill => self.flush(sched),
            Phase::Nearby => self.look_nearby(sched),
            Phase::Others => self.look_at_others(sched, start),
            Phase::Miss => self.miss(sched),
            Phase::Claim => self.claim(sched),
            Phase::NearbyAgain => self.look_nearby_again(sched),
            Phase::OthersAgain => self.look_at_others_again(sched, start),
            Phase::Wake => {
                sched.note_sleeping(self.id, false);
                sched.deep_sleep = false;
                self.phase = Phase::Begin;
                Step { notify: false, action: Action::Continue }
            },
            Phase::Done => Step { notify: false, action: Action::Exit },
        }
    }
}

/// Schedules a new runnable task for execution, and says whether whoever waits for I/O events has
/// to be notified.
///
/// If the current thread is a worker thread, the task is stored into its task slot or pushed into
/// its local task queue. Otherwise, it is pushed into the global task queue.
pub fn schedule(sched: &mut Scheduler, current: Option<u64>, task: u64) -> (notify: bool)
    requires
        old(sched).wf(),
    ensures
        final(sched).wf(),
        final(sched)@ == old(sched)@.scheduled(current, task),
        notify == old(sched)@.scheduling_notifies(current),
        final(sched)@.tasks() == old(sched)@.tasks().insert(task),
{
    if let Some(id) = current {
        if let Some(m) = sched.fleet.find(id) {
            proof {
                machines_hold_existing_processors(sched@.fleet, sched@.cpus(), id);
                scheduling_adds_the_task(sched@.queues, m.processor as int, task);
            }
            machine_scheduled_task(id, task, true);
            let displaced = sched.queues.schedule(m.processor, task);
            return displaced && sched.deep_sleep;
        }
        machine_scheduled_task(id, task, false);
    }
    proof {
        pushing_adds_the_task(sched@.queues, task);
    }
    sched.queues.push(task);
    sched.deep_sleep
}

/// The thread of a machine.
pub open spec fn thread_of(m: MachineRun) -> Thread {
    Thread {
        id: m.id,
        claims: m.claims_sleep(),
        waits: m.phase is Wake,
        ended: m.phase is Done,
    }
}

/// Some machine threads beside the machines of a scheduler.
pub open spec fn crew(runs: Seq<MachineRun>, v: SchedulerView) -> Crew {
    Crew {
        threads: Seq::new(runs.len(), |i: int| thread_of(runs[i])),
        fleet: v.fleet,
        taken: v.deep_sleep,
    }
}

/// Threads and machines agree: every machine has one thread, a machine is marked as sleeping if
/// and only if its thread is, a thread that has ended has no machine, and at most one thread has
/// the right to wait for I/O events.
pub open spec fn threads_match(runs: Seq<MachineRun>, v: SchedulerView) -> bool {
    crew(runs, v).matches_up()
}

/// Whatever step a thread takes, it concerns no machine but its own, and threads and machines agree
/// after it. A thread gets to wait for I/O events only with the right to do so.
pub proof fn steps_keep_threads_matched(
    runs: Seq<MachineRun>,
    k: int,
    v0: SchedulerView,
    start: int,
    m1: MachineRun,
    v1: SchedulerView,
    s: Step,
)
    requires
        v0.wf(),
        0 <= k < runs.len(),
        machine_step(runs[k], v0, start, m1, v1, s),
    ensures
        crew(runs, v0).stepped(k, crew(runs.update(k, m1), v1)),
        threads_match(runs, v0) ==> threads_match(runs.update(k, m1), v1),
        s.action is Block ==> runs[k].claims_sleep() && m1.claims_sleep() && m1.phase is Wake,
{
    let m0 = runs[k];
    let c0 = crew(runs, v0);
    let c1 = crew(runs.update(k, m1), v1);
    let f0 = v0.fleet;
    let f1 = v1.fleet;
    assert(c1.threads =~= c0.threads.update(k, thread_of(m1)));
    if m0.phase is Done {
        assert(c1.threads =~= c0.threads);
    }
    if let Some(m) = f0.find(m0.id) {
        let i = position(f0.machines, m0.id)->0;
        machines_hold_existing_processors(f0, v0.cpus(), m0.id);
        putting_keeps_wf(f0, v0.cpus(), Machine { progress: true, ..m });
        putting_keeps_wf(f0, v0.cpus(), Machine { polling: true, ..m });
        putting_keeps_wf(f0, v0.cpus(), Machine { polling: false, ..m });
        spinning_down_keeps_wf(f0, v0.cpus(), i);
        assert forall|id: u64| id != m0.id implies #[trigger] f1.find(id) == f0.find(id) by {
            putting_keeps_the_others(f0, v0.cpus(), Machine { progress: true, ..m }, id);
            putting_keeps_the_others(f0, v0.cpus(), Machine { polling: true, ..m }, id);
            putting_keeps_the_others(f0, v0.cpus(), Machine { polling: false, ..m }, id);
            spinning_down_keeps_the_others(f0, v0.cpus(), i, id);
        }
    }
    if threads_match(runs, v0) {
        steps_keep_the_match(c0, k, c1);
    }
}

/// The threads of the machines that are new.
pub open spec fn threads_begun(v0: SchedulerView, v1: SchedulerView) -> Seq<MachineRun> {
    Seq::new(
        (v1.fleet.next_id - v0.fleet.next_id) as nat,
        |k: int| MachineRun::initial((v0.fleet.next_id + k) as u64),
    )
}

/// A thread that begins for every new machine makes threads and machines agree again, after the
/// first machine was started and after a round of the scheduler thread.
pub proof fn starting_keeps_threads_matched(runs: Seq<MachineRun>, v: SchedulerView, tick: usize)
    requires
        v.wf(),
        v.fleet.next_id + v.fleet.machines.len() < u64::MAX,
    ensures
        crew(runs, v).started(crew(runs + threads_begun(v, v.launched()), v.launched())),
        crew(runs, v).started(
            crew(runs + threads_begun(v, v.supervised(tick)), v.supervised(tick)),
        ),
        threads_match(runs, v) ==> threads_match(
            runs + threads_begun(v, v.launched()),
            v.launched(),
        ),
        threads_match(runs, v) ==> threads_match(
            runs + threads_begun(v, v.supervised(tick)),
            v.supervised(tick),
        ),
{
    spinning_up_oversees(v.fleet, v.cpus());
    relieving_keeps_wf(v.fleet, v.cpus());
    relieving_oversees(v.fleet, v.cpus());
    stuck_among_is_bounded(v.fleet.machines, 0, v.fleet.machines.len() as int);
    spinning_up_oversees(v.fleet.all_relieved(), v.cpus());
    overseeing_is_transitive(v.fleet, v.fleet.all_relieved(), v.fleet.all_relieved().spun_up());
    let c0 = crew(runs, v);
    let l = v.launched();
    let w = v.supervised(tick);
    let c1 = crew(runs + threads_begun(v, l), l);
    let c2 = crew(runs + threads_begun(v, w), w);
    assert(c1.threads =~= c0.threads + Seq::new(
        (l.fleet.next_id - v.fleet.next_id) as nat,
        |k: int| Thread::fresh((v.fleet.next_id + k) as u64),
    ));
    assert(c2.threads =~= c0.threads + Seq::new(
        (w.fleet.next_id - v.fleet.next_id) as nat,
        |k: int| Thread::fresh((v.fleet.next_id + k) as u64),
    ));
    if threads_match(runs, v) {
        starts_keep_the_match(c0, c1);
        starts_keep_the_match(c0, c2);
    }
}

/// Something that may happen to a scheduler and its threads: a thread takes a step, the first
/// machine is started or a round supervises the machines and the threads of new machines begin, or
/// a task is scheduled.
pub open spec fn threads_may_change(
    runs0: Seq<MachineRun>,
    v0: SchedulerView,
    runs1: Seq<MachineRun>,
    v1: SchedulerView,
) -> bool {
    ||| exists|k: int, start: int, m1: MachineRun, s: Step|
        {
            &&& 0 <= k < runs0.len()
            &&& #[trigger] machine_step(runs0[k], v0, start, m1, v1, s)
            &&& runs1 == runs0.update(k, m1)
        }
    ||| {
        &&& v0.fleet.next_id + v0.fleet.machines.len() < u64::MAX
        &&& runs1 == runs0 + threads_begun(v0, v1)
        &&& v1 == v0.launched() || exists|tick: usize| v1 == #[trigger] v0.supervised(tick)
    }
    ||| runs1 == runs0 && exists|current: Option<u64>, task: u64|
        v1 == #[trigger] v0.scheduled(current, task)
}

/// What may happen to a scheduler and its threads may happen to its crew.
proof fn lemma_crew_may_become(
    runs0: Seq<MachineRun>,
    v0: SchedulerView,
    runs1: Seq<MachineRun>,
    v1: SchedulerView,
)
    requires
        v0.wf(),
        threads_may_change(runs0, v0, runs1, v1),
    ensures
        crew(runs0, v0).may_become(crew(runs1, v1)),
{
    if exists|k: int, start: int, m1: MachineRun, s: Step|
        {
            &&& 0 <= k < runs0.len()
            &&& #[trigger] machine_step(runs0[k], v0, start, m1, v1, s)
            &&& runs1 == runs0.update(k, m1)
        } {
        let (k, start, m1, s) = choose|k: int, start: int, m1: MachineRun, s: Step|
            {
                &&& 0 <= k < runs0.len()
                &&& #[trigger] machine_step(runs0[k], v0, start, m1, v1, s)
                &&& runs1 == runs0.update(k, m1)
            };
        steps_keep_threads_matched(runs0, k, v0, start, m1, v1, s);
    } else if runs1 == runs0 && v1.fleet == v0.fleet && v1.deep_sleep == v0.deep_sleep {
        assert(crew(runs1, v1) == crew(runs0, v0));
    } else {
        let tick = choose|tick: usize| v1 == #[trigger] v0.supervised(tick);
        starting_keeps_threads_matched(runs0, v0, tick);
    }
}

/// The crew of a scheduler, as its life goes on.
pub open spec fn crews(states: Seq<SchedulerView>, runs: Seq<Seq<MachineRun>>) -> Seq<Crew> {
    Seq::new(states.len(), |i: int| crew(runs[i], states[i]))
}

/// The life of a scheduler and its threads, from the beginning on.
pub open spec fn is_life(states: Seq<SchedulerView>, runs: Seq<Seq<MachineRun>>) -> bool {
    &&& runs.len() == states.len() > 0
    &&& states[0] == SchedulerView::initial(states[0].cpus())
    &&& runs[0] == Seq::<MachineRun>::empty()
    &&& forall|i: int| 0 <= i < states.len() ==> (#[trigger] states[i]).wf()
    &&& forall|i: int|
        0 <= i < states.len() - 1 ==> threads_may_change(
            #[trigger] runs[i],
            states[i],
            runs[i + 1],
            states[i + 1],
        )
}

/// The crew begins in agreement and changes only as it may.
proof fn lemma_crews(states: Seq<SchedulerView>, runs: Seq<Seq<MachineRun>>)
    requires
        is_life(states, runs),
    ensures
        crews(states, runs)[0].matches_up(),
        forall|i: int|
            0 <= i < states.len() - 1 ==> (#[trigger] crews(states, runs)[i]).may_become(
                crews(states, runs)[i + 1],
            ),
{
    assert forall|i: int| 0 <= i < states.len() - 1 implies (#[trigger] crews(
        states,
        runs,
    )[i]).may_become(crews(states, runs)[i + 1]) by {
        assert(states[i].wf());
        assert(threads_may_change(runs[i], states[i], runs[i + 1], states[i + 1]));
        lemma_crew_may_become(runs[i], states[i], runs[i + 1], states[i + 1]);
    }
}

/// In the whole life of a scheduler, threads and machines agree.
pub proof fn threads_always_match(
    states: Seq<SchedulerView>,
    runs: Seq<Seq<MachineRun>>,
    n: int,
)
    requires
        is_life(states, runs),
        0 <= n < states.len(),
    ensures
        threads_match(runs[n], states[n]),
{
    lemma_crews(states, runs);
    crews_always_match(crews(states, runs), n);
}

/// From when a thread begins to wait for I/O events until it stops, its machine keeps its
/// processor, whatever other threads and the scheduler thread do, and still has it then.
pub proof fn sleeping_machine_keeps_its_processor(
    states: Seq<SchedulerView>,
    runs: Seq<Seq<MachineRun>>,
    k: int,
    a: int,
    b: int,
)
    requires
        is_life(states, runs),
        0 <= a <= b < states.len(),
        0 <= k < runs[a].len(),
        forall|i: int| a <= i < b ==> (#[trigger] runs[i])[k].phase is Wake,
        states[a].fleet.find(runs[a][k].id) is Some,
    ensures
        k < runs[b].len(),
        runs[b][k].id == runs[a][k].id,
        states[b].fleet.find(runs[a][k].id) matches Some(m) && m.processor == states[a].fleet.find(
            runs[a][k].id,
        )->0.processor,
{
    let c = crews(states, runs);
    lemma_crews(states, runs);
    assert forall|i: int| a <= i < b implies (#[trigger] c[i]).threads[k].waits by {
        threads_are_never_forgotten(c, a, i);
        assert(runs[i][k].phase is Wake);
    }
    blocking_thread_keeps_its_processor(c, k, a, b);
}

/// At no time do two threads have the right to wait for I/O events, and the scheduler says that one
/// has it if and only if one has.
pub proof fn one_machine_sleeps_at_a_time(runs: Seq<MachineRun>, v: SchedulerView)
    requires
        threads_match(runs, v),
    ensures
        forall|i: int, j: int|
            0 <= i < j < runs.len() ==> !((#[trigger] runs[i]).claims_sleep() && (
            #[trigger] runs[j]).claims_sleep()),
        v.deep_sleep <==> exists|i: int| 0 <= i < runs.len() && (#[trigger] runs[i]).claims_sleep(),
{
    let t = crew(runs, v).threads;
    assert forall|i: int, j: int| 0 <= i < j < runs.len() implies !((
    #[trigger] runs[i]).claims_sleep() && (#[trigger] runs[j]).claims_sleep()) by {
        assert(!(t[i].claims && t[j].claims));
    }
    if v.deep_sleep {
        let i = choose|i: int| 0 <= i < t.len() && (#[trigger] t[i]).claims;
        assert(runs[i].claims_sleep());
    } else if exists|i: int| 0 <= i < runs.len() && (#[trigger] runs[i]).claims_sleep() {
        let i = choose|i: int| 0 <= i < runs.len() && (#[trigger] runs[i]).claims_sleep();
        assert(t[i].claims);
    }
}

/// The machines that a round starts are the new ones.
pub proof fn rounds_start_the_new_machines(v: SchedulerView, tick: usize)
    requires
        v.wf(),
        v.fleet.next_id + v.fleet.machines.len() < u64::MAX,
    ensures
        v.machines_to_start(tick) == threads_begun(v, v.supervised(tick)).len(),
{
    stuck_among_is_bounded(v.fleet.machines, 0, v.fleet.machines.len() as int);
}

/// A machine that still has its processor, and found nothing nearby a moment ago, goes to sleep
/// only when no processor has a task in its queue and its own slot is empty.
pub proof fn machine_sleeps_only_without_tasks(
    m0: MachineRun,
    v0: SchedulerView,
    start: int,
    m1: MachineRun,
    v1: SchedulerView,
    s: Step,
)
    requires
        v0.fleet.find(m0.id) is Some,
        machine_step(m0, v0, start, m1, v1, s),
        s.action is Block,
    ensures
        v0.queues.local_queues_empty(),
        v0.queues.local[v0.fleet.find(m0.id)->0.processor as int].slot is None,
{
}

/// A sleeping machine keeps its processor, however often machines are checked.
pub proof fn sleeping_machine_is_not_relieved(v: SchedulerView, id: u64)
    requires
        v.wf(),
        v.fleet.next_id + v.fleet.machines.len() <= u64::MAX,
        v.fleet.find(id) is Some,
        v.fleet.find(id)->0.polling,
    ensures
        v.fleet.all_relieved().find(id) == v.fleet.find(id),
{
    let i = position(v.fleet.machines, id)->0;
    identifier_names_one_machine(v.fleet, i);
    progress_keeps_the_processor(v.fleet, v.cpus(), i);
}

/// A machine that is stuck on a task loses its processor to a new machine in the next round.
pub proof fn stuck_machine_loses_its_processor(v: SchedulerView, i: int, tick: usize)
    requires
        v.wf(),
        v.fleet.next_id + v.fleet.machines.len() < u64::MAX,
        0 <= i < v.fleet.machines.len(),
        v.fleet.machines[i].stuck(),
    ensures
        v.supervised(tick).fleet.find(v.fleet.machines[i].id) is None,
        v.supervised(tick).fleet.machines[i].processor == v.fleet.machines[i].processor,
        v.supervised(tick).fleet.machines[i].progress,
{
    let id = v.fleet.machines[i].id;
    let w = v.fleet.all_relieved();
    stuck_machine_is_relieved(v.fleet, v.cpus(), i);
    stuck_among_is_bounded(v.fleet.machines, 0, v.fleet.machines.len() as int);
    let z = w.spun_up();
    assert forall|j: int| 0 <= j < z.machines.len() implies (#[trigger] z.machines[j]).id != id by {
        if j < w.machines.len() {
            assert(z.machines[j] == w.machines[j]);
        } else {
            assert(v.fleet.machines[i].id < v.fleet.next_id);
        }
    }
}

/// Supervision never touches a task, nor the right to wait for I/O events.
pub proof fn supervision_keeps_tasks_and_claim(v: SchedulerView, tick: usize)
    ensures
        v.supervised(tick).queues == v.queues,
        v.supervised(tick).tasks() == v.tasks(),
        v.supervised(tick).deep_sleep == v.deep_sleep,
{
}

/// A machine runs at most `RUNS` tasks in a row before the global queue gets its turn, and
/// then tasks leave the global queue for the processor, unless the attempt has to be repeated, and
/// its slot is empty.
pub proof fn global_queue_is_not_starved(
    m0: MachineRun,
    v0: SchedulerView,
    start: int,
    m1: MachineRun,
    v1: SchedulerView,
    s: Step,
)
    requires
        m0.wf(),
        v0.wf(),
        machine_step(m0, v0, start, m1, v1, s),
    ensures
        s.action is Run ==> m1.runs == m0.runs + 1 && m1.runs <= RUNS,
        m0.phase is Begin && m0.runs == RUNS ==> m1.phase is Refill,
        m0.phase is Refill && m1.phase is Nearby ==> (v0.fleet.find(m0.id) matches Some(m) ==> {
            &&& v0.queues.global.len() > 0 ==> v1.queues.global.len() < v0.queues.global.len()
            &&& v1.queues.local[m.processor as int].slot is None
        }),
{
    machines_hold_existing_processors(v0.fleet, v0.cpus(), m0.id);
}

/// A machine that ends because another thread waits for I/O events gives its processor back.
pub proof fn ended_machine_holds_no_processor(
    m0: MachineRun,
    v0: SchedulerView,
    start: int,
    m1: MachineRun,
    v1: SchedulerView,
    s: Step,
)
    requires
        v0.wf(),
        machine_step(m0, v0, start, m1, v1, s),
        !(m0.phase is Done),
        s.action is Exit,
    ensures
        v1.fleet.find(m0.id) is None,
        v0.fleet.find(m0.id) matches Some(m) ==> v1.fleet.idle == v0.fleet.idle.push(m.processor),
{
    if v0.fleet.find(m0.id) is Some {
        let i = position(v0.fleet.machines, m0.id)->0;
        spinning_down_keeps_wf(v0.fleet, v0.cpus(), i);
    }
}

/// Whatever a step does is consistent with the tasks: one that hands out a task takes it away,
/// once, and any other keeps all tasks.
pub proof fn steps_lose_no_task(
    m0: MachineRun,
    v0: SchedulerView,
    start: int,
    m1: MachineRun,
    v1: SchedulerView,
    s: Step,
)
    requires
        v0.wf(),
        0 <= start < v0.cpus(),
        machine_step(m0, v0, start, m1, v1, s),
    ensures
        tasks_after_step(v0, v1, s.action),
{
    machines_hold_existing_processors(v0.fleet, v0.cpus(), m0.id);
    if let Some(m) = v0.fleet.find(m0.id) {
        let p = m.processor as int;
        let q0 = v0.queues;
        match m0.phase {
            Phase::Refill => {
                if m1.phase is Nearby {
                    let (q, r) = choose|q: QueuesView, r: Moved|
                        {
                            &&& #[trigger] refilled(q0, q, p, r)
                            &&& !(r is Retry)
                            &&& v1 == (SchedulerView { queues: q.flushed(p), ..v0 })
                        };
                    refilling_keeps_the_tasks(q0, q, p, r);
                    flushing_keeps_the_tasks(q, p);
                }
            },
            Phase::Nearby => {
                let r = match s.action {
                    Action::Run(task) => Stolen::Success(task),
                    Action::Continue => Stolen::Retry,
                    _ => Stolen::Empty,
                };
                finding_nearby_takes_one_task(q0, v1.queues, p, r);
            },
            Phase::Others | Phase::OthersAgain => {
                let r = match s.action {
                    Action::Run(task) => Stolen::Success(task),
                    _ => Stolen::Empty,
                };
                finding_in_slot_or_others_takes_one_task(q0, v1.queues, p, start, r);
            },
            Phase::NearbyAgain => {
                let r = match s.action {
                    Action::Run(task) => Stolen::Success(task),
                    Action::Continue => Stolen::Retry,
                    _ => Stolen::Empty,
                };
                finding_nearby_takes_one_task(q0, v1.queues, p, r);
            },
            _ => {},
        }
    }
}

/// Something that may happen to a scheduler: a task is scheduled, a machine thread takes a step,
/// a machine is spun up or down, or the scheduler thread does a round.
pub open spec fn may_happen(v0: SchedulerView, change: Change, v1: SchedulerView) -> bool {
    match change {
        Change::Scheduled(task) => exists|current: Option<u64>|
            v1 == #[trigger] v0.scheduled(current, task),
        Change::HandedOut(task) => exists|m0: MachineRun, start: int, m1: MachineRun, s: Step|
            {
                &&& 0 <= start < v0.cpus()
                &&& #[trigger] machine_step(m0, v0, start, m1, v1, s)
                &&& s.action == Action::Run(task)
            },
        Change::Unchanged => {
            ||| exists|m0: MachineRun, start: int, m1: MachineRun, s: Step|
                {
                    &&& 0 <= start < v0.cpus()
                    &&& #[trigger] machine_step(m0, v0, start, m1, v1, s)
                    &&& !(s.action is Run)
                }
            ||| v1 == (SchedulerView { fleet: v1.fleet, ..v0 })
            ||| exists|tick: usize| v1 == #[trigger] v0.supervised(tick)
        },
    }
}

/// In the whole life of a scheduler no task is lost and none is run more often than it was
/// scheduled: at any time the tasks that were scheduled are those that were handed out and those
/// that wait.
pub proof fn scheduler_loses_no_task(states: Seq<SchedulerView>, calls: Seq<Change>)
    requires
        states.len() == calls.len() + 1,
        states[0] == SchedulerView::initial(states[0].cpus()),
        forall|i: int| 0 <= i < states.len() ==> (#[trigger] states[i]).wf(),
        forall|i: int|
            0 <= i < calls.len() ==> may_happen(states[i], #[trigger] calls[i], states[i + 1]),
    ensures
        scheduled(calls) == handed_out(calls).add(states.last().tasks()),
{
    let waiting = Seq::new(states.len(), |i: int| states[i].tasks());
    empty_queues_hold_no_task(states[0].cpus());
    assert forall|i: int| 0 <= i < calls.len() implies changes(
        waiting[i],
        #[trigger] calls[i],
        waiting[i + 1],
    ) by {
        let v0 = states[i];
        let v1 = states[i + 1];
        assert(v0.wf());
        assert(may_happen(v0, calls[i], v1));
        match calls[i] {
            Change::Scheduled(task) => {
                let current = choose|current: Option<u64>|
                    v1 == #[trigger] v0.scheduled(current, task);
                pushing_adds_the_task(v0.queues, task);
                if let Some(p) = v0.current_processor(current) {
                    machines_hold_existing_processors(v0.fleet, v0.cpus(), current->0);
                    scheduling_adds_the_task(v0.queues, p as int, task);
                }
            },
            Change::HandedOut(task) => {
                let (m0, start, m1, s) = choose|
                    m0: MachineRun,
                    start: int,
                    m1: MachineRun,
                    s: Step,
                |
                    {
                        &&& 0 <= start < v0.cpus()
                        &&& #[trigger] machine_step(m0, v0, start, m1, v1, s)
                        &&& s.action == Action::Run(task)
                    };
                steps_lose_no_task(m0, v0, start, m1, v1, s);
            },
            Change::Unchanged => {
                if exists|m0: MachineRun, start: int, m1: MachineRun, s: Step|
                    {
                        &&& 0 <= start < v0.cpus()
                        &&& #[trigger] machine_step(m0, v0, start, m1, v1, s)
                        &&& !(s.action is Run)
                    } {
                    let (m0, start, m1, s) = choose|
                        m0: MachineRun,
                        start: int,
                        m1: MachineRun,
                        s: Step,
                    |
                        {
                            &&& 0 <= start < v0.cpus()
                            &&& #[trigger] machine_step(m0, v0, start, m1, v1, s)
                            &&& !(s.action is Run)
                        };
                    steps_lose_no_task(m0, v0, start, m1, v1, s);
                }
            },
        }
    }
    every_task_is_handed_out_or_waits(waiting, calls);
}

} // verus!

//! The scheduler: its state, and the steps by which a machine thread and the scheduler thread
//! change it.
//!
//! A step is a decision. What it cannot do itself (run a task, sleep, poll for I/O events) it
//! returns as an action, and the thread that performs the action then asks for the next step. The
//! state is meant to be kept behind a lock, which is held for a step and not for an action.

use crate::action::{Action, Step, RUNS, SHORT_SLEEP, SLEEPS, YIELDS};
use crate::backoff::Backoff;
use crate::cpus::{at_least_one, available};
use crate::crew::{
    blocking_thread_keeps_its_processor, crews_always_match, starts_keep_the_match,
    steps_keep_the_match, threads_are_never_forgotten, Crew, Thread,
};
use crate::fleet::{
    identifier_names_one_machine, initial_fleet_is_wf, machines_hold_existing_processors,
    overseeing_is_transitive, position, putting_keeps_the_others, putting_keeps_wf,
    relieving_first_keeps_wf, relieving_first_oversees, spinning_down_keeps_the_others,
    spinning_down_keeps_wf, spinning_up_keeps_wf, spinning_up_oversees, Fleet, FleetView, Machine,
};
use crate::history::{changes, every_task_is_handed_out_or_waits, handed_out, scheduled, Change};
use crate::processor::{
    empty_queues_hold_no_task, finding_anywhere_takes_one_task, finding_nearby_takes_one_task,
    flushing_keeps_the_tasks, found_anywhere, found_nearby, pushing_adds_the_task, refilled,
    refilling_keeps_the_tasks, scheduling_adds_the_task, Queues, QueuesView,
};
use crate::queue::{Moved, Stolen};
use crate::rt::reactor::{Reactor, ReactorView};
use crate::tracing::rt::machine_scheduled_task;
use vstd::multiset::Multiset;
use vstd::prelude::*;

verus! {

/// The shortest delay between two rounds of the scheduler thread, in microseconds.
pub const SHORTEST_DELAY: u64 = 500;

/// A scheduler.
pub struct Scheduler {
    /// The reactor.
    reactor: Reactor,
    /// The global queue of tasks, and those of the processors.
    queues: Queues,
    /// Machines with assigned processors, and idle processors.
    fleet: Fleet,
    /// Set to `true` every time before a thread blocks on the reactor.
    progress: bool,
    /// Set to `true` while a thread is about to block, or is blocking, on the reactor.
    polling: bool,
}

/// The state of a scheduler.
#[verifier::ext_equal]
pub struct SchedulerView {
    pub reactor: ReactorView,
    pub queues: QueuesView,
    pub fleet: FleetView,
    pub progress: bool,
    pub polling: bool,
}

impl SchedulerView {
    /// A scheduler in which nothing has happened yet.
    pub open spec fn initial(reactor: ReactorView, cpus: nat) -> SchedulerView {
        SchedulerView {
            reactor,
            queues: QueuesView::empty(cpus),
            fleet: FleetView::initial(cpus),
            progress: false,
            polling: false,
        }
    }

    /// The number of processors.
    pub open spec fn cpus(self) -> nat {
        self.queues.local.len()
    }

    /// There is a processor, each one is idle or held by a machine, and the reactor is in order.
    pub open spec fn wf(self) -> bool {
        &&& self.cpus() >= 1
        &&& self.fleet.wf(self.cpus())
        &&& self.fleet.parked is None
        &&& self.reactor.wf()
    }

    /// All tasks that wait to be run, each as often as it occurs.
    pub open spec fn tasks(self) -> Multiset<u64> {
        self.queues.tasks()
    }

    /// The processor of the machine that runs on the current thread, if any.
    pub open spec fn current_processor(self, current: Option<u64>) -> Option<usize> {
        match current {
            Some(id) => match self.fleet.find(id) {
                Some(m) => Some(m.processor),
                None => None,
            },
            None => None,
        }
    }

    /// A task scheduled from the current thread: on the processor of its machine, or else in the
    /// global queue.
    pub open spec fn scheduled(self, current: Option<u64>, task: u64) -> SchedulerView {
        let queues = match self.current_processor(current) {
            Some(p) => self.queues.scheduled(p as int, task),
            None => self.queues.pushed(task),
        };
        SchedulerView { queues, ..self }
    }

    /// Scheduling a task puts one into a queue, where other threads can find it, while a thread is
    /// blocking on the reactor.
    pub open spec fn scheduling_notifies(self, current: Option<u64>) -> bool {
        self.polling && match self.current_processor(current) {
            Some(p) => self.queues.local[p as int].slot is Some,
            None => true,
        }
    }

    /// A machine has made progress.
    pub open spec fn progressed(self, id: u64) -> SchedulerView {
        match self.fleet.find(id) {
            Some(m) => SchedulerView {
                fleet: self.fleet.put(Machine { progress: true, ..m }),
                ..self
            },
            None => self,
        }
    }

    /// A machine blocks on the reactor, or has stopped doing so.
    pub open spec fn blocked(self, id: u64, polling: bool) -> SchedulerView {
        match self.fleet.find(id) {
            Some(m) => SchedulerView { fleet: self.fleet.put(Machine { polling, ..m }), ..self },
            None => self,
        }
    }

    /// A machine started on an idle processor, if there is one.
    pub open spec fn launched(self) -> SchedulerView {
        SchedulerView { fleet: self.fleet.spun_up(), ..self }
    }

    /// The running machines checked: the first stuck one has lost its processor to a new one.
    pub open spec fn checked(self) -> SchedulerView {
        SchedulerView { fleet: self.fleet.first_relieved(), ..self }
    }

    /// No thread blocks on the reactor, and none did since the last round.
    pub open spec fn quiet(self) -> bool {
        !self.progress && !self.polling
    }

    /// A round of the scheduler thread: machines are checked, and if no thread blocks on the
    /// reactor, and none did since the last round, one more machine starts.
    pub open spec fn supervised(self) -> SchedulerView {
        let fleet = self.fleet.first_relieved();
        SchedulerView {
            fleet: if self.quiet() {
                fleet.spun_up()
            } else {
                fleet
            },
            progress: false,
            ..self
        }
    }

    /// The machines that such a round starts.
    pub open spec fn started(self) -> Seq<u64> {
        let relieved = if self.fleet.any_stuck() {
            seq![self.fleet.next_id]
        } else {
            Seq::empty()
        };
        if self.quiet() && self.fleet.idle.len() > 0 {
            relieved.push(self.fleet.first_relieved().next_id)
        } else {
            relieved
        }
    }
}

/// How far a machine thread is in its loop.
#[derive(Clone, Copy, Debug, PartialEq, Eq, Structural)]
pub enum Phase {
    /// Begin another round.
    Begin,
    /// Give the global queue its turn.
    Refill,
    /// Look for a task nearby.
    Nearby,
    /// Look for a task everywhere.
    Anywhere,
    /// No task was found.
    Miss,
    /// No task was found for some time.
    Claim,
    /// Look for a task nearby once more, before blocking on the reactor.
    NearbyAgain,
    /// Look for a task everywhere once more, before blocking on the reactor.
    AnywhereAgain,
    /// Blocking on the reactor is over.
    Wake,
    /// The thread has ended.
    Done,
}

/// The loop of a machine thread.
#[derive(Clone, Copy, Debug, PartialEq, Eq, Structural)]
pub struct MachineRun {
    /// The machine.
    pub id: u64,
    /// How far the thread is.
    pub phase: Phase,
    /// The number of times the thread found work in a row.
    pub runs: u32,
    /// The number of times the thread didn't find work in a row, as far as it is counted.
    pub fails: u32,
}

impl MachineRun {
    /// A state that can be reached.
    pub open spec fn wf(self) -> bool {
        &&& self.runs <= RUNS
        &&& self.runs == RUNS ==> self.phase is Begin || self.phase is Refill
        &&& self.fails <= YIELDS + SLEEPS + 1
    }

    /// The state in which a machine thread starts.
    pub open spec fn initial(id: u64) -> MachineRun {
        MachineRun { id, phase: Phase::Begin, runs: 0, fails: 0 }
    }

    /// Another phase.
    pub open spec fn at(self, phase: Phase) -> MachineRun {
        MachineRun { phase, ..self }
    }

    /// A task was found.
    pub open spec fn found(self) -> MachineRun {
        MachineRun { phase: Phase::Begin, runs: (self.runs + 1) as u32, fails: 0, ..self }
    }

    /// The thread has the right to block on the reactor.
    pub open spec fn claims_reactor(self) -> bool {
        self.phase is NearbyAgain || self.phase is AnywhereAgain || self.phase is Wake
    }
}

/// A step that gives the global queue its turn: a batch of tasks from it, and then the task in the
/// slot, go to the back of the local queue.
pub open spec fn refill_step(
    m0: MachineRun,
    v0: SchedulerView,
    m1: MachineRun,
    v1: SchedulerView,
    s: Step,
) -> bool {
    let next = MachineRun { phase: Phase::Nearby, runs: 0, ..m0 };
    &&& s == (Step { notify: false, action: Action::Continue })
    &&& match v0.fleet.find(m0.id) {
        None => m1 == next && v1 == v0,
        Some(m) => {
            let p = m.processor as int;
            ||| v0.queues.global.len() > 0 && m1 == m0 && v1 == v0
            ||| {
                &&& m1 == next
                &&& exists|q: QueuesView, r: Moved|
                    {
                        &&& #[trigger] refilled(v0.queues, q, p, r)
                        &&& !(r is Retry)
                        &&& v1 == (SchedulerView { queues: q.flushed(p), ..v0 })
                    }
            }
        },
    }
}

/// A step that looks for a task nearby.
pub open spec fn nearby_step(
    m0: MachineRun,
    v0: SchedulerView,
    m1: MachineRun,
    v1: SchedulerView,
    s: Step,
) -> bool {
    let next = m0.at(Phase::Anywhere);
    &&& !s.notify
    &&& match v0.fleet.find(m0.id) {
        None => m1 == next && v1 == v0 && s.action == Action::QuickPoll,
        Some(m) => {
            let p = m.processor as int;
            &&& v1 == (SchedulerView { queues: v1.queues, ..v0 })
            &&& match s.action {
                Action::Run(task) => m1 == m0.found() && found_nearby(
                    v0.queues,
                    v1.queues,
                    p,
                    Stolen::Success(task),
                ),
                Action::Continue => m1 == m0 && found_nearby(
                    v0.queues,
                    v1.queues,
                    p,
                    Stolen::Retry,
                ),
                _ => m1 == next && s.action == Action::QuickPoll && found_nearby(
                    v0.queues,
                    v1.queues,
                    p,
                    Stolen::Empty,
                ),
            }
        },
    }
}

/// A step that looks for a task everywhere.
pub open spec fn anywhere_step(
    m0: MachineRun,
    v0: SchedulerView,
    start: int,
    m1: MachineRun,
    v1: SchedulerView,
    s: Step,
) -> bool {
    let next = m0.at(Phase::Miss);
    &&& !s.notify
    &&& match v0.fleet.find(m0.id) {
        None => m1 == next && v1 == v0 && s.action == Action::Continue,
        Some(m) => {
            let p = m.processor as int;
            &&& v1 == (SchedulerView { queues: v1.queues, ..v0 })
            &&& match s.action {
                Action::Run(task) => m1 == m0.found() && found_anywhere(
                    v0.queues,
                    v1.queues,
                    p,
                    start,
                    Stolen::Success(task),
                ),
                _ => {
                    &&& s.action == Action::Continue
                    &&& {
                        ||| m1 == m0 && found_anywhere(
                            v0.queues,
                            v1.queues,
                            p,
                            start,
                            Stolen::Retry,
                        )
                        ||| m1 == next && found_anywhere(
                            v0.queues,
                            v1.queues,
                            p,
                            start,
                            Stolen::Empty,
                        )
                    }
                },
            }
        },
    }
}

/// A step after no task was found: the thread yields a few times, sleeps a few times, and then
/// tries to block on the reactor. Without a processor it ends.
pub open spec fn miss_step(m0: MachineRun, v0: SchedulerView, m1: MachineRun, s: Step) -> bool {
    let fails = if m0.fails <= YIELDS + SLEEPS {
        (m0.fails + 1) as u32
    } else {
        m0.fails
    };
    &&& !s.notify
    &&& if v0.fleet.find(m0.id) is None {
        m1 == m0.at(Phase::Done) && s.action == Action::Exit
    } else if fails <= YIELDS {
        &&& s.action == Action::Yield
        &&& m1 == (MachineRun { phase: Phase::Begin, runs: 0, fails, ..m0 })
    } else if fails <= YIELDS + SLEEPS {
        &&& s.action == Action::Sleep(SHORT_SLEEP)
        &&& m1 == (MachineRun { phase: Phase::Begin, runs: 0, fails, ..m0 })
    } else {
        &&& s.action == Action::Continue
        &&& m1 == (MachineRun { phase: Phase::Claim, runs: 0, fails, ..m0 })
    }
}

/// A step that claims the right to block on the reactor. If another thread has it, the machine
/// gives its processor back and ends.
pub open spec fn claim_step(
    m0: MachineRun,
    v0: SchedulerView,
    m1: MachineRun,
    v1: SchedulerView,
    s: Step,
) -> bool {
    &&& !s.notify
    &&& if v0.polling {
        &&& s.action == Action::Exit
        &&& m1 == m0.at(Phase::Done)
        &&& v1 == match position(v0.fleet.machines, m0.id) {
            Some(i) => SchedulerView { fleet: v0.fleet.spun_down(i), ..v0 },
            None => v0,
        }
    } else {
        &&& s.action == Action::Continue
        &&& m1 == m0.at(Phase::NearbyAgain)
        &&& v1 == (SchedulerView { polling: true, ..v0 })
    }
}

/// A task that was found after all goes back to the processor, to be run in the next round, and the
/// right to block on the reactor is given up.
pub open spec fn task_kept(
    m0: MachineRun,
    v0: SchedulerView,
    q: QueuesView,
    p: int,
    task: u64,
    m1: MachineRun,
    v1: SchedulerView,
    s: Step,
) -> bool {
    &&& m1 == m0.at(Phase::Begin)
    &&& s == (Step { notify: v0.polling && q.local[p].slot is Some, action: Action::Continue })
    &&& v1 == (SchedulerView { queues: q.scheduled(p, task), polling: false, ..v0 })
}

/// A step that looks for a task nearby once more.
pub open spec fn nearby_again_step(
    m0: MachineRun,
    v0: SchedulerView,
    m1: MachineRun,
    v1: SchedulerView,
    s: Step,
) -> bool {
    let next = m0.at(Phase::AnywhereAgain);
    let empty = Step { notify: false, action: Action::QuickPoll };
    match v0.fleet.find(m0.id) {
        None => m1 == next && v1 == v0 && s == empty,
        Some(m) => {
            let p = m.processor as int;
            if s.action == Action::Continue {
                ||| m1 == m0 && v1 == v0 && !s.notify && found_nearby(
                    v0.queues,
                    v0.queues,
                    p,
                    Stolen::Retry,
                )
                ||| exists|q: QueuesView, task: u64|
                    {
                        &&& #[trigger] found_nearby(v0.queues, q, p, Stolen::Success(task))
                        &&& task_kept(m0, v0, q, p, task, m1, v1, s)
                    }
            } else {
                m1 == next && v1 == v0 && s == empty && found_nearby(
                    v0.queues,
                    v0.queues,
                    p,
                    Stolen::Empty,
                )
            }
        },
    }
}

/// A step that looks for a task everywhere once more, and if there is none, gets ready to block on
/// the reactor.
pub open spec fn anywhere_again_step(
    m0: MachineRun,
    v0: SchedulerView,
    start: int,
    m1: MachineRun,
    v1: SchedulerView,
    s: Step,
) -> bool {
    let next = m0.at(Phase::Wake);
    let empty = Step { notify: false, action: Action::Block };
    let waiting = SchedulerView { progress: true, ..v0.blocked(m0.id, true) };
    match v0.fleet.find(m0.id) {
        None => m1 == next && v1 == waiting && s == empty,
        Some(m) => {
            let p = m.processor as int;
            if s.action == Action::Continue {
                ||| m1 == m0 && v1 == v0 && !s.notify && found_anywhere(
                    v0.queues,
                    v0.queues,
                    p,
                    start,
                    Stolen::Retry,
                )
                ||| exists|q: QueuesView, task: u64|
                    {
                        &&& #[trigger] found_anywhere(
                            v0.queues,
                            q,
                            p,
                            start,
                            Stolen::Success(task),
                        )
                        &&& task_kept(m0, v0, q, p, task, m1, v1, s)
                    }
            } else {
                m1 == next && v1 == waiting && s == empty && found_anywhere(
                    v0.queues,
                    v0.queues,
                    p,
                    start,
                    Stolen::Empty,
                )
            }
        },
    }
}

/// A step of a machine thread.
pub open spec fn machine_step(
    m0: MachineRun,
    v0: SchedulerView,
    start: int,
    m1: MachineRun,
    v1: SchedulerView,
    s: Step,
) -> bool {
    match m0.phase {
        Phase::Begin => {
            &&& v1 == v0.progressed(m0.id)
            &&& !s.notify
            &&& if m0.runs >= RUNS {
                m1 == m0.at(Phase::Refill) && s.action == Action::QuickPoll
            } else {
                m1 == m0.at(Phase::Nearby) && s.action == Action::Continue
            }
        },
        Phase::Refill => refill_step(m0, v0, m1, v1, s),
        Phase::Nearby => nearby_step(m0, v0, m1, v1, s),
        Phase::Anywhere => anywhere_step(m0, v0, start, m1, v1, s),
        Phase::Miss => v1 == v0 && miss_step(m0, v0, m1, s),
        Phase::Claim => claim_step(m0, v0, m1, v1, s),
        Phase::NearbyAgain => nearby_again_step(m0, v0, m1, v1, s),
        Phase::AnywhereAgain => anywhere_again_step(m0, v0, start, m1, v1, s),
        Phase::Wake => {
            &&& m1 == m0.at(Phase::Begin)
            &&& s == (Step { notify: false, action: Action::Continue })
            &&& v1 == (SchedulerView { polling: false, ..v0.blocked(m0.id, false) })
        },
        Phase::Done => m1 == m0 && v1 == v0 && s == (Step { notify: false, action: Action::Exit }),
    }
}

/// A step hands out a task, and then that task is gone, once; any other step keeps all tasks. The
/// processors stay as many as they are.
pub open spec fn tasks_after_step(v0: SchedulerView, v1: SchedulerView, action: Action) -> bool {
    &&& v1.cpus() == v0.cpus()
    &&& match action {
        Action::Run(task) => v0.tasks() == v1.tasks().insert(task),
        _ => v1.tasks() == v0.tasks(),
    }
}

impl View for Scheduler {
    type V = SchedulerView;

    closed spec fn view(&self) -> SchedulerView {
        SchedulerView {
            reactor: self.reactor@,
            queues: self.queues@,
            fleet: self.fleet@,
            progress: self.progress,
            polling: self.polling,
        }
    }
}

/// One round of the scheduler thread.
pub struct Round {
    /// The machines to start a thread for.
    pub start: Vec<u64>,
    /// How long to sleep after that, in microseconds.
    pub sleep: u64,
}

impl Scheduler {
    /// The queues are in order.
    pub closed spec fn queues_wf(&self) -> bool {
        self.queues.wf()
    }

    pub open spec fn wf(&self) -> bool {
        self.queues_wf() && self@.wf()
    }

    /// Creates a new scheduler, with a processor for every CPU.
    pub fn new() -> (sched: Scheduler)
        ensures
            sched.wf(),
            sched@ == SchedulerView::initial(sched@.reactor, sched@.cpus()),
            sched@.reactor.is_new(),
            sched@.tasks() == Multiset::<u64>::empty(),
    {
        Scheduler::with_processors(available())
    }

    /// Creates a new scheduler with some number of processors, but at least one.
    pub fn with_processors(cpus: usize) -> (sched: Scheduler)
        ensures
            sched.wf(),
            sched@ == SchedulerView::initial(sched@.reactor, sched@.cpus()),
            sched@.reactor.is_new(),
            sched@.cpus() == if cpus >= 1 {
                cpus as nat
            } else {
                1
            },
            sched@.tasks() == Multiset::<u64>::empty(),
    {
        Scheduler::with_reactor(Reactor::new(), cpus)
    }

    /// Creates a new scheduler for a reactor, with some number of processors, but at least one.
    pub fn with_reactor(reactor: Reactor, cpus: usize) -> (sched: Scheduler)
        requires
            reactor@.wf(),
        ensures
            sched.wf(),
            sched@ == SchedulerView::initial(
                reactor@,
                if cpus >= 1 {
                    cpus as nat
                } else {
                    1
                },
            ),
            sched@.tasks() == Multiset::<u64>::empty(),
    {
        let cpus: usize = at_least_one(cpus);
        let sched = Scheduler {
            reactor,
            queues: Queues::new(cpus),
            fleet: Fleet::new(cpus),
            progress: false,
            polling: false,
        };
        proof {
            initial_fleet_is_wf(cpus as nat);
            empty_queues_hold_no_task(cpus as nat);
        }
        sched
    }

    /// Returns a reference to the reactor.
    pub fn reactor(&self) -> (r: &Reactor)
        ensures
            r@ == self@.reactor,
    {
        &self.reactor
    }

    /// Returns a mutable reference to the reactor.
    pub fn reactor_mut(&mut self) -> (r: &mut Reactor)
        ensures
            r@ == old(self)@.reactor,
            final(self)@ == (SchedulerView { reactor: final(r)@, ..old(self)@ }),
            final(self).queues_wf() == old(self).queues_wf(),
    {
        &mut self.reactor
    }

    /// The number of processors.
    pub fn cpus(&self) -> (n: usize)
        ensures
            n == self@.cpus(),
    {
        self.queues.cpus()
    }

    /// Schedules a task, and says whether the reactor has to be notified.
    ///
    /// If the current thread is a worker thread, the task is stored into its task slot or pushed
    /// into its local task queue. Otherwise, it is pushed into the global task queue.
    pub fn schedule(&mut self, current: Option<u64>, task: u64) -> (notify: bool)
        requires
            old(self).wf(),
        ensures
            final(self).wf(),
            final(self)@ == old(self)@.scheduled(current, task),
            notify == old(self)@.scheduling_notifies(current),
            final(self)@.tasks() == old(self)@.tasks().insert(task),
    {
        if let Some(id) = current {
            if let Some(m) = self.fleet.find(id) {
                proof {
                    machines_hold_existing_processors(self@.fleet, self@.cpus(), id);
                    scheduling_adds_the_task(self@.queues, m.processor as int, task);
                }
                machine_scheduled_task(id, task, true);
                let displaced = self.queues.schedule(m.processor, task);
                return displaced && self.polling;
            }
            machine_scheduled_task(id, task, false);
        }
        proof {
            pushing_adds_the_task(self@.queues, task);
        }
        self.queues.push(task);
        self.polling
    }

    /// Says whether identifiers are left for the machines that one more round may start.
    pub fn can_start_machines(&self) -> (r: bool)
        ensures
            r == (self@.fleet.next_id + 2 <= u64::MAX),
    {
        self.fleet.can_start(2)
    }

    /// Takes an idle processor and spins up a machine to run it.
    pub fn spin_up(&mut self) -> (started: Option<u64>)
        requires
            old(self).wf(),
            old(self)@.fleet.next_id < u64::MAX,
        ensures
            final(self).wf(),
            final(self)@ == old(self)@.launched(),
            started == if old(self)@.fleet.idle.len() == 0 {
                None
            } else {
                Some(old(self)@.fleet.next_id)
            },
    {
        proof {
            spinning_up_keeps_wf(self@.fleet, self@.cpus());
        }
        self.fleet.spin_up()
    }

    /// Checks the status of running machines.
    ///
    /// If there is a machine that is stuck on a task and not making any progress, its processor
    /// will be stolen and a new machine, which is returned, will then start running it.
    pub fn check_machines(&mut self) -> (started: Option<u64>)
        requires
            old(self).wf(),
            old(self)@.fleet.next_id < u64::MAX,
        ensures
            final(self).wf(),
            final(self)@ == old(self)@.checked(),
            started == if old(self)@.fleet.any_stuck() {
                Some(old(self)@.fleet.next_id)
            } else {
                None
            },
    {
        proof {
            relieving_first_keeps_wf(self@.fleet, self@.cpus());
        }
        self.fleet.relieve_first()
    }

    /// Begins to run the scheduler: spins up the first machine, and determines how long to sleep
    /// before the first round.
    pub fn launch(&mut self, backoff: &mut Backoff) -> (round: Round)
        requires
            old(self).wf(),
            old(self)@.fleet.next_id < u64::MAX,
            old(backoff).wf(),
        ensures
            final(self).wf(),
            final(self)@ == old(self)@.launched(),
            round.start@ == if old(self)@.fleet.idle.len() == 0 {
                Seq::empty()
            } else {
                seq![old(self)@.fleet.next_id]
            },
            final(backoff).wf(),
            *final(backoff) == old(backoff).advanced(SHORTEST_DELAY),
            round.sleep == final(backoff).delay,
    {
        let mut start: Vec<u64> = Vec::new();
        if let Some(id) = self.spin_up() {
            start.push(id);
        }
        let sleep: u64 = backoff.next(SHORTEST_DELAY);
        Round { start, sleep }
    }

    /// Runs the scheduler for one round: checks the running machines, spins up another one if no
    /// thread waits for the reactor, and determines how long to sleep before the next round.
    pub fn run(&mut self, backoff: &mut Backoff) -> (round: Round)
        requires
            old(self).wf(),
            old(self)@.fleet.next_id + 2 <= u64::MAX,
            old(backoff).wf(),
        ensures
            final(self).wf(),
            final(self)@ == old(self)@.supervised(),
            round.start@ == old(self)@.started(),
            final(backoff).wf(),
            *final(backoff) == (if old(self)@.fleet.any_stuck() || old(self)@.quiet() {
                old(backoff).busy()
            } else {
                *old(backoff)
            }).advanced(SHORTEST_DELAY),
            round.sleep == final(backoff).delay,
    {
        let mut start: Vec<u64> = Vec::new();
        proof {
            relieving_first_keeps_wf(self@.fleet, self@.cpus());
        }
        if let Some(id) = self.check_machines() {
            backoff.reset();
            start.push(id);
        }
        let progress = self.progress;
        self.progress = false;
        if !progress && !self.polling {
            backoff.reset();
            if let Some(id) = self.spin_up() {
                start.push(id);
            }
        }
        let sleep: u64 = backoff.next(SHORTEST_DELAY);
        Round { start, sleep }
    }

    /// The processor of a machine.
    fn processor(&self, id: u64) -> (r: Option<usize>)
        requires
            self.wf(),
        ensures
            match r {
                Some(p) => p < self@.cpus() && self@.fleet.find(id) is Some && self@.fleet.find(
                    id,
                )->0.processor == p,
                None => self@.fleet.find(id) is None,
            },
    {
        match self.fleet.find(id) {
            Some(m) => {
                proof {
                    machines_hold_existing_processors(self@.fleet, self@.cpus(), id);
                }
                Some(m.processor)
            },
            None => None,
        }
    }

    /// Notes that a machine has made progress.
    fn note_progress(&mut self, id: u64)
        requires
            old(self).wf(),
        ensures
            final(self).wf(),
            final(self)@ == old(self)@.progressed(id),
    {
        if let Some(m) = self.fleet.find(id) {
            let new = Machine { progress: true, ..m };
            proof {
                machines_hold_existing_processors(self@.fleet, self@.cpus(), id);
                putting_keeps_wf(self@.fleet, self@.cpus(), new);
            }
            self.fleet.put(new);
        }
    }

    /// Notes that a machine blocks on the reactor, or has stopped doing so.
    fn note_polling(&mut self, id: u64, polling: bool)
        requires
            old(self).wf(),
        ensures
            final(self).wf(),
            final(self)@ == old(self)@.blocked(id, polling),
    {
        if let Some(m) = self.fleet.find(id) {
            let new = Machine { polling, ..m };
            proof {
                machines_hold_existing_processors(self@.fleet, self@.cpus(), id);
                putting_keeps_wf(self@.fleet, self@.cpus(), new);
            }
            self.fleet.put(new);
        }
    }

    /// Spins down a machine.
    pub fn spin_down(&mut self, id: u64)
        requires
            old(self).wf(),
        ensures
            final(self).wf(),
            final(self)@ == match position(old(self)@.fleet.machines, id) {
                Some(i) => SchedulerView { fleet: old(self)@.fleet.spun_down(i), ..old(self)@ },
                None => old(self)@,
            },
    {
        let ghost i = position(self@.fleet.machines, id);
        proof {
            if i is Some {
                spinning_down_keeps_wf(self@.fleet, self@.cpus(), i->0);
            }
        }
        self.fleet.spin_down(id);
    }
}

impl MachineRun {
    /// Begins the loop of a machine thread.
    pub fn new(id: u64) -> (m: MachineRun)
        ensures
            m == MachineRun::initial(id),
            m.wf(),
    {
        MachineRun { id, phase: Phase::Begin, runs: 0, fails: 0 }
    }

    /// Hands out a task that was found.
    fn run_task(&mut self, task: u64) -> (s: Step)
        requires
            old(self).wf(),
            old(self).runs < RUNS,
        ensures
            *final(self) == old(self).found(),
            final(self).wf(),
            s == (Step { notify: false, action: Action::Run(task) }),
    {
        self.phase = Phase::Begin;
        self.runs = self.runs + 1;
        self.fails = 0;
        Step { notify: false, action: Action::Run(task) }
    }

    /// Gives the global queue its turn.
    fn flush(&mut self, sched: &mut Scheduler) -> (s: Step)
        requires
            old(sched).wf(),
            old(self).wf(),
            old(self).phase is Refill,
        ensures
            final(sched).wf(),
            final(self).wf(),
            refill_step(*old(self), old(sched)@, *final(self), final(sched)@, s),
            tasks_after_step(old(sched)@, final(sched)@, s.action),
    {
        if let Some(p) = sched.processor(self.id) {
            let r = sched.queues.steal_batch(p);
            if let Moved::Retry = r {
                return Step { notify: false, action: Action::Continue };
            }
            proof {
                refilling_keeps_the_tasks(old(sched)@.queues, sched@.queues, p as int, r);
                flushing_keeps_the_tasks(sched@.queues, p as int);
            }
            sched.queues.flush_slot(p);
        }
        self.runs = 0;
        self.phase = Phase::Nearby;
        Step { notify: false, action: Action::Continue }
    }

    /// Looks for a task nearby.
    fn look_nearby(&mut self, sched: &mut Scheduler) -> (s: Step)
        requires
            old(sched).wf(),
            old(self).wf(),
            old(self).phase is Nearby,
        ensures
            final(sched).wf(),
            final(self).wf(),
            nearby_step(*old(self), old(sched)@, *final(self), final(sched)@, s),
            tasks_after_step(old(sched)@, final(sched)@, s.action),
    {
        if let Some(p) = sched.processor(self.id) {
            let r = sched.queues.find_task(p, false, 0);
            proof {
                finding_nearby_takes_one_task(old(sched)@.queues, sched@.queues, p as int, r);
            }
            match r {
                Stolen::Success(task) => {
                    return self.run_task(task);
                },
                Stolen::Retry => {
                    return Step { notify: false, action: Action::Continue };
                },
                Stolen::Empty => {},
            }
        }
        self.phase = Phase::Anywhere;
        Step { notify: false, action: Action::QuickPoll }
    }

    /// Looks for a task everywhere.
    fn look_anywhere(&mut self, sched: &mut Scheduler, start: usize) -> (s: Step)
        requires
            old(sched).wf(),
            old(self).wf(),
            old(self).phase is Anywhere,
            start < old(sched)@.cpus(),
        ensures
            final(sched).wf(),
            final(self).wf(),
            anywhere_step(*old(self), old(sched)@, start as int, *final(self), final(sched)@, s),
            tasks_after_step(old(sched)@, final(sched)@, s.action),
    {
        if let Some(p) = sched.processor(self.id) {
            let r = sched.queues.find_task(p, true, start);
            proof {
                finding_anywhere_takes_one_task(
                    old(sched)@.queues,
                    sched@.queues,
                    p as int,
                    start as int,
                    r,
                );
            }
            match r {
                Stolen::Success(task) => {
                    return self.run_task(task);
                },
                Stolen::Retry => {
                    return Step { notify: false, action: Action::Continue };
                },
                Stolen::Empty => {},
            }
        }
        self.phase = Phase::Miss;
        Step { notify: false, action: Action::Continue }
    }

    /// Decides how to go on after no task was found.
    fn miss(&mut self, sched: &Scheduler) -> (s: Step)
        requires
            sched.wf(),
            old(self).wf(),
            old(self).phase is Miss,
        ensures
            final(self).wf(),
            miss_step(*old(self), sched@, *final(self), s),
    {
        if sched.processor(self.id).is_none() {
            // The processor was stolen.
            self.phase = Phase::Done;
            return Step { notify: false, action: Action::Exit };
        }
        self.runs = 0;
        if self.fails <= YIELDS + SLEEPS {
            self.fails = self.fails + 1;
        }
        if self.fails <= YIELDS {
            // Yield the current thread a few times.
            self.phase = Phase::Begin;
            Step { notify: false, action: Action::Yield }
        } else if self.fails <= YIELDS + SLEEPS {
            // Put the current thread to sleep a few times.
            self.phase = Phase::Begin;
            Step { notify: false, action: Action::Sleep(SHORT_SLEEP) }
        } else {
            self.phase = Phase::Claim;
            Step { notify: false, action: Action::Continue }
        }
    }

    /// Claims the right to block on the reactor, or else ends.
    fn claim(&mut self, sched: &mut Scheduler) -> (s: Step)
        requires
            old(sched).wf(),
            old(self).wf(),
            old(self).phase is Claim,
        ensures
            final(sched).wf(),
            final(self).wf(),
            claim_step(*old(self), old(sched)@, *final(self), final(sched)@, s),
            tasks_after_step(old(sched)@, final(sched)@, s.action),
    {
        if sched.polling {
            sched.spin_down(self.id);
            self.phase = Phase::Done;
            return Step { notify: false, action: Action::Exit };
        }
        sched.polling = true;
        self.phase = Phase::NearbyAgain;
        Step { notify: false, action: Action::Continue }
    }

    /// Puts a task that was found back on the processor, and gives up the right to block on the
    /// reactor.
    fn keep_task(&mut self, sched: &mut Scheduler, p: usize, task: u64) -> (s: Step)
        requires
            old(sched).wf(),
            old(self).wf(),
            old(self).runs < RUNS,
            p < old(sched)@.cpus(),
        ensures
            final(sched).wf(),
            final(self).wf(),
            final(sched)@.cpus() == old(sched)@.cpus(),
            final(sched)@.tasks() == old(sched)@.tasks().insert(task),
            *final(self) == old(self).at(Phase::Begin),
            s == (Step {
                notify: old(sched)@.polling && old(sched)@.queues.local[p as int].slot is Some,
                action: Action::Continue,
            }),
            final(sched)@ == (SchedulerView {
                queues: old(sched)@.queues.scheduled(p as int, task),
                polling: false,
                ..old(sched)@
            }),
    {
        proof {
            scheduling_adds_the_task(sched@.queues, p as int, task);
        }
        machine_scheduled_task(self.id, task, true);
        let displaced = sched.queues.schedule(p, task);
        let notify = displaced && sched.polling;
        sched.polling = false;
        self.phase = Phase::Begin;
        Step { notify, action: Action::Continue }
    }

    /// Looks for a task nearby once more.
    fn look_nearby_again(&mut self, sched: &mut Scheduler) -> (s: Step)
        requires
            old(sched).wf(),
            old(self).wf(),
            old(self).phase is NearbyAgain,
        ensures
            final(sched).wf(),
            final(self).wf(),
            nearby_again_step(*old(self), old(sched)@, *final(self), final(sched)@, s),
            tasks_after_step(old(sched)@, final(sched)@, s.action),
    {
        if let Some(p) = sched.processor(self.id) {
            let r = sched.queues.find_task(p, false, 0);
            proof {
                finding_nearby_takes_one_task(old(sched)@.queues, sched@.queues, p as int, r);
            }
            match r {
                Stolen::Success(task) => {
                    return self.keep_task(sched, p, task);
                },
                Stolen::Retry => {
                    return Step { notify: false, action: Action::Continue };
                },
                Stolen::Empty => {},
            }
        }
        self.phase = Phase::AnywhereAgain;
        Step { notify: false, action: Action::QuickPoll }
    }

    /// Looks for a task everywhere once more, and if there is none, gets ready to block on the
    /// reactor.
    fn look_anywhere_again(&mut self, sched: &mut Scheduler, start: usize) -> (s: Step)
        requires
            old(sched).wf(),
            old(self).wf(),
            old(self).phase is AnywhereAgain,
            start < old(sched)@.cpus(),
        ensures
            final(sched).wf(),
            final(self).wf(),
            anywhere_again_step(
                *old(self),
                old(sched)@,
                start as int,
                *final(self),
                final(sched)@,
                s,
            ),
            tasks_after_step(old(sched)@, final(sched)@, s.action),
    {
        if let Some(p) = sched.processor(self.id) {
            let r = sched.queues.find_task(p, true, start);
            proof {
                finding_anywhere_takes_one_task(
                    old(sched)@.queues,
                    sched@.queues,
                    p as int,
                    start as int,
                    r,
                );
            }
            match r {
                Stolen::Success(task) => {
                    return self.keep_task(sched, p, task);
                },
                Stolen::Retry => {
                    return Step { notify: false, action: Action::Continue };
                },
                Stolen::Empty => {},
            }
        }
        sched.note_polling(self.id, true);
        sched.progress = true;
        self.phase = Phase::Wake;
        Step { notify: false, action: Action::Block }
    }

    /// Does the next step of a machine thread. A search at the other processors begins at `start`,
    /// which the caller picks at random.
    pub fn step(&mut self, sched: &mut Scheduler, start: usize) -> (s: Step)
        requires
            old(sched).wf(),
            old(self).wf(),
            start < old(sched)@.cpus(),
        ensures
            final(sched).wf(),
            final(self).wf(),
            machine_step(*old(self), old(sched)@, start as int, *final(self), final(sched)@, s),
            tasks_after_step(old(sched)@, final(sched)@, s.action),
    {
        match self.phase {
            Phase::Begin => {
                sched.note_progress(self.id);
                if self.runs >= RUNS {
                    self.phase = Phase::Refill;
                    Step { notify: false, action: Action::QuickPoll }
                } else {
                    self.phase = Phase::Nearby;
                    Step { notify: false, action: Action::Continue }
                }
            },
            Phase::Refill => self.flush(sched),
            Phase::Nearby => self.look_nearby(sched),
            Phase::Anywhere => self.look_anywhere(sched, start),
            Phase::Miss => self.miss(sched),
            Phase::Claim => self.claim(sched),
            Phase::NearbyAgain => self.look_nearby_again(sched),
            Phase::AnywhereAgain => self.look_anywhere_again(sched, start),
            Phase::Wake => {
                sched.note_polling(self.id, false);
                sched.polling = false;
                self.phase = Phase::Begin;
                Step { notify: false, action: Action::Continue }
            },
            Phase::Done => Step { notify: false, action: Action::Exit },
        }
    }
}

/// The thread of a machine.
pub open spec fn thread_of(m: MachineRun) -> Thread {
    Thread {
        id: m.id,
        claims: m.claims_reactor(),
        waits: m.phase is Wake,
        ended: m.phase is Done,
    }
}

/// Some machine threads beside the machines of a scheduler.
pub open spec fn crew(runs: Seq<MachineRun>, v: SchedulerView) -> Crew {
    Crew {
        threads: Seq::new(runs.len(), |i: int| thread_of(runs[i])),
        fleet: v.fleet,
        taken: v.polling,
    }
}

/// Threads and machines agree: every machine has one thread, a machine is marked as blocking if
/// and only if its thread is, a thread that has ended has no machine, and at most one thread has
/// the right to block on the reactor.
pub open spec fn threads_match(runs: Seq<MachineRun>, v: SchedulerView) -> bool {
    crew(runs, v).matches_up()
}

/// Whatever step a thread takes, it concerns no machine but its own, and threads and machines agree
/// after it. A thread gets to block on the reactor only with the right to do so.
pub proof fn steps_keep_threads_matched(
    runs: Seq<MachineRun>,
    k: int,
    v0: SchedulerView,
    start: int,
    m1: MachineRun,
    v1: SchedulerView,
    s: Step,
)
    requires
        v0.wf(),
        0 <= k < runs.len(),
        machine_step(runs[k], v0, start, m1, v1, s),
    ensures
        crew(runs, v0).stepped(k, crew(runs.update(k, m1), v1)),
        threads_match(runs, v0) ==> threads_match(runs.update(k, m1), v1),
        s.action is Block ==> runs[k].claims_reactor() && m1.claims_reactor() && m1.phase is Wake,
{
    let m0 = runs[k];
    let c0 = crew(runs, v0);
    let c1 = crew(runs.update(k, m1), v1);
    let f0 = v0.fleet;
    let f1 = v1.fleet;
    assert(c1.threads =~= c0.threads.update(k, thread_of(m1)));
    if m0.phase is Done {
        assert(c1.threads =~= c0.threads);
    }
    if let Some(m) = f0.find(m0.id) {
        let i = position(f0.machines, m0.id)->0;
        machines_hold_existing_processors(f0, v0.cpus(), m0.id);
        putting_keeps_wf(f0, v0.cpus(), Machine { progress: true, ..m });
        putting_keeps_wf(f0, v0.cpus(), Machine { polling: true, ..m });
        putting_keeps_wf(f0, v0.cpus(), Machine { polling: false, ..m });
        spinning_down_keeps_wf(f0, v0.cpus(), i);
        assert forall|id: u64| id != m0.id implies #[trigger] f1.find(id) == f0.find(id) by {
            putting_keeps_the_others(f0, v0.cpus(), Machine { progress: true, ..m }, id);
            putting_keeps_the_others(f0, v0.cpus(), Machine { polling: true, ..m }, id);
            putting_keeps_the_others(f0, v0.cpus(), Machine { polling: false, ..m }, id);
            spinning_down_keeps_the_others(f0, v0.cpus(), i, id);
        }
    }
    if threads_match(runs, v0) {
        steps_keep_the_match(c0, k, c1);
    }
}

/// The threads of the machines that are new.
pub open spec fn threads_begun(v0: SchedulerView, v1: SchedulerView) -> Seq<MachineRun> {
    Seq::new(
        (v1.fleet.next_id - v0.fleet.next_id) as nat,
        |k: int| MachineRun::initial((v0.fleet.next_id + k) as u64),
    )
}

/// A thread that begins for every new machine makes threads and machines agree again, after the
/// first machine was started and after a round of the scheduler thread.
pub proof fn starting_keeps_threads_matched(runs: Seq<MachineRun>, v: SchedulerView)
    requires
        v.wf(),
        v.fleet.next_id + 2 <= u64::MAX,
    ensures
        crew(runs, v).started(crew(runs + threads_begun(v, v.launched()), v.launched())),
        crew(runs, v).started(
            crew(runs + threads_begun(v, v.supervised()), v.supervised()),
        ),
        threads_match(runs, v) ==> threads_match(
            runs + threads_begun(v, v.launched()),
            v.launched(),
        ),
        threads_match(runs, v) ==> threads_match(
            runs + threads_begun(v, v.supervised()),
            v.supervised(),
        ),
{
    spinning_up_oversees(v.fleet, v.cpus());
    relieving_first_keeps_wf(v.fleet, v.cpus());
    relieving_first_oversees(v.fleet, v.cpus());
    spinning_up_oversees(v.fleet.first_relieved(), v.cpus());
    overseeing_is_transitive(
        v.fleet,
        v.fleet.first_relieved(),
        v.fleet.first_relieved().spun_up(),
    );
    let c0 = crew(runs, v);
    let l = v.launched();
    let w = v.supervised();
    let c1 = crew(runs + threads_begun(v, l), l);
    let c2 = crew(runs + threads_begun(v, w), w);
    assert(c1.threads =~= c0.threads + Seq::new(
        (l.fleet.next_id - v.fleet.next_id) as nat,
        |k: int| Thread::fresh((v.fleet.next_id + k) as u64),
    ));
    assert(c2.threads =~= c0.threads + Seq::new(
        (w.fleet.next_id - v.fleet.next_id) as nat,
        |k: int| Thread::fresh((v.fleet.next_id + k) as u64),
    ));
    if threads_match(runs, v) {
        starts_keep_the_match(c0, c1);
        starts_keep_the_match(c0, c2);
    }
}

/// Something that may happen to a scheduler and its threads: a thread takes a step, the first
/// machine is started or a round supervises the machines and the threads of new machines begin, or
/// a task is scheduled, or the reactor changes.
pub open spec fn threads_may_change(
    runs0: Seq<MachineRun>,
    v0: SchedulerView,
    runs1: Seq<MachineRun>,
    v1: SchedulerView,
) -> bool {
    ||| exists|k: int, start: int, m1: MachineRun, s: Step|
        {
            &&& 0 <= k < runs0.len()
            &&& #[trigger] machine_step(runs0[k], v0, start, m1, v1, s)
            &&& runs1 == runs0.update(k, m1)
        }
    ||| {
        &&& v0.fleet.next_id + 2 <= u64::MAX
        &&& runs1 == runs0 + threads_begun(v0, v1)
        &&& v1 == v0.launched() || v1 == v0.supervised()
    }
    ||| runs1 == runs0 && exists|current: Option<u64>, task: u64|
        v1 == #[trigger] v0.scheduled(current, task)
    ||| runs1 == runs0 && v1 == (SchedulerView { reactor: v1.reactor, ..v0 })
}

/// What may happen to a scheduler and its threads may happen to its crew.
proof fn lemma_crew_may_become(
    runs0: Seq<MachineRun>,
    v0: SchedulerView,
    runs1: Seq<MachineRun>,
    v1: SchedulerView,
)
    requires
        v0.wf(),
        threads_may_change(runs0, v0, runs1, v1),
    ensures
        crew(runs0, v0).may_become(crew(runs1, v1)),
{
    if exists|k: int, start: int, m1: MachineRun, s: Step|
        {
            &&& 0 <= k < runs0.len()
            &&& #[trigger] machine_step(runs0[k], v0, start, m1, v1, s)
            &&& runs1 == runs0.update(k, m1)
        } {
        let (k, start, m1, s) = choose|k: int, start: int, m1: MachineRun, s: Step|
            {
                &&& 0 <= k < runs0.len()
                &&& #[trigger] machine_step(runs0[k], v0, start, m1, v1, s)
                &&& runs1 == runs0.update(k, m1)
            };
        steps_keep_threads_matched(runs0, k, v0, start, m1, v1, s);
    } else if runs1 == runs0 && v1.fleet == v0.fleet && v1.polling == v0.polling {
        assert(crew(runs1, v1) == crew(runs0, v0));
    } else {
        starting_keeps_threads_matched(runs0, v0);
    }
}

/// The crew of a scheduler, as its life goes on.
pub open spec fn crews(states: Seq<SchedulerView>, runs: Seq<Seq<MachineRun>>) -> Seq<Crew> {
    Seq::new(states.len(), |i: int| crew(runs[i], states[i]))
}

/// The life of a scheduler and its threads, from the beginning on.
pub open spec fn is_life(states: Seq<SchedulerView>, runs: Seq<Seq<MachineRun>>) -> bool {
    &&& runs.len() == states.len() > 0
    &&& states[0] == SchedulerView::initial(states[0].reactor, states[0].cpus())
    &&& runs[0] == Seq::<MachineRun>::empty()
    &&& forall|i: int| 0 <= i < states.len() ==> (#[trigger] states[i]).wf()
    &&& forall|i: int|
        0 <= i < states.len() - 1 ==> threads_may_change(
            #[trigger] runs[i],
            states[i],
            runs[i + 1],
            states[i + 1],
        )
}

/// The crew begins in agreement and changes only as it may.
proof fn lemma_crews(states: Seq<SchedulerView>, runs: Seq<Seq<MachineRun>>)
    requires
        is_life(states, runs),
    ensures
        crews(states, runs)[0].matches_up(),
        forall|i: int|
            0 <= i < states.len() - 1 ==> (#[trigger] crews(states, runs)[i]).may_become(
                crews(states, runs)[i + 1],
            ),
{
    assert forall|i: int| 0 <= i < states.len() - 1 implies (#[trigger] crews(
        states,
        runs,
    )[i]).may_become(crews(states, runs)[i + 1]) by {
        assert(states[i].wf());
        assert(threads_may_change(runs[i], states[i], runs[i + 1], states[i + 1]));
        lemma_crew_may_become(runs[i], states[i], runs[i + 1], states[i + 1]);
    }
}

/// In the whole life of a scheduler, threads and machines agree.
pub proof fn threads_always_match(
    states: Seq<SchedulerView>,
    runs: Seq<Seq<MachineRun>>,
    n: int,
)
    requires
        is_life(states, runs),
        0 <= n < states.len(),
    ensures
        threads_match(runs[n], states[n]),
{
    lemma_crews(states, runs);
    crews_always_match(crews(states, runs), n);
}

/// From when a thread begins to block on the reactor until it stops, its machine keeps its
/// processor, whatever other threads and the scheduler thread do, and still has it then.
pub proof fn blocking_machine_keeps_its_processor(
    states: Seq<SchedulerView>,
    runs: Seq<Seq<MachineRun>>,
    k: int,
    a: int,
    b: int,
)
    requires
        is_life(states, runs),
        0 <= a <= b < states.len(),
        0 <= k < runs[a].len(),
        forall|i: int| a <= i < b ==> (#[trigger] runs[i])[k].phase is Wake,
        states[a].fleet.find(runs[a][k].id) is Some,
    ensures
        k < runs[b].len(),
        runs[b][k].id == runs[a][k].id,
        states[b].fleet.find(runs[a][k].id) matches Some(m) && m.processor == states[a].fleet.find(
            runs[a][k].id,
        )->0.processor,
{
    let c = crews(states, runs);
    lemma_crews(states, runs);
    assert forall|i: int| a <= i < b implies (#[trigger] c[i]).threads[k].waits by {
        threads_are_never_forgotten(c, a, i);
        assert(runs[i][k].phase is Wake);
    }
    blocking_thread_keeps_its_processor(c, k, a, b);
}

/// At no time do two threads have the right to block on the reactor, and the scheduler says that
/// one has it if and only if one has.
pub proof fn one_thread_blocks_at_a_time(runs: Seq<MachineRun>, v: SchedulerView)
    requires
        threads_match(runs, v),
    ensures
        forall|i: int, j: int|
            0 <= i < j < runs.len() ==> !((#[trigger] runs[i]).claims_reactor() && (
            #[trigger] runs[j]).claims_reactor()),
        v.polling <==> exists|i: int| 0 <= i < runs.len() && (#[trigger] runs[i]).claims_reactor(),
{
    let t = crew(runs, v).threads;
    assert forall|i: int, j: int| 0 <= i < j < runs.len() implies !((
    #[trigger] runs[i]).claims_reactor() && (#[trigger] runs[j]).claims_reactor()) by {
        assert(!(t[i].claims && t[j].claims));
    }
    if v.polling {
        let i = choose|i: int| 0 <= i < t.len() && (#[trigger] t[i]).claims;
        assert(runs[i].claims_reactor());
    } else if exists|i: int| 0 <= i < runs.len() && (#[trigger] runs[i]).claims_reactor() {
        let i = choose|i: int| 0 <= i < runs.len() && (#[trigger] runs[i]).claims_reactor();
        assert(t[i].claims);
    }
}

/// The machines that a round starts are the new ones.
pub proof fn rounds_start_the_new_machines(v: SchedulerView)
    requires
        v.wf(),
        v.fleet.next_id + 2 <= u64::MAX,
    ensures
        v.started().len() == threads_begun(v, v.supervised()).len(),
        forall|k: int|
            0 <= k < v.started().len() ==> #[trigger] threads_begun(v, v.supervised())[k]
                == MachineRun::initial(v.started()[k]),
{
    relieving_first_keeps_wf(v.fleet, v.cpus());
}

/// A machine that still has its processor blocks on the reactor only when there is nothing to run:
/// the global queue, all local queues and its own slot are empty.
pub proof fn machine_blocks_only_without_tasks(
    m0: MachineRun,
    v0: SchedulerView,
    start: int,
    m1: MachineRun,
    v1: SchedulerView,
    s: Step,
)
    requires
        v0.fleet.find(m0.id) is Some,
        machine_step(m0, v0, start, m1, v1, s),
        s.action is Block,
    ensures
        v0.queues.global.len() == 0,
        v0.queues.local_queues_empty(),
        v0.queues.local[v0.fleet.find(m0.id)->0.processor as int].slot is None,
{
}

/// A machine that blocks on the reactor keeps its processor, however often machines are checked.
pub proof fn blocking_machine_is_not_relieved(v: SchedulerView, id: u64)
    requires
        v.wf(),
        v.fleet.next_id < u64::MAX,
        v.fleet.find(id) is Some,
        v.fleet.find(id)->0.polling,
    ensures
        v.checked().fleet.find(id) == v.fleet.find(id),
{
    let i = position(v.fleet.machines, id)->0;
    let w = v.checked().fleet;
    relieving_first_keeps_wf(v.fleet, v.cpus());
    assert(w.machines[i] == v.fleet.machines[i]);
    identifier_names_one_machine(w, i);
}

/// A machine that is stuck on a task, and the first such, loses its processor to a new machine,
/// which starts, and its identifier finds nothing any more.
pub proof fn first_stuck_machine_is_relieved(v: SchedulerView, i: int)
    requires
        v.wf(),
        v.fleet.next_id < u64::MAX,
        v.fleet.first_stuck(i),
    ensures
        v.checked().fleet.find(v.fleet.machines[i].id) is None,
        v.checked().fleet.find(v.fleet.next_id) == Some(
            Machine::fresh(v.fleet.next_id, v.fleet.machines[i].processor),
        ),
{
    let w = v.checked().fleet;
    let j = choose|j: int| v.fleet.first_stuck(j);
    assert(i == j) by {
        if i < j {
            assert(!v.fleet.machines[i].stuck());
        } else if j < i {
            assert(!v.fleet.machines[j].stuck());
        }
    }
    relieving_first_keeps_wf(v.fleet, v.cpus());
    assert(w.machines[i] == Machine::fresh(v.fleet.next_id, v.fleet.machines[i].processor));
    identifier_names_one_machine(w, i);
    assert forall|k: int| 0 <= k < w.machines.len() implies (#[trigger] w.machines[k]).id
        != v.fleet.machines[i].id by {
        if k < i {
            assert(v.fleet.machines[k].id != v.fleet.machines[i].id);
        } else if i < k {
            assert(v.fleet.machines[i].id != v.fleet.machines[k].id);
        } else {
            assert(v.fleet.machines[i].id < v.fleet.next_id);
        }
    }
}

/// Supervision never touches a task, nor the right to block on the reactor.
pub proof fn supervision_keeps_tasks_and_claim(v: SchedulerView)
    ensures
        v.supervised().queues == v.queues,
        v.supervised().tasks() == v.tasks(),
        v.supervised().polling == v.polling,
{
}

/// A machine runs at most `RUNS` tasks in a row before the global queue gets its turn, and
/// then tasks leave the global queue for the processor, unless the attempt has to be repeated, and
/// its slot is empty.
pub proof fn global_queue_is_not_starved(
    m0: MachineRun,
    v0: SchedulerView,
    start: int,
    m1: MachineRun,
    v1: SchedulerView,
    s: Step,
)
    requires
        m0.wf(),
        v0.wf(),
        machine_step(m0, v0, start, m1, v1, s),
    ensures
        s.action is Run ==> m1.runs == m0.runs + 1 && m1.runs <= RUNS,
        m0.phase is Begin && m0.runs == RUNS ==> m1.phase is Refill,
        m0.phase is Refill && m1.phase is Nearby ==> (v0.fleet.find(m0.id) matches Some(m) ==> {
            &&& v0.queues.global.len() > 0 ==> v1.queues.global.len() < v0.queues.global.len()
            &&& v1.queues.local[m.processor as int].slot is None
        }),
{
    machines_hold_existing_processors(v0.fleet, v0.cpus(), m0.id);
}

/// A machine that ends because another thread waits for the reactor gives its processor back.
pub proof fn ended_machine_holds_no_processor(
    m0: MachineRun,
    v0: SchedulerView,
    start: int,
    m1: MachineRun,
    v1: SchedulerView,
    s: Step,
)
    requires
        v0.wf(),
        machine_step(m0, v0, start, m1, v1, s),
        !(m0.phase is Done),
        s.action is Exit,
    ensures
        v1.fleet.find(m0.id) is None,
        v0.fleet.find(m0.id) matches Some(m) ==> v1.fleet.idle == v0.fleet.idle.push(m.processor),
{
    if v0.fleet.find(m0.id) is Some {
        let i = position(v0.fleet.machines, m0.id)->0;
        spinning_down_keeps_wf(v0.fleet, v0.cpus(), i);
    }
}

/// Whatever a step does is consistent with the tasks: one that hands out a task takes it away,
/// once, and any other keeps all tasks.
pub proof fn steps_lose_no_task(
    m0: MachineRun,
    v0: SchedulerView,
    start: int,
    m1: MachineRun,
    v1: SchedulerView,
    s: Step,
)
    requires
        v0.wf(),
        0 <= start < v0.cpus(),
        machine_step(m0, v0, start, m1, v1, s),
    ensures
        tasks_after_step(v0, v1, s.action),
{
    machines_hold_existing_processors(v0.fleet, v0.cpus(), m0.id);
    if let Some(m) = v0.fleet.find(m0.id) {
        let p = m.processor as int;
        let q0 = v0.queues;
        match m0.phase {
            Phase::Refill => {
                if m1.phase is Nearby {
                    let (q, r) = choose|q: QueuesView, r: Moved|
                        {
                            &&& #[trigger] refilled(q0, q, p, r)
                            &&& !(r is Retry)
                            &&& v1 == (SchedulerView { queues: q.flushed(p), ..v0 })
                        };
                    refilling_keeps_the_tasks(q0, q, p, r);
                    flushing_keeps_the_tasks(q, p);
                }
            },
            Phase::Nearby => {
                let r = match s.action {
                    Action::Run(task) => Stolen::Success(task),
                    Action::Continue => Stolen::Retry,
                    _ => Stolen::Empty,
                };
                finding_nearby_takes_one_task(q0, v1.queues, p, r);
            },
            Phase::Anywhere => {
                let r = match s.action {
                    Action::Run(task) => Stolen::Success(task),
                    _ => if m1 == m0 {
                        Stolen::Retry
                    } else {
                        Stolen::Empty
                    },
                };
                finding_anywhere_takes_one_task(q0, v1.queues, p, start, r);
            },
            Phase::NearbyAgain => {
                if s.action == Action::Continue && m1 != m0 {
                    let (q, task) = choose|q: QueuesView, task: u64|
                        {
                            &&& #[trigger] found_nearby(q0, q, p, Stolen::Success(task))
                            &&& task_kept(m0, v0, q, p, task, m1, v1, s)
                        };
                    finding_nearby_takes_one_task(q0, q, p, Stolen::Success(task));
                    scheduling_adds_the_task(q, p, task);
                }
            },
            Phase::AnywhereAgain => {
                if s.action == Action::Continue && m1 != m0 {
                    let (q, task) = choose|q: QueuesView, task: u64|
                        {
                            &&& #[trigger] found_anywhere(
                                q0,
                                q,
                                p,
                                start,
                                Stolen::Success(task),
                            )
                            &&& task_kept(m0, v0, q, p, task, m1, v1, s)
                        };
                    finding_anywhere_takes_one_task(q0, q, p, start, Stolen::Success(task));
                    scheduling_adds_the_task(q, p, task);
                }
            },
            _ => {},
        }
    }
}

/// Something that may happen to a scheduler: a task is scheduled, a machine thread takes a step,
/// the reactor changes, a machine is spun up or down, or the scheduler thread does a round.
pub open spec fn may_happen(v0: SchedulerView, change: Change, v1: SchedulerView) -> bool {
    match change {
        Change::Scheduled(task) => exists|current: Option<u64>|
            v1 == #[trigger] v0.scheduled(current, task),
        Change::HandedOut(task) => exists|m0: MachineRun, start: int, m1: MachineRun, s: Step|
            {
                &&& 0 <= start < v0.cpus()
                &&& #[trigger] machine_step(m0, v0, start, m1, v1, s)
                &&& s.action == Action::Run(task)
            },
        Change::Unchanged => {
            ||| exists|m0: MachineRun, start: int, m1: MachineRun, s: Step|
                {
                    &&& 0 <= start < v0.cpus()
                    &&& #[trigger] machine_step(m0, v0, start, m1, v1, s)
                    &&& !(s.action is Run)
                }
            ||| v1 == (SchedulerView { reactor: v1.reactor, ..v0 })
            ||| v1 == (SchedulerView { fleet: v1.fleet, ..v0 })
            ||| v1 == v0.supervised()
        },
    }
}

/// In the whole life of a scheduler no task is lost and none is run more often than it was
/// scheduled: at any time the tasks that were scheduled are those that were handed out and those
/// that wait.
pub proof fn scheduler_loses_no_task(states: Seq<SchedulerView>, calls: Seq<Change>)
    requires
        states.len() == calls.len() + 1,
        states[0] == SchedulerView::initial(states[0].reactor, states[0].cpus()),
        forall|i: int| 0 <= i < states.len() ==> (#[trigger] states[i]).wf(),
        forall|i: int|
            0 <= i < calls.len() ==> may_happen(states[i], #[trigger] calls[i], states[i + 1]),
    ensures
        scheduled(calls) == handed_out(calls).add(states.last().tasks()),
{
    let waiting = Seq::new(states.len(), |i: int| states[i].tasks());
    empty_queues_hold_no_task(states[0].cpus());
    assert forall|i: int| 0 <= i < calls.len() implies changes(
        waiting[i],
        #[trigger] calls[i],
        waiting[i + 1],
    ) by {
        let v0 = states[i];
        let v1 = states[i + 1];
        assert(v0.wf());
        assert(may_happen(v0, calls[i], v1));
        match calls[i] {
            Change::Scheduled(task) => {
                let current = choose|current: Option<u64>|
                    v1 == #[trigger] v0.scheduled(current, task);
                pushing_adds_the_task(v0.queues, task);
                if let Some(p) = v0.current_processor(current) {
                    machines_hold_existing_processors(v0.fleet, v0.cpus(), current->0);
                    scheduling_adds_the_task(v0.queues, p as int, task);
                }
            },
            Change::HandedOut(task) => {
                let (m0, start, m1, s) = choose|
                    m0: MachineRun,
                    start: int,
                    m1: MachineRun,
                    s: Step,
                |
                    {
                        &&& 0 <= start < v0.cpus()
                        &&& #[trigger] machine_step(m0, v0, start, m1, v1, s)
                        &&& s.action == Action::Run(task)
                    };
                steps_lose_no_task(m0, v0, start, m1, v1, s);
            },
            Change::Unchanged => {
                if exists|m0: MachineRun, start: int, m1: MachineRun, s: Step|
                    {
                        &&& 0 <= start < v0.cpus()
                        &&& #[trigger] machine_step(m0, v0, start, m1, v1, s)
                        &&& !(s.action is Run)
                    } {
                    let (m0, start, m1, s) = choose|
                        m0: MachineRun,
                        start: int,
                        m1: MachineRun,
                        s: Step,
                    |
                        {
                            &&& 0 <= start < v0.cpus()
                            &&& #[trigger] machine_step(m0, v0, start, m1, v1, s)
                            &&& !(s.action is Run)
                        };
                    steps_lose_no_task(m0, v0, start, m1, v1, s);
                }
            },
        }
    }
    every_task_is_handed_out_or_waits(waiting, calls);
}

} // verus!

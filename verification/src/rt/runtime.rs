//! The runtime: its state, and the steps by which a machine thread and the driving thread change
//! it.
//!
//! A step is a decision. What it cannot do itself (run a task, sleep, poll for I/O events) it
//! returns as an action, and the thread that performs the action then asks for the next step. The
//! state is meant to be kept behind a lock, which is held for a step and not for an action.

use crate::action::{Action, Step, RUNS, SHORT_SLEEP, SLEEPS, YIELDS};
use crate::backoff::Backoff;
use crate::cpus::{at_least_one, available};
use crate::fleet::{
    all_processors, identifier_names_one_machine, initial_fleet_is_wf,
    machines_hold_existing_processors, new_machines_have_new_identifiers, parking_keeps_wf,
    parking_keeps_who_is_found, position, putting_keeps_wf, putting_keeps_who_is_found,
    relieving_keeps_wf, relieving_machines_are_listed, retiring_keeps_the_others_found,
    retiring_keeps_wf, spinning_up_keeps_wf, stuck_among, stuck_among_is_bounded,
    unparking_keeps_wf, unparking_keeps_who_is_found, Fleet, FleetView, Machine,
};
use crate::history::{changes, every_task_is_handed_out_or_waits, handed_out, scheduled, Change};
use crate::processor::{
    empty_queues_hold_no_task, finding_global_takes_one_task, finding_in_others_takes_one_task,
    finding_nearby_takes_one_task, flushing_keeps_the_tasks, found_in_others, found_nearby,
    pushing_adds_the_task, scheduling_adds_the_task, stole_from_global, Queues, QueuesView,
};
use crate::queue::Stolen;
use crate::rt::reactor::{Reactor, ReactorView};
use crate::tracing::rt::machine_scheduled_task;
use vstd::multiset::Multiset;
use vstd::prelude::*;

verus! {

/// The shortest delay between two rounds of the driving thread, in microseconds.
pub const SHORTEST_DELAY: u64 = 1000;

/// An async runtime.
pub struct Runtime {
    /// The reactor.
    reactor: Reactor,
    /// The global queue of tasks, and those of the processors.
    queues: Queues,
    /// Running machines and idle processors. While a machine is polling the reactor, it is parked.
    fleet: Fleet,
    /// Set to `true` every time before a machine blocks polling the reactor.
    progress: bool,
}

/// The state of a runtime.
#[verifier::ext_equal]
pub struct RuntimeView {
    pub reactor: ReactorView,
    pub queues: QueuesView,
    pub fleet: FleetView,
    pub progress: bool,
}

impl RuntimeView {
    /// A runtime in which nothing has happened yet.
    pub open spec fn initial(reactor: ReactorView, cpus: nat) -> RuntimeView {
        RuntimeView {
            reactor,
            queues: QueuesView::empty(cpus),
            fleet: FleetView::initial(cpus),
            progress: false,
        }
    }

    /// The number of processors.
    pub open spec fn cpus(self) -> nat {
        self.queues.local.len()
    }

    /// There is a processor, each one is idle or held by a machine, and the reactor is in order.
    pub open spec fn wf(self) -> bool {
        &&& self.cpus() >= 1
        &&& self.fleet.wf(self.cpus())
        &&& forall|i: int|
            0 <= i < self.fleet.machines.len() ==> !(#[trigger] self.fleet.machines[i]).polling
        &&& self.fleet.parked matches Some(m) ==> !m.polling
        &&& self.reactor.wf()
    }

    /// A machine is polling the reactor.
    pub open spec fn polling(self) -> bool {
        self.fleet.parked is Some
    }

    /// All tasks that wait to be run, each as often as it occurs.
    pub open spec fn tasks(self) -> Multiset<u64> {
        self.queues.tasks()
    }

    /// The processor of the machine that runs on the current thread, if any.
    pub open spec fn current_processor(self, current: Option<u64>) -> Option<usize> {
        match current {
            Some(id) => match self.fleet.find(id) {
                Some(m) => Some(m.processor),
                None => None,
            },
            None => None,
        }
    }

    /// A task scheduled from the current thread: on the processor of its machine, or else in the
    /// global queue.
    pub open spec fn scheduled(self, current: Option<u64>, task: u64) -> RuntimeView {
        let queues = match self.current_processor(current) {
            Some(p) => self.queues.scheduled(p as int, task),
            None => self.queues.pushed(task),
        };
        RuntimeView { queues, ..self }
    }

    /// Scheduling a task puts one into a queue, where other threads can find it.
    pub open spec fn scheduling_notifies(self, current: Option<u64>) -> bool {
        match self.current_processor(current) {
            Some(p) => self.queues.local[p as int].slot is Some,
            None => true,
        }
    }

    /// The task of a machine has asked to yield.
    pub open spec fn yielded(self, current: Option<u64>) -> RuntimeView {
        match current {
            Some(id) => match self.fleet.find(id) {
                Some(m) => RuntimeView {
                    fleet: self.fleet.put(Machine { yielding: true, ..m }),
                    ..self
                },
                None => self,
            },
            None => self,
        }
    }

    /// A machine begins another round: it has made progress, and if its task has asked to yield,
    /// the task in the slot has to queue up behind the others.
    pub open spec fn round_begun(self, id: u64) -> RuntimeView {
        match self.fleet.find(id) {
            Some(m) => RuntimeView {
                queues: if m.yielding {
                    self.queues.flushed(m.processor as int)
                } else {
                    self.queues
                },
                fleet: self.fleet.put(Machine { progress: true, yielding: false, ..m }),
                ..self
            },
            None => self,
        }
    }

    /// Beginning another round puts a task into a queue.
    pub open spec fn round_notifies(self, id: u64) -> bool {
        &&& self.fleet.find(id) matches Some(m)
        &&& m.yielding
        &&& self.queues.local[m.processor as int].slot is Some
    }

    /// The machines to start: for those that are stuck, and if no machine is polling the reactor
    /// or was since the last round, one more.
    pub open spec fn machines_made(self) -> RuntimeView {
        let fleet = self.fleet.all_relieved();
        RuntimeView {
            fleet: if !self.polling() && !self.progress {
                fleet.spun_up()
            } else {
                fleet
            },
            progress: self.progress && self.polling(),
            ..self
        }
    }

    /// How many machines there are to start.
    pub open spec fn machines_to_make(self) -> nat {
        let stuck = stuck_among(self.fleet.machines, self.fleet.machines.len() as int);
        if !self.polling() && !self.progress && self.fleet.idle.len() > 0 {
            stuck + 1
        } else {
            stuck
        }
    }

    /// The threads of these machines, about to begin.
    pub open spec fn threads_to_start(self) -> Seq<MachineRun> {
        Seq::new(
            self.machines_to_make(),
            |k: int| MachineRun::initial((self.fleet.next_id + k) as u64),
        )
    }
}

/// How far a machine thread is in its loop.
#[derive(Clone, Copy, Debug, PartialEq, Eq, Structural)]
pub enum Phase {
    /// Begin another round.
    Begin,
    /// Give the global queue its turn.
    Refill,
    /// Look for a task nearby.
    Nearby,
    /// Look for a task at the other processors.
    Others,
    /// No task was found.
    Miss,
    /// No task was found for some time.
    Idle,
    /// Polling the reactor is over.
    Wake,
    /// The thread has ended.
    Done,
}

/// The loop of a machine thread.
#[derive(Clone, Copy, Debug, PartialEq, Eq, Structural)]
pub struct MachineRun {
    /// The machine.
    pub id: u64,
    /// How far the thread is.
    pub phase: Phase,
    /// The number of times the thread found work in a row.
    pub runs: u32,
    /// The number of times the thread didn't find work in a row.
    pub fails: u32,
}

impl MachineRun {
    /// A state that can be reached.
    pub open spec fn wf(self) -> bool {
        &&& self.runs <= RUNS
        &&& self.runs == RUNS ==> self.phase is Begin || self.phase is Refill
        &&& self.fails <= YIELDS + SLEEPS
    }

    /// The state in which a machine thread starts.
    pub open spec fn initial(id: u64) -> MachineRun {
        MachineRun { id, phase: Phase::Begin, runs: 0, fails: 0 }
    }

    /// Another phase.
    pub open spec fn at(self, phase: Phase) -> MachineRun {
        MachineRun { phase, ..self }
    }

    /// A task was found.
    pub open spec fn found(self) -> MachineRun {
        MachineRun {
            phase: Phase::Begin,
            runs: (self.runs + 1) as u32,
            fails: 0,
            ..self
        }
    }
}

/// A poll of the reactor without waiting, unless a machine is polling it already.
pub open spec fn quick_poll_action(v: RuntimeView) -> Action {
    if v.polling() {
        Action::Continue
    } else {
        Action::QuickPoll
    }
}

/// A step that gives the global queue its turn: a task from it, and then the task in the slot, go
/// to the back of the local queue.
pub open spec fn refill_step(
    m0: MachineRun,
    v0: RuntimeView,
    m1: MachineRun,
    v1: RuntimeView,
    s: Step,
) -> bool {
    let next = MachineRun { phase: Phase::Nearby, runs: 0, ..m0 };
    &&& s.action == Action::Continue
    &&& match v0.fleet.find(m0.id) {
        None => m1 == next && v1 == v0 && !s.notify,
        Some(m) => {
            let p = m.processor as int;
            ||| v0.queues.global.len() > 0 && m1 == m0 && v1 == v0 && !s.notify
            ||| {
                &&& v0.queues.global.len() == 0
                &&& m1 == next
                &&& v1 == (RuntimeView { queues: v0.queues.flushed(p), ..v0 })
                &&& s.notify == v0.queues.local[p].slot is Some
            }
            ||| {
                &&& m1 == next
                &&& s.notify
                &&& exists|q: QueuesView, task: u64|
                    {
                        &&& #[trigger] stole_from_global(v0.queues, q, p, Stolen::Success(task))
                        &&& v1 == (RuntimeView {
                            queues: q.scheduled(p, task).flushed(p),
                            ..v0
                        })
                    }
            }
        },
    }
}

/// A step that looks for a task nearby.
pub open spec fn nearby_step(
    m0: MachineRun,
    v0: RuntimeView,
    m1: MachineRun,
    v1: RuntimeView,
    s: Step,
) -> bool {
    &&& !s.notify
    &&& match v0.fleet.find(m0.id) {
        None => m1 == m0.at(Phase::Others) && v1 == v0 && s.action == quick_poll_action(v0),
        Some(m) => {
            let p = m.processor as int;
            &&& v1 == (RuntimeView { queues: v1.queues, ..v0 })
            &&& match s.action {
                Action::Run(task) => m1 == m0.found() && found_nearby(
                    v0.queues,
                    v1.queues,
                    p,
                    Stolen::Success(task),
                ),
                _ => {
                    ||| m1 == m0 && s.action == Action::Continue && found_nearby(
                        v0.queues,
                        v1.queues,
                        p,
                        Stolen::Retry,
                    )
                    ||| m1 == m0.at(Phase::Others) && s.action == quick_poll_action(v0)
                        && found_nearby(v0.queues, v1.queues, p, Stolen::Empty)
                },
            }
        },
    }
}

/// A step that looks for a task at the other processors.
pub open spec fn others_step(
    m0: MachineRun,
    v0: RuntimeView,
    start: int,
    m1: MachineRun,
    v1: RuntimeView,
    s: Step,
) -> bool {
    &&& !s.notify
    &&& match v0.fleet.find(m0.id) {
        None => m1 == m0.at(Phase::Miss) && v1 == v0 && s.action == Action::Continue,
        Some(m) => {
            let p = m.processor as int;
            &&& v1 == (RuntimeView { queues: v1.queues, ..v0 })
            &&& match s.action {
                Action::Run(task) => m1 == m0.found() && found_in_others(
                    v0.queues,
                    v1.queues,
                    p,
                    start,
                    Stolen::Success(task),
                ),
                _ => m1 == m0.at(Phase::Miss) && s.action == Action::Continue && found_in_others(
                    v0.queues,
                    v1.queues,
                    p,
                    start,
                    Stolen::Empty,
                ),
            }
        },
    }
}

/// A step after no task was found: the thread yields a few times, sleeps a few times, and then
/// turns idle. Without a processor it ends.
pub open spec fn miss_step(m0: MachineRun, v0: RuntimeView, m1: MachineRun, s: Step) -> bool {
    &&& !s.notify
    &&& if v0.fleet.find(m0.id) is None {
        m1 == m0.at(Phase::Done) && s.action == Action::Exit
    } else if m0.fails < YIELDS {
        &&& s.action == Action::Yield
        &&& m1 == (MachineRun {
            phase: Phase::Begin,
            runs: 0,
            fails: (m0.fails + 1) as u32,
            ..m0
        })
    } else if m0.fails < YIELDS + SLEEPS {
        &&& s.action == Action::Sleep(SHORT_SLEEP)
        &&& m1 == (MachineRun {
            phase: Phase::Begin,
            runs: 0,
            fails: (m0.fails + 1) as u32,
            ..m0
        })
    } else {
        &&& s.action == Action::Continue
        &&& m1 == (MachineRun { phase: Phase::Idle, runs: 0, fails: 0, ..m0 })
    }
}

/// A task that an idle machine found after all goes back to its processor, to be run in the next
/// round.
pub open spec fn task_kept(
    m0: MachineRun,
    v0: RuntimeView,
    q: QueuesView,
    p: int,
    task: u64,
    m1: MachineRun,
    v1: RuntimeView,
    s: Step,
) -> bool {
    &&& m1 == m0.at(Phase::Begin)
    &&& s == (Step { notify: q.local[p].slot is Some, action: Action::Continue })
    &&& v1 == (RuntimeView { queues: q.scheduled(p, task), ..v0 })
}

/// A step of an idle machine: it looks for a task once more. If there is none and no machine is
/// polling the reactor, it parks itself and does so. Otherwise it gives its processor back and
/// ends.
pub open spec fn idle_step(
    m0: MachineRun,
    v0: RuntimeView,
    start: int,
    m1: MachineRun,
    v1: RuntimeView,
    s: Step,
) -> bool {
    match v0.fleet.find(m0.id) {
        None => {
            &&& m1 == m0.at(Phase::Done)
            &&& v1 == v0
            &&& s == (Step { notify: false, action: Action::Exit })
        },
        Some(m) => {
            let p = m.processor as int;
            match s.action {
                Action::Continue => {
                    // The search has to be repeated, or has found a task.
                    ||| m1 == m0 && v1 == v0 && !s.notify && found_nearby(
                        v0.queues,
                        v0.queues,
                        p,
                        Stolen::Retry,
                    )
                    ||| exists|q: QueuesView, task: u64|
                        {
                            &&& #[trigger] found_nearby(
                                v0.queues,
                                q,
                                p,
                                Stolen::Success(task),
                            )
                            &&& task_kept(m0, v0, q, p, task, m1, v1, s)
                        }
                    ||| found_nearby(v0.queues, v0.queues, p, Stolen::Empty) && exists|
                        q: QueuesView,
                        task: u64,
                    |
                        {
                            &&& #[trigger] found_in_others(
                                v0.queues,
                                q,
                                p,
                                start,
                                Stolen::Success(task),
                            )
                            &&& task_kept(m0, v0, q, p, task, m1, v1, s)
                        }
                },
                _ => {
                    let i = position(v0.fleet.machines, m0.id);
                    &&& !s.notify
                    &&& found_nearby(v0.queues, v0.queues, p, Stolen::Empty)
                    &&& found_in_others(v0.queues, v0.queues, p, start, Stolen::Empty)
                    &&& if v0.polling() {
                        &&& s.action == Action::Exit
                        &&& m1 == m0.at(Phase::Done)
                        &&& v1 == match i {
                            Some(i) => RuntimeView { fleet: v0.fleet.retired(i), ..v0 },
                            None => v0,
                        }
                    } else {
                        &&& s.action == Action::Block
                        &&& m1 == m0.at(Phase::Wake)
                        &&& i is Some
                        &&& v1 == (RuntimeView {
                            fleet: v0.fleet.parked_at(i->0),
                            progress: true,
                            ..v0
                        })
                    }
                },
            }
        },
    }
}

/// A step after polling the reactor is over: the machine is back among the others.
pub open spec fn wake_step(
    m0: MachineRun,
    v0: RuntimeView,
    m1: MachineRun,
    v1: RuntimeView,
    s: Step,
) -> bool {
    &&& !s.notify
    &&& if v0.fleet.parked is Some && v0.fleet.parked->0.id == m0.id {
        &&& s.action == Action::Continue
        &&& m1 == m0.at(Phase::Begin)
        &&& v1 == (RuntimeView { fleet: v0.fleet.unparked(), progress: true, ..v0 })
    } else {
        &&& s.action == Action::Exit
        &&& m1 == m0.at(Phase::Done)
        &&& v1 == v0
    }
}

/// A step of a machine thread.
pub open spec fn machine_step(
    m0: MachineRun,
    v0: RuntimeView,
    start: int,
    m1: MachineRun,
    v1: RuntimeView,
    s: Step,
) -> bool {
    match m0.phase {
        Phase::Begin => {
            &&& v1 == v0.round_begun(m0.id)
            &&& s.notify == v0.round_notifies(m0.id)
            &&& if m0.runs >= RUNS {
                m1 == m0.at(Phase::Refill) && s.action == quick_poll_action(v0)
            } else {
                m1 == m0.at(Phase::Nearby) && s.action == Action::Continue
            }
        },
        Phase::Refill => refill_step(m0, v0, m1, v1, s),
        Phase::Nearby => nearby_step(m0, v0, m1, v1, s),
        Phase::Others => others_step(m0, v0, start, m1, v1, s),
        Phase::Miss => v1 == v0 && miss_step(m0, v0, m1, s),
        Phase::Idle => idle_step(m0, v0, start, m1, v1, s),
        Phase::Wake => wake_step(m0, v0, m1, v1, s),
        Phase::Done => m1 == m0 && v1 == v0 && s == (Step { notify: false, action: Action::Exit }),
    }
}

/// A step hands out a task, and then that task is gone, once; any other step keeps all tasks. The
/// processors stay as many as they are.
pub open spec fn tasks_after_step(v0: RuntimeView, v1: RuntimeView, action: Action) -> bool {
    &&& v1.cpus() == v0.cpus()
    &&& match action {
        Action::Run(task) => v0.tasks() == v1.tasks().insert(task),
        _ => v1.tasks() == v0.tasks(),
    }
}

impl View for Runtime {
    type V = RuntimeView;

    closed spec fn view(&self) -> RuntimeView {
        RuntimeView {
            reactor: self.reactor@,
            queues: self.queues@,
            fleet: self.fleet@,
            progress: self.progress,
        }
    }
}

impl Runtime {
    /// The queues are in order.
    pub closed spec fn queues_wf(&self) -> bool {
        self.queues.wf()
    }

    pub open spec fn wf(&self) -> bool {
        self.queues_wf() && self@.wf()
    }

    /// Creates a new runtime, with a processor for every CPU.
    pub fn new() -> (rt: Runtime)
        ensures
            rt.wf(),
            rt@ == RuntimeView::initial(rt@.reactor, rt@.cpus()),
            rt@.reactor.is_new(),
            rt@.tasks() == Multiset::<u64>::empty(),
    {
        Runtime::with_processors(available())
    }

    /// Creates a new runtime with some number of processors, but at least one.
    pub fn with_processors(cpus: usize) -> (rt: Runtime)
        ensures
            rt.wf(),
            rt@ == RuntimeView::initial(rt@.reactor, rt@.cpus()),
            rt@.reactor.is_new(),
            rt@.cpus() == if cpus >= 1 {
                cpus as nat
            } else {
                1
            },
            rt@.tasks() == Multiset::<u64>::empty(),
    {
        Runtime::with_reactor(Reactor::new(), cpus)
    }

    /// Creates a new runtime for a reactor, with some number of processors, but at least one.
    pub fn with_reactor(reactor: Reactor, cpus: usize) -> (rt: Runtime)
        requires
            reactor@.wf(),
        ensures
            rt.wf(),
            rt@ == RuntimeView::initial(
                reactor@,
                if cpus >= 1 {
                    cpus as nat
                } else {
                    1
                },
            ),
            rt@.tasks() == Multiset::<u64>::empty(),
    {
        let cpus: usize = at_least_one(cpus);
        let rt = Runtime {
            reactor,
            queues: Queues::new(cpus),
            fleet: Fleet::new(cpus),
            progress: false,
        };
        proof {
            initial_fleet_is_wf(cpus as nat);
            empty_queues_hold_no_task(cpus as nat);
        }
        rt
    }

    /// Returns a reference to the reactor.
    pub fn reactor(&self) -> (r: &Reactor)
        ensures
            r@ == self@.reactor,
    {
        &self.reactor
    }

    /// Returns a mutable reference to the reactor.
    pub fn reactor_mut(&mut self) -> (r: &mut Reactor)
        ensures
            r@ == old(self)@.reactor,
            final(self)@ == (RuntimeView { reactor: final(r)@, ..old(self)@ }),
            final(self).queues_wf() == old(self).queues_wf(),
    {
        &mut self.reactor
    }

    /// The number of processors.
    pub fn cpus(&self) -> (n: usize)
        ensures
            n == self@.cpus(),
    {
        self.queues.cpus()
    }

    /// Asks the machine that runs on the current thread to let other tasks run.
    pub fn yield_now(&mut self, current: Option<u64>)
        requires
            old(self).wf(),
        ensures
            final(self).wf(),
            final(self)@ == old(self)@.yielded(current),
    {
        if let Some(id) = current {
            if let Some(m) = self.fleet.find(id) {
                proof {
                    machines_hold_existing_processors(self@.fleet, self@.cpus(), id);
                    putting_keeps_wf(
                        self@.fleet,
                        self@.cpus(),
                        Machine { yielding: true, ..m },
                    );
                }
                self.fleet.put(Machine { yielding: true, ..m });
            }
        }
    }

    /// Schedules a task, and says whether the reactor has to be notified.
    ///
    /// If the current thread is a worker thread, the task is stored into its task slot or pushed
    /// into its local task queue. Otherwise, it is pushed into the global task queue.
    pub fn schedule(&mut self, current: Option<u64>, task: u64) -> (notify: bool)
        requires
            old(self).wf(),
        ensures
            final(self).wf(),
            final(self)@ == old(self)@.scheduled(current, task),
            notify == old(self)@.scheduling_notifies(current),
            final(self)@.tasks() == old(self)@.tasks().insert(task),
    {
        if let Some(id) = current {
            if let Some(m) = self.fleet.find(id) {
                proof {
                    machines_hold_existing_processors(self@.fleet, self@.cpus(), id);
                    scheduling_adds_the_task(self@.queues, m.processor as int, task);
                }
                machine_scheduled_task(id, task, true);
                return self.queues.schedule(m.processor, task);
            }
            machine_scheduled_task(id, task, false);
        }
        proof {
            pushing_adds_the_task(self@.queues, task);
        }
        self.queues.push(task);
        true
    }

    /// Says whether identifiers are left for the machines that one more round may start.
    pub fn can_make_machines(&self) -> (r: bool)
        ensures
            r == (self@.fleet.next_id + self@.fleet.machines.len() < u64::MAX),
    {
        let n: u64 = self.fleet.len() as u64;
        n < u64::MAX && self.fleet.can_start(n + 1)
    }

    /// Makes the machines that have to be started.
    ///
    /// If there is a machine that is stuck on a task and not making any progress, its processor is
    /// stolen and a new machine takes over. If no machine is polling the reactor, and none was
    /// since the last time, a new machine is made for an idle processor.
    pub fn make_machines(&mut self) -> (to_start: Vec<u64>)
        requires
            old(self).wf(),
            old(self)@.fleet.next_id + old(self)@.fleet.machines.len() < u64::MAX,
        ensures
            final(self).wf(),
            final(self)@ == old(self)@.machines_made(),
            to_start@ == Seq::new(
                old(self)@.machines_to_make(),
                |k: int| (old(self)@.fleet.next_id + k) as u64,
            ),
    {
        proof {
            relieving_keeps_wf(self@.fleet, self@.cpus());
            stuck_among_is_bounded(
                self@.fleet.machines,
                0,
                self@.fleet.machines.len() as int,
            );
        }
        let mut to_start = self.fleet.relieve_all();
        if !self.fleet.has_parked() {
            if !self.progress {
                proof {
                    spinning_up_keeps_wf(self@.fleet, self@.cpus());
                }
                if let Some(id) = self.fleet.spin_up() {
                    to_start.push(id);
                }
            }
            self.progress = false;
        }
        to_start
    }
}

/// One round of the driving thread.
pub struct Round {
    /// The machines to start a thread for.
    pub start: Vec<u64>,
    /// How long to sleep after that, in microseconds.
    pub sleep: u64,
}

impl Runtime {
    /// Drives the runtime for one round: makes the machines that have to be started, and determines
    /// how long to sleep before the next round.
    pub fn run(&mut self, backoff: &mut Backoff) -> (round: Round)
        requires
            old(self).wf(),
            old(self)@.fleet.next_id + old(self)@.fleet.machines.len() < u64::MAX,
            old(backoff).wf(),
        ensures
            final(self).wf(),
            final(self)@ == old(self)@.machines_made(),
            round.start@ == Seq::new(
                old(self)@.machines_to_make(),
                |k: int| (old(self)@.fleet.next_id + k) as u64,
            ),
            final(backoff).wf(),
            *final(backoff) == (if round.start@.len() > 0 {
                old(backoff).busy()
            } else {
                *old(backoff)
            }).advanced(SHORTEST_DELAY),
            round.sleep == final(backoff).delay,
    {
        let start = self.make_machines();
        if start.len() > 0 {
            backoff.reset();
        }
        let sleep: u64 = backoff.next(SHORTEST_DELAY);
        Round { start, sleep }
    }

    /// Says whether the reactor may be polled without waiting, which it may unless a machine is
    /// polling it.
    fn quick_poll(&self) -> (action: Action)
        ensures
            action == quick_poll_action(self@),
    {
        if self.fleet.has_parked() {
            Action::Continue
        } else {
            Action::QuickPoll
        }
    }

    /// The processor of a machine.
    fn processor(&self, id: u64) -> (r: Option<usize>)
        requires
            self.wf(),
        ensures
            match r {
                Some(p) => p < self@.cpus() && self@.fleet.find(id) is Some && self@.fleet.find(
                    id,
                )->0.processor == p,
                None => self@.fleet.find(id) is None,
            },
    {
        match self.fleet.find(id) {
            Some(m) => {
                proof {
                    machines_hold_existing_processors(self@.fleet, self@.cpus(), id);
                }
                Some(m.processor)
            },
            None => None,
        }
    }

    /// Begins another round of a machine.
    fn begin_round(&mut self, id: u64) -> (notify: bool)
        requires
            old(self).wf(),
        ensures
            final(self).wf(),
            final(self)@ == old(self)@.round_begun(id),
            notify == old(self)@.round_notifies(id),
            final(self)@.cpus() == old(self)@.cpus(),
            final(self)@.tasks() == old(self)@.tasks(),
    {
        match self.fleet.find(id) {
            Some(m) => {
                let new = Machine { progress: true, yielding: false, ..m };
                proof {
                    machines_hold_existing_processors(self@.fleet, self@.cpus(), id);
                    putting_keeps_wf(self@.fleet, self@.cpus(), new);
                    flushing_keeps_the_tasks(self@.queues, m.processor as int);
                }
                self.fleet.put(new);
                m.yielding && self.queues.flush_slot(m.processor)
            },
            None => false,
        }
    }
}

impl MachineRun {
    /// Begins the loop of a machine thread.
    pub fn new(id: u64) -> (m: MachineRun)
        ensures
            m == MachineRun::initial(id),
            m.wf(),
    {
        MachineRun { id, phase: Phase::Begin, runs: 0, fails: 0 }
    }

    /// Hands out a task that was found.
    fn run_task(&mut self, task: u64) -> (s: Step)
        requires
            old(self).wf(),
            old(self).runs < RUNS,
        ensures
            *final(self) == old(self).found(),
            final(self).wf(),
            s == (Step { notify: false, action: Action::Run(task) }),
    {
        self.phase = Phase::Begin;
        self.runs = self.runs + 1;
        self.fails = 0;
        Step { notify: false, action: Action::Run(task) }
    }

    /// Gives the global queue its turn.
    fn refill(&mut self, rt: &mut Runtime) -> (s: Step)
        requires
            old(rt).wf(),
            old(self).wf(),
            old(self).phase is Refill,
        ensures
            final(rt).wf(),
            final(self).wf(),
            refill_step(*old(self), old(rt)@, *final(self), final(rt)@, s),
            tasks_after_step(old(rt)@, final(rt)@, s.action),
    {
        let mut notify: bool = false;
        if let Some(p) = rt.processor(self.id) {
            match rt.queues.steal_from_global(p) {
                Stolen::Retry => {
                    return Step { notify: false, action: Action::Continue };
                },
                Stolen::Success(task) => {
                    let ghost q = rt@.queues;
                    proof {
                        finding_global_takes_one_task(
                            old(rt)@.queues,
                            q,
                            p as int,
                            Stolen::Success(task),
                        );
                        scheduling_adds_the_task(q, p as int, task);
                        flushing_keeps_the_tasks(q.scheduled(p as int, task), p as int);
                    }
                    rt.queues.schedule(p, task);
                    notify = rt.queues.flush_slot(p);
                },
                Stolen::Empty => {
                    proof {
                        flushing_keeps_the_tasks(rt@.queues, p as int);
                    }
                    notify = rt.queues.flush_slot(p);
                },
            }
        }
        self.runs = 0;
        self.phase = Phase::Nearby;
        Step { notify, action: Action::Continue }
    }

    /// Looks for a task nearby.
    fn look_nearby(&mut self, rt: &mut Runtime) -> (s: Step)
        requires
            old(rt).wf(),
            old(self).wf(),
            old(self).phase is Nearby,
        ensures
            final(rt).wf(),
            final(self).wf(),
            nearby_step(*old(self), old(rt)@, *final(self), final(rt)@, s),
            tasks_after_step(old(rt)@, final(rt)@, s.action),
    {
        if let Some(p) = rt.processor(self.id) {
            let r = rt.queues.find_nearby(p);
            proof {
                finding_nearby_takes_one_task(old(rt)@.queues, rt@.queues, p as int, r);
            }
            match r {
                Stolen::Success(task) => {
                    return self.run_task(task);
                },
                Stolen::Retry => {
                    return Step { notify: false, action: Action::Continue };
                },
                Stolen::Empty => {},
            }
        }
        self.phase = Phase::Others;
        Step { notify: false, action: rt.quick_poll() }
    }

    /// Looks for a task at the other processors.
    fn look_at_others(&mut self, rt: &mut Runtime, start: usize) -> (s: Step)
        requires
            old(rt).wf(),
            old(self).wf(),
            old(self).phase is Others,
            start < old(rt)@.cpus(),
        ensures
            final(rt).wf(),
            final(self).wf(),
            others_step(*old(self), old(rt)@, start as int, *final(self), final(rt)@, s),
            tasks_after_step(old(rt)@, final(rt)@, s.action),
    {
        if let Some(p) = rt.processor(self.id) {
            let r = rt.queues.find_in_others(p, start);
            proof {
                finding_in_others_takes_one_task(
                    old(rt)@.queues,
                    rt@.queues,
                    p as int,
                    start as int,
                    r,
                );
            }
            if let Stolen::Success(task) = r {
                return self.run_task(task);
            }
        }
        self.phase = Phase::Miss;
        Step { notify: false, action: Action::Continue }
    }

    /// Decides how to go on after no task was found.
    fn miss(&mut self, rt: &Runtime) -> (s: Step)
        requires
            rt.wf(),
            old(self).wf(),
            old(self).phase is Miss,
        ensures
            final(self).wf(),
            miss_step(*old(self), rt@, *final(self), s),
    {
        if rt.processor(self.id).is_none() {
            // The processor was stolen.
            self.phase = Phase::Done;
            return Step { notify: false, action: Action::Exit };
        }
        self.runs = 0;
        if self.fails < YIELDS {
            // Yield the current thread a few times.
            self.fails = self.fails + 1;
            self.phase = Phase::Begin;
            Step { notify: false, action: Action::Yield }
        } else if self.fails < YIELDS + SLEEPS {
            // Put the current thread to sleep a few times.
            self.fails = self.fails + 1;
            self.phase = Phase::Begin;
            Step { notify: false, action: Action::Sleep(SHORT_SLEEP) }
        } else {
            self.fails = 0;
            self.phase = Phase::Idle;
            Step { notify: false, action: Action::Continue }
        }
    }

    /// Looks for a task once more, and if there is none, gets ready to poll the reactor or to end.
    fn turn_idle(&mut self, rt: &mut Runtime, start: usize) -> (s: Step)
        requires
            old(rt).wf(),
            old(self).wf(),
            old(self).phase is Idle,
            start < old(rt)@.cpus(),
        ensures
            final(rt).wf(),
            final(self).wf(),
            idle_step(*old(self), old(rt)@, start as int, *final(self), final(rt)@, s),
            tasks_after_step(old(rt)@, final(rt)@, s.action),
    {
        match rt.processor(self.id) {
            None => {
                self.phase = Phase::Done;
                Step { notify: false, action: Action::Exit }
            },
            Some(p) => {
                let mut r = rt.queues.find_nearby(p);
                proof {
                    finding_nearby_takes_one_task(old(rt)@.queues, rt@.queues, p as int, r);
                }
                if let Stolen::Retry = r {
                    return Step { notify: false, action: Action::Continue };
                }
                if let Stolen::Empty = r {
                    r = rt.queues.find_in_others(p, start);
                    proof {
                        finding_in_others_takes_one_task(
                            old(rt)@.queues,
                            rt@.queues,
                            p as int,
                            start as int,
                            r,
                        );
                    }
                }
                if let Stolen::Success(task) = r {
                    proof {
                        scheduling_adds_the_task(rt@.queues, p as int, task);
                    }
                    self.phase = Phase::Begin;
                    machine_scheduled_task(self.id, task, true);
                    let notify = rt.queues.schedule(p, task);
                    return Step { notify, action: Action::Continue };
                }
                let ghost i = position(rt@.fleet.machines, self.id);
                if rt.fleet.has_parked() {
                    proof {
                        if i is Some {
                            retiring_keeps_wf(rt@.fleet, rt@.cpus(), i->0);
                        }
                    }
                    rt.fleet.retire(self.id);
                    self.phase = Phase::Done;
                    return Step { notify: false, action: Action::Exit };
                }
                proof {
                    parking_keeps_wf(rt@.fleet, rt@.cpus(), i->0);
                }
                rt.fleet.park(self.id);
                rt.progress = true;
                self.phase = Phase::Wake;
                Step { notify: false, action: Action::Block }
            },
        }
    }

    /// Joins the other machines again after polling the reactor.
    fn wake(&mut self, rt: &mut Runtime) -> (s: Step)
        requires
            old(rt).wf(),
            old(self).wf(),
            old(self).phase is Wake,
        ensures
            final(rt).wf(),
            final(self).wf(),
            wake_step(*old(self), old(rt)@, *final(self), final(rt)@, s),
            tasks_after_step(old(rt)@, final(rt)@, s.action),
    {
        proof {
            if rt@.fleet.parked is Some {
                unparking_keeps_wf(rt@.fleet, rt@.cpus());
            }
        }
        if rt.fleet.unpark(self.id) {
            rt.progress = true;
            self.phase = Phase::Begin;
            Step { notify: false, action: Action::Continue }
        } else {
            self.phase = Phase::Done;
            Step { notify: false, action: Action::Exit }
        }
    }

    /// Does the next step of a machine thread. A search at the other processors begins at `start`,
    /// which the caller picks at random.
    pub fn step(&mut self, rt: &mut Runtime, start: usize) -> (s: Step)
        requires
            old(rt).wf(),
            old(self).wf(),
            start < old(rt)@.cpus(),
        ensures
            final(rt).wf(),
            final(self).wf(),
            machine_step(*old(self), old(rt)@, start as int, *final(self), final(rt)@, s),
            tasks_after_step(old(rt)@, final(rt)@, s.action),
    {
        match self.phase {
            Phase::Begin => {
                let poll = rt.quick_poll();
                let notify = rt.begin_round(self.id);
                if self.runs >= RUNS {
                    self.phase = Phase::Refill;
                    Step { notify, action: poll }
                } else {
                    self.phase = Phase::Nearby;
                    Step { notify, action: Action::Continue }
                }
            },
            Phase::Refill => self.refill(rt),
            Phase::Nearby => self.look_nearby(rt),
            Phase::Others => self.look_at_others(rt, start),
            Phase::Miss => self.miss(rt),
            Phase::Idle => self.turn_idle(rt, start),
            Phase::Wake => self.wake(rt),
            Phase::Done => Step { notify: false, action: Action::Exit },
        }
    }
}

/// A task is scheduled without a notification only where it goes to an empty slot: all queues stay
/// as they are.
pub proof fn silent_scheduling_fills_an_empty_slot(
    v: RuntimeView,
    current: Option<u64>,
    task: u64,
    p: int,
)
    requires
        v.wf(),
        0 <= p < v.cpus(),
        !v.scheduling_notifies(current),
    ensures
        v.scheduled(current, task).queues.global == v.queues.global,
        v.scheduled(current, task).queues.local[p].queue == v.queues.local[p].queue,
        v.queues.local[p].slot is Some ==> v.scheduled(current, task).queues.local[p]
            == v.queues.local[p],
{
    machines_hold_existing_processors(v.fleet, v.cpus(), current->0);
}

/// A task that is scheduled from a machine is the next one that the machine finds.
pub proof fn machine_finds_its_own_task_next(
    v: RuntimeView,
    task: u64,
    m0: MachineRun,
    start: int,
    m1: MachineRun,
    v1: RuntimeView,
    s: Step,
)
    requires
        v.wf(),
        v.fleet.find(m0.id) is Some,
        m0.phase is Nearby,
        machine_step(m0, v.scheduled(Some(m0.id), task), start, m1, v1, s),
    ensures
        s.action == Action::Run(task),
{
    machines_hold_existing_processors(v.fleet, v.cpus(), m0.id);
}

/// After a task asked to yield, the task in the slot has to queue up: in the next round the oldest
/// task of the queue comes first, if there was one.
pub proof fn yielding_lets_queued_tasks_run(v: RuntimeView, id: u64)
    requires
        v.wf(),
        v.fleet.find(id) is Some,
    ensures
        ({
            let p = v.fleet.find(id)->0.processor as int;
            let w = v.yielded(Some(id)).round_begun(id);
            &&& w.queues == v.queues.flushed(p)
            &&& w.queues.local[p].slot is None
            &&& v.queues.local[p].queue.len() > 0 ==> w.queues.local[p].next() == Some(
                v.queues.local[p].queue[0],
            )
            &&& w.fleet.find(id) == Some(
                Machine { progress: true, yielding: false, ..v.fleet.find(id)->0 },
            )
        }),
{
    let m = v.fleet.find(id)->0;
    let y = Machine { yielding: true, ..m };
    machines_hold_existing_processors(v.fleet, v.cpus(), id);
    putting_keeps_wf(v.fleet, v.cpus(), y);
    putting_keeps_wf(
        v.fleet.put(y),
        v.cpus(),
        Machine { progress: true, yielding: false, ..y },
    );
}

/// When the global queue gets its turn, its oldest task leaves it for the processor, unless the
/// attempt has to be repeated, and the slot is empty, so that the oldest task of the local queue
/// comes next.
pub proof fn global_queue_gets_its_turn(
    m0: MachineRun,
    v0: RuntimeView,
    start: int,
    m1: MachineRun,
    v1: RuntimeView,
    s: Step,
)
    requires
        v0.wf(),
        m0.phase is Refill,
        v0.fleet.find(m0.id) is Some,
        machine_step(m0, v0, start, m1, v1, s),
        m1.phase is Nearby,
    ensures
        v0.queues.global.len() > 0 ==> v1.queues.global.len() < v0.queues.global.len()
            && v1.queues.local[v0.fleet.find(m0.id)->0.processor as int].queue.last()
            == v0.queues.global[0],
        v1.queues.local[v0.fleet.find(m0.id)->0.processor as int].slot is None,
{
    machines_hold_existing_processors(v0.fleet, v0.cpus(), m0.id);
}

/// A machine runs at most `RUNS` tasks in a row before the global queue gets its turn.
pub proof fn global_queue_is_not_starved(
    m0: MachineRun,
    v0: RuntimeView,
    start: int,
    m1: MachineRun,
    v1: RuntimeView,
    s: Step,
)
    requires
        m0.wf(),
        machine_step(m0, v0, start, m1, v1, s),
    ensures
        s.action is Run ==> m1.runs == m0.runs + 1 && m1.runs <= RUNS,
        m0.phase is Begin && m0.runs == RUNS ==> m1.phase is Refill,
{
}

/// Only one machine at a time waits for the reactor: a machine gets to wait only while none does,
/// and is then the one that is parked.
pub proof fn one_machine_polls_at_a_time(
    m0: MachineRun,
    v0: RuntimeView,
    start: int,
    m1: MachineRun,
    v1: RuntimeView,
    s: Step,
)
    requires
        v0.wf(),
        machine_step(m0, v0, start, m1, v1, s),
        s.action is Block,
    ensures
        !v0.polling(),
        v1.polling(),
        v1.progress,
        v1.fleet.parked->0.id == m0.id,
        m1.phase is Wake,
{
}

/// A machine waits for the reactor only when there is nothing to run: the global queue, all local
/// queues and its own slot are empty.
pub proof fn machine_blocks_only_without_tasks(
    m0: MachineRun,
    v0: RuntimeView,
    start: int,
    m1: MachineRun,
    v1: RuntimeView,
    s: Step,
)
    requires
        v0.wf(),
        machine_step(m0, v0, start, m1, v1, s),
        s.action is Block,
    ensures
        v0.queues.global.len() == 0,
        v0.queues.local_queues_empty(),
        v0.queues.local[v0.fleet.find(m0.id)->0.processor as int].slot is None,
{
}

/// A machine that waits for the reactor stays parked whatever the other machines do, and when it
/// wakes up it is back among them with the processor that it had.
pub proof fn polling_machine_keeps_its_processor(
    parked: Machine,
    m0: MachineRun,
    v0: RuntimeView,
    start: int,
    m1: MachineRun,
    v1: RuntimeView,
    s: Step,
)
    requires
        v0.wf(),
        v0.fleet.parked == Some(parked),
        machine_step(m0, v0, start, m1, v1, s),
        m0.id == parked.id ==> m0.phase is Wake,
    ensures
        m0.id != parked.id ==> v1.fleet.parked == Some(parked),
        m0.id == parked.id ==> !v1.polling() && v1.fleet.find(parked.id) == Some(parked)
            && v1.progress,
{
    if m0.id == parked.id {
        unparking_keeps_wf(v0.fleet, v0.cpus());
    }
}

/// Making machines never touches the machine that waits for the reactor, nor any task.
pub proof fn making_machines_keeps_tasks_and_poller(v: RuntimeView)
    ensures
        v.machines_made().queues == v.queues,
        v.machines_made().fleet.parked == v.fleet.parked,
        v.machines_made().tasks() == v.tasks(),
{
}

/// Making machines keeps every processor in one place: idle, or held by one machine. The machines
/// that are made hold processors, are in the list, once each, and were not there before. No task is
/// lost. The bound is that of the identifiers that machines can bear.
pub proof fn making_machines_keeps_every_processor(v: RuntimeView)
    requires
        v.wf(),
        v.fleet.next_id + v.fleet.machines.len() < u64::MAX,
    ensures
        v.machines_made().wf(),
        v.machines_made().cpus() == v.cpus(),
        v.machines_made().fleet.held() == v.fleet.held(),
        v.machines_made().fleet.held() == all_processors(v.cpus()),
        v.machines_made().queues == v.queues,
        v.machines_made().tasks() == v.tasks(),
        forall|k: int|
            0 <= k < v.machines_to_make() ==> {
                let id = (#[trigger] v.threads_to_start()[k]).id;
                &&& id == v.fleet.next_id + k
                &&& v.fleet.find(id) is None
                &&& v.machines_made().fleet.find(id) matches Some(m) && m.processor < v.cpus()
                &&& v.machines_made().fleet.listed_once(id)
            },
{
    let w = v.machines_made().fleet;
    let relieved = v.fleet.all_relieved();
    let stuck = stuck_among(v.fleet.machines, v.fleet.machines.len() as int);
    stuck_among_is_bounded(v.fleet.machines, 0, v.fleet.machines.len() as int);
    relieving_keeps_wf(v.fleet, v.cpus());
    spinning_up_keeps_wf(relieved, v.cpus());
    assert forall|k: int| 0 <= k < v.machines_to_make() implies {
        let id = (#[trigger] v.threads_to_start()[k]).id;
        &&& id == v.fleet.next_id + k
        &&& v.fleet.find(id) is None
        &&& w.find(id) matches Some(m) && m.processor < v.cpus()
        &&& w.listed_once(id)
    } by {
        let id = v.threads_to_start()[k].id;
        assert(forall|j: int|
            0 <= j < v.fleet.machines.len() ==> (#[trigger] v.fleet.machines[j]).id != id);
        let i = if k < stuck {
            relieving_machines_are_listed(v.fleet, v.cpus(), k as nat);
            position(relieved.machines, id)->0
        } else {
            relieved.machines.len() as int
        };
        assert(w.machines[i].id == id);
        identifier_names_one_machine(w, i);
        machines_hold_existing_processors(w, v.cpus(), id);
    }
}

/// Machine threads and machines agree: every machine has one thread, a thread polls the reactor if
/// and only if its machine is the parked one, and a thread that has ended has no machine.
pub open spec fn threads_match(runs: Seq<MachineRun>, v: RuntimeView) -> bool {
    &&& forall|i: int, j: int|
        0 <= i < j < runs.len() ==> (#[trigger] runs[i]).id != (#[trigger] runs[j]).id
    &&& forall|i: int|
        0 <= i < runs.len() ==> {
            &&& (#[trigger] runs[i]).id < v.fleet.next_id
            &&& runs[i].phase is Wake == (v.polling() && v.fleet.parked->0.id == runs[i].id)
            &&& runs[i].phase is Done ==> v.fleet.find(runs[i].id) is None
        }
    &&& forall|id: u64| #[trigger]
        v.fleet.find(id) is Some ==> exists|i: int|
            0 <= i < runs.len() && (#[trigger] runs[i]).id == id
}

/// A new runtime has neither machines nor threads.
pub proof fn new_runtime_has_no_threads(reactor: ReactorView, cpus: nat)
    ensures
        threads_match(Seq::empty(), RuntimeView::initial(reactor, cpus)),
{
}

/// Whatever step a thread takes, threads and machines agree after it.
pub proof fn steps_keep_threads_matched(
    runs: Seq<MachineRun>,
    k: int,
    v0: RuntimeView,
    start: int,
    m1: MachineRun,
    v1: RuntimeView,
    s: Step,
)
    requires
        v0.wf(),
        0 <= k < runs.len(),
        threads_match(runs, v0),
        machine_step(runs[k], v0, start, m1, v1, s),
    ensures
        threads_match(runs.update(k, m1), v1),
{
    let m0 = runs[k];
    let after = runs.update(k, m1);
    let f0 = v0.fleet;
    let f1 = v1.fleet;
    let retires = m0.phase is Idle && s.action is Exit && f0.find(m0.id) is Some;
    let i = position(f0.machines, m0.id);
    assert(m1.id == m0.id);
    assert(f1.next_id == f0.next_id);
    if retires {
        retiring_keeps_wf(f0, v0.cpus(), i->0);
    }
    assert forall|id: u64| #[trigger] f1.find(id) is Some == (f0.find(id) is Some && !(retires && id
        == m0.id)) by {
        match m0.phase {
            Phase::Begin => {
                if let Some(m) = f0.find(m0.id) {
                    putting_keeps_who_is_found(
                        f0,
                        Machine { progress: true, yielding: false, ..m },
                        id,
                    );
                }
            },
            Phase::Idle => {
                if retires {
                    if id != m0.id {
                        retiring_keeps_the_others_found(f0, i->0, id);
                    }
                } else if s.action is Block {
                    parking_keeps_who_is_found(f0, i->0, id);
                }
            },
            Phase::Wake => {
                unparking_keeps_who_is_found(f0, id);
            },
            _ => {},
        }
    }
    if let Some(m) = f0.find(m0.id) {
        putting_keeps_who_is_found(f0, Machine { progress: true, yielding: false, ..m }, m0.id);
    }
    assert forall|j: int| 0 <= j < after.len() implies {
        &&& (#[trigger] after[j]).id == runs[j].id
        &&& after[j].id < f1.next_id
        &&& after[j].phase is Wake == (v1.polling() && f1.parked->0.id == after[j].id)
        &&& after[j].phase is Done ==> f1.find(after[j].id) is None
    } by {
        assert(runs[j].id < f0.next_id);
        if j < k {
            assert(runs[j].id != runs[k].id);
        } else if k < j {
            assert(runs[k].id != runs[j].id);
        }
    }
    assert forall|id: u64| #[trigger] f1.find(id) is Some implies exists|j: int|
        0 <= j < after.len() && (#[trigger] after[j]).id == id by {
        assert(f0.find(id) is Some);
        let j = choose|j: int| 0 <= j < runs.len() && (#[trigger] runs[j]).id == id;
        assert(after[j].id == id);
    }
}

/// A thread that begins for every new machine makes threads and machines agree again.
pub proof fn starting_keeps_threads_matched(runs: Seq<MachineRun>, v: RuntimeView)
    requires
        v.wf(),
        v.fleet.next_id + v.fleet.machines.len() < u64::MAX,
        threads_match(runs, v),
    ensures
        threads_match(runs + v.threads_to_start(), v.machines_made()),
{
    let w = v.machines_made().fleet;
    let new = v.threads_to_start();
    let after = runs + new;
    let next = v.fleet.next_id;
    stuck_among_is_bounded(v.fleet.machines, 0, v.fleet.machines.len() as int);
    relieving_keeps_wf(v.fleet, v.cpus());
    spinning_up_keeps_wf(v.fleet.all_relieved(), v.cpus());
    assert(w.next_id == next + new.len());
    assert(w.parked == v.fleet.parked);
    assert forall|j: int| 0 <= j < after.len() implies {
        &&& (#[trigger] after[j]).id < w.next_id
        &&& after[j].phase is Wake == (v.polling() && w.parked->0.id == after[j].id)
        &&& after[j].phase is Done ==> w.find(after[j].id) is None
        &&& j < runs.len() ==> after[j].id < next
        &&& j >= runs.len() ==> after[j].id == next + (j - runs.len())
    } by {
        if j < runs.len() {
            assert(after[j] == runs[j]);
            if runs[j].phase is Done {
                new_machines_have_new_identifiers(v.fleet, v.cpus(), runs[j].id);
            }
        } else {
            assert(after[j] == new[j - runs.len()]);
        }
    }
    assert forall|i: int, j: int| 0 <= i < j < after.len() implies (#[trigger] after[i]).id != (
    #[trigger] after[j]).id by {
        if j < runs.len() {
            assert(runs[i].id != runs[j].id);
        }
    }
    assert forall|id: u64| #[trigger] w.find(id) is Some implies exists|j: int|
        0 <= j < after.len() && (#[trigger] after[j]).id == id by {
        if id < next {
            if v.fleet.find(id) is None {
                new_machines_have_new_identifiers(v.fleet, v.cpus(), id);
            }
            let j = choose|j: int| 0 <= j < runs.len() && (#[trigger] runs[j]).id == id;
            assert(after[j].id == id);
        } else {
            assert(id < w.next_id);
            assert(after[runs.len() + (id - next)].id == id);
        }
    }
}

/// Nothing but a step or a new machine concerns the threads: scheduling a task, asking to yield and
/// a change of the reactor leave threads and machines in agreement.
pub proof fn other_changes_keep_threads_matched(
    runs: Seq<MachineRun>,
    v: RuntimeView,
    current: Option<u64>,
    task: u64,
    reactor: ReactorView,
)
    requires
        threads_match(runs, v),
    ensures
        threads_match(runs, v.scheduled(current, task)),
        threads_match(runs, v.yielded(current)),
        threads_match(runs, (RuntimeView { reactor, ..v })),
{
    let y = v.yielded(current);
    assert forall|id: u64|
        {
            &&& #[trigger] y.fleet.find(id) is Some == v.fleet.find(id) is Some
            &&& y.polling() == v.polling()
            &&& v.polling() ==> y.fleet.parked->0.id == v.fleet.parked->0.id
            &&& y.fleet.next_id == v.fleet.next_id
        } by {
        if let Some(c) = current {
            if let Some(m) = v.fleet.find(c) {
                putting_keeps_who_is_found(v.fleet, Machine { yielding: true, ..m }, id);
            }
        }
    }
    assert(y.fleet.find(0) is Some == v.fleet.find(0) is Some);
    assert forall|id: u64| #[trigger] y.fleet.find(id) is Some implies exists|i: int|
        0 <= i < runs.len() && (#[trigger] runs[i]).id == id by {
        assert(v.fleet.find(id) is Some);
    }
}

/// Something that may happen to a runtime and its threads: a thread takes a step, machines are made
/// and their threads begin, a task is scheduled, a task asks to yield, or the reactor changes.
pub open spec fn threads_may_change(
    runs0: Seq<MachineRun>,
    v0: RuntimeView,
    runs1: Seq<MachineRun>,
    v1: RuntimeView,
) -> bool {
    ||| exists|k: int, start: int, m1: MachineRun, s: Step|
        {
            &&& 0 <= k < runs0.len()
            &&& #[trigger] machine_step(runs0[k], v0, start, m1, v1, s)
            &&& runs1 == runs0.update(k, m1)
        }
    ||| {
        &&& v0.fleet.next_id + v0.fleet.machines.len() < u64::MAX
        &&& runs1 == runs0 + v0.threads_to_start()
        &&& v1 == v0.machines_made()
    }
    ||| runs1 == runs0 && exists|current: Option<u64>, task: u64|
        v1 == #[trigger] v0.scheduled(current, task)
    ||| runs1 == runs0 && exists|current: Option<u64>| v1 == #[trigger] v0.yielded(current)
    ||| runs1 == runs0 && v1 == (RuntimeView { reactor: v1.reactor, ..v0 })
}

/// In the whole life of a runtime, threads and machines agree.
pub proof fn threads_always_match(states: Seq<RuntimeView>, runs: Seq<Seq<MachineRun>>, n: int)
    requires
        runs.len() == states.len(),
        0 <= n < states.len(),
        states[0] == RuntimeView::initial(states[0].reactor, states[0].cpus()),
        runs[0] == Seq::<MachineRun>::empty(),
        forall|i: int| 0 <= i < states.len() ==> (#[trigger] states[i]).wf(),
        forall|i: int|
            0 <= i < states.len() - 1 ==> threads_may_change(
                #[trigger] runs[i],
                states[i],
                runs[i + 1],
                states[i + 1],
            ),
    ensures
        threads_match(runs[n], states[n]),
    decreases n,
{
    if n == 0 {
        new_runtime_has_no_threads(states[0].reactor, states[0].cpus());
    } else {
        threads_always_match(states, runs, n - 1);
        let runs0 = runs[n - 1];
        let v0 = states[n - 1];
        let v1 = states[n];
        assert(v0.wf());
        assert(threads_may_change(runs0, v0, runs[n], v1));
        if exists|k: int, start: int, m1: MachineRun, s: Step|
            {
                &&& 0 <= k < runs0.len()
                &&& #[trigger] machine_step(runs0[k], v0, start, m1, v1, s)
                &&& runs[n] == runs0.update(k, m1)
            } {
            let (k, start, m1, s) = choose|k: int, start: int, m1: MachineRun, s: Step|
                {
                    &&& 0 <= k < runs0.len()
                    &&& #[trigger] machine_step(runs0[k], v0, start, m1, v1, s)
                    &&& runs[n] == runs0.update(k, m1)
                };
            steps_keep_threads_matched(runs0, k, v0, start, m1, v1, s);
        } else if v0.fleet.next_id + v0.fleet.machines.len() < u64::MAX && runs[n] == runs0
            + v0.threads_to_start() && v1 == v0.machines_made() {
            starting_keeps_threads_matched(runs0, v0);
        } else if exists|current: Option<u64>, task: u64|
            v1 == #[trigger] v0.scheduled(current, task) {
            let (current, task) = choose|current: Option<u64>, task: u64|
                v1 == #[trigger] v0.scheduled(current, task);
            other_changes_keep_threads_matched(runs0, v0, current, task, v1.reactor);
        } else if exists|current: Option<u64>| v1 == #[trigger] v0.yielded(current) {
            let current = choose|current: Option<u64>| v1 == #[trigger] v0.yielded(current);
            other_changes_keep_threads_matched(runs0, v0, current, 0, v1.reactor);
        } else {
            other_changes_keep_threads_matched(runs0, v0, None, 0, v1.reactor);
        }
    }
}

/// At no time do two threads poll the reactor, and the runtime says that one does if and only if
/// one does.
pub proof fn one_thread_polls_at_a_time(runs: Seq<MachineRun>, v: RuntimeView)
    requires
        threads_match(runs, v),
    ensures
        forall|i: int, j: int|
            0 <= i < j < runs.len() ==> !((#[trigger] runs[i]).phase is Wake && (
            #[trigger] runs[j]).phase is Wake),
        v.polling() <==> exists|i: int| 0 <= i < runs.len() && (#[trigger] runs[i]).phase is Wake,
{
    if v.polling() {
        let id = v.fleet.parked->0.id;
        assert(v.fleet.find(id) is Some);
        let i = choose|i: int| 0 <= i < runs.len() && (#[trigger] runs[i]).id == id;
        assert(runs[i].phase is Wake);
    }
}

/// A machine thread ends only without a processor: its machine has lost it, or has made it idle.
pub proof fn ended_machine_holds_no_processor(
    runs: Seq<MachineRun>,
    k: int,
    v0: RuntimeView,
    start: int,
    m1: MachineRun,
    v1: RuntimeView,
    s: Step,
)
    requires
        v0.wf(),
        0 <= k < runs.len(),
        threads_match(runs, v0),
        machine_step(runs[k], v0, start, m1, v1, s),
        s.action is Exit,
    ensures
        v1.fleet.find(runs[k].id) is None,
        v0.fleet.find(runs[k].id) matches Some(m) ==> v1.fleet.idle == v0.fleet.idle.push(
            m.processor,
        ),
{
    if v0.fleet.find(runs[k].id) is Some {
        let i = position(v0.fleet.machines, runs[k].id)->0;
        retiring_keeps_wf(v0.fleet, v0.cpus(), i);
    }
}

/// Whatever a step does is consistent with the tasks: one that hands out a task takes it away,
/// once, and any other keeps all tasks.
pub proof fn steps_lose_no_task(
    m0: MachineRun,
    v0: RuntimeView,
    start: int,
    m1: MachineRun,
    v1: RuntimeView,
    s: Step,
)
    requires
        v0.wf(),
        0 <= start < v0.cpus(),
        machine_step(m0, v0, start, m1, v1, s),
    ensures
        tasks_after_step(v0, v1, s.action),
{
    machines_hold_existing_processors(v0.fleet, v0.cpus(), m0.id);
    if let Some(m) = v0.fleet.find(m0.id) {
        let p = m.processor as int;
        let q0 = v0.queues;
        flushing_keeps_the_tasks(q0, p);
        match m0.phase {
            Phase::Refill => {
                if m1.phase is Nearby && q0.global.len() > 0 {
                    let (q, task) = choose|q: QueuesView, task: u64|
                        {
                            &&& #[trigger] stole_from_global(q0, q, p, Stolen::Success(task))
                            &&& v1 == (RuntimeView {
                                queues: q.scheduled(p, task).flushed(p),
                                ..v0
                            })
                        };
                    finding_global_takes_one_task(q0, q, p, Stolen::Success(task));
                    scheduling_adds_the_task(q, p, task);
                    flushing_keeps_the_tasks(q.scheduled(p, task), p);
                }
            },
            Phase::Nearby => {
                let r = match s.action {
                    Action::Run(task) => Stolen::Success(task),
                    _ => if m1 == m0 {
                        Stolen::Retry
                    } else {
                        Stolen::Empty
                    },
                };
                finding_nearby_takes_one_task(q0, v1.queues, p, r);
            },
            Phase::Others => {
                let r = match s.action {
                    Action::Run(task) => Stolen::Success(task),
                    _ => Stolen::Empty,
                };
                finding_in_others_takes_one_task(q0, v1.queues, p, start, r);
            },
            Phase::Idle => {
                if s.action == Action::Continue && m1 != m0 {
                    if exists|q: QueuesView, task: u64|
                        {
                            &&& #[trigger] found_nearby(q0, q, p, Stolen::Success(task))
                            &&& task_kept(m0, v0, q, p, task, m1, v1, s)
                        } {
                        let (q, task) = choose|q: QueuesView, task: u64|
                            {
                                &&& #[trigger] found_nearby(q0, q, p, Stolen::Success(task))
                                &&& task_kept(m0, v0, q, p, task, m1, v1, s)
                            };
                        finding_nearby_takes_one_task(q0, q, p, Stolen::Success(task));
                        scheduling_adds_the_task(q, p, task);
                    } else {
                        let (q, task) = choose|q: QueuesView, task: u64|
                            {
                                &&& #[trigger] found_in_others(
                                    q0,
                                    q,
                                    p,
                                    start,
                                    Stolen::Success(task),
                                )
                                &&& task_kept(m0, v0, q, p, task, m1, v1, s)
                            };
                        finding_in_others_takes_one_task(q0, q, p, start, Stolen::Success(task));
                        scheduling_adds_the_task(q, p, task);
                    }
                }
            },
            _ => {},
        }
    }
}

/// Something that may happen to a runtime: a task is scheduled, a machine thread takes a step, a
/// task asks to yield, the reactor changes, or machines are made.
pub open spec fn may_happen(v0: RuntimeView, change: Change, v1: RuntimeView) -> bool {
    match change {
        Change::Scheduled(task) => exists|current: Option<u64>|
            v1 == #[trigger] v0.scheduled(current, task),
        Change::HandedOut(task) => exists|m0: MachineRun, start: int, m1: MachineRun, s: Step|
            {
                &&& 0 <= start < v0.cpus()
                &&& #[trigger] machine_step(m0, v0, start, m1, v1, s)
                &&& s.action == Action::Run(task)
            },
        Change::Unchanged => {
            ||| exists|m0: MachineRun, start: int, m1: MachineRun, s: Step|
                {
                    &&& 0 <= start < v0.cpus()
                    &&& #[trigger] machine_step(m0, v0, start, m1, v1, s)
                    &&& !(s.action is Run)
                }
            ||| exists|current: Option<u64>| v1 == #[trigger] v0.yielded(current)
            ||| v1 == (RuntimeView { reactor: v1.reactor, ..v0 })
            ||| v1 == v0.machines_made()
        },
    }
}

/// In the whole life of a runtime no task is lost and none is run more often than it was scheduled:
/// at any time the tasks that were scheduled are those that were handed out and those that wait.
pub proof fn runtime_loses_no_task(states: Seq<RuntimeView>, calls: Seq<Change>)
    requires
        states.len() == calls.len() + 1,
        states[0] == RuntimeView::initial(states[0].reactor, states[0].cpus()),
        forall|i: int| 0 <= i < states.len() ==> (#[trigger] states[i]).wf(),
        forall|i: int|
            0 <= i < calls.len() ==> may_happen(states[i], #[trigger] calls[i], states[i + 1]),
    ensures
        scheduled(calls) == handed_out(calls).add(states.last().tasks()),
{
    let waiting = Seq::new(states.len(), |i: int| states[i].tasks());
    empty_queues_hold_no_task(states[0].cpus());
    assert forall|i: int| 0 <= i < calls.len() implies changes(
        waiting[i],
        #[trigger] calls[i],
        waiting[i + 1],
    ) by {
        let v0 = states[i];
        let v1 = states[i + 1];
        assert(v0.wf());
        assert(may_happen(v0, calls[i], v1));
        match calls[i] {
            Change::Scheduled(task) => {
                let current = choose|current: Option<u64>|
                    v1 == #[trigger] v0.scheduled(current, task);
                pushing_adds_the_task(v0.queues, task);
                if let Some(p) = v0.current_processor(current) {
                    machines_hold_existing_processors(v0.fleet, v0.cpus(), current->0);
                    scheduling_adds_the_task(v0.queues, p as int, task);
                }
            },
            Change::HandedOut(task) => {
                let (m0, start, m1, s) = choose|
                    m0: MachineRun,
                    start: int,
                    m1: MachineRun,
                    s: Step,
                |
                    {
                        &&& 0 <= start < v0.cpus()
                        &&& #[trigger] machine_step(m0, v0, start, m1, v1, s)
                        &&& s.action == Action::Run(task)
                    };
                steps_lose_no_task(m0, v0, start, m1, v1, s);
            },
            Change::Unchanged => {
                if exists|m0: MachineRun, start: int, m1: MachineRun, s: Step|
                    {
                        &&& 0 <= start < v0.cpus()
                        &&& #[trigger] machine_step(m0, v0, start, m1, v1, s)
                        &&& !(s.action is Run)
                    } {
                    let (m0, start, m1, s) = choose|
                        m0: MachineRun,
                        start: int,
                        m1: MachineRun,
                        s: Step,
                    |
                        {
                            &&& 0 <= start < v0.cpus()
                            &&& #[trigger] machine_step(m0, v0, start, m1, v1, s)
                            &&& !(s.action is Run)
                        };
                    steps_lose_no_task(m0, v0, start, m1, v1, s);
                }
            },
        }
    }
    every_task_is_handed_out_or_waits(waiting, calls);
}

} // verus!

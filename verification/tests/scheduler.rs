use async_std::action::Action;
use async_std::backoff::Backoff;
use async_std::rt::reactor::{Event, Reactor, READABLE, WRITABLE};
use async_std::runtime::scheduler::{MachineRun, Phase, Scheduler};

fn advance(m: &mut MachineRun, sched: &mut Scheduler) -> Action {
    loop {
        match m.step(sched, 0).action {
            Action::Continue | Action::QuickPoll => {}
            action => return action,
        }
    }
}

fn launched(cpus: usize) -> (Scheduler, Backoff, MachineRun) {
    let mut sched = Scheduler::with_processors(cpus);
    let mut backoff = Backoff::new();
    let round = sched.launch(&mut backoff);
    assert_eq!(round.start, vec![0]);
    assert_eq!(round.sleep, 500);
    (sched, backoff, MachineRun::new(0))
}

#[test]
fn scheduler_has_a_processor_for_every_cpu() {
    assert_eq!(Scheduler::new().cpus(), num_cpus::get().max(1));
    assert_eq!(Scheduler::with_processors(0).cpus(), 1);
    assert_eq!(Scheduler::with_processors(5).cpus(), 5);
}

#[test]
fn scheduler_notifies_only_a_waiting_thread() {
    let (mut sched, _, mut m) = launched(1);
    assert!(!sched.schedule(None, 1));
    assert_eq!(advance(&mut m, &mut sched), Action::Run(1));
    while advance(&mut m, &mut sched) != Action::Block {}
    // From its own thread the first task only fills the slot.
    assert!(!sched.schedule(Some(0), 2));
    assert!(sched.schedule(Some(0), 3));
    assert!(sched.schedule(None, 4));
    assert!(sched.schedule(Some(42), 5));
    for task in [3, 2, 4, 5] {
        assert_eq!(advance(&mut m, &mut sched), Action::Run(task));
    }
    assert!(!sched.schedule(None, 6));
}

#[test]
fn machine_polls_between_searches() {
    let (mut sched, _, mut m) = launched(1);
    let actions: Vec<Action> = (0..5).map(|_| m.step(&mut sched, 0).action).collect();
    assert_eq!(
        actions,
        vec![
            Action::Continue,
            Action::QuickPoll,
            Action::Continue,
            Action::Yield,
            Action::Continue,
        ]
    );
}

#[test]
fn idle_machine_of_the_scheduler_blocks_again_and_again() {
    let (mut sched, _, mut m) = launched(1);
    for _ in 0..3 {
        assert_eq!(advance(&mut m, &mut sched), Action::Yield);
    }
    assert_eq!(advance(&mut m, &mut sched), Action::Sleep(10));
    for _ in 0..20 {
        assert_eq!(advance(&mut m, &mut sched), Action::Block);
        assert_eq!(m.phase, Phase::Wake);
    }
    assert_eq!(m.fails, 5);
    sched.schedule(None, 1);
    assert_eq!(advance(&mut m, &mut sched), Action::Run(1));
    assert_eq!(m.fails, 0);
}

#[test]
fn second_machine_gives_its_processor_back() {
    let (mut sched, mut backoff, mut a) = launched(2);
    a.step(&mut sched, 0);
    assert_eq!(sched.run(&mut backoff).start, vec![1]);
    let mut b = MachineRun::new(1);
    while advance(&mut a, &mut sched) != Action::Block {}
    let mut last = advance(&mut b, &mut sched);
    while last != Action::Exit {
        assert_ne!(last, Action::Block);
        last = advance(&mut b, &mut sched);
    }
    // While a thread blocks, or did since the last round, no machine starts.
    assert_eq!(sched.run(&mut backoff).start, vec![]);
    assert_eq!(sched.run(&mut backoff).start, vec![]);
    a.step(&mut sched, 0);
    a.step(&mut sched, 0);
    assert_eq!(sched.run(&mut backoff).start, vec![2]);
}

#[test]
fn round_after_a_poll_starts_no_machine() {
    let (mut sched, mut backoff, mut a) = launched(2);
    while advance(&mut a, &mut sched) != Action::Block {}
    a.step(&mut sched, 0);
    a.step(&mut sched, 0);
    assert_eq!(sched.run(&mut backoff).start, vec![]);
    // Beginning another round is progress.
    MachineRun::new(0).step(&mut sched, 0);
    assert_eq!(sched.run(&mut backoff).start, vec![1]);
}

#[test]
fn task_found_before_blocking_is_kept() {
    let (mut sched, _, _) = launched(1);
    for phase in [Phase::NearbyAgain, Phase::AnywhereAgain] {
        let mut m = MachineRun { id: 0, phase: Phase::Claim, runs: 0, fails: 5 };
        assert_eq!(m.step(&mut sched, 0).action, Action::Continue);
        m.phase = phase;
        sched.schedule(None, 8);
        let s = m.step(&mut sched, 0);
        assert_eq!(s.action, Action::Continue);
        assert!(!s.notify);
        assert_eq!(m.phase, Phase::Begin);
        // The claim is given up.
        assert!(!sched.schedule(None, 9));
        assert_eq!(advance(&mut m, &mut sched), Action::Run(8));
        assert_eq!(advance(&mut m, &mut sched), Action::Run(9));
    }
}

#[test]
fn stuck_machine_of_the_scheduler_is_replaced() {
    let (mut sched, mut backoff, mut a) = launched(1);
    sched.schedule(None, 1);
    assert_eq!(advance(&mut a, &mut sched), Action::Run(1));
    sched.schedule(Some(0), 2);
    assert_eq!(sched.check_machines(), None);
    assert!(sched.can_start_machines());
    assert_eq!(sched.run(&mut backoff).start, vec![1]);
    assert_eq!(advance(&mut a, &mut sched), Action::Exit);
    let mut b = MachineRun::new(1);
    assert_eq!(advance(&mut b, &mut sched), Action::Run(2));
}

#[test]
fn blocking_machine_of_the_scheduler_is_not_replaced() {
    let (mut sched, _, mut a) = launched(1);
    while advance(&mut a, &mut sched) != Action::Block {}
    for _ in 0..5 {
        assert_eq!(sched.check_machines(), None);
    }
    assert_eq!(a.step(&mut sched, 0).action, Action::Continue);
    assert_eq!(a.phase, Phase::Begin);
}

#[test]
fn machine_that_lost_its_processor_before_blocking_still_blocks() {
    let (mut sched, _, _) = launched(1);
    sched.check_machines();
    assert_eq!(sched.check_machines(), Some(1));
    let mut a = MachineRun { id: 0, phase: Phase::NearbyAgain, runs: 0, fails: 5 };
    assert_eq!(a.step(&mut sched, 0).action, Action::QuickPoll);
    assert_eq!(a.step(&mut sched, 0).action, Action::Block);
    assert_eq!(a.step(&mut sched, 0).action, Action::Continue);
    assert_eq!(advance(&mut a, &mut sched), Action::Exit);
}

#[test]
fn scheduler_flushes_after_many_tasks() {
    let (mut sched, _, mut m) = launched(1);
    sched.schedule(None, 1000);
    sched.schedule(None, 1001);
    for task in 0..64 {
        sched.schedule(Some(0), task);
        assert_eq!(advance(&mut m, &mut sched), Action::Run(task));
    }
    sched.schedule(Some(0), 64);
    assert_eq!(m.step(&mut sched, 0).action, Action::QuickPoll);
    assert_eq!(m.phase, Phase::Refill);
    m.step(&mut sched, 0);
    assert_eq!(m.runs, 0);
    assert_eq!(advance(&mut m, &mut sched), Action::Run(1000));
    assert_eq!(advance(&mut m, &mut sched), Action::Run(64));
    assert_eq!(advance(&mut m, &mut sched), Action::Run(1001));
}

#[test]
fn scheduler_spins_down_unknown_machines_silently() {
    let (mut sched, _, _) = launched(2);
    sched.spin_down(9);
    assert_eq!(sched.spin_up(), Some(1));
    assert_eq!(sched.spin_up(), None);
    sched.spin_down(0);
    assert_eq!(sched.spin_up(), Some(2));
}

#[test]
fn scheduler_rounds_back_off() {
    let (mut sched, mut backoff, mut a) = launched(1);
    let mut sleeps = Vec::new();
    for _ in 0..16 {
        // Blocking on the reactor counts as progress, so that no round is busy.
        while advance(&mut a, &mut sched) != Action::Block {}
        sleeps.push(sched.run(&mut backoff).sleep);
    }
    let mut expected = vec![500; 10];
    expected.extend([1000, 2000, 4000, 8000, 10_000, 10_000]);
    assert_eq!(sleeps, expected);
}

#[test]
fn quiet_rounds_of_the_scheduler_are_busy() {
    let (mut sched, mut backoff, mut a) = launched(1);
    for _ in 0..30 {
        a.step(&mut sched, 0);
        a = MachineRun::new(0);
        let round = sched.run(&mut backoff);
        assert_eq!(round.start, vec![]);
        assert_eq!(round.sleep, 500);
    }
}

#[test]
fn scheduler_gives_access_to_its_reactor() {
    let mut sched = Scheduler::with_processors(1);
    let token = sched.reactor_mut().register();
    sched.reactor_mut().add_writer(token, 4);
    let _ = sched.reactor();
    let events = vec![async_std::rt::reactor::Event { token, readiness: 2 }];
    assert_eq!(sched.reactor_mut().poll(&events, 0).wakers, vec![4]);
}

#[test]
fn every_task_of_the_scheduler_runs_once() {
    let (mut sched, mut backoff, mut a) = launched(2);
    a.step(&mut sched, 0);
    assert_eq!(sched.run(&mut backoff).start, vec![1]);
    let mut b = MachineRun::new(1);
    let mut ran: Vec<u64> = Vec::new();
    for task in 0..150 {
        let current = match task % 3 {
            0 => None,
            1 => Some(0),
            _ => Some(1),
        };
        sched.schedule(current, task);
        for (i, m) in [&mut a, &mut b].into_iter().enumerate() {
            if let Action::Run(task) = m.step(&mut sched, i).action {
                ran.push(task);
            }
        }
    }
    for m in [&mut a, &mut b] {
        loop {
            match advance(m, &mut sched) {
                Action::Run(task) => ran.push(task),
                Action::Block | Action::Exit => break,
                _ => {}
            }
        }
    }
    ran.sort();
    assert_eq!(ran, (0..150).collect::<Vec<u64>>());
}

#[test]
fn scheduler_takes_a_reactor() {
    let mut reactor = Reactor::with_readiness(READABLE | WRITABLE);
    let t = reactor.register();
    reactor.add_writer(t, 9);
    let mut sched = Scheduler::with_reactor(reactor, 0);
    assert_eq!(sched.cpus(), 1);
    let events = vec![Event { token: t, readiness: WRITABLE }];
    assert_eq!(sched.reactor_mut().poll(&events, 0).wakers, vec![9]);
}

#[test]
fn blocking_machine_keeps_its_processor_until_it_wakes() {
    let (mut sched, mut backoff, mut blocked) = launched(2);
    while advance(&mut blocked, &mut sched) != Action::Block {}
    assert_eq!(sched.spin_up(), Some(1));
    let mut other = MachineRun::new(1);
    sched.schedule(None, 7);
    assert_eq!(advance(&mut other, &mut sched), Action::Run(7));
    // The other machine is stuck on its task and replaced, whatever the blocking one does.
    assert_eq!(sched.run(&mut backoff).start, vec![]);
    assert_eq!(sched.run(&mut backoff).start, vec![2]);
    for _ in 0..10 {
        assert!(!sched.run(&mut backoff).start.contains(&0));
    }
    assert_eq!(advance(&mut other, &mut sched), Action::Exit);
    assert_eq!(blocked.phase, Phase::Wake);
    // The slot of the blocking machine's processor is still its own.
    assert!(!sched.schedule(Some(0), 9));
    assert_eq!(advance(&mut blocked, &mut sched), Action::Run(9));
}

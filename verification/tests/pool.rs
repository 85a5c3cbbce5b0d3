use async_std::action::Action;
use async_std::task::executor::pool::{schedule, MachineRun, Phase, Scheduler, ROUND};

fn advance(m: &mut MachineRun, sched: &mut Scheduler) -> Action {
    loop {
        match m.step(sched, 0).action {
            Action::Continue | Action::QuickPoll => {}
            action => return action,
        }
    }
}

fn launched(cpus: usize) -> (Scheduler, MachineRun) {
    let mut sched = Scheduler::with_processors(cpus);
    assert_eq!(sched.spin_up(), Some(0));
    (sched, MachineRun::new(0))
}

#[test]
fn pool_has_a_processor_for_every_cpu() {
    assert_eq!(Scheduler::new().cpus(), num_cpus::get().max(1));
    assert_eq!(Scheduler::with_processors(0).cpus(), 1);
    assert_eq!(ROUND, 10_000);
}

#[test]
fn pool_runs_tasks_in_order() {
    let (mut sched, mut m) = launched(1);
    assert!(!schedule(&mut sched, None, 1));
    assert!(!schedule(&mut sched, None, 2));
    assert!(!schedule(&mut sched, Some(0), 3));
    assert!(!schedule(&mut sched, Some(0), 4));
    for task in [4, 3, 1, 2] {
        assert_eq!(advance(&mut m, &mut sched), Action::Run(task));
    }
}

#[test]
fn pool_notifies_only_a_sleeping_machine() {
    let (mut sched, mut m) = launched(1);
    while advance(&mut m, &mut sched) != Action::Block {}
    assert!(!schedule(&mut sched, Some(0), 1));
    assert!(schedule(&mut sched, Some(0), 2));
    assert!(schedule(&mut sched, None, 3));
    assert!(schedule(&mut sched, Some(7), 4));
    for task in [2, 1, 3, 4] {
        assert_eq!(advance(&mut m, &mut sched), Action::Run(task));
    }
    assert!(!schedule(&mut sched, None, 5));
}

#[test]
fn idle_machine_of_the_pool_goes_to_sleep() {
    let (mut sched, mut m) = launched(1);
    for _ in 0..3 {
        assert_eq!(advance(&mut m, &mut sched), Action::Yield);
    }
    assert_eq!(advance(&mut m, &mut sched), Action::Sleep(10));
    for _ in 0..9 {
        assert_eq!(advance(&mut m, &mut sched), Action::Block);
    }
    assert_eq!(m.fails, 5);
}

#[test]
fn sleeping_is_counted() {
    let (mut sched, mut m) = launched(3);
    let mut tick = 0;
    // No machine went to sleep: another one starts.
    m.step(&mut sched, 0);
    m.step(&mut sched, 0);
    assert_eq!(sched.run(&mut tick), vec![1]);
    assert_eq!(tick, 0);
    while advance(&mut m, &mut sched) != Action::Block {}
    MachineRun { id: 1, phase: Phase::Nearby, runs: 0, fails: 0 }.step(&mut sched, 0);
    // One went to sleep since, which the ticker tells.
    assert_eq!(sched.run(&mut tick), vec![]);
    assert_eq!(tick, 1);
    // It sleeps still.
    MachineRun { id: 1, phase: Phase::Nearby, runs: 0, fails: 0 }.step(&mut sched, 0);
    assert_eq!(sched.run(&mut tick), vec![]);
    assert_eq!(tick, 1);
    // It has woken up, and none went to sleep since.
    m.step(&mut sched, 0);
    MachineRun { id: 0, phase: Phase::Nearby, runs: 0, fails: 0 }.step(&mut sched, 0);
    MachineRun { id: 1, phase: Phase::Nearby, runs: 0, fails: 0 }.step(&mut sched, 0);
    assert_eq!(sched.run(&mut tick), vec![2]);
}

#[test]
fn second_machine_of_the_pool_ends() {
    let (mut sched, mut a) = launched(2);
    assert_eq!(sched.spin_up(), Some(1));
    let mut b = MachineRun::new(1);
    while advance(&mut a, &mut sched) != Action::Block {}
    let mut last = advance(&mut b, &mut sched);
    while last != Action::Exit {
        assert_ne!(last, Action::Block);
        last = advance(&mut b, &mut sched);
    }
    assert_eq!(b.phase, Phase::Done);
    assert_eq!(sched.spin_up(), Some(2));
}

#[test]
fn stuck_machines_of_the_pool_are_replaced() {
    let (mut sched, mut a) = launched(2);
    assert_eq!(sched.spin_up(), Some(1));
    schedule(&mut sched, None, 1);
    schedule(&mut sched, Some(0), 2);
    assert_eq!(sched.check_stuck_machines(), vec![]);
    assert!(sched.can_start_machines());
    assert_eq!(sched.check_stuck_machines(), vec![2, 3]);
    assert_eq!(advance(&mut a, &mut sched), Action::Exit);
    // Machine 2 took over from machine 0.
    let mut c = MachineRun::new(2);
    assert_eq!(advance(&mut c, &mut sched), Action::Run(2));
    assert_eq!(advance(&mut c, &mut sched), Action::Run(1));
}

#[test]
fn task_found_before_sleep_is_run() {
    let (mut sched, _) = launched(1);
    for phase in [Phase::NearbyAgain, Phase::OthersAgain] {
        let mut m = MachineRun { id: 0, phase: Phase::Claim, runs: 0, fails: 5 };
        m.step(&mut sched, 0);
        m.phase = phase;
        schedule(&mut sched, Some(0), 8);
        assert_eq!(m.step(&mut sched, 0).action, Action::Run(8));
        assert_eq!(m.runs, 1);
        assert_eq!(m.fails, 0);
        // The claim is given up.
        assert!(!schedule(&mut sched, None, 9));
        assert_eq!(advance(&mut m, &mut sched), Action::Run(9));
    }
}

#[test]
fn machine_of_the_pool_without_processor_sleeps_at_once() {
    let (mut sched, _) = launched(1);
    let mut a = MachineRun { id: 5, phase: Phase::NearbyAgain, runs: 0, fails: 5 };
    assert_eq!(a.step(&mut sched, 0).action, Action::Block);
    assert_eq!(a.step(&mut sched, 0).action, Action::Continue);
    assert_eq!(a.step(&mut sched, 0).action, Action::Continue);
    assert_eq!(a.phase, Phase::Nearby);
    assert_eq!(a.step(&mut sched, 0).action, Action::Continue);
    assert_eq!(a.step(&mut sched, 0).action, Action::Exit);
}

#[test]
fn pool_flushes_after_many_tasks() {
    let (mut sched, mut m) = launched(1);
    schedule(&mut sched, None, 1000);
    for task in 0..64 {
        schedule(&mut sched, Some(0), task);
        assert_eq!(advance(&mut m, &mut sched), Action::Run(task));
    }
    schedule(&mut sched, Some(0), 64);
    assert_eq!(m.step(&mut sched, 0).action, Action::QuickPoll);
    assert_eq!(m.runs, 0);
    assert_eq!(advance(&mut m, &mut sched), Action::Run(1000));
    assert_eq!(advance(&mut m, &mut sched), Action::Run(64));
}

#[test]
fn machine_of_the_pool_steals_from_others() {
    let (mut sched, _) = launched(2);
    assert_eq!(sched.spin_up(), Some(1));
    for task in 0..3 {
        schedule(&mut sched, Some(0), task);
    }
    let mut b = MachineRun::new(1);
    assert_eq!(advance(&mut b, &mut sched), Action::Run(0));
    assert_eq!(advance(&mut b, &mut sched), Action::Run(1));
    assert_eq!(advance(&mut b, &mut sched), Action::Yield);
}

#[test]
fn every_task_of_the_pool_runs_once() {
    let (mut sched, mut a) = launched(2);
    assert_eq!(sched.spin_up(), Some(1));
    let mut b = MachineRun::new(1);
    let mut ran: Vec<u64> = Vec::new();
    for task in 0..150 {
        let current = match task % 3 {
            0 => None,
            1 => Some(0),
            _ => Some(1),
        };
        schedule(&mut sched, current, task);
        for (i, m) in [&mut a, &mut b].into_iter().enumerate() {
            if let Action::Run(task) = m.step(&mut sched, i).action {
                ran.push(task);
            }
        }
    }
    for m in [&mut a, &mut b] {
        loop {
            match advance(m, &mut sched) {
                Action::Run(task) => ran.push(task),
                Action::Block | Action::Exit => break,
                _ => {}
            }
        }
    }
    ran.sort();
    assert_eq!(ran, (0..150).collect::<Vec<u64>>());
}

#[test]
fn sleeping_machine_of_the_pool_keeps_its_processor() {
    let (mut sched, mut asleep) = launched(2);
    while advance(&mut asleep, &mut sched) != Action::Block {}
    assert_eq!(sched.spin_up(), Some(1));
    let mut other = MachineRun::new(1);
    schedule(&mut sched, None, 7);
    assert_eq!(advance(&mut other, &mut sched), Action::Run(7));
    let mut tick = 0;
    assert_eq!(sched.run(&mut tick), vec![]);
    assert_eq!(tick, 1);
    assert_eq!(sched.run(&mut tick), vec![2]);
    for _ in 0..10 {
        sched.run(&mut tick);
    }
    assert_eq!(advance(&mut other, &mut sched), Action::Exit);
    assert_eq!(asleep.phase, Phase::Wake);
    // The slot of the sleeping machine's processor is still its own.
    assert!(!schedule(&mut sched, Some(0), 9));
    assert_eq!(advance(&mut asleep, &mut sched), Action::Run(9));
}

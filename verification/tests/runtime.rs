use async_std::action::Action;
use async_std::backoff::Backoff;
use async_std::rt::reactor::{Event, Reactor, READABLE, WRITABLE};
use async_std::rt::runtime::{MachineRun, Phase, Runtime};

/// Takes steps until there is something to do, and says whether a notification was due.
fn next(m: &mut MachineRun, rt: &mut Runtime) -> (Action, bool) {
    let mut notify = false;
    loop {
        let s = m.step(rt, 0);
        notify |= s.notify;
        if s.action != Action::Continue {
            return (s.action, notify);
        }
    }
}

/// Takes steps, over polls that do not wait, until there is something else to do.
fn advance(m: &mut MachineRun, rt: &mut Runtime) -> Action {
    loop {
        match next(m, rt).0 {
            Action::QuickPoll => {}
            action => return action,
        }
    }
}

fn started(cpus: usize, machines: usize) -> (Runtime, Vec<MachineRun>) {
    let mut rt = Runtime::with_processors(cpus);
    let mut backoff = Backoff::new();
    let mut runs = Vec::new();
    for id in 0..machines as u64 {
        let round = rt.run(&mut backoff);
        assert_eq!(round.start, vec![id]);
        let mut m = MachineRun::new(id);
        // A step, so that the machine has made progress when it is checked again.
        for m in runs.iter_mut() {
            let m: &mut MachineRun = m;
            while m.phase != Phase::Begin {
                m.step(&mut rt, 0);
            }
            m.step(&mut rt, 0);
        }
        m.step(&mut rt, 0);
        runs.push(m);
    }
    (rt, runs)
}

#[test]
fn runtime_has_a_processor_for_every_cpu() {
    assert_eq!(Runtime::new().cpus(), num_cpus::get().max(1));
    assert_eq!(Runtime::with_processors(0).cpus(), 1);
    assert_eq!(Runtime::with_processors(3).cpus(), 3);
}

#[test]
fn tasks_from_outside_run_in_order() {
    let (mut rt, mut runs) = started(1, 1);
    for task in 1..=10 {
        assert!(rt.schedule(None, task));
    }
    let m = &mut runs[0];
    for task in 1..=10 {
        assert_eq!(advance(m, &mut rt), Action::Run(task));
    }
    assert_eq!(advance(m, &mut rt), Action::Yield);
}

#[test]
fn tasks_of_unknown_machines_go_to_the_global_queue() {
    let (mut rt, mut runs) = started(1, 1);
    assert!(rt.schedule(Some(99), 1));
    assert!(!rt.schedule(Some(0), 2));
    assert_eq!(advance(&mut runs[0], &mut rt), Action::Run(2));
    assert_eq!(advance(&mut runs[0], &mut rt), Action::Run(1));
}

#[test]
fn machine_runs_its_latest_task_first() {
    let (mut rt, mut runs) = started(1, 1);
    assert!(!rt.schedule(Some(0), 1));
    assert!(rt.schedule(Some(0), 2));
    assert!(rt.schedule(Some(0), 3));
    for task in [3, 1, 2] {
        assert_eq!(advance(&mut runs[0], &mut rt), Action::Run(task));
    }
}

#[test]
fn yielding_sends_the_slot_to_the_back() {
    let (mut rt, mut runs) = started(1, 1);
    rt.schedule(Some(0), 1);
    rt.schedule(Some(0), 2);
    rt.yield_now(Some(0));
    rt.yield_now(None);
    rt.yield_now(Some(50));
    runs[0] = MachineRun::new(0);
    let m = &mut runs[0];
    assert_eq!(next(m, &mut rt), (Action::Run(1), true));
    assert_eq!(next(m, &mut rt), (Action::Run(2), false));
}

#[test]
fn global_queue_gets_its_turn_after_many_tasks() {
    let (mut rt, mut runs) = started(1, 1);
    let m = &mut runs[0];
    rt.schedule(None, 1000);
    for task in 0..64 {
        rt.schedule(Some(0), task);
        assert_eq!(advance(m, &mut rt), Action::Run(task));
    }
    // The slot would go on being served first.
    rt.schedule(Some(0), 64);
    assert_eq!(m.runs, 64);
    assert_eq!(next(m, &mut rt), (Action::QuickPoll, false));
    assert_eq!(m.phase, Phase::Refill);
    let s = m.step(&mut rt, 0);
    assert!(s.notify);
    assert_eq!(m.runs, 0);
    assert_eq!(next(m, &mut rt), (Action::Run(64), false));
    assert_eq!(next(m, &mut rt), (Action::Run(1000), false));
}

#[test]
fn refill_without_global_tasks_flushes_the_slot() {
    let (mut rt, _) = started(1, 1);
    let mut m = MachineRun { id: 0, phase: Phase::Refill, runs: 64, fails: 0 };
    assert!(!m.step(&mut rt, 0).notify);
    rt.schedule(Some(0), 1);
    m = MachineRun { id: 0, phase: Phase::Refill, runs: 64, fails: 0 };
    assert!(m.step(&mut rt, 0).notify);
    assert_eq!(next(&mut m, &mut rt), (Action::Run(1), false));
}

#[test]
fn idle_machine_yields_sleeps_and_blocks() {
    let (mut rt, mut runs) = started(1, 1);
    let m = &mut runs[0];
    for _ in 0..3 {
        assert_eq!(advance(m, &mut rt), Action::Yield);
    }
    assert_eq!(advance(m, &mut rt), Action::Sleep(10));
    assert_eq!(advance(m, &mut rt), Action::Block);
    assert_eq!(m.phase, Phase::Wake);
    // What is scheduled from it while it polls goes to its own processor.
    assert!(!rt.schedule(Some(0), 7));
    assert_eq!(advance(m, &mut rt), Action::Run(7));
}

#[test]
fn task_found_at_the_last_moment_is_kept() {
    let (mut rt, _) = started(1, 1);
    rt.schedule(None, 5);
    let mut m = MachineRun { id: 0, phase: Phase::Idle, runs: 0, fails: 0 };
    let s = m.step(&mut rt, 0);
    assert_eq!(s.action, Action::Continue);
    assert!(!s.notify);
    assert_eq!(m.phase, Phase::Begin);
    assert_eq!(next(&mut m, &mut rt).0, Action::Run(5));
}

#[test]
fn second_idle_machine_ends() {
    let (mut rt, mut runs) = started(2, 2);
    let mut b = runs.pop().unwrap();
    let mut a = runs.pop().unwrap();
    while advance(&mut a, &mut rt) != Action::Block {}
    let mut last = advance(&mut b, &mut rt);
    while last != Action::Exit {
        assert_ne!(last, Action::Block);
        last = advance(&mut b, &mut rt);
    }
    assert_eq!(b.phase, Phase::Done);
    assert_eq!(next(&mut b, &mut rt), (Action::Exit, false));
    // Its processor is idle again: while a machine polls no other is made.
    let mut backoff = Backoff::new();
    assert_eq!(rt.run(&mut backoff).start, vec![]);
    // After the poll one round passes, and then another machine is made for it.
    assert_eq!(a.step(&mut rt, 0).action, Action::Continue);
    assert_eq!(rt.run(&mut backoff).start, vec![]);
    a.step(&mut rt, 0);
    assert_eq!(rt.run(&mut backoff).start, vec![2]);
}

#[test]
fn no_quick_poll_while_a_machine_polls() {
    let (mut rt, mut runs) = started(2, 2);
    let mut b = runs.pop().unwrap();
    let mut a = runs.pop().unwrap();
    while advance(&mut a, &mut rt) != Action::Block {}
    loop {
        match next(&mut b, &mut rt).0 {
            Action::Exit => break,
            action => assert_ne!(action, Action::QuickPoll),
        }
    }
}

#[test]
fn idle_machine_steals_from_others() {
    let (mut rt, mut runs) = started(2, 2);
    let mut b = runs.pop().unwrap();
    for task in 0..4 {
        rt.schedule(Some(0), task);
    }
    // Machine 0 holds processor 1, whose slot is not up for theft.
    assert_eq!(advance(&mut b, &mut rt), Action::Run(0));
    let mut seen = Vec::new();
    for _ in 0..2 {
        match advance(&mut b, &mut rt) {
            Action::Run(task) => seen.push(task),
            action => panic!("unexpected {:?}", action),
        }
    }
    assert_eq!(seen, vec![1, 2]);
    assert_eq!(advance(&mut b, &mut rt), Action::Yield);
    assert_eq!(advance(&mut runs[0], &mut rt), Action::Run(3));
}

#[test]
fn stuck_machine_is_replaced_and_ends() {
    let mut rt = Runtime::with_processors(1);
    let mut backoff = Backoff::new();
    assert!(rt.can_make_machines());
    assert_eq!(rt.make_machines(), vec![0]);
    let mut a = MachineRun::new(0);
    rt.schedule(None, 1);
    assert_eq!(advance(&mut a, &mut rt), Action::Run(1));
    rt.schedule(Some(0), 2);
    assert_eq!(rt.run(&mut backoff).start, vec![]);
    assert_eq!(rt.run(&mut backoff).start, vec![1]);
    // The new machine has the tasks, and what the old one schedules now goes to everyone.
    let mut b = MachineRun::new(1);
    assert!(rt.schedule(Some(0), 3));
    assert_eq!(advance(&mut a, &mut rt), Action::Exit);
    assert_eq!(a.phase, Phase::Done);
    assert_eq!(advance(&mut b, &mut rt), Action::Run(2));
    assert_eq!(advance(&mut b, &mut rt), Action::Run(3));
}

#[test]
fn rounds_back_off_while_nothing_starts() {
    let mut rt = Runtime::with_processors(1);
    let mut backoff = Backoff::new();
    let first = rt.run(&mut backoff);
    assert_eq!(first.start, vec![0]);
    assert_eq!(first.sleep, 1000);
    let mut a = MachineRun::new(0);
    let mut sleeps = Vec::new();
    for _ in 0..14 {
        a.step(&mut rt, 0);
        a = MachineRun::new(0);
        let round = rt.run(&mut backoff);
        assert_eq!(round.start, vec![]);
        sleeps.push(round.sleep);
    }
    let mut expected = vec![1000; 10];
    expected.extend([2000, 4000, 8000, 10_000]);
    assert_eq!(sleeps, expected);
}

#[test]
fn machine_without_poll_phase_ends_at_wake() {
    let (mut rt, _) = started(1, 1);
    let mut m = MachineRun { id: 0, phase: Phase::Wake, runs: 0, fails: 0 };
    assert_eq!(m.step(&mut rt, 0).action, Action::Exit);
}

#[test]
fn runtime_gives_access_to_its_reactor() {
    let mut rt = Runtime::with_processors(1);
    let token = rt.reactor_mut().register();
    rt.reactor_mut().add_reader(token, 3);
    let _ = rt.reactor();
    let events = vec![async_std::rt::reactor::Event { token, readiness: 1 }];
    assert_eq!(rt.reactor_mut().poll(&events, 0).wakers, vec![3]);
}

#[test]
fn every_task_of_the_runtime_runs_once() {
    let (mut rt, mut runs) = started(3, 3);
    let mut scheduled: Vec<u64> = Vec::new();
    let mut ran: Vec<u64> = Vec::new();
    let mut task = 0;
    for round in 0..400u64 {
        if round < 200 {
            let current = match round % 4 {
                3 => None,
                id => Some(id),
            };
            rt.schedule(current, task);
            scheduled.push(task);
            task += 1;
        }
        let i = (round * 7 % 3) as usize;
        let s = runs[i].step(&mut rt, (round % 3) as usize);
        if let Action::Run(task) = s.action {
            ran.push(task);
        }
    }
    for m in runs.iter_mut() {
        loop {
            match advance(m, &mut rt) {
                Action::Run(task) => ran.push(task),
                Action::Block | Action::Exit => break,
                _ => {}
            }
        }
    }
    ran.sort();
    assert_eq!(ran, scheduled);
}

#[test]
fn runtime_takes_a_reactor() {
    let mut reactor = Reactor::with_readiness(READABLE | WRITABLE);
    let t = reactor.register();
    reactor.add_reader(t, 9);
    let mut rt = Runtime::with_reactor(reactor, 2);
    assert_eq!(rt.cpus(), 2);
    let events = vec![Event { token: t, readiness: READABLE }];
    assert_eq!(rt.reactor_mut().poll(&events, 0).wakers, vec![9]);
    assert_eq!(rt.reactor().notify_token(), 0);
}

#[test]
fn one_thread_polls_while_the_others_end() {
    let (mut rt, mut runs) = started(3, 3);
    let mut blocked = 0;
    for m in runs.iter_mut() {
        loop {
            match advance(m, &mut rt) {
                Action::Block => {
                    blocked += 1;
                    assert_eq!(m.phase, Phase::Wake);
                    break;
                }
                Action::Exit => {
                    assert_eq!(m.phase, Phase::Done);
                    break;
                }
                _ => {}
            }
        }
    }
    assert_eq!(blocked, 1);
    // The threads that ended have no processor: what they schedule goes to the global queue.
    for m in &runs {
        assert_eq!(rt.schedule(Some(m.id), 1), m.phase == Phase::Done);
    }
}

#[test]
fn machines_that_are_made_are_new_and_hold_processors() {
    let (mut rt, mut runs) = started(3, 2);
    for (i, m) in runs.iter_mut().enumerate() {
        rt.schedule(Some(m.id), 10 + i as u64);
        assert_eq!(advance(m, &mut rt), Action::Run(10 + i as u64));
    }
    // Both machines are stuck on their tasks, and a processor is idle.
    let mut made = rt.make_machines();
    made.extend(rt.make_machines());
    let mut ids = made.clone();
    ids.sort();
    ids.dedup();
    assert_eq!(ids.len(), made.len());
    assert!(made.iter().all(|id| runs.iter().all(|m| m.id != *id)));
    for id in &made {
        // A task of a machine with a processor goes to its empty slot, unnoticed.
        assert!(!rt.schedule(Some(*id), *id));
    }
    for m in &runs {
        assert!(rt.schedule(Some(m.id), m.id));
    }
}

use async_std::rt::reactor::{
    first_attempt, ErrorKind, Event, IoError, Poll, Reactor, Watcher, READABLE, WRITABLE,
};

/// The readiness bit of an error, which neither is readability nor writability.
const ERROR: usize = 4;

fn event(token: usize, readiness: usize) -> Event {
    Event { token, readiness }
}

fn blocked() -> Result<u32, IoError<&'static str>> {
    Err(IoError { kind: ErrorKind::WouldBlock, error: "would block" })
}

#[test]
fn readiness_bits_are_those_of_the_poller() {
    assert_eq!(READABLE, mio::Ready::readable().as_usize());
    assert_eq!(WRITABLE, mio::Ready::writable().as_usize());
    assert_eq!(ERROR, mio::Ready::from(mio::unix::UnixReady::error()).as_usize());
}

#[test]
fn tokens_are_unique_and_reused() {
    let mut r = Reactor::new();
    let a = r.register();
    let b = r.register();
    assert_ne!(a, b);
    r.deregister(a);
    assert_eq!(r.register(), a);
}

#[test]
fn notification_token_is_the_first() {
    let mut r = Reactor::new();
    // The notification handle is registered, so the next token is another one.
    assert_eq!(r.notify_token(), 0);
    assert_eq!(r.register(), 1);
    let p = r.poll(&vec![event(0, READABLE)], 0);
    assert!(p.reset);
    assert_eq!(p.done, 1);
    assert_eq!(p.wakers, vec![]);
}

#[test]
fn readable_event_wakes_readers_once() {
    let mut r = Reactor::new();
    let t = r.register();
    r.add_reader(t, 10);
    r.add_reader(t, 11);
    r.add_reader(t, 10);
    r.add_writer(t, 12);
    let events = vec![event(t, READABLE), event(t, READABLE)];
    let p = r.poll(&events, 0);
    assert_eq!(p.wakers, vec![10, 11]);
    assert_eq!(p.done, 2);
    assert!(!p.reset);
    assert_eq!(r.poll(&vec![event(t, WRITABLE)], 0).wakers, vec![12]);
    assert_eq!(r.poll(&events, 0).wakers, vec![]);
}

#[test]
fn writable_event_leaves_readers_waiting() {
    let mut r = Reactor::new();
    let t = r.register();
    r.add_reader(t, 1);
    r.add_writer(t, 2);
    r.add_writer(t, 2);
    assert_eq!(r.poll(&vec![event(t, WRITABLE)], 0).wakers, vec![2]);
    assert_eq!(r.poll(&vec![event(t, READABLE)], 0).wakers, vec![1]);
}

#[test]
fn other_readiness_wakes_readers_and_writers() {
    let mut r = Reactor::new();
    let t = r.register();
    r.add_reader(t, 1);
    r.add_writer(t, 2);
    assert_eq!(r.poll(&vec![event(t, ERROR)], 0).wakers, vec![1, 2]);
    r.add_reader(t, 1);
    r.add_writer(t, 2);
    assert_eq!(r.poll(&vec![event(t, READABLE | WRITABLE)], 0).wakers, vec![1, 2]);
}

#[test]
fn event_without_interest_wakes_nobody() {
    let mut r = Reactor::new();
    let t = r.register();
    r.add_reader(t, 1);
    r.add_writer(t, 2);
    assert_eq!(r.poll(&vec![event(t, 0)], 0).wakers, vec![]);
    assert_eq!(r.poll(&vec![event(t, READABLE | WRITABLE)], 0).wakers, vec![1, 2]);
}

#[test]
fn events_of_unknown_handles_are_ignored() {
    let mut r = Reactor::new();
    let t = r.register();
    r.add_reader(t, 1);
    r.deregister(t);
    let p = r.poll(&vec![event(t, READABLE), event(77, READABLE)], 0);
    assert_eq!(p.wakers, vec![]);
    assert_eq!(p.done, 2);
}

#[test]
fn notification_stops_until_it_is_reset() {
    let mut r = Reactor::new();
    let a = r.register();
    let b = r.register();
    r.add_reader(a, 1);
    r.add_reader(b, 2);
    let events = vec![event(a, READABLE), event(0, READABLE), event(b, READABLE)];
    let first = r.poll(&events, 0);
    assert_eq!(first.wakers, vec![1]);
    assert!(first.reset);
    assert_eq!(first.done, 2);
    let second = r.poll(&events, first.done);
    assert_eq!(second.wakers, vec![2]);
    assert!(!second.reset);
    assert_eq!(second.done, 3);
}

#[test]
fn poll_without_events_does_nothing() {
    let mut r = Reactor::new();
    let p = r.poll(&vec![], 0);
    assert_eq!(p.wakers, vec![]);
    assert_eq!(p.done, 0);
    assert!(!p.reset);
}

#[test]
fn watcher_returns_a_result_at_once() {
    let mut r = Reactor::new();
    let w = Watcher::new("source", &mut r);
    assert_eq!(*w.get_ref(), "source");
    let mut calls = 0;
    let res = w.poll_read_with(&mut r, 5, |s: &&str| {
        calls += 1;
        Ok::<usize, IoError<()>>(s.len())
    });
    assert!(matches!(res, Poll::Ready(Ok(6))));
    assert_eq!(calls, 1);
    assert_eq!(r.poll(&vec![event(w.key(), READABLE)], 0).wakers, vec![]);
}

#[test]
fn watcher_returns_other_errors_at_once() {
    let mut r = Reactor::new();
    let w = Watcher::new((), &mut r);
    let res = w.poll_write_with(&mut r, 5, |_: &()| {
        Err::<u32, IoError<&'static str>>(IoError { kind: ErrorKind::Other, error: "broken" })
    });
    match res {
        Poll::Ready(Err(err)) => assert_eq!(err.error, "broken"),
        _ => panic!("an error was expected"),
    }
    assert_eq!(r.poll(&vec![event(w.key(), WRITABLE)], 0).wakers, vec![]);
}

#[test]
fn watcher_tries_twice() {
    let mut r = Reactor::new();
    let w = Watcher::new((), &mut r);
    let mut calls = 0;
    let res = w.poll_read_with(&mut r, 5, |_: &()| {
        calls += 1;
        if calls == 1 {
            blocked()
        } else {
            Ok(9)
        }
    });
    assert!(matches!(res, Poll::Ready(Ok(9))));
    assert_eq!(calls, 2);
    assert_eq!(r.poll(&vec![event(w.key(), READABLE)], 0).wakers, vec![]);
}

#[test]
fn watcher_waits_to_read() {
    let mut r = Reactor::new();
    let w = Watcher::new((), &mut r);
    for _ in 0..2 {
        let mut calls = 0;
        let res = w.poll_read_with(&mut r, 5, |_: &()| {
            calls += 1;
            blocked()
        });
        assert!(matches!(res, Poll::Pending));
        assert_eq!(calls, 2);
    }
    assert_eq!(r.poll(&vec![event(w.key(), WRITABLE)], 0).wakers, vec![]);
    assert_eq!(r.poll(&vec![event(w.key(), READABLE)], 0).wakers, vec![5]);
}

#[test]
fn watcher_waits_to_write() {
    let mut r = Reactor::new();
    let w = Watcher::new((), &mut r);
    let res = w.poll_write_with(&mut r, 6, |_: &()| blocked());
    assert!(matches!(res, Poll::Pending));
    assert_eq!(r.poll(&vec![event(w.key(), READABLE)], 0).wakers, vec![]);
    assert_eq!(r.poll(&vec![event(w.key(), WRITABLE)], 0).wakers, vec![6]);
}

#[test]
fn second_result_ends_an_operation() {
    let mut r = Reactor::new();
    let w = Watcher::new((), &mut r);
    assert!(matches!(w.finish_read(&mut r, 1, Ok::<u32, IoError<()>>(3)), Poll::Ready(Ok(3))));
    assert!(matches!(w.finish_write(&mut r, 2, blocked()), Poll::Pending));
    assert_eq!(r.poll(&vec![event(w.key(), READABLE | WRITABLE)], 0).wakers, vec![2]);
}

#[test]
fn watcher_gives_its_source_back() {
    let mut r = Reactor::new();
    let w = Watcher::new(vec![1, 2, 3], &mut r);
    let t = w.key();
    assert_eq!(w.into_inner(&mut r), vec![1, 2, 3]);
    // The token is free again.
    assert_eq!(r.register(), t);
}

#[test]
fn watcher_closes_once() {
    let mut r = Reactor::new();
    let mut w = Watcher::new(8, &mut r);
    assert_eq!(w.close(&mut r), Some(8));
    assert_eq!(w.close(&mut r), None);
    assert_eq!(r.register(), w.key());
}

#[test]
fn every_readiness_of_the_platform_wakes_somebody() {
    let all = mio::Ready::all().as_usize();
    let mut r = Reactor::new();
    let t = r.register();
    for i in 0..usize::BITS {
        let bit: usize = 1 << i;
        r.add_reader(t, 1);
        r.add_writer(t, 2);
        let expected = if all & bit == 0 {
            vec![]
        } else if bit == READABLE {
            vec![1]
        } else if bit == WRITABLE {
            vec![2]
        } else {
            vec![1, 2]
        };
        assert_eq!(r.poll(&vec![event(t, bit)], 0).wakers, expected);
    }
}

#[test]
fn interests_follow_the_readiness_of_the_platform() {
    let mut plain = Reactor::with_readiness(READABLE | WRITABLE);
    let mut rich = Reactor::with_readiness(READABLE | WRITABLE | ERROR);
    assert_eq!(plain.notify_token(), 0);
    for r in [&mut plain, &mut rich] {
        let t = r.register();
        assert_eq!(t, 1);
        r.add_reader(t, 1);
        r.add_writer(t, 2);
    }
    assert_eq!(plain.poll(&vec![event(1, ERROR)], 0).wakers, vec![]);
    assert_eq!(rich.poll(&vec![event(1, ERROR)], 0).wakers, vec![1, 2]);
    assert_eq!(plain.poll(&vec![event(1, ERROR | WRITABLE)], 0).wakers, vec![2]);
    assert_eq!(plain.poll(&vec![event(1, READABLE)], 0).wakers, vec![1]);
}

#[test]
fn batch_wakes_each_task_once() {
    let mut r = Reactor::new();
    let a = r.register();
    let b = r.register();
    r.add_reader(a, 1);
    r.add_writer(a, 1);
    r.add_reader(b, 2);
    r.add_writer(b, 3);
    let events = vec![
        event(a, READABLE),
        event(b, WRITABLE),
        event(a, ERROR),
        event(b, WRITABLE),
        event(a, READABLE | WRITABLE),
    ];
    assert_eq!(r.poll(&events, 0).wakers, vec![1, 3, 1]);
    assert_eq!(r.poll(&vec![event(b, READABLE)], 0).wakers, vec![2]);
}

#[test]
fn first_result_ends_an_operation_unless_it_is_blocked() {
    assert!(matches!(first_attempt(Ok::<u32, IoError<()>>(7)), Some(Poll::Ready(Ok(7)))));
    let broken: Result<u32, IoError<u8>> = Err(IoError { kind: ErrorKind::Other, error: 4 });
    match first_attempt(broken) {
        Some(Poll::Ready(Err(err))) => assert_eq!(err.error, 4),
        _ => panic!("an error was expected"),
    }
    assert!(first_attempt(blocked()).is_none());
}

#[test]
fn operation_that_does_not_block_runs_once() {
    let mut r = Reactor::new();
    let w = Watcher::new((), &mut r);
    let mut calls = 0;
    let res = w.poll_write_with(&mut r, 5, |_: &()| {
        calls += 1;
        Ok::<u32, IoError<()>>(calls)
    });
    assert!(matches!(res, Poll::Ready(Ok(1))));
    assert_eq!(calls, 1);
}

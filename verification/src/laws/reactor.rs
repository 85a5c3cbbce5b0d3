//! Laws of the reactor.

use crate::rt::reactor::{
    would_block, ErrorKind, Event, IoError, ReactorView, READABLE, WRITABLE,
};
use vstd::prelude::*;

verus! {

/// Everything but the entry of one handle is the same.
pub open spec fn same_but_for(v: ReactorView, w: ReactorView, token: usize) -> bool {
    &&& w.notify_token == v.notify_token
    &&& w.reader_interests == v.reader_interests
    &&& w.writer_interests == v.writer_interests
    &&& forall|t: usize|
        t != token ==> #[trigger] w.entries.contains_key(t) == v.entries.contains_key(t)
    &&& forall|t: usize|
        t != token && v.entries.contains_key(t) ==> #[trigger] w.entries[t] == v.entries[t]
}

/// A list to which a task was added, behind the others, unless it was there.
pub open spec fn joined(before: Seq<u64>, after: Seq<u64>, waker: u64) -> bool {
    &&& after.contains(waker)
    &&& before.len() <= after.len() <= before.len() + 1
    &&& after.subrange(0, before.len() as int) == before
    &&& before.contains(waker) ==> after.len() == before.len()
}

/// A task that waits to read joins the readers of the handle. Every task that waited before, to
/// read or to write, for this handle or another, waits as before.
pub proof fn waiting_to_read_keeps_all_who_wait(v: ReactorView, token: usize, waker: u64)
    requires
        v.entries.contains_key(token),
    ensures
        ({
            let w = v.with_reader(token, waker);
            &&& same_but_for(v, w, token)
            &&& w.entries.contains_key(token)
            &&& w.entries[token].token == v.entries[token].token
            &&& w.entries[token].writers == v.entries[token].writers
            &&& joined(v.entries[token].readers, w.entries[token].readers, waker)
        }),
{
    let before = v.entries[token].readers;
    let after = v.with_reader(token, waker).entries[token].readers;
    if !before.contains(waker) {
        assert(after[before.len() as int] == waker);
    }
    assert(after.subrange(0, before.len() as int) =~= before);
}

/// A task that waits to write joins the writers of the handle. Every task that waited before, to
/// read or to write, for this handle or another, waits as before.
pub proof fn waiting_to_write_keeps_all_who_wait(v: ReactorView, token: usize, waker: u64)
    requires
        v.entries.contains_key(token),
    ensures
        ({
            let w = v.with_writer(token, waker);
            &&& same_but_for(v, w, token)
            &&& w.entries.contains_key(token)
            &&& w.entries[token].token == v.entries[token].token
            &&& w.entries[token].readers == v.entries[token].readers
            &&& joined(v.entries[token].writers, w.entries[token].writers, waker)
        }),
{
    let before = v.entries[token].writers;
    let after = v.with_writer(token, waker).entries[token].writers;
    if !before.contains(waker) {
        assert(after[before.len() as int] == waker);
    }
    assert(after.subrange(0, before.len() as int) =~= before);
}

/// A task that waits to write is woken up by the next writable event although another task began to
/// wait to read after it, and the other way round.
pub proof fn readers_and_writers_do_not_interfere(
    v: ReactorView,
    token: usize,
    reader: u64,
    writer: u64,
    e: Event,
)
    requires
        v.wf(),
        v.watches(token),
        e.token == token,
    ensures
        e.readiness & WRITABLE != 0 ==> v.with_writer(token, writer).with_reader(
            token,
            reader,
        ).woken(e).contains(writer),
        e.readiness & READABLE != 0 ==> v.with_reader(token, reader).with_writer(
            token,
            writer,
        ).woken(e).contains(reader),
{
    let bits = e.readiness;
    let r = v.reader_interests;
    let w = v.writer_interests;
    let a = v.with_writer(token, writer).with_reader(token, reader);
    let b = v.with_reader(token, reader).with_writer(token, writer);
    if bits & WRITABLE != 0 {
        assert(bits & w != 0) by (bit_vector)
            requires
                w & 2usize == 2usize,
                bits & 2usize != 0,
        ;
        waiting_to_write_keeps_all_who_wait(v, token, writer);
        waiting_to_read_keeps_all_who_wait(v.with_writer(token, writer), token, reader);
        let list = a.entries[token].writers;
        let i = choose|i: int| 0 <= i < list.len() && list[i] == writer;
        let skipped = if a.wakes_readers(e) {
            a.entries[token].readers.len() as int
        } else {
            0
        };
        assert(a.woken(e)[skipped + i] == writer);
    }
    if bits & READABLE != 0 {
        assert(bits & r != 0) by (bit_vector)
            requires
                r & 1usize == 1usize,
                bits & 1usize != 0,
        ;
        waiting_to_read_keeps_all_who_wait(v, token, reader);
        waiting_to_write_keeps_all_who_wait(v.with_reader(token, reader), token, writer);
        let list = b.entries[token].readers;
        let i = choose|i: int| 0 <= i < list.len() && list[i] == reader;
        assert(b.woken(e)[i] == reader);
    }
}

/// A handle that is registered has an entry of its own for which nobody waits, and one that is
/// deregistered has none. Other handles are not concerned.
pub proof fn registering_concerns_one_handle(v: ReactorView, token: usize)
    ensures
        same_but_for(v, v.registered(token), token),
        v.registered(token).entries.contains_key(token),
        v.registered(token).entries[token].token == token,
        v.registered(token).entries[token].readers.len() == 0,
        v.registered(token).entries[token].writers.len() == 0,
        same_but_for(v, v.deregistered(token), token),
        !v.deregistered(token).entries.contains_key(token),
{
}

/// An event wakes up the readers of its handle, and then the writers, each list if the readiness
/// has a bit that interests it, and empties the lists that it wakes up. It concerns no other
/// handle, and a notification or an event of an unknown handle concerns none.
pub proof fn events_wake_whom_they_interest(v: ReactorView, e: Event)
    ensures
        ({
            let known = v.entries.contains_key(e.token) && e.token != v.notify_token;
            let reads = e.readiness & v.reader_interests != 0;
            let writes = e.readiness & v.writer_interests != 0;
            let entry = v.entries[e.token];
            let none = Seq::<u64>::empty();
            let w = v.after(e);
            &&& v.woken(e) == if known {
                (if reads {
                    entry.readers
                } else {
                    none
                }) + (if writes {
                    entry.writers
                } else {
                    none
                })
            } else {
                none
            }
            &&& same_but_for(v, w, e.token)
            &&& w.entries.contains_key(e.token) == v.entries.contains_key(e.token)
            &&& known ==> w.entries[e.token].token == entry.token && w.entries[e.token].readers
                == (if reads {
                none
            } else {
                entry.readers
            }) && w.entries[e.token].writers == (if writes {
                none
            } else {
                entry.writers
            })
            &&& !known ==> w == v
        }),
{
    if !(v.entries.contains_key(e.token) && e.token != v.notify_token) {
        assert(v.woken(e) =~= Seq::<u64>::empty());
    }
}

/// Handling a list of events is handling its first part and then the rest.
pub proof fn events_are_handled_one_after_the_other(
    v: ReactorView,
    first: Seq<Event>,
    rest: Seq<Event>,
)
    ensures
        v.after_all(first + rest) == v.after_all(first).after_all(rest),
        v.woken_by_all(first + rest) == v.woken_by_all(first) + v.after_all(first).woken_by_all(
            rest,
        ),
    decreases rest.len(),
{
    if rest.len() == 0 {
        assert(first + rest =~= first);
        assert(v.woken_by_all(first + rest) =~= v.woken_by_all(first) + v.after_all(
            first,
        ).woken_by_all(rest));
    } else {
        let shorter = rest.drop_last();
        events_are_handled_one_after_the_other(v, first, shorter);
        assert((first + rest).drop_last() =~= first + shorter);
        assert((first + rest).last() == rest.last());
        assert(v.woken_by_all(first + rest) =~= v.woken_by_all(first) + v.after_all(
            first,
        ).woken_by_all(rest));
    }
}

/// Handling no event does nothing, and handling one event is what that event does.
pub proof fn handling_few_events(v: ReactorView, e: Event)
    ensures
        v.after_all(Seq::empty()) == v,
        v.woken_by_all(Seq::empty()) == Seq::<u64>::empty(),
        v.after_all(seq![e]) == v.after(e),
        v.woken_by_all(seq![e]) == v.woken(e),
{
    let one = seq![e];
    assert(one.drop_last() =~= Seq::<Event>::empty());
    assert(one.last() == e);
    assert(v.after_all(one.drop_last()) == v);
    assert(v.woken_by_all(one.drop_last()) =~= Seq::<u64>::empty());
    assert(v.woken_by_all(one) =~= v.woken(e));
}

/// Events of one handle wake up nobody who waits for another, and leave its lists alone.
pub proof fn events_of_others_change_nothing(v: ReactorView, events: Seq<Event>, token: usize)
    requires
        v.entries.contains_key(token),
        forall|i: int| 0 <= i < events.len() ==> (#[trigger] events[i]).token != token,
    ensures
        v.after_all(events).entries.contains_key(token),
        v.after_all(events).entries[token] == v.entries[token],
    decreases events.len(),
{
    if events.len() > 0 {
        let before = events.drop_last();
        assert forall|i: int| 0 <= i < before.len() implies (#[trigger] before[i]).token
            != token by {
            assert(before[i] == events[i]);
        }
        events_of_others_change_nothing(v, before, token);
        assert(events[events.len() - 1].token != token);
        events_wake_whom_they_interest(v.after_all(before), events.last());
    }
}

/// A new reactor has the notification handle, under token zero, and no other, and nobody waits.
pub proof fn new_reactor_has_the_notification_handle(v: ReactorView, t: usize)
    requires
        v.is_new(),
    ensures
        v.notify_token == 0,
        v.entries.contains_key(t) == (t == 0),
        v.entries[0].token == 0,
        v.entries[0].readers.len() == 0,
        v.entries[0].writers.len() == 0,
        v.wf(),
{
}

/// Of the readiness bits of a platform, readers are interested in all but writability, and writers
/// in all but readability.
pub proof fn interests_leave_out_the_other_direction(v: ReactorView, all: usize, bit: usize)
    requires
        v.interested_in(all),
    ensures
        v.reader_interests & 2 == 0,
        v.writer_interests & 1 == 0,
        bit & 2 == 0 ==> v.reader_interests & bit == all & bit,
        bit & 1 == 0 ==> v.writer_interests & bit == all & bit,
{
    let r = v.reader_interests;
    let w = v.writer_interests;
    assert((all & !2usize) & 2 == 0 && (all & !1usize) & 1 == 0) by (bit_vector);
    assert(bit & 2 == 0 ==> (all & !2usize) & bit == all & bit) by (bit_vector);
    assert(bit & 1 == 0 ==> (all & !1usize) & bit == all & bit) by (bit_vector);
}

/// An operation blocks if and only if it gives an error that says so.
pub proof fn blocking_is_an_error_of_its_kind<R, E>(value: R, error: E)
    ensures
        !would_block::<R, E>(Ok(value)),
        would_block::<R, E>(Err(IoError { kind: ErrorKind::WouldBlock, error })),
        !would_block::<R, E>(Err(IoError { kind: ErrorKind::Other, error })),
{
}

/// What is in order stays in order: registering, deregistering and waiting keep every handle's
/// token and let nobody wait twice.
pub proof fn reactor_stays_in_order(v: ReactorView, token: usize, waker: u64)
    requires
        v.wf(),
    ensures
        v.entries.contains_key(v.notify_token),
        forall|t: usize| #[trigger]
            v.entries.contains_key(t) ==> v.entries[t].token == t && (forall|i: int, j: int|
                0 <= i < j < v.entries[t].readers.len() ==> v.entries[t].readers[i]
                    != v.entries[t].readers[j]) && (forall|i: int, j: int|
                0 <= i < j < v.entries[t].writers.len() ==> v.entries[t].writers[i]
                    != v.entries[t].writers[j]),
        !v.entries.contains_key(token) ==> v.registered(token).wf(),
        token != v.notify_token ==> v.deregistered(token).wf(),
{
}

} // verus!

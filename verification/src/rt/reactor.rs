//! The reactor: which I/O handles are registered, which tasks wait for them, and which of those
//! tasks an event wakes up.

use slab::Slab;
use vstd::prelude::*;

verus! {

/// Data associated with a registered I/O handle.
pub struct Entry {
    /// A unique identifier.
    token: usize,
    /// Tasks that are blocked on reading from this I/O handle.
    readers: Vec<u64>,
    /// Tasks that are blocked on writing to this I/O handle.
    writers: Vec<u64>,
}

/// The tasks that wait for an I/O handle.
#[verifier::ext_equal]
pub struct EntryView {
    pub token: usize,
    pub readers: Seq<u64>,
    pub writers: Seq<u64>,
}

impl EntryView {
    /// The entry of a handle that no task waits for.
    pub open spec fn fresh(token: usize) -> EntryView {
        EntryView { token, readers: Seq::empty(), writers: Seq::empty() }
    }
}

impl View for Entry {
    type V = EntryView;

    closed spec fn view(&self) -> EntryView {
        EntryView { token: self.token, readers: self.readers@, writers: self.writers@ }
    }
}

/// The collection type of `slab`.
#[verifier::external_type_specification]
#[verifier::external_body]
#[verifier::reject_recursive_types(T)]
pub struct ExSlab<T>(Slab<T>);

/// The entries in a slab, by their keys.
pub uninterp spec fn slab_entries(s: Slab<Entry>) -> Map<usize, Entry>;

/// The key that the next insertion into a slab will use.
pub uninterp spec fn slab_vacant_key(s: Slab<Entry>) -> usize;

/// Calls `Slab::new`: the new slab has no entries, and its first key will be zero.
#[verifier::external_body]
fn slab_new() -> (s: Slab<Entry>)
    ensures
        (slab_entries(s) == Map::<usize, Entry>::empty()),
        slab_vacant_key(s) == 0,
{
    Slab::new()
}

/// Calls `Slab::vacant_key`: the key that the next insertion will use, which no entry has.
#[verifier::external_body]
fn slab_next_key(s: &Slab<Entry>) -> (key: usize)
    ensures
        key == slab_vacant_key(*s),
        !slab_entries(*s).contains_key(key),
{
    s.vacant_key()
}

/// Calls `Slab::insert`: the entry is stored under the vacant key, which is returned, and the other
/// entries stay.
#[verifier::external_body]
fn slab_insert(s: &mut Slab<Entry>, entry: Entry) -> (key: usize)
    ensures
        key == slab_vacant_key(*old(s)),
        slab_entries(*final(s)) == slab_entries(*old(s)).insert(key, entry),
{
    s.insert(entry)
}

/// Calls `Slab::remove`, which panics on a key without an entry: the entry under the key is removed
/// and returned, and the other entries stay.
#[verifier::external_body]
fn slab_remove(s: &mut Slab<Entry>, key: usize) -> (entry: Entry)
    requires
        slab_entries(*old(s)).contains_key(key),
    ensures
        entry == slab_entries(*old(s))[key],
        slab_entries(*final(s)) == slab_entries(*old(s)).remove(key),
{
    s.remove(key)
}

/// Calls `Slab::get_mut`: a borrow of the entry under the key, if there is one; what is written
/// through it replaces that entry, and the other entries stay.
#[verifier::external_body]
fn slab_get_mut(s: &mut Slab<Entry>, key: usize) -> (entry: Option<&mut Entry>)
    ensures
        match entry {
            Some(e) => slab_entries(*old(s)).contains_key(key) && *e == slab_entries(*old(s))[key]
                && slab_entries(*final(s)) == slab_entries(*old(s)).insert(key, *final(e)),
            None => !slab_entries(*old(s)).contains_key(key) && slab_entries(*final(s))
                == slab_entries(*old(s)),
        },
{
    s.get_mut(key)
}

/// Calls `mio::Ready::all`, as a bit set: it holds the bits of `mio::Ready::readable` and
/// `mio::Ready::writable`. Which other bits it holds depends on the platform.
#[verifier::external_body]
fn ready_all() -> (bits: usize)
    ensures
        bits & READABLE == READABLE,
        bits & WRITABLE == WRITABLE,
{
    mio::Ready::all().as_usize()
}

/// Calls `mio::Ready::readable`, as a bit set.
#[verifier::external_body]
fn ready_readable() -> (bits: usize)
    ensures
        bits == READABLE,
{
    mio::Ready::readable().as_usize()
}

/// Calls `mio::Ready::writable`, as a bit set.
#[verifier::external_body]
fn ready_writable() -> (bits: usize)
    ensures
        bits == WRITABLE,
{
    mio::Ready::writable().as_usize()
}

/// The readiness bit of a handle that can be read from.
pub const READABLE: usize = 1;

/// The readiness bit of a handle that can be written to.
pub const WRITABLE: usize = 2;

/// An event that the poller reports.
#[derive(Clone, Copy, Debug, PartialEq, Eq, Structural)]
pub struct Event {
    /// The identifier of the I/O handle.
    pub token: usize,
    /// What the handle is ready for, as a bit set.
    pub readiness: usize,
}

/// What came of handling a batch of events.
pub struct Polled {
    /// The tasks to wake up, in this order.
    pub wakers: Vec<u64>,
    /// How many events of the batch are done.
    pub done: usize,
    /// The last of them was a notification, whose state has to be reset before any other event is
    /// handled.
    pub reset: bool,
}

/// The state of a networking driver.
pub struct Reactor {
    /// A collection of registered I/O handles.
    entries: Slab<Entry>,
    /// An identifier for the notification handle.
    notify_token: usize,
    /// The readiness that wakes up readers.
    reader_interests: usize,
    /// The readiness that wakes up writers.
    writer_interests: usize,
}

/// The state of a reactor.
#[verifier::ext_equal]
pub struct ReactorView {
    pub entries: Map<usize, EntryView>,
    pub notify_token: usize,
    pub reader_interests: usize,
    pub writer_interests: usize,
}

impl ReactorView {
    /// The notification handle is registered, entries bear their own identifiers, no task waits
    /// twice, and everything but writability interests readers, everything but readability writers.
    pub open spec fn wf(self) -> bool {
        &&& self.entries.contains_key(self.notify_token)
        &&& forall|t: usize| #[trigger]
            self.entries.contains_key(t) ==> {
                &&& self.entries[t].token == t
                &&& self.entries[t].readers.no_duplicates()
                &&& self.entries[t].writers.no_duplicates()
            }
        &&& self.reader_interests & READABLE == READABLE
        &&& self.reader_interests & WRITABLE == 0
        &&& self.writer_interests & WRITABLE == WRITABLE
        &&& self.writer_interests & READABLE == 0
        &&& self.reader_interests | WRITABLE == self.writer_interests | READABLE
    }

    /// Only the notification handle is registered, and no task waits for anything.
    pub open spec fn is_new(self) -> bool {
        &&& self.wf()
        &&& self.notify_token == 0
        &&& self.entries == map![0usize => EntryView::fresh(0)]
    }

    /// Of some readiness bits, everything but writability interests readers, and everything but
    /// readability interests writers.
    pub open spec fn interested_in(self, all: usize) -> bool {
        &&& self.reader_interests == all & !WRITABLE
        &&& self.writer_interests == all & !READABLE
    }

    /// A handle that can be deregistered.
    pub open spec fn watches(self, token: usize) -> bool {
        self.entries.contains_key(token) && token != self.notify_token
    }

    /// A handle registered.
    pub open spec fn registered(self, token: usize) -> ReactorView {
        ReactorView { entries: self.entries.insert(token, EntryView::fresh(token)), ..self }
    }

    /// A handle deregistered.
    pub open spec fn deregistered(self, token: usize) -> ReactorView {
        ReactorView { entries: self.entries.remove(token), ..self }
    }

    /// A task that waits to read, at most once.
    pub open spec fn with_reader(self, token: usize, waker: u64) -> ReactorView {
        let e = self.entries[token];
        let readers = if e.readers.contains(waker) {
            e.readers
        } else {
            e.readers.push(waker)
        };
        ReactorView { entries: self.entries.insert(token, EntryView { readers, ..e }), ..self }
    }

    /// A task that waits to write, at most once.
    pub open spec fn with_writer(self, token: usize, waker: u64) -> ReactorView {
        let e = self.entries[token];
        let writers = if e.writers.contains(waker) {
            e.writers
        } else {
            e.writers.push(waker)
        };
        ReactorView { entries: self.entries.insert(token, EntryView { writers, ..e }), ..self }
    }

    /// An event that concerns the tasks which wait for an entry.
    pub open spec fn concerns_entry(self, e: Event) -> bool {
        e.token != self.notify_token && self.entries.contains_key(e.token)
    }

    /// An event that wakes up the readers of its entry.
    pub open spec fn wakes_readers(self, e: Event) -> bool {
        self.concerns_entry(e) && e.readiness & self.reader_interests != 0
    }

    /// An event that wakes up the writers of its entry.
    pub open spec fn wakes_writers(self, e: Event) -> bool {
        self.concerns_entry(e) && e.readiness & self.writer_interests != 0
    }

    /// The tasks that an event wakes up: readers, then writers.
    pub open spec fn woken(self, e: Event) -> Seq<u64> {
        let readers = if self.wakes_readers(e) {
            self.entries[e.token].readers
        } else {
            Seq::empty()
        };
        let writers = if self.wakes_writers(e) {
            self.entries[e.token].writers
        } else {
            Seq::empty()
        };
        readers + writers
    }

    /// The state after an event: the tasks that it woke up wait no longer.
    pub open spec fn after(self, e: Event) -> ReactorView {
        if self.concerns_entry(e) {
            let entry = self.entries[e.token];
            let left = EntryView {
                token: entry.token,
                readers: if self.wakes_readers(e) {
                    Seq::empty()
                } else {
                    entry.readers
                },
                writers: if self.wakes_writers(e) {
                    Seq::empty()
                } else {
                    entry.writers
                },
            };
            ReactorView { entries: self.entries.insert(e.token, left), ..self }
        } else {
            self
        }
    }

    /// The state after some events, one after the other.
    pub open spec fn after_all(self, events: Seq<Event>) -> ReactorView
        decreases events.len(),
    {
        if events.len() == 0 {
            self
        } else {
            self.after_all(events.drop_last()).after(events.last())
        }
    }

    /// The tasks that some events wake up, one after the other.
    pub open spec fn woken_by_all(self, events: Seq<Event>) -> Seq<u64>
        decreases events.len(),
    {
        if events.len() == 0 {
            Seq::empty()
        } else {
            self.woken_by_all(events.drop_last()) + self.after_all(events.drop_last()).woken(
                events.last(),
            )
        }
    }
}

impl View for Reactor {
    type V = ReactorView;

    closed spec fn view(&self) -> ReactorView {
        ReactorView {
            entries: slab_entries(self.entries).map_values(|e: Entry| e@),
            notify_token: self.notify_token,
            reader_interests: self.reader_interests,
            writer_interests: self.writer_interests,
        }
    }
}

/// Adds a task to a list unless it is there already.
fn register_waker(list: &mut Vec<u64>, waker: u64)
    ensures
        final(list)@ == if old(list)@.contains(waker) {
            old(list)@
        } else {
            old(list)@.push(waker)
        },
{
    let mut i: usize = 0;
    while i < list.len()
        invariant
            list@ == old(list)@,
            i <= list.len(),
            forall|j: int| 0 <= j < i ==> list@[j] != waker,
        decreases list.len() - i,
    {
        if list[i] == waker {
            return;
        }
        i = i + 1;
    }
    list.push(waker);
}

impl Reactor {
    /// The token that the next registration will give.
    pub closed spec fn next_token(&self) -> usize {
        slab_vacant_key(self.entries)
    }

    /// Creates a new reactor, with the notification handle registered. Its tasks are interested in
    /// all readiness that the platform reports; which bits that is, beyond those for readability
    /// and writability, depends on the platform.
    pub fn new() -> (r: Reactor)
        ensures
            r@.is_new(),
            exists|all: usize| #[trigger] r@.interested_in(all),
    {
        Reactor::with_readiness(ready_all())
    }

    /// Creates a new reactor, with the notification handle registered, for a platform that reports
    /// some readiness bits.
    pub fn with_readiness(all: usize) -> (r: Reactor)
        requires
            all & READABLE == READABLE,
            all & WRITABLE == WRITABLE,
        ensures
            r@.is_new(),
            r@.interested_in(all),
    {
        let readable: usize = ready_readable();
        let writable: usize = ready_writable();
        let reader_interests: usize = all & !writable;
        let writer_interests: usize = all & !readable;
        proof {
            assert((all & !2usize) & 1usize == 1usize && (all & !2usize) & 2usize == 0usize && (all
                & !1usize) & 2usize == 2usize && (all & !1usize) & 1usize == 0usize && (all
                & !2usize) | 2usize == (all & !1usize) | 1usize) by (bit_vector)
                requires
                    all & 1usize == 1usize,
                    all & 2usize == 2usize,
            ;
        }
        let mut reactor = Reactor {
            entries: slab_new(),
            notify_token: 0,
            reader_interests,
            writer_interests,
        };
        assert(reactor@.entries =~= Map::empty());
        let token = reactor.register();
        reactor.notify_token = token;
        assert(reactor@.entries =~= map![0usize => EntryView::fresh(0)]);
        reactor
    }

    /// The identifier of the notification handle.
    pub fn notify_token(&self) -> (token: usize)
        ensures
            token == self@.notify_token,
    {
        self.notify_token
    }

    /// Registers an I/O event source and returns the identifier of its entry.
    pub fn register(&mut self) -> (token: usize)
        ensures
            token == old(self).next_token(),
            !old(self)@.entries.contains_key(token),
            final(self)@ == old(self)@.registered(token),
            old(self)@.wf() ==> final(self)@.wf() && final(self)@.watches(token),
    {
        let token: usize = slab_next_key(&self.entries);
        let entry = Entry { token, readers: Vec::new(), writers: Vec::new() };
        let key: usize = slab_insert(&mut self.entries, entry);
        assert(self@.entries =~= old(self)@.registered(token).entries);
        key
    }

    /// Deregisters an I/O event source.
    pub fn deregister(&mut self, token: usize)
        requires
            old(self)@.entries.contains_key(token),
        ensures
            final(self)@ == old(self)@.deregistered(token),
            old(self)@.wf() && old(self)@.watches(token) ==> final(self)@.wf(),
    {
        let _ = slab_remove(&mut self.entries, token);
        assert(self@.entries =~= old(self)@.deregistered(token).entries);
    }

    /// Lets a task wait to read from an I/O handle.
    pub fn add_reader(&mut self, token: usize, waker: u64)
        requires
            old(self)@.entries.contains_key(token),
        ensures
            final(self)@ == old(self)@.with_reader(token, waker),
            old(self)@.wf() ==> final(self)@.wf(),
    {
        if let Some(entry) = slab_get_mut(&mut self.entries, token) {
            register_waker(&mut entry.readers, waker);
        }
        assert(self@.entries =~= old(self)@.with_reader(token, waker).entries);
        proof {
            waiting_keeps_wf(old(self)@, token, waker);
        }
    }

    /// Lets a task wait to write to an I/O handle.
    pub fn add_writer(&mut self, token: usize, waker: u64)
        requires
            old(self)@.entries.contains_key(token),
        ensures
            final(self)@ == old(self)@.with_writer(token, waker),
            old(self)@.wf() ==> final(self)@.wf(),
    {
        if let Some(entry) = slab_get_mut(&mut self.entries, token) {
            register_waker(&mut entry.writers, waker);
        }
        assert(self@.entries =~= old(self)@.with_writer(token, waker).entries);
        proof {
            waiting_keeps_wf(old(self)@, token, waker);
        }
    }

    /// Handles an event of an I/O handle: takes the tasks that it wakes up out of their lists and
    /// adds them to `wakers`.
    fn wake(&mut self, event: Event, wakers: &mut Vec<u64>)
        requires
            event.token != old(self)@.notify_token,
        ensures
            final(self)@ == old(self)@.after(event),
            final(wakers)@ == old(wakers)@ + old(self)@.woken(event),
    {
        let read: bool = event.readiness & self.reader_interests != 0;
        let write: bool = event.readiness & self.writer_interests != 0;
        if let Some(entry) = slab_get_mut(&mut self.entries, event.token) {
            if read {
                wakers.append(&mut entry.readers);
            }
            if write {
                wakers.append(&mut entry.writers);
            }
        }
        assert(self@.entries =~= old(self)@.after(event).entries);
        assert(wakers@ =~= old(wakers)@ + old(self)@.woken(event));
    }

    /// Handles new events, from position `from` on, and collects the tasks that they wake up.
    ///
    /// A notification stops it, because its state has to be reset, which may fail, before the
    /// events after it are handled.
    pub fn poll(&mut self, events: &Vec<Event>, from: usize) -> (r: Polled)
        requires
            from <= events.len(),
        ensures
            old(self)@.wf() ==> final(self)@.wf(),
            from <= r.done <= events.len(),
            r.reset ==> r.done > from && events[r.done - 1].token == old(self)@.notify_token,
            !r.reset ==> r.done == events.len(),
            ({
                let end = if r.reset {
                    r.done - 1
                } else {
                    r.done as int
                };
                let handled = events@.subrange(from as int, end);
                &&& forall|i: int|
                    from <= i < end ==> (#[trigger] events[i]).token != old(self)@.notify_token
                &&& final(self)@ == old(self)@.after_all(handled)
                &&& r.wakers@ == old(self)@.woken_by_all(handled)
            }),
    {
        let mut wakers: Vec<u64> = Vec::new();
        let mut i: usize = from;
        let ghost v = self@;
        assert(events@.subrange(from as int, from as int) =~= Seq::empty());
        while i < events.len()
            invariant
                v == old(self)@,
                from <= i <= events.len(),
                forall|j: int| from <= j < i ==> (#[trigger] events[j]).token != v.notify_token,
                self@.notify_token == v.notify_token,
                self@ == v.after_all(events@.subrange(from as int, i as int)),
                wakers@ == v.woken_by_all(events@.subrange(from as int, i as int)),
                v.wf() ==> self@.wf(),
            decreases events.len() - i,
        {
            let event = events[i];
            if event.token == self.notify_token {
                return Polled { wakers, done: i + 1, reset: true };
            }
            proof {
                if self@.wf() {
                    events_keep_wf(self@, event);
                }
            }
            self.wake(event, &mut wakers);
            proof {
                let done = events@.subrange(from as int, i + 1);
                assert(done.drop_last() =~= events@.subrange(from as int, i as int));
                assert(done.last() == event);
            }
            i = i + 1;
        }
        Polled { wakers, done: i, reset: false }
    }
}

/// The kind of an I/O error.
#[derive(Clone, Copy, Debug, PartialEq, Eq, Structural)]
pub enum ErrorKind {
    /// The operation would have to block.
    WouldBlock,
    /// Any other error.
    Other,
}

/// An I/O error.
pub struct IoError<E> {
    /// The kind of the error.
    pub kind: ErrorKind,
    /// The error itself.
    pub error: E,
}

/// What a non-blocking operation gives.
pub enum Poll<T> {
    /// The operation is done.
    Ready(T),
    /// The operation has to wait.
    Pending,
}

/// An operation would have to block.
pub open spec fn would_block<R, E>(res: Result<R, IoError<E>>) -> bool {
    res matches Err(err) && err.kind is WouldBlock
}

/// An I/O handle powered by the networking driver.
pub struct Watcher<T> {
    /// The identifier of the I/O handle.
    token: usize,
    /// The I/O event source.
    source: Option<T>,
}

impl<T> Watcher<T> {
    pub closed spec fn token(&self) -> usize {
        self.token
    }

    pub closed spec fn source(&self) -> Option<T> {
        self.source
    }

    /// Creates a new I/O handle.
    ///
    /// The provided I/O event source will be kept registered inside the reactor for the lifetime of
    /// the returned I/O handle.
    pub fn new(source: T, reactor: &mut Reactor) -> (w: Watcher<T>)
        ensures
            w.source() == Some(source),
            w.token() == old(reactor).next_token(),
            !old(reactor)@.entries.contains_key(w.token()),
            final(reactor)@ == old(reactor)@.registered(w.token()),
            old(reactor)@.wf() ==> final(reactor)@.wf() && final(reactor)@.watches(w.token()),
    {
        let token: usize = reactor.register();
        Watcher { token, source: Some(source) }
    }

    /// The identifier of the I/O handle.
    pub fn key(&self) -> (token: usize)
        ensures
            token == self.token(),
    {
        self.token
    }

    /// Returns a reference to the inner I/O event source.
    pub fn get_ref(&self) -> (source: &T)
        requires
            self.source() is Some,
        ensures
            *source == self.source()->0,
    {
        self.source.as_ref().unwrap()
    }

    /// Polls the inner I/O source for a non-blocking read operation.
    ///
    /// If the operation returns an error of the `WouldBlock` kind, twice, the current task will be
    /// registered for wakeup when the I/O source becomes readable.
    pub fn poll_read_with<'a, F, R, E>(
        &'a self,
        reactor: &mut Reactor,
        waker: u64,
        mut f: F,
    ) -> (r: Poll<Result<R, IoError<E>>>) where F: FnMut(&'a T) -> Result<R, IoError<E>>
        requires
            self.source() is Some,
            old(reactor)@.entries.contains_key(self.token()),
            forall|s: &'a T| #[trigger] f.requires((s,)),
        ensures
            old(reactor)@.wf() ==> final(reactor)@.wf(),
            match r {
                Poll::Ready(res) => !would_block(res) && f.ensures((&self.source()->0,), res)
                    && final(reactor)@ == old(reactor)@,
                Poll::Pending => final(reactor)@ == old(reactor)@.with_reader(self.token(), waker)
                    && exists|res: Result<R, IoError<E>>| #[trigger]
                    would_block(res) && f.ensures((&self.source()->0,), res),
            },
    {
        // If the operation isn't blocked, return its result.
        if let Some(ready) = first_attempt(f(self.source.as_ref().unwrap())) {
            return ready;
        }
        // Try running the operation again.
        let second = f(self.source.as_ref().unwrap());
        self.finish_read(reactor, waker, second)
    }

    /// Ends a read operation that was blocked at its first attempt, by what the second one gave: if
    /// it was blocked again, the task is registered, unless it is registered already.
    pub fn finish_read<R, E>(
        &self,
        reactor: &mut Reactor,
        waker: u64,
        second: Result<R, IoError<E>>,
    ) -> (r: Poll<Result<R, IoError<E>>>)
        requires
            old(reactor)@.entries.contains_key(self.token()),
        ensures
            old(reactor)@.wf() ==> final(reactor)@.wf(),
            would_block(second) ==> r is Pending && final(reactor)@ == old(reactor)@.with_reader(
                self.token(),
                waker,
            ),
            !would_block(second) ==> r == Poll::Ready(second) && final(reactor)@ == old(reactor)@,
    {
        if !is_blocked(&second) {
            return Poll::Ready(second);
        }
        reactor.add_reader(self.token, waker);
        Poll::Pending
    }

    /// Polls the inner I/O source for a non-blocking write operation.
    ///
    /// If the operation returns an error of the `WouldBlock` kind, twice, the current task will be
    /// registered for wakeup when the I/O source becomes writable.
    pub fn poll_write_with<'a, F, R, E>(
        &'a self,
        reactor: &mut Reactor,
        waker: u64,
        mut f: F,
    ) -> (r: Poll<Result<R, IoError<E>>>) where F: FnMut(&'a T) -> Result<R, IoError<E>>
        requires
            self.source() is Some,
            old(reactor)@.entries.contains_key(self.token()),
            forall|s: &'a T| #[trigger] f.requires((s,)),
        ensures
            old(reactor)@.wf() ==> final(reactor)@.wf(),
            match r {
                Poll::Ready(res) => !would_block(res) && f.ensures((&self.source()->0,), res)
                    && final(reactor)@ == old(reactor)@,
                Poll::Pending => final(reactor)@ == old(reactor)@.with_writer(self.token(), waker)
                    && exists|res: Result<R, IoError<E>>| #[trigger]
                    would_block(res) && f.ensures((&self.source()->0,), res),
            },
    {
        // If the operation isn't blocked, return its result.
        if let Some(ready) = first_attempt(f(self.source.as_ref().unwrap())) {
            return ready;
        }
        // Try running the operation again.
        let second = f(self.source.as_ref().unwrap());
        self.finish_write(reactor, waker, second)
    }

    /// Ends a write operation that was blocked at its first attempt, by what the second one gave:
    /// if it was blocked again, the task is registered, unless it is registered already.
    pub fn finish_write<R, E>(
        &self,
        reactor: &mut Reactor,
        waker: u64,
        second: Result<R, IoError<E>>,
    ) -> (r: Poll<Result<R, IoError<E>>>)
        requires
            old(reactor)@.entries.contains_key(self.token()),
        ensures
            old(reactor)@.wf() ==> final(reactor)@.wf(),
            would_block(second) ==> r is Pending && final(reactor)@ == old(reactor)@.with_writer(
                self.token(),
                waker,
            ),
            !would_block(second) ==> r == Poll::Ready(second) && final(reactor)@ == old(reactor)@,
    {
        if !is_blocked(&second) {
            return Poll::Ready(second);
        }
        reactor.add_writer(self.token, waker);
        Poll::Pending
    }

    /// Deregisters the inner I/O source, if it is still there, and returns it.
    pub fn close(&mut self, reactor: &mut Reactor) -> (source: Option<T>)
        requires
            old(self).source() is Some ==> old(reactor)@.entries.contains_key(old(self).token()),
        ensures
            source == old(self).source(),
            final(self).source() is None,
            final(self).token() == old(self).token(),
            final(reactor)@ == if source is Some {
                old(reactor)@.deregistered(old(self).token())
            } else {
                old(reactor)@
            },
            old(reactor)@.wf() && (source is Some ==> old(reactor)@.watches(old(self).token()))
                ==> final(reactor)@.wf(),
    {
        let source = self.source.take();
        if source.is_some() {
            reactor.deregister(self.token);
        }
        source
    }

    /// Deregisters and returns the inner I/O source.
    pub fn into_inner(self, reactor: &mut Reactor) -> (source: T)
        requires
            self.source() is Some,
            old(reactor)@.entries.contains_key(self.token()),
        ensures
            Some(source) == self.source(),
            final(reactor)@ == old(reactor)@.deregistered(self.token()),
            old(reactor)@.wf() && old(reactor)@.watches(self.token()) ==> final(reactor)@.wf(),
    {
        let mut watcher = self;
        watcher.close(reactor).unwrap()
    }
}

/// Decides what comes of the first attempt of an operation: its result, unless it was blocked, in
/// which case the operation has to be tried again.
pub fn first_attempt<R, E>(first: Result<R, IoError<E>>) -> (r: Option<
    Poll<Result<R, IoError<E>>>,
>)
    ensures
        would_block(first) ==> r is None,
        !would_block(first) ==> r == Some(Poll::Ready(first)),
{
    if is_blocked(&first) {
        None
    } else {
        Some(Poll::Ready(first))
    }
}

/// Says whether an operation would have to block.
fn is_blocked<R, E>(res: &Result<R, IoError<E>>) -> (b: bool)
    ensures
        b == would_block(*res),
{
    match res {
        Err(err) => match err.kind {
            ErrorKind::WouldBlock => true,
            ErrorKind::Other => false,
        },
        Ok(_) => false,
    }
}

/// Letting a task wait keeps the reactor in order.
proof fn waiting_keeps_wf(v: ReactorView, token: usize, waker: u64)
    requires
        v.entries.contains_key(token),
    ensures
        v.wf() ==> v.with_reader(token, waker).wf(),
        v.wf() ==> v.with_writer(token, waker).wf(),
{
    let e = v.entries[token];
    if v.wf() {
        assert(e.readers.push(waker).no_duplicates() || e.readers.contains(waker)) by {
            if !e.readers.contains(waker) {
                assert forall|i: int, j: int|
                    0 <= i < e.readers.len() + 1 && 0 <= j < e.readers.len() + 1 && i
                        != j implies e.readers.push(waker)[i] != e.readers.push(waker)[j] by {
                    assert(forall|k: int| 0 <= k < e.readers.len() ==> e.readers[k] != waker);
                }
            }
        }
        assert(e.writers.push(waker).no_duplicates() || e.writers.contains(waker)) by {
            if !e.writers.contains(waker) {
                assert forall|i: int, j: int|
                    0 <= i < e.writers.len() + 1 && 0 <= j < e.writers.len() + 1 && i
                        != j implies e.writers.push(waker)[i] != e.writers.push(waker)[j] by {
                    assert(forall|k: int| 0 <= k < e.writers.len() ==> e.writers[k] != waker);
                }
            }
        }
    }
}

/// Handling an event keeps the reactor in order.
pub proof fn events_keep_wf(v: ReactorView, e: Event)
    requires
        v.wf(),
    ensures
        v.after(e).wf(),
{
}

/// Deregistering a handle undoes its registration.
pub proof fn deregistering_undoes_registering(v: ReactorView, token: usize)
    requires
        !v.entries.contains_key(token),
    ensures
        v.registered(token).deregistered(token) == v,
{
    assert(v.registered(token).deregistered(token).entries =~= v.entries);
}

/// A task that waits to read is woken up by the next event that says its handle is readable, and
/// no longer waits to read after it.
pub proof fn readable_event_wakes_readers(v: ReactorView, token: usize, waker: u64, e: Event)
    requires
        v.wf(),
        v.watches(token),
        e.token == token,
        e.readiness & READABLE != 0,
    ensures
        v.with_reader(token, waker).woken(e).contains(waker),
        v.with_reader(token, waker).after(e).entries[token].readers.len() == 0,
{
    let w = v.with_reader(token, waker);
    let readers = w.entries[token].readers;
    let bits = e.readiness;
    let interests = v.reader_interests;
    assert(bits & interests != 0) by (bit_vector)
        requires
            interests & 1usize == 1usize,
            bits & 1usize != 0,
    ;
    if !v.entries[token].readers.contains(waker) {
        assert(readers[readers.len() - 1] == waker);
    }
    let i = choose|i: int| 0 <= i < readers.len() && readers[i] == waker;
    assert(w.woken(e)[i] == waker);
}

/// A task that waits to write is woken up by the next event that says its handle is writable, and
/// no longer waits to write after it.
pub proof fn writable_event_wakes_writers(v: ReactorView, token: usize, waker: u64, e: Event)
    requires
        v.wf(),
        v.watches(token),
        e.token == token,
        e.readiness & WRITABLE != 0,
    ensures
        v.with_writer(token, waker).woken(e).contains(waker),
        v.with_writer(token, waker).after(e).entries[token].writers.len() == 0,
{
    let w = v.with_writer(token, waker);
    let writers = w.entries[token].writers;
    let bits = e.readiness;
    let interests = v.writer_interests;
    assert(bits & interests != 0) by (bit_vector)
        requires
            interests & 2usize == 2usize,
            bits & 2usize != 0,
    ;
    if !v.entries[token].writers.contains(waker) {
        assert(writers[writers.len() - 1] == waker);
    }
    let i = choose|i: int| 0 <= i < writers.len() && writers[i] == waker;
    let skipped = if w.wakes_readers(e) {
        w.entries[token].readers.len() as int
    } else {
        0
    };
    assert(w.woken(e)[skipped + i] == waker);
}

/// An event that says no more than that a handle is writable leaves its readers waiting, and one
/// that says no more than that it is readable leaves its writers waiting.
pub proof fn events_wake_only_the_interested(v: ReactorView, e: Event)
    requires
        v.wf(),
    ensures
        e.readiness == WRITABLE ==> !v.wakes_readers(e),
        e.readiness == READABLE ==> !v.wakes_writers(e),
{
    let r = v.reader_interests;
    let w = v.writer_interests;
    assert(2usize & r == r & 2usize) by (bit_vector);
    assert(1usize & w == w & 1usize) by (bit_vector);
}

/// Any other readiness, such as an error, that interests readers interests writers too, and the
/// other way round.
pub proof fn other_readiness_wakes_both(v: ReactorView, e: Event)
    requires
        v.wf(),
        e.readiness & READABLE == 0,
        e.readiness & WRITABLE == 0,
    ensures
        v.wakes_readers(e) == v.wakes_writers(e),
{
    let bits = e.readiness;
    let r = v.reader_interests;
    let w = v.writer_interests;
    assert((bits & r != 0) == (bits & w != 0)) by (bit_vector)
        requires
            bits & 1usize == 0,
            bits & 2usize == 0,
            r | 2usize == w | 1usize,
    ;
}

/// Any readiness that the platform reports, except writability, wakes up readers, and any except
/// readability wakes up writers. An error or a hang-up therefore wakes up both.
pub proof fn reported_readiness_wakes(v: ReactorView, all: usize, e: Event)
    requires
        v.interested_in(all),
        v.concerns_entry(e),
    ensures
        v.wakes_readers(e) <==> e.readiness & (all & !WRITABLE) != 0,
        v.wakes_writers(e) <==> e.readiness & (all & !READABLE) != 0,
        e.readiness & all & !(READABLE | WRITABLE) != 0 ==> v.wakes_readers(e) && v.wakes_writers(
            e,
        ),
{
    let bits = e.readiness;
    assert(bits & all & !(1usize | 2usize) != 0 ==> bits & (all & !2usize) != 0 && bits & (all
        & !1usize) != 0) by (bit_vector);
}

/// Some of the events is one of a handle with a readiness among some bits.
pub open spec fn reported(events: Seq<Event>, token: usize, bits: usize) -> bool {
    exists|i: int|
        0 <= i < events.len() && (#[trigger] events[i]).token == token && events[i].readiness & bits
            != 0
}

/// How often a waker occurs among the readers of a handle, if they are woken up, and among its
/// writers, if they are.
pub open spec fn owed(
    entry: EntryView,
    readers: bool,
    writers: bool,
    waker: u64,
) -> nat {
    let r: nat = if readers && entry.readers.contains(waker) {
        1
    } else {
        0
    };
    let w: nat = if writers && entry.writers.contains(waker) {
        1
    } else {
        0
    };
    r + w
}

/// The readers of a handle stop waiting if some event reports a readiness that interests readers,
/// and otherwise all of them go on waiting; and so for the writers. No event adds or removes a
/// handle.
pub proof fn batch_ends_waiting(v: ReactorView, events: Seq<Event>, token: usize)
    requires
        v.wf(),
        v.watches(token),
    ensures
        v.after_all(events).wf(),
        v.after_all(events).notify_token == v.notify_token,
        v.after_all(events).reader_interests == v.reader_interests,
        v.after_all(events).writer_interests == v.writer_interests,
        v.after_all(events).entries.dom() == v.entries.dom(),
        v.after_all(events).entries[token] == (EntryView {
            token,
            readers: if reported(events, token, v.reader_interests) {
                Seq::empty()
            } else {
                v.entries[token].readers
            },
            writers: if reported(events, token, v.writer_interests) {
                Seq::empty()
            } else {
                v.entries[token].writers
            },
        }),
    decreases events.len(),
{
    if events.len() > 0 {
        let before = events.drop_last();
        let e = events.last();
        batch_ends_waiting(v, before, token);
        events_keep_wf(v.after_all(before), e);
        assert(v.after_all(events).entries.dom() =~= v.entries.dom());
        lemma_reported(events, token, v.reader_interests);
        lemma_reported(events, token, v.writer_interests);
    }
}

/// Whether some event reports a readiness, by the last event and those before it.
proof fn lemma_reported(events: Seq<Event>, token: usize, bits: usize)
    requires
        events.len() > 0,
    ensures
        reported(events, token, bits) == (reported(events.drop_last(), token, bits) || (
        events.last().token == token && events.last().readiness & bits != 0)),
{
    let before = events.drop_last();
    if reported(before, token, bits) {
        let i = choose|i: int|
            0 <= i < before.len() && (#[trigger] before[i]).token == token && before[i].readiness
                & bits != 0;
        assert(events[i] == before[i]);
    }
    if reported(events, token, bits) {
        let i = choose|i: int|
            0 <= i < events.len() && (#[trigger] events[i]).token == token && events[i].readiness
                & bits != 0;
        if i < before.len() {
            assert(before[i] == events[i]);
        }
    }
}

/// A task that waits for a handle, under a key that it has for no other handle, is woken up exactly
/// once as a reader if some event reports a readiness that interests readers, exactly once as a
/// writer if some event reports one that interests writers, and not at all otherwise.
pub proof fn batch_wakes_each_task_once(
    v: ReactorView,
    events: Seq<Event>,
    token: usize,
    waker: u64,
)
    requires
        v.wf(),
        v.watches(token),
        forall|t: usize| #[trigger]
            v.entries.contains_key(t) && t != token ==> !v.entries[t].readers.contains(waker)
                && !v.entries[t].writers.contains(waker),
    ensures
        v.woken_by_all(events).to_multiset().count(waker) == owed(
            v.entries[token],
            reported(events, token, v.reader_interests),
            reported(events, token, v.writer_interests),
            waker,
        ),
    decreases events.len(),
{
    broadcast use vstd::seq_lib::group_to_multiset_ensures;

    if events.len() > 0 {
        let before = events.drop_last();
        let e = events.last();
        let mid = v.after_all(before);
        batch_wakes_each_task_once(v, before, token, waker);
        batch_ends_waiting(v, before, token);
        if v.watches(e.token) {
            batch_ends_waiting(v, before, e.token);
        }
        lemma_reported(events, token, v.reader_interests);
        lemma_reported(events, token, v.writer_interests);
        vstd::seq_lib::lemma_multiset_commutative(v.woken_by_all(before), mid.woken(e));
        if mid.concerns_entry(e) {
            let entry = mid.entries[e.token];
            let readers = if mid.wakes_readers(e) {
                entry.readers
            } else {
                Seq::empty()
            };
            let writers = if mid.wakes_writers(e) {
                entry.writers
            } else {
                Seq::empty()
            };
            vstd::seq_lib::lemma_multiset_commutative(readers, writers);
            lemma_occurs_once(readers, waker);
            lemma_occurs_once(writers, waker);
        }
    }
}

/// A waker occurs at most once in a list without duplicates.
proof fn lemma_occurs_once(list: Seq<u64>, waker: u64)
    requires
        list.no_duplicates(),
    ensures
        list.to_multiset().count(waker) == if list.contains(waker) {
            1nat
        } else {
            0
        },
{
    broadcast use vstd::seq_lib::group_to_multiset_ensures;

    list.lemma_multiset_has_no_duplicates();
}

/// A notification, and an event of a handle that is not registered, wake up nobody and change
/// nothing.
pub proof fn foreign_events_are_ignored(v: ReactorView, e: Event)
    requires
        e.token == v.notify_token || !v.entries.contains_key(e.token),
    ensures
        v.woken(e) == Seq::<u64>::empty(),
        v.after(e) == v,
{
}

/// The tasks that wait for a handle are woken up or still wait for it: an event loses none and
/// wakes up none that did not wait.
pub proof fn no_waiting_task_is_lost(v: ReactorView, e: Event, token: usize)
    requires
        v.entries.contains_key(token),
    ensures
        v.after(e).entries.contains_key(token),
        token != e.token ==> v.after(e).entries[token] == v.entries[token],
        token == e.token ==> v.woken(e).to_multiset().add(
            v.after(e).entries[token].readers.to_multiset(),
        ).add(v.after(e).entries[token].writers.to_multiset())
            == v.entries[token].readers.to_multiset().add(v.entries[token].writers.to_multiset()),
{
    broadcast use vstd::seq_lib::group_to_multiset_ensures;

    if token == e.token {
        let readers = if v.wakes_readers(e) {
            v.entries[token].readers
        } else {
            Seq::empty()
        };
        let writers = if v.wakes_writers(e) {
            v.entries[token].writers
        } else {
            Seq::empty()
        };
        vstd::seq_lib::lemma_multiset_commutative(readers, writers);
        assert(Seq::<u64>::empty().to_multiset().len() == 0);
        assert(v.woken(e).to_multiset().add(v.after(e).entries[token].readers.to_multiset()).add(
            v.after(e).entries[token].writers.to_multiset(),
        ) =~= v.entries[token].readers.to_multiset().add(
            v.entries[token].writers.to_multiset(),
        ));
    }
}

/// The same event, once more, wakes up nobody.
pub proof fn tasks_are_woken_once(v: ReactorView, e: Event)
    ensures
        v.after(e).woken(e) == Seq::<u64>::empty(),
        v.after(e).after(e) == v.after(e),
{
    assert(v.after(e).woken(e) =~= Seq::<u64>::empty());
    assert(v.after(e).after(e).entries =~= v.after(e).entries);
}

/// A task that already waits, to read or to write, is not registered a second time.
pub proof fn waiting_twice_is_waiting_once(v: ReactorView, token: usize, waker: u64)
    requires
        v.entries.contains_key(token),
    ensures
        v.with_reader(token, waker).with_reader(token, waker) == v.with_reader(token, waker),
        v.with_writer(token, waker).with_writer(token, waker) == v.with_writer(token, waker),
{
    let r = v.with_reader(token, waker);
    let w = v.with_writer(token, waker);
    let readers = v.entries[token].readers;
    let writers = v.entries[token].writers;
    if !readers.contains(waker) {
        assert(readers.push(waker)[readers.len() as int] == waker);
    }
    if !writers.contains(waker) {
        assert(writers.push(waker)[writers.len() as int] == waker);
    }
    assert(r.with_reader(token, waker).entries =~= r.entries);
    assert(w.with_writer(token, waker).entries =~= w.entries);
}

} // verus!

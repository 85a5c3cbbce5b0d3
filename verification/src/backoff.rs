//! How long a supervisor sleeps between two rounds.

use vstd::prelude::*;

verus! {

/// The number of idle rounds in a row after which the delay begins to grow.
pub const IDLE_ROUNDS: u32 = 10;

/// The longest delay, in microseconds.
pub const MAX_DELAY: u64 = 10_000;

/// The delay of a supervisor, which grows while nothing happens.
#[derive(Clone, Copy, Debug, PartialEq, Eq, Structural)]
pub struct Backoff {
    /// The number of rounds in a row without anything to do, as far as it is counted.
    pub idle: u32,
    /// The last delay, in microseconds.
    pub delay: u64,
}

impl Backoff {
    /// A delay that can be reached.
    pub open spec fn wf(self) -> bool {
        self.idle <= IDLE_ROUNDS + 1 && self.delay <= MAX_DELAY
    }

    /// The state before the first round.
    pub open spec fn initial() -> Backoff {
        Backoff { idle: 0, delay: 0 }
    }

    /// The state after a round in which something was done.
    pub open spec fn busy(self) -> Backoff {
        Backoff { idle: 0, delay: self.delay }
    }

    /// The state after the next delay was determined: the shortest delay for the first rounds, and
    /// then twice the last one, up to the longest.
    pub open spec fn advanced(self, shortest: u64) -> Backoff {
        if self.idle > IDLE_ROUNDS {
            Backoff {
                idle: self.idle,
                delay: if self.delay * 2 <= MAX_DELAY {
                    (self.delay * 2) as u64
                } else {
                    MAX_DELAY
                },
            }
        } else {
            Backoff { idle: (self.idle + 1) as u32, delay: shortest }
        }
    }

    /// Begins without a delay.
    pub fn new() -> (b: Backoff)
        ensures
            b == Backoff::initial(),
            b.wf(),
    {
        Backoff { idle: 0, delay: 0 }
    }

    /// Forgets the idle rounds.
    pub fn reset(&mut self)
        ensures
            *final(self) == old(self).busy(),
            old(self).wf() ==> final(self).wf(),
    {
        self.idle = 0;
    }

    /// Determines the next delay, in microseconds.
    pub fn next(&mut self, shortest: u64) -> (delay: u64)
        requires
            old(self).wf(),
            shortest <= MAX_DELAY,
        ensures
            *final(self) == old(self).advanced(shortest),
            final(self).wf(),
            delay == final(self).delay,
    {
        if self.idle > IDLE_ROUNDS {
            self.delay = if self.delay * 2 <= MAX_DELAY {
                self.delay * 2
            } else {
                MAX_DELAY
            };
        } else {
            self.idle = self.idle + 1;
            self.delay = shortest;
        }
        self.delay
    }
}

/// The state after some idle rounds in a row.
pub open spec fn idled(b: Backoff, shortest: u64, rounds: nat) -> Backoff
    decreases rounds,
{
    if rounds == 0 {
        b
    } else {
        idled(b, shortest, (rounds - 1) as nat).advanced(shortest)
    }
}

/// The shortest delay, doubled some times, but at most the longest delay.
pub open spec fn doubled(shortest: u64, times: nat) -> u64
    decreases times,
{
    if times == 0 {
        shortest
    } else if doubled(shortest, (times - 1) as nat) * 2 <= MAX_DELAY {
        (doubled(shortest, (times - 1) as nat) * 2) as u64
    } else {
        MAX_DELAY
    }
}

/// After something was done, the next rounds wait for the shortest delay, and every idle round
/// after them doubles it, up to the longest.
pub proof fn delay_after_idle_rounds(b: Backoff, shortest: u64, rounds: nat)
    requires
        b.wf(),
        b.idle == 0,
        shortest <= MAX_DELAY,
        rounds > 0,
    ensures
        rounds <= IDLE_ROUNDS + 1 ==> idled(b, shortest, rounds).delay == shortest,
        rounds > IDLE_ROUNDS + 1 ==> idled(b, shortest, rounds).delay == doubled(
            shortest,
            (rounds - IDLE_ROUNDS - 1) as nat,
        ),
        rounds <= IDLE_ROUNDS + 1 ==> idled(b, shortest, rounds).idle == rounds,
        rounds > IDLE_ROUNDS + 1 ==> idled(b, shortest, rounds).idle == IDLE_ROUNDS + 1,
    decreases rounds,
{
    if rounds > 1 {
        delay_after_idle_rounds(b, shortest, (rounds - 1) as nat);
    } else {
        assert(idled(b, shortest, 0) == b);
    }
    if rounds == IDLE_ROUNDS + 2 {
        assert(doubled(shortest, 0) == shortest);
        assert(doubled(shortest, 1) == if shortest * 2 <= MAX_DELAY {
            (shortest * 2) as u64
        } else {
            MAX_DELAY
        });
    }
}

/// While nothing happens the delay never shrinks, and it stays between the shortest and the
/// longest.
pub proof fn delay_stays_within_bounds(b: Backoff, shortest: u64)
    requires
        b.wf(),
        shortest <= b.delay,
        b.idle <= IDLE_ROUNDS ==> b.delay == shortest,
    ensures
        shortest <= b.advanced(shortest).delay <= MAX_DELAY,
        b.delay <= b.advanced(shortest).delay,
        b.advanced(shortest).idle <= IDLE_ROUNDS ==> b.advanced(shortest).delay == shortest,
{
}

} // verus!

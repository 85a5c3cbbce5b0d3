//! Laws of the delay between two rounds.

use crate::backoff::Backoff;
use vstd::prelude::*;

verus! {

/// A round in which something was done is forgotten by none of the next eleven: they wait for the
/// shortest delay. Only after eleven idle rounds does an idle round double the delay, up to ten
/// milliseconds.
pub proof fn delay_doubles_after_eleven_idle_rounds(b: Backoff, shortest: u64)
    requires
        b.wf(),
        shortest <= 10_000,
    ensures
        b.idle <= 10 ==> b.advanced(shortest).delay == shortest,
        b.idle <= 10 ==> b.advanced(shortest).idle == b.idle + 1,
        b.idle > 10 ==> b.advanced(shortest).idle == b.idle,
        b.idle > 10 && b.delay <= 5_000 ==> b.advanced(shortest).delay == b.delay + b.delay,
        b.idle > 10 && b.delay >= 5_000 ==> b.advanced(shortest).delay == 10_000,
        b.busy().idle == 0,
        b.busy().delay == b.delay,
        b.busy().advanced(shortest).delay == shortest,
        b.busy().advanced(shortest).idle == 1,
        Backoff::initial().idle == 0,
        Backoff::initial().delay == 0,
{
}

} // verus!

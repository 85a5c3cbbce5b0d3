//! The number of processors to run.

use vstd::prelude::*;

verus! {

/// Calls `num_cpus::get`, the number of CPUs of the machine that this runs on. Nothing is said of
/// it, since it depends on the machine.
#[verifier::external_body]
fn num_cpus_get() -> usize {
    num_cpus::get()
}

/// The number of CPUs, but at least one.
pub fn available() -> (n: usize)
    ensures
        n >= 1,
{
    at_least_one(num_cpus_get())
}

/// A number, but at least one.
pub fn at_least_one(n: usize) -> (r: usize)
    ensures
        r == if n >= 1 {
            n
        } else {
            1
        },
{
    if n >= 1 {
        n
    } else {
        1
    }
}

} // verus!

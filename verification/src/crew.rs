//! Machine threads beside the machines of a fleet: which thread has the right to block, and what a
//! machine keeps while its thread blocks.

use crate::fleet::FleetView;
use vstd::prelude::*;

verus! {

/// A machine thread.
pub ghost struct Thread {
    /// The machine.
    pub id: u64,
    /// The thread has the right to block.
    pub claims: bool,
    /// The thread is blocking.
    pub waits: bool,
    /// The thread has ended.
    pub ended: bool,
}

impl Thread {
    /// A thread that is about to begin.
    pub open spec fn fresh(id: u64) -> Thread {
        Thread { id, claims: false, waits: false, ended: false }
    }
}

/// The machine threads and the machines of a scheduler.
#[verifier::ext_equal]
pub ghost struct Crew {
    /// The threads, in the order in which they began.
    pub threads: Seq<Thread>,
    /// The machines.
    pub fleet: FleetView,
    /// The scheduler says that a thread has the right to block.
    pub taken: bool,
}

/// Among some threads at most one has the right to block, and the scheduler says that one has it if
/// and only if one has.
pub open spec fn one_claim_at_most(threads: Seq<Thread>, taken: bool) -> bool {
    &&& forall|i: int, j: int|
        0 <= i < j < threads.len() ==> !((#[trigger] threads[i]).claims && (
        #[trigger] threads[j]).claims)
    &&& taken <==> exists|i: int| 0 <= i < threads.len() && (#[trigger] threads[i]).claims
}

impl Crew {
    /// Threads and machines agree: every machine has one thread, a machine is marked as blocking if
    /// and only if its thread is, a thread that has ended has no machine, and at most one thread
    /// has the right to block.
    pub open spec fn matches_up(self) -> bool {
        &&& one_claim_at_most(self.threads, self.taken)
        &&& forall|i: int, j: int|
            0 <= i < j < self.threads.len() ==> (#[trigger] self.threads[i]).id != (
            #[trigger] self.threads[j]).id
        &&& forall|i: int|
            0 <= i < self.threads.len() ==> {
                let t = #[trigger] self.threads[i];
                &&& t.id < self.fleet.next_id
                &&& t.waits ==> t.claims
                &&& t.ended ==> self.fleet.find(t.id) is None
                &&& self.fleet.find(t.id) matches Some(m) ==> m.polling == t.waits
            }
        &&& forall|id: u64| #[trigger]
            self.fleet.find(id) is Some ==> exists|i: int|
                0 <= i < self.threads.len() && (#[trigger] self.threads[i]).id == id
    }

    /// A thread took a step. It concerns no machine but its own, which keeps its processor unless
    /// the thread ends.
    pub open spec fn stepped(self, k: int, after: Crew) -> bool {
        let t0 = self.threads[k];
        let t1 = after.threads[k];
        &&& 0 <= k < self.threads.len()
        &&& after.threads == self.threads.update(k, t1)
        &&& t1.id == t0.id
        &&& t1.waits ==> t1.claims
        &&& t0.waits ==> !t1.waits && !t1.ended
        &&& t0.ended ==> after == self
        &&& after.fleet.next_id == self.fleet.next_id
        &&& forall|id: u64|
            id != t0.id ==> #[trigger] after.fleet.find(id) == self.fleet.find(id)
        &&& match (self.fleet.find(t0.id), after.fleet.find(t0.id)) {
            (Some(m0), Some(m1)) => {
                &&& m1.processor == m0.processor
                &&& m1.polling == if t1.waits == t0.waits {
                    m0.polling
                } else {
                    t1.waits
                }
                &&& t1.ended ==> t0.ended
            },
            (Some(m0), None) => t1.ended,
            (None, Some(m1)) => false,
            (None, None) => true,
        }
        &&& if t1.claims == t0.claims {
            after.taken == self.taken
        } else {
            after.taken == t1.claims && (t1.claims ==> !self.taken)
        }
    }

    /// Machines were checked or started, and a thread begins for every new machine.
    pub open spec fn started(self, after: Crew) -> bool {
        &&& self.fleet.overseen(after.fleet)
        &&& after.taken == self.taken
        &&& after.threads == self.threads + Seq::new(
            (after.fleet.next_id - self.fleet.next_id) as nat,
            |k: int| Thread::fresh((self.fleet.next_id + k) as u64),
        )
    }

    /// Something that may happen to threads and machines.
    pub open spec fn may_become(self, after: Crew) -> bool {
        ||| exists|k: int| #[trigger] self.stepped(k, after)
        ||| self.started(after)
        ||| after == self
    }
}

/// A step keeps threads and machines in agreement.
pub proof fn steps_keep_the_match(c0: Crew, k: int, c1: Crew)
    requires
        c0.matches_up(),
        c0.stepped(k, c1),
    ensures
        c1.matches_up(),
{
    let t0 = c0.threads[k];
    let t1 = c1.threads[k];
    assert forall|i: int| 0 <= i < c1.threads.len() implies {
        let t = #[trigger] c1.threads[i];
        &&& t.id == c0.threads[i].id
        &&& t.id < c1.fleet.next_id
        &&& t.waits ==> t.claims
        &&& t.ended ==> c1.fleet.find(t.id) is None
        &&& c1.fleet.find(t.id) matches Some(m) ==> m.polling == t.waits
    } by {
        let t = c0.threads[i];
        assert(t.id < c0.fleet.next_id);
        if i < k {
            assert(c0.threads[i].id != c0.threads[k].id);
        } else if k < i {
            assert(c0.threads[k].id != c0.threads[i].id);
        }
    }
    assert forall|id: u64| #[trigger] c1.fleet.find(id) is Some implies exists|i: int|
        0 <= i < c1.threads.len() && (#[trigger] c1.threads[i]).id == id by {
        assert(c0.fleet.find(id) is Some);
        let i = choose|i: int| 0 <= i < c0.threads.len() && (#[trigger] c0.threads[i]).id == id;
        assert(c1.threads[i].id == id);
    }
    assert forall|i: int, j: int| 0 <= i < j < c1.threads.len() implies !((
    #[trigger] c1.threads[i]).claims && (#[trigger] c1.threads[j]).claims) by {
        assert(!(c0.threads[i].claims && c0.threads[j].claims));
        if t1.claims && !t0.claims {
            assert(!c0.threads[i].claims && !c0.threads[j].claims);
        }
    }
    if t1.claims {
        assert(c1.threads[k].claims);
        assert(t0.claims ==> c0.threads[k].claims);
    } else if t0.claims {
        assert forall|i: int| 0 <= i < c1.threads.len() implies !(
        #[trigger] c1.threads[i]).claims by {
            if i < k {
                assert(!(c0.threads[i].claims && c0.threads[k].claims));
            } else if k < i {
                assert(!(c0.threads[k].claims && c0.threads[i].claims));
            }
        }
    } else if c0.taken {
        let i = choose|i: int| 0 <= i < c0.threads.len() && (#[trigger] c0.threads[i]).claims;
        assert(c1.threads[i].claims);
    } else {
        assert forall|i: int| 0 <= i < c1.threads.len() implies !(
        #[trigger] c1.threads[i]).claims by {
            assert(!c0.threads[i].claims);
        }
    }
}

/// Checking and starting machines keeps threads and machines in agreement.
pub proof fn starts_keep_the_match(c0: Crew, c1: Crew)
    requires
        c0.matches_up(),
        c0.started(c1),
    ensures
        c1.matches_up(),
{
    let n = c0.threads.len() as int;
    let next = c0.fleet.next_id;
    assert forall|i: int| 0 <= i < c1.threads.len() implies {
        let t = #[trigger] c1.threads[i];
        &&& i < n ==> t == c0.threads[i] && t.id < next
        &&& i >= n ==> t == Thread::fresh((next + (i - n)) as u64) && t.id == next + (i - n)
        &&& t.id < c1.fleet.next_id
        &&& t.waits ==> t.claims
        &&& t.ended ==> c1.fleet.find(t.id) is None
        &&& c1.fleet.find(t.id) matches Some(m) ==> m.polling == t.waits
    } by {
        let t = c1.threads[i];
        if i < n {
            assert(t == c0.threads[i]);
        }
    }
    assert forall|i: int, j: int| 0 <= i < j < c1.threads.len() implies (
    #[trigger] c1.threads[i]).id != (#[trigger] c1.threads[j]).id by {
        if j < n {
            assert(c0.threads[i].id != c0.threads[j].id);
        }
    }
    assert forall|i: int, j: int| 0 <= i < j < c1.threads.len() implies !((
    #[trigger] c1.threads[i]).claims && (#[trigger] c1.threads[j]).claims) by {
        if j < n {
            assert(!(c0.threads[i].claims && c0.threads[j].claims));
        }
    }
    if c0.taken {
        let i = choose|i: int| 0 <= i < c0.threads.len() && (#[trigger] c0.threads[i]).claims;
        assert(c1.threads[i].claims);
    } else {
        assert forall|i: int| 0 <= i < c1.threads.len() implies !(
        #[trigger] c1.threads[i]).claims by {
            if i < n {
                assert(!c0.threads[i].claims);
            }
        }
    }
    assert forall|id: u64| #[trigger] c1.fleet.find(id) is Some implies exists|i: int|
        0 <= i < c1.threads.len() && (#[trigger] c1.threads[i]).id == id by {
        if id < next {
            assert(c0.fleet.find(id) is Some);
            let i = choose|i: int|
                0 <= i < c0.threads.len() && (#[trigger] c0.threads[i]).id == id;
            assert(c1.threads[i].id == id);
        } else {
            assert(c1.threads[n + (id - next)].id == id);
        }
    }
}

/// Whatever happens, threads and machines agree, if they did at first.
pub proof fn crews_always_match(crews: Seq<Crew>, n: int)
    requires
        0 <= n < crews.len(),
        crews[0].matches_up(),
        forall|i: int| 0 <= i < crews.len() - 1 ==> (#[trigger] crews[i]).may_become(crews[i + 1]),
    ensures
        crews[n].matches_up(),
    decreases n,
{
    if n > 0 {
        crews_always_match(crews, n - 1);
        let c0 = crews[n - 1];
        let c1 = crews[n];
        assert(c0.may_become(c1));
        if exists|k: int| #[trigger] c0.stepped(k, c1) {
            let k = choose|k: int| #[trigger] c0.stepped(k, c1);
            steps_keep_the_match(c0, k, c1);
        } else if c0.started(c1) {
            starts_keep_the_match(c0, c1);
        }
    }
}

/// Threads are never forgotten.
pub proof fn threads_are_never_forgotten(crews: Seq<Crew>, a: int, b: int)
    requires
        0 <= a <= b < crews.len(),
        forall|i: int| 0 <= i < crews.len() - 1 ==> (#[trigger] crews[i]).may_become(crews[i + 1]),
    ensures
        crews[a].threads.len() <= crews[b].threads.len(),
    decreases b - a,
{
    if a < b {
        threads_are_never_forgotten(crews, a, b - 1);
        assert(crews[b - 1].may_become(crews[b]));
    }
}

/// Whatever happens while a thread blocks, its machine is not changed, and if the thread stops
/// blocking, its machine still has its processor.
pub proof fn blocking_thread_keeps_its_machine(c0: Crew, k: int, c1: Crew)
    requires
        c0.matches_up(),
        c0.may_become(c1),
        0 <= k < c0.threads.len(),
        c0.threads[k].waits,
        c0.fleet.find(c0.threads[k].id) is Some,
    ensures
        k < c1.threads.len(),
        c1.threads[k].id == c0.threads[k].id,
        c1.fleet.find(c0.threads[k].id) matches Some(m) && m.processor == c0.fleet.find(
            c0.threads[k].id,
        )->0.processor,
        c1.threads[k].waits ==> c1.fleet.find(c0.threads[k].id) == c0.fleet.find(c0.threads[k].id),
{
    let id = c0.threads[k].id;
    if exists|j: int| #[trigger] c0.stepped(j, c1) {
        let j = choose|j: int| #[trigger] c0.stepped(j, c1);
        if j < k {
            assert(c0.threads[j].id != c0.threads[k].id);
        } else if k < j {
            assert(c0.threads[k].id != c0.threads[j].id);
        }
        assert(j != k ==> c1.fleet.find(id) == c0.fleet.find(id));
    } else if c0.started(c1) {
        assert(c1.threads[k] == c0.threads[k]);
        assert(c0.threads[k].id < c0.fleet.next_id);
        assert(c1.fleet.find(id) == c0.fleet.find(id));
    }
}

/// From when a thread begins to block until it stops, its machine keeps its processor, whatever
/// other threads and the supervision do, and still has it then.
pub proof fn blocking_thread_keeps_its_processor(crews: Seq<Crew>, k: int, a: int, b: int)
    requires
        0 <= a <= b < crews.len(),
        crews[0].matches_up(),
        forall|i: int| 0 <= i < crews.len() - 1 ==> (#[trigger] crews[i]).may_become(crews[i + 1]),
        0 <= k < crews[a].threads.len(),
        forall|i: int| a <= i < b ==> (#[trigger] crews[i]).threads[k].waits,
        crews[a].fleet.find(crews[a].threads[k].id) is Some,
    ensures
        k < crews[b].threads.len(),
        crews[b].threads[k].id == crews[a].threads[k].id,
        crews[b].fleet.find(crews[a].threads[k].id) matches Some(m) && m.processor
            == crews[a].fleet.find(crews[a].threads[k].id)->0.processor,
        crews[b].threads[k].waits ==> crews[b].fleet.find(crews[a].threads[k].id)
            == crews[a].fleet.find(crews[a].threads[k].id),
    decreases b - a,
{
    if a < b {
        blocking_thread_keeps_its_processor(crews, k, a, b - 1);
        crews_always_match(crews, b - 1);
        assert(crews[b - 1].may_become(crews[b]));
        assert(crews[b - 1].threads[k].waits);
        blocking_thread_keeps_its_machine(crews[b - 1], k, crews[b]);
    }
}

} // verus!

//! Machines, the processors they hold, and the processors that are idle.

use crate::tracing::rt::{machine_blocked, machine_starting};
use vstd::multiset::Multiset;
use vstd::prelude::*;

verus! {

/// A thread that holds a processor and runs its tasks.
#[derive(Clone, Copy, Debug, PartialEq, Eq, Structural)]
pub struct Machine {
    /// A unique identifier.
    pub id: u64,
    /// The processor that the machine holds.
    pub processor: usize,
    /// Set by the machine whenever it makes progress, and cleared whenever it is checked.
    pub progress: bool,
    /// Set while the machine is blocking on the reactor.
    pub polling: bool,
    /// Set when the task that the machine runs asks to yield.
    pub yielding: bool,
}

impl Machine {
    /// A machine that is about to start.
    pub open spec fn fresh(id: u64, processor: usize) -> Machine {
        Machine { id, processor, progress: true, polling: false, yielding: false }
    }

    /// A machine that has made no progress since it was last checked, and is not blocking on the
    /// reactor either.
    pub open spec fn stuck(self) -> bool {
        !self.polling && !self.progress
    }

    /// A machine that is not stuck, after it was checked.
    pub open spec fn checked(self) -> Machine {
        Machine { progress: self.progress && self.polling, ..self }
    }

    /// Creates a new machine that holds a processor.
    pub fn new(id: u64, processor: usize) -> (m: Machine)
        ensures
            m == Machine::fresh(id, processor),
    {
        Machine { id, processor, progress: true, polling: false, yielding: false }
    }
}

/// The position of the machine with some identifier.
pub open spec fn position(machines: Seq<Machine>, id: u64) -> Option<int> {
    if exists|i: int| 0 <= i < machines.len() && (#[trigger] machines[i]).id == id {
        Some(choose|i: int| 0 <= i < machines.len() && (#[trigger] machines[i]).id == id)
    } else {
        None
    }
}

/// The processors that some machines hold.
pub open spec fn processors_of(machines: Seq<Machine>) -> Seq<usize> {
    Seq::new(machines.len(), |i: int| machines[i].processor)
}

/// Each of some number of processors, once.
pub open spec fn all_processors(cpus: nat) -> Multiset<usize> {
    Seq::new(cpus, |p: int| p as usize).to_multiset()
}

/// How many of the first `n` machines are stuck.
pub open spec fn stuck_among(machines: Seq<Machine>, n: int) -> nat
    decreases n,
{
    if n <= 0 {
        0
    } else if machines[n - 1].stuck() {
        stuck_among(machines, n - 1) + 1
    } else {
        stuck_among(machines, n - 1)
    }
}

/// The running machines and the idle processors of a scheduler.
pub struct Fleet {
    /// Idle processors.
    idle: Vec<usize>,
    /// Running machines.
    machines: Vec<Machine>,
    /// The machine that has left the others to block on the reactor.
    parked: Option<Machine>,
    /// The identifier of the machine that starts next.
    next_id: u64,
}

/// The state of a fleet.
#[verifier::ext_equal]
pub struct FleetView {
    pub idle: Seq<usize>,
    pub machines: Seq<Machine>,
    pub parked: Option<Machine>,
    pub next_id: u64,
}

impl FleetView {
    /// A fleet with all processors idle.
    pub open spec fn initial(cpus: nat) -> FleetView {
        FleetView {
            idle: Seq::new(cpus, |p: int| p as usize),
            machines: Seq::empty(),
            parked: None,
            next_id: 0,
        }
    }

    /// All processors, as often as one is idle or held by a machine.
    pub open spec fn held(self) -> Multiset<usize> {
        let running = self.idle.to_multiset().add(processors_of(self.machines).to_multiset());
        match self.parked {
            Some(m) => running.insert(m.processor),
            None => running,
        }
    }

    /// No two machines have the same identifier, and none has that of the machine that starts next.
    pub open spec fn distinct(self) -> bool {
        &&& forall|i: int, j: int|
            0 <= i < j < self.machines.len() ==> (#[trigger] self.machines[i]).id != (
            #[trigger] self.machines[j]).id
        &&& forall|i: int|
            0 <= i < self.machines.len() ==> (#[trigger] self.machines[i]).id < self.next_id
        &&& self.parked matches Some(m) ==> m.id < self.next_id && forall|i: int|
            0 <= i < self.machines.len() ==> (#[trigger] self.machines[i]).id != m.id
    }

    /// No two machines have the same identifier, and every processor is idle or held by a machine.
    pub open spec fn wf(self, cpus: nat) -> bool {
        &&& self.distinct()
        &&& cpus <= usize::MAX
        &&& self.held() == all_processors(cpus)
    }

    /// The machine with some identifier.
    pub open spec fn find(self, id: u64) -> Option<Machine> {
        if self.parked is Some && self.parked->0.id == id {
            self.parked
        } else {
            match position(self.machines, id) {
                Some(i) => Some(self.machines[i]),
                None => None,
            }
        }
    }

    /// A machine put in the place of the one with its identifier.
    pub open spec fn put(self, m: Machine) -> FleetView {
        if self.parked is Some && self.parked->0.id == m.id {
            FleetView { parked: Some(m), ..self }
        } else {
            match position(self.machines, m.id) {
                Some(i) => FleetView { machines: self.machines.update(i, m), ..self },
                None => self,
            }
        }
    }

    /// A new machine started on an idle processor, if there is one.
    pub open spec fn spun_up(self) -> FleetView {
        if self.idle.len() == 0 {
            self
        } else {
            FleetView {
                idle: self.idle.drop_last(),
                machines: self.machines.push(Machine::fresh(self.next_id, self.idle.last())),
                parked: self.parked,
                next_id: (self.next_id + 1) as u64,
            }
        }
    }

    /// The machine at position `i`, after all machines were checked.
    pub open spec fn relieved(self, i: int) -> Machine {
        if self.machines[i].stuck() {
            Machine::fresh(
                (self.next_id + stuck_among(self.machines, i)) as u64,
                self.machines[i].processor,
            )
        } else {
            self.machines[i].checked()
        }
    }

    /// Every stuck machine replaced by a new one that takes over its processor.
    pub open spec fn all_relieved(self) -> FleetView {
        FleetView {
            machines: Seq::new(self.machines.len(), |i: int| self.relieved(i)),
            next_id: (self.next_id + stuck_among(self.machines, self.machines.len() as int)) as u64,
            ..self
        }
    }

    /// The machine at position `i` is the first one that is stuck.
    pub open spec fn first_stuck(self, i: int) -> bool {
        &&& 0 <= i < self.machines.len()
        &&& self.machines[i].stuck()
        &&& forall|j: int| 0 <= j < i ==> !(#[trigger] self.machines[j]).stuck()
    }

    /// The machines before position `n` checked, none of which is stuck.
    pub open spec fn checked_up_to(self, n: int) -> FleetView {
        FleetView {
            machines: Seq::new(
                self.machines.len(),
                |j: int| if j < n { self.machines[j].checked() } else { self.machines[j] },
            ),
            ..self
        }
    }

    /// Some machine is stuck.
    pub open spec fn any_stuck(self) -> bool {
        exists|i: int| self.first_stuck(i)
    }

    /// The machines checked up to the first stuck one, and that one replaced.
    pub open spec fn first_relieved(self) -> FleetView {
        if self.any_stuck() {
            let i = choose|i: int| self.first_stuck(i);
            self.checked_up_to(i).replaced(i)
        } else {
            self.checked_up_to(self.machines.len() as int)
        }
    }

    /// The machine at position `i` replaced by a new one that takes over its processor.
    pub open spec fn replaced(self, i: int) -> FleetView {
        FleetView {
            machines: self.machines.update(
                i,
                Machine::fresh(self.next_id, self.machines[i].processor),
            ),
            next_id: (self.next_id + 1) as u64,
            ..self
        }
    }

    /// The machine at position `i` gone, its processor idle, and the last machine in its place.
    pub open spec fn spun_down(self, i: int) -> FleetView {
        FleetView {
            idle: self.idle.push(self.machines[i].processor),
            machines: self.machines.update(i, self.machines.last()).drop_last(),
            ..self
        }
    }

    /// The machine at position `i` gone, and its processor idle.
    pub open spec fn retired(self, i: int) -> FleetView {
        FleetView {
            idle: self.idle.push(self.machines[i].processor),
            machines: self.machines.remove(i),
            ..self
        }
    }

    /// The machine at position `i` parked, and the last machine in its place.
    pub open spec fn parked_at(self, i: int) -> FleetView {
        FleetView {
            machines: self.machines.update(i, self.machines.last()).drop_last(),
            parked: Some(self.machines[i]),
            ..self
        }
    }

    /// Exactly one running machine bears an identifier.
    pub open spec fn listed_once(self, id: u64) -> bool {
        &&& exists|i: int| 0 <= i < self.machines.len() && (#[trigger] self.machines[i]).id == id
        &&& forall|i: int, j: int|
            0 <= i < j < self.machines.len() ==> !((#[trigger] self.machines[i]).id == id && (
            #[trigger] self.machines[j]).id == id)
    }

    /// Machines checked or started: of the machines that there were, some that were not blocking
    /// are gone, those that are left keep their processors, those that were blocking are unchanged,
    /// and the new ones bear new identifiers and are not blocking.
    pub open spec fn overseen(self, after: FleetView) -> bool {
        &&& self.next_id <= after.next_id
        &&& forall|id: u64|
            {
                let found = #[trigger] after.find(id);
                if id < self.next_id {
                    match self.find(id) {
                        Some(m0) => {
                            &&& found matches Some(m1) ==> m1.processor == m0.processor
                                && m1.polling == m0.polling
                            &&& m0.polling ==> found == Some(m0)
                        },
                        None => found is None,
                    }
                } else {
                    found matches Some(m1) ==> id < after.next_id && !m1.polling
                }
            }
    }

    /// The parked machine back among the others.
    pub open spec fn unparked(self) -> FleetView {
        FleetView { machines: self.machines.push(self.parked->0), parked: None, ..self }
    }
}

/// A multiset keeps its elements when one is replaced by the last and the last is dropped, but for
/// the one replaced.
proof fn lemma_swap_remove<A>(s: Seq<A>, i: int)
    requires
        0 <= i < s.len(),
    ensures
        s.to_multiset() == s.update(i, s.last()).drop_last().to_multiset().insert(s[i]),
{
    broadcast use vstd::seq_lib::group_to_multiset_ensures;

    let last = s.len() - 1;
    if i == last {
        assert(s.update(i, s.last()).drop_last().push(s[i]) =~= s);
    } else {
        let short = s.update(i, s.last()).drop_last();
        assert(s =~= short.update(i, s[i]).push(s.last()));
        assert(short[i] == s.last());
        assert(short.to_multiset().count(s.last()) > 0) by {
            assert(short.contains(short[i]));
        }
        assert(s.to_multiset() =~= short.to_multiset().insert(s[i]));
    }
}

/// A multiset keeps its elements when one is removed, but for that one.
proof fn lemma_remove<A>(s: Seq<A>, i: int)
    requires
        0 <= i < s.len(),
    ensures
        s.to_multiset() == s.remove(i).to_multiset().insert(s[i]),
{
    broadcast use vstd::seq_lib::group_to_multiset_ensures;

    assert(s.to_multiset().count(s[i]) > 0) by {
        assert(s.contains(s[i]));
    }
    assert(s.to_multiset() =~= s.remove(i).to_multiset().insert(s[i]));
}

/// Each processor occurs once among all processors.
proof fn lemma_all_processors(cpus: nat, p: usize)
    requires
        cpus <= usize::MAX,
    ensures
        all_processors(cpus).count(p) == if p < cpus {
            1nat
        } else {
            0
        },
{
    broadcast use vstd::seq_lib::group_to_multiset_ensures;

    let s = Seq::new(cpus, |i: int| i as usize);
    assert(s.no_duplicates()) by {
        assert forall|i: int, j: int| 0 <= i < s.len() && 0 <= j < s.len() && i != j implies s[i]
            != s[j] by {
            assert(s[i] as int == i && s[j] as int == j);
        }
    }
    s.lemma_multiset_has_no_duplicates();
    if p < cpus {
        assert(s[p as int] == p);
        assert(s.contains(p));
    } else {
        assert(!s.contains(p));
    }
}

/// A machine holds one of the processors.
pub proof fn machines_hold_existing_processors(v: FleetView, cpus: nat, id: u64)
    requires
        v.wf(cpus),
    ensures
        v.find(id) matches Some(m) ==> m.processor < cpus && m.id == id,
{
    broadcast use vstd::seq_lib::group_to_multiset_ensures;

    if let Some(m) = v.find(id) {
        lemma_all_processors(cpus, m.processor);
        if !(v.parked is Some && v.parked->0.id == id) {
            let i = position(v.machines, id)->0;
            assert(processors_of(v.machines)[i] == m.processor);
            assert(processors_of(v.machines).contains(m.processor));
        }
        assert(v.held().count(m.processor) > 0);
    }
}

/// The machine at a position is the one that its identifier finds.
pub proof fn identifier_names_one_machine(v: FleetView, i: int)
    requires
        v.distinct(),
        0 <= i < v.machines.len(),
    ensures
        position(v.machines, v.machines[i].id) == Some(i),
        v.find(v.machines[i].id) == Some(v.machines[i]),
{
    let id = v.machines[i].id;
    let j = choose|j: int| 0 <= j < v.machines.len() && (#[trigger] v.machines[j]).id == id;
    assert(v.machines[j].id == id);
    if i < j {
        assert(v.machines[i].id != v.machines[j].id);
    } else if j < i {
        assert(v.machines[j].id != v.machines[i].id);
    }
}

impl View for Fleet {
    type V = FleetView;

    closed spec fn view(&self) -> FleetView {
        FleetView {
            idle: self.idle@,
            machines: self.machines@,
            parked: self.parked,
            next_id: self.next_id,
        }
    }
}

impl Fleet {
    /// Creates a fleet with all processors idle.
    pub fn new(cpus: usize) -> (f: Fleet)
        ensures
            f@ == FleetView::initial(cpus as nat),
    {
        let mut idle: Vec<usize> = Vec::new();
        for p in 0..cpus
            invariant
                idle@ == Seq::new(p as nat, |i: int| i as usize),
        {
            idle.push(p);
        }
        Fleet { idle, machines: Vec::new(), parked: None, next_id: 0 }
    }

    /// Says whether identifiers are left for `n` more machines.
    pub fn can_start(&self, n: u64) -> (r: bool)
        ensures
            r == (self@.next_id + n <= u64::MAX),
    {
        n <= u64::MAX - self.next_id
    }

    /// The number of running machines.
    pub fn len(&self) -> (n: usize)
        ensures
            n == self@.machines.len(),
    {
        self.machines.len()
    }

    /// The position of the machine with some identifier.
    fn position(&self, id: u64) -> (r: Option<usize>)
        requires
            self@.distinct(),
        ensures
            match r {
                Some(i) => position(self@.machines, id) == Some(i as int) && i
                    < self@.machines.len() && self@.machines[i as int].id == id,
                None => position(self@.machines, id) is None,
            },
    {
        let mut i: usize = 0;
        while i < self.machines.len()
            invariant
                self@.distinct(),
                i <= self@.machines.len(),
                forall|j: int| 0 <= j < i ==> (#[trigger] self@.machines[j]).id != id,
            decreases self.machines.len() - i,
        {
            if self.machines[i].id == id {
                proof {
                    identifier_names_one_machine(self@, i as int);
                }
                return Some(i);
            }
            i = i + 1;
        }
        None
    }

    /// The machine with some identifier.
    pub fn find(&self, id: u64) -> (r: Option<Machine>)
        requires
            self@.distinct(),
        ensures
            r == self@.find(id),
    {
        if let Some(m) = self.parked {
            if m.id == id {
                return Some(m);
            }
        }
        match self.position(id) {
            Some(i) => Some(self.machines[i]),
            None => None,
        }
    }

    /// Puts a machine in the place of the one with its identifier.
    pub fn put(&mut self, m: Machine)
        requires
            old(self)@.distinct(),
        ensures
            final(self)@ == old(self)@.put(m),
    {
        if let Some(parked) = self.parked {
            if parked.id == m.id {
                self.parked = Some(m);
                return;
            }
        }
        if let Some(i) = self.position(m.id) {
            self.machines[i] = m;
        }
    }

    /// Takes an idle processor and makes a machine to run it.
    pub fn spin_up(&mut self) -> (r: Option<u64>)
        requires
            old(self)@.next_id < u64::MAX,
        ensures
            final(self)@ == old(self)@.spun_up(),
            r == if old(self)@.idle.len() == 0 {
                None
            } else {
                Some(old(self)@.next_id)
            },
    {
        match self.idle.pop() {
            Some(p) => {
                let id: u64 = self.next_id;
                self.machines.push(Machine::new(id, p));
                self.next_id = id + 1;
                machine_starting(id);
                Some(id)
            },
            None => None,
        }
    }

    /// Lets a new machine take over the processor of another.
    fn replace(&mut self, i: usize) -> (id: u64)
        requires
            i < old(self)@.machines.len(),
            old(self)@.next_id < u64::MAX,
        ensures
            final(self)@ == old(self)@.replaced(i as int),
            id == old(self)@.next_id,
    {
        let blocked = self.machines[i];
        let id: u64 = self.next_id;
        machine_blocked(blocked.id);
        self.machines[i] = Machine::new(id, blocked.processor);
        self.next_id = id + 1;
        machine_starting(id);
        id
    }

    /// Checks all running machines. If there is a machine that is stuck on a task and not making
    /// any progress, its processor is stolen and a new machine takes over. The new machines are
    /// returned.
    pub fn relieve_all(&mut self) -> (started: Vec<u64>)
        requires
            old(self)@.next_id + old(self)@.machines.len() <= u64::MAX,
        ensures
            final(self)@ == old(self)@.all_relieved(),
            started@ == Seq::new(
                stuck_among(old(self)@.machines, old(self)@.machines.len() as int),
                |k: int| (old(self)@.next_id + k) as u64,
            ),
    {
        let mut started: Vec<u64> = Vec::new();
        let ghost v = self@;
        let mut i: usize = 0;
        while i < self.machines.len()
            invariant
                v == old(self)@,
                v.next_id + v.machines.len() <= u64::MAX,
                i <= v.machines.len(),
                stuck_among(v.machines, i as int) <= i,
                self@.machines.len() == v.machines.len(),
                self@.idle == v.idle,
                self@.parked == v.parked,
                self@.next_id == v.next_id + stuck_among(v.machines, i as int),
                started@ == Seq::new(
                    stuck_among(v.machines, i as int),
                    |k: int| (v.next_id + k) as u64,
                ),
                forall|j: int| 0 <= j < i ==> #[trigger] self@.machines[j] == v.relieved(j),
                forall|j: int|
                    i <= j < v.machines.len() ==> #[trigger] self@.machines[j] == v.machines[j],
            decreases self.machines.len() - i,
        {
            let m = self.machines[i];
            assert(m == v.machines[i as int]);
            if !m.polling {
                if !m.progress {
                    let id = self.replace(i);
                    started.push(id);
                } else {
                    self.machines[i] = Machine { progress: false, ..m };
                }
            }
            assert(self@.machines[i as int] == v.relieved(i as int));
            i = i + 1;
        }
        assert(self@.machines =~= v.all_relieved().machines);
        started
    }

    /// Checks running machines until one turns out to be stuck. Its processor is stolen and a new
    /// machine, which is returned, takes over.
    pub fn relieve_first(&mut self) -> (started: Option<u64>)
        requires
            old(self)@.next_id < u64::MAX,
        ensures
            final(self)@ == old(self)@.first_relieved(),
            started == if old(self)@.any_stuck() {
                Some(old(self)@.next_id)
            } else {
                None
            },
    {
        let ghost v = self@;
        let mut i: usize = 0;
        assert(self@.machines =~= v.checked_up_to(0).machines);
        while i < self.machines.len()
            invariant
                v == old(self)@,
                v.next_id < u64::MAX,
                i <= v.machines.len(),
                self@ == v.checked_up_to(i as int),
                forall|j: int| 0 <= j < i ==> !(#[trigger] v.machines[j]).stuck(),
            decreases self.machines.len() - i,
        {
            let m = self.machines[i];
            assert(m == v.machines[i as int]);
            if !m.polling {
                if !m.progress {
                    proof {
                        assert(v.first_stuck(i as int));
                        let j = choose|j: int| v.first_stuck(j);
                        assert(i == j) by {
                            if i < j {
                                assert(!v.machines[i as int].stuck());
                            } else if j < i {
                                assert(!v.machines[j].stuck());
                            }
                        }
                    }
                    return Some(self.replace(i));
                }
                self.machines[i] = Machine { progress: false, ..m };
            }
            assert(self@.machines =~= v.checked_up_to(i + 1).machines);
            i = i + 1;
        }
        None
    }

    /// Takes the processor from a machine and drops the machine; the last one takes its place.
    pub fn spin_down(&mut self, id: u64)
        requires
            old(self)@.distinct(),
        ensures
            final(self)@ == match position(old(self)@.machines, id) {
                Some(i) => old(self)@.spun_down(i),
                None => old(self)@,
            },
    {
        if let Some(i) = self.position(id) {
            let m = self.machines.swap_remove(i);
            self.idle.push(m.processor);
        }
    }

    /// Takes the processor from a machine and drops the machine; the others keep their order.
    pub fn retire(&mut self, id: u64)
        requires
            old(self)@.distinct(),
        ensures
            final(self)@ == match position(old(self)@.machines, id) {
                Some(i) => old(self)@.retired(i),
                None => old(self)@,
            },
    {
        if let Some(i) = self.position(id) {
            let m = self.machines.remove(i);
            self.idle.push(m.processor);
        }
    }

    /// Parks a running machine, and says whether there was such a machine.
    pub fn park(&mut self, id: u64) -> (r: bool)
        requires
            old(self)@.distinct(),
            old(self)@.parked is None,
        ensures
            match position(old(self)@.machines, id) {
                Some(i) => r && final(self)@ == old(self)@.parked_at(i),
                None => !r && final(self)@ == old(self)@,
            },
    {
        match self.position(id) {
            Some(i) => {
                let m = self.machines.swap_remove(i);
                self.parked = Some(m);
                true
            },
            None => false,
        }
    }

    /// Lets a parked machine run again, and says whether it was parked.
    pub fn unpark(&mut self, id: u64) -> (r: bool)
        ensures
            r == (old(self)@.parked is Some && old(self)@.parked->0.id == id),
            r ==> final(self)@ == old(self)@.unparked(),
            !r ==> final(self)@ == old(self)@,
    {
        if let Some(m) = self.parked {
            if m.id == id {
                self.parked = None;
                self.machines.push(m);
                return true;
            }
        }
        false
    }

    /// Says whether a machine is parked.
    pub fn has_parked(&self) -> (r: bool)
        ensures
            r == self@.parked is Some,
    {
        self.parked.is_some()
    }
}

/// In a new fleet every processor is idle.
pub proof fn initial_fleet_is_wf(cpus: nat)
    requires
        cpus <= usize::MAX,
    ensures
        FleetView::initial(cpus).wf(cpus),
{
    broadcast use vstd::seq_lib::group_to_multiset_ensures;

    let v = FleetView::initial(cpus);
    assert(processors_of(v.machines) =~= Seq::empty());
    assert(processors_of(v.machines).to_multiset().len() == 0);
    assert(v.held() =~= all_processors(cpus));
}

/// Every processor is idle, or held by a running machine, or held by the parked machine, and by no
/// other.
pub proof fn every_processor_has_one_holder(v: FleetView, cpus: nat, p: usize)
    requires
        v.wf(cpus),
        p < cpus,
    ensures
        v.idle.contains(p) || processors_of(v.machines).contains(p) || v.parked is Some
            && v.parked->0.processor == p,
        v.idle.contains(p) ==> !processors_of(v.machines).contains(p),
        v.idle.contains(p) ==> !(v.parked is Some && v.parked->0.processor == p),
        processors_of(v.machines).contains(p) ==> !(v.parked is Some && v.parked->0.processor
            == p),
        forall|i: int, j: int|
            0 <= i < j < v.idle.len() ==> !(#[trigger] v.idle[i] == p && #[trigger] v.idle[j] == p),
        forall|i: int, j: int|
            0 <= i < j < v.machines.len() ==> !((#[trigger] v.machines[i]).processor == p && (
            #[trigger] v.machines[j]).processor == p),
{
    broadcast use vstd::seq_lib::group_to_multiset_ensures;

    lemma_all_processors(cpus, p);
    let a = v.idle;
    let b = processors_of(v.machines);
    assert(v.held().count(p) == 1);
    assert forall|i: int, j: int| 0 <= i < j < a.len() implies !(#[trigger] a[i] == p
        && #[trigger] a[j] == p) by {
        if a[i] == p && a[j] == p {
            lemma_two_occurrences(a, i, j);
        }
    }
    assert forall|i: int, j: int| 0 <= i < j < v.machines.len() implies !((
    #[trigger] v.machines[i]).processor == p && (#[trigger] v.machines[j]).processor == p) by {
        if v.machines[i].processor == p && v.machines[j].processor == p {
            lemma_two_occurrences(b, i, j);
        }
    }
}

/// What occurs at two positions occurs at least twice.
proof fn lemma_two_occurrences(s: Seq<usize>, i: int, j: int)
    requires
        0 <= i < j < s.len(),
        s[i] == s[j],
    ensures
        s.to_multiset().count(s[i]) >= 2,
{
    broadcast use vstd::seq_lib::group_to_multiset_ensures;

    lemma_remove(s, j);
    assert(s.remove(j)[i] == s[i]);
    assert(s.remove(j).contains(s[i]));
}

/// Putting a machine with the same processor in the place of another keeps all processors.
pub proof fn putting_keeps_wf(v: FleetView, cpus: nat, m: Machine)
    requires
        v.wf(cpus),
        v.find(m.id) is Some,
        v.find(m.id)->0.processor == m.processor,
    ensures
        v.put(m).wf(cpus),
        v.put(m).find(m.id) == Some(m),
        v.put(m).parked is Some == v.parked is Some,
{
    if v.parked is Some && v.parked->0.id == m.id {
    } else {
        let i = position(v.machines, m.id)->0;
        let w = v.put(m);
        assert(processors_of(w.machines) =~= processors_of(v.machines));
        assert(w.distinct());
        identifier_names_one_machine(w, i);
    }
}

/// Starting a machine keeps all processors.
pub proof fn spinning_up_keeps_wf(v: FleetView, cpus: nat)
    requires
        v.wf(cpus),
        v.next_id < u64::MAX,
    ensures
        v.spun_up().wf(cpus),
{
    broadcast use vstd::seq_lib::group_to_multiset_ensures;

    if v.idle.len() > 0 {
        let w = v.spun_up();
        assert(processors_of(w.machines) =~= processors_of(v.machines).push(v.idle.last()));
        assert(v.idle =~= w.idle.push(v.idle.last()));
        assert(w.held() =~= v.held());
    }
}

/// As many machines are stuck as there are machines, at most, and the count grows along the list.
pub proof fn stuck_among_is_bounded(machines: Seq<Machine>, i: int, n: int)
    requires
        0 <= i <= n,
    ensures
        stuck_among(machines, i) <= stuck_among(machines, n) <= n,
        i < n && machines[i].stuck() ==> stuck_among(machines, i) < stuck_among(machines, n),
    decreases n,
{
    if i < n {
        stuck_among_is_bounded(machines, i, n - 1);
    } else if n > 0 {
        stuck_among_is_bounded(machines, i - 1, n - 1);
    }
}

/// Relieving stuck machines keeps all processors.
pub proof fn relieving_keeps_wf(v: FleetView, cpus: nat)
    requires
        v.wf(cpus),
        v.next_id + v.machines.len() <= u64::MAX,
    ensures
        v.all_relieved().wf(cpus),
{
    let w = v.all_relieved();
    let n = v.machines.len() as int;
    stuck_among_is_bounded(v.machines, 0, n);
    assert forall|i: int| 0 <= i < n implies #[trigger] w.machines[i].id < w.next_id
        && w.machines[i].processor == v.machines[i].processor && (v.machines[i].stuck()
        ==> w.machines[i].id == v.next_id + stuck_among(v.machines, i)) && (!v.machines[i].stuck()
        ==> w.machines[i].id == v.machines[i].id) by {
        stuck_among_is_bounded(v.machines, i, n);
    }
    assert(processors_of(w.machines) =~= processors_of(v.machines));
    assert forall|i: int, j: int| 0 <= i < j < n implies (#[trigger] w.machines[i]).id != (
    #[trigger] w.machines[j]).id by {
        stuck_among_is_bounded(v.machines, i, j);
        stuck_among_is_bounded(v.machines, j, n);
        assert(v.machines[i].id < v.next_id && v.machines[j].id < v.next_id);
    }
}

/// Checking machines keeps all processors.
pub proof fn checking_keeps_wf(v: FleetView, cpus: nat, n: int)
    requires
        v.wf(cpus),
    ensures
        v.checked_up_to(n).wf(cpus),
{
    let w = v.checked_up_to(n);
    assert(processors_of(w.machines) =~= processors_of(v.machines));
    assert forall|i: int| 0 <= i < w.machines.len() implies (#[trigger] w.machines[i]).id
        == v.machines[i].id by {}
}

/// Relieving the first stuck machine keeps all processors.
pub proof fn relieving_first_keeps_wf(v: FleetView, cpus: nat)
    requires
        v.wf(cpus),
        v.next_id < u64::MAX,
    ensures
        v.first_relieved().wf(cpus),
        v.first_relieved().parked == v.parked,
        v.first_relieved().machines.len() == v.machines.len(),
        v.first_relieved().next_id <= v.next_id + 1,
{
    if v.any_stuck() {
        let i = choose|i: int| v.first_stuck(i);
        checking_keeps_wf(v, cpus, i);
        replacing_keeps_wf(v.checked_up_to(i), cpus, i);
    } else {
        checking_keeps_wf(v, cpus, v.machines.len() as int);
    }
}

/// Letting a new machine take over a processor keeps all processors.
pub proof fn replacing_keeps_wf(v: FleetView, cpus: nat, i: int)
    requires
        v.wf(cpus),
        0 <= i < v.machines.len(),
        v.next_id < u64::MAX,
    ensures
        v.replaced(i).wf(cpus),
{
    let w = v.replaced(i);
    assert(processors_of(w.machines) =~= processors_of(v.machines));
}

/// Dropping a machine keeps all processors.
pub proof fn spinning_down_keeps_wf(v: FleetView, cpus: nat, i: int)
    requires
        v.wf(cpus),
        0 <= i < v.machines.len(),
    ensures
        v.spun_down(i).wf(cpus),
        v.spun_down(i).find(v.machines[i].id) is None,
{
    broadcast use vstd::seq_lib::group_to_multiset_ensures;

    let w = v.spun_down(i);
    let a = processors_of(v.machines);
    lemma_swap_remove(a, i);
    assert(processors_of(w.machines) =~= a.update(i, a.last()).drop_last());
    assert(w.held() =~= v.held());
}

/// Retiring a machine keeps all processors.
pub proof fn retiring_keeps_wf(v: FleetView, cpus: nat, i: int)
    requires
        v.wf(cpus),
        0 <= i < v.machines.len(),
    ensures
        v.retired(i).wf(cpus),
        v.retired(i).find(v.machines[i].id) is None,
{
    broadcast use vstd::seq_lib::group_to_multiset_ensures;

    let w = v.retired(i);
    let a = processors_of(v.machines);
    lemma_remove(a, i);
    assert(processors_of(w.machines) =~= a.remove(i));
    assert(w.held() =~= v.held());
}

/// Parking a machine keeps all processors, and the machine its own.
pub proof fn parking_keeps_wf(v: FleetView, cpus: nat, i: int)
    requires
        v.wf(cpus),
        0 <= i < v.machines.len(),
        v.parked is None,
    ensures
        v.parked_at(i).wf(cpus),
        v.parked_at(i).find(v.machines[i].id) == Some(v.machines[i]),
{
    broadcast use vstd::seq_lib::group_to_multiset_ensures;

    let w = v.parked_at(i);
    let a = processors_of(v.machines);
    lemma_swap_remove(a, i);
    assert(processors_of(w.machines) =~= a.update(i, a.last()).drop_last());
    assert(w.held() =~= v.held());
}

/// Letting the parked machine run again keeps all processors, and the machine its own.
pub proof fn unparking_keeps_wf(v: FleetView, cpus: nat)
    requires
        v.wf(cpus),
        v.parked is Some,
    ensures
        v.unparked().wf(cpus),
        v.unparked().find(v.parked->0.id) == v.parked,
{
    broadcast use vstd::seq_lib::group_to_multiset_ensures;

    let w = v.unparked();
    let m = v.parked->0;
    assert(processors_of(w.machines) =~= processors_of(v.machines).push(m.processor));
    assert(w.held() =~= v.held());
    identifier_names_one_machine(w, v.machines.len() as int);
}

/// Putting a machine in the place of another changes neither which machines are found nor which one
/// is parked.
pub proof fn putting_keeps_who_is_found(v: FleetView, m: Machine, id: u64)
    ensures
        v.put(m).find(id) is Some == v.find(id) is Some,
        v.put(m).parked is Some == v.parked is Some,
        v.parked is Some ==> v.put(m).parked->0.id == v.parked->0.id,
        v.put(m).next_id == v.next_id,
{
    let w = v.put(m);
    assert forall|i: int| 0 <= i < v.machines.len() implies (#[trigger] w.machines[i]).id
        == v.machines[i].id by {}
    if exists|i: int| 0 <= i < v.machines.len() && (#[trigger] v.machines[i]).id == id {
        let i = choose|i: int| 0 <= i < v.machines.len() && (#[trigger] v.machines[i]).id == id;
        assert(w.machines[i].id == id);
    }
}

/// Of all machines, a retired one alone is found no longer.
pub proof fn retiring_keeps_the_others_found(v: FleetView, i: int, id: u64)
    requires
        0 <= i < v.machines.len(),
        id != v.machines[i].id,
    ensures
        v.retired(i).find(id) is Some == v.find(id) is Some,
{
    let w = v.retired(i);
    if exists|j: int| 0 <= j < v.machines.len() && (#[trigger] v.machines[j]).id == id {
        let j = choose|j: int| 0 <= j < v.machines.len() && (#[trigger] v.machines[j]).id == id;
        if j < i {
            assert(w.machines[j].id == id);
        } else {
            assert(w.machines[j - 1].id == id);
        }
    }
    if exists|j: int| 0 <= j < w.machines.len() && (#[trigger] w.machines[j]).id == id {
        let j = choose|j: int| 0 <= j < w.machines.len() && (#[trigger] w.machines[j]).id == id;
        if j < i {
            assert(v.machines[j].id == id);
        } else {
            assert(v.machines[j + 1].id == id);
        }
    }
}

/// Parking a machine does not change which machines are found.
pub proof fn parking_keeps_who_is_found(v: FleetView, i: int, id: u64)
    requires
        0 <= i < v.machines.len(),
        v.parked is None,
    ensures
        v.parked_at(i).find(id) is Some == v.find(id) is Some,
{
    let w = v.parked_at(i);
    if exists|j: int| 0 <= j < v.machines.len() && (#[trigger] v.machines[j]).id == id {
        let j = choose|j: int| 0 <= j < v.machines.len() && (#[trigger] v.machines[j]).id == id;
        if j != i {
            if j < w.machines.len() {
                assert(w.machines[j].id == id);
            } else {
                assert(w.machines[i].id == id);
            }
        }
    }
    if exists|j: int| 0 <= j < w.machines.len() && (#[trigger] w.machines[j]).id == id {
        let j = choose|j: int| 0 <= j < w.machines.len() && (#[trigger] w.machines[j]).id == id;
        if j == i {
            assert(v.machines[v.machines.len() - 1].id == id);
        } else {
            assert(v.machines[j].id == id);
        }
    }
}

/// Letting the parked machine run again does not change which machines are found.
pub proof fn unparking_keeps_who_is_found(v: FleetView, id: u64)
    requires
        v.parked is Some,
    ensures
        v.unparked().find(id) is Some == v.find(id) is Some,
{
    let w = v.unparked();
    let last = v.machines.len() as int;
    assert(w.machines[last].id == v.parked->0.id);
    if exists|j: int| 0 <= j < v.machines.len() && (#[trigger] v.machines[j]).id == id {
        let j = choose|j: int| 0 <= j < v.machines.len() && (#[trigger] v.machines[j]).id == id;
        assert(w.machines[j].id == id);
    }
    if exists|j: int| 0 <= j < w.machines.len() && (#[trigger] w.machines[j]).id == id {
        let j = choose|j: int| 0 <= j < w.machines.len() && (#[trigger] w.machines[j]).id == id;
        if j < last {
            assert(v.machines[j].id == id);
        }
    }
}

/// Of the machines that bear an old identifier, none is found that was not found before machines
/// were relieved or started.
pub proof fn new_machines_have_new_identifiers(v: FleetView, cpus: nat, id: u64)
    requires
        v.wf(cpus),
        v.next_id + v.machines.len() < u64::MAX,
        id < v.next_id,
        v.find(id) is None,
    ensures
        v.all_relieved().find(id) is None,
        v.all_relieved().spun_up().find(id) is None,
{
    let w = v.all_relieved();
    stuck_among_is_bounded(v.machines, 0, v.machines.len() as int);
    assert forall|j: int| 0 <= j < w.machines.len() implies (#[trigger] w.machines[j]).id
        != id by {
        stuck_among_is_bounded(v.machines, j, v.machines.len() as int);
        assert(w.machines[j] == v.relieved(j));
        assert(v.machines[j].id != id);
    }
}

/// A machine is found in one fleet as in another if both list it alike.
proof fn lemma_same_find(v: FleetView, w: FleetView, id: u64)
    requires
        v.distinct(),
        w.distinct(),
        w.parked == v.parked,
        forall|j: int|
            0 <= j < v.machines.len() && (#[trigger] v.machines[j]).id == id
                ==> w.machines.contains(v.machines[j]),
        forall|j: int|
            0 <= j < w.machines.len() && (#[trigger] w.machines[j]).id == id
                ==> v.machines.contains(w.machines[j]),
    ensures
        w.find(id) == v.find(id),
{
    if exists|j: int| 0 <= j < v.machines.len() && (#[trigger] v.machines[j]).id == id {
        let j = choose|j: int| 0 <= j < v.machines.len() && (#[trigger] v.machines[j]).id == id;
        let i = choose|i: int| 0 <= i < w.machines.len() && w.machines[i] == v.machines[j];
        identifier_names_one_machine(v, j);
        identifier_names_one_machine(w, i);
    } else if exists|j: int| 0 <= j < w.machines.len() && (#[trigger] w.machines[j]).id == id {
        let j = choose|j: int| 0 <= j < w.machines.len() && (#[trigger] w.machines[j]).id == id;
        let i = choose|i: int| 0 <= i < v.machines.len() && v.machines[i] == w.machines[j];
        assert(v.machines[i].id == id);
    }
}

/// Putting a machine in the place of another leaves the other machines as they are.
pub proof fn putting_keeps_the_others(v: FleetView, cpus: nat, m: Machine, id: u64)
    requires
        v.wf(cpus),
        v.find(m.id) is Some,
        v.find(m.id)->0.processor == m.processor,
        v.parked is None,
        id != m.id,
    ensures
        v.put(m).find(id) == v.find(id),
{
    let w = v.put(m);
    let i = position(v.machines, m.id)->0;
    putting_keeps_wf(v, cpus, m);
    assert forall|j: int| 0 <= j < v.machines.len() && (
    #[trigger] v.machines[j]).id == id implies w.machines.contains(v.machines[j]) by {
        assert(w.machines[j] == v.machines[j]);
    }
    assert forall|j: int| 0 <= j < w.machines.len() && (
    #[trigger] w.machines[j]).id == id implies v.machines.contains(w.machines[j]) by {
        assert(w.machines[j] == v.machines[j]);
    }
    lemma_same_find(v, w, id);
}

/// Dropping a machine leaves the other machines as they are.
pub proof fn spinning_down_keeps_the_others(v: FleetView, cpus: nat, i: int, id: u64)
    requires
        v.wf(cpus),
        0 <= i < v.machines.len(),
        id != v.machines[i].id,
    ensures
        v.spun_down(i).find(id) == v.find(id),
{
    let w = v.spun_down(i);
    spinning_down_keeps_wf(v, cpus, i);
    assert forall|j: int| 0 <= j < v.machines.len() && (
    #[trigger] v.machines[j]).id == id implies w.machines.contains(v.machines[j]) by {
        if j < w.machines.len() {
            assert(w.machines[j] == v.machines[j]);
        } else {
            assert(w.machines[i] == v.machines[j]);
        }
    }
    assert forall|j: int| 0 <= j < w.machines.len() && (
    #[trigger] w.machines[j]).id == id implies v.machines.contains(w.machines[j]) by {
        if j == i {
            assert(w.machines[j] == v.machines[v.machines.len() - 1]);
        } else {
            assert(w.machines[j] == v.machines[j]);
        }
    }
    lemma_same_find(v, w, id);
}

/// Machines are overseen where each one is checked, or replaced by a new one unless it is blocking.
proof fn lemma_overseen(v: FleetView, w: FleetView)
    requires
        v.distinct(),
        w.distinct(),
        v.parked is None,
        w.parked is None,
        v.next_id <= w.next_id,
        w.machines.len() == v.machines.len(),
        forall|j: int|
            0 <= j < v.machines.len() ==> {
                let m = #[trigger] v.machines[j];
                ||| w.machines[j] == m.checked()
                ||| w.machines[j] == m
                ||| !m.polling && !w.machines[j].polling && w.machines[j].id >= v.next_id
            },
    ensures
        v.overseen(w),
{
    assert forall|id: u64|
        {
            let found = #[trigger] w.find(id);
            if id < v.next_id {
                match v.find(id) {
                    Some(m0) => {
                        &&& found matches Some(m1) ==> m1.processor == m0.processor && m1.polling
                            == m0.polling
                        &&& m0.polling ==> found == Some(m0)
                    },
                    None => found is None,
                }
            } else {
                found matches Some(m1) ==> id < w.next_id && !m1.polling
            }
        } by {
        if exists|j: int| 0 <= j < w.machines.len() && (#[trigger] w.machines[j]).id == id {
            let j = choose|j: int| 0 <= j < w.machines.len() && (#[trigger] w.machines[j]).id == id;
            identifier_names_one_machine(w, j);
            assert(v.machines[j].id < v.next_id);
            if id < v.next_id {
                identifier_names_one_machine(v, j);
            }
        } else if exists|j: int| 0 <= j < v.machines.len() && (#[trigger] v.machines[j]).id == id {
            let j = choose|j: int| 0 <= j < v.machines.len() && (#[trigger] v.machines[j]).id == id;
            identifier_names_one_machine(v, j);
            assert(w.machines[j].id != id);
        }
    }
}

/// Relieving all stuck machines oversees the fleet.
pub proof fn relieving_oversees(v: FleetView, cpus: nat)
    requires
        v.wf(cpus),
        v.parked is None,
        v.next_id + v.machines.len() <= u64::MAX,
    ensures
        v.overseen(v.all_relieved()),
{
    let w = v.all_relieved();
    let n = v.machines.len() as int;
    relieving_keeps_wf(v, cpus);
    stuck_among_is_bounded(v.machines, 0, n);
    assert forall|j: int| 0 <= j < n implies {
        let m = #[trigger] v.machines[j];
        ||| w.machines[j] == m.checked()
        ||| w.machines[j] == m
        ||| !m.polling && !w.machines[j].polling && w.machines[j].id >= v.next_id
    } by {
        stuck_among_is_bounded(v.machines, j, n);
        assert(w.machines[j] == v.relieved(j));
    }
    lemma_overseen(v, w);
}

/// Relieving the first stuck machine oversees the fleet.
pub proof fn relieving_first_oversees(v: FleetView, cpus: nat)
    requires
        v.wf(cpus),
        v.parked is None,
        v.next_id < u64::MAX,
    ensures
        v.overseen(v.first_relieved()),
{
    let w = v.first_relieved();
    relieving_first_keeps_wf(v, cpus);
    if v.any_stuck() {
        let i = choose|i: int| v.first_stuck(i);
        assert forall|j: int| 0 <= j < v.machines.len() implies {
            let m = #[trigger] v.machines[j];
            ||| w.machines[j] == m.checked()
            ||| w.machines[j] == m
            ||| !m.polling && !w.machines[j].polling && w.machines[j].id >= v.next_id
        } by {
            if j == i {
                assert(w.machines[j] == Machine::fresh(v.next_id, v.machines[j].processor));
            }
        }
    }
    lemma_overseen(v, w);
}

/// Starting a machine oversees the fleet.
pub proof fn spinning_up_oversees(v: FleetView, cpus: nat)
    requires
        v.wf(cpus),
        v.parked is None,
        v.next_id < u64::MAX,
    ensures
        v.overseen(v.spun_up()),
{
    let w = v.spun_up();
    spinning_up_keeps_wf(v, cpus);
    assert forall|id: u64| id < v.next_id implies #[trigger] w.find(id) == v.find(id) by {
        assert forall|j: int| 0 <= j < v.machines.len() && (
        #[trigger] v.machines[j]).id == id implies w.machines.contains(v.machines[j]) by {
            assert(w.machines[j] == v.machines[j]);
        }
        assert forall|j: int| 0 <= j < w.machines.len() && (
        #[trigger] w.machines[j]).id == id implies v.machines.contains(w.machines[j]) by {
            assert(w.machines[j] == v.machines[j]);
        }
        lemma_same_find(v, w, id);
    }
    assert forall|id: u64| id >= v.next_id && #[trigger] w.find(id) is Some implies id < w.next_id
        && !w.find(id)->0.polling by {
        let j = position(w.machines, id)->0;
        if j < v.machines.len() {
            assert(v.machines[j].id < v.next_id);
        }
    }
}

/// Overseeing a fleet twice is overseeing it.
pub proof fn overseeing_is_transitive(u: FleetView, v: FleetView, w: FleetView)
    requires
        u.overseen(v),
        v.overseen(w),
    ensures
        u.overseen(w),
{
    assert forall|id: u64|
        {
            let found = #[trigger] w.find(id);
            if id < u.next_id {
                match u.find(id) {
                    Some(m0) => {
                        &&& found matches Some(m1) ==> m1.processor == m0.processor && m1.polling
                            == m0.polling
                        &&& m0.polling ==> found == Some(m0)
                    },
                    None => found is None,
                }
            } else {
                found matches Some(m1) ==> id < w.next_id && !m1.polling
            }
        } by {
        let between = v.find(id);
    }
}

/// The stuck machines are counted without a gap.
pub proof fn lemma_stuck_machine_with_count(machines: Seq<Machine>, n: int, k: nat) -> (i: int)
    requires
        0 <= n <= machines.len(),
        k < stuck_among(machines, n),
    ensures
        0 <= i < n,
        machines[i].stuck(),
        stuck_among(machines, i) == k,
    decreases n,
{
    if machines[n - 1].stuck() && k == stuck_among(machines, n - 1) {
        n - 1
    } else {
        lemma_stuck_machine_with_count(machines, n - 1, k)
    }
}

/// Every new machine that takes over from a stuck one is in the list, once, holds a processor, and
/// was not there before.
pub proof fn relieving_machines_are_listed(v: FleetView, cpus: nat, k: nat)
    requires
        v.wf(cpus),
        v.next_id + v.machines.len() <= u64::MAX,
        k < stuck_among(v.machines, v.machines.len() as int),
    ensures
        ({
            let id = (v.next_id + k) as u64;
            &&& v.find(id) is None
            &&& v.all_relieved().find(id) matches Some(m) && m.processor < cpus
            &&& v.all_relieved().listed_once(id)
        }),
{
    let w = v.all_relieved();
    let n = v.machines.len() as int;
    let id = (v.next_id + k) as u64;
    stuck_among_is_bounded(v.machines, 0, n);
    let i = lemma_stuck_machine_with_count(v.machines, n, k);
    relieving_keeps_wf(v, cpus);
    assert(w.machines[i] == v.relieved(i));
    identifier_names_one_machine(w, i);
    machines_hold_existing_processors(w, cpus, id);
}

/// A machine that is stuck when it is checked loses its processor to a new machine: its identifier
/// finds nothing any more, and the new machine holds the same processor.
pub proof fn stuck_machine_is_relieved(v: FleetView, cpus: nat, i: int)
    requires
        v.wf(cpus),
        v.next_id + v.machines.len() <= u64::MAX,
        0 <= i < v.machines.len(),
        v.machines[i].stuck(),
    ensures
        v.all_relieved().find(v.machines[i].id) is None,
        v.all_relieved().machines[i].processor == v.machines[i].processor,
        v.all_relieved().machines[i].id >= v.next_id,
        v.all_relieved().machines[i].progress,
{
    let w = v.all_relieved();
    let id = v.machines[i].id;
    stuck_among_is_bounded(v.machines, i, v.machines.len() as int);
    assert forall|j: int| 0 <= j < w.machines.len() implies (#[trigger] w.machines[j]).id
        != id by {
        stuck_among_is_bounded(v.machines, j, v.machines.len() as int);
        assert(w.machines[j] == v.relieved(j));
        assert(v.machines[i].id < v.next_id);
        if !v.machines[j].stuck() {
            assert(w.machines[j].id == v.machines[j].id);
            if i < j {
                assert(v.machines[i].id != v.machines[j].id);
            } else if j < i {
                assert(v.machines[j].id != v.machines[i].id);
            }
        }
    }
}

/// A machine that has made progress since it was last checked, or is blocking on the reactor, keeps
/// its processor.
pub proof fn progress_keeps_the_processor(v: FleetView, cpus: nat, i: int)
    requires
        v.wf(cpus),
        v.next_id + v.machines.len() <= u64::MAX,
        0 <= i < v.machines.len(),
        !v.machines[i].stuck(),
    ensures
        v.all_relieved().find(v.machines[i].id) == Some(v.machines[i].checked()),
        v.machines[i].checked().processor == v.machines[i].processor,
{
    let w = v.all_relieved();
    relieving_keeps_wf(v, cpus);
    assert(w.machines[i] == v.machines[i].checked());
    identifier_names_one_machine(w, i);
}

/// A machine that neither makes progress nor blocks on the reactor between two checks loses its
/// processor at the second.
pub proof fn silent_machine_is_relieved(v: FleetView, cpus: nat, i: int)
    requires
        v.wf(cpus),
        v.next_id + 2 * v.machines.len() <= u64::MAX,
        0 <= i < v.machines.len(),
        !v.machines[i].polling,
        !v.machines[i].stuck(),
    ensures
        v.all_relieved().all_relieved().find(v.machines[i].id) is None,
        v.all_relieved().all_relieved().machines[i].processor == v.machines[i].processor,
{
    let w = v.all_relieved();
    relieving_keeps_wf(v, cpus);
    stuck_among_is_bounded(v.machines, 0, v.machines.len() as int);
    assert(w.machines[i] == v.machines[i].checked());
    stuck_machine_is_relieved(w, cpus, i);
}

} // verus!

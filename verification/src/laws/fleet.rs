//! Laws of machines and processors.

use crate::fleet::{
    identifier_names_one_machine, lemma_stuck_machine_with_count, position,
    relieving_first_keeps_wf, relieving_keeps_wf, stuck_among, stuck_among_is_bounded, FleetView,
    Machine,
};
use vstd::prelude::*;

verus! {

/// No machine bears an identifier.
pub open spec fn absent(v: FleetView, id: u64) -> bool {
    &&& v.parked matches Some(m) ==> m.id != id
    &&& forall|i: int| 0 <= i < v.machines.len() ==> (#[trigger] v.machines[i]).id != id
}

/// The machine with an identifier is the `i`th running one.
pub open spec fn listed(v: FleetView, id: u64, i: int) -> bool {
    0 <= i < v.machines.len() && v.machines[i].id == id
}

/// A machine that is about to start: it counts as having made progress, neither blocks nor has been
/// asked to yield.
pub open spec fn about_to_start(m: Machine) -> bool {
    m.progress && !m.polling && !m.yielding
}

/// A machine that has neither made progress since it was last checked nor blocks on the reactor.
pub open spec fn silent(m: Machine) -> bool {
    !m.progress && !m.polling
}

/// The first machine that is silent is the `i`th one.
pub open spec fn first_silent(v: FleetView, i: int) -> bool {
    &&& 0 <= i < v.machines.len()
    &&& silent(v.machines[i])
    &&& forall|j: int| 0 <= j < i ==> !silent(#[trigger] v.machines[j])
}

/// No machine is silent.
pub open spec fn none_silent(v: FleetView) -> bool {
    forall|j: int| 0 <= j < v.machines.len() ==> !silent(#[trigger] v.machines[j])
}

/// A machine after it was checked and found not to be silent: its progress is used up, unless it
/// blocks on the reactor.
pub open spec fn used_up(m: Machine) -> Machine {
    if m.polling {
        m
    } else {
        Machine { progress: false, ..m }
    }
}

/// A running machine is found by its identifier, and so is the parked one; nothing is found by an
/// identifier that no machine bears.
pub proof fn machines_are_found_by_their_identifiers(v: FleetView, id: u64)
    requires
        v.distinct(),
    ensures
        forall|i: int| listed(v, id, i) ==> v.find(id) == Some(#[trigger] v.machines[i]),
        forall|i: int|
            listed(v, id, i) ==> (#[trigger] v.machines[i]).id == id && position(v.machines, id)
                == Some(i),
        v.parked is Some && v.parked->0.id == id ==> v.find(id) == v.parked,
        absent(v, id) ==> v.find(id) is None && position(v.machines, id) is None,
        v.find(id) is None ==> absent(v, id),
{
    assert forall|i: int| listed(v, id, i) implies v.find(id) == Some(#[trigger] v.machines[i])
        && position(v.machines, id) == Some(i) by {
        identifier_names_one_machine(v, i);
    }
}

/// Putting a machine in the place of the one with its identifier changes that machine alone.
pub proof fn putting_replaces_one_machine(v: FleetView, m: Machine, i: int)
    requires
        v.distinct(),
    ensures
        listed(v, m.id, i) ==> v.put(m) == (FleetView {
            machines: v.machines.update(i, m),
            ..v
        }),
        v.parked is Some && v.parked->0.id == m.id ==> v.put(m) == (FleetView {
            parked: Some(m),
            ..v
        }),
        absent(v, m.id) ==> v.put(m) == v,
{
    machines_are_found_by_their_identifiers(v, m.id);
    if listed(v, m.id, i) {
        assert(v.machines[i].id == m.id);
        identifier_names_one_machine(v, i);
    }
}

/// Starting a machine takes the last idle processor, if there is one.
pub proof fn spinning_up_takes_an_idle_processor(v: FleetView)
    requires
        v.next_id < u64::MAX,
    ensures
        v.idle.len() == 0 ==> v.spun_up() == v,
        v.idle.len() > 0 ==> {
            let w = v.spun_up();
            &&& w.idle == v.idle.subrange(0, v.idle.len() - 1)
            &&& w.machines.len() == v.machines.len() + 1
            &&& w.machines.subrange(0, v.machines.len() as int) == v.machines
            &&& w.machines.last().id == v.next_id
            &&& w.machines.last().processor == v.idle.last()
            &&& about_to_start(w.machines.last())
            &&& w.parked == v.parked
            &&& w.next_id == v.next_id + 1
        },
{
    if v.idle.len() > 0 {
        assert(v.spun_up().machines.subrange(0, v.machines.len() as int) =~= v.machines);
        assert(v.spun_up().idle =~= v.idle.subrange(0, v.idle.len() - 1));
    }
}

/// Dropping a machine makes its processor idle and the last machine take its place; retiring one
/// keeps the order of the others.
pub proof fn dropped_machine_frees_its_processor(v: FleetView, i: int)
    requires
        0 <= i < v.machines.len(),
    ensures
        v.spun_down(i).idle == v.idle + seq![v.machines[i].processor],
        v.spun_down(i).machines == v.machines.update(i, v.machines.last()).subrange(
            0,
            v.machines.len() - 1,
        ),
        v.spun_down(i).parked == v.parked,
        v.spun_down(i).next_id == v.next_id,
        v.retired(i).idle == v.idle + seq![v.machines[i].processor],
        v.retired(i).machines == v.machines.subrange(0, i) + v.machines.subrange(
            i + 1,
            v.machines.len() as int,
        ),
        v.retired(i).parked == v.parked,
        v.retired(i).next_id == v.next_id,
{
    assert(v.spun_down(i).idle =~= v.idle + seq![v.machines[i].processor]);
    assert(v.spun_down(i).machines =~= v.machines.update(i, v.machines.last()).subrange(
        0,
        v.machines.len() - 1,
    ));
    assert(v.retired(i).machines =~= v.machines.subrange(0, i) + v.machines.subrange(
        i + 1,
        v.machines.len() as int,
    ));
}

/// Parking sets a machine aside as it is, and unparking puts it behind the others as it is.
pub proof fn parked_machine_is_set_aside(v: FleetView, i: int)
    requires
        0 <= i < v.machines.len(),
    ensures
        v.parked_at(i).parked == Some(v.machines[i]),
        v.parked_at(i).machines == v.machines.update(i, v.machines.last()).subrange(
            0,
            v.machines.len() - 1,
        ),
        v.parked_at(i).idle == v.idle,
        v.parked_at(i).next_id == v.next_id,
        v.parked matches Some(m) ==> v.unparked() == (FleetView {
            machines: v.machines + seq![m],
            parked: None,
            ..v
        }),
{
    assert(v.parked_at(i).machines =~= v.machines.update(i, v.machines.last()).subrange(
        0,
        v.machines.len() - 1,
    ));
    if let Some(m) = v.parked {
        assert(v.unparked().machines =~= v.machines + seq![m]);
    }
}

/// In a new fleet every processor is idle, and there is no machine.
pub proof fn new_fleet_is_idle(cpus: nat, p: int)
    ensures
        FleetView::initial(cpus).idle.len() == cpus,
        0 <= p < cpus <= usize::MAX ==> FleetView::initial(cpus).idle[p] == p,
        FleetView::initial(cpus).machines.len() == 0,
        FleetView::initial(cpus).parked is None,
        FleetView::initial(cpus).next_id == 0,
{
}

/// The running machines of a fleet after all were checked: each silent one has lost its processor
/// to a machine that is about to start, and the others keep theirs.
pub open spec fn all_checked(v: FleetView, w: FleetView) -> bool {
    &&& w.machines.len() >= v.machines.len()
    &&& forall|i: int|
        0 <= i < v.machines.len() ==> {
            let m = #[trigger] v.machines[i];
            let n = w.machines[i];
            if silent(m) {
                &&& n.processor == m.processor
                &&& v.next_id <= n.id < w.next_id
                &&& about_to_start(n)
                &&& absent(w, m.id)
            } else {
                n == used_up(m)
            }
        }
    &&& forall|i: int, j: int|
        0 <= i < j < v.machines.len() && silent(#[trigger] v.machines[i]) && silent(
            #[trigger] v.machines[j],
        ) ==> w.machines[i].id < w.machines[j].id
}

/// Every identifier that is new is borne by a machine that is about to start, once.
pub open spec fn new_ones_start(v: FleetView, w: FleetView) -> bool {
    &&& v.next_id <= w.next_id
    &&& forall|id: u64|
        v.next_id <= id < w.next_id ==> (#[trigger] w.find(id) matches Some(m) && m.id == id
            && about_to_start(m)) && exists|i: int| #[trigger] listed(w, id, i)
}

/// Relieving all machines checks every one of them, and starts no machine but those that take over.
pub proof fn relieving_checks_every_machine(v: FleetView, cpus: nat)
    requires
        v.wf(cpus),
        v.next_id + v.machines.len() <= u64::MAX,
    ensures
        all_checked(v, v.all_relieved()),
        new_ones_start(v, v.all_relieved()),
        v.all_relieved().machines.len() == v.machines.len(),
        v.all_relieved().idle == v.idle,
        v.all_relieved().parked == v.parked,
        none_silent(v) ==> v.all_relieved().next_id == v.next_id,
{
    let w = v.all_relieved();
    let n = v.machines.len() as int;
    relieving_keeps_wf(v, cpus);
    stuck_among_is_bounded(v.machines, 0, n);
    assert forall|i: int| 0 <= i < n implies {
        let m = #[trigger] v.machines[i];
        let k = w.machines[i];
        if silent(m) {
            &&& k.processor == m.processor
            &&& v.next_id <= k.id < w.next_id
            &&& about_to_start(k)
            &&& absent(w, m.id)
        } else {
            k == used_up(m)
        }
    } by {
        stuck_among_is_bounded(v.machines, i, n);
        assert(w.machines[i] == v.relieved(i));
        let m = v.machines[i];
        if silent(m) {
            assert forall|j: int| 0 <= j < w.machines.len() implies (#[trigger] w.machines[j]).id
                != m.id by {
                stuck_among_is_bounded(v.machines, j, n);
                assert(w.machines[j] == v.relieved(j));
                assert(v.machines[i].id < v.next_id);
                if i < j {
                    assert(v.machines[i].id != v.machines[j].id);
                } else if j < i {
                    assert(v.machines[j].id != v.machines[i].id);
                }
            }
        }
    }
    assert forall|i: int, j: int|
        0 <= i < j < n && silent(#[trigger] v.machines[i]) && silent(
            #[trigger] v.machines[j],
        ) implies w.machines[i].id < w.machines[j].id by {
        stuck_among_is_bounded(v.machines, i, j);
        stuck_among_is_bounded(v.machines, j, n);
        assert(w.machines[i] == v.relieved(i));
        assert(w.machines[j] == v.relieved(j));
    }
    assert forall|id: u64| v.next_id <= id < w.next_id implies (#[trigger] w.find(id) matches Some(
        m,
    ) && m.id == id && about_to_start(m)) && exists|i: int| #[trigger] listed(w, id, i) by {
        let i = lemma_stuck_machine_with_count(v.machines, n, (id - v.next_id) as nat);
        stuck_among_is_bounded(v.machines, i, n);
        assert(w.machines[i] == v.relieved(i));
        assert(listed(w, id, i));
        identifier_names_one_machine(w, i);
    }
    if none_silent(v) && stuck_among(v.machines, n) > 0 {
        let i = lemma_stuck_machine_with_count(v.machines, n, 0);
        assert(!silent(v.machines[i]));
    }
}

/// Relieving the first silent machine checks those before it, lets a machine that is about to start
/// take over its processor, and leaves those behind it alone. If no machine is silent, all are
/// checked.
pub proof fn relieving_first_checks_up_to_a_silent_machine(v: FleetView, cpus: nat, i: int)
    requires
        v.wf(cpus),
        v.next_id < u64::MAX,
    ensures
        ({
            let w = v.first_relieved();
            &&& w.machines.len() == v.machines.len()
            &&& w.idle == v.idle
            &&& w.parked == v.parked
            &&& v.any_stuck() == !none_silent(v)
            &&& first_silent(v, i) ==> {
                &&& w.next_id == v.next_id + 1
                &&& w.machines[i].id == v.next_id
                &&& w.machines[i].processor == v.machines[i].processor
                &&& about_to_start(w.machines[i])
                &&& absent(w, v.machines[i].id)
                &&& w.find(v.next_id) == Some(w.machines[i])
                &&& forall|j: int|
                    0 <= j < i ==> #[trigger] w.machines[j] == used_up(v.machines[j])
                &&& forall|j: int|
                    i < j < v.machines.len() ==> #[trigger] w.machines[j] == v.machines[j]
            }
            &&& none_silent(v) ==> {
                &&& w.next_id == v.next_id
                &&& forall|j: int|
                    0 <= j < v.machines.len() ==> #[trigger] w.machines[j] == used_up(
                        v.machines[j],
                    )
            }
        }),
{
    let w = v.first_relieved();
    relieving_first_keeps_wf(v, cpus);
    if none_silent(v) {
        if v.any_stuck() {
            let k = choose|k: int| v.first_stuck(k);
            assert(!silent(v.machines[k]));
        }
    } else {
        let k = choose|k: int| 0 <= k < v.machines.len() && silent(#[trigger] v.machines[k]);
        let f = lemma_first_stuck(v, k);
    }
    if first_silent(v, i) {
        assert(v.first_stuck(i));
        let k = choose|k: int| v.first_stuck(k);
        assert(k == i) by {
            if i < k {
                assert(!v.machines[i].stuck());
            } else if k < i {
                assert(!silent(v.machines[k]));
            }
        }
        identifier_names_one_machine(w, i);
        assert forall|j: int| 0 <= j < w.machines.len() implies (#[trigger] w.machines[j]).id
            != v.machines[i].id by {
            if j < i {
                assert(v.machines[j].id != v.machines[i].id);
            } else if i < j {
                assert(v.machines[i].id != v.machines[j].id);
            } else {
                assert(v.machines[i].id < v.next_id);
            }
        }
    }
}

/// Where a machine is stuck, there is a first one.
proof fn lemma_first_stuck(v: FleetView, k: int) -> (f: int)
    requires
        0 <= k < v.machines.len(),
        v.machines[k].stuck(),
    ensures
        v.first_stuck(f),
    decreases k,
{
    if forall|j: int| 0 <= j < k ==> !(#[trigger] v.machines[j]).stuck() {
        k
    } else {
        let j = choose|j: int| 0 <= j < k && (#[trigger] v.machines[j]).stuck();
        lemma_first_stuck(v, j)
    }
}

/// A machine that made progress since it was last checked, or blocks on the reactor, is left its
/// processor by a check; one that did neither since the last but one check is not.
pub proof fn only_silent_machines_are_relieved(v: FleetView, cpus: nat, i: int)
    requires
        v.wf(cpus),
        v.next_id + v.machines.len() <= u64::MAX,
        v.next_id < u64::MAX,
        0 <= i < v.machines.len(),
        v.machines[i].progress || v.machines[i].polling,
    ensures
        v.all_relieved().find(v.machines[i].id) == Some(used_up(v.machines[i])),
        v.first_relieved().find(v.machines[i].id) matches Some(m) && m.processor
            == v.machines[i].processor,
        v.first_relieved().machines[i].id == v.machines[i].id,
        v.first_relieved().machines[i].processor == v.machines[i].processor,
{
    relieving_checks_every_machine(v, cpus);
    relieving_keeps_wf(v, cpus);
    relieving_first_keeps_wf(v, cpus);
    identifier_names_one_machine(v.all_relieved(), i);
    let w = v.first_relieved();
    if v.any_stuck() {
        let k = choose|k: int| v.first_stuck(k);
        assert(first_silent(v, k)) by {
            assert forall|j: int| 0 <= j < k implies !silent(#[trigger] v.machines[j]) by {
                assert(!v.machines[j].stuck());
            }
        }
        relieving_first_checks_up_to_a_silent_machine(v, cpus, k);
    } else {
        relieving_first_checks_up_to_a_silent_machine(v, cpus, i);
    }
    identifier_names_one_machine(w, i);
}

} // verus!

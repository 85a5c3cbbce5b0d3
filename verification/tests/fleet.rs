use async_std::backoff::Backoff;
use async_std::cpus::{at_least_one, available};
use async_std::fleet::{Fleet, Machine};

#[test]
fn machines_start_on_the_last_idle_processor() {
    let mut f = Fleet::new(2);
    assert_eq!(f.len(), 0);
    assert_eq!(f.spin_up(), Some(0));
    assert_eq!(f.spin_up(), Some(1));
    assert_eq!(f.spin_up(), None);
    assert_eq!(f.len(), 2);
    assert_eq!(f.find(0), Some(Machine::new(0, 1)));
    assert_eq!(f.find(1), Some(Machine::new(1, 0)));
    assert_eq!(f.find(2), None);
}

#[test]
fn new_machine_has_made_progress() {
    let m = Machine::new(7, 3);
    assert_eq!(m.id, 7);
    assert_eq!(m.processor, 3);
    assert!(m.progress);
    assert!(!m.polling);
    assert!(!m.yielding);
}

#[test]
fn silent_machines_are_relieved_at_the_second_check() {
    let mut f = Fleet::new(3);
    f.spin_up();
    f.spin_up();
    f.spin_up();
    assert_eq!(f.relieve_all(), vec![]);
    // Only machine 1 makes progress.
    let m = f.find(1).unwrap();
    assert!(!m.progress);
    f.put(Machine { progress: true, ..m });
    assert_eq!(f.relieve_all(), vec![3, 4]);
    assert_eq!(f.find(0), None);
    assert_eq!(f.find(2), None);
    assert_eq!(f.find(1).unwrap().processor, 1);
    assert_eq!(f.find(3), Some(Machine::new(3, 2)));
    assert_eq!(f.find(4), Some(Machine::new(4, 0)));
}

#[test]
fn blocking_machines_are_not_relieved() {
    let mut f = Fleet::new(1);
    f.spin_up();
    let m = f.find(0).unwrap();
    f.put(Machine { polling: true, progress: false, ..m });
    assert_eq!(f.relieve_all(), vec![]);
    assert_eq!(f.relieve_first(), None);
    assert_eq!(f.find(0).unwrap().processor, 0);
}

#[test]
fn first_stuck_machine_is_relieved_alone() {
    let mut f = Fleet::new(3);
    f.spin_up();
    f.spin_up();
    f.spin_up();
    assert_eq!(f.relieve_first(), None);
    let m = f.find(0).unwrap();
    f.put(Machine { progress: true, ..m });
    assert_eq!(f.relieve_first(), Some(3));
    // Machine 0 was checked, machine 1 replaced, and machine 2 not looked at.
    assert!(!f.find(0).unwrap().progress);
    assert_eq!(f.find(1), None);
    assert!(!f.find(2).unwrap().progress);
    assert_eq!(f.find(3), Some(Machine::new(3, 1)));
}

#[test]
fn spinning_down_makes_the_processor_idle() {
    let mut f = Fleet::new(3);
    f.spin_up();
    f.spin_up();
    f.spin_up();
    f.spin_down(0);
    f.spin_down(0);
    assert_eq!(f.len(), 2);
    assert_eq!(f.find(0), None);
    // Processor 2 was the one of machine 0.
    assert_eq!(f.spin_up(), Some(3));
    assert_eq!(f.find(3).unwrap().processor, 2);
}

#[test]
fn retiring_makes_the_processor_idle() {
    let mut f = Fleet::new(2);
    f.spin_up();
    f.spin_up();
    f.retire(1);
    f.retire(9);
    assert_eq!(f.len(), 1);
    assert_eq!(f.spin_up(), Some(2));
    assert_eq!(f.find(2).unwrap().processor, 0);
}

#[test]
fn parked_machine_keeps_its_processor() {
    let mut f = Fleet::new(2);
    f.spin_up();
    f.spin_up();
    assert!(!f.park(5));
    assert!(f.park(0));
    assert!(f.has_parked());
    assert_eq!(f.len(), 1);
    assert_eq!(f.find(0).unwrap().processor, 1);
    f.relieve_all();
    assert_eq!(f.relieve_all(), vec![2]);
    assert!(!f.unpark(1));
    assert!(f.unpark(0));
    assert!(!f.has_parked());
    assert_eq!(f.find(0).unwrap().processor, 1);
    assert_eq!(f.len(), 2);
}

#[test]
fn identifiers_are_plentiful() {
    let f = Fleet::new(1);
    assert!(f.can_start(u64::MAX));
    let mut f = Fleet::new(1);
    f.spin_up();
    assert!(f.can_start(u64::MAX - 1));
    assert!(!f.can_start(u64::MAX));
}

#[test]
fn delay_doubles_after_eleven_idle_rounds() {
    let mut b = Backoff::new();
    for _ in 0..11 {
        assert_eq!(b.next(1000), 1000);
    }
    assert_eq!(b.next(1000), 2000);
    assert_eq!(b.next(1000), 4000);
    assert_eq!(b.next(1000), 8000);
    assert_eq!(b.next(1000), 10_000);
    assert_eq!(b.next(1000), 10_000);
    b.reset();
    assert_eq!(b.next(1000), 1000);
}

#[test]
fn delay_grows_from_the_shortest() {
    let mut b = Backoff::new();
    for _ in 0..11 {
        assert_eq!(b.next(500), 500);
    }
    let grown: Vec<u64> = (0..6).map(|_| b.next(500)).collect();
    assert_eq!(grown, vec![1000, 2000, 4000, 8000, 10_000, 10_000]);
}

#[test]
fn there_is_at_least_one_cpu() {
    assert_eq!(at_least_one(0), 1);
    assert_eq!(at_least_one(1), 1);
    assert_eq!(at_least_one(12), 12);
    assert_eq!(available(), at_least_one(num_cpus::get()));
}

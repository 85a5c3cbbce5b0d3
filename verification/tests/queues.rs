use async_std::processor::{Processor, Queues};
use async_std::queue::{GlobalQueue, LocalQueue, Moved, Stolen};

fn drain(q: &mut LocalQueue) -> Vec<u64> {
    let mut tasks = Vec::new();
    while let Some(task) = q.pop() {
        tasks.push(task);
    }
    tasks
}

#[test]
fn local_queue_is_first_in_first_out() {
    let mut q = LocalQueue::new();
    assert_eq!(q.pop(), None);
    for task in [3, 1, 2] {
        q.push(task);
    }
    assert_eq!(drain(&mut q), vec![3, 1, 2]);
    assert_eq!(q.pop(), None);
}

#[test]
fn local_queue_grows_and_shrinks() {
    let mut q = LocalQueue::new();
    for task in 0..1000 {
        q.push(task);
    }
    assert_eq!(drain(&mut q), (0..1000).collect::<Vec<u64>>());
}

#[test]
fn local_queue_steals_the_front_and_a_batch_behind_it() {
    let mut victim = LocalQueue::new();
    let mut thief = LocalQueue::new();
    assert_eq!(thief.steal_from(&mut victim), Stolen::Empty);

    thief.push(100);
    for task in 1..=6 {
        victim.push(task);
    }
    assert_eq!(thief.steal_from(&mut victim), Stolen::Success(1));

    let mine = drain(&mut thief);
    let theirs = drain(&mut victim);
    assert_eq!(mine[0], 100);
    let mut rest = mine[1..].to_vec();
    rest.extend(theirs);
    assert_eq!(rest, vec![2, 3, 4, 5, 6]);
}

#[test]
fn global_queue_hands_out_tasks_in_order() {
    let mut global = GlobalQueue::new();
    let mut local = LocalQueue::new();
    assert_eq!(global.steal_batch_and_pop(&mut local), Stolen::Empty);

    // More tasks than fit into one block of the queue.
    for task in 0..200 {
        global.push(task);
    }
    let mut seen = Vec::new();
    loop {
        match global.steal_batch_and_pop(&mut local) {
            Stolen::Success(task) => {
                seen.push(task);
                seen.extend(drain(&mut local));
            }
            Stolen::Empty => break,
            Stolen::Retry => {}
        }
    }
    assert_eq!(seen, (0..200).collect::<Vec<u64>>());
}

#[test]
fn global_queue_moves_batches_in_order() {
    let mut global = GlobalQueue::new();
    let mut local = LocalQueue::new();
    assert_eq!(global.steal_batch(&mut local), Moved::Empty);

    for task in 0..150 {
        global.push(task);
    }
    local.push(999);
    let mut seen = Vec::new();
    while global.steal_batch(&mut local) != Moved::Empty {
        seen.extend(drain(&mut local));
    }
    let mut expected = vec![999];
    expected.extend(0..150);
    assert_eq!(seen, expected);
}

#[test]
fn processor_runs_the_slot_first() {
    let mut p = Processor::new();
    assert_eq!(p.pop_task(), None);
    assert!(!p.schedule(1));
    assert!(p.schedule(2));
    assert!(p.schedule(3));
    assert_eq!(p.pop_task(), Some(3));
    assert_eq!(p.pop_task(), Some(1));
    assert_eq!(p.pop_task(), Some(2));
    assert_eq!(p.pop_task(), None);
}

#[test]
fn processor_flushes_the_slot_to_the_back() {
    let mut p = Processor::new();
    assert!(!p.flush_slot());
    p.schedule(1);
    p.schedule(2);
    assert!(p.flush_slot());
    assert!(!p.flush_slot());
    assert_eq!(p.take_slot(), None);
    assert_eq!(p.pop_task(), Some(1));
    assert_eq!(p.pop_task(), Some(2));
    p.schedule(4);
    assert_eq!(p.take_slot(), Some(4));
}

#[test]
fn search_nearby_prefers_slot_then_queue_then_global() {
    let mut q = Queues::new(2);
    assert_eq!(q.cpus(), 2);
    assert_eq!(q.find_nearby(0), Stolen::Empty);
    q.push(30);
    q.schedule(0, 20);
    q.schedule(0, 10);
    assert_eq!(q.find_nearby(0), Stolen::Success(10));
    assert_eq!(q.find_nearby(0), Stolen::Success(20));
    assert_eq!(q.find_nearby(0), Stolen::Success(30));
    assert_eq!(q.find_nearby(0), Stolen::Empty);
}

#[test]
fn search_at_others_begins_where_told() {
    for (start, expected) in [(0, 1), (1, 1), (2, 2), (3, 3)] {
        let mut q = Queues::new(4);
        for (p, task) in [(1, 1), (2, 2), (3, 3)] {
            q.schedule(p, task);
            assert!(q.flush_slot(p));
        }
        assert_eq!(q.steal_from_others(0, start), Stolen::Success(expected));
    }
}

#[test]
fn search_at_others_wraps_around() {
    let mut q = Queues::new(4);
    q.schedule(1, 7);
    q.flush_slot(1);
    assert_eq!(q.steal_from_others(3, 2), Stolen::Success(7));
    assert_eq!(q.steal_from_others(3, 2), Stolen::Empty);
}

#[test]
fn search_at_others_includes_the_own_queue() {
    let mut q = Queues::new(3);
    for task in 1..=4 {
        q.schedule(2, task);
    }
    q.flush_slot(2);
    // Its own queue gives one task and keeps the others where they are.
    assert_eq!(q.steal_from_others(2, 0), Stolen::Success(1));
    assert_eq!(q.find_nearby(2), Stolen::Success(2));
    assert_eq!(q.find_nearby(2), Stolen::Success(3));
    assert_eq!(q.find_nearby(2), Stolen::Success(4));
}

#[test]
fn search_at_others_leaves_slots_alone() {
    let mut q = Queues::new(2);
    q.schedule(1, 5);
    assert_eq!(q.find_in_others(0, 1), Stolen::Empty);
    assert_eq!(q.find_in_others(1, 0), Stolen::Success(5));
}

#[test]
fn search_in_slot_or_others_skips_nothing() {
    let mut q = Queues::new(2);
    q.schedule(0, 1);
    q.schedule(0, 2);
    assert_eq!(q.find_in_slot_or_others(0, 1), Stolen::Success(2));
    assert_eq!(q.find_in_slot_or_others(0, 1), Stolen::Success(1));
    assert_eq!(q.find_in_slot_or_others(0, 1), Stolen::Empty);
}

#[test]
fn search_everywhere_looks_at_siblings_last() {
    let mut q = Queues::new(2);
    q.schedule(1, 3);
    q.flush_slot(1);
    q.push(2);
    q.schedule(0, 1);
    assert_eq!(q.find_task(0, true, 1), Stolen::Success(1));
    assert_eq!(q.find_task(0, true, 1), Stolen::Success(2));
    assert_eq!(q.find_task(0, false, 1), Stolen::Empty);
    assert_eq!(q.find_task(0, true, 1), Stolen::Success(3));
    assert_eq!(q.find_task(0, true, 1), Stolen::Empty);
}

#[test]
fn refill_moves_tasks_from_the_global_queue() {
    let mut q = Queues::new(1);
    assert_eq!(q.steal_batch(0), Moved::Empty);
    q.push(1);
    assert_eq!(q.steal_batch(0), Moved::Success);
    assert_eq!(q.steal_batch(0), Moved::Empty);
    assert_eq!(q.find_nearby(0), Stolen::Success(1));
}

#[test]
fn no_task_is_lost_between_queues() {
    let mut q = Queues::new(3);
    for task in 0..90 {
        match task % 3 {
            0 => q.push(task),
            1 => {
                q.schedule(1, task);
            }
            _ => {
                q.schedule(2, task);
            }
        }
    }
    q.flush_slot(1);
    q.flush_slot(2);
    let mut seen = Vec::new();
    let mut start = 0;
    loop {
        match q.find_task(0, true, start) {
            Stolen::Success(task) => seen.push(task),
            Stolen::Empty => break,
            Stolen::Retry => {}
        }
        start = (start + 1) % 3;
    }
    seen.sort();
    assert_eq!(seen, (0..90).collect::<Vec<u64>>());
}

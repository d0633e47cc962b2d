use std::cell::RefCell;
use std::rc::Rc;

use epoch_reclaim::queue::Queue;

/// Records into a shared log which item was destroyed, and when.
struct DropItem {
    id: usize,
    log: Rc<RefCell<Vec<usize>>>,
}

impl Drop for DropItem {
    fn drop(&mut self) {
        self.log.borrow_mut().push(self.id);
    }
}

fn drop_item(id: usize, log: &Rc<RefCell<Vec<usize>>>) -> DropItem {
    DropItem { id, log: Rc::clone(log) }
}

#[test]
fn no_notification_before_a_block_fills() {
    let mut q: Queue<usize> = Queue::new();
    for i in 0..31 {
        assert_eq!(q.push(i), None);
    }
    assert_eq!(q.len(), 31);
    assert_eq!(q.total_pushed(), 31);
}

#[test]
fn thirty_second_push_emits_notification_one() {
    // Push 32 items on one producer: exactly one notification, with id 1,
    // immediately after the 32nd push.
    let mut q: Queue<usize> = Queue::new();
    let mut notes = Vec::new();
    for i in 0..32 {
        if let Some(id) = q.push(i) {
            notes.push((i, id));
        }
    }
    assert_eq!(notes, vec![(31, 1)]);
    assert_eq!(q.len(), 32);
}

#[test]
fn one_notification_per_full_block_with_increasing_ids() {
    // Pushing exactly 32 * 3 items triggers exactly 3 notifications, with
    // strictly increasing ids 1, 2, 3.
    let mut q: Queue<usize> = Queue::new();
    let mut notes = Vec::new();
    for i in 0..96 {
        if let Some(id) = q.push(i) {
            notes.push(id);
        }
    }
    assert_eq!(notes, vec![1, 2, 3]);
}

#[test]
fn reclamation_destroys_items_in_fifo_order() {
    let log = Rc::new(RefCell::new(Vec::new()));
    let mut q: Queue<DropItem> = Queue::new();
    for i in 0..64 {
        q.push(drop_item(i, &log));
    }
    assert!(log.borrow().is_empty());
    q.drop_bags_per_block();
    assert_eq!(*log.borrow(), (0..32).collect::<Vec<_>>());
    q.drop_bags_per_block();
    assert_eq!(*log.borrow(), (0..64).collect::<Vec<_>>());
    assert_eq!(q.len(), 0);
}

#[test]
fn teardown_destroys_every_item_exactly_once() {
    // Full queue teardown with no further pin activity: every pushed item's
    // destructor runs exactly once, partial tail block included.
    let log = Rc::new(RefCell::new(Vec::new()));
    let mut q: Queue<DropItem> = Queue::new();
    for i in 0..40 {
        q.push(drop_item(i, &log));
    }
    q.drop_all_blocks();
    assert_eq!(q.len(), 0);
    let seen = log.borrow().clone();
    assert_eq!(seen.len(), 40);
    for i in 0..40 {
        assert_eq!(seen.iter().filter(|&&x| x == i).count(), 1);
    }
}

#[test]
fn dropping_the_queue_destroys_the_remaining_items() {
    let log = Rc::new(RefCell::new(Vec::new()));
    let mut q: Queue<DropItem> = Queue::new();
    for i in 0..33 {
        q.push(drop_item(i, &log));
    }
    drop(q);
    assert_eq!(seen_count(&log), 33);
}

fn seen_count(log: &Rc<RefCell<Vec<usize>>>) -> usize {
    log.borrow().len()
}

#[test]
fn two_producers_keep_their_own_suborders() {
    // Two producers push 20 items each (40 in all, more than one block); the
    // drained order is one interleaving that keeps each producer's own
    // sub-sequence in order.
    let log = Rc::new(RefCell::new(Vec::new()));
    let mut q: Queue<DropItem> = Queue::new();
    // Producer A uses ids 0..20, producer B ids 100..120; their pushes
    // interleave.
    for i in 0..20 {
        q.push(drop_item(i, &log));
        q.push(drop_item(100 + i, &log));
    }
    assert_eq!(q.len(), 40);
    q.drop_all_blocks();
    let seen = log.borrow().clone();
    assert_eq!(seen.len(), 40);
    let a: Vec<usize> = seen.iter().copied().filter(|&x| x < 100).collect();
    let b: Vec<usize> = seen.iter().copied().filter(|&x| x >= 100).collect();
    assert_eq!(a, (0..20).collect::<Vec<_>>());
    assert_eq!(b, (100..120).collect::<Vec<_>>());
}

#[test]
fn queue_is_reusable_after_teardown() {
    let mut q: Queue<usize> = Queue::new();
    for i in 0..50 {
        q.push(i);
    }
    q.drop_all_blocks();
    assert_eq!(q.len(), 0);
    assert_eq!(q.push(7), None);
    assert_eq!(q.len(), 1);
}

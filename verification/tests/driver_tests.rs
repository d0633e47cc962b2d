use core::sync::atomic::Ordering;
use std::cell::RefCell;
use std::rc::Rc;

use epoch_reclaim::collector::Collector;
use epoch_reclaim::driver::Driver;

struct DropItem {
    id: usize,
    log: Rc<RefCell<Vec<usize>>>,
}

impl Drop for DropItem {
    fn drop(&mut self) {
        self.log.borrow_mut().push(self.id);
    }
}

fn drop_item(id: usize, log: &Rc<RefCell<Vec<usize>>>) -> DropItem {
    DropItem { id, log: Rc::clone(log) }
}

#[test]
fn the_epoch_advances_by_one_per_notification() {
    // Successive loads of the global epoch never decrease.
    let mut c: Collector<usize> = Collector::new();
    let mut d = Driver::new();
    let h = c.register();
    let g = h.pin(&mut c.global);
    for i in 0..64 {
        c.global.defer(i, &g);
    }
    c.global.unpin(g);
    let driver_handle = c.register();
    let mut last = c.global.load_epoch(Ordering::Acquire).unpinned();
    for _ in 0..40 {
        d.on_notification(&mut c.global, &driver_handle, 2);
        let now = c.global.load_epoch(Ordering::Acquire).unpinned();
        assert!(now > last);
        assert_eq!(now, last + 1);
        last = now;
    }
}

#[test]
fn a_held_guard_blocks_reclamation_until_released() {
    // Hold a guard, defer a full block, advance the driver far past the
    // slack window: the block stays.  Release the guard, advance once more:
    // the block is reclaimed.
    let log = Rc::new(RefCell::new(Vec::new()));
    let mut c: Collector<DropItem> = Collector::new();
    let mut d = Driver::new();
    let producer = c.register();
    let driver_handle = c.register();

    // Pinned while the global epoch is 0: the snapshot is 0.
    let guard = producer.pin(&mut c.global);
    let mut note = None;
    for i in 0..32 {
        if let Some(id) = c.global.defer(drop_item(i, &log), &guard) {
            note = Some(id);
        }
    }
    assert_eq!(note, Some(1));

    // 16 epochs of slack, and a few more on top: with the guard still held
    // at snapshot 0, the safety gate never opens and nothing is destroyed.
    for _ in 0..20 {
        d.on_notification(&mut c.global, &driver_handle, 1);
        assert!(log.borrow().is_empty());
    }
    assert_eq!(c.global.garbage_count(), 32);

    // Release the guard and advance one more epoch: the block goes, its
    // items destroyed in push order.
    c.global.unpin(guard);
    d.on_notification(&mut c.global, &driver_handle, 1);
    assert_eq!(*log.borrow(), (0..32).collect::<Vec<_>>());
    assert_eq!(c.global.garbage_count(), 0);
}

#[test]
fn blocks_sealed_in_one_tick_are_reclaimed_as_one_batch() {
    // A burst that seals several blocks before the driver reacts is merged
    // into a single pending entry and reclaimed in one pass.
    let log = Rc::new(RefCell::new(Vec::new()));
    let mut c: Collector<DropItem> = Collector::new();
    let mut d = Driver::new();
    let producer = c.register();
    let driver_handle = c.register();

    let guard = producer.pin(&mut c.global);
    for i in 0..64 {
        c.global.defer(drop_item(i, &log), &guard);
    }
    c.global.unpin(guard);

    // The driver first hears of block 2: both sealed blocks enter one entry.
    for step in 1..=17 {
        d.on_notification(&mut c.global, &driver_handle, 2);
        let _ = step;
        assert!(log.borrow().is_empty());
    }
    // One more epoch puts the entry past the slack window; both blocks are
    // reclaimed together.
    d.on_notification(&mut c.global, &driver_handle, 2);
    assert_eq!(*log.borrow(), (0..64).collect::<Vec<_>>());
}

#[test]
fn stale_notifications_do_not_grow_the_pending_list() {
    let mut c: Collector<usize> = Collector::new();
    let mut d = Driver::new();
    let driver_handle = c.register();
    let producer = c.register();
    let g = producer.pin(&mut c.global);
    for i in 0..32 {
        c.global.defer(i, &g);
    }
    c.global.unpin(g);

    d.on_notification(&mut c.global, &driver_handle, 1);
    assert_eq!(d.pending.len(), 1);
    // Repeats of an already-seen id advance the epoch but record nothing.
    d.on_notification(&mut c.global, &driver_handle, 1);
    assert_eq!(d.pending.len(), 1);
    assert_eq!(d.max_block_id, 1);
}

#[test]
fn a_burst_of_twenty_blocks_outlives_a_held_guard() {
    // Twenty full blocks deferred under one guard: however many epochs the
    // driver advances, not one destructor runs before the guard is released
    // and the slack window has elapsed on top.
    let log = Rc::new(RefCell::new(Vec::new()));
    let mut c: Collector<DropItem> = Collector::new();
    let mut d = Driver::new();
    let producer = c.register();
    let driver_handle = c.register();

    let guard = producer.pin(&mut c.global);
    let mut notes = Vec::new();
    for i in 0..(32 * 20) {
        if let Some(id) = c.global.defer(drop_item(i, &log), &guard) {
            notes.push(id);
        }
    }
    assert_eq!(notes, (1..=20).collect::<Vec<_>>());

    for id in notes {
        d.on_notification(&mut c.global, &driver_handle, id);
        assert!(log.borrow().is_empty());
    }
    for _ in 0..40 {
        d.on_notification(&mut c.global, &driver_handle, 20);
        assert!(log.borrow().is_empty());
    }

    // The twenty blocks entered the pending list one epoch apart, so they
    // leave it one batch per further advancement, oldest first.
    c.global.unpin(guard);
    for step in 1..=20 {
        d.on_notification(&mut c.global, &driver_handle, 20);
        assert_eq!(log.borrow().len(), 32 * step);
    }
    assert_eq!(*log.borrow(), (0..32 * 20).collect::<Vec<_>>());
    assert_eq!(c.global.garbage_count(), 0);
}

use core::sync::atomic::Ordering;
use epoch_reclaim::collector::Collector;

#[test]
fn a_fresh_collector_is_empty() {
    let c: Collector<usize> = Collector::new();
    assert_eq!(c.global.load_epoch(Ordering::Relaxed).unpinned(), 0);
    assert_eq!(c.global.n_participants(), 0);
    assert_eq!(c.global.garbage_count(), 0);
}

#[test]
fn registration_hands_out_distinct_slots() {
    let mut c: Collector<usize> = Collector::new();
    let h1 = c.register();
    let h2 = c.register();
    assert_ne!(h1.slot_index(), h2.slot_index());
    assert_eq!(c.global.n_participants(), 2);
}

#[test]
fn pin_and_unpin_toggle_is_pinned() {
    let mut c: Collector<usize> = Collector::new();
    let h = c.register();
    assert!(!h.is_pinned(&c.global));
    let g = h.pin(&mut c.global);
    assert!(h.is_pinned(&c.global));
    c.global.unpin(g);
    assert!(!h.is_pinned(&c.global));
}

#[test]
fn pinning_is_reentrant() {
    let mut c: Collector<usize> = Collector::new();
    let h = c.register();
    let g1 = h.pin(&mut c.global);
    let g2 = h.pin(&mut c.global);
    assert_eq!(c.global.pin_depth(h.slot_index()), 2);
    c.global.unpin(g2);
    assert!(h.is_pinned(&c.global));
    c.global.unpin(g1);
    assert!(!h.is_pinned(&c.global));
}

#[test]
fn deferring_32_items_seals_one_block() {
    let mut c: Collector<usize> = Collector::new();
    let h = c.register();
    let g = h.pin(&mut c.global);
    let mut notes = Vec::new();
    for i in 0..32 {
        if let Some(id) = c.global.defer(i, &g) {
            notes.push(id);
        }
    }
    assert_eq!(notes, vec![1]);
    assert_eq!(c.global.garbage_count(), 32);
    assert_eq!(c.global.deferred_total(), 32);
    c.global.unpin(g);
}

#[test]
fn safety_gate_waits_for_pinned_participants() {
    let mut c: Collector<usize> = Collector::new();
    let reader = c.register();
    let driver = c.register();
    // The reader pins itself while the global epoch is still 0.
    let rg = reader.pin(&mut c.global);
    c.global.store_epoch(1, Ordering::Release);
    let dg = driver.pin(&mut c.global);
    // The reader's snapshot (0) is older than the target epoch 1.
    assert!(!c.global.try_until_epoch(1, &dg));
    // Every participant has reached 0, though.
    assert!(c.global.try_until_epoch(0, &dg));
    // After the reader unpins, nothing holds the target epoch back.
    c.global.unpin(rg);
    assert!(c.global.try_until_epoch(1, &dg));
    c.global.unpin(dg);
}

#[test]
fn released_handles_do_not_hold_the_gate() {
    let mut c: Collector<usize> = Collector::new();
    let reader = c.register();
    let driver = c.register();
    let rg = reader.pin(&mut c.global);
    c.global.store_epoch(1, Ordering::Release);
    let dg = driver.pin(&mut c.global);
    assert!(!c.global.try_until_epoch(1, &dg));
    c.global.unpin(rg);
    reader.release(&mut c.global);
    assert!(c.global.try_until_epoch(1, &dg));
    c.global.unpin(dg);
}

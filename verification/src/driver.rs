//! The reclamation driver.
//!
//! A single dedicated background task consumes "block sealed" notifications.
//! For each one it advances the global epoch, records how many new blocks
//! were sealed and at which epoch, and — once the oldest recorded batch is
//! older than the slack window — reclaims exactly that many blocks from the
//! garbage queue, after the safety gate has confirmed that every pinned
//! participant has observed an epoch at least as new as the batch's.
//!
//! The decision logic lives here as one verified transition per
//! notification; the hosting loop that blocks on the channel and feeds the
//! notifications in stays outside.

use vstd::prelude::*;
use crate::collector::LocalHandle;
use crate::epoch::sentinel;
use crate::internal::Global;
use crate::queue::BLOCK_CAP;
use core::sync::atomic::Ordering;

verus! {

/// The reclamation slack window: how many epoch advancements reclamation is
/// allowed to lag behind production, amortizing the safety wait over many
/// blocks.
pub const COLLECT_BLOCKS: usize = 16;

/// One entry of the driver's pending list: `blocks` sealed blocks, the
/// newest of which was recorded at `epoch`.  A burst of blocks sealed within
/// one epoch tick is merged into a single entry.
pub struct PendingBatch {
    /// How many sealed blocks the entry covers.
    pub blocks: usize,
    /// The epoch at which the entry was recorded.
    pub epoch: usize,
}

/// The number of blocks a pending list covers in total.
pub open spec fn batch_total(s: Seq<PendingBatch>) -> int
    decreases s.len(),
{
    if s.len() == 0 {
        0
    } else {
        s[0].blocks + batch_total(s.skip(1))
    }
}

proof fn lemma_batch_total_nonneg(s: Seq<PendingBatch>)
    ensures
        batch_total(s) >= 0,
    decreases s.len(),
{
    if s.len() > 0 {
        lemma_batch_total_nonneg(s.skip(1));
    }
}

proof fn lemma_batch_total_push(s: Seq<PendingBatch>, b: PendingBatch)
    ensures
        batch_total(s.push(b)) == batch_total(s) + b.blocks,
    decreases s.len(),
{
    if s.len() == 0 {
        assert(s.push(b)[0] == b);
        assert(s.push(b).skip(1).len() == 0);
        assert(batch_total(s.push(b).skip(1)) == 0);
        assert(batch_total(s.push(b)) == b.blocks + 0);
    } else {
        assert(s.push(b)[0] == s[0]);
        assert(s.push(b).skip(1) =~= s.skip(1).push(b));
        lemma_batch_total_push(s.skip(1), b);
    }
}

/// The state of the reclamation driver.
pub struct Driver {
    /// The epoch the driver last published into the global epoch cell.
    pub epoch: usize,
    /// The largest sealed-block id seen so far.
    pub max_block_id: usize,
    /// The sealed blocks not yet reclaimed, oldest first.
    pub pending: Vec<PendingBatch>,
}

impl Driver {
    /// The coupling between the driver's bookkeeping and the shared state it
    /// drives: the driver's epoch is the published one; every sealed block it
    /// was notified of was really filled; and the blocks already reclaimed
    /// are exactly the acknowledged ones that have left the pending list.
    pub open spec fn inv<T>(&self, g: Global<T>) -> bool {
        &&& g.wf()
        &&& self.epoch as nat == g.epoch_value()
        &&& (self.max_block_id as int) * (BLOCK_CAP as int) <= g.garbage_pushed()
        &&& g.garbage_reclaimed() == (BLOCK_CAP as int) * (self.max_block_id - batch_total(
            self.pending@,
        ))
        &&& (forall|i: int| 0 <= i < self.pending@.len() ==> (#[trigger] self.pending@[i].blocks) >= 1)
        &&& (forall|i: int|
            0 <= i < self.pending@.len() ==> (#[trigger] self.pending@[i].epoch) <= self.epoch)
    }

    /// Creates the driver state for a fresh collector: epoch zero, nothing
    /// seen, nothing pending.
    pub fn new() -> (d: Driver)
        ensures
            d.epoch == 0,
            d.max_block_id == 0,
            d.pending@.len() == 0,
    {
        Driver { epoch: 0, max_block_id: 0, pending: Vec::new() }
    }

    /// Handles one "block sealed" notification carrying `block_id`.
    ///
    /// Advances the global epoch by one, pins the driver's own participant,
    /// records the newly sealed blocks when the id is a new maximum, and
    /// reclaims the oldest pending batch when it has expired the slack
    /// window and every other live participant has either no pin snapshot or
    /// one at least as new as the batch's epoch.  If some participant is
    /// still pinned at an older epoch, nothing is reclaimed: the batch stays
    /// pending and the attempt is repeated on a later notification.
    pub fn on_notification<T>(
        &mut self,
        global: &mut Global<T>,
        handle: &LocalHandle,
        block_id: usize,
    )
        requires
            old(self).inv(*old(global)),
            old(self).epoch + 1 < usize::MAX,
            handle.slot_id() < old(global).n_locals(),
            old(global).live_of(handle.slot_id() as int),
            old(global).depth_of(handle.slot_id() as int) == 0,
            block_id > old(self).max_block_id ==> (block_id as int) * (BLOCK_CAP as int) <= old(
                global,
            ).garbage_pushed(),
        ensures
            final(self).inv(*final(global)),
            final(self).epoch == old(self).epoch + 1,
            final(global).epoch_value() == final(self).epoch as nat,
            final(global).epoch_value() == old(global).epoch_value() + 1,
            final(global).n_locals() == old(global).n_locals(),
            Global::<T>::same_locals_except(*old(global), *final(global), handle.slot_id() as int),
            final(global).depth_of(handle.slot_id() as int) == 0,
            final(global).snapshot_of(handle.slot_id() as int) == sentinel(),
            final(global).live_of(handle.slot_id() as int),
            final(global).garbage_pushed() == old(global).garbage_pushed(),
            final(self).max_block_id == if block_id > old(self).max_block_id {
                block_id
            } else {
                old(self).max_block_id
            },
            ({
                let recorded = if block_id > old(self).max_block_id {
                    old(self).pending@.push(
                        (PendingBatch {
                            blocks: (block_id - old(self).max_block_id) as usize,
                            epoch: (old(self).epoch + 1) as usize,
                        }),
                    )
                } else {
                    old(self).pending@
                };
                let reclaim = recorded.len() > 0 && old(self).epoch + 1 - recorded[0].epoch
                    > COLLECT_BLOCKS && old(global).others_reached(
                    recorded[0].epoch as nat,
                    handle.slot_id() as int,
                );
                if reclaim {
                    &&& final(global).garbage() == old(global).garbage().skip(
                        (BLOCK_CAP as int) * recorded[0].blocks,
                    )
                    &&& final(self).pending@ == recorded.skip(1)
                } else {
                    &&& final(global).garbage() == old(global).garbage()
                    &&& final(self).pending@ == recorded
                }
            }),
    {
        let ghost g0 = *global;
        let ghost d0 = *self;
        let ghost hs = handle.slot_id() as int;
        let epoch = self.epoch + 1;
        self.epoch = epoch;
        global.store_epoch(epoch, Ordering::Release);
        let ghost gs = *global;
        proof {
            assert(Global::<T>::same_local(g0, gs, hs));
        }
        let guard = handle.pin(global);
        let ghost g1 = *global;
        proof {
            assert forall|i: int| 0 <= i < g0.n_locals() && i != hs implies #[trigger] Global::<
                T,
            >::same_local(g0, g1, i) by {
                assert(Global::<T>::same_local(g0, gs, i));
                assert(Global::<T>::same_local(gs, g1, i));
            }
            assert(g1.depth_of(hs) == 1);
            assert(g1.snapshot_of(hs) == epoch as nat);
            assert(g1.garbage() == g0.garbage());
            g0.lemma_garbage_len();
        }
        if block_id > self.max_block_id {
            let delta = block_id - self.max_block_id;
            self.pending.push(PendingBatch { blocks: delta, epoch });
            self.max_block_id = block_id;
            proof {
                lemma_batch_total_push(
                    d0.pending@,
                    (PendingBatch { blocks: delta, epoch }),
                );
            }
        }
        let ghost recorded = self.pending@;
        proof {
            // Every recorded batch covers at least one block and was
            // recorded no later than the epoch just published.
            assert forall|i: int|
                0 <= i < recorded.len() implies (#[trigger] recorded[i].blocks) >= 1 by {
                if i < d0.pending@.len() {
                    assert(recorded[i] == d0.pending@[i]);
                    assert(d0.pending@[i].blocks >= 1);
                }
            }
            assert forall|i: int|
                0 <= i < recorded.len() implies (#[trigger] recorded[i].epoch) <= epoch by {
                if i < d0.pending@.len() {
                    assert(recorded[i] == d0.pending@[i]);
                    assert(d0.pending@[i].epoch <= d0.epoch);
                }
            }
        }
        if self.pending.len() > 0 {
            let oldest_blocks = self.pending[0].blocks;
            let oldest_epoch = self.pending[0].epoch;
            proof {
                assert(recorded[0].epoch <= epoch);
                // The queue still holds every block of every pending batch.
                lemma_batch_total_nonneg(recorded.skip(1));
                assert(batch_total(recorded) == recorded[0].blocks + batch_total(recorded.skip(1)));
                if block_id > d0.max_block_id {
                    assert(g0.garbage_pushed() >= (block_id as int) * (BLOCK_CAP as int));
                } else {
                    assert(recorded == d0.pending@);
                }
                assert(g0.garbage().len() >= (BLOCK_CAP as int) * batch_total(recorded));
            }
            if epoch - oldest_epoch > COLLECT_BLOCKS {
                let reached = global.try_until_epoch(oldest_epoch, &guard);
                proof {
                    // The condition just checked covers the driver's own slot,
                    // whose snapshot is the freshly published epoch; every
                    // other slot still holds what it held before the pin.
                    assert(g1.all_reached(oldest_epoch as nat) == g0.others_reached(
                        oldest_epoch as nat,
                        hs,
                    )) by {
                        if g1.all_reached(oldest_epoch as nat) {
                            assert forall|i: int|
                                0 <= i < g0.n_locals() && i != hs && g0.live_of(i) && (
                            #[trigger] g0.snapshot_of(i)) != sentinel() implies g0.snapshot_of(i)
                                >= oldest_epoch as nat by {
                                assert(Global::<T>::same_local(g0, g1, i));
                                assert(g1.snapshot_of(i) == g0.snapshot_of(i));
                            }
                        }
                        if g0.others_reached(oldest_epoch as nat, hs) {
                            assert forall|i: int|
                                0 <= i < g1.n_locals() && g1.live_of(i) && (
                            #[trigger] g1.snapshot_of(i)) != sentinel() implies g1.snapshot_of(i)
                                >= oldest_epoch as nat by {
                                if i != hs {
                                    assert(Global::<T>::same_local(g0, g1, i));
                                } else {
                                    assert(g1.snapshot_of(i) == epoch as nat);
                                }
                            }
                        }
                    }
                }
                if reached {
                    let mut k: usize = 0;
                    while k < oldest_blocks
                        invariant
                            k <= oldest_blocks,
                            global.wf(),
                            guard.slot_id() == hs,
                            0 <= hs < global.n_locals(),
                            g1.depth_of(hs) >= 1,
                            global.depth_of(hs) >= 1,
                            Global::<T>::same_locals(g1, *global),
                            global.garbage() == g1.garbage().skip(
                                (BLOCK_CAP as int) * (k as int),
                            ),
                            global.garbage().len() == g1.garbage().len() - (BLOCK_CAP as int) * (
                            k as int),
                            global.garbage().len() >= (BLOCK_CAP as int) * (oldest_blocks - k),
                            global.garbage_pushed() == g1.garbage_pushed(),
                            global.garbage_reclaimed() == g1.garbage_reclaimed() + (
                            BLOCK_CAP as int) * (k as int),
                            global.epoch_value() == g1.epoch_value(),
                        decreases oldest_blocks - k,
                    {
                        let ghost gpre = *global;
                        global.drop_bags_per_block(&guard);
                        k = k + 1;
                        proof {
                            assert forall|i: int| 0 <= i < g1.n_locals() implies #[trigger] Global::<
                                T,
                            >::same_local(g1, *global, i) by {
                                assert(Global::<T>::same_local(g1, gpre, i));
                                assert(Global::<T>::same_local(gpre, *global, i));
                            }
                            assert(Global::<T>::same_local(g1, *global, hs));
                            assert(global.garbage() =~= g1.garbage().skip(
                                (BLOCK_CAP as int) * (k as int),
                            ));
                        }
                    }
                    proof {
                        assert(Global::<T>::same_local(g1, *global, hs));
                    }
                    let _ = self.pending.remove(0);
                    proof {
                        assert(self.pending@ =~= recorded.skip(1));
                        assert forall|i: int|
                            0 <= i < self.pending@.len() implies (
                        #[trigger] self.pending@[i].blocks) >= 1 by {
                            assert(self.pending@[i] == recorded[i + 1]);
                        }
                        assert forall|i: int|
                            0 <= i < self.pending@.len() implies (
                        #[trigger] self.pending@[i].epoch) <= epoch by {
                            assert(self.pending@[i] == recorded[i + 1]);
                        }
                    }
                }
            }
        }
        let ghost g2 = *global;
        global.unpin(guard);
        proof {
            assert forall|i: int| 0 <= i < g0.n_locals() && i != hs implies #[trigger] Global::<
                T,
            >::same_local(g0, *global, i) by {
                assert(Global::<T>::same_local(g0, g1, i));
                assert(Global::<T>::same_local(g1, g2, i));
                assert(Global::<T>::same_local(g2, *global, i));
            }
        }
    }
}

} // verus!

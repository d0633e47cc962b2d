//! The participant registry.
//!
//! One `Local` record exists per registered participant, kept in an arena
//! indexed by a stable slot id; a handle carries the slot id of its record.
//! A participant pins itself before touching shared structures: entering the
//! outermost pin publishes a snapshot of the global epoch into the record,
//! and leaving it clears the snapshot back to the sentinel.  The reclamation
//! driver reads the snapshots (never writes them) to decide when a garbage
//! block sealed at some epoch can no longer be referenced.

use vstd::prelude::*;
use crate::epoch::{sentinel, AtomicEpoch, Epoch};
use crate::queue::{block_note, Queue, BLOCK_CAP};
use core::sync::atomic::Ordering;

verus! {

/// A scoped-acquisition token proving "the participant of this slot is
/// pinned right now".  Produced by `pin`; handing it back to `unpin` is the
/// unpin signal.  While held, the holder may publish new garbage and may
/// dereference objects still subject to deferred reclamation.
pub struct Guard {
    pub(crate) slot: usize,
}

impl Guard {
    /// The slot id of the participant this guard pins.
    pub closed spec fn slot_id(&self) -> nat {
        self.slot as nat
    }
}

/// One participant record: the pin depth, the epoch snapshot published at
/// the outermost pin, and the liveness flag cleared when the owning handle
/// is released.
struct Local {
    /// The participant's snapshot of the global epoch; the sentinel while
    /// the participant is unpinned.
    epoch: AtomicEpoch,
    /// The number of nested guards currently held.
    guard_count: usize,
    /// Whether the owning handle is still registered.
    live: bool,
}

/// The shared state of one collector: the global epoch, the participant
/// arena, and the queue of deferred garbage.
pub struct Global<T> {
    /// The global epoch; written only by the reclamation driver, read by
    /// every participant when it pins itself.
    epoch: AtomicEpoch,
    /// The participant records, indexed by slot id.
    locals: Vec<Local>,
    /// The deferred garbage, oldest first.
    queue: Queue<T>,
}

impl<T> Global<T> {
    /// The current value of the global epoch.
    pub closed spec fn epoch_value(&self) -> nat {
        self.epoch@
    }

    /// The number of participant slots ever registered.
    pub closed spec fn n_locals(&self) -> nat {
        self.locals@.len()
    }

    /// The pin depth of slot `i`.
    pub closed spec fn depth_of(&self, i: int) -> nat {
        self.locals@[i].guard_count as nat
    }

    /// The epoch snapshot of slot `i`; the sentinel while unpinned.
    pub closed spec fn snapshot_of(&self, i: int) -> nat {
        self.locals@[i].epoch@
    }

    /// Whether the handle of slot `i` is still registered.
    pub closed spec fn live_of(&self, i: int) -> bool {
        self.locals@[i].live
    }

    /// The deferred garbage currently held, oldest first.
    pub closed spec fn garbage(&self) -> Seq<T> {
        self.queue@
    }

    /// The number of garbage units ever deferred.
    pub closed spec fn garbage_pushed(&self) -> nat {
        self.queue.pushed()
    }

    /// The number of garbage units ever destroyed.
    pub closed spec fn garbage_reclaimed(&self) -> nat {
        self.queue.reclaimed()
    }

    /// Well-formedness: the queue is well formed, the global epoch is a real
    /// epoch number, and each record's snapshot is the sentinel exactly while
    /// its pin depth is zero; a released record is unpinned.
    pub closed spec fn wf(&self) -> bool {
        &&& self.queue.wf()
        &&& self.epoch@ != sentinel()
        &&& (forall|i: int|
            0 <= i < self.locals@.len() ==> ((#[trigger] self.locals@[i].guard_count) == 0 <==> self
                .locals@[i].epoch@ == sentinel()))
        &&& (forall|i: int|
            0 <= i < self.locals@.len() ==> (!(#[trigger] self.locals@[i].live)
                ==> self.locals@[i].guard_count == 0))
    }

    /// Slot `i` keeps its whole record across a transition.
    pub open spec fn same_local(pre: Self, post: Self, i: int) -> bool {
        &&& post.depth_of(i) == pre.depth_of(i)
        &&& post.snapshot_of(i) == pre.snapshot_of(i)
        &&& post.live_of(i) == pre.live_of(i)
    }

    /// Every slot of `pre` but `slot` keeps its record across a transition.
    pub open spec fn same_locals_except(pre: Self, post: Self, slot: int) -> bool {
        forall|i: int|
            #![trigger Self::same_local(pre, post, i)]
            #![trigger post.depth_of(i)]
            #![trigger post.snapshot_of(i)]
            #![trigger post.live_of(i)]
            0 <= i < pre.n_locals() && i != slot ==> Self::same_local(pre, post, i)
    }

    /// Every slot keeps its record across a transition.
    pub open spec fn same_locals(pre: Self, post: Self) -> bool {
        &&& post.n_locals() == pre.n_locals()
        &&& (forall|i: int|
            #![trigger Self::same_local(pre, post, i)]
            #![trigger post.depth_of(i)]
            #![trigger post.snapshot_of(i)]
            #![trigger post.live_of(i)]
            0 <= i < pre.n_locals() ==> Self::same_local(pre, post, i))
    }

    /// The garbage queue is untouched by a transition.
    pub open spec fn same_garbage(pre: Self, post: Self) -> bool {
        &&& post.garbage() == pre.garbage()
        &&& post.garbage_pushed() == pre.garbage_pushed()
        &&& post.garbage_reclaimed() == pre.garbage_reclaimed()
    }

    /// Every live participant is either unpinned or has observed an epoch at
    /// least `target`: the condition under which a block sealed at `target`
    /// can no longer be referenced.
    pub open spec fn all_reached(&self, target: nat) -> bool {
        forall|i: int|
            0 <= i < self.n_locals() ==> ((self.live_of(i) && (#[trigger] self.snapshot_of(i))
                != sentinel()) ==> self.snapshot_of(i) >= target)
    }

    /// `all_reached`, but ignoring the slot of the caller itself (the driver
    /// pins itself at the current epoch before it checks).
    pub open spec fn others_reached(&self, target: nat, slot: int) -> bool {
        forall|i: int|
            0 <= i < self.n_locals() && i != slot ==> ((self.live_of(i) && (
            #[trigger] self.snapshot_of(i)) != sentinel()) ==> self.snapshot_of(i) >= target)
    }

    /// Creates the shared state of a fresh collector: epoch zero, no
    /// participants, no garbage.
    pub fn new() -> (g: Global<T>)
        ensures
            g.wf(),
            g.epoch_value() == 0,
            g.n_locals() == 0,
            g.garbage() == Seq::<T>::empty(),
            g.garbage_pushed() == 0,
            g.garbage_reclaimed() == 0,
    {
        Global { epoch: AtomicEpoch::new(Epoch::zeroing()), locals: Vec::new(), queue: Queue::new() }
    }

    /// The garbage queue holds exactly the units deferred and not yet
    /// destroyed.
    pub proof fn lemma_garbage_len(&self)
        requires
            self.wf(),
        ensures
            self.garbage().len() == self.garbage_pushed() - self.garbage_reclaimed(),
    {
        self.queue.lemma_view_len();
    }

    /// Loads the global epoch.
    pub fn load_epoch(&self, ord: Ordering) -> (e: Epoch)
        ensures
            e@ == self.epoch_value(),
    {
        self.epoch.load(ord)
    }

    /// Stores a new value into the global epoch cell; called only by the
    /// reclamation driver when it advances the epoch.
    pub fn store_epoch(&mut self, epoch: usize, ord: Ordering)
        requires
            old(self).wf(),
            epoch < usize::MAX,
        ensures
            final(self).wf(),
            final(self).epoch_value() == epoch as nat,
            final(self).n_locals() == old(self).n_locals(),
            Self::same_locals(*old(self), *final(self)),
            Self::same_garbage(*old(self), *final(self)),
    {
        self.epoch.store_epoch(epoch, ord);
    }

    /// Registers a new participant: appends a live, unpinned record to the
    /// arena and returns its slot id.
    pub fn register(&mut self) -> (slot: usize)
        requires
            old(self).wf(),
            old(self).n_locals() < usize::MAX,
        ensures
            final(self).wf(),
            slot as nat == old(self).n_locals(),
            final(self).n_locals() == old(self).n_locals() + 1,
            final(self).live_of(slot as int),
            final(self).depth_of(slot as int) == 0,
            final(self).snapshot_of(slot as int) == sentinel(),
            Self::same_locals_except(*old(self), *final(self), slot as int),
            Self::same_garbage(*old(self), *final(self)),
            final(self).epoch_value() == old(self).epoch_value(),
    {
        let ghost prev = *self;
        let slot = self.locals.len();
        let rec = Local { epoch: AtomicEpoch::new(Epoch::starting()), guard_count: 0, live: true };
        self.locals.push(rec);
        proof {
            assert forall|i: int| 0 <= i < prev.n_locals() && i != slot as int implies #[trigger] Self::same_local(
                prev,
                *self,
                i,
            ) by {
                assert(self.locals@[i] == prev.locals@[i]);
            }
        }
        slot
    }

    /// Enters a pin for slot `slot`.  The outermost pin (depth zero to one)
    /// publishes the current global epoch into the slot's snapshot, at the
    /// install/observe boundary of the protocol; a nested pin only deepens
    /// the count.
    pub fn pin(&mut self, slot: usize) -> (g: Guard)
        requires
            old(self).wf(),
            (slot as int) < old(self).n_locals(),
            old(self).live_of(slot as int),
            old(self).depth_of(slot as int) < usize::MAX,
        ensures
            final(self).wf(),
            final(self).n_locals() == old(self).n_locals(),
            g.slot_id() == slot as nat,
            final(self).depth_of(slot as int) == old(self).depth_of(slot as int) + 1,
            old(self).depth_of(slot as int) == 0 ==> final(self).snapshot_of(slot as int) == old(
                self,
            ).epoch_value(),
            old(self).depth_of(slot as int) > 0 ==> final(self).snapshot_of(slot as int) == old(
                self,
            ).snapshot_of(slot as int),
            final(self).live_of(slot as int),
            Self::same_locals_except(*old(self), *final(self), slot as int),
            Self::same_garbage(*old(self), *final(self)),
            final(self).epoch_value() == old(self).epoch_value(),
    {
        let ghost prev = *self;
        let mut rec = self.locals.remove(slot);
        if rec.guard_count == 0 {
            let e = self.epoch.load(Ordering::Acquire);
            rec.epoch.store(e.pinned(), Ordering::Release);
        }
        rec.guard_count = rec.guard_count + 1;
        self.locals.insert(slot, rec);
        proof {
            assert(self.locals@ =~= prev.locals@.update(slot as int, rec));
        }
        Guard { slot }
    }

    /// Leaves a pin: consumes the guard and decrements the slot's pin depth.
    /// Leaving the outermost pin (depth one to zero) clears the snapshot back
    /// to the unpinned sentinel.
    pub fn unpin(&mut self, g: Guard)
        requires
            old(self).wf(),
            g.slot_id() < old(self).n_locals(),
            old(self).depth_of(g.slot_id() as int) >= 1,
        ensures
            final(self).wf(),
            final(self).n_locals() == old(self).n_locals(),
            final(self).depth_of(g.slot_id() as int) == old(self).depth_of(g.slot_id() as int) - 1,
            old(self).depth_of(g.slot_id() as int) == 1 ==> final(self).snapshot_of(
                g.slot_id() as int,
            ) == sentinel(),
            old(self).depth_of(g.slot_id() as int) > 1 ==> final(self).snapshot_of(
                g.slot_id() as int,
            ) == old(self).snapshot_of(g.slot_id() as int),
            final(self).live_of(g.slot_id() as int) == old(self).live_of(g.slot_id() as int),
            Self::same_locals_except(*old(self), *final(self), g.slot_id() as int),
            Self::same_garbage(*old(self), *final(self)),
            final(self).epoch_value() == old(self).epoch_value(),
    {
        let ghost prev = *self;
        let slot = g.slot;
        let mut rec = self.locals.remove(slot);
        rec.guard_count = rec.guard_count - 1;
        if rec.guard_count == 0 {
            rec.epoch.store(Epoch::starting(), Ordering::Release);
        }
        self.locals.insert(slot, rec);
        proof {
            assert(self.locals@ =~= prev.locals@.update(slot as int, rec));
        }
    }

    /// The number of participant slots registered so far.
    pub fn n_participants(&self) -> (n: usize)
        ensures
            n as nat == self.n_locals(),
    {
        self.locals.len()
    }

    /// The pin depth of slot `slot`.
    pub fn pin_depth(&self, slot: usize) -> (n: usize)
        requires
            (slot as int) < self.n_locals(),
        ensures
            n as nat == self.depth_of(slot as int),
    {
        self.locals[slot].guard_count
    }

    /// The number of garbage units currently held.
    pub fn garbage_count(&self) -> (n: usize)
        requires
            self.wf(),
        ensures
            n as nat == self.garbage().len(),
    {
        self.queue.len()
    }

    /// The number of garbage units ever deferred.
    pub fn deferred_total(&self) -> (n: usize)
        ensures
            n as nat == self.garbage_pushed(),
    {
        self.queue.total_pushed()
    }

    /// Returns `true` if the participant of slot `slot` is currently pinned.
    pub fn is_pinned(&self, slot: usize) -> (r: bool)
        requires
            (slot as int) < self.n_locals(),
        ensures
            r == (self.depth_of(slot as int) > 0),
    {
        self.locals[slot].guard_count > 0
    }

    /// Releases the handle of slot `slot`: clears the liveness flag, the
    /// logical removal of the participant.  The record itself stays in the
    /// arena, so a concurrent reclamation pass never dereferences freed
    /// memory.
    pub fn release_handle(&mut self, slot: usize)
        requires
            old(self).wf(),
            (slot as int) < old(self).n_locals(),
            old(self).depth_of(slot as int) == 0,
        ensures
            final(self).wf(),
            final(self).n_locals() == old(self).n_locals(),
            !final(self).live_of(slot as int),
            final(self).depth_of(slot as int) == 0,
            final(self).snapshot_of(slot as int) == old(self).snapshot_of(slot as int),
            Self::same_locals_except(*old(self), *final(self), slot as int),
            Self::same_garbage(*old(self), *final(self)),
            final(self).epoch_value() == old(self).epoch_value(),
    {
        let ghost prev = *self;
        let mut rec = self.locals.remove(slot);
        rec.live = false;
        self.locals.insert(slot, rec);
        proof {
            assert(self.locals@ =~= prev.locals@.update(slot as int, rec));
        }
    }

    /// Defers the destruction of `t`: appends it to the garbage queue.  The
    /// guard proves the caller is pinned while publishing.  Returns the id of
    /// the sealed block when this push filled one.
    pub fn defer(&mut self, t: T, g: &Guard) -> (note: Option<usize>)
        requires
            old(self).wf(),
            g.slot_id() < old(self).n_locals(),
            old(self).depth_of(g.slot_id() as int) >= 1,
            old(self).garbage_pushed() + BLOCK_CAP < usize::MAX,
        ensures
            final(self).wf(),
            final(self).garbage() == old(self).garbage().push(t),
            final(self).garbage_pushed() == old(self).garbage_pushed() + 1,
            final(self).garbage_reclaimed() == old(self).garbage_reclaimed(),
            Self::same_locals(*old(self), *final(self)),
            final(self).epoch_value() == old(self).epoch_value(),
            (note is Some) == (block_note(old(self).garbage_pushed() + 1) is Some),
            note matches Some(id) ==> block_note(old(self).garbage_pushed() + 1) == Some(
                id as nat,
            ),
    {
        self.queue.push(t)
    }

    /// The reclamation driver's safety gate: reports whether every live
    /// participant either holds no pin snapshot or has observed an epoch at
    /// least `target`.  The driver reclaims a block sealed at `target` only
    /// once this holds; until then the block stays pending, to be tried
    /// again on a later notification.
    pub fn try_until_epoch(&self, target: usize, g: &Guard) -> (r: bool)
        requires
            g.slot_id() < self.n_locals(),
        ensures
            r == self.all_reached(target as nat),
    {
        let n = self.locals.len();
        let mut i: usize = 0;
        while i < n
            invariant
                i <= n,
                n == self.n_locals(),
                forall|j: int|
                    0 <= j < i ==> ((self.live_of(j) && (#[trigger] self.snapshot_of(j))
                        != sentinel()) ==> self.snapshot_of(j) >= target as nat),
            decreases n - i,
        {
            let rec = &self.locals[i];
            if rec.live {
                let snap = rec.epoch.load(Ordering::Acquire);
                if snap.is_pinned() && snap.unpinned() < target {
                    proof {
                        assert(self.live_of(i as int) && self.snapshot_of(i as int) != sentinel()
                            && self.snapshot_of(i as int) < target as nat);
                    }
                    return false;
                }
            }
            i = i + 1;
        }
        true
    }

    /// Destroys the (sealed) head block of the garbage queue.  The guard
    /// belongs to the reclamation driver, which has already confirmed through
    /// `try_until_epoch` that no participant can still reference the block.
    pub fn drop_bags_per_block(&mut self, g: &Guard)
        requires
            old(self).wf(),
            g.slot_id() < old(self).n_locals(),
            old(self).garbage().len() >= BLOCK_CAP,
        ensures
            final(self).wf(),
            final(self).garbage() == old(self).garbage().skip(BLOCK_CAP as int),
            final(self).garbage_pushed() == old(self).garbage_pushed(),
            final(self).garbage_reclaimed() == old(self).garbage_reclaimed() + BLOCK_CAP,
            Self::same_locals(*old(self), *final(self)),
            final(self).epoch_value() == old(self).epoch_value(),
    {
        self.queue.drop_bags_per_block()
    }
}

/// Law: a participant that is live and pinned with a snapshot below `target`
/// keeps `others_reached` false, whichever slot the asking driver holds: no
/// block sealed at `target` passes the safety gate while such a participant
/// exists, so its memory is never reclaimed prematurely.
pub proof fn lemma_no_premature_reclamation<T>(g: Global<T>, target: nat, slot: int, witness: int)
    requires
        0 <= witness < g.n_locals(),
        witness != slot,
        g.live_of(witness),
        g.snapshot_of(witness) != sentinel(),
        g.snapshot_of(witness) < target,
    ensures
        !g.others_reached(target, slot),
        !g.all_reached(target),
{
}

} // verus!

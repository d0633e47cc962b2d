//! The public handle types of the collector.
//!
//! A `Collector` owns the shared state of one reclamation engine.  Client
//! code registers a participant and receives a `LocalHandle`, the capability
//! it uses to pin itself around accesses to shared structures.

use vstd::prelude::*;
use crate::epoch::sentinel;
use crate::internal::{Global, Guard};

verus! {

/// An epoch-based garbage collector: the owner of the shared state that the
/// participants and the reclamation driver operate on.
pub struct Collector<T> {
    /// The global epoch, the participant registry, and the garbage queue.
    pub global: Global<T>,
}

impl<T> Collector<T> {
    /// Creates a new collector with epoch zero, no participants and no
    /// garbage.
    pub fn new() -> (c: Collector<T>)
        ensures
            c.global.wf(),
            c.global.epoch_value() == 0,
            c.global.n_locals() == 0,
            c.global.garbage() == Seq::<T>::empty(),
            c.global.garbage_pushed() == 0,
            c.global.garbage_reclaimed() == 0,
    {
        Collector { global: Global::new() }
    }

    /// Registers a new handle for the collector.
    pub fn register(&mut self) -> (h: LocalHandle)
        requires
            old(self).global.wf(),
            old(self).global.n_locals() < usize::MAX,
        ensures
            final(self).global.wf(),
            h.slot_id() == old(self).global.n_locals(),
            final(self).global.n_locals() == old(self).global.n_locals() + 1,
            final(self).global.live_of(h.slot_id() as int),
            final(self).global.depth_of(h.slot_id() as int) == 0,
            final(self).global.snapshot_of(h.slot_id() as int) == sentinel(),
            Global::<T>::same_locals_except(
                old(self).global,
                final(self).global,
                h.slot_id() as int,
            ),
            Global::<T>::same_garbage(old(self).global, final(self).global),
            final(self).global.epoch_value() == old(self).global.epoch_value(),
    {
        let slot = self.global.register();
        LocalHandle { slot }
    }
}

/// A handle to a garbage collector: a non-owning reference to the
/// participant record it registered, carried as the record's stable slot id.
pub struct LocalHandle {
    pub(crate) slot: usize,
}

impl LocalHandle {
    /// The slot id of the participant record this handle refers to.
    pub closed spec fn slot_id(&self) -> nat {
        self.slot as nat
    }

    /// The slot id of the participant record this handle refers to.
    pub fn slot_index(&self) -> (s: usize)
        ensures
            s as nat == self.slot_id(),
    {
        self.slot
    }

    /// Pins the handle: enters a pin for its participant and returns the
    /// guard that proves it.
    pub fn pin<T>(&self, global: &mut Global<T>) -> (g: Guard)
        requires
            old(global).wf(),
            self.slot_id() < old(global).n_locals(),
            old(global).live_of(self.slot_id() as int),
            old(global).depth_of(self.slot_id() as int) < usize::MAX,
        ensures
            final(global).wf(),
            final(global).n_locals() == old(global).n_locals(),
            g.slot_id() == self.slot_id(),
            final(global).depth_of(self.slot_id() as int) == old(global).depth_of(
                self.slot_id() as int,
            ) + 1,
            old(global).depth_of(self.slot_id() as int) == 0 ==> final(global).snapshot_of(
                self.slot_id() as int,
            ) == old(global).epoch_value(),
            old(global).depth_of(self.slot_id() as int) > 0 ==> final(global).snapshot_of(
                self.slot_id() as int,
            ) == old(global).snapshot_of(self.slot_id() as int),
            final(global).live_of(self.slot_id() as int),
            Global::<T>::same_locals_except(*old(global), *final(global), self.slot_id() as int),
            Global::<T>::same_garbage(*old(global), *final(global)),
            final(global).epoch_value() == old(global).epoch_value(),
    {
        global.pin(self.slot)
    }

    /// Returns `true` if the handle is pinned.
    pub fn is_pinned<T>(&self, global: &Global<T>) -> (r: bool)
        requires
            self.slot_id() < global.n_locals(),
        ensures
            r == (global.depth_of(self.slot_id() as int) > 0),
    {
        global.is_pinned(self.slot)
    }

    /// Releases the handle: logically removes its participant from the
    /// registry.  The record's slot stays behind, so a reclamation pass that
    /// is concurrently walking the registry never reads freed memory.
    pub fn release<T>(self, global: &mut Global<T>)
        requires
            old(global).wf(),
            self.slot_id() < old(global).n_locals(),
            old(global).depth_of(self.slot_id() as int) == 0,
        ensures
            final(global).wf(),
            final(global).n_locals() == old(global).n_locals(),
            !final(global).live_of(self.slot_id() as int),
            final(global).depth_of(self.slot_id() as int) == 0,
            Global::<T>::same_locals_except(*old(global), *final(global), self.slot_id() as int),
            Global::<T>::same_garbage(*old(global), *final(global)),
            final(global).epoch_value() == old(global).epoch_value(),
    {
        global.release_handle(self.slot)
    }
}

} // verus!

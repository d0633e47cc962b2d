//! The global epoch.
//!
//! Every so often the global epoch is incremented, i.e. we say it "advances".
//! If an object became garbage in some epoch, then after enough advancements
//! no participant can still hold a reference to it; that is the crux of safe
//! memory reclamation.
//!
//! One value of the counter is reserved as a sentinel meaning "not currently
//! pinned": a participant's slot holds the sentinel before its first pin and
//! between pins.  Every other value is a real epoch number, compared by plain
//! integer ordering.

use vstd::prelude::*;
use core::sync::atomic::Ordering;

verus! {

/// The sentinel value meaning "this is not a real participation record".
pub open spec fn sentinel() -> nat {
    usize::MAX as nat
}

/// An epoch that can be marked as pinned or unpinned.
///
/// The value is a plain integer; the largest representable value is reserved
/// as the "unpinned" sentinel and never used as a real epoch number.
#[derive(Copy, Clone, Default, Debug, Eq, PartialEq, Structural)]
pub struct Epoch {
    data: usize,
}

impl View for Epoch {
    type V = nat;

    closed spec fn view(&self) -> nat {
        self.data as nat
    }
}

impl Epoch {
    /// Returns the starting epoch in unpinned state: the sentinel.
    #[inline]
    pub fn starting() -> (e: Self)
        ensures
            e@ == sentinel(),
    {
        Epoch { data: usize::MAX }
    }

    /// Returns the epoch with value zero, the logical start of real counting.
    #[inline]
    pub fn zeroing() -> (e: Self)
        ensures
            e@ == 0,
    {
        Epoch { data: 0 }
    }

    /// Returns the same epoch, but marked as pinned.
    ///
    /// Pinned and unpinned epochs share one encoding, so the value is kept
    /// unchanged; only the sentinel itself means "unpinned".
    #[inline]
    pub fn pinned(self) -> (e: Epoch)
        ensures
            e@ == self@,
    {
        Epoch { data: self.data }
    }

    /// Returns `true` if the epoch is marked as pinned, i.e. is not the
    /// sentinel.
    #[inline]
    pub fn is_pinned(self) -> (r: bool)
        ensures
            r == (self@ != sentinel()),
    {
        self.data != usize::MAX
    }

    /// Returns the raw counter value.
    #[inline]
    pub fn unpinned(self) -> (r: usize)
        ensures
            r as nat == self@,
    {
        self.data
    }
}

/// An atomically accessed cell that holds an [`Epoch`].
///
/// The concurrent protocol reads and writes this cell with atomic operations;
/// here every write is performed under an exclusive borrow, and each
/// operation keeps the memory-ordering argument it carries at the concurrency
/// boundary.  The ordering does not change what value is read or written.
#[derive(Default, Debug)]
pub struct AtomicEpoch {
    data: usize,
}

impl View for AtomicEpoch {
    type V = nat;

    closed spec fn view(&self) -> nat {
        self.data as nat
    }
}

impl AtomicEpoch {
    /// Creates a new atomic epoch holding `epoch`.
    #[inline]
    pub fn new(epoch: Epoch) -> (a: Self)
        ensures
            a@ == epoch@,
    {
        AtomicEpoch { data: epoch.unpinned() }
    }

    /// Loads the value from the atomic epoch.
    #[inline]
    pub fn load(&self, ord: Ordering) -> (e: Epoch)
        ensures
            e@ == self@,
    {
        let _ = ord;
        Epoch { data: self.data }
    }

    /// Stores a value into the atomic epoch.
    #[inline]
    pub fn store(&mut self, epoch: Epoch, ord: Ordering)
        ensures
            final(self)@ == epoch@,
    {
        let _ = ord;
        self.data = epoch.unpinned();
    }

    /// Stores a raw counter value into the atomic epoch, bypassing any
    /// encoding transform.
    pub fn store_epoch(&mut self, epoch: usize, ord: Ordering)
        ensures
            final(self)@ == epoch as nat,
    {
        let _ = ord;
        self.data = epoch;
    }

    /// Stores `new` into the atomic epoch if the current value equals
    /// `current`.
    ///
    /// The return value is always the previous value.  If it is equal to
    /// `current`, then the value was updated.  The operation itself cannot
    /// fail, it can only lose a race, which the caller's own loop retries.
    #[inline]
    pub fn compare_and_swap(&mut self, current: Epoch, new: Epoch, ord: Ordering) -> (prev: Epoch)
        ensures
            prev@ == old(self)@,
            final(self)@ == if old(self)@ == current@ {
                new@
            } else {
                old(self)@
            },
    {
        let _ = ord;
        let prev = Epoch { data: self.data };
        if self.data == current.unpinned() {
            self.data = new.unpinned();
        }
        prev
    }
}

} // verus!

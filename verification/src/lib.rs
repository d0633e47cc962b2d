//! An epoch-based memory reclamation engine.
//!
//! Concurrent readers of lock-free structures register as participants and
//! *pin* themselves while they may hold references into shared memory.
//! Objects that have been unlinked are deferred into a block-structured
//! garbage queue instead of being destroyed immediately.  A reclamation
//! driver advances a global epoch whenever a garbage block fills, and frees
//! a block only once every pinned participant has observed an epoch at least
//! as new as the block's sealing epoch, a fixed slack window later.
//!
//! The state of the engine is modelled here with exclusive borrows: every
//! transition that the concurrent protocol performs with an atomic operation
//! is a verified function on the owning structure, and the memory-ordering
//! argument each such operation carries is kept in the signatures.

pub mod collector;
pub mod driver;
pub mod epoch;
pub mod internal;
pub mod queue;

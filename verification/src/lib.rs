//! A small toolkit for sharing mutable data across independently scheduled
//! workers: an exclusively locked counter, a reader/writer-locked catalog,
//! and a fork-join partitioned sort, together with the helpers the driver
//! uses to build benchmark input.

use vstd::prelude::*;

pub mod access;
pub mod arith;
pub mod counter;
pub mod list;
pub mod registry;
pub mod sort;
pub mod xorshift;

verus! {

/// The unrecoverable failures the toolkit reports.
///
/// `LockPoisoned`: a prior holder of exclusive access terminated abnormally
/// while holding it, so the protected value is in an indeterminate state.
/// `WorkerFailed`: a spawned worker terminated abnormally instead of
/// completing; surfaced to the driver at join time.
#[derive(Clone, Copy, Debug, PartialEq, Eq, Structural)]
pub enum SyncError {
    LockPoisoned,
    WorkerFailed,
}

} // verus!

//! Core task backend of an incremental computation engine: task identity,
//! per-task state, the execution lifecycle, the read path and the snapshot
//! barrier, as single-threaded state transitions with proved contracts.
use vstd::prelude::*;

pub mod ids;
pub mod event;
pub mod data;
pub mod fingerprint;
pub mod bimap;
pub mod snapshot;
pub mod transient;
pub mod backend;

verus! {

} // verus!

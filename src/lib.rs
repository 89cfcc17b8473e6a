//! Message routing for an editor bridge that talks to several language
//! backends: where each inbound call or notification goes, how its outcome
//! becomes exactly one response (or none), the per-backend lifecycle locks,
//! and the field-level diff of the session state around an update.
use vstd::prelude::*;

pub mod classify;
pub mod client_locks;
pub mod lock_registry;
pub mod names;
pub mod keyed;
pub mod router;
pub mod snapshot;

verus! {

} // verus!

//! Core logic of a filesystem-coordinated worker pool: task-file parsing and
//! classification, live-agent reconciliation, capacity planning, dispatch
//! selection, maintenance gating, and the per-worker FIFO queue step.

pub mod agents;
pub mod dispatch;
pub mod genesis;
pub mod mirror;
pub mod queues;
pub mod sanitize;
pub mod task;
pub mod text;
pub mod worker;

use vstd::prelude::*;

verus! {

/// Default task label for an agent record that names no task file.
pub fn default_task() -> (r: String)
    ensures
        r@ == "idle"@,
{
    "idle".to_owned()
}

} // verus!

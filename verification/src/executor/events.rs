//! Outcome of a pipeline run and the control signals a controller can send.
use std::sync::atomic::AtomicBool;
use std::sync::Arc;
use vstd::prelude::*;

use crate::executor::cancel::CancelToken;

verus! {

/// Returned by `execute()` to distinguish successful completion variants.
#[derive(Debug)]
pub enum ExecuteOutcome {
    /// All steps ran to completion.
    Completed,
    /// A `break` action fired; remaining steps were skipped.
    Break { step_id: String },
    /// An error occurred during execution.
    Error(String),
}

/// Signals the executor can receive from a controller while a pipeline runs.
pub struct ExecutionControl {
    /// Set to `true` to request a pause between steps.
    pub pause_requested: Arc<AtomicBool>,
    /// Cancellation token: request that the executor stop after the current step.
    pub kill_requested: CancelToken,
}

impl ExecutionControl {
    /// Fresh control signals: no pause requested, not cancelled.
    pub fn new() -> (c: Self) {
        ExecutionControl {
            pause_requested: Arc::new(AtomicBool::new(false)),
            kill_requested: CancelToken::new(),
        }
    }
}

} // verus!

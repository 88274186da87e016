//! Cooperative cancellation flag shared between a pipeline and its controller.
use std::sync::atomic::AtomicBool;
use std::sync::Arc;
use vstd::prelude::*;

verus! {

/// A cancellation token. Clones share the same flag.
#[derive(Clone, Debug)]
pub struct CancelToken {
    flag: Arc<AtomicBool>,
}

impl CancelToken {
    /// A fresh, not-cancelled token.
    pub fn new() -> (t: Self) {
        CancelToken { flag: Arc::new(AtomicBool::new(false)) }
    }

    /// Request cancellation.
    pub fn cancel(&self) {
        self.flag.store(true, std::sync::atomic::Ordering::SeqCst);
    }

    /// Whether cancellation has been requested. The answer depends on other
    /// holders of the token, so nothing is promised about it.
    pub fn is_cancelled(&self) -> (b: bool) {
        self.flag.load(std::sync::atomic::Ordering::SeqCst)
    }
}

} // verus!

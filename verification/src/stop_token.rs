use vstd::prelude::*;
use std::sync::atomic::AtomicBool;
use std::sync::atomic::Ordering;
use std::sync::Arc;

verus! {

/// A flag shared between threads that asks them to stop.
#[derive(Clone, Debug, Default)]
pub struct StopToken {
    state: Arc<AtomicBool>,
}

impl StopToken {
    /// A token on which no stop has been requested.
    pub fn new() -> (res: StopToken) {
        StopToken { state: Arc::new(AtomicBool::new(false)) }
    }

    /// Asks every holder of a clone of this token to stop.
    pub fn request_stop(&self) {
        self.state.store(true, Ordering::SeqCst)
    }

    /// Whether a stop has been requested through any clone of this token.
    /// Other threads may request a stop at any time, so nothing is known
    /// of the result.
    pub fn stop_requested(&self) -> (b: bool) {
        self.state.load(Ordering::SeqCst)
    }
}

} // verus!

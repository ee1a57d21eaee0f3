//! The stop signal: how a search is told to give up.
//!
//! Whoever runs a search keeps one handle and gives the search another. The
//! search looks at the signal once per node; what it sees depends on what the
//! other side has done by then, so nothing is promised about it.

use vstd::prelude::*;
use std::sync::Arc;
use std::sync::atomic::AtomicBool;
use std::sync::atomic::Ordering;

verus! {

/// A flag shared between the side that searches and the side that waits.
#[derive(Clone)]
pub struct StopSignal {
    flag: Arc<AtomicBool>,
}

impl StopSignal {
    /// Makes a signal that is not raised.
    pub fn new() -> (s: StopSignal) {
        StopSignal { flag: Arc::new(AtomicBool::new(false)) }
    }

    /// Raises the signal. It stays raised.
    pub fn raise(&self) {
        self.flag.store(true, Ordering::SeqCst);
    }

    /// Tells whether the signal was raised when the call looked at it.
    pub fn is_raised(&self) -> (raised: bool) {
        self.flag.load(Ordering::SeqCst)
    }
}

} // verus!

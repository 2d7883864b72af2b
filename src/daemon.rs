//! The background service handle.

use vstd::prelude::*;

verus! {

/// Handle of the background service.
pub struct Daemon;

impl Daemon {
    /// A new handle.
    pub fn new() -> (r: Daemon) {
        Daemon
    }
}

} // verus!

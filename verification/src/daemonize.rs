//! Running detached from the terminal.

use vstd::prelude::*;

verus! {

/// Detaches the process from its terminal. No platform has a detached mode
/// yet, so this returns at once and the caller goes on as it is.
pub fn daemonize() {
}

} // verus!

//! Failures of the guest-memory bridge.

use vstd::prelude::*;

verus! {

/// Why a host call could not read or write guest memory.
#[derive(Debug, Clone, Copy, PartialEq, Eq, Structural)]
pub enum AvError {
    /// No guest memory is registered.
    MissingMemory,
    /// The requested range does not lie inside the guest's memory.
    MemoryReadFailed,
}

} // verus!

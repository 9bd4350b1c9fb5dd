//! What the firmware does when it cannot go on.

use vstd::prelude::*;

verus! {

/// The answer to a fault that cannot be recovered from.
#[derive(Clone, Copy, Debug, PartialEq, Eq, Structural)]
pub enum FaultResponse {
    /// Stop for good: spin without touching any peripheral.
    Halt,
}

/// The answer to a panic.
pub fn panic() -> (response: FaultResponse)
    ensures
        response == FaultResponse::Halt,
{
    FaultResponse::Halt
}

/// The answer to a failed allocation.
pub fn alloc_error_handler() -> (response: FaultResponse)
    ensures
        response == FaultResponse::Halt,
{
    FaultResponse::Halt
}

} // verus!

//! Syscall-boundary types for the signal-mask call.

use vstd::prelude::*;

verus! {

/// Size in bytes of the user-visible signal set; the mask call rejects any
/// other size.
pub const SIGSET_SIZE_IN_BYTE: usize = 8;

/// How a new mask combines with the current blocked mask.
#[derive(Clone, Copy, Debug, PartialEq, Eq, Structural)]
pub enum SigMaskFlag {
    /// Or the new mask into the blocked mask.
    Block,
    /// Clear the new mask's bits from the blocked mask.
    Unblock,
    /// Replace the blocked mask.
    Setmask,
}

impl SigMaskFlag {
    /// The operation encoded by `value` at the syscall boundary.
    pub open spec fn spec_from(value: usize) -> SigMaskFlag {
        if value == 0 {
            SigMaskFlag::Block
        } else if value == 1 {
            SigMaskFlag::Unblock
        } else {
            SigMaskFlag::Setmask
        }
    }

    /// Decodes the operation; values above 2 are not an operation.
    pub fn from(value: usize) -> (r: SigMaskFlag)
        requires
            value <= 2,
        ensures
            r == SigMaskFlag::spec_from(value),
    {
        match value {
            0 => SigMaskFlag::Block,
            1 => SigMaskFlag::Unblock,
            _ => SigMaskFlag::Setmask,
        }
    }
}

} // verus!

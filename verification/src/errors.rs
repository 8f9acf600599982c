//! Error taxonomy of the process and signal core.

use vstd::prelude::*;

verus! {

/// Failure of a lifecycle or signal operation, as reported to the syscall
/// layer (which translates it to the platform's negative-errno convention).
#[derive(Clone, Copy, Debug, PartialEq, Eq, Structural)]
pub enum KernelError {
    /// The wait or kill target does not exist.
    NotFound,
    /// A malformed argument: an unknown clone flag, a wrong signal-set size,
    /// a degenerate address range.
    InvalidArgument,
    /// A collaborator failed to allocate.
    OutOfMemory,
    /// A deliberately stubbed operation (process-group wait, the Stop and
    /// Continue default signal actions).
    NotSupported,
}

} // verus!

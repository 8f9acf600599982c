//! The saved user-mode register state of one thread, as the lifecycle and
//! signal code read and rewrite it.

use vstd::prelude::*;

verus! {

/// The registers of the saved trap frame that this core touches: the return
/// address, the stack pointer, the first three argument registers and the
/// program counter at which user mode resumes.
#[derive(Clone, Copy, Debug, PartialEq, Eq, Structural)]
pub struct TrapFrame {
    /// Return address register; delivery points it at the restorer.
    pub ra: usize,
    /// User stack pointer.
    pub sp: usize,
    /// First argument register, also the syscall result register.
    pub a0: usize,
    /// Second argument register.
    pub a1: usize,
    /// Third argument register.
    pub a2: usize,
    /// Program counter of the interrupted user code.
    pub sepc: usize,
}

impl TrapFrame {
    /// The all-zero frame.
    pub open spec fn spec_default() -> TrapFrame {
        TrapFrame { ra: 0, sp: 0, a0: 0, a1: 0, a2: 0, sepc: 0 }
    }

    /// The first argument register, which carries a syscall's result when
    /// the frame is restored.
    pub fn arg0(&self) -> (r: usize)
        ensures
            r == self.a0,
    {
        self.a0
    }
}

impl Default for TrapFrame {
    /// The all-zero frame.
    fn default() -> (r: TrapFrame)
        ensures
            r == TrapFrame::spec_default(),
    {
        TrapFrame { ra: 0, sp: 0, a0: 0, a1: 0, a2: 0, sepc: 0 }
    }
}

} // verus!

//! The alternate signal stack and the user-context record.

use vstd::prelude::*;

verus! {

/// The thread runs on its alternate signal stack.
pub const SS_ONSTACK: u32 = 1;

/// The alternate signal stack is disabled.
pub const SS_DISABLE: u32 = 2;

/// Disarm the alternate stack on handler entry.
pub const SS_AUTODISARM: u32 = 4;

/// The alternate signal stack of one thread, as configured by the
/// stack-configuration call and consulted on `SA_ONSTACK` delivery.
#[derive(Clone, Copy, Debug, PartialEq, Eq, Structural)]
pub struct SignalStack {
    /// Base address of the stack area.
    pub sp: usize,
    /// Size of the stack area in bytes.
    pub size: usize,
    /// State flags; `SS_DISABLE` when no alternate stack is configured.
    pub flags: u32,
}

impl SignalStack {
    /// The unconfigured stack: disabled, empty.
    pub open spec fn spec_default() -> SignalStack {
        SignalStack { sp: 0, size: 0, flags: SS_DISABLE }
    }
}

impl Default for SignalStack {
    /// The unconfigured stack: disabled, empty.
    fn default() -> (r: SignalStack)
        ensures
            r == SignalStack::spec_default(),
    {
        SignalStack { sp: 0, size: 0, flags: SS_DISABLE }
    }
}

/// The fixed-size user-context record written onto the signal stack when a
/// handler asks for extended information. It carries the pre-signal program
/// counter and the signal mask in force when the signal was taken; the
/// handler may adjust the program counter, and the return path reads it back.
#[derive(Clone, Copy, Debug, PartialEq, Eq, Structural)]
pub struct SignalUserContext {
    /// Program counter at which the interrupted code resumes.
    pub pc: usize,
    /// Blocked-signal mask at delivery time.
    pub mask: u64,
}

impl SignalUserContext {
    /// The record for an interruption at `pc` under mask `mask`.
    pub fn init(pc: usize, mask: u64) -> (r: SignalUserContext)
        ensures
            r == (SignalUserContext { pc, mask }),
    {
        SignalUserContext { pc, mask }
    }

    /// The recorded program counter.
    pub fn get_pc(&self) -> (r: usize)
        ensures
            r == self.pc,
    {
        self.pc
    }
}

impl Default for SignalUserContext {
    /// The all-zero record.
    fn default() -> (r: SignalUserContext)
        ensures
            r == (SignalUserContext { pc: 0, mask: 0 }),
    {
        SignalUserContext { pc: 0, mask: 0 }
    }
}

} // verus!

//! The auxiliary payload delivered with a signal.

use vstd::prelude::*;

verus! {

/// The information record handed to a three-argument handler.
#[derive(Clone, Copy, Debug, PartialEq, Eq, Structural)]
pub struct SigInfo {
    /// The signal number.
    pub si_signo: i32,
    /// An errno value.
    pub si_errno: i32,
    /// The code of the signal.
    pub si_code: i32,
    /// Padding up to the pointer-sized field.
    pub pad: u32,
    /// The process id of the sender.
    pub pid: i32,
    /// The real user id of the sender.
    pub uid: u32,
    /// The integer value sent with the signal.
    pub si_val_int: i32,
    /// The pointer value sent with the signal.
    pub si_val_ptr: usize,
}

impl SigInfo {
    /// The empty record: all zero but for the thread-kill code.
    pub open spec fn spec_default() -> SigInfo {
        SigInfo {
            si_signo: 0,
            si_errno: 0,
            si_code: -6i32,
            pad: 0,
            pid: 0,
            uid: 0,
            si_val_int: 0,
            si_val_ptr: 0,
        }
    }
}

impl Default for SigInfo {
    /// The empty record, with `si_code` the thread-kill code.
    fn default() -> (r: SigInfo)
        ensures
            r == SigInfo::spec_default(),
    {
        SigInfo {
            si_signo: 0,
            si_errno: 0,
            si_code: -6,
            pad: 0,
            pid: 0,
            uid: 0,
            si_val_int: 0,
            si_val_ptr: 0,
        }
    }
}

} // verus!

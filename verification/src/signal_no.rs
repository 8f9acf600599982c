//! Signal numbers, 1 through 64.

use vstd::prelude::*;

verus! {

/// Number of distinct signals; signal numbers run from 1 to `MAX_SIG_NUM`.
pub const MAX_SIG_NUM: usize = 64;

/// Signal number of `SIGKILL`, which is never maskable.
pub const SIGKILL_NUM: usize = 9;

/// Signal number of `SIGSTOP`, which is never maskable.
pub const SIGSTOP_NUM: usize = 19;

/// A signal, by name for the 31 standard signals and by number for the
/// real-time range 32..=64.
#[derive(Clone, Copy, Debug, PartialEq, Eq, Structural)]
pub enum SignalNo {
    SIGHUP,
    SIGINT,
    SIGQUIT,
    SIGILL,
    SIGTRAP,
    SIGABRT,
    SIGBUS,
    SIGFPE,
    SIGKILL,
    SIGUSR1,
    SIGSEGV,
    SIGUSR2,
    SIGPIPE,
    SIGALRM,
    SIGTERM,
    SIGSTKFLT,
    SIGCHLD,
    SIGCONT,
    SIGSTOP,
    SIGTSTP,
    SIGTTIN,
    SIGTTOU,
    SIGURG,
    SIGXCPU,
    SIGXFSZ,
    SIGVTALRM,
    SIGPROF,
    SIGWINCH,
    SIGIO,
    SIGPWR,
    SIGSYS,
    /// A real-time signal; the payload is its number, in 32..=64.
    SIGRT(u8),
}

impl SignalNo {
    /// A real-time variant must carry a number in the real-time range.
    pub open spec fn wf(self) -> bool {
        match self {
            SignalNo::SIGRT(k) => 32 <= k <= 64,
            _ => true,
        }
    }

    /// The signal's number.
    pub open spec fn spec_num(self) -> usize {
        match self {
            SignalNo::SIGHUP => 1,
            SignalNo::SIGINT => 2,
            SignalNo::SIGQUIT => 3,
            SignalNo::SIGILL => 4,
            SignalNo::SIGTRAP => 5,
            SignalNo::SIGABRT => 6,
            SignalNo::SIGBUS => 7,
            SignalNo::SIGFPE => 8,
            SignalNo::SIGKILL => 9,
            SignalNo::SIGUSR1 => 10,
            SignalNo::SIGSEGV => 11,
            SignalNo::SIGUSR2 => 12,
            SignalNo::SIGPIPE => 13,
            SignalNo::SIGALRM => 14,
            SignalNo::SIGTERM => 15,
            SignalNo::SIGSTKFLT => 16,
            SignalNo::SIGCHLD => 17,
            SignalNo::SIGCONT => 18,
            SignalNo::SIGSTOP => 19,
            SignalNo::SIGTSTP => 20,
            SignalNo::SIGTTIN => 21,
            SignalNo::SIGTTOU => 22,
            SignalNo::SIGURG => 23,
            SignalNo::SIGXCPU => 24,
            SignalNo::SIGXFSZ => 25,
            SignalNo::SIGVTALRM => 26,
            SignalNo::SIGPROF => 27,
            SignalNo::SIGWINCH => 28,
            SignalNo::SIGIO => 29,
            SignalNo::SIGPWR => 30,
            SignalNo::SIGSYS => 31,
            SignalNo::SIGRT(k) => k as usize,
        }
    }

    /// The signal with number `value`.
    pub open spec fn spec_of(value: usize) -> SignalNo {
        if value == 1 {
            SignalNo::SIGHUP
        } else if value == 2 {
            SignalNo::SIGINT
        } else if value == 3 {
            SignalNo::SIGQUIT
        } else if value == 4 {
            SignalNo::SIGILL
        } else if value == 5 {
            SignalNo::SIGTRAP
        } else if value == 6 {
            SignalNo::SIGABRT
        } else if value == 7 {
            SignalNo::SIGBUS
        } else if value == 8 {
            SignalNo::SIGFPE
        } else if value == 9 {
            SignalNo::SIGKILL
        } else if value == 10 {
            SignalNo::SIGUSR1
        } else if value == 11 {
            SignalNo::SIGSEGV
        } else if value == 12 {
            SignalNo::SIGUSR2
        } else if value == 13 {
            SignalNo::SIGPIPE
        } else if value == 14 {
            SignalNo::SIGALRM
        } else if value == 15 {
            SignalNo::SIGTERM
        } else if value == 16 {
            SignalNo::SIGSTKFLT
        } else if value == 17 {
            SignalNo::SIGCHLD
        } else if value == 18 {
            SignalNo::SIGCONT
        } else if value == 19 {
            SignalNo::SIGSTOP
        } else if value == 20 {
            SignalNo::SIGTSTP
        } else if value == 21 {
            SignalNo::SIGTTIN
        } else if value == 22 {
            SignalNo::SIGTTOU
        } else if value == 23 {
            SignalNo::SIGURG
        } else if value == 24 {
            SignalNo::SIGXCPU
        } else if value == 25 {
            SignalNo::SIGXFSZ
        } else if value == 26 {
            SignalNo::SIGVTALRM
        } else if value == 27 {
            SignalNo::SIGPROF
        } else if value == 28 {
            SignalNo::SIGWINCH
        } else if value == 29 {
            SignalNo::SIGIO
        } else if value == 30 {
            SignalNo::SIGPWR
        } else if value == 31 {
            SignalNo::SIGSYS
        } else {
            SignalNo::SIGRT(value as u8)
        }
    }

    /// Converts a number in 1..=64 to its signal.
    pub fn from(value: usize) -> (r: SignalNo)
        requires
            1 <= value <= MAX_SIG_NUM,
        ensures
            r == SignalNo::spec_of(value),
            r.wf(),
            r.spec_num() == value,
    {
        match value {
            1 => SignalNo::SIGHUP,
            2 => SignalNo::SIGINT,
            3 => SignalNo::SIGQUIT,
            4 => SignalNo::SIGILL,
            5 => SignalNo::SIGTRAP,
            6 => SignalNo::SIGABRT,
            7 => SignalNo::SIGBUS,
            8 => SignalNo::SIGFPE,
            9 => SignalNo::SIGKILL,
            10 => SignalNo::SIGUSR1,
            11 => SignalNo::SIGSEGV,
            12 => SignalNo::SIGUSR2,
            13 => SignalNo::SIGPIPE,
            14 => SignalNo::SIGALRM,
            15 => SignalNo::SIGTERM,
            16 => SignalNo::SIGSTKFLT,
            17 => SignalNo::SIGCHLD,
            18 => SignalNo::SIGCONT,
            19 => SignalNo::SIGSTOP,
            20 => SignalNo::SIGTSTP,
            21 => SignalNo::SIGTTIN,
            22 => SignalNo::SIGTTOU,
            23 => SignalNo::SIGURG,
            24 => SignalNo::SIGXCPU,
            25 => SignalNo::SIGXFSZ,
            26 => SignalNo::SIGVTALRM,
            27 => SignalNo::SIGPROF,
            28 => SignalNo::SIGWINCH,
            29 => SignalNo::SIGIO,
            30 => SignalNo::SIGPWR,
            31 => SignalNo::SIGSYS,
            _ => SignalNo::SIGRT(value as u8),
        }
    }

    /// The signal's number, 1..=64.
    pub fn num(&self) -> (n: usize)
        requires
            self.wf(),
        ensures
            n == self.spec_num(),
            1 <= n <= MAX_SIG_NUM,
    {
        match self {
            SignalNo::SIGHUP => 1,
            SignalNo::SIGINT => 2,
            SignalNo::SIGQUIT => 3,
            SignalNo::SIGILL => 4,
            SignalNo::SIGTRAP => 5,
            SignalNo::SIGABRT => 6,
            SignalNo::SIGBUS => 7,
            SignalNo::SIGFPE => 8,
            SignalNo::SIGKILL => 9,
            SignalNo::SIGUSR1 => 10,
            SignalNo::SIGSEGV => 11,
            SignalNo::SIGUSR2 => 12,
            SignalNo::SIGPIPE => 13,
            SignalNo::SIGALRM => 14,
            SignalNo::SIGTERM => 15,
            SignalNo::SIGSTKFLT => 16,
            SignalNo::SIGCHLD => 17,
            SignalNo::SIGCONT => 18,
            SignalNo::SIGSTOP => 19,
            SignalNo::SIGTSTP => 20,
            SignalNo::SIGTTIN => 21,
            SignalNo::SIGTTOU => 22,
            SignalNo::SIGURG => 23,
            SignalNo::SIGXCPU => 24,
            SignalNo::SIGXFSZ => 25,
            SignalNo::SIGVTALRM => 26,
            SignalNo::SIGPROF => 27,
            SignalNo::SIGWINCH => 28,
            SignalNo::SIGIO => 29,
            SignalNo::SIGPWR => 30,
            SignalNo::SIGSYS => 31,
            SignalNo::SIGRT(k) => *k as usize,
        }
    }
}

} // verus!

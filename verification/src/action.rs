//! Per-signal dispositions: handler choice, flags and default actions.

use vstd::prelude::*;
use crate::signal_no::SignalNo;

verus! {

/// Notify no stop of a child.
pub const SA_NOCLDSTOP: u32 = 1;

/// Do not turn terminated children into zombies.
pub const SA_NOCLDWAIT: u32 = 2;

/// The handler takes the three-argument form and receives a signal-info
/// record and a user-context record.
pub const SA_SIGINFO: u32 = 4;

/// Return from the handler through a caller-supplied restorer.
pub const SA_RESTORER: u32 = 0x0400_0000;

/// Run the handler on the alternate signal stack.
pub const SA_ONSTACK: u32 = 0x0800_0000;

/// Restart an interrupted system call after the handler returns.
pub const SA_RESTART: u32 = 0x1000_0000;

/// Do not mask the signal while its own handler runs.
pub const SA_NODEFER: u32 = 0x4000_0000;

/// Reset the disposition to default on handler entry.
pub const SA_RESETHAND: u32 = 0x8000_0000;

/// The flag set of a signal action.
#[derive(Clone, Copy, Debug, PartialEq, Eq, Structural)]
pub struct SigActionFlags {
    pub bits: u32,
}

impl SigActionFlags {
    /// True when every bit of `m` is set.
    pub open spec fn has(self, m: u32) -> bool {
        self.bits & m == m
    }

    /// The empty flag set.
    pub fn empty() -> (r: SigActionFlags)
        ensures
            r.bits == 0u32,
    {
        SigActionFlags { bits: 0 }
    }

    /// The flag set with exactly the bits of `bits`.
    pub fn from_bits(bits: u32) -> (r: SigActionFlags)
        ensures
            r.bits == bits,
    {
        SigActionFlags { bits }
    }

    /// Whether every bit of `m` is set.
    pub fn contains(&self, m: u32) -> (r: bool)
        ensures
            r == self.has(m),
    {
        self.bits & m == m
    }
}

/// What a signal action does when the signal is delivered: the per-signal
/// default, nothing, or a user handler at the given address.
#[derive(Clone, Copy, Debug, PartialEq, Eq, Structural)]
pub enum SigActionKind {
    Default,
    Ignore,
    Handler(usize),
}

/// One entry of the signal action table.
#[derive(Clone, Copy, Debug, PartialEq, Eq, Structural)]
pub struct SigAction {
    /// The disposition: default, ignore, or a handler address.
    pub sa_handler: SigActionKind,
    /// Flags modifying delivery.
    pub sa_flags: SigActionFlags,
    /// Restorer address, meaningful only under `SA_RESTORER`.
    pub sa_restorer: usize,
    /// Mask installed while the handler runs.
    pub sa_mask: u64,
}

impl SigAction {
    /// The all-clear action: default disposition, no flags.
    pub open spec fn spec_default() -> SigAction {
        SigAction {
            sa_handler: SigActionKind::Default,
            sa_flags: SigActionFlags { bits: 0 },
            sa_restorer: 0,
            sa_mask: 0,
        }
    }

    /// The restorer address when `SA_RESTORER` is set, else `None` (the core
    /// then uses the fixed trampoline).
    pub fn get_storer(&self) -> (r: Option<usize>)
        ensures
            r == if self.sa_flags.has(SA_RESTORER) {
                Some(self.sa_restorer)
            } else {
                None::<usize>
            },
    {
        if self.sa_flags.contains(SA_RESTORER) {
            Some(self.sa_restorer)
        } else {
            None
        }
    }

    /// Whether an interrupted system call restarts after this handler.
    pub fn need_restart(&self) -> (r: bool)
        ensures
            r == self.sa_flags.has(SA_RESTART),
    {
        self.sa_flags.contains(SA_RESTART)
    }
}

impl Default for SigAction {
    /// The all-clear action.
    fn default() -> (r: SigAction)
        ensures
            r == SigAction::spec_default(),
    {
        SigAction {
            sa_handler: SigActionKind::Default,
            sa_flags: SigActionFlags { bits: 0 },
            sa_restorer: 0,
            sa_mask: 0,
        }
    }
}

/// The built-in behaviour of a signal whose action is the default.
#[derive(Clone, Copy, Debug, PartialEq, Eq, Structural)]
pub enum SignalDefault {
    /// Terminate the process.
    Terminate,
    /// Do nothing.
    Ignore,
    /// Terminate the process; no dump is written, so it acts as Terminate.
    Core,
    /// Stop the process (left unimplemented by the dispatcher).
    Stop,
    /// Resume the process (left unimplemented by the dispatcher).
    Cont,
}

impl SignalDefault {
    /// The default disposition table.
    pub open spec fn spec_action(signal: SignalNo) -> SignalDefault {
        match signal {
            SignalNo::SIGABRT => SignalDefault::Core,
            SignalNo::SIGALRM => SignalDefault::Terminate,
            SignalNo::SIGBUS => SignalDefault::Core,
            SignalNo::SIGCHLD => SignalDefault::Ignore,
            SignalNo::SIGCONT => SignalDefault::Cont,
            SignalNo::SIGFPE => SignalDefault::Core,
            SignalNo::SIGHUP => SignalDefault::Terminate,
            SignalNo::SIGILL => SignalDefault::Core,
            SignalNo::SIGINT => SignalDefault::Terminate,
            SignalNo::SIGKILL => SignalDefault::Terminate,
            SignalNo::SIGPIPE => SignalDefault::Terminate,
            SignalNo::SIGQUIT => SignalDefault::Core,
            SignalNo::SIGSEGV => SignalDefault::Core,
            SignalNo::SIGSTOP => SignalDefault::Stop,
            SignalNo::SIGTERM => SignalDefault::Terminate,
            SignalNo::SIGTSTP => SignalDefault::Stop,
            SignalNo::SIGTTIN => SignalDefault::Stop,
            SignalNo::SIGTTOU => SignalDefault::Stop,
            SignalNo::SIGUSR1 => SignalDefault::Terminate,
            SignalNo::SIGUSR2 => SignalDefault::Terminate,
            SignalNo::SIGXCPU => SignalDefault::Core,
            SignalNo::SIGXFSZ => SignalDefault::Core,
            SignalNo::SIGVTALRM => SignalDefault::Terminate,
            SignalNo::SIGPROF => SignalDefault::Terminate,
            SignalNo::SIGWINCH => SignalDefault::Ignore,
            SignalNo::SIGIO => SignalDefault::Terminate,
            SignalNo::SIGPWR => SignalDefault::Terminate,
            SignalNo::SIGSYS => SignalDefault::Core,
            _ => SignalDefault::Terminate,
        }
    }

    /// The default action of `signal`.
    pub fn get_action(signal: SignalNo) -> (r: SignalDefault)
        ensures
            r == SignalDefault::spec_action(signal),
    {
        match signal {
            SignalNo::SIGABRT => SignalDefault::Core,
            SignalNo::SIGALRM => SignalDefault::Terminate,
            SignalNo::SIGBUS => SignalDefault::Core,
            SignalNo::SIGCHLD => SignalDefault::Ignore,
            SignalNo::SIGCONT => SignalDefault::Cont,
            SignalNo::SIGFPE => SignalDefault::Core,
            SignalNo::SIGHUP => SignalDefault::Terminate,
            SignalNo::SIGILL => SignalDefault::Core,
            SignalNo::SIGINT => SignalDefault::Terminate,
            SignalNo::SIGKILL => SignalDefault::Terminate,
            SignalNo::SIGPIPE => SignalDefault::Terminate,
            SignalNo::SIGQUIT => SignalDefault::Core,
            SignalNo::SIGSEGV => SignalDefault::Core,
            SignalNo::SIGSTOP => SignalDefault::Stop,
            SignalNo::SIGTERM => SignalDefault::Terminate,
            SignalNo::SIGTSTP => SignalDefault::Stop,
            SignalNo::SIGTTIN => SignalDefault::Stop,
            SignalNo::SIGTTOU => SignalDefault::Stop,
            SignalNo::SIGUSR1 => SignalDefault::Terminate,
            SignalNo::SIGUSR2 => SignalDefault::Terminate,
            SignalNo::SIGXCPU => SignalDefault::Core,
            SignalNo::SIGXFSZ => SignalDefault::Core,
            SignalNo::SIGVTALRM => SignalDefault::Terminate,
            SignalNo::SIGPROF => SignalDefault::Terminate,
            SignalNo::SIGWINCH => SignalDefault::Ignore,
            SignalNo::SIGIO => SignalDefault::Terminate,
            SignalNo::SIGPWR => SignalDefault::Terminate,
            SignalNo::SIGSYS => SignalDefault::Core,
            _ => SignalDefault::Terminate,
        }
    }
}

} // verus!

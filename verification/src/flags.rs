//! Clone flags and the wait outcome.

use vstd::prelude::*;

verus! {

/// Share the address space.
pub const CLONE_VM: u32 = 0x100;

/// Share filesystem information.
pub const CLONE_FS: u32 = 0x200;

/// Share the file descriptor table.
pub const CLONE_FILES: u32 = 0x400;

/// Share the signal action table.
pub const CLONE_SIGHAND: u32 = 0x800;

/// Place a pidfd in the parent.
pub const CLONE_PIDFD: u32 = 0x1000;

/// Let the tracer continue tracing the child.
pub const CLONE_PTRACE: u32 = 0x2000;

/// Suspend the parent until the child releases its memory.
pub const CLONE_VFORK: u32 = 0x4000;

/// Make the new task a sibling: child of the caller's parent.
pub const CLONE_PARENT: u32 = 0x8000;

/// Add a thread to the caller's thread group instead of a process.
pub const CLONE_THREAD: u32 = 0x10000;

/// New mount namespace.
pub const CLONE_NEWNS: u32 = 0x20000;

/// Share System V semaphore adjustments.
pub const CLONE_SYSVSEM: u32 = 0x40000;

/// Set the new task's thread-local storage.
pub const CLONE_SETTLS: u32 = 0x80000;

/// Store the child tid at the parent-side address.
pub const CLONE_PARENT_SETTID: u32 = 0x100000;

/// Clear the child tid address when the child exits.
pub const CLONE_CHILD_CLEARTID: u32 = 0x200000;

/// Historical, ignored.
pub const CLONE_DETACHED: u32 = 0x400000;

/// Do not let a tracer force CLONE_PTRACE.
pub const CLONE_UNTRACED: u32 = 0x800000;

/// Store the child tid at the child-side address.
pub const CLONE_CHILD_SETTID: u32 = 0x1000000;

/// New cgroup namespace.
pub const CLONE_NEWCGROUP: u32 = 0x2000000;

/// New UTS namespace.
pub const CLONE_NEWUTS: u32 = 0x4000000;

/// New IPC namespace.
pub const CLONE_NEWIPC: u32 = 0x8000000;

/// New user namespace.
pub const CLONE_NEWUSER: u32 = 0x10000000;

/// New pid namespace.
pub const CLONE_NEWPID: u32 = 0x20000000;

/// New network namespace.
pub const CLONE_NEWNET: u32 = 0x40000000;

/// Share the I/O context.
pub const CLONE_IO: u32 = 0x80000000;

/// Every flag bit this core knows; others make the clone call invalid.
pub const KNOWN_CLONE_FLAGS: u32 = 0xffffff00;

/// The clone-flag word above the exit-signal byte.
#[derive(Clone, Copy, Debug, PartialEq, Eq, Structural)]
pub struct CloneFlags {
    pub bits: u32,
}

impl CloneFlags {
    /// True when every bit of `m` is set.
    pub open spec fn has(self, m: u32) -> bool {
        self.bits & m == m
    }

    /// The flag word of `bits`, if every bit is a known flag.
    pub fn from_bits(bits: u32) -> (r: Option<CloneFlags>)
        ensures
            r == if bits & !KNOWN_CLONE_FLAGS == 0u32 {
                Some(CloneFlags { bits })
            } else {
                None::<CloneFlags>
            },
    {
        if bits & !KNOWN_CLONE_FLAGS == 0 {
            Some(CloneFlags { bits })
        } else {
            None
        }
    }

    /// Whether every bit of `m` is set.
    pub fn contains(&self, m: u32) -> (r: bool)
        ensures
            r == self.has(m),
    {
        self.bits & m == m
    }
}

/// The observation a non-blocking wait makes of the selected children.
#[derive(Clone, Copy, Debug, PartialEq, Eq, Structural)]
pub enum WaitStatus {
    /// No matching child exists.
    NotExist,
    /// A matching child exists and still runs.
    Running,
    /// Terminal observation: a matching child has exited. A wait reports
    /// it by reaping the child, so callers polling on `Running` never see
    /// this variant from the scan itself.
    Exited,
}

} // verus!

//! Process, thread-group and signal-delivery core of a monolithic kernel.
//!
//! The crate models the kernel state that these subsystems own — the process
//! registry, per-process thread tables, per-thread signal state and the
//! user-visible trap frames — as one explicit [`kernel::Kernel`] value, and
//! verifies the lifecycle operations (clone, exit, wait/reap) and the signal
//! dispatcher against contracts drawn from their POSIX semantics.
//!
//! The scheduler and the hardware layer are collaborators: the caller hands in
//! the identity of the running thread and performs the actions (yield, task
//! switch) that the operations request.

pub mod action;
pub mod align;
pub mod aspace;
pub mod ctypes;
pub mod delivery;
pub mod dispatch;
pub mod errors;
pub mod flags;
pub mod info;
pub mod kernel;
pub mod laws;
pub mod lifecycle;
pub mod process;
pub mod records;
pub mod signal_no;
pub mod sigset;
pub mod syscalls;
pub mod teardown;
pub mod trapframe;
pub mod ucontext;

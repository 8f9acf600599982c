//! The thread-group entity: per-thread signal state, the thread table and
//! the process record.

use vstd::prelude::*;
use crate::sigset::{SignalHandler, SignalSet, spec_find_sig};
use crate::signal_no::{MAX_SIG_NUM, SignalNo};
use crate::action::SA_RESTART;
use crate::trapframe::TrapFrame;
use crate::ucontext::SignalStack;

verus! {

/// Lowest address of the `brk`-managed heap of a fresh process.
pub const BRK_BOTTOM: usize = 0x4000_0000;

/// Highest address the heap may grow to.
pub const BRK_TOP: usize = 0x8000_0000;

/// The two process states a waiter can observe.
#[derive(Clone, Copy, Debug, PartialEq, Eq, Structural)]
pub enum TaskState {
    Running,
    Exited,
}

/// Per-thread signal state: masks and payloads, the saved trap frame while a
/// handler runs, the delivery style, the exit signal and the alternate stack.
#[derive(Debug)]
pub struct SignalModule {
    /// Whether the frame now delivered used extended-info delivery.
    pub sig_info: bool,
    /// The pre-delivery trap frame; `Some` exactly while a handler is
    /// executing for this thread.
    pub last_trap_frame: Option<TrapFrame>,
    /// Pending and blocked masks with payloads.
    pub sig_set: SignalSet,
    /// The signal to raise in the parent on exit, when one was requested.
    pub exit_sig: Option<SignalNo>,
    /// The configured alternate signal stack.
    pub stack: SignalStack,
}

impl SignalModule {
    /// The payload table covers every signal.
    pub open spec fn wf(self) -> bool {
        self.sig_set.wf()
    }

    /// A module as built for a fresh thread: nothing pending or blocked, no
    /// saved frame, no alternate stack.
    pub open spec fn spec_fresh(m: SignalModule) -> bool {
        &&& m.wf()
        &&& m.sig_info == false
        &&& m.last_trap_frame is None
        &&& m.sig_set.mask == 0u64
        &&& m.sig_set.pending == 0u64
        &&& (forall|i: int| 0 <= i < MAX_SIG_NUM ==> m.sig_set.info@[i] is None)
        &&& m.exit_sig is None
        &&& m.stack == SignalStack::spec_default()
    }

    /// The module of a fresh thread.
    pub fn new() -> (r: SignalModule)
        ensures
            SignalModule::spec_fresh(r),
    {
        SignalModule {
            sig_info: false,
            last_trap_frame: None,
            sig_set: SignalSet::new(),
            exit_sig: None,
            stack: SignalStack::default(),
        }
    }

    /// Whether the signal that would be delivered next asks for a syscall
    /// restart, under the thread group's action table.
    pub fn have_restart_signal(&self, handler: &SignalHandler) -> (r: Option<bool>)
        requires
            self.wf(),
            handler.wf(),
        ensures
            r == match spec_find_sig(self.sig_set.pending, self.sig_set.mask) {
                Some(n) => Some(handler.handlers@[n - 1].sa_flags.has(SA_RESTART)),
                None => None::<bool>,
            },
    {
        match self.sig_set.find_sig() {
            Some(sig_num) => Some(handler.get_action(sig_num).need_restart()),
            None => None,
        }
    }

    /// Records the exit signal of this thread.
    pub fn set_exit_signal(&mut self, sig_num: SignalNo)
        ensures
            *final(self) == (SignalModule { exit_sig: Some(sig_num), ..*old(self) }),
    {
        self.exit_sig = Some(sig_num);
    }

    /// The recorded exit signal, if any.
    pub fn get_exit_signal(&self) -> (r: Option<SignalNo>)
        ensures
            r == self.exit_sig,
    {
        self.exit_sig
    }
}

/// One thread of a process: its id, its saved user trap frame, the
/// clear-on-exit tid address, and its signal module (present until the
/// thread exits).
#[derive(Debug)]
pub struct Thread {
    /// Thread id; the main thread's id equals the process id.
    pub tid: u64,
    /// The saved user-mode register state of this thread.
    pub frame: TrapFrame,
    /// Address cleared at thread exit when nonzero.
    pub clear_child_tid: usize,
    /// Signal state; removed when the thread exits.
    pub sig: Option<SignalModule>,
}

impl Thread {
    /// A present signal module is well formed.
    pub open spec fn wf(self) -> bool {
        match self.sig {
            Some(m) => m.wf(),
            None => true,
        }
    }
}

/// The process (thread-group) record.
#[derive(Debug)]
pub struct Process {
    /// Process id, unique and never reused.
    pub pid: u64,
    /// Parent process id; rewritten to the root process when the parent
    /// exits first.
    pub ppid: u64,
    /// Whether the process registry still lists this process.
    pub in_registry: bool,
    /// Pids of the children, in creation order; an entry leaves exactly
    /// once, at a successful reap.
    pub children: Vec<u64>,
    /// The threads; index 0 is the main thread, whose id is the pid.
    pub threads: Vec<Thread>,
    /// Index of the shared address space in the kernel's table.
    pub aspace_id: usize,
    /// The signal action table shared by the thread group.
    pub signal_handler: SignalHandler,
    /// Exit code, stored once at the end of process exit.
    pub exit_code: i32,
    /// Set once at the start of process exit.
    pub is_exited: bool,
    /// Bottom of the heap range.
    pub heap_bottom: usize,
    /// Top of the heap range.
    pub heap_top: usize,
    /// Current program break.
    pub heap_current: usize,
    /// Whether the file table is shared with the creator.
    pub files_shared: bool,
}

impl Process {
    /// Structural well-formedness: a main thread at index 0 whose id is the
    /// pid, distinct thread ids, well-formed signal state.
    pub open spec fn wf(self) -> bool {
        &&& self.signal_handler.wf()
        &&& self.threads@.len() >= 1
        &&& self.threads@[0].tid == self.pid
        &&& (forall|i: int, j: int|
            0 <= i < j < self.threads@.len() ==> self.threads@[i].tid != self.threads@[j].tid)
        &&& (forall|i: int| 0 <= i < self.threads@.len() ==> (#[trigger] self.threads@[i]).wf())
        &&& (forall|i: int, j: int|
            0 <= i < j < self.children@.len() ==> self.children@[i] != self.children@[j])
        &&& (forall|i: int| 0 <= i < self.children@.len() ==> (#[trigger] self.children@[i])
            != self.pid)
    }

    /// Whether a thread with id `tid` belongs to this process.
    pub open spec fn spec_has_tid(self, tid: u64) -> bool {
        exists|i: int| 0 <= i < self.threads@.len() && (#[trigger] self.threads@[i]).tid == tid
    }

    /// The index of the thread with id `tid`.
    pub open spec fn spec_tid_index(self, tid: u64) -> int {
        choose|i: int| 0 <= i < self.threads@.len() && (#[trigger] self.threads@[i]).tid == tid
    }

    /// A fresh process: one main thread with a fresh signal module, no
    /// children, registered, not exited, heap at its bottom.
    pub fn new(ppid: u64, pid: u64, aspace_id: usize, frame: TrapFrame) -> (r: Process)
        ensures
            r.wf(),
            r.pid == pid,
            r.ppid == ppid,
            r.in_registry == true,
            r.children@ == Seq::<u64>::empty(),
            r.threads@.len() == 1,
            r.threads@[0].tid == pid,
            r.threads@[0].frame == frame,
            r.threads@[0].clear_child_tid == 0usize,
            r.threads@[0].sig is Some,
            SignalModule::spec_fresh(r.threads@[0].sig->0),
            r.aspace_id == aspace_id,
            (forall|i: int|
                0 <= i < MAX_SIG_NUM ==> r.signal_handler.handlers@[i]
                    == crate::action::SigAction::spec_default()),
            r.exit_code == 0i32,
            r.is_exited == false,
            r.heap_bottom == BRK_BOTTOM,
            r.heap_top == BRK_TOP,
            r.heap_current == BRK_BOTTOM,
            r.files_shared == false,
    {
        let main = Thread { tid: pid, frame, clear_child_tid: 0, sig: Some(SignalModule::new()) };
        let mut threads: Vec<Thread> = Vec::new();
        threads.push(main);
        Process {
            pid,
            ppid,
            in_registry: true,
            children: Vec::new(),
            threads,
            aspace_id,
            signal_handler: SignalHandler::new(),
            exit_code: 0,
            is_exited: false,
            heap_bottom: BRK_BOTTOM,
            heap_top: BRK_TOP,
            heap_current: BRK_BOTTOM,
            files_shared: false,
        }
    }

    /// The state a waiter observes.
    pub fn state(&self) -> (r: TaskState)
        ensures
            r == if self.is_exited {
                TaskState::Exited
            } else {
                TaskState::Running
            },
    {
        if self.is_exited {
            TaskState::Exited
        } else {
            TaskState::Running
        }
    }

    /// The id of the main thread, which equals the pid.
    pub fn main_thread(&self) -> (r: u64)
        requires
            self.wf(),
        ensures
            r == self.pid,
            self.spec_has_tid(r),
    {
        proof {
            assert(self.threads@[0].tid == self.pid);
        }
        self.pid
    }

    /// Whether `tid` names the main thread.
    pub fn is_main_thread(&self, tid: u64) -> (r: bool)
        ensures
            r == (tid == self.pid),
    {
        tid == self.pid
    }

    /// The stored exit code.
    pub fn exit_code(&self) -> (r: i32)
        ensures
            r == self.exit_code,
    {
        self.exit_code
    }

    /// Adds a thread with a fresh signal module, as thread-creating clone
    /// does.
    pub fn add_thread(&mut self, tid: u64, frame: TrapFrame)
        requires
            old(self).wf(),
            !old(self).spec_has_tid(tid),
        ensures
            final(self).wf(),
            final(self).threads@.len() == old(self).threads@.len() + 1,
            final(self).threads@.subrange(0, old(self).threads@.len() as int) == old(
                self,
            ).threads@,
            final(self).threads@.last().tid == tid,
            final(self).threads@.last().frame == frame,
            final(self).threads@.last().clear_child_tid == 0usize,
            final(self).threads@.last().sig is Some,
            SignalModule::spec_fresh(final(self).threads@.last().sig->0),
            *final(self) == (Process { threads: final(self).threads, ..*old(self) }),
    {
        let t = Thread { tid, frame, clear_child_tid: 0, sig: Some(SignalModule::new()) };
        self.threads.push(t);
        proof {
            assert(self.threads@.subrange(0, old(self).threads@.len() as int) =~= old(
                self,
            ).threads@);
            assert forall|i: int, j: int|
                0 <= i < j < self.threads@.len() implies self.threads@[i].tid
                != self.threads@[j].tid by {
                if j < old(self).threads@.len() {
                } else {
                    assert(!old(self).spec_has_tid(tid));
                }
            }
        }
    }

    /// The index of the thread with id `tid`, if it is one of ours.
    pub fn find_thread(&self, tid: u64) -> (r: Option<usize>)
        requires
            self.wf(),
        ensures
            match r {
                Some(i) => {
                    &&& i < self.threads@.len()
                    &&& self.threads@[i as int].tid == tid
                    &&& self.spec_has_tid(tid)
                    &&& i == self.spec_tid_index(tid)
                },
                None => !self.spec_has_tid(tid),
            },
    {
        let n = self.threads.len();
        let mut i: usize = 0;
        while i < n
            invariant
                i <= n,
                n == self.threads@.len(),
                self.wf(),
                forall|k: int| 0 <= k < i ==> (#[trigger] self.threads@[k]).tid != tid,
            decreases n - i,
        {
            if self.threads[i].tid == tid {
                proof {
                    let w = self.spec_tid_index(tid);
                    assert(0 <= w < self.threads@.len() && self.threads@[w].tid == tid);
                    if w != i as int {
                        assert(self.threads@[w].tid != self.threads@[i as int].tid);
                    }
                }
                return Some(i);
            }
            i += 1;
        }
        None
    }
}

} // verus!

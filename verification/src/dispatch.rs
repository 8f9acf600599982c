//! Signal posting and per-thread signal state calls: kill, mask changes,
//! the alternate stack and the action table.

use vstd::prelude::*;
use crate::action::SigAction;
use crate::ctypes::{SigMaskFlag, SIGSET_SIZE_IN_BYTE};
use crate::errors::KernelError;
use crate::info::SigInfo;
use crate::kernel::Kernel;
use crate::process::{Process, SignalModule, Thread};
use crate::signal_no::MAX_SIG_NUM;
use crate::sigset::sig_bit;
use crate::ucontext::SignalStack;
use crate::aspace::AddrSpace;
use crate::records::{u64_from_le_at, UCTX_PC_OFFSET};
use crate::trapframe::TrapFrame;
use vstd::bytes::spec_u64_from_le_bytes;

verus! {

impl Kernel {
    /// What posting signal `signum` to the main thread of `pid` changes:
    /// exactly the pending bit, and the payload slot when info came along.
    #[verifier::inline]
    pub open spec fn spec_send_post(
        pre: Kernel,
        post: Kernel,
        pid: u64,
        signum: usize,
        info: Option<SigInfo>,
    ) -> bool {
        let pre_p = pre.spec_proc(pid);
        let pre_m = pre_p.threads@[0].sig->0;
        let post_p = post.spec_proc(pid);
        let post_m = post_p.threads@[0].sig->0;
        &&& post.has_proc(pid)
        &&& post_p.threads@ == pre_p.threads@.update(
            0,
            Thread { sig: Some(post_m), ..pre_p.threads@[0] },
        )
        &&& post_m.sig_set.pending == pre_m.sig_set.pending | sig_bit(signum)
        &&& post_m.sig_set.mask == pre_m.sig_set.mask
        &&& post_m.sig_set.info@ == (match info {
            Some(si) => pre_m.sig_set.info@.update(signum - 1, Some(si)),
            None => pre_m.sig_set.info@,
        })
        &&& post_m == (SignalModule { sig_set: post_m.sig_set, ..pre_m })
        &&& post_p == (Process { threads: post_p.threads, ..pre_p })
        &&& Kernel::same_procs_except(pre, post, set![pid])
    }

    /// Posts a signal to a process: sets the pending bit (and stores the
    /// payload) in the main thread's signal module. Fails with `NotFound`
    /// exactly when the registry does not resolve the pid. A registered
    /// target whose main thread's signal state is already torn down (the
    /// process is mid-exit, holding the thread-group barrier) resolves but
    /// takes no signal: the call succeeds without effect.
    pub fn send_signal_to_proc(&mut self, pid: u64, signum: usize, info: Option<SigInfo>) -> (r:
        Result<(), KernelError>)
        requires
            old(self).wf(),
            1 <= signum <= MAX_SIG_NUM,
        ensures
            final(self).wf(),
            final(self).aspaces == old(self).aspaces,
            final(self).next_task_id == old(self).next_task_id,
            final(self).trampoline == old(self).trampoline,
            match r {
                Ok(()) => {
                    &&& old(self).registered(pid)
                    &&& (if old(self).spec_proc(pid).threads@[0].sig is Some {
                        Kernel::spec_send_post(*old(self), *final(self), pid, signum, info)
                    } else {
                        *final(self) == *old(self)
                    })
                },
                Err(e) => {
                    &&& e == KernelError::NotFound
                    &&& !old(self).registered(pid)
                    &&& *final(self) == *old(self)
                },
            },
    {
        let ghost pre = *old(self);
        let ci = match self.find_proc(pid) {
            Some(i) => i,
            None => {
                return Err(KernelError::NotFound);
            },
        };
        if !self.procs[ci].in_registry {
            return Err(KernelError::NotFound);
        }
        if self.procs[ci].threads[0].sig.is_none() {
            return Ok(());
        }
        let mut p = self.procs.remove(ci);
        let t = p.threads.remove(0);
        let Thread { tid: t_tid, frame: t_frame, clear_child_tid: t_cct, sig: sig_opt } = t;
        let mut m = match sig_opt {
            Some(m) => m,
            None => {
                proof {
                    assert(false);
                }
                p.threads.insert(
                    0,
                    Thread { tid: t_tid, frame: t_frame, clear_child_tid: t_cct, sig: None },
                );
                self.procs.insert(ci, p);
                return Err(KernelError::NotFound);
            },
        };
        m.sig_set.try_add_sig(signum, info);
        p.threads.insert(
            0,
            Thread { tid: t_tid, frame: t_frame, clear_child_tid: t_cct, sig: Some(m) },
        );
        self.procs.insert(ci, p);
        proof {
            let post = *self;
            assert(post.procs@ =~= pre.procs@.update(ci as int, post.procs@[ci as int]));
            assert(post.procs@[ci as int].threads@ =~= pre.procs@[ci as int].threads@.update(
                0,
                Thread {
                    sig: Some(post.procs@[ci as int].threads@[0].sig->0),
                    ..pre.procs@[ci as int].threads@[0]
                },
            ));
            assert(post.wf());
            pre.lemma_proc_at(ci as int);
            post.lemma_proc_at(ci as int);
            assert forall|q: u64| #[trigger] pre.has_proc(q) && !set![pid].contains(q) implies
                post.has_proc(q) && post.spec_proc(q) == pre.spec_proc(q) by {
                let j = pre.spec_proc_index(q);
                pre.lemma_proc_at(j);
                assert(post.procs@[j].pid == q);
                post.lemma_proc_at(j);
            }
            assert forall|q: u64| #[trigger] post.has_proc(q) implies pre.has_proc(q)
                || set![pid].contains(q) by {
                let j = post.spec_proc_index(q);
                pre.lemma_proc_at(j);
            }
        }
        Ok(())
    }

    /// The kill call: a positive pid with a valid signal posts the signal
    /// to that process, failing with `NotFound` when no such process is
    /// registered; pid zero has no process-group semantics and reports
    /// `NotFound`; anything else is invalid.
    pub fn sys_kill(&mut self, pid: isize, signum: isize) -> (r: Result<i32, KernelError>)
        requires
            old(self).wf(),
        ensures
            final(self).wf(),
            final(self).aspaces == old(self).aspaces,
            final(self).next_task_id == old(self).next_task_id,
            final(self).trampoline == old(self).trampoline,
            ({
                let pre = *old(self);
                let post = *final(self);
                if pid > 0 && 1 <= signum <= MAX_SIG_NUM {
                    if pre.registered(pid as u64) {
                        &&& r == Ok::<i32, KernelError>(0)
                        &&& (if pre.spec_proc(pid as u64).threads@[0].sig is Some {
                            Kernel::spec_send_post(pre, post, pid as u64, signum as usize, None)
                        } else {
                            post == pre
                        })
                    } else {
                        r == Err::<i32, KernelError>(KernelError::NotFound) && post == pre
                    }
                } else if pid == 0 {
                    r == Err::<i32, KernelError>(KernelError::NotFound) && post == pre
                } else {
                    r == Err::<i32, KernelError>(KernelError::InvalidArgument) && post == pre
                }
            }),
    {
        if pid > 0 && signum > 0 && signum <= 64 {
            match self.send_signal_to_proc(pid as u64, signum as usize, None) {
                Ok(()) => Ok(0),
                Err(e) => Err(e),
            }
        } else if pid == 0 {
            Err(KernelError::NotFound)
        } else {
            Err(KernelError::InvalidArgument)
        }
    }

    /// Replaces the action of signal `signum` in the thread group's table.
    pub fn set_signal_action(&mut self, pid: u64, signum: usize, action: &SigAction)
        requires
            old(self).wf(),
            old(self).has_proc(pid),
            1 <= signum <= MAX_SIG_NUM,
        ensures
            final(self).wf(),
            final(self).aspaces == old(self).aspaces,
            final(self).next_task_id == old(self).next_task_id,
            final(self).trampoline == old(self).trampoline,
            ({
                let pre = *old(self);
                let post = *final(self);
                let pre_p = pre.spec_proc(pid);
                let post_p = post.spec_proc(pid);
                &&& post.has_proc(pid)
                &&& post_p.signal_handler.handlers@ == pre_p.signal_handler.handlers@.update(
                    signum - 1,
                    *action,
                )
                &&& post_p == (Process { signal_handler: post_p.signal_handler, ..pre_p })
                &&& Kernel::same_procs_except(pre, post, set![pid])
            }),
    {
        let ghost pre = *old(self);
        let ci = match self.find_proc(pid) {
            Some(i) => i,
            None => {
                proof {
                    assert(false);
                }
                return ;
            },
        };
        let mut p = self.procs.remove(ci);
        p.signal_handler.set_action(signum, action);
        self.procs.insert(ci, p);
        proof {
            let post = *self;
            assert(post.procs@ =~= pre.procs@.update(ci as int, post.procs@[ci as int]));
            assert(post.wf());
            pre.lemma_proc_at(ci as int);
            post.lemma_proc_at(ci as int);
            assert forall|q: u64| #[trigger] pre.has_proc(q) && !set![pid].contains(q) implies
                post.has_proc(q) && post.spec_proc(q) == pre.spec_proc(q) by {
                let j = pre.spec_proc_index(q);
                pre.lemma_proc_at(j);
                assert(post.procs@[j].pid == q);
                post.lemma_proc_at(j);
            }
            assert forall|q: u64| #[trigger] post.has_proc(q) implies pre.has_proc(q)
                || set![pid].contains(q) by {
                let j = post.spec_proc_index(q);
                pre.lemma_proc_at(j);
            }
        }
    }

    /// The new blocked mask an operation produces.
    pub open spec fn spec_mask_after(flag: SigMaskFlag, cur: u64, new_mask: Option<u64>) -> u64 {
        match new_mask {
            None => cur,
            Some(nm) => match flag {
                SigMaskFlag::Block => cur | nm,
                SigMaskFlag::Unblock => cur & !nm,
                SigMaskFlag::Setmask => nm,
            },
        }
    }

    /// The mask call: reports the calling thread's blocked mask and applies
    /// the requested combination. Only the advertised signal-set size is
    /// accepted.
    pub fn sys_sigprocmask(
        &mut self,
        pid: u64,
        tid: u64,
        flag: SigMaskFlag,
        new_mask: Option<u64>,
        sigsetsize: usize,
    ) -> (r: Result<u64, KernelError>)
        requires
            old(self).wf(),
            old(self).has_proc(pid),
            old(self).spec_proc(pid).spec_has_tid(tid),
            old(self).spec_proc(pid).threads@[old(self).spec_proc(pid).spec_tid_index(
                tid,
            )].sig is Some,
        ensures
            final(self).wf(),
            final(self).aspaces == old(self).aspaces,
            final(self).next_task_id == old(self).next_task_id,
            final(self).trampoline == old(self).trampoline,
            ({
                let pre = *old(self);
                let post = *final(self);
                let pre_p = pre.spec_proc(pid);
                let ti = pre_p.spec_tid_index(tid);
                let pre_m = pre_p.threads@[ti].sig->0;
                if sigsetsize != SIGSET_SIZE_IN_BYTE {
                    r == Err::<u64, KernelError>(KernelError::InvalidArgument) && post == pre
                } else {
                    let post_p = post.spec_proc(pid);
                    let post_m = post_p.threads@[ti].sig->0;
                    &&& r == Ok::<u64, KernelError>(pre_m.sig_set.mask)
                    &&& post.has_proc(pid)
                    &&& post_p.threads@ == pre_p.threads@.update(
                        ti,
                        Thread { sig: Some(post_m), ..pre_p.threads@[ti] },
                    )
                    &&& post_m.sig_set.mask == Kernel::spec_mask_after(
                        flag,
                        pre_m.sig_set.mask,
                        new_mask,
                    )
                    &&& post_m.sig_set.pending == pre_m.sig_set.pending
                    &&& post_m.sig_set.info == pre_m.sig_set.info
                    &&& post_m == (SignalModule { sig_set: post_m.sig_set, ..pre_m })
                    &&& post_p == (Process { threads: post_p.threads, ..pre_p })
                    &&& Kernel::same_procs_except(pre, post, set![pid])
                }
            }),
    {
        if sigsetsize != SIGSET_SIZE_IN_BYTE {
            return Err(KernelError::InvalidArgument);
        }
        let ghost pre = *old(self);
        let ci = match self.find_proc(pid) {
            Some(i) => i,
            None => {
                proof {
                    assert(false);
                }
                return Err(KernelError::NotFound);
            },
        };
        let mut p = self.procs.remove(ci);
        let ti = match p.find_thread(tid) {
            Some(t) => t,
            None => {
                proof {
                    assert(false);
                }
                self.procs.insert(ci, p);
                return Err(KernelError::NotFound);
            },
        };
        let t = p.threads.remove(ti);
        let Thread { tid: t_tid, frame: t_frame, clear_child_tid: t_cct, sig: sig_opt } = t;
        let mut m = match sig_opt {
            Some(m) => m,
            None => {
                proof {
                    assert(false);
                }
                p.threads.insert(
                    ti,
                    Thread { tid: t_tid, frame: t_frame, clear_child_tid: t_cct, sig: None },
                );
                self.procs.insert(ci, p);
                return Err(KernelError::NotFound);
            },
        };
        let old_mask = m.sig_set.mask;
        if let Some(nm) = new_mask {
            match flag {
                SigMaskFlag::Block => {
                    m.sig_set.mask = m.sig_set.mask | nm;
                },
                SigMaskFlag::Unblock => {
                    m.sig_set.mask = m.sig_set.mask & !nm;
                },
                SigMaskFlag::Setmask => {
                    m.sig_set.mask = nm;
                },
            }
        }
        p.threads.insert(
            ti,
            Thread { tid: t_tid, frame: t_frame, clear_child_tid: t_cct, sig: Some(m) },
        );
        self.procs.insert(ci, p);
        proof {
            let post = *self;
            assert(post.procs@ =~= pre.procs@.update(ci as int, post.procs@[ci as int]));
            assert(post.procs@[ci as int].threads@ =~= pre.procs@[ci as int].threads@.update(
                ti as int,
                Thread {
                    sig: Some(post.procs@[ci as int].threads@[ti as int].sig->0),
                    ..pre.procs@[ci as int].threads@[ti as int]
                },
            ));
            assert(post.wf());
            pre.lemma_proc_at(ci as int);
            post.lemma_proc_at(ci as int);
            assert forall|q: u64| #[trigger] pre.has_proc(q) && !set![pid].contains(q) implies
                post.has_proc(q) && post.spec_proc(q) == pre.spec_proc(q) by {
                let j = pre.spec_proc_index(q);
                pre.lemma_proc_at(j);
                assert(post.procs@[j].pid == q);
                post.lemma_proc_at(j);
            }
            assert forall|q: u64| #[trigger] post.has_proc(q) implies pre.has_proc(q)
                || set![pid].contains(q) by {
                let j = post.spec_proc_index(q);
                pre.lemma_proc_at(j);
            }
        }
        Ok(old_mask)
    }

    /// The alternate-stack call: reports the thread's current alternate
    /// stack and installs the new one when given.
    pub fn sys_sigaltstack(&mut self, pid: u64, tid: u64, new: Option<SignalStack>) -> (r:
        SignalStack)
        requires
            old(self).wf(),
            old(self).has_proc(pid),
            old(self).spec_proc(pid).spec_has_tid(tid),
            old(self).spec_proc(pid).threads@[old(self).spec_proc(pid).spec_tid_index(
                tid,
            )].sig is Some,
        ensures
            final(self).wf(),
            final(self).aspaces == old(self).aspaces,
            final(self).next_task_id == old(self).next_task_id,
            final(self).trampoline == old(self).trampoline,
            ({
                let pre = *old(self);
                let post = *final(self);
                let pre_p = pre.spec_proc(pid);
                let ti = pre_p.spec_tid_index(tid);
                let pre_m = pre_p.threads@[ti].sig->0;
                let post_p = post.spec_proc(pid);
                let post_m = post_p.threads@[ti].sig->0;
                &&& r == pre_m.stack
                &&& post.has_proc(pid)
                &&& post_p.threads@ == pre_p.threads@.update(
                    ti,
                    Thread { sig: Some(post_m), ..pre_p.threads@[ti] },
                )
                &&& post_m == (SignalModule {
                    stack: match new {
                        Some(st) => st,
                        None => pre_m.stack,
                    },
                    ..pre_m
                })
                &&& post_p == (Process { threads: post_p.threads, ..pre_p })
                &&& Kernel::same_procs_except(pre, post, set![pid])
            }),
    {
        let ghost pre = *old(self);
        let ci = match self.find_proc(pid) {
            Some(i) => i,
            None => {
                proof {
                    assert(false);
                }
                return SignalStack::default();
            },
        };
        let mut p = self.procs.remove(ci);
        let ti = match p.find_thread(tid) {
            Some(t) => t,
            None => {
                proof {
                    assert(false);
                }
                self.procs.insert(ci, p);
                return SignalStack::default();
            },
        };
        let t = p.threads.remove(ti);
        let Thread { tid: t_tid, frame: t_frame, clear_child_tid: t_cct, sig: sig_opt } = t;
        let mut m = match sig_opt {
            Some(m) => m,
            None => {
                proof {
                    assert(false);
                }
                p.threads.insert(
                    ti,
                    Thread { tid: t_tid, frame: t_frame, clear_child_tid: t_cct, sig: None },
                );
                self.procs.insert(ci, p);
                return SignalStack::default();
            },
        };
        let old_stack = m.stack;
        if let Some(st) = new {
            m.stack = st;
        }
        p.threads.insert(
            ti,
            Thread { tid: t_tid, frame: t_frame, clear_child_tid: t_cct, sig: Some(m) },
        );
        self.procs.insert(ci, p);
        proof {
            let post = *self;
            assert(post.procs@ =~= pre.procs@.update(ci as int, post.procs@[ci as int]));
            assert(post.procs@[ci as int].threads@ =~= pre.procs@[ci as int].threads@.update(
                ti as int,
                Thread {
                    sig: Some(post.procs@[ci as int].threads@[ti as int].sig->0),
                    ..pre.procs@[ci as int].threads@[ti as int]
                },
            ));
            assert(post.wf());
            pre.lemma_proc_at(ci as int);
            post.lemma_proc_at(ci as int);
            assert forall|q: u64| #[trigger] pre.has_proc(q) && !set![pid].contains(q) implies
                post.has_proc(q) && post.spec_proc(q) == pre.spec_proc(q) by {
                let j = pre.spec_proc_index(q);
                pre.lemma_proc_at(j);
                assert(post.procs@[j].pid == q);
                post.lemma_proc_at(j);
            }
            assert forall|q: u64| #[trigger] post.has_proc(q) implies pre.has_proc(q)
                || set![pid].contains(q) by {
                let j = post.spec_proc_index(q);
                pre.lemma_proc_at(j);
            }
        }
        old_stack
    }
}


/// Whether `n` bytes from `addr` can all be read.
pub open spec fn spec_mem_readable(a: AddrSpace, addr: usize, n: usize) -> bool {
    &&& addr + n <= usize::MAX
    &&& (forall|k: int| 0 <= k < n ==> #[trigger] a.is_mapped((addr + k) as usize))
}

/// The little-endian 64-bit value visible at `addr`.
pub open spec fn spec_mem_u64(a: AddrSpace, addr: usize) -> u64 {
    spec_u64_from_le_bytes(Seq::new(8, |k: int| a.spec_byte((addr + k) as usize)))
}

/// The frame a signal return restores: the saved frame, with the program
/// counter taken back from the user-context record on the handler's final
/// stack when extended-info delivery was used and the record is readable.
pub open spec fn spec_restored_frame(a: AddrSpace, m: SignalModule, cur: TrapFrame) -> TrapFrame {
    let saved = m.last_trap_frame->0;
    if m.sig_info {
        if spec_mem_readable(a, cur.sp, 8) {
            TrapFrame { sepc: spec_mem_u64(a, cur.sp) as usize, ..saved }
        } else {
            saved
        }
    } else {
        saved
    }
}

impl Kernel {
    /// What restoring the saved trap frame guarantees.
    #[verifier::inline]
    pub open spec fn spec_load_trap_post(
        pre: Kernel,
        post: Kernel,
        pid: u64,
        tid: u64,
        r: bool,
    ) -> bool {
        let pre_p = pre.spec_proc(pid);
        let ti = pre_p.spec_tid_index(tid);
        let pre_t = pre_p.threads@[ti];
        let pre_m = pre_t.sig->0;
        &&& r == (pre_m.last_trap_frame is Some)
        &&& if !r {
            post == pre
        } else {
            let post_p = post.spec_proc(pid);
            let post_m = post_p.threads@[ti].sig->0;
            &&& post.has_proc(pid)
            &&& post_p.threads@ == pre_p.threads@.update(
                ti,
                Thread {
                    frame: spec_restored_frame(
                        pre.aspaces@[pre_p.aspace_id as int],
                        pre_m,
                        pre_t.frame,
                    ),
                    sig: Some(post_m),
                    ..pre_t
                },
            )
            &&& post_m == (SignalModule { last_trap_frame: None, ..pre_m })
            &&& post_p == (Process { threads: post_p.threads, ..pre_p })
            &&& post.aspaces == pre.aspaces
            &&& post.next_task_id == pre.next_task_id
            &&& post.trampoline == pre.trampoline
            &&& Kernel::same_procs_except(pre, post, set![pid])
        }
    }

    /// Restores the thread's pre-delivery trap frame, if a handler was in
    /// flight: the saved frame comes back (its program counter re-read from
    /// the user-context record under extended-info delivery) and the saved
    /// slot clears, returning the dispatcher to its idle state.
    #[verifier::rlimit(100)]
    #[verifier::spinoff_prover]
    pub fn load_trap_for_signal(&mut self, pid: u64, tid: u64) -> (r: bool)
        requires
            old(self).wf(),
            old(self).has_proc(pid),
            old(self).spec_proc(pid).spec_has_tid(tid),
            old(self).spec_proc(pid).threads@[old(self).spec_proc(pid).spec_tid_index(
                tid,
            )].sig is Some,
        ensures
            final(self).wf(),
            Kernel::spec_load_trap_post(*old(self), *final(self), pid, tid, r),
    {
        let ghost pre = *old(self);
        let ci = match self.find_proc(pid) {
            Some(i) => i,
            None => {
                proof {
                    assert(false);
                }
                return false;
            },
        };
        let ti = match self.procs[ci].find_thread(tid) {
            Some(t) => t,
            None => {
                proof {
                    assert(false);
                }
                return false;
            },
        };
        let (has_saved, use_info) = match &self.procs[ci].threads[ti].sig {
            Some(m) => (m.last_trap_frame.is_some(), m.sig_info),
            None => {
                proof {
                    assert(false);
                }
                (false, false)
            },
        };
        if !has_saved {
            return false;
        }
        let saved = match &self.procs[ci].threads[ti].sig {
            Some(m) => match &m.last_trap_frame {
                Some(f) => *f,
                None => {
                    proof {
                        assert(false);
                    }
                    TrapFrame::default()
                },
            },
            None => {
                proof {
                    assert(false);
                }
                TrapFrame::default()
            },
        };
        let sp = self.procs[ci].threads[ti].frame.sp;
        let mut newf = saved;
        if use_info {
            let asid = self.procs[ci].aspace_id;
            match self.aspaces[asid].read_bytes(sp + UCTX_PC_OFFSET, 8) {
                Some(v) => {
                    let pc64 = u64_from_le_at(&v, 0);
                    newf.sepc = #[verifier::truncate] (pc64 as usize);
                    proof {
                        let a = pre.aspaces@[pre.spec_proc(pid).aspace_id as int];
                        assert(v@.subrange(0, 8) =~= Seq::new(
                            8,
                            |k: int| a.spec_byte((sp + k) as usize),
                        ));
                        assert(newf == (TrapFrame {
                            sepc: spec_mem_u64(a, sp) as usize,
                            ..saved
                        }));
                    }
                },
                None => {
                    proof {
                        let a = pre.aspaces@[pre.spec_proc(pid).aspace_id as int];
                        assert(!spec_mem_readable(a, sp, 8));
                    }
                },
            }
        }
        proof {
            let a = pre.aspaces@[pre.spec_proc(pid).aspace_id as int];
            let pre_t = pre.spec_proc(pid).threads@[ti as int];
            let pre_m = pre_t.sig->0;
            assert(newf == spec_restored_frame(a, pre_m, pre_t.frame));
        }
        let mut p = self.procs.remove(ci);
        let t = p.threads.remove(ti);
        let Thread { tid: t_tid, frame: _old_frame, clear_child_tid: t_cct, sig: sig_opt } = t;
        let mut m = match sig_opt {
            Some(m) => m,
            None => {
                proof {
                    assert(false);
                }
                p.threads.insert(
                    ti,
                    Thread { tid: t_tid, frame: _old_frame, clear_child_tid: t_cct, sig: None },
                );
                self.procs.insert(ci, p);
                return false;
            },
        };
        m.last_trap_frame = None;
        p.threads.insert(
            ti,
            Thread { tid: t_tid, frame: newf, clear_child_tid: t_cct, sig: Some(m) },
        );
        self.procs.insert(ci, p);
        proof {
            let post = *self;
            assert(post.procs@ =~= pre.procs@.update(ci as int, post.procs@[ci as int]));
            assert(post.procs@[ci as int].threads@ =~= pre.procs@[ci as int].threads@.update(
                ti as int,
                Thread {
                    frame: newf,
                    sig: Some(post.procs@[ci as int].threads@[ti as int].sig->0),
                    ..pre.procs@[ci as int].threads@[ti as int]
                },
            ));
            assert(post.wf());
            pre.lemma_proc_at(ci as int);
            post.lemma_proc_at(ci as int);
            assert forall|q: u64| #[trigger] pre.has_proc(q) && !set![pid].contains(q) implies
                post.has_proc(q) && post.spec_proc(q) == pre.spec_proc(q) by {
                let j = pre.spec_proc_index(q);
                pre.lemma_proc_at(j);
                assert(post.procs@[j].pid == q);
                post.lemma_proc_at(j);
            }
            assert forall|q: u64| #[trigger] post.has_proc(q) implies pre.has_proc(q)
                || set![pid].contains(q) by {
                let j = post.spec_proc_index(q);
                pre.lemma_proc_at(j);
            }
        }
        true
    }

    /// The signal-return call: restores the saved frame and reports the
    /// restored frame's result register as the syscall's own return value,
    /// or a failure value when no handler was in flight.
    pub fn signal_return(&mut self, pid: u64, tid: u64) -> (r: isize)
        requires
            old(self).wf(),
            old(self).has_proc(pid),
            old(self).spec_proc(pid).spec_has_tid(tid),
            old(self).spec_proc(pid).threads@[old(self).spec_proc(pid).spec_tid_index(
                tid,
            )].sig is Some,
        ensures
            final(self).wf(),
            ({
                let pre = *old(self);
                let pre_p = pre.spec_proc(pid);
                let ti = pre_p.spec_tid_index(tid);
                let pre_m = pre_p.threads@[ti].sig->0;
                let restored = spec_restored_frame(
                    pre.aspaces@[pre_p.aspace_id as int],
                    pre_m,
                    pre_p.threads@[ti].frame,
                );
                &&& Kernel::spec_load_trap_post(
                    pre,
                    *final(self),
                    pid,
                    tid,
                    pre_m.last_trap_frame is Some,
                )
                &&& r == (if pre_m.last_trap_frame is Some {
                    restored.a0 as isize
                } else {
                    -1isize
                })
            }),
    {
        if self.load_trap_for_signal(pid, tid) {
            let ci = match self.find_proc(pid) {
                Some(i) => i,
                None => {
                    proof {
                        assert(false);
                    }
                    return -1;
                },
            };
            let ti = match self.procs[ci].find_thread(tid) {
                Some(t) => t,
                None => {
                    proof {
                        assert(false);
                    }
                    return -1;
                },
            };
            #[verifier::truncate] (self.procs[ci].threads[ti].frame.arg0() as isize)
        } else {
            -1
        }
    }
}

} // verus!

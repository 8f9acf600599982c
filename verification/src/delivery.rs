//! The signal dispatcher, run on every return to user space: selects the
//! next deliverable signal and delivers it — by default action, by
//! dropping, or by rewriting the thread's trap frame to enter a user
//! handler, laying the info and context records out on the chosen stack.

use vstd::prelude::*;
use vstd::wrapping::usize_specs;
use crate::action::{SigAction, SigActionKind, SignalDefault, SA_ONSTACK, SA_RESTORER, SA_SIGINFO};
use crate::aspace::spec_write_bytes;
use crate::align::{spec_align_down_4k, spec_align_up_4k};
use crate::aspace::spec_map_pages;
use crate::info::SigInfo;
use crate::kernel::Kernel;
use crate::process::{Process, SignalModule, Thread};
use crate::records::{
    siginfo_to_bytes, spec_siginfo_bytes, spec_ucontext_bytes, ucontext_to_bytes, SIG_INFO_SIZE,
    UCTX_SIZE,
};
use crate::signal_no::{SignalNo, MAX_SIG_NUM};
use crate::sigset::{sig_bit, spec_find_sig};
use crate::teardown::ExitProgress;
use crate::trapframe::TrapFrame;
use crate::ucontext::{SignalUserContext, SS_DISABLE};
use crate::aspace::{MappingFlags, MF_EXECUTE, MF_READ, MF_USER, MF_WRITE};

verus! {

/// Gap left below the interrupted stack pointer before handler data, so a
/// handler does not clobber live caller data.
pub const USER_SIGNAL_PROTECT: usize = 512;

/// What one dispatcher pass did.
#[derive(Clone, Copy, Debug, PartialEq, Eq, Structural)]
pub enum Dispatch {
    /// Nothing deliverable was pending.
    NoSignal,
    /// A handler frame was installed for this signal; user space resumes in
    /// the handler.
    Delivered(usize),
    /// The signal was discarded: its action, or its default, is to ignore.
    Ignored(usize),
    /// A handler was already in flight; this non-fault signal was consumed
    /// and dropped for this pass.
    DroppedNested(usize),
    /// The signal terminated the process through this thread.
    Terminated(usize, ExitProgress),
    /// The process was already marked exited; the thread was forced out.
    ForcedExit(ExitProgress),
    /// The signal's default is Stop or Continue, which this core stubs out.
    Unsupported(usize),
    /// The handler asked for info records but the stack addresses are
    /// degenerate; the signal was consumed without delivery.
    DeliveryFailed(usize),
}

/// The stack pointer delivery starts from: the top of the alternate stack
/// when the action asks for it and one is configured, else the interrupted
/// stack pointer below the protection gap. Reproduces the kernel's exact
/// wrap-around arithmetic.
pub open spec fn spec_handler_sp0(m: SignalModule, f: TrapFrame, act: SigAction) -> usize {
    if act.sa_flags.has(SA_ONSTACK) && m.stack.flags != SS_DISABLE {
        usize_specs::wrapping_sub(
            usize_specs::wrapping_add(m.stack.sp, m.stack.size),
            1,
        ) & !0xf
    } else {
        usize_specs::wrapping_sub(f.sp, USER_SIGNAL_PROTECT)
    }
}

/// Where the signal-info record lands: one record below `sp0`, 16-aligned.
pub open spec fn spec_sp1(sp0: usize) -> usize {
    usize_specs::wrapping_sub(sp0, SIG_INFO_SIZE) & !0xf
}

/// Where the user-context record lands: one record below the info record.
pub open spec fn spec_sp2(sp1: usize) -> usize {
    usize_specs::wrapping_sub(sp1, UCTX_SIZE) & !0xf
}

/// Whether the record layout fits without wrapping and the mapped range
/// stays below the top of the address space.
pub open spec fn spec_layout_ok(sp0: usize) -> bool {
    &&& sp0 >= SIG_INFO_SIZE
    &&& spec_sp1(sp0) >= UCTX_SIZE
    &&& sp0 + 4095 <= usize::MAX
}

/// The restorer the handler returns through: the action's own, or the
/// fixed trampoline.
pub open spec fn spec_restorer(act: SigAction, trampoline: usize) -> usize {
    if act.sa_flags.has(SA_RESTORER) {
        act.sa_restorer
    } else {
        trampoline
    }
}

/// The info record delivered for signal `n`: the stored payload, or a
/// fresh record naming the signal.
pub open spec fn spec_chosen_info(m: SignalModule, n: usize) -> SigInfo {
    match m.sig_set.info@[n - 1] {
        Some(si) => si,
        None => SigInfo { si_signo: n as i32, ..SigInfo::spec_default() },
    }
}

impl Kernel {
    /// The post state when a pass only consumed the pending bit of signal
    /// `n` on thread `tid` and changed nothing else.
    #[verifier::inline]
    pub open spec fn spec_popped_post(
        pre: Kernel,
        post: Kernel,
        pid: u64,
        tid: u64,
        n: usize,
    ) -> bool {
        let pre_p = pre.spec_proc(pid);
        let ti = pre_p.spec_tid_index(tid);
        let pre_m = pre_p.threads@[ti].sig->0;
        let post_p = post.spec_proc(pid);
        let post_m = post_p.threads@[ti].sig->0;
        &&& post.has_proc(pid)
        &&& post_p.threads@ == pre_p.threads@.update(
            ti,
            Thread { sig: Some(post_m), ..pre_p.threads@[ti] },
        )
        &&& post_m.sig_set.pending == pre_m.sig_set.pending & !sig_bit(n)
        &&& post_m.sig_set.mask == pre_m.sig_set.mask
        &&& post_m.sig_set.info == pre_m.sig_set.info
        &&& post_m == (SignalModule { sig_set: post_m.sig_set, ..pre_m })
        &&& post_p == (Process { threads: post_p.threads, ..pre_p })
        &&& post.aspaces == pre.aspaces
        &&& post.next_task_id == pre.next_task_id
        &&& post.trampoline == pre.trampoline
        &&& Kernel::same_procs_except(pre, post, set![pid])
    }

    /// What terminating the process out of thread `tid` for signal `n`
    /// guarantees. Out of the main thread the process exits with the signal
    /// number as its code; out of a worker thread the signal is forwarded
    /// to the main thread's pending set and the worker leaves.
    #[verifier::inline]
    pub open spec fn spec_terminate_facts(
        pre: Kernel,
        post: Kernel,
        pid: u64,
        tid: u64,
        n: usize,
        prog: ExitProgress,
    ) -> bool {
        let pre_p = pre.spec_proc(pid);
        if tid == pid {
            &&& post.has_proc(pid)
            &&& post.spec_proc(pid).pid == pid
            &&& post.spec_proc(pid).is_exited
            &&& prog == (if pre_p.threads@.len() > 1 {
                ExitProgress::Waiting
            } else {
                ExitProgress::Done
            })
            &&& (prog == ExitProgress::Done ==> !post.registered(pid) && post.spec_proc(
                pid,
            ).exit_code == n as i32)
            &&& (prog == ExitProgress::Waiting ==> post.spec_proc(pid).in_registry
                == pre_p.in_registry)
            &&& (forall|c: u64|
                pre_p.children@.contains(c) && #[trigger] pre.has_proc(c) ==> post.has_proc(c)
                    && post.spec_proc(c).ppid == 1u64)
            &&& Kernel::spec_exit_mem_effect(pre, post, pid, pre_p.threads@[0].clear_child_tid)
            &&& Kernel::same_procs_except(pre, post, pre_p.children@.to_set().insert(pid))
        } else {
            &&& post.has_proc(pid)
            &&& post.spec_proc(pid).pid == pid
            &&& post.spec_proc(pid).is_exited == pre_p.is_exited
            &&& !post.spec_proc(pid).spec_has_tid(tid)
            &&& prog == ExitProgress::Done
            &&& (pre.registered(pid) && pre_p.threads@[0].sig is Some ==> post.spec_proc(
                pid,
            ).threads@[0].sig is Some && post.spec_proc(pid).threads@[0].sig->0.sig_set.pending
                == pre_p.threads@[0].sig->0.sig_set.pending | sig_bit(n))
            &&& Kernel::spec_exit_mem_effect(
                pre,
                post,
                pid,
                pre_p.threads@[pre_p.spec_tid_index(tid)].clear_child_tid,
            )
            &&& Kernel::same_procs_except(pre, post, set![pid])
        }
    }

    /// Ends the process for a fatal signal. Called with the main thread it
    /// exits the process with the signal number as status; called with a
    /// worker it forwards the signal to the main thread and exits the
    /// worker.
    #[verifier::rlimit(100)]
    #[verifier::spinoff_prover]
    fn terminate_process(&mut self, pid: u64, tid: u64, sig_num: usize) -> (prog: ExitProgress)
        requires
            old(self).wf(),
            old(self).has_proc(pid),
            old(self).spec_proc(pid).spec_has_tid(tid),
            old(self).spec_proc(pid).in_registry || !old(self).spec_proc(pid).is_exited,
            1 <= sig_num <= MAX_SIG_NUM,
        ensures
            final(self).wf(),
            final(self).next_task_id == old(self).next_task_id,
            final(self).trampoline == old(self).trampoline,
            final(self).aspaces@.len() == old(self).aspaces@.len(),
            Kernel::spec_terminate_facts(*old(self), *final(self), pid, tid, sig_num, prog),
    {
        let ghost pre = *old(self);
        if tid == pid {
            proof {
                let pre_p = pre.spec_proc(pid);
                assert(pre_p.spec_tid_index(pid) == 0) by {
                    let w = pre_p.spec_tid_index(pid);
                    assert(pre_p.threads@[0].tid == pid);
                    assert(0 <= w < pre_p.threads@.len() && pre_p.threads@[w].tid == pid);
                    if w != 0 {
                        assert(pre_p.threads@[0].tid != pre_p.threads@[w].tid);
                    }
                }
            }
            let code: i32 = #[verifier::truncate] (sig_num as i32);
            let prog = self.sys_exit(pid, tid, code);
            proof {
                let post = *self;
                let mid = Kernel { aspaces: post.aspaces, ..pre };
                assert(mid.procs == pre.procs);
                let pre_p = pre.spec_proc(pid);
                assert(mid.spec_proc(pid) == pre_p);
                let touched = pre_p.children@.to_set().insert(pid);
                assert forall|c: u64| pre_p.children@.contains(c) && #[trigger] pre.has_proc(c)
                    implies post.has_proc(c) && post.spec_proc(c).ppid == 1u64 by {
                    assert(mid.has_proc(c));
                    assert(c != pid);
                }
                assert forall|q: u64| #[trigger] pre.has_proc(q) && !touched.contains(q) implies
                    post.has_proc(q) && post.spec_proc(q) == pre.spec_proc(q) by {
                    assert(mid.has_proc(q));
                    assert(mid.spec_proc(q) == pre.spec_proc(q));
                }
                assert forall|q: u64| #[trigger] post.has_proc(q) implies pre.has_proc(q)
                    || touched.contains(q) by {
                    if mid.has_proc(q) {
                        assert(pre.has_proc(q));
                    }
                }
                assert(Kernel::same_procs_except(pre, post, touched));
            }
            prog
        } else {
            let ghost pre_p = pre.spec_proc(pid);
            let send_res = self.send_signal_to_proc(pid, sig_num, None);
            let ghost mid = *self;
            proof {
                let ti = pre_p.spec_tid_index(tid);
                assert(0 <= ti < pre_p.threads@.len() && pre_p.threads@[ti].tid == tid);
                assert(ti != 0) by {
                    assert(pre_p.threads@[0].tid == pid);
                }
                if send_res is Ok {
                    assert(mid.spec_proc(pid).threads@[ti].tid == tid);
                    assert(mid.spec_proc(pid).spec_has_tid(tid));
                } else {
                    assert(mid == pre);
                }
            }
            let prog = self.sys_exit(pid, tid, -1);
            proof {
                let post = *self;
                let mid2 = Kernel { aspaces: post.aspaces, ..mid };
                assert(mid2.procs == mid.procs);
                let mid_p = mid.spec_proc(pid);
                assert(mid2.spec_proc(pid) == mid_p);
                // The worker thread left; the main thread entry is intact.
                let ti2 = mid_p.spec_tid_index(tid);
                assert(mid_p.spec_has_tid(tid));
                assert(0 <= ti2 < mid_p.threads@.len() && mid_p.threads@[ti2].tid == tid);
                assert(ti2 != 0) by {
                    assert(mid_p.threads@[0].tid == pid);
                }
                assert(post.spec_proc(pid).threads@ == mid_p.threads@.remove(ti2));
                assert(!post.spec_proc(pid).spec_has_tid(tid)) by {
                    if post.spec_proc(pid).spec_has_tid(tid) {
                        let j = choose|j: int|
                            0 <= j < post.spec_proc(pid).threads@.len() && (#[trigger] post
                                .spec_proc(pid).threads@[j]).tid == tid;
                        if j < ti2 {
                            assert(mid_p.threads@[j].tid == tid);
                        } else {
                            assert(mid_p.threads@[j + 1].tid == tid);
                        }
                    }
                }
                assert(post.spec_proc(pid).threads@[0] == mid_p.threads@[0]);
                if send_res is Ok {
                    let pre_main = pre_p.threads@[0];
                    if pre_main.sig is Some {
                        assert(mid_p.threads@[0].sig->0.sig_set.pending == pre_main.sig->0
                            .sig_set.pending | sig_bit(sig_num));
                    }
                }
                assert forall|q: u64| #[trigger] pre.has_proc(q) && !set![pid].contains(q) implies
                    post.has_proc(q) && post.spec_proc(q) == pre.spec_proc(q) by {
                    assert(mid.has_proc(q) && mid.spec_proc(q) == pre.spec_proc(q));
                    assert(mid2.has_proc(q));
                    assert(mid2.spec_proc(q) == mid.spec_proc(q));
                }
                assert forall|q: u64| #[trigger] post.has_proc(q) implies pre.has_proc(q)
                    || set![pid].contains(q) by {
                    if mid2.has_proc(q) {
                        assert(mid.has_proc(q));
                    }
                }
                assert(Kernel::same_procs_except(pre, post, set![pid]));
                // The memory effect carries over the send step, which leaves
                // every address space and the exiting thread's slot alone.
                let ti = pre_p.spec_tid_index(tid);
                assert(0 <= ti < pre_p.threads@.len() && pre_p.threads@[ti].tid == tid);
                assert(ti != 0) by {
                    assert(pre_p.threads@[0].tid == pid);
                }
                if send_res is Ok && pre_p.threads@[0].sig is Some {
                    assert(mid_p.threads@[ti as int] == pre_p.threads@[ti as int]);
                    assert(mid_p.aspace_id == pre_p.aspace_id);
                } else {
                    assert(mid == pre);
                }
                assert(ti2 == ti) by {
                    assert(mid_p.threads@[ti].tid == tid);
                    if ti2 < ti {
                        assert(mid_p.threads@[ti2].tid != mid_p.threads@[ti].tid);
                    } else if ti < ti2 {
                        assert(mid_p.threads@[ti].tid != mid_p.threads@[ti2].tid);
                    }
                }
                assert(mid_p.threads@[ti2].clear_child_tid == pre_p.threads@[
                    ti
                ].clear_child_tid);
                assert(mid.aspaces == pre.aspaces);
                assert(mid.aspaces@ == pre.aspaces@);
                assert(Kernel::spec_exit_mem_effect(
                    pre,
                    post,
                    pid,
                    pre_p.threads@[ti].clear_child_tid,
                ));
            }
            prog
        }
    }
}


impl Kernel {
    /// The post state of a delivery pass that consumed pending bit `n` of
    /// thread `tid` and possibly saved the pre-delivery frame and installed
    /// a new one.
    #[verifier::inline]
    pub open spec fn spec_commit_post(
        pre: Kernel,
        post: Kernel,
        pid: u64,
        tid: u64,
        n: usize,
        new_frame: Option<TrapFrame>,
        save: bool,
        set_info: bool,
    ) -> bool {
        let pre_p = pre.spec_proc(pid);
        let ti = pre_p.spec_tid_index(tid);
        let pre_t = pre_p.threads@[ti];
        let pre_m = pre_t.sig->0;
        let post_p = post.spec_proc(pid);
        let post_m = post_p.threads@[ti].sig->0;
        &&& post.has_proc(pid)
        &&& post_p.threads@ == pre_p.threads@.update(
            ti,
            Thread {
                frame: match new_frame {
                    Some(nf) => nf,
                    None => pre_t.frame,
                },
                sig: Some(post_m),
                ..pre_t
            },
        )
        &&& post_m.sig_set.pending == pre_m.sig_set.pending & !sig_bit(n)
        &&& post_m.sig_set.mask == pre_m.sig_set.mask
        &&& post_m.sig_set.info == pre_m.sig_set.info
        &&& post_m == (SignalModule {
            last_trap_frame: if save {
                Some(pre_t.frame)
            } else {
                pre_m.last_trap_frame
            },
            sig_info: if save {
                set_info
            } else {
                pre_m.sig_info
            },
            sig_set: post_m.sig_set,
            ..pre_m
        })
        &&& post_p == (Process { threads: post_p.threads, ..pre_p })
        &&& post.aspaces == pre.aspaces
        &&& post.next_task_id == pre.next_task_id
        &&& post.trampoline == pre.trampoline
        &&& Kernel::same_procs_except(pre, post, set![pid])
    }

    /// Applies one delivery step to the thread: pops the pending bit and,
    /// when delivering to a handler, saves the old frame and installs the
    /// new one.
    #[verifier::rlimit(100)]
    #[verifier::spinoff_prover]
    fn commit_dispatch(
        &mut self,
        pid: u64,
        tid: u64,
        n: usize,
        new_frame: Option<TrapFrame>,
        save: bool,
        set_info: bool,
    )
        requires
            old(self).wf(),
            old(self).has_proc(pid),
            old(self).spec_proc(pid).spec_has_tid(tid),
            old(self).spec_proc(pid).threads@[old(self).spec_proc(pid).spec_tid_index(
                tid,
            )].sig is Some,
            1 <= n <= MAX_SIG_NUM,
        ensures
            final(self).wf(),
            Kernel::spec_commit_post(
                *old(self),
                *final(self),
                pid,
                tid,
                n,
                new_frame,
                save,
                set_info,
            ),
    {
        let ghost pre = *old(self);
        let ci = match self.find_proc(pid) {
            Some(i) => i,
            None => {
                proof {
                    assert(false);
                }
                return ;
            },
        };
        let mut p = self.procs.remove(ci);
        let ti = match p.find_thread(tid) {
            Some(t) => t,
            None => {
                proof {
                    assert(false);
                }
                self.procs.insert(ci, p);
                return ;
            },
        };
        let t = p.threads.remove(ti);
        let Thread { tid: t_tid, frame: t_frame, clear_child_tid: t_cct, sig: sig_opt } = t;
        let mut m = match sig_opt {
            Some(m) => m,
            None => {
                proof {
                    assert(false);
                }
                p.threads.insert(
                    ti,
                    Thread { tid: t_tid, frame: t_frame, clear_child_tid: t_cct, sig: None },
                );
                self.procs.insert(ci, p);
                return ;
            },
        };
        m.sig_set.pending = m.sig_set.pending & !(1u64 << ((n - 1) as u64));
        if save {
            m.last_trap_frame = Some(t_frame);
            m.sig_info = set_info;
        }
        let frame2 = match new_frame {
            Some(nf) => nf,
            None => t_frame,
        };
        p.threads.insert(
            ti,
            Thread { tid: t_tid, frame: frame2, clear_child_tid: t_cct, sig: Some(m) },
        );
        self.procs.insert(ci, p);
        proof {
            let post = *self;
            assert(post.procs@ =~= pre.procs@.update(ci as int, post.procs@[ci as int]));
            assert(post.procs@[ci as int].threads@ =~= pre.procs@[ci as int].threads@.update(
                ti as int,
                Thread {
                    frame: frame2,
                    sig: Some(post.procs@[ci as int].threads@[ti as int].sig->0),
                    ..pre.procs@[ci as int].threads@[ti as int]
                },
            ));
            assert(post.wf());
            pre.lemma_proc_at(ci as int);
            post.lemma_proc_at(ci as int);
            assert forall|q: u64| #[trigger] pre.has_proc(q) && !set![pid].contains(q) implies
                post.has_proc(q) && post.spec_proc(q) == pre.spec_proc(q) by {
                let j = pre.spec_proc_index(q);
                pre.lemma_proc_at(j);
                assert(post.procs@[j].pid == q);
                post.lemma_proc_at(j);
            }
            assert forall|q: u64| #[trigger] post.has_proc(q) implies pre.has_proc(q)
                || set![pid].contains(q) by {
                let j = post.spec_proc_index(q);
                pre.lemma_proc_at(j);
            }
        }
    }
}


impl Kernel {
    /// The post state of delivering signal `n` into a user handler without
    /// extended info: the pre-delivery frame is saved, and the thread
    /// resumes at the handler with the signal number as first argument, on
    /// the chosen stack, returning through the restorer.
    #[verifier::inline]
    pub open spec fn spec_delivered_plain(
        pre: Kernel,
        post: Kernel,
        pid: u64,
        tid: u64,
        n: usize,
        act: SigAction,
        addr: usize,
    ) -> bool {
        let pre_p = pre.spec_proc(pid);
        let ti = pre_p.spec_tid_index(tid);
        let pre_t = pre_p.threads@[ti];
        let pre_m = pre_t.sig->0;
        let sp0 = spec_handler_sp0(pre_m, pre_t.frame, act);
        Kernel::spec_commit_post(
            pre,
            post,
            pid,
            tid,
            n,
            Some(
                TrapFrame {
                    sepc: addr,
                    a0: n,
                    ra: spec_restorer(act, pre.trampoline),
                    sp: sp0,
                    ..pre_t.frame
                },
            ),
            true,
            false,
        )
    }

    /// The post state of delivering signal `n` with extended info: beyond
    /// the plain delivery, the signal-info and user-context records stand
    /// in user memory at their computed slots, the pages under them are
    /// mapped, and the second and third handler arguments point at them.
    #[verifier::inline]
    pub open spec fn spec_delivered_info(
        pre: Kernel,
        post: Kernel,
        pid: u64,
        tid: u64,
        n: usize,
        act: SigAction,
        addr: usize,
    ) -> bool {
        let pre_p = pre.spec_proc(pid);
        let ti = pre_p.spec_tid_index(tid);
        let pre_t = pre_p.threads@[ti];
        let pre_m = pre_t.sig->0;
        let sp0 = spec_handler_sp0(pre_m, pre_t.frame, act);
        let sp1 = spec_sp1(sp0);
        let sp2 = spec_sp2(sp1);
        let asid = pre_p.aspace_id as int;
        let pre_a = pre.aspaces@[asid];
        let s_al = spec_align_down_4k(sp2);
        let e_al = spec_align_up_4k(sp0);
        let mid = Kernel { aspaces: post.aspaces, ..pre };
        &&& Kernel::spec_commit_post(
            mid,
            post,
            pid,
            tid,
            n,
            Some(
                TrapFrame {
                    sepc: addr,
                    a0: n,
                    a1: sp1,
                    a2: sp2,
                    ra: spec_restorer(act, pre.trampoline),
                    sp: sp2,
                    ..pre_t.frame
                },
            ),
            true,
            true,
        )
        &&& post.aspaces@.len() == pre.aspaces@.len()
        &&& post.aspaces@ == pre.aspaces@.update(asid, post.aspaces@[asid])
        &&& post.aspaces@[asid].pages_map() == spec_map_pages(
            pre_a.pages_map(),
            (s_al / 4096) as usize,
            ((e_al - s_al) / 4096) as usize,
            MF_READ | MF_WRITE | MF_EXECUTE | MF_USER,
        )
        &&& post.aspaces@[asid].bytes_map() == spec_write_bytes(
            spec_write_bytes(pre_a.bytes_map(), sp1, spec_siginfo_bytes(spec_chosen_info(pre_m, n))),
            sp2,
            spec_ucontext_bytes(
                SignalUserContext { pc: pre_t.frame.sepc, mask: pre_m.sig_set.mask },
            ),
        )
    }

    /// One dispatcher pass for the running thread, taken on every return
    /// to user space. An already-exited process forces the thread out.
    /// Otherwise the lowest deliverable pending signal is consumed:
    /// dropped while a handler is in flight (a nested fault instead
    /// terminates the process), discarded when ignored, fatal by default
    /// action, stubbed for stop and continue, and otherwise delivered onto
    /// a handler frame.
    #[verifier::rlimit(100)]
    #[verifier::spinoff_prover]
    pub fn handle_signals(&mut self, pid: u64, tid: u64) -> (r: Dispatch)
        requires
            old(self).wf(),
            old(self).has_proc(pid),
            old(self).spec_proc(pid).spec_has_tid(tid),
            old(self).spec_proc(pid).threads@[old(self).spec_proc(pid).spec_tid_index(
                tid,
            )].sig is Some,
            old(self).spec_proc(pid).in_registry || !old(self).spec_proc(pid).is_exited,
        ensures
            final(self).wf(),
            final(self).next_task_id == old(self).next_task_id,
            final(self).trampoline == old(self).trampoline,
            final(self).aspaces@.len() == old(self).aspaces@.len(),
            ({
                let pre = *old(self);
                let post = *final(self);
                let pre_p = pre.spec_proc(pid);
                let ti = pre_p.spec_tid_index(tid);
                let pre_t = pre_p.threads@[ti];
                let pre_m = pre_t.sig->0;
                let found = spec_find_sig(pre_m.sig_set.pending, pre_m.sig_set.mask);
                if pre_p.is_exited {
                    r matches Dispatch::ForcedExit(prog) && Kernel::spec_exit_thread_post(
                        Kernel { aspaces: post.aspaces, ..pre },
                        post,
                        pid,
                        tid,
                        0i32,
                        prog,
                    ) && Kernel::spec_exit_mem_effect(pre, post, pid, pre_t.clear_child_tid)
                } else {
                    match found {
                        None => r == Dispatch::NoSignal && post == pre,
                        Some(n) => {
                            let signal = SignalNo::spec_of(n);
                            let act = pre_p.signal_handler.handlers@[n - 1];
                            if pre_m.last_trap_frame is Some {
                                if signal == SignalNo::SIGSEGV || signal == SignalNo::SIGBUS {
                                    r matches Dispatch::Terminated(s, prog) && s == n
                                        && Kernel::spec_terminate_facts(
                                        pre,
                                        post,
                                        pid,
                                        tid,
                                        n,
                                        prog,
                                    )
                                } else {
                                    r == Dispatch::DroppedNested(n) && Kernel::spec_commit_post(
                                        pre,
                                        post,
                                        pid,
                                        tid,
                                        n,
                                        None,
                                        false,
                                        false,
                                    )
                                }
                            } else {
                                match act.sa_handler {
                                    SigActionKind::Ignore => r == Dispatch::Ignored(n)
                                        && Kernel::spec_commit_post(
                                        pre,
                                        post,
                                        pid,
                                        tid,
                                        n,
                                        None,
                                        false,
                                        false,
                                    ),
                                    SigActionKind::Default => {
                                        match SignalDefault::spec_action(signal) {
                                            SignalDefault::Ignore => r == Dispatch::Ignored(n)
                                                && Kernel::spec_commit_post(
                                                pre,
                                                post,
                                                pid,
                                                tid,
                                                n,
                                                None,
                                                false,
                                                false,
                                            ),
                                            SignalDefault::Terminate => r matches
                                                Dispatch::Terminated(s, prog) && s == n
                                                && Kernel::spec_terminate_facts(
                                                pre,
                                                post,
                                                pid,
                                                tid,
                                                n,
                                                prog,
                                            ),
                                            SignalDefault::Core => r matches Dispatch::Terminated(
                                                s,
                                                prog,
                                            ) && s == n && Kernel::spec_terminate_facts(
                                                pre,
                                                post,
                                                pid,
                                                tid,
                                                n,
                                                prog,
                                            ),
                                            SignalDefault::Stop => r == Dispatch::Unsupported(n)
                                                && Kernel::spec_commit_post(
                                                pre,
                                                post,
                                                pid,
                                                tid,
                                                n,
                                                None,
                                                false,
                                                false,
                                            ),
                                            SignalDefault::Cont => r == Dispatch::Unsupported(n)
                                                && Kernel::spec_commit_post(
                                                pre,
                                                post,
                                                pid,
                                                tid,
                                                n,
                                                None,
                                                false,
                                                false,
                                            ),
                                        }
                                    },
                                    SigActionKind::Handler(addr) => {
                                        let sp0 = spec_handler_sp0(pre_m, pre_t.frame, act);
                                        if !act.sa_flags.has(SA_SIGINFO) {
                                            r == Dispatch::Delivered(n)
                                                && Kernel::spec_delivered_plain(
                                                pre,
                                                post,
                                                pid,
                                                tid,
                                                n,
                                                act,
                                                addr,
                                            )
                                        } else if !spec_layout_ok(sp0) {
                                            r == Dispatch::DeliveryFailed(n)
                                                && Kernel::spec_commit_post(
                                                pre,
                                                post,
                                                pid,
                                                tid,
                                                n,
                                                None,
                                                false,
                                                false,
                                            )
                                        } else {
                                            r == Dispatch::Delivered(n)
                                                && Kernel::spec_delivered_info(
                                                pre,
                                                post,
                                                pid,
                                                tid,
                                                n,
                                                act,
                                                addr,
                                            )
                                        }
                                    },
                                }
                            }
                        },
                    }
                }
            }),
    {
        let ghost pre = *old(self);
        let ci = match self.find_proc(pid) {
            Some(i) => i,
            None => {
                proof {
                    assert(false);
                }
                return Dispatch::NoSignal;
            },
        };
        if self.procs[ci].is_exited {
            let prog = self.sys_exit(pid, tid, 0);
            return Dispatch::ForcedExit(prog);
        }
        let ti = match self.procs[ci].find_thread(tid) {
            Some(t) => t,
            None => {
                proof {
                    assert(false);
                }
                return Dispatch::NoSignal;
            },
        };
        let (found, has_saved) = match &self.procs[ci].threads[ti].sig {
            Some(m) => (m.sig_set.find_sig(), m.last_trap_frame.is_some()),
            None => {
                proof {
                    assert(false);
                }
                (None, false)
            },
        };
        let n = match found {
            Some(n) => n,
            None => {
                return Dispatch::NoSignal;
            },
        };
        let signal = SignalNo::from(n);
        if has_saved {
            if signal == SignalNo::SIGSEGV || signal == SignalNo::SIGBUS {
                self.commit_dispatch(pid, tid, n, None, false, false);
                let ghost mid = *self;
                proof {
                    assert(mid.spec_proc(pid).spec_has_tid(tid)) by {
                        assert(mid.spec_proc(pid).threads@[ti as int].tid == tid);
                    }
                }
                let prog = self.terminate_process(pid, tid, n);
                proof {
                    let post = *self;
                    Kernel::lemma_terminate_bridge(pre, mid, post, pid, tid, n, prog);
                }
                Dispatch::Terminated(n, prog)
            } else {
                self.commit_dispatch(pid, tid, n, None, false, false);
                Dispatch::DroppedNested(n)
            }
        } else {
            let act = *self.procs[ci].signal_handler.get_action(n);
            match act.sa_handler {
                SigActionKind::Ignore => {
                    self.commit_dispatch(pid, tid, n, None, false, false);
                    Dispatch::Ignored(n)
                },
                SigActionKind::Default => {
                    match SignalDefault::get_action(signal) {
                        SignalDefault::Ignore => {
                            self.commit_dispatch(pid, tid, n, None, false, false);
                            Dispatch::Ignored(n)
                        },
                        SignalDefault::Terminate | SignalDefault::Core => {
                            self.commit_dispatch(pid, tid, n, None, false, false);
                            let ghost mid = *self;
                            proof {
                                assert(mid.spec_proc(pid).spec_has_tid(tid)) by {
                                    assert(mid.spec_proc(pid).threads@[ti as int].tid == tid);
                                }
                            }
                            let prog = self.terminate_process(pid, tid, n);
                            proof {
                                let post = *self;
                                Kernel::lemma_terminate_bridge(pre, mid, post, pid, tid, n, prog);
                            }
                            Dispatch::Terminated(n, prog)
                        },
                        SignalDefault::Stop | SignalDefault::Cont => {
                            self.commit_dispatch(pid, tid, n, None, false, false);
                            Dispatch::Unsupported(n)
                        },
                    }
                },
                SigActionKind::Handler(addr) => {
                    let f = self.procs[ci].threads[ti].frame;
                    let (stack_cfg, mask, info_slot) = match &self.procs[ci].threads[ti].sig {
                        Some(m) => (m.stack, m.sig_set.mask, m.sig_set.info[n - 1]),
                        None => {
                            proof {
                                assert(false);
                            }
                            (
                                crate::ucontext::SignalStack { sp: 0, size: 0, flags: 0 },
                                0u64,
                                None,
                            )
                        },
                    };
                    let on_stack = act.sa_flags.contains(SA_ONSTACK) && stack_cfg.flags
                        != SS_DISABLE;
                    let sp0: usize = if on_stack {
                        stack_cfg.sp.wrapping_add(stack_cfg.size).wrapping_sub(1) & !0xf
                    } else {
                        f.sp.wrapping_sub(USER_SIGNAL_PROTECT)
                    };
                    let restorer = match act.get_storer() {
                        Some(a) => a,
                        None => self.trampoline,
                    };
                    if !act.sa_flags.contains(SA_SIGINFO) {
                        let newf = TrapFrame { sepc: addr, a0: n, ra: restorer, sp: sp0, ..f };
                        self.commit_dispatch(pid, tid, n, Some(newf), true, false);
                        Dispatch::Delivered(n)
                    } else {
                        if sp0 < SIG_INFO_SIZE {
                            self.commit_dispatch(pid, tid, n, None, false, false);
                            return Dispatch::DeliveryFailed(n);
                        }
                        let sp1: usize = (sp0 - SIG_INFO_SIZE) & !0xf;
                        if sp1 < UCTX_SIZE {
                            self.commit_dispatch(pid, tid, n, None, false, false);
                            return Dispatch::DeliveryFailed(n);
                        }
                        if sp0 > usize::MAX - 4095 {
                            self.commit_dispatch(pid, tid, n, None, false, false);
                            return Dispatch::DeliveryFailed(n);
                        }
                        let sp2: usize = (sp1 - UCTX_SIZE) & !0xf;
                        proof {
                            let y = (sp0 - SIG_INFO_SIZE) as usize;
                            assert(y & !0xfusize <= y) by (bit_vector);
                            let z = (sp1 - UCTX_SIZE) as usize;
                            assert(z & !0xfusize <= z) by (bit_vector);
                        }
                        let ar = self.alloc_range_lazy(pid, sp2, sp0, MappingFlags::all());
                        let ghost asid = pre.spec_proc(pid).aspace_id as int;
                        let ghost s_alloc = *self;
                        proof {
                            assert(ar is Ok);
                            assert forall|k: int| 0 <= k < 40 implies #[trigger] s_alloc.aspaces@[
                                asid
                            ].is_mapped((sp1 + k) as usize) by {
                                assert(sp2 <= sp1 + k < sp0);
                            }
                            assert forall|k: int| 0 <= k < 16 implies #[trigger] s_alloc.aspaces@[
                                asid
                            ].is_mapped((sp2 + k) as usize) by {
                                assert(sp2 <= sp2 + k < sp0);
                            }
                        }
                        let si = match info_slot {
                            Some(si) => si,
                            None => SigInfo { si_signo: n as i32, ..SigInfo::default() },
                        };
                        let si_bytes = siginfo_to_bytes(&si);
                        let w1 = self.aspace_write(pid, sp1, &si_bytes);
                        let ghost s_w1 = *self;
                        proof {
                            assert(s_alloc.spec_proc(pid).aspace_id as int == asid);
                            assert(w1 is Ok);
                            assert(s_w1.aspaces@[asid].pages_map() == s_alloc.aspaces@[
                                asid
                            ].pages_map());
                            assert forall|k: int| 0 <= k < 16 implies #[trigger] s_w1.aspaces@[
                                asid
                            ].is_mapped((sp2 + k) as usize) by {
                                assert(s_alloc.aspaces@[asid].is_mapped((sp2 + k) as usize));
                            }
                        }
                        let uctx = SignalUserContext::init(f.sepc, mask);
                        let uc_bytes = ucontext_to_bytes(&uctx);
                        let w2 = self.aspace_write(pid, sp2, &uc_bytes);
                        proof {
                            assert(s_w1.spec_proc(pid).aspace_id as int == asid);
                            assert(w2 is Ok);
                        }
                        let newf = TrapFrame {
                            sepc: addr,
                            a0: n,
                            a1: sp1,
                            a2: sp2,
                            ra: restorer,
                            sp: sp2,
                            ..f
                        };
                        let ghost mid3 = *self;
                        self.commit_dispatch(pid, tid, n, Some(newf), true, true);
                        proof {
                            let post = *self;
                            assert(mid3.procs == pre.procs);
                            let midk = Kernel { aspaces: post.aspaces, ..pre };
                            assert(post.aspaces == mid3.aspaces);
                            assert(midk == mid3);
                            assert(post.aspaces@ =~= pre.aspaces@.update(
                                asid,
                                post.aspaces@[asid],
                            ));
                        }
                        Dispatch::Delivered(n)
                    }
                },
            }
        }
    }

    /// Terminate facts survive the preceding pending-bit pop.
    proof fn lemma_terminate_bridge(
        pre: Kernel,
        mid: Kernel,
        post: Kernel,
        pid: u64,
        tid: u64,
        n: usize,
        prog: ExitProgress,
    )
        requires
            pre.wf(),
            mid.wf(),
            pre.has_proc(pid),
            pre.spec_proc(pid).spec_has_tid(tid),
            pre.spec_proc(pid).threads@[pre.spec_proc(pid).spec_tid_index(tid)].sig is Some,
            Kernel::spec_commit_post(pre, mid, pid, tid, n, None, false, false),
            Kernel::spec_terminate_facts(mid, post, pid, tid, n, prog),
        ensures
            Kernel::spec_terminate_facts(pre, post, pid, tid, n, prog),
    {
        let pre_p = pre.spec_proc(pid);
        let mid_p = mid.spec_proc(pid);
        let ti = pre_p.spec_tid_index(tid);
        assert(mid_p.threads@.len() == pre_p.threads@.len());
        assert(mid_p.children@ == pre_p.children@);
        if tid == pid {
            let touched = pre_p.children@.to_set().insert(pid);
            assert forall|c: u64| pre_p.children@.contains(c) && #[trigger] pre.has_proc(c)
                implies post.has_proc(c) && post.spec_proc(c).ppid == 1u64 by {
                assert(c != pid);
                assert(mid.has_proc(c) && mid.spec_proc(c) == pre.spec_proc(c));
                assert(mid_p.children@.contains(c));
            }
            assert forall|q: u64| #[trigger] pre.has_proc(q) && !touched.contains(q) implies
                post.has_proc(q) && post.spec_proc(q) == pre.spec_proc(q) by {
                assert(mid.has_proc(q) && mid.spec_proc(q) == pre.spec_proc(q));
            }
            assert forall|q: u64| #[trigger] post.has_proc(q) implies pre.has_proc(q)
                || touched.contains(q) by {
                if mid.has_proc(q) && !touched.contains(q) {
                    assert(pre.has_proc(q));
                }
            }
        } else {
            assert(ti != 0) by {
                assert(pre_p.threads@[0].tid == pid);
            }
            assert(mid_p.threads@[0] == pre_p.threads@[0]);
            assert(mid.registered(pid) == pre.registered(pid));
            assert forall|q: u64| #[trigger] pre.has_proc(q) && !set![pid].contains(q) implies
                post.has_proc(q) && post.spec_proc(q) == pre.spec_proc(q) by {
                assert(mid.has_proc(q) && mid.spec_proc(q) == pre.spec_proc(q));
            }
            assert forall|q: u64| #[trigger] post.has_proc(q) implies pre.has_proc(q)
                || set![pid].contains(q) by {
                if mid.has_proc(q) {
                    assert(pre.has_proc(q));
                }
            }
        }
    }
}

} // verus!

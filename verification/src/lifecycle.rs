//! Thread and process creation: the clone operation and its flag matrix.

use vstd::prelude::*;
use vstd::wrapping::usize_specs;
use crate::errors::KernelError;
use crate::flags::{
    CloneFlags, CLONE_CHILD_CLEARTID, CLONE_FILES, CLONE_PARENT, CLONE_THREAD, CLONE_VM,
    KNOWN_CLONE_FLAGS,
};
use crate::kernel::Kernel;
use crate::process::{Process, SignalModule, Thread};
use crate::trapframe::TrapFrame;

verus! {

/// The clone-flag word carried by the raw flag argument: everything above
/// the exit-signal bits.
pub open spec fn spec_clone_bits(flags: usize) -> u32 {
    (flags & !0x3f) as u32
}

/// Whether the raw flag argument holds only known clone flags.
pub open spec fn spec_clone_flags_valid(flags: usize) -> bool {
    spec_clone_bits(flags) & !KNOWN_CLONE_FLAGS == 0
}

/// The new task's initial frame: the creator's frame with the result
/// register forced to zero, the program counter moved past the trapping
/// instruction, and the stack pointer replaced when one was supplied.
pub open spec fn spec_child_frame(f: TrapFrame, stack: Option<usize>) -> TrapFrame {
    TrapFrame {
        a0: 0,
        sepc: usize_specs::wrapping_add(f.sepc, 4),
        sp: match stack {
            Some(sp) => sp,
            None => f.sp,
        },
        ..f
    }
}


impl Kernel {
    /// What thread-creating clone guarantees, relating the pre and post
    /// states to the returned thread id.
    #[verifier::inline]
    pub open spec fn spec_clone_thread_post(
        pre: Kernel,
        post: Kernel,
        caller_pid: u64,
        caller_tid: u64,
        flags: usize,
        stack: Option<usize>,
        ctid: usize,
        tid: u64,
    ) -> bool {
        let pre_p = pre.spec_proc(caller_pid);
        let post_p = post.spec_proc(caller_pid);
        &&& tid == pre.next_task_id
                &&& !pre.has_proc(tid)
                &&& !post.has_proc(tid)
                &&& !pre_p.spec_has_tid(tid)
                &&& post.procs@.len() == pre.procs@.len()
                &&& post.has_proc(caller_pid)
                &&& post_p.pid == pre_p.pid
                &&& post_p.threads@.len() == pre_p.threads@.len() + 1
                &&& post_p.threads@.subrange(0, pre_p.threads@.len() as int) == pre_p.threads@
                &&& post_p.threads@.last().tid == tid
                &&& post_p.threads@.last().frame == spec_child_frame(
                    pre_p.threads@[pre_p.spec_tid_index(caller_tid)].frame,
                    stack,
                )
                &&& post_p.threads@.last().clear_child_tid == (
                if spec_clone_bits(flags) & CLONE_CHILD_CLEARTID == CLONE_CHILD_CLEARTID {
                    ctid
                } else {
                    0
                })
                &&& post_p.threads@.last().sig is Some
                &&& SignalModule::spec_fresh(post_p.threads@.last().sig->0)
                &&& post_p == (Process { threads: post_p.threads, ..pre_p })
                &&& post.next_task_id == pre.next_task_id + 1
                &&& post.aspaces@ == pre.aspaces@
                &&& post.trampoline == pre.trampoline
                &&& Kernel::same_procs_except(pre, post, set![caller_pid])
    }
}


impl Kernel {
    /// What process-creating clone guarantees, relating the pre and post
    /// states to the returned pid.
    #[verifier::inline]
    pub open spec fn spec_clone_proc_post(
        pre: Kernel,
        post: Kernel,
        caller_pid: u64,
        caller_tid: u64,
        flags: usize,
        stack: Option<usize>,
        ctid: usize,
        pid: u64,
    ) -> bool {
        let pre_caller = pre.spec_proc(caller_pid);
        let child = post.spec_proc(pid);
                let link_pid = if spec_clone_bits(flags) & CLONE_PARENT == CLONE_PARENT {
                    pre_caller.ppid
                } else {
                    caller_pid
                };
                &&& pid == pre.next_task_id
                &&& !pre.has_proc(pid)
                &&& post.has_proc(pid)
                &&& post.registered(pid)
                &&& child.pid == pid
                &&& child.ppid == link_pid
                &&& child.is_exited == false
                &&& child.exit_code == 0i32
                &&& child.children@ == Seq::<u64>::empty()
                &&& child.threads@.len() == 1
                &&& child.threads@[0].tid == pid
                &&& child.threads@[0].frame == spec_child_frame(
                    pre_caller.threads@[pre_caller.spec_tid_index(caller_tid)].frame,
                    stack,
                )
                &&& child.threads@[0].clear_child_tid == (
                if spec_clone_bits(flags) & CLONE_CHILD_CLEARTID == CLONE_CHILD_CLEARTID {
                    ctid
                } else {
                    0
                })
                &&& child.threads@[0].sig is Some
                &&& SignalModule::spec_fresh(child.threads@[0].sig->0)
                &&& child.files_shared == (spec_clone_bits(flags) & CLONE_FILES == CLONE_FILES)
                &&& (if spec_clone_bits(flags) & CLONE_VM == CLONE_VM {
                    &&& child.aspace_id == pre_caller.aspace_id
                    &&& post.aspaces@ == pre.aspaces@
                } else {
                    &&& child.aspace_id == pre.aspaces@.len()
                    &&& post.aspaces@.len() == pre.aspaces@.len() + 1
                    &&& post.aspaces@.subrange(0, pre.aspaces@.len() as int) == pre.aspaces@
                    &&& post.aspaces@.last().pages_map() == pre.aspaces@[pre_caller.aspace_id as int].pages_map()
                    &&& post.aspaces@.last().bytes_map() == pre.aspaces@[pre_caller.aspace_id as int].bytes_map()
                })
                &&& (if pre.registered(link_pid) {
                    post.spec_proc(link_pid).children@ == pre.spec_proc(link_pid).children@.push(
                        pid,
                    ) && post.spec_proc(link_pid) == (Process {
                        children: post.spec_proc(link_pid).children,
                        ..pre.spec_proc(link_pid)
                    })
                } else {
                    (forall|q: u64|
                        #[trigger] pre.has_proc(q) ==> post.has_proc(q) && post.spec_proc(q)
                            == pre.spec_proc(q))
                })
                &&& post.next_task_id == pre.next_task_id + 1
                &&& post.trampoline == pre.trampoline
                &&& Kernel::same_procs_except(pre, post, set![link_pid, pid])
    }
}

impl Kernel {
    /// Adds a thread to the caller's thread group: a fresh task id, a fresh
    /// signal module, the adjusted frame; the thread table gains exactly one
    /// entry and no process or pid is created. Returns the new thread id.
    pub fn clone_thread(
        &mut self,
        caller_pid: u64,
        caller_tid: u64,
        flags: usize,
        stack: Option<usize>,
        _ptid: usize,
        _tls: usize,
        ctid: usize,
    ) -> (r: Result<u64, KernelError>)
        requires
            old(self).wf(),
            old(self).next_task_id < u64::MAX,
            old(self).has_proc(caller_pid),
            old(self).spec_proc(caller_pid).spec_has_tid(caller_tid),
            spec_clone_flags_valid(flags),
            spec_clone_bits(flags) & CLONE_THREAD == CLONE_THREAD,
        ensures
            final(self).wf(),
            r is Ok,
            Kernel::spec_clone_thread_post(
                *old(self),
                *final(self),
                caller_pid,
                caller_tid,
                flags,
                stack,
                ctid,
                r->Ok_0,
            ),
    {
        let clone_flags = match CloneFlags::from_bits(#[verifier::truncate] ((flags & !0x3f)
            as u32)) {
            Some(cf) => cf,
            None => {
                proof {
                    assert(false);
                }
                return Err(KernelError::InvalidArgument);
            },
        };
        let tid = self.next_task_id;
        self.next_task_id = self.next_task_id + 1;
        let ci = match self.find_proc(caller_pid) {
            Some(i) => i,
            None => {
                proof {
                    assert(false);
                }
                return Err(KernelError::NotFound);
            },
        };
        let mut p = self.procs.remove(ci);
        let ti = match p.find_thread(caller_tid) {
            Some(t) => t,
            None => {
                proof {
                    assert(false);
                }
                return Err(KernelError::NotFound);
            },
        };
        let base = p.threads[ti].frame;
        let mut frame = base;
        frame.a0 = 0;
        frame.sepc = frame.sepc.wrapping_add(4);
        if let Some(sp) = stack {
            frame.sp = sp;
        }
        proof {
            assert(frame == spec_child_frame(base, stack));
            assert(!p.spec_has_tid(tid)) by {
                assert forall|i: int| 0 <= i < p.threads@.len() implies (
                #[trigger] p.threads@[i]).tid != tid by {
                    assert(old(self).procs@[ci as int].threads@[i].tid < old(self).next_task_id);
                }
            }
        }
        p.add_thread(tid, frame);
        if clone_flags.contains(CLONE_CHILD_CLEARTID) {
            let li = p.threads.len() - 1;
            let mut t = p.threads.remove(li);
            t.clear_child_tid = ctid;
            p.threads.insert(li, t);
            proof {
                assert(p.threads@.subrange(0, old(self).procs@[ci as int].threads@.len() as int)
                    =~= old(self).procs@[ci as int].threads@);
            }
        }
        self.procs.insert(ci, p);
        proof {
            let pre = *old(self);
            let post = *self;
            assert(post.procs@ =~= pre.procs@.update(ci as int, p));
            assert(post.wf());
            pre.lemma_proc_at(ci as int);
            post.lemma_proc_at(ci as int);
            assert(post.spec_proc(caller_pid) == (Process { threads: p.threads, ..pre.spec_proc(
                caller_pid,
            ) }));
            assert forall|q: u64| #[trigger] pre.has_proc(q) && !set![caller_pid].contains(q)
                implies post.has_proc(q) && post.spec_proc(q) == pre.spec_proc(q) by {
                let j = pre.spec_proc_index(q);
                pre.lemma_proc_at(j);
                assert(post.procs@[j].pid == q);
                post.lemma_proc_at(j);
            }
            assert forall|q: u64| #[trigger] post.has_proc(q) implies pre.has_proc(q)
                || set![caller_pid].contains(q) by {
                let j = post.spec_proc_index(q);
                pre.lemma_proc_at(j);
            }
            assert(!post.has_proc(tid)) by {
                if post.has_proc(tid) {
                    let j = post.spec_proc_index(tid);
                    assert(pre.procs@[j].pid == post.procs@[j].pid);
                    pre.lemma_proc_at(j);
                }
            }
        }
        Ok(tid)
    }

    /// The clone operation. With `CLONE_THREAD` it adds a thread to the
    /// caller's group; otherwise it creates a process whose address space is
    /// shared under `CLONE_VM` and deep-copied without it, linked as a child
    /// of the caller — or of the caller's parent under `CLONE_PARENT`, when
    /// that parent is still registered. Unknown flag bits are rejected.
    #[verifier::rlimit(100)]
    #[verifier::spinoff_prover]
    pub fn clone_proc(
        &mut self,
        caller_pid: u64,
        caller_tid: u64,
        flags: usize,
        stack: Option<usize>,
        _ptid: usize,
        _tls: usize,
        ctid: usize,
    ) -> (r: Result<u64, KernelError>)
        requires
            old(self).wf(),
            old(self).next_task_id < u64::MAX,
            old(self).has_proc(caller_pid),
            old(self).spec_proc(caller_pid).spec_has_tid(caller_tid),
        ensures
            final(self).wf(),
            r is Err ==> r == Err::<u64, KernelError>(KernelError::InvalidArgument)
                && !spec_clone_flags_valid(flags) && *final(self) == *old(self),
            r is Ok ==> spec_clone_flags_valid(flags),
            (r is Ok && spec_clone_bits(flags) & CLONE_THREAD == CLONE_THREAD)
                ==> Kernel::spec_clone_thread_post(
                *old(self),
                *final(self),
                caller_pid,
                caller_tid,
                flags,
                stack,
                ctid,
                r->Ok_0,
            ),
            (r is Ok && spec_clone_bits(flags) & CLONE_THREAD != CLONE_THREAD)
                ==> Kernel::spec_clone_proc_post(
                *old(self),
                *final(self),
                caller_pid,
                caller_tid,
                flags,
                stack,
                ctid,
                r->Ok_0,
            ),
    {
        let bits: u32 = #[verifier::truncate] ((flags & !0x3f) as u32);
        let clone_flags = match CloneFlags::from_bits(bits) {
            Some(cf) => cf,
            None => {
                return Err(KernelError::InvalidArgument);
            },
        };
        if clone_flags.contains(CLONE_THREAD) {
            return self.clone_thread(caller_pid, caller_tid, flags, stack, _ptid, _tls, ctid);
        }
        let ci = match self.find_proc(caller_pid) {
            Some(i) => i,
            None => {
                proof {
                    assert(false);
                }
                return Err(KernelError::NotFound);
            },
        };
        let caller_ppid = self.procs[ci].ppid;
        let caller_aspace_id = self.procs[ci].aspace_id;
        let ti = match self.procs[ci].find_thread(caller_tid) {
            Some(t) => t,
            None => {
                proof {
                    assert(false);
                }
                return Err(KernelError::NotFound);
            },
        };
        let base = self.procs[ci].threads[ti].frame;
        let mut frame = base;
        frame.a0 = 0;
        frame.sepc = frame.sepc.wrapping_add(4);
        if let Some(sp) = stack {
            frame.sp = sp;
        }
        proof {
            assert(frame == spec_child_frame(base, stack));
        }

        let aid: usize = if clone_flags.contains(CLONE_VM) {
            caller_aspace_id
        } else {
            let dup = self.aspaces[caller_aspace_id].duplicate();
            let aid = self.aspaces.len();
            self.aspaces.push(dup);
            aid
        };

        let pid = self.next_task_id;
        self.next_task_id = self.next_task_id + 1;

        let link_pid: u64 = if clone_flags.contains(CLONE_PARENT) {
            caller_ppid
        } else {
            caller_pid
        };

        let ghost mid = *self;
        // Link the child into the chosen parent's child list, when that
        // parent is still registered; a system process outside the registry
        // records no children.
        let linked: bool;
        match self.find_proc(link_pid) {
            Some(gi) => {
                if self.procs[gi].in_registry {
                    let mut g = self.procs.remove(gi);
                    g.children.push(pid);
                    self.procs.insert(gi, g);
                    linked = true;
                    proof {
                        assert(self.procs@ =~= mid.procs@.update(
                            gi as int,
                            self.procs@[gi as int],
                        ));
                    }
                } else {
                    linked = false;
                }
            },
            None => {
                linked = false;
            },
        }
        let ghost mid2 = *self;

        let mut child = Process::new(link_pid, pid, aid, frame);
        if clone_flags.contains(CLONE_FILES) {
            child.files_shared = true;
        }
        if clone_flags.contains(CLONE_CHILD_CLEARTID) {
            let mut t = child.threads.remove(0);
            t.clear_child_tid = ctid;
            child.threads.insert(0, t);
            proof {
                assert(child.threads@.len() == 1);
            }
        }
        self.procs.push(child);

        proof {
            let pre = *old(self);
            let post = *self;
            let n = mid2.procs@.len() as int;
            assert(post.procs@ =~= mid2.procs@.push(child));

            // Well-formedness of the grown state.
            assert(post.wf()) by {
                assert forall|i: int| 0 <= i < post.procs@.len() implies (
                #[trigger] post.procs@[i]).wf() by {
                    if i < n {
                        assert(mid2.procs@[i].wf());
                    }
                }
            }
            post.lemma_proc_at(n);
            assert(post.spec_proc(pid) == child);

            // The caller and the linking parent, before and after.
            pre.lemma_proc_at(ci as int);
            if linked {
                let gi = mid.spec_proc_index(link_pid);
                mid.lemma_proc_at(gi);
                assert(mid2.procs@[gi].pid == link_pid);
                mid2.lemma_proc_at(gi);
                post.lemma_proc_at(gi);
                assert(mid.procs@ == pre.procs@);
                assert(post.spec_proc(link_pid).children@ == pre.spec_proc(
                    link_pid,
                ).children@.push(pid));
            } else {
                assert(mid2.procs@ == pre.procs@);
                assert(!pre.registered(link_pid)) by {
                    if pre.has_proc(link_pid) {
                        let j = pre.spec_proc_index(link_pid);
                        pre.lemma_proc_at(j);
                    }
                }
            }

            assert forall|q: u64| #[trigger] pre.has_proc(q) && !set![link_pid, pid].contains(q)
                implies post.has_proc(q) && post.spec_proc(q) == pre.spec_proc(q) by {
                let j = pre.spec_proc_index(q);
                pre.lemma_proc_at(j);
                assert(post.procs@[j].pid == q);
                post.lemma_proc_at(j);
            }
            assert forall|q: u64| #[trigger] post.has_proc(q) implies pre.has_proc(q)
                || set![link_pid, pid].contains(q) by {
                let j = post.spec_proc_index(q);
                if j < n {
                    pre.lemma_proc_at(j);
                }
            }
            if !linked {
                assert forall|q: u64| #[trigger] pre.has_proc(q) implies post.has_proc(q)
                    && post.spec_proc(q) == pre.spec_proc(q) by {
                    let j = pre.spec_proc_index(q);
                    pre.lemma_proc_at(j);
                    assert(post.procs@[j].pid == q);
                    post.lemma_proc_at(j);
                }
            }
            assert(!pre.has_proc(pid)) by {
                if pre.has_proc(pid) {
                    let j = pre.spec_proc_index(pid);
                    pre.lemma_proc_at(j);
                }
            }
            if spec_clone_bits(flags) & CLONE_VM != CLONE_VM {
                assert(post.aspaces@.subrange(0, pre.aspaces@.len() as int) =~= pre.aspaces@);
            }
        }
        Ok(pid)
    }
}

} // verus!

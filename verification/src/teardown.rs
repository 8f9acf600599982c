//! Process and thread teardown: the exit barrier and the wait/reap
//! protocol.

use vstd::prelude::*;
use crate::flags::WaitStatus;
use crate::kernel::Kernel;
use crate::process::{Process, Thread};

verus! {

/// What a single step of the process-exit operation achieved. The barrier
/// is cooperative: on `Waiting` the caller yields and calls again once the
/// sibling threads have exited.
#[derive(Clone, Copy, Debug, PartialEq, Eq, Structural)]
pub enum ExitProgress {
    /// The process finalized: exit code stored, registry entry gone.
    Done,
    /// Sibling threads are still registered; the exit barrier holds.
    Waiting,
}

/// The position of `target` in `children`, scanning from `k`.
pub open spec fn spec_child_pos(children: Seq<u64>, target: u64, k: int) -> Option<int>
    decreases children.len() - k,
{
    if k < 0 || k >= children.len() {
        None
    } else if children[k] == target {
        Some(k)
    } else {
        spec_child_pos(children, target, k + 1)
    }
}

impl Kernel {
    /// The position of the first exited child at or after `k`.
    pub open spec fn spec_first_exited(self, children: Seq<u64>, k: int) -> Option<int>
        decreases children.len() - k,
    {
        if k < 0 || k >= children.len() {
            None
        } else if self.proc_exited(children[k]) {
            Some(k)
        } else {
            self.spec_first_exited(children, k + 1)
        }
    }

    /// The child-list position a wait call reaps, if any: the named child
    /// when it has exited, or the first exited child under a non-positive
    /// selector.
    pub open spec fn spec_reap_index(self, caller: Process, pid: i32) -> Option<int> {
        if pid > 0 {
            match spec_child_pos(caller.children@, pid as u64, 0) {
                Some(k) => if self.proc_exited(caller.children@[k]) {
                    Some(k)
                } else {
                    None
                },
                None => None,
            }
        } else {
            self.spec_first_exited(caller.children@, 0)
        }
    }

    /// The status a wait call reports when nothing can be reaped.
    pub open spec fn spec_wait_err(self, caller: Process, pid: i32) -> WaitStatus {
        if pid > 0 {
            match spec_child_pos(caller.children@, pid as u64, 0) {
                Some(k) => if self.has_proc(caller.children@[k]) {
                    WaitStatus::Running
                } else {
                    WaitStatus::NotExist
                },
                None => WaitStatus::NotExist,
            }
        } else {
            if caller.children@.len() == 0 {
                WaitStatus::NotExist
            } else {
                WaitStatus::Running
            }
        }
    }

    /// The caller-visible status word of a normal exit: the low byte of the
    /// exit code, shifted left eight bits.
    pub open spec fn spec_wait_status_word(code: i32) -> i32 {
        (((code as u32) & 0xff) << 8) as i32
    }

    /// What one step of process exit guarantees: children reparented, the
    /// exited mark set, and finalization exactly when the barrier is clear.
    #[verifier::inline]
    pub open spec fn spec_exit_post(
        pre: Kernel,
        post: Kernel,
        pid: u64,
        code: i32,
        r: ExitProgress,
    ) -> bool {
        let pre_p = pre.spec_proc(pid);
        &&& r == (if pre_p.threads@.len() > 1 {
            ExitProgress::Waiting
        } else {
            ExitProgress::Done
        })
        &&& (forall|c: u64|
            pre_p.children@.contains(c) && #[trigger] pre.has_proc(c) ==> post.has_proc(c)
                && post.spec_proc(c) == (Process { ppid: 1u64, ..pre.spec_proc(c) }))
        &&& post.has_proc(pid)
        &&& (r == ExitProgress::Waiting ==> post.spec_proc(pid) == (Process {
            is_exited: true,
            ..pre_p
        }))
        &&& (r == ExitProgress::Done ==> post.spec_proc(pid) == (Process {
            is_exited: true,
            exit_code: code,
            in_registry: false,
            ..pre_p
        }))
        &&& Kernel::same_procs_except(pre, post, pre_p.children@.to_set().insert(pid))
    }

    /// What a thread exit guarantees: the signal module goes; a worker
    /// thread leaves the table, while the main thread carries out process
    /// exit.
    #[verifier::inline]
    pub open spec fn spec_exit_thread_post(
        pre: Kernel,
        post: Kernel,
        pid: u64,
        tid: u64,
        status: i32,
        r: ExitProgress,
    ) -> bool {
        if tid != pid {
                let pre_p = pre.spec_proc(pid);
                let ti = pre_p.spec_tid_index(tid);
                &&& r == ExitProgress::Done
                &&& post.has_proc(pid)
                &&& post.spec_proc(pid) == (Process {
                    threads: post.spec_proc(pid).threads,
                    ..pre_p
                })
                &&& post.spec_proc(pid).threads@ == pre_p.threads@.remove(ti)
                &&& Kernel::same_procs_except(pre, post, set![pid])
        } else {
                let pre_p = pre.spec_proc(pid);
                let post_p = post.spec_proc(pid);
                &&& r == (if pre_p.threads@.len() > 1 {
                    ExitProgress::Waiting
                } else {
                    ExitProgress::Done
                })
                &&& (forall|c: u64|
                    pre_p.children@.contains(c) && #[trigger] pre.has_proc(c) ==> post.has_proc(c)
                        && post.spec_proc(c) == (Process { ppid: 1u64, ..pre.spec_proc(c) }))
                &&& post.has_proc(pid)
                &&& post_p.threads@ == pre_p.threads@.update(
                    0,
                    Thread { sig: None, ..pre_p.threads@[0] },
                )
                &&& (r == ExitProgress::Waiting ==> post_p == (Process {
                    threads: post_p.threads,
                    is_exited: true,
                    ..pre_p
                }))
                &&& (r == ExitProgress::Done ==> post_p == (Process {
                    threads: post_p.threads,
                    is_exited: true,
                    exit_code: status,
                    in_registry: false,
                    ..pre_p
                }))
                &&& Kernel::same_procs_except(pre, post, pre_p.children@.to_set().insert(pid))
            }
    }

    /// One step of process exit. Reparents every live child to the root
    /// process and marks the process exited; then, only once the main
    /// thread is the sole entry of the thread table, stores the exit code
    /// and leaves the registry. While sibling threads remain the step
    /// reports `Waiting`, the process stays in the registry, and no exit
    /// code is stored. A finalized zombie is never exited again: callers
    /// reach this only for a process still registered or one still holding
    /// the barrier, so the stored code is written exactly once.
    #[verifier::rlimit(100)]
    #[verifier::spinoff_prover]
    pub fn exit(&mut self, pid: u64, code: i32) -> (r: ExitProgress)
        requires
            old(self).wf(),
            old(self).has_proc(pid),
            old(self).spec_proc(pid).in_registry || !old(self).spec_proc(pid).is_exited,
        ensures
            final(self).wf(),
            final(self).aspaces == old(self).aspaces,
            final(self).next_task_id == old(self).next_task_id,
            final(self).trampoline == old(self).trampoline,
            Kernel::spec_exit_post(*old(self), *final(self), pid, code, r),
    {
        let ghost pre = *old(self);
        let ci = match self.find_proc(pid) {
            Some(i) => i,
            None => {
                proof {
                    assert(false);
                }
                return ExitProgress::Done;
            },
        };
        let ghost pre_p = pre.spec_proc(pid);

        // Reparent every live child to the root process.
        let nc = self.procs[ci].children.len();
        let mut k: usize = 0;
        while k < nc
            invariant
                k <= nc,
                self.procs@.len() == pre.procs@.len(),
                ci < self.procs@.len(),
                nc == pre.procs@[ci as int].children@.len(),
                pre.wf(),
                pre.spec_proc_index(pid) == ci as int,
                pre.procs@[ci as int] == pre_p,
                pre_p.pid == pid,
                self.procs@[ci as int] == pre_p,
                self.aspaces == pre.aspaces,
                self.next_task_id == pre.next_task_id,
                self.trampoline == pre.trampoline,
                forall|i: int|
                    0 <= i < self.procs@.len() ==> (#[trigger] self.procs@[i]).pid
                        == pre.procs@[i].pid && (if pre_p.children@.subrange(0, k as int).contains(
                        pre.procs@[i].pid,
                    ) {
                        self.procs@[i] == (Process { ppid: 1u64, ..pre.procs@[i] })
                    } else {
                        self.procs@[i] == pre.procs@[i]
                    }),
                self.wf(),
            decreases nc - k,
        {
            let c = self.procs[ci].children[k];
            proof {
                assert(pre_p.children@[k as int] == c);
                assert(c != pid);
            }
            match self.find_proc(c) {
                Some(gi) => {
                    proof {
                        assert(self.procs@[gi as int].pid == c);
                        assert(gi != ci);
                    }
                    let ghost snap = *self;
                    let mut g = self.procs.remove(gi);
                    g.ppid = 1;
                    self.procs.insert(gi, g);
                    proof {
                        let newp = Process { ppid: 1u64, ..snap.procs@[gi as int] };
                        assert(self.procs@ =~= snap.procs@.update(gi as int, newp));
                        assert(pre_p.children@.subrange(0, k as int + 1) =~= pre_p.children@
                            .subrange(0, k as int).push(c));
                        assert(!pre_p.children@.subrange(0, k as int).contains(c)) by {
                            if pre_p.children@.subrange(0, k as int).contains(c) {
                                let j = choose|j: int|
                                    0 <= j < k && pre_p.children@.subrange(0, k as int)[j] == c;
                                assert(pre_p.children@[j] == pre_p.children@[k as int]);
                            }
                        }
                        assert(snap.procs@[gi as int].pid == pre.procs@[gi as int].pid);
                        assert(snap.procs@[gi as int] == pre.procs@[gi as int]);
                        assert forall|i: int| 0 <= i < self.procs@.len() implies (
                        #[trigger] self.procs@[i]).pid == pre.procs@[i].pid && (if pre_p.children@
                            .subrange(0, k as int + 1).contains(pre.procs@[i].pid) {
                            self.procs@[i] == (Process { ppid: 1u64, ..pre.procs@[i] })
                        } else {
                            self.procs@[i] == pre.procs@[i]
                        }) by {
                            assert(snap.procs@[i].pid == pre.procs@[i].pid);
                            if i == gi as int {
                                assert(self.procs@[i] == newp);
                                assert(pre_p.children@.subrange(0, k as int + 1).contains(c)) by {
                                    assert(pre_p.children@.subrange(0, k as int + 1)[k as int]
                                        == c);
                                }
                            } else {
                                assert(self.procs@[i] == snap.procs@[i]);
                                assert(pre.procs@[i].pid != c) by {
                                    if pre.procs@[i].pid == c {
                                        assert(pre.procs@[gi as int].pid == c);
                                    }
                                }
                                assert(pre_p.children@.subrange(0, k as int + 1).contains(
                                    pre.procs@[i].pid,
                                ) == pre_p.children@.subrange(0, k as int).contains(
                                    pre.procs@[i].pid,
                                )) by {
                                    let s0 = pre_p.children@.subrange(0, k as int);
                                    let s1 = pre_p.children@.subrange(0, k as int + 1);
                                    let x = pre.procs@[i].pid;
                                    if s0.contains(x) {
                                        let j = choose|j: int| 0 <= j < s0.len() && s0[j] == x;
                                        assert(s1[j] == x);
                                    } else if s1.contains(x) {
                                        let j = choose|j: int| 0 <= j < s1.len() && s1[j] == x;
                                        assert(j < k ==> s0[j] == x);
                                        assert(j == k ==> x == c);
                                    }
                                }
                            }
                        }
                    }
                },
                None => {
                    proof {
                        assert(pre_p.children@.subrange(0, k as int + 1) =~= pre_p.children@
                            .subrange(0, k as int).push(c));
                        assert forall|i: int| 0 <= i < self.procs@.len() implies (
                        #[trigger] self.procs@[i]).pid == pre.procs@[i].pid && (if pre_p.children@
                            .subrange(0, k as int + 1).contains(pre.procs@[i].pid) {
                            self.procs@[i] == (Process { ppid: 1u64, ..pre.procs@[i] })
                        } else {
                            self.procs@[i] == pre.procs@[i]
                        }) by {
                            assert(pre.procs@[i].pid != c) by {
                                if pre.procs@[i].pid == c {
                                    assert(self.procs@[i].pid == c);
                                    assert(self.has_proc(c));
                                }
                            }
                            let s0 = pre_p.children@.subrange(0, k as int);
                            let s1 = pre_p.children@.subrange(0, k as int + 1);
                            let x = pre.procs@[i].pid;
                            assert(s1.contains(x) == s0.contains(x)) by {
                                if s0.contains(x) {
                                    let j = choose|j: int| 0 <= j < s0.len() && s0[j] == x;
                                    assert(s1[j] == x);
                                } else if s1.contains(x) {
                                    let j = choose|j: int| 0 <= j < s1.len() && s1[j] == x;
                                    assert(j < k ==> s0[j] == x);
                                    assert(j == k ==> x == c);
                                }
                            }
                        }
                    }
                },
            }
            k += 1;
        }
        proof {
            assert(pre_p.children@.subrange(0, nc as int) =~= pre_p.children@);
        }

        // Mark the process exited; finalize only when the barrier is clear.
        let waiting = self.procs[ci].threads.len() > 1;
        let ghost snap2 = *self;
        let mut p = self.procs.remove(ci);
        p.is_exited = true;
        if !waiting {
            p.exit_code = code;
            p.in_registry = false;
        }
        self.procs.insert(ci, p);
        proof {
            let post = *self;
            assert(post.procs@ =~= snap2.procs@.update(ci as int, post.procs@[ci as int]));
            assert(post.wf());
            post.lemma_proc_at(ci as int);
            let touched = pre_p.children@.to_set().insert(pid);
            assert forall|q: u64| #[trigger] pre.has_proc(q) && !touched.contains(q) implies
                post.has_proc(q) && post.spec_proc(q) == pre.spec_proc(q) by {
                let j = pre.spec_proc_index(q);
                pre.lemma_proc_at(j);
                assert(!pre_p.children@.contains(q));
                assert(post.procs@[j].pid == q);
                assert(post.procs@[j] == pre.procs@[j]);
                post.lemma_proc_at(j);
            }
            assert forall|q: u64| #[trigger] post.has_proc(q) implies pre.has_proc(q)
                || touched.contains(q) by {
                let j = post.spec_proc_index(q);
                pre.lemma_proc_at(j);
            }
            assert forall|c: u64| pre_p.children@.contains(c) && #[trigger] pre.has_proc(c)
                implies post.has_proc(c) && post.spec_proc(c) == (Process {
                ppid: 1u64,
                ..pre.spec_proc(c)
            }) by {
                let j = pre.spec_proc_index(c);
                pre.lemma_proc_at(j);
                assert(c != pid);
                assert(j != ci as int);
                assert(self.procs@[j] == (Process { ppid: 1u64, ..pre.procs@[j] }));
                post.lemma_proc_at(j);
            }
        }
        if waiting {
            ExitProgress::Waiting
        } else {
            ExitProgress::Done
        }
    }

    /// A thread leaves: its signal module goes at once; the main thread
    /// then carries out process exit (possibly waiting on the barrier),
    /// while any other thread is simply dropped from the thread table.
    #[verifier::rlimit(100)]
    #[verifier::spinoff_prover]
    pub fn exit_thread(&mut self, pid: u64, tid: u64, status: i32) -> (r: ExitProgress)
        requires
            old(self).wf(),
            old(self).has_proc(pid),
            old(self).spec_proc(pid).spec_has_tid(tid),
            old(self).spec_proc(pid).in_registry || !old(self).spec_proc(pid).is_exited,
        ensures
            final(self).wf(),
            final(self).aspaces == old(self).aspaces,
            final(self).next_task_id == old(self).next_task_id,
            final(self).trampoline == old(self).trampoline,
            Kernel::spec_exit_thread_post(*old(self), *final(self), pid, tid, status, r),
    {
        let ghost pre = *old(self);
        let ci = match self.find_proc(pid) {
            Some(i) => i,
            None => {
                proof {
                    assert(false);
                }
                return ExitProgress::Done;
            },
        };
        let mut p = self.procs.remove(ci);
        let ti = match p.find_thread(tid) {
            Some(t) => t,
            None => {
                proof {
                    assert(false);
                }
                self.procs.insert(ci, p);
                return ExitProgress::Done;
            },
        };
        let is_main = tid == pid;
        let mut t = p.threads.remove(ti);
        t.sig = None;
        if is_main {
            proof {
                assert(ti == 0) by {
                    if ti != 0 {
                        assert(pre.spec_proc(pid).threads@[0].tid == pid);
                    }
                }
            }
            p.threads.insert(ti, t);
            self.procs.insert(ci, p);
            proof {
                let mid = *self;
                assert(mid.procs@ =~= pre.procs@.update(ci as int, mid.procs@[ci as int]));
                assert(mid.procs@[ci as int].threads@ =~= pre.spec_proc(pid).threads@.update(
                    0,
                    Thread { sig: None, ..pre.spec_proc(pid).threads@[0] },
                ));
                assert(mid.wf());
                mid.lemma_proc_at(ci as int);
                assert forall|q: u64| #[trigger] pre.has_proc(q) && q != pid implies
                    mid.has_proc(q) && mid.spec_proc(q) == pre.spec_proc(q) by {
                    let j = pre.spec_proc_index(q);
                    pre.lemma_proc_at(j);
                    assert(mid.procs@[j].pid == q);
                    mid.lemma_proc_at(j);
                }
                assert forall|q: u64| #[trigger] mid.has_proc(q) implies pre.has_proc(q) by {
                    let j = mid.spec_proc_index(q);
                    pre.lemma_proc_at(j);
                }
            }
            let r = self.exit(pid, status);
            proof {
                let post = *self;
                let pre_p = pre.spec_proc(pid);
                let ghost_mid = *old(self);
                assert forall|c: u64| pre_p.children@.contains(c) && #[trigger] pre.has_proc(c)
                    implies post.has_proc(c) && post.spec_proc(c) == (Process {
                    ppid: 1u64,
                    ..pre.spec_proc(c)
                }) by {
                    assert(c != pid);
                }
                assert(Kernel::same_procs_except(pre, post, pre_p.children@.to_set().insert(pid)));
            }
            r
        } else {
            proof {
                assert(ti != 0) by {
                    assert(pre.spec_proc(pid).threads@[0].tid == pid);
                }
            }
            self.procs.insert(ci, p);
            proof {
                let post = *self;
                assert(post.procs@ =~= pre.procs@.update(ci as int, post.procs@[ci as int]));
                assert(post.wf());
                post.lemma_proc_at(ci as int);
                assert forall|q: u64| #[trigger] pre.has_proc(q) && !set![pid].contains(q) implies
                    post.has_proc(q) && post.spec_proc(q) == pre.spec_proc(q) by {
                    let j = pre.spec_proc_index(q);
                    pre.lemma_proc_at(j);
                    assert(post.procs@[j].pid == q);
                    post.lemma_proc_at(j);
                }
                assert forall|q: u64| #[trigger] post.has_proc(q) implies pre.has_proc(q)
                    || set![pid].contains(q) by {
                    let j = post.spec_proc_index(q);
                    pre.lemma_proc_at(j);
                }
            }
            ExitProgress::Done
        }
    }
}

impl Process {
    /// The first position of `target` in the child list, if it is a child.
    fn child_pos(&self, target: u64) -> (r: Option<usize>)
        ensures
            match r {
                Some(k) => k < self.children@.len() && self.children@[k as int] == target
                    && spec_child_pos(self.children@, target, 0) == Some(k as int),
                None => spec_child_pos(self.children@, target, 0) is None,
            },
    {
        let nc = self.children.len();
        let mut k: usize = 0;
        while k < nc
            invariant
                k <= nc,
                nc == self.children@.len(),
                spec_child_pos(self.children@, target, 0) == spec_child_pos(
                    self.children@,
                    target,
                    k as int,
                ),
            decreases nc - k,
        {
            if self.children[k] == target {
                return Some(k);
            }
            k += 1;
        }
        None
    }
}

impl Kernel {
    /// Removes child list entry `k` of the process at `ci` and drops the
    /// exited child object at `xi`, returning the child's pid and its
    /// status word.
    #[verifier::rlimit(100)]
    #[verifier::spinoff_prover]
    fn reap_at(&mut self, ci: usize, k: usize, xi: usize) -> (r: (u64, i32))
        requires
            old(self).wf(),
            ci < old(self).procs@.len(),
            xi < old(self).procs@.len(),
            ci != xi,
            (k as int) < old(self).procs@[ci as int].children@.len(),
            old(self).procs@[ci as int].children@[k as int] == old(self).procs@[xi as int].pid,
        ensures
            final(self).wf(),
            final(self).aspaces == old(self).aspaces,
            final(self).next_task_id == old(self).next_task_id,
            final(self).trampoline == old(self).trampoline,
            ({
                let pre = *old(self);
                let post = *final(self);
                let cpid = pre.procs@[ci as int].pid;
                let xpid = pre.procs@[xi as int].pid;
                &&& r.0 == xpid
                &&& r.1 == Kernel::spec_wait_status_word(pre.procs@[xi as int].exit_code)
                &&& !post.has_proc(xpid)
                &&& post.has_proc(cpid)
                &&& post.spec_proc(cpid) == (Process {
                    children: post.spec_proc(cpid).children,
                    ..pre.procs@[ci as int]
                })
                &&& post.spec_proc(cpid).children@ == pre.procs@[ci as int].children@.remove(
                    k as int,
                )
                &&& Kernel::same_procs_except(pre, post, set![cpid, xpid])
            }),
    {
        let ghost pre = *old(self);
        let child_pid = self.procs[ci].children[k];
        let code = self.procs[xi].exit_code;
        let status: i32 = ((#[verifier::truncate] (code as u32) & 0xff) << 8u32) as i32;
        let mut p = self.procs.remove(ci);
        p.children.remove(k);
        self.procs.insert(ci, p);
        let ghost mid = *self;
        self.procs.remove(xi);
        proof {
            let post = *self;
            let cpid = pre.procs@[ci as int].pid;
            let xpid = pre.procs@[xi as int].pid;
            assert(mid.procs@ =~= pre.procs@.update(ci as int, mid.procs@[ci as int]));
            assert(mid.procs@[ci as int].children@ == pre.procs@[ci as int].children@.remove(
                k as int,
            ));
            assert(mid.procs@[ci as int].wf()) by {
                let oldc = pre.procs@[ci as int].children@;
                let newc = mid.procs@[ci as int].children@;
                assert(forall|i: int|
                    0 <= i < newc.len() ==> newc[i] == (if i < k as int {
                        oldc[i]
                    } else {
                        oldc[i + 1]
                    }));
            }
            assert(post.procs@ == mid.procs@.remove(xi as int));
            assert(forall|i: int|
                0 <= i < post.procs@.len() ==> post.procs@[i] == (if i < xi as int {
                    mid.procs@[i]
                } else {
                    mid.procs@[i + 1]
                }));
            assert(post.wf());
            // The caller keeps its identity at its (possibly shifted) index.
            let ci2: int = if (ci as int) < xi as int {
                ci as int
            } else {
                ci as int - 1
            };
            assert(post.procs@[ci2] == mid.procs@[ci as int]);
            post.lemma_proc_at(ci2);
            assert(post.spec_proc(cpid) == mid.procs@[ci as int]);
            // The reaped child is gone.
            assert(!post.has_proc(xpid)) by {
                if post.has_proc(xpid) {
                    let j = post.spec_proc_index(xpid);
                    let j2: int = if j < xi as int {
                        j
                    } else {
                        j + 1
                    };
                    assert(post.procs@[j] == mid.procs@[j2]);
                    assert(pre.procs@[j2].pid == xpid);
                    if j2 != xi as int {
                        assert(pre.procs@[xi as int].pid == xpid);
                    }
                }
            }
            // Everything else is carried over.
            assert forall|q: u64| #[trigger] pre.has_proc(q) && !set![cpid, xpid].contains(q)
                implies post.has_proc(q) && post.spec_proc(q) == pre.spec_proc(q) by {
                let j = pre.spec_proc_index(q);
                pre.lemma_proc_at(j);
                assert(j != ci as int && j != xi as int);
                assert(mid.procs@[j] == pre.procs@[j]);
                let j2: int = if j < xi as int {
                    j
                } else {
                    j - 1
                };
                assert(post.procs@[j2] == mid.procs@[j]);
                post.lemma_proc_at(j2);
            }
            assert forall|q: u64| #[trigger] post.has_proc(q) implies pre.has_proc(q)
                || set![cpid, xpid].contains(q) by {
                let j = post.spec_proc_index(q);
                let j2: int = if j < xi as int {
                    j
                } else {
                    j + 1
                };
                assert(post.procs@[j] == mid.procs@[j2]);
                assert(pre.procs@[j2].pid == q);
                pre.lemma_proc_at(j2);
            }
        }
        (child_pid, status)
    }

    /// The first reapable child under a non-positive selector: its list
    /// position and its process index.
    fn find_first_exited(&self, ci: usize) -> (r: Option<(usize, usize)>)
        requires
            self.wf(),
            ci < self.procs@.len(),
        ensures
            match r {
                Some(pair) => {
                    &&& self.spec_first_exited(self.procs@[ci as int].children@, 0) == Some(
                        pair.0 as int,
                    )
                    &&& (pair.0 as int) < self.procs@[ci as int].children@.len()
                    &&& pair.1 < self.procs@.len()
                    &&& self.procs@[pair.1 as int].pid == self.procs@[ci as int].children@[pair.0 as int]
                    &&& self.procs@[pair.1 as int].is_exited
                },
                None => self.spec_first_exited(self.procs@[ci as int].children@, 0) is None,
            },
    {
        let nc = self.procs[ci].children.len();
        let mut k: usize = 0;
        while k < nc
            invariant
                k <= nc,
                self.wf(),
                ci < self.procs@.len(),
                nc == self.procs@[ci as int].children@.len(),
                self.spec_first_exited(self.procs@[ci as int].children@, 0)
                    == self.spec_first_exited(self.procs@[ci as int].children@, k as int),
            decreases nc - k,
        {
            let c = self.procs[ci].children[k];
            match self.find_proc(c) {
                Some(xi) => {
                    if self.procs[xi].is_exited {
                        proof {
                            self.lemma_proc_at(xi as int);
                            assert(self.proc_exited(c));
                        }
                        return Some((k, xi));
                    }
                    proof {
                        self.lemma_proc_at(xi as int);
                        assert(!self.proc_exited(c));
                    }
                },
                None => {
                    proof {
                        assert(!self.proc_exited(c));
                    }
                },
            }
            k += 1;
        }
        None
    }

    /// The non-blocking wait primitive. A positive selector names one
    /// child; a non-positive one accepts any child (process groups are not
    /// implemented: any child is taken). An exited selected child is
    /// reaped: its status word `(code & 0xff) << 8` and pid are returned,
    /// its entry leaves the child list, and its process object is dropped.
    /// Otherwise the scan reports `Running` when a selected child exists
    /// and `NotExist` when none does, and nothing changes. The caller
    /// yields and retries on `Running`.
    #[verifier::rlimit(100)]
    #[verifier::spinoff_prover]
    pub fn wait_pid(&mut self, caller_pid: u64, pid: i32, _options: u32) -> (r: Result<
        (u64, i32),
        WaitStatus,
    >)
        requires
            old(self).wf(),
            old(self).has_proc(caller_pid),
        ensures
            final(self).wf(),
            final(self).aspaces == old(self).aspaces,
            final(self).next_task_id == old(self).next_task_id,
            final(self).trampoline == old(self).trampoline,
            ({
                let pre = *old(self);
                let post = *final(self);
                let caller = pre.spec_proc(caller_pid);
                match pre.spec_reap_index(caller, pid) {
                    Some(j) => {
                        let cpid = caller.children@[j];
                        &&& r == Ok::<(u64, i32), WaitStatus>(
                            (cpid, Kernel::spec_wait_status_word(pre.spec_proc(cpid).exit_code)),
                        )
                        &&& !post.has_proc(cpid)
                        &&& post.has_proc(caller_pid)
                        &&& post.spec_proc(caller_pid) == (Process {
                            children: post.spec_proc(caller_pid).children,
                            ..caller
                        })
                        &&& post.spec_proc(caller_pid).children@ == caller.children@.remove(j)
                        &&& Kernel::same_procs_except(pre, post, set![caller_pid, cpid])
                    },
                    None => {
                        &&& r == Err::<(u64, i32), WaitStatus>(pre.spec_wait_err(caller, pid))
                        &&& *final(self) == *old(self)
                    },
                }
            }),
    {
        let ghost pre = *old(self);
        let ci = match self.find_proc(caller_pid) {
            Some(i) => i,
            None => {
                proof {
                    assert(false);
                }
                return Err(WaitStatus::NotExist);
            },
        };
        if pid > 0 {
            let target = pid as u64;
            let kpos = self.procs[ci].child_pos(target);
            match kpos {
                None => Err(WaitStatus::NotExist),
                Some(k) => {
                    match self.find_proc(target) {
                        None => {
                            proof {
                                assert(!pre.proc_exited(target));
                            }
                            Err(WaitStatus::NotExist)
                        },
                        Some(xi) => {
                            proof {
                                self.lemma_proc_at(xi as int);
                            }
                            if !self.procs[xi].is_exited {
                                proof {
                                    assert(!pre.proc_exited(target));
                                }
                                Err(WaitStatus::Running)
                            } else {
                                proof {
                                    assert(pre.proc_exited(target));
                                    assert(pre.procs@[ci as int].children@[k as int] != caller_pid);
                                    assert(xi != ci);
                                }
                                let rr = self.reap_at(ci, k, xi);
                                Ok(rr)
                            }
                        },
                    }
                },
            }
        } else {
            match self.find_first_exited(ci) {
                Some(pair) => {
                    let (k, xi) = pair;
                    proof {
                        self.lemma_proc_at(xi as int);
                        assert(pre.procs@[ci as int].children@[k as int] != caller_pid);
                        assert(xi != ci);
                    }
                    let rr = self.reap_at(ci, k, xi);
                    Ok(rr)
                },
                None => {
                    if self.procs[ci].children.len() == 0 {
                        Err(WaitStatus::NotExist)
                    } else {
                        Err(WaitStatus::Running)
                    }
                },
            }
        }
    }
}

} // verus!

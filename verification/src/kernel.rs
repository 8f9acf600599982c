//! The kernel state these subsystems own, as one explicit service object:
//! the process registry, the address-space table, the id counter and the
//! trampoline address. Built once at boot and threaded through as a
//! dependency.

use vstd::prelude::*;
use crate::aspace::AddrSpace;
use crate::process::Process;
use crate::trapframe::TrapFrame;

verus! {

/// The state of the process, thread and signal core.
pub struct Kernel {
    /// Every live or zombie process; a zombie stays here, unregistered,
    /// until its parent reaps it.
    pub procs: Vec<Process>,
    /// The address spaces, shared by index.
    pub aspaces: Vec<AddrSpace>,
    /// The next task id; ids serve as pids and tids and are never reused.
    pub next_task_id: u64,
    /// Address of the fixed signal-return trampoline.
    pub trampoline: usize,
}

impl Kernel {
    /// Structural well-formedness of the whole state.
    pub open spec fn wf(self) -> bool {
        &&& self.next_task_id >= 1
        &&& (forall|i: int| 0 <= i < self.procs@.len() ==> (#[trigger] self.procs@[i]).wf())
        &&& (forall|i: int, j: int|
            0 <= i < j < self.procs@.len() ==> self.procs@[i].pid != self.procs@[j].pid)
        &&& (forall|i: int|
            0 <= i < self.procs@.len() ==> (#[trigger] self.procs@[i]).aspace_id
                < self.aspaces@.len())
        &&& (forall|i: int|
            0 <= i < self.procs@.len() ==> (#[trigger] self.procs@[i]).pid < self.next_task_id)
        &&& (forall|i: int, k: int|
            0 <= i < self.procs@.len() && 0 <= k < self.procs@[i].threads@.len() ==> (
            #[trigger] self.procs@[i].threads@[k]).tid < self.next_task_id)
        &&& (forall|i: int, k: int|
            0 <= i < self.procs@.len() && 0 <= k < self.procs@[i].children@.len() ==> (
            #[trigger] self.procs@[i].children@[k]) < self.next_task_id)
    }

    /// Whether a process object with this pid exists (registered or zombie).
    pub open spec fn has_proc(self, pid: u64) -> bool {
        exists|i: int| 0 <= i < self.procs@.len() && (#[trigger] self.procs@[i]).pid == pid
    }

    /// The index of the process with this pid.
    pub open spec fn spec_proc_index(self, pid: u64) -> int {
        choose|i: int| 0 <= i < self.procs@.len() && (#[trigger] self.procs@[i]).pid == pid
    }

    /// The process with this pid.
    pub open spec fn spec_proc(self, pid: u64) -> Process {
        self.procs@[self.spec_proc_index(pid)]
    }

    /// Whether the registry still lists this pid: lookups succeed exactly
    /// here.
    pub open spec fn registered(self, pid: u64) -> bool {
        self.has_proc(pid) && self.spec_proc(pid).in_registry
    }

    /// Whether this pid exists and has exited.
    pub open spec fn proc_exited(self, pid: u64) -> bool {
        self.has_proc(pid) && self.spec_proc(pid).is_exited
    }

    /// The process at index `i` is found by its pid.
    pub proof fn lemma_proc_at(self, i: int)
        requires
            self.wf(),
            0 <= i < self.procs@.len(),
        ensures
            self.has_proc(self.procs@[i].pid),
            self.spec_proc_index(self.procs@[i].pid) == i,
            self.spec_proc(self.procs@[i].pid) == self.procs@[i],
    {
        let pid = self.procs@[i].pid;
        assert(self.has_proc(pid));
        let w = self.spec_proc_index(pid);
        if w != i {
            if w < i {
                assert(self.procs@[w].pid != self.procs@[i].pid);
            } else {
                assert(self.procs@[i].pid != self.procs@[w].pid);
            }
        }
    }

    /// Every process other than the touched pids is carried over unchanged.
    pub open spec fn same_procs_except(pre: Kernel, post: Kernel, touched: Set<u64>) -> bool {
        &&& (forall|p: u64|
            #[trigger] pre.has_proc(p) && !touched.contains(p) ==> post.has_proc(p)
                && post.spec_proc(p) == pre.spec_proc(p))
        &&& (forall|p: u64| #[trigger] post.has_proc(p) ==> pre.has_proc(p) || touched.contains(p))
    }

    /// The index of the process with pid `pid`, if one exists.
    pub fn find_proc(&self, pid: u64) -> (r: Option<usize>)
        requires
            self.wf(),
        ensures
            match r {
                Some(i) => {
                    &&& i < self.procs@.len()
                    &&& self.procs@[i as int].pid == pid
                    &&& self.has_proc(pid)
                    &&& i == self.spec_proc_index(pid)
                },
                None => !self.has_proc(pid),
            },
    {
        let n = self.procs.len();
        let mut i: usize = 0;
        while i < n
            invariant
                i <= n,
                n == self.procs@.len(),
                self.wf(),
                forall|k: int| 0 <= k < i ==> (#[trigger] self.procs@[k]).pid != pid,
            decreases n - i,
        {
            if self.procs[i].pid == pid {
                proof {
                    self.lemma_proc_at(i as int);
                }
                return Some(i);
            }
            i += 1;
        }
        None
    }

    /// The empty kernel: no processes, no address spaces, ids from 1,
    /// handlers returning through `trampoline`.
    pub fn new(trampoline: usize) -> (r: Kernel)
        ensures
            r.wf(),
            r.procs@.len() == 0,
            r.aspaces@.len() == 0,
            r.next_task_id == 1u64,
            r.trampoline == trampoline,
    {
        Kernel { procs: Vec::new(), aspaces: Vec::new(), next_task_id: 1, trampoline }
    }

    /// The registry's allocate-and-register operation: assigns the next
    /// pid, builds a process around an existing address space and the
    /// given initial frame, and inserts it. The pid was never carried by
    /// any process before.
    pub fn new_process(&mut self, ppid: u64, aspace_id: usize, frame: TrapFrame) -> (pid: u64)
        requires
            old(self).wf(),
            old(self).next_task_id < u64::MAX,
            aspace_id < old(self).aspaces@.len(),
        ensures
            final(self).wf(),
            pid == old(self).next_task_id,
            !old(self).has_proc(pid),
            final(self).registered(pid),
            final(self).spec_proc(pid).pid == pid,
            final(self).spec_proc(pid).ppid == ppid,
            final(self).spec_proc(pid).is_exited == false,
            final(self).spec_proc(pid).children@ == Seq::<u64>::empty(),
            final(self).spec_proc(pid).threads@.len() == 1,
            final(self).spec_proc(pid).threads@[0].tid == pid,
            final(self).spec_proc(pid).threads@[0].frame == frame,
            final(self).spec_proc(pid).aspace_id == aspace_id,
            final(self).aspaces == old(self).aspaces,
            final(self).next_task_id == old(self).next_task_id + 1,
            final(self).trampoline == old(self).trampoline,
            Kernel::same_procs_except(*old(self), *final(self), set![pid]),
    {
        let pid = self.next_task_id;
        self.next_task_id = self.next_task_id + 1;
        let p = Process::new(ppid, pid, aspace_id, frame);
        self.procs.push(p);
        proof {
            let pre = *old(self);
            let post = *self;
            let n = pre.procs@.len() as int;
            assert(post.procs@[n].pid == pid);
            assert(post.wf());
            post.lemma_proc_at(n);
            assert forall|q: u64| #[trigger] pre.has_proc(q) && !set![pid].contains(q) implies
                post.has_proc(q) && post.spec_proc(q) == pre.spec_proc(q) by {
                let j = pre.spec_proc_index(q);
                pre.lemma_proc_at(j);
                assert(post.procs@[j].pid == q);
                post.lemma_proc_at(j);
            }
            assert forall|q: u64| #[trigger] post.has_proc(q) implies pre.has_proc(q)
                || set![pid].contains(q) by {
                let j = post.spec_proc_index(q);
                if j < n {
                    pre.lemma_proc_at(j);
                }
            }
            assert(!pre.has_proc(pid)) by {
                if pre.has_proc(pid) {
                    let j = pre.spec_proc_index(pid);
                    pre.lemma_proc_at(j);
                }
            }
        }
        pid
    }

    /// Boots a user task: installs its address space and creates its
    /// process, a child of the root, with the given initial frame. Returns
    /// the fresh pid, which no live process carried before.
    pub fn spawn_user_task(&mut self, aspace: AddrSpace, frame: TrapFrame) -> (pid: u64)
        requires
            old(self).wf(),
            old(self).next_task_id < u64::MAX,
        ensures
            final(self).wf(),
            pid == old(self).next_task_id,
            !old(self).has_proc(pid),
            final(self).registered(pid),
            final(self).spec_proc(pid).pid == pid,
            final(self).spec_proc(pid).ppid == 1u64,
            final(self).spec_proc(pid).is_exited == false,
            final(self).spec_proc(pid).children@ == Seq::<u64>::empty(),
            final(self).spec_proc(pid).threads@.len() == 1,
            final(self).spec_proc(pid).threads@[0].tid == pid,
            final(self).spec_proc(pid).threads@[0].frame == frame,
            final(self).spec_proc(pid).aspace_id == old(self).aspaces@.len(),
            final(self).aspaces@ == old(self).aspaces@.push(aspace),
            final(self).next_task_id == old(self).next_task_id + 1,
            final(self).trampoline == old(self).trampoline,
            Kernel::same_procs_except(*old(self), *final(self), set![pid]),
    {
        let pid = self.next_task_id;
        self.next_task_id = self.next_task_id + 1;
        let aid = self.aspaces.len();
        self.aspaces.push(aspace);
        let p = Process::new(1, pid, aid, frame);
        self.procs.push(p);
        proof {
            let pre = *old(self);
            let post = *self;
            let n = pre.procs@.len() as int;
            assert(post.procs@[n].pid == pid);
            assert(post.wf());
            post.lemma_proc_at(n);
            assert forall|q: u64| #[trigger] pre.has_proc(q) && !set![pid].contains(q) implies
                post.has_proc(q) && post.spec_proc(q) == pre.spec_proc(q) by {
                let j = pre.spec_proc_index(q);
                pre.lemma_proc_at(j);
                assert(post.procs@[j].pid == q);
                post.lemma_proc_at(j);
            }
            assert forall|q: u64| #[trigger] post.has_proc(q) implies pre.has_proc(q)
                || set![pid].contains(q) by {
                let j = post.spec_proc_index(q);
                if j < n {
                    pre.lemma_proc_at(j);
                }
            }
        }
        pid
    }

    /// Looks a pid up in the registry; zombies and unknown pids are not
    /// found.
    pub fn get_process(&self, pid: u64) -> (r: Option<&Process>)
        requires
            self.wf(),
        ensures
            match r {
                Some(p) => self.registered(pid) && *p == self.spec_proc(pid),
                None => !self.registered(pid),
            },
    {
        match self.find_proc(pid) {
            Some(i) => {
                if self.procs[i].in_registry {
                    Some(&self.procs[i])
                } else {
                    None
                }
            },
            None => None,
        }
    }

    /// Unlists a pid from the registry; idempotent, and a no-op for unknown
    /// pids. The process object itself stays for a later reap.
    pub fn remove_process(&mut self, pid: u64)
        requires
            old(self).wf(),
        ensures
            final(self).wf(),
            !final(self).registered(pid),
            final(self).aspaces@ == old(self).aspaces@,
            final(self).next_task_id == old(self).next_task_id,
            final(self).trampoline == old(self).trampoline,
            Kernel::same_procs_except(*old(self), *final(self), set![pid]),
            old(self).has_proc(pid) ==> final(self).has_proc(pid) && final(self).spec_proc(pid)
                == (Process { in_registry: false, ..old(self).spec_proc(pid) }),
            !old(self).has_proc(pid) ==> *final(self) == *old(self),
    {
        let found = self.find_proc(pid);
        match found {
            Some(i) => {
                let mut p = self.procs.remove(i);
                p.in_registry = false;
                self.procs.insert(i, p);
                proof {
                    let pre = *old(self);
                    let post = *self;
                    assert(post.procs@ =~= pre.procs@.update(
                        i as int,
                        Process { in_registry: false, ..pre.spec_proc(pid) },
                    ));
                    assert(post.wf());
                    post.lemma_proc_at(i as int);
                    assert forall|q: u64| #[trigger] pre.has_proc(q) && !set![pid].contains(q)
                        implies post.has_proc(q) && post.spec_proc(q) == pre.spec_proc(q) by {
                        let j = pre.spec_proc_index(q);
                        pre.lemma_proc_at(j);
                        assert(post.procs@[j].pid == q);
                        post.lemma_proc_at(j);
                    }
                    assert forall|q: u64| #[trigger] post.has_proc(q) implies pre.has_proc(q)
                        || set![pid].contains(q) by {
                        let j = post.spec_proc_index(q);
                        pre.lemma_proc_at(j);
                    }
                }
            },
            None => {
                proof {
                    assert(*self == *old(self));
                }
            },
        }
    }
}

} // verus!

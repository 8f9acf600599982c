//! The syscall-level operations on kernel state: identity, heap, memory
//! access and task exit. The raw-pointer marshalling around them lives with
//! the syscall stubs outside this crate; these functions take and return
//! plain values.

use vstd::prelude::*;
use crate::align::{
    lemma_align_down_4k, lemma_align_up_4k, lemma_aligned_range_pages, spec_align_down_4k,
    spec_align_up_4k,
};
use crate::aspace::{lemma_map_pages_contains, spec_map_pages, spec_unmap_pages, MappingFlags};
use crate::errors::KernelError;
use crate::kernel::Kernel;
use crate::lifecycle::spec_clone_flags_valid;
use crate::process::Process;
use crate::teardown::ExitProgress;
use crate::trapframe::TrapFrame;

verus! {

impl Kernel {
    /// The pid of the process owning thread `tid`, scanning the table in
    /// order.
    pub open spec fn spec_proc_of_tid_from(self, tid: u64, i: int) -> Option<u64>
        decreases self.procs@.len() - i,
    {
        if i < 0 || i >= self.procs@.len() {
            None
        } else if self.procs@[i].spec_has_tid(tid) {
            Some(self.procs@[i].pid)
        } else {
            self.spec_proc_of_tid_from(tid, i + 1)
        }
    }

    /// The pid of the process owning thread `tid`.
    pub open spec fn spec_proc_of_tid(self, tid: u64) -> Option<u64> {
        self.spec_proc_of_tid_from(tid, 0)
    }

    /// Finds the process owning thread `tid`.
    pub fn proc_of_tid(&self, tid: u64) -> (r: Option<u64>)
        requires
            self.wf(),
        ensures
            r == self.spec_proc_of_tid(tid),
            match r {
                Some(pid) => self.has_proc(pid) && self.spec_proc(pid).spec_has_tid(tid),
                None => true,
            },
    {
        let n = self.procs.len();
        let mut i: usize = 0;
        while i < n
            invariant
                i <= n,
                n == self.procs@.len(),
                self.wf(),
                self.spec_proc_of_tid(tid) == self.spec_proc_of_tid_from(tid, i as int),
            decreases n - i,
        {
            if self.procs[i].find_thread(tid).is_some() {
                proof {
                    self.lemma_proc_at(i as int);
                }
                return Some(self.procs[i].pid);
            }
            i += 1;
        }
        None
    }

    /// The pid of the current thread's process, or the root pid when the
    /// thread belongs to none.
    pub fn sys_getpid(&self, tid: u64) -> (r: u64)
        requires
            self.wf(),
        ensures
            r == match self.spec_proc_of_tid(tid) {
                Some(pid) => pid,
                None => 1u64,
            },
    {
        match self.proc_of_tid(tid) {
            Some(pid) => pid,
            None => 1,
        }
    }

    /// The parent pid of the current thread's process, or the root pid.
    pub fn sys_getppid(&self, tid: u64) -> (r: u64)
        requires
            self.wf(),
        ensures
            r == match self.spec_proc_of_tid(tid) {
                Some(pid) => self.spec_proc(pid).ppid,
                None => 1u64,
            },
    {
        match self.proc_of_tid(tid) {
            Some(pid) => {
                match self.find_proc(pid) {
                    Some(i) => self.procs[i].ppid,
                    None => {
                        proof {
                            assert(false);
                        }
                        1
                    },
                }
            },
            None => 1,
        }
    }

    /// Records the clear-on-exit tid address of the calling thread and
    /// returns the thread id. Always succeeds.
    pub fn sys_set_tid_address(&mut self, pid: u64, tid: u64, tid_ptd: usize) -> (r: u64)
        requires
            old(self).wf(),
            old(self).has_proc(pid),
            old(self).spec_proc(pid).spec_has_tid(tid),
        ensures
            final(self).wf(),
            r == tid,
            final(self).aspaces@ == old(self).aspaces@,
            final(self).next_task_id == old(self).next_task_id,
            final(self).trampoline == old(self).trampoline,
            ({
                let pre = *old(self);
                let post = *final(self);
                let pre_p = pre.spec_proc(pid);
                let ti = pre_p.spec_tid_index(tid);
                &&& post.has_proc(pid)
                &&& post.spec_proc(pid) == (Process {
                    threads: post.spec_proc(pid).threads,
                    ..pre_p
                })
                &&& post.spec_proc(pid).threads@ == pre_p.threads@.update(
                    ti,
                    crate::process::Thread { clear_child_tid: tid_ptd, ..pre_p.threads@[ti] },
                )
                &&& Kernel::same_procs_except(pre, post, set![pid])
            }),
    {
        let ghost pre = *old(self);
        let ci = match self.find_proc(pid) {
            Some(i) => i,
            None => {
                proof {
                    assert(false);
                }
                return tid;
            },
        };
        let mut p = self.procs.remove(ci);
        let ti = match p.find_thread(tid) {
            Some(t) => t,
            None => {
                proof {
                    assert(false);
                }
                self.procs.insert(ci, p);
                return tid;
            },
        };
        let mut t = p.threads.remove(ti);
        t.clear_child_tid = tid_ptd;
        p.threads.insert(ti, t);
        self.procs.insert(ci, p);
        proof {
            let post = *self;
            assert(post.procs@ =~= pre.procs@.update(ci as int, post.procs@[ci as int]));
            assert(post.procs@[ci as int].threads@ =~= pre.spec_proc(pid).threads@.update(
                ti as int,
                crate::process::Thread {
                    clear_child_tid: tid_ptd,
                    ..pre.spec_proc(pid).threads@[ti as int]
                },
            ));
            assert(post.wf());
            post.lemma_proc_at(ci as int);
            assert forall|q: u64| #[trigger] pre.has_proc(q) && !set![pid].contains(q) implies
                post.has_proc(q) && post.spec_proc(q) == pre.spec_proc(q) by {
                let j = pre.spec_proc_index(q);
                pre.lemma_proc_at(j);
                assert(post.procs@[j].pid == q);
                post.lemma_proc_at(j);
            }
            assert forall|q: u64| #[trigger] post.has_proc(q) implies pre.has_proc(q)
                || set![pid].contains(q) by {
                let j = post.spec_proc_index(q);
                pre.lemma_proc_at(j);
            }
        }
        tid
    }

    /// Maps the whole range from `start` to `end` into the process's
    /// address space, page-aligned outward, for later on-demand use.
    /// Fails exactly when the range is reversed or reaches the top of the
    /// address space.
    pub fn alloc_range_lazy(&mut self, pid: u64, start: usize, end: usize, flags: MappingFlags)
        -> (r: Result<(), KernelError>)
        requires
            old(self).wf(),
            old(self).has_proc(pid),
        ensures
            final(self).wf(),
            final(self).procs == old(self).procs,
            final(self).next_task_id == old(self).next_task_id,
            final(self).trampoline == old(self).trampoline,
            final(self).aspaces@.len() == old(self).aspaces@.len(),
            ({
                let asid = old(self).spec_proc(pid).aspace_id as int;
                match r {
                    Ok(()) => {
                        &&& start <= end
                        &&& end + 4095 <= usize::MAX
                        &&& final(self).aspaces@ == old(self).aspaces@.update(
                            asid,
                            final(self).aspaces@[asid],
                        )
                        &&& final(self).aspaces@[asid].bytes_map() == old(self).aspaces@[asid].bytes_map()
                        &&& final(self).aspaces@[asid].pages_map() == spec_map_pages(
                            old(self).aspaces@[asid].pages_map(),
                            (spec_align_down_4k(start) / 4096) as usize,
                            ((spec_align_up_4k(end) - spec_align_down_4k(start)) / 4096) as usize,
                            flags.bits,
                        )
                        &&& (forall|a: usize|
                            start <= a < end ==> #[trigger] final(self).aspaces@[asid].is_mapped(a))
                    },
                    Err(e) => {
                        &&& e == KernelError::InvalidArgument
                        &&& !(start <= end && end + 4095 <= usize::MAX)
                        &&& *final(self) == *old(self)
                    },
                }
            }),
    {
        if start > end {
            return Err(KernelError::InvalidArgument);
        }
        if end > usize::MAX - 4095 {
            return Err(KernelError::InvalidArgument);
        }
        let ci = match self.find_proc(pid) {
            Some(i) => i,
            None => {
                proof {
                    assert(false);
                }
                return Err(KernelError::NotFound);
            },
        };
        let asid = self.procs[ci].aspace_id;
        let s_al = memory_addr::align_down_4k(start);
        let e_al = memory_addr::align_up_4k(end);
        proof {
            lemma_align_down_4k(start);
            lemma_align_up_4k(end);
        }
        let size = e_al - s_al;
        let mut a = self.aspaces.remove(asid);
        let ghost a0 = a;
        let res = a.map_alloc(s_al, size, flags);
        proof {
            assert((e_al as int - s_al as int) % 4096 == 0) by (nonlinear_arith)
                requires
                    e_al as int % 4096 == 0,
                    s_al as int % 4096 == 0,
            ;
            assert(res is Ok);
        }
        self.aspaces.insert(asid, a);
        proof {
            let pre = *old(self);
            let post = *self;
            assert(post.aspaces@ =~= pre.aspaces@.update(asid as int, a));
            assert(post.wf());
            pre.lemma_proc_at(ci as int);
            assert forall|x: usize| start <= x < end implies #[trigger] post.aspaces@[asid as int]
                .is_mapped(x) by {
                lemma_aligned_range_pages(s_al as int, e_al as int, x as int);
                lemma_map_pages_contains(
                    a0.pages_map(),
                    s_al / 4096,
                    size / 4096,
                    flags.bits,
                    x / 4096,
                );
                assert((e_al as int - s_al as int) / 4096 == size as int / 4096);
            }
        }
        Ok(())
    }

    /// Whether a user page fault at `vaddr` with the given access can be
    /// resolved against the process's mappings; an unresolvable user fault
    /// ends the faulting thread with a failure status, exiting the whole
    /// process when it is the main thread.
    pub fn handle_page_fault(&mut self, pid: u64, tid: u64, vaddr: usize, access: MappingFlags)
        -> (r: Result<(), ExitProgress>)
        requires
            old(self).wf(),
            old(self).has_proc(pid),
            old(self).spec_proc(pid).spec_has_tid(tid),
            old(self).spec_proc(pid).in_registry || !old(self).spec_proc(pid).is_exited,
        ensures
            final(self).wf(),
            final(self).aspaces@ == old(self).aspaces@,
            final(self).next_task_id == old(self).next_task_id,
            final(self).trampoline == old(self).trampoline,
            ({
                let pre = *old(self);
                let asid = pre.spec_proc(pid).aspace_id as int;
                match r {
                    Ok(()) => pre.aspaces@[asid].spec_can_access(vaddr, access.bits)
                        && *final(self) == *old(self),
                    Err(prog) => !pre.aspaces@[asid].spec_can_access(vaddr, access.bits)
                        && Kernel::spec_exit_thread_post(
                        pre,
                        *final(self),
                        pid,
                        tid,
                        -1i32,
                        prog,
                    ),
                }
            }),
    {
        let ci = match self.find_proc(pid) {
            Some(i) => i,
            None => {
                proof {
                    assert(false);
                }
                return Ok(());
            },
        };
        let asid = self.procs[ci].aspace_id;
        if self.aspaces[asid].handle_page_fault(vaddr, access) {
            Ok(())
        } else {
            let prog = self.exit_thread(pid, tid, -1);
            Err(prog)
        }
    }

    /// The program-break call. A zero argument reads the break; an argument
    /// below the heap bottom fails; otherwise the call succeeds whenever the
    /// argument and the old break sit below the top page of the address
    /// space: the break moves to the argument exactly, growing maps the new
    /// range and shrinking unmaps the released whole pages. Failure is
    /// reported as a negative value, with nothing changed.
    #[verifier::rlimit(100)]
    #[verifier::spinoff_prover]
    pub fn sys_brk(&mut self, pid: u64, addr: usize) -> (r: isize)
        requires
            old(self).wf(),
            old(self).has_proc(pid),
        ensures
            final(self).wf(),
            final(self).next_task_id == old(self).next_task_id,
            final(self).trampoline == old(self).trampoline,
            ({
                let pre = *old(self);
                let post = *final(self);
                let pre_p = pre.spec_proc(pid);
                let asid = pre_p.aspace_id as int;
                let brk0 = pre_p.heap_current;
                &&& (addr == 0 ==> r == brk0 as isize && post == pre)
                &&& (addr != 0 && addr < pre_p.heap_bottom ==> r == -1isize && post == pre)
                &&& (addr != 0 && addr >= pre_p.heap_bottom && !(addr + 4095 <= usize::MAX && brk0
                    + 4095 <= usize::MAX) ==> r == -1isize && post == pre)
                &&& (addr != 0 && addr >= pre_p.heap_bottom && addr + 4095 <= usize::MAX && brk0
                    + 4095 <= usize::MAX ==> ({
                    &&& r == addr as isize
                    &&& post.has_proc(pid)
                    &&& post.spec_proc(pid) == (Process { heap_current: addr, ..pre_p })
                    &&& Kernel::same_procs_except(pre, post, set![pid])
                    &&& post.aspaces@.len() == pre.aspaces@.len()
                    &&& post.aspaces@ == pre.aspaces@.update(asid, post.aspaces@[asid])
                    &&& post.aspaces@[asid].bytes_map() == pre.aspaces@[asid].bytes_map()
                    &&& (addr >= brk0 ==> (forall|a: usize|
                        brk0 <= a < addr ==> #[trigger] post.aspaces@[asid].is_mapped(a)))
                    &&& (addr < brk0 ==> post.aspaces@[asid].pages_map() == spec_unmap_pages(
                        pre.aspaces@[asid].pages_map(),
                        (spec_align_up_4k(addr) / 4096) as usize,
                        ((spec_align_up_4k(brk0) - spec_align_up_4k(addr)) / 4096) as usize,
                    ))
                }))
            }),
    {
        let ghost pre = *old(self);
        let ci = match self.find_proc(pid) {
            Some(i) => i,
            None => {
                proof {
                    assert(false);
                }
                return -1;
            },
        };
        let brk = self.procs[ci].heap_current;
        let bottom = self.procs[ci].heap_bottom;
        if addr == 0 {
            return #[verifier::truncate] (brk as isize);
        }
        if addr < bottom {
            return -1;
        }
        if addr > usize::MAX - 4095 || brk > usize::MAX - 4095 {
            return -1;
        }
        let asid = self.procs[ci].aspace_id;
        if addr < brk {
            // Shrink: release the whole pages between the new and the old
            // break.
            let start_addr = memory_addr::align_up_4k(addr);
            let end_addr = memory_addr::align_up_4k(brk);
            proof {
                lemma_align_up_4k(addr);
                lemma_align_up_4k(brk);
                assert((end_addr as int - start_addr as int) % 4096 == 0) by (nonlinear_arith)
                    requires
                        end_addr as int % 4096 == 0,
                        start_addr as int % 4096 == 0,
                ;
            }
            if start_addr > end_addr {
                proof {
                    assert(false);
                }
                return -1;
            }
            let mut a = self.aspaces.remove(asid);
            let res = a.unmap(start_addr, end_addr - start_addr);
            self.aspaces.insert(asid, a);
            proof {
                assert(res is Ok);
                assert(self.aspaces@ =~= pre.aspaces@.update(
                    asid as int,
                    self.aspaces@[asid as int],
                ));
                assert(self.wf());
            }
        } else {
            // Grow: map the new range; the model's map call aligns the ends
            // outward itself.
            match self.alloc_range_lazy(pid, brk, addr, MappingFlags::all()) {
                Ok(()) => (),
                Err(_) => {
                    proof {
                        assert(false);
                    }
                    return -1;
                },
            }
        }
        let ghost mid = *self;
        let ci2 = match self.find_proc(pid) {
            Some(i) => i,
            None => {
                proof {
                    assert(false);
                }
                return -1;
            },
        };
        let mut p = self.procs.remove(ci2);
        p.heap_current = addr;
        self.procs.insert(ci2, p);
        proof {
            let post = *self;
            assert(post.procs@ =~= mid.procs@.update(ci2 as int, post.procs@[ci2 as int]));
            assert(post.wf());
            post.lemma_proc_at(ci2 as int);
            mid.lemma_proc_at(ci2 as int);
            pre.lemma_proc_at(ci as int);
            assert forall|q: u64| #[trigger] pre.has_proc(q) && !set![pid].contains(q) implies
                post.has_proc(q) && post.spec_proc(q) == pre.spec_proc(q) by {
                let j = pre.spec_proc_index(q);
                pre.lemma_proc_at(j);
                assert(post.procs@[j].pid == q);
                post.lemma_proc_at(j);
            }
            assert forall|q: u64| #[trigger] post.has_proc(q) implies pre.has_proc(q)
                || set![pid].contains(q) by {
                let j = post.spec_proc_index(q);
                pre.lemma_proc_at(j);
            }
            assert(post.aspaces == mid.aspaces);
            assert(post.aspaces@ == mid.aspaces@);
        }
        #[verifier::truncate] (addr as isize)
    }

    /// Writes `data` into the process's address space at `addr`; the model
    /// of a kernel write through user mappings. Succeeds exactly when every
    /// touched page is mapped.
    pub fn aspace_write(&mut self, pid: u64, addr: usize, data: &Vec<u8>) -> (r: Result<
        (),
        KernelError,
    >)
        requires
            old(self).wf(),
            old(self).has_proc(pid),
        ensures
            final(self).wf(),
            final(self).procs == old(self).procs,
            final(self).next_task_id == old(self).next_task_id,
            final(self).trampoline == old(self).trampoline,
            final(self).aspaces@.len() == old(self).aspaces@.len(),
            ({
                let asid = old(self).spec_proc(pid).aspace_id as int;
                let pre_a = old(self).aspaces@[asid];
                match r {
                    Ok(()) => {
                        &&& addr + data@.len() <= usize::MAX
                        &&& (forall|k: int|
                            0 <= k < data@.len() ==> #[trigger] pre_a.is_mapped((addr + k) as usize))
                        &&& final(self).aspaces@ == old(self).aspaces@.update(
                            asid,
                            final(self).aspaces@[asid],
                        )
                        &&& final(self).aspaces@[asid].pages_map() == pre_a.pages_map()
                        &&& final(self).aspaces@[asid].bytes_map()
                            == crate::aspace::spec_write_bytes(pre_a.bytes_map(), addr, data@)
                    },
                    Err(e) => {
                        &&& e == KernelError::InvalidArgument
                        &&& !(addr + data@.len() <= usize::MAX && (forall|k: int|
                            0 <= k < data@.len() ==> #[trigger] pre_a.is_mapped(
                                (addr + k) as usize,
                            )))
                        &&& final(self).aspaces@ == old(self).aspaces@.update(
                            asid,
                            final(self).aspaces@[asid],
                        )
                        &&& final(self).aspaces@[asid].pages_map() == pre_a.pages_map()
                        &&& final(self).aspaces@[asid].bytes_map() == pre_a.bytes_map()
                    },
                }
            }),
    {
        let ci = match self.find_proc(pid) {
            Some(i) => i,
            None => {
                proof {
                    assert(false);
                }
                return Err(KernelError::NotFound);
            },
        };
        let asid = self.procs[ci].aspace_id;
        let ghost pre = *old(self);
        let mut a = self.aspaces.remove(asid);
        let res = a.write_bytes(addr, data);
        self.aspaces.insert(asid, a);
        proof {
            assert(self.aspaces@ =~= pre.aspaces@.update(asid as int, self.aspaces@[asid as int]));
            assert(self.wf());
        }
        res
    }

    /// Reads `len` bytes from the process's address space, zero-filled
    /// where mapped pages were never written; fails on any unmapped page.
    #[verifier::spinoff_prover]
    pub fn aspace_read(&self, pid: u64, addr: usize, len: usize) -> (r: Option<Vec<u8>>)
        requires
            self.wf(),
            self.has_proc(pid),
        ensures
            ({
                let a = self.aspaces@[self.spec_proc(pid).aspace_id as int];
                match r {
                    Some(v) => {
                        &&& v@.len() == len
                        &&& (forall|k: int|
                            0 <= k < len ==> v@[k] == #[trigger] a.spec_byte((addr + k) as usize))
                        &&& (forall|k: int|
                            0 <= k < len ==> #[trigger] a.is_mapped((addr + k) as usize))
                    },
                    None => !(addr + len <= usize::MAX && (forall|k: int|
                        0 <= k < len ==> #[trigger] a.is_mapped((addr + k) as usize))),
                }
            }),
    {
        let ci = match self.find_proc(pid) {
            Some(i) => i,
            None => {
                proof {
                    assert(false);
                }
                return None;
            },
        };
        let asid = self.procs[ci].aspace_id;
        let res = self.aspaces[asid].read_bytes(addr, len);
        proof {
            assert(self.spec_proc(pid).aspace_id == asid);
        }
        res
    }

    /// Reads one byte of the process's memory.
    pub fn aspace_read_byte(&self, pid: u64, addr: usize) -> (r: Option<u8>)
        requires
            self.wf(),
            self.has_proc(pid),
        ensures
            ({
                let a = self.aspaces@[self.spec_proc(pid).aspace_id as int];
                match r {
                    Some(b) => a.is_mapped(addr) && b == a.spec_byte(addr),
                    None => !a.is_mapped(addr),
                }
            }),
    {
        let ci = match self.find_proc(pid) {
            Some(i) => i,
            None => {
                proof {
                    assert(false);
                }
                return None;
            },
        };
        let asid = self.procs[ci].aspace_id;
        self.aspaces[asid].read_byte(addr)
    }

    /// The only memory effect of a thread's exit call: when the exiting
    /// thread registered a nonzero clear-child-tid address whose word is
    /// mapped, that word is zeroed; otherwise memory is untouched. The
    /// mapping state never changes.
    pub open spec fn spec_exit_mem_effect(pre: Kernel, post: Kernel, pid: u64, cct: usize) -> bool {
        let asid = pre.spec_proc(pid).aspace_id as int;
        &&& post.aspaces@.len() == pre.aspaces@.len()
        &&& post.aspaces@ == pre.aspaces@.update(asid, post.aspaces@[asid])
        &&& post.aspaces@[asid].pages_map() == pre.aspaces@[asid].pages_map()
        &&& post.aspaces@[asid].bytes_map() == (if cct != 0
            && crate::dispatch::spec_mem_readable(pre.aspaces@[asid], cct, 4) {
            crate::aspace::spec_write_bytes(
                pre.aspaces@[asid].bytes_map(),
                cct,
                seq![0u8, 0u8, 0u8, 0u8],
            )
        } else {
            pre.aspaces@[asid].bytes_map()
        })
    }

    /// The exit call of one thread: clears the recorded child-tid word in
    /// user memory when one was registered and the page is mapped, then
    /// carries out the thread exit.
    #[verifier::rlimit(100)]
    #[verifier::spinoff_prover]
    pub fn sys_exit(&mut self, pid: u64, tid: u64, status: i32) -> (r: ExitProgress)
        requires
            old(self).wf(),
            old(self).has_proc(pid),
            old(self).spec_proc(pid).spec_has_tid(tid),
            old(self).spec_proc(pid).in_registry || !old(self).spec_proc(pid).is_exited,
        ensures
            final(self).wf(),
            final(self).next_task_id == old(self).next_task_id,
            final(self).trampoline == old(self).trampoline,
            ({
                let pre = *old(self);
                let mid = Kernel { aspaces: final(self).aspaces, ..pre };
                let pre_p = pre.spec_proc(pid);
                &&& Kernel::spec_exit_thread_post(mid, *final(self), pid, tid, status, r)
                &&& Kernel::spec_exit_mem_effect(
                    pre,
                    *final(self),
                    pid,
                    pre_p.threads@[pre_p.spec_tid_index(tid)].clear_child_tid,
                )
            }),
    {
        let ghost pre = *old(self);
        let ci = match self.find_proc(pid) {
            Some(i) => i,
            None => {
                proof {
                    assert(false);
                }
                return ExitProgress::Done;
            },
        };
        let ti = match self.procs[ci].find_thread(tid) {
            Some(t) => t,
            None => {
                proof {
                    assert(false);
                }
                return ExitProgress::Done;
            },
        };
        let ghost asid = pre.spec_proc(pid).aspace_id as int;
        let cct = self.procs[ci].threads[ti].clear_child_tid;
        if cct != 0 {
            let zeros: Vec<u8> = vec![0u8, 0u8, 0u8, 0u8];
            let res = self.aspace_write(pid, cct, &zeros);
            proof {
                assert(zeros@ =~= seq![0u8, 0u8, 0u8, 0u8]);
                if res is Err {
                    assert(!crate::dispatch::spec_mem_readable(pre.aspaces@[asid], cct, 4));
                } else {
                    assert(crate::dispatch::spec_mem_readable(pre.aspaces@[asid], cct, 4));
                }
            }
        } else {
            proof {
                assert(self.aspaces@ =~= pre.aspaces@.update(asid, self.aspaces@[asid]));
            }
        }
        let ghost mid2 = *self;
        proof {
            let mid = Kernel { aspaces: self.aspaces, ..pre };
            assert(*self == mid);
            assert(Kernel::spec_exit_mem_effect(pre, mid2, pid, cct));
        }
        let r = self.exit_thread(pid, tid, status);
        proof {
            assert(self.aspaces == mid2.aspaces);
            assert(self.aspaces@ == mid2.aspaces@);
        }
        r
    }

    /// The group-exit call; this core runs it as the exit of the calling
    /// thread.
    pub fn sys_exit_group(&mut self, pid: u64, tid: u64, status: i32) -> (r: ExitProgress)
        requires
            old(self).wf(),
            old(self).has_proc(pid),
            old(self).spec_proc(pid).spec_has_tid(tid),
            old(self).spec_proc(pid).in_registry || !old(self).spec_proc(pid).is_exited,
        ensures
            final(self).wf(),
            final(self).next_task_id == old(self).next_task_id,
            final(self).trampoline == old(self).trampoline,
            ({
                let pre = *old(self);
                let mid = Kernel { aspaces: final(self).aspaces, ..pre };
                let pre_p = pre.spec_proc(pid);
                &&& Kernel::spec_exit_thread_post(mid, *final(self), pid, tid, status, r)
                &&& Kernel::spec_exit_mem_effect(
                    pre,
                    *final(self),
                    pid,
                    pre_p.threads@[pre_p.spec_tid_index(tid)].clear_child_tid,
                )
            }),
    {
        self.sys_exit(pid, tid, status)
    }

    /// The clone call as the syscall layer sees it: a zero stack argument
    /// means no new stack, and any failure surfaces as memory exhaustion.
    pub fn sys_clone(
        &mut self,
        pid: u64,
        tid: u64,
        flags: usize,
        user_stack: usize,
        _ptid: usize,
        _tls: usize,
        ctid: usize,
    ) -> (r: Result<u64, KernelError>)
        requires
            old(self).wf(),
            old(self).next_task_id < u64::MAX,
            old(self).has_proc(pid),
            old(self).spec_proc(pid).spec_has_tid(tid),
        ensures
            final(self).wf(),
            ({
                let stack = if user_stack == 0 {
                    None
                } else {
                    Some(user_stack)
                };
                match r {
                    Ok(id) => {
                        &&& spec_clone_flags_valid(flags)
                        &&& (if crate::lifecycle::spec_clone_bits(flags)
                            & crate::flags::CLONE_THREAD == crate::flags::CLONE_THREAD {
                            Kernel::spec_clone_thread_post(
                                *old(self),
                                *final(self),
                                pid,
                                tid,
                                flags,
                                stack,
                                ctid,
                                id,
                            )
                        } else {
                            Kernel::spec_clone_proc_post(
                                *old(self),
                                *final(self),
                                pid,
                                tid,
                                flags,
                                stack,
                                ctid,
                                id,
                            )
                        })
                    },
                    Err(e) => {
                        &&& e == KernelError::OutOfMemory
                        &&& !spec_clone_flags_valid(flags)
                        &&& *final(self) == *old(self)
                    },
                }
            }),
    {
        let stack = if user_stack == 0 {
            None
        } else {
            Some(user_stack)
        };
        match self.clone_proc(pid, tid, flags, stack, _ptid, _tls, ctid) {
            Ok(id) => Ok(id),
            Err(_) => Err(KernelError::OutOfMemory),
        }
    }
}


/// The fresh user context exec installs: execution starts at the entry
/// point on the prepared stack, with the argument count in the first
/// argument register and every other tracked register clear.
pub open spec fn spec_exec_frame(entry: usize, ustack: usize, argc: usize) -> TrapFrame {
    TrapFrame { ra: 0, sp: ustack, a0: argc, a1: 0, a2: 0, sepc: entry }
}

impl Kernel {
    /// The exec decision and teardown: refuses a multi-threaded group and
    /// otherwise drops every mapping and all contents of the process's
    /// address space, making room for the image the loader collaborator
    /// then builds.
    pub fn exec_clear(&mut self, pid: u64) -> (r: Result<(), KernelError>)
        requires
            old(self).wf(),
            old(self).has_proc(pid),
        ensures
            final(self).wf(),
            final(self).procs == old(self).procs,
            final(self).next_task_id == old(self).next_task_id,
            final(self).trampoline == old(self).trampoline,
            ({
                let pre = *old(self);
                let post = *final(self);
                let pre_p = pre.spec_proc(pid);
                let asid = pre_p.aspace_id as int;
                match r {
                    Err(e) => {
                        &&& e == KernelError::NotSupported
                        &&& pre_p.threads@.len() > 1
                        &&& *final(self) == *old(self)
                    },
                    Ok(()) => {
                        &&& pre_p.threads@.len() == 1
                        &&& post.aspaces@.len() == pre.aspaces@.len()
                        &&& post.aspaces@ == pre.aspaces@.update(asid, post.aspaces@[asid])
                        &&& post.aspaces@[asid].pages_map() == Map::<usize, u32>::empty()
                        &&& post.aspaces@[asid].bytes_map() == Map::<usize, u8>::empty()
                    },
                }
            }),
    {
        let ghost pre = *old(self);
        let ci = match self.find_proc(pid) {
            Some(i) => i,
            None => {
                proof {
                    assert(false);
                }
                return Err(KernelError::NotFound);
            },
        };
        if self.procs[ci].threads.len() > 1 {
            return Err(KernelError::NotSupported);
        }
        let asid = self.procs[ci].aspace_id;
        let mut a = self.aspaces.remove(asid);
        a.clear();
        self.aspaces.insert(asid, a);
        proof {
            assert(self.aspaces@ =~= pre.aspaces@.update(asid as int, self.aspaces@[asid as int]));
            assert(self.wf());
        }
        Ok(())
    }

    /// Installs the fresh user context exec hands back from the loader:
    /// the thread resumes at the image's entry point on the prepared
    /// stack, with the argument count as its first argument.
    pub fn exec_reset(&mut self, pid: u64, tid: u64, entry: usize, ustack: usize, argc: usize)
        requires
            old(self).wf(),
            old(self).has_proc(pid),
            old(self).spec_proc(pid).spec_has_tid(tid),
        ensures
            final(self).wf(),
            final(self).aspaces == old(self).aspaces,
            final(self).next_task_id == old(self).next_task_id,
            final(self).trampoline == old(self).trampoline,
            ({
                let pre = *old(self);
                let post = *final(self);
                let pre_p = pre.spec_proc(pid);
                let ti = pre_p.spec_tid_index(tid);
                &&& post.has_proc(pid)
                &&& post.spec_proc(pid) == (Process {
                    threads: post.spec_proc(pid).threads,
                    ..pre_p
                })
                &&& post.spec_proc(pid).threads@ == pre_p.threads@.update(
                    ti,
                    crate::process::Thread {
                        frame: spec_exec_frame(entry, ustack, argc),
                        ..pre_p.threads@[ti]
                    },
                )
                &&& Kernel::same_procs_except(pre, post, set![pid])
            }),
    {
        let ghost pre = *old(self);
        let ci = match self.find_proc(pid) {
            Some(i) => i,
            None => {
                proof {
                    assert(false);
                }
                return ;
            },
        };
        let mut p = self.procs.remove(ci);
        let ti = match p.find_thread(tid) {
            Some(t) => t,
            None => {
                proof {
                    assert(false);
                }
                self.procs.insert(ci, p);
                return ;
            },
        };
        let mut t = p.threads.remove(ti);
        t.frame = TrapFrame { ra: 0, sp: ustack, a0: argc, a1: 0, a2: 0, sepc: entry };
        p.threads.insert(ti, t);
        self.procs.insert(ci, p);
        proof {
            let post = *self;
            assert(post.procs@ =~= pre.procs@.update(ci as int, post.procs@[ci as int]));
            assert(post.procs@[ci as int].threads@ =~= pre.spec_proc(pid).threads@.update(
                ti as int,
                crate::process::Thread {
                    frame: spec_exec_frame(entry, ustack, argc),
                    ..pre.spec_proc(pid).threads@[ti as int]
                },
            ));
            assert(post.wf());
            post.lemma_proc_at(ci as int);
            assert forall|q: u64| #[trigger] pre.has_proc(q) && !set![pid].contains(q) implies
                post.has_proc(q) && post.spec_proc(q) == pre.spec_proc(q) by {
                let j = pre.spec_proc_index(q);
                pre.lemma_proc_at(j);
                assert(post.procs@[j].pid == q);
                post.lemma_proc_at(j);
            }
            assert forall|q: u64| #[trigger] post.has_proc(q) implies pre.has_proc(q)
                || set![pid].contains(q) by {
                let j = post.spec_proc_index(q);
                pre.lemma_proc_at(j);
            }
        }
    }
}

} // verus!

//! The core's cross-cutting laws, stated over the same spec functions the
//! operations' contracts use and proved from them.

use vstd::prelude::*;
use crate::flags::{WaitStatus, CLONE_PARENT};
use crate::kernel::Kernel;
use crate::lifecycle::spec_clone_bits;
use crate::signal_no::{MAX_SIG_NUM, SIGKILL_NUM, SIGSTOP_NUM};
use crate::sigset::{
    lemma_find_from_characterization, sig_bit, spec_deliverable, spec_find_sig,
};
use crate::teardown::{spec_child_pos, ExitProgress};

verus! {

/// What `spec_child_pos` finds: the first position holding the target.
pub proof fn lemma_child_pos_char(children: Seq<u64>, target: u64, k: int)
    requires
        0 <= k <= children.len(),
    ensures
        match spec_child_pos(children, target, k) {
            Some(j) => {
                &&& k <= j < children.len()
                &&& children[j] == target
                &&& forall|i: int| k <= i < j ==> children[i] != target
            },
            None => forall|i: int| k <= i < children.len() ==> children[i] != target,
        },
    decreases children.len() - k,
{
    if k < children.len() && children[k] != target {
        lemma_child_pos_char(children, target, k + 1);
    }
}

impl Kernel {
    /// Reap happens at most once: after a wait for a positive pid has
    /// reaped the child (removing it from the child list and dropping its
    /// process object), a second wait for the same pid observes no such
    /// child.
    pub proof fn lemma_reap_at_most_once(pre: Kernel, post: Kernel, caller_pid: u64, pid: i32)
        requires
            pre.wf(),
            pre.has_proc(caller_pid),
            pid > 0,
            pre.spec_reap_index(pre.spec_proc(caller_pid), pid) is Some,
            post.has_proc(caller_pid),
            post.spec_proc(caller_pid).children@ == pre.spec_proc(caller_pid).children@.remove(
                pre.spec_reap_index(pre.spec_proc(caller_pid), pid)->0,
            ),
        ensures
            post.spec_reap_index(post.spec_proc(caller_pid), pid) is None,
            post.spec_wait_err(post.spec_proc(caller_pid), pid) == WaitStatus::NotExist,
    {
        let caller = pre.spec_proc(caller_pid);
        let target = pid as u64;
        let j = pre.spec_reap_index(caller, pid)->0;
        lemma_child_pos_char(caller.children@, target, 0);
        assert(caller.children@[j] == target);
        let ci = pre.spec_proc_index(caller_pid);
        assert(pre.procs@[ci] == caller);
        assert(caller.wf());
        let newc = post.spec_proc(caller_pid).children@;
        assert forall|i: int| 0 <= i < newc.len() implies newc[i] != target by {
            if i < j {
                assert(newc[i] == caller.children@[i]);
                if caller.children@[i] == target {
                    assert(caller.children@[i] == caller.children@[j]);
                }
            } else {
                assert(newc[i] == caller.children@[i + 1]);
                if caller.children@[i + 1] == target {
                    assert(caller.children@[j] == caller.children@[i + 1]);
                }
            }
        }
        lemma_child_pos_char(newc, target, 0);
        if spec_child_pos(newc, target, 0) is Some {
            let w = spec_child_pos(newc, target, 0)->0;
            assert(newc[w] == target);
        }
    }

    /// A process created by clone without thread sharing gets a pid that no
    /// existing process carries, and its parent is the caller — or the
    /// caller's parent when sibling linkage was requested.
    pub proof fn lemma_clone_fresh_pid(
        pre: Kernel,
        post: Kernel,
        caller_pid: u64,
        caller_tid: u64,
        flags: usize,
        stack: Option<usize>,
        ctid: usize,
        pid: u64,
    )
        requires
            pre.wf(),
            pre.has_proc(caller_pid),
            Kernel::spec_clone_proc_post(pre, post, caller_pid, caller_tid, flags, stack, ctid, pid),
        ensures
            !pre.has_proc(pid),
            forall|q: u64| #[trigger] pre.has_proc(q) ==> q != pid,
            post.spec_proc(pid).ppid == (if spec_clone_bits(flags) & CLONE_PARENT == CLONE_PARENT {
                pre.spec_proc(caller_pid).ppid
            } else {
                caller_pid
            }),
    {
        assert forall|q: u64| #[trigger] pre.has_proc(q) implies q != pid by {
            if q == pid {
                assert(pre.has_proc(pid));
            }
        }
    }

    /// A thread created by thread-sharing clone gets a fresh id that is not
    /// a pid, leaves the process id unchanged, and appears in the thread
    /// table exactly once.
    pub proof fn lemma_clone_thread_once(
        pre: Kernel,
        post: Kernel,
        caller_pid: u64,
        caller_tid: u64,
        flags: usize,
        stack: Option<usize>,
        ctid: usize,
        tid: u64,
    )
        requires
            pre.wf(),
            pre.has_proc(caller_pid),
            Kernel::spec_clone_thread_post(pre, post, caller_pid, caller_tid, flags, stack, ctid, tid),
        ensures
            !pre.has_proc(tid),
            !post.has_proc(tid),
            post.spec_proc(caller_pid).pid == pre.spec_proc(caller_pid).pid,
            post.spec_proc(caller_pid).threads@.last().tid == tid,
            forall|i: int|
                0 <= i < post.spec_proc(caller_pid).threads@.len() - 1 ==> (#[trigger] post
                    .spec_proc(caller_pid).threads@[i]).tid != tid,
    {
        let pre_p = pre.spec_proc(caller_pid);
        let post_p = post.spec_proc(caller_pid);
        assert forall|i: int| 0 <= i < post_p.threads@.len() - 1 implies (#[trigger] post_p
            .threads@[i]).tid != tid by {
            assert(post_p.threads@.subrange(0, pre_p.threads@.len() as int)[i]
                == pre_p.threads@[i]);
            if pre_p.threads@[i].tid == tid {
                assert(pre_p.spec_has_tid(tid));
            }
        }
    }

    /// The thread-group exit barrier: while sibling threads remain
    /// registered, an exit step reports `Waiting`, the process keeps its
    /// registry entry, and no exit code is stored; only the exited mark is
    /// visible.
    pub proof fn lemma_exit_barrier(pre: Kernel, post: Kernel, pid: u64, code: i32, r: ExitProgress)
        requires
            pre.wf(),
            pre.has_proc(pid),
            Kernel::spec_exit_post(pre, post, pid, code, r),
            pre.spec_proc(pid).threads@.len() > 1,
        ensures
            r == ExitProgress::Waiting,
            post.spec_proc(pid).in_registry == pre.spec_proc(pid).in_registry,
            post.spec_proc(pid).exit_code == pre.spec_proc(pid).exit_code,
            post.spec_proc(pid).is_exited,
    {
    }

    /// A child's exit code round-trips to its parent: once the exit
    /// finalizes with code `code`, the status word a reaping wait reports
    /// for it is exactly the low byte of `code` shifted left eight bits.
    pub proof fn lemma_exit_status_round_trip(pre: Kernel, post: Kernel, child: u64, code: i32)
        requires
            pre.wf(),
            pre.has_proc(child),
            Kernel::spec_exit_post(pre, post, child, code, ExitProgress::Done),
        ensures
            post.has_proc(child),
            Kernel::spec_wait_status_word(post.spec_proc(child).exit_code) == ((((code as u32)
                & 0xff) << 8) as i32),
    {
    }
}

/// A blocked signal is never selected for delivery, unless it is one of
/// the two unmaskable signals.
pub proof fn lemma_masked_signal_not_selected(pending: u64, mask: u64, n: usize)
    requires
        1 <= n <= MAX_SIG_NUM,
        mask & sig_bit(n) != 0,
        n != SIGKILL_NUM,
        n != SIGSTOP_NUM,
    ensures
        spec_find_sig(pending, mask) != Some(n),
{
    lemma_find_from_characterization(pending, mask, 1);
    if spec_find_sig(pending, mask) == Some(n) {
        assert(spec_deliverable(pending, mask, n));
    }
}

/// A pending `SIGKILL` or `SIGSTOP` guarantees a selection, whatever the
/// mask says.
pub proof fn lemma_unmaskable_selected(pending: u64, mask: u64, n: usize)
    requires
        n == SIGKILL_NUM || n == SIGSTOP_NUM,
        pending & sig_bit(n) != 0,
    ensures
        spec_find_sig(pending, mask) is Some,
{
    lemma_find_from_characterization(pending, mask, 1);
    assert(spec_deliverable(pending, mask, n));
}

/// Once a blocked signal is the lowest deliverable one after an unblock,
/// it is the one selected.
pub proof fn lemma_lowest_deliverable_selected(pending: u64, mask: u64, n: usize)
    requires
        1 <= n <= MAX_SIG_NUM,
        spec_deliverable(pending, mask, n),
        forall|m: usize| 1 <= m < n ==> !spec_deliverable(pending, mask, m),
    ensures
        spec_find_sig(pending, mask) == Some(n),
{
    lemma_find_from_characterization(pending, mask, 1);
    match spec_find_sig(pending, mask) {
        Some(k) => {
            if k < n {
                assert(!spec_deliverable(pending, mask, k));
            } else if k > n {
                assert(!spec_deliverable(pending, mask, n));
            }
        },
        None => {
            assert(!spec_deliverable(pending, mask, n));
        },
    }
}

/// Writes through one process's view of a shared address space are
/// visible through the other process's view, byte for byte.
pub proof fn lemma_shared_aspace_visibility(
    pre: Kernel,
    post: Kernel,
    writer: u64,
    reader: u64,
    addr: usize,
    data: Seq<u8>,
    k: int,
)
    requires
        pre.wf(),
        pre.has_proc(writer),
        pre.has_proc(reader),
        pre.spec_proc(writer).aspace_id == pre.spec_proc(reader).aspace_id,
        post.has_proc(reader),
        post.spec_proc(reader).aspace_id == pre.spec_proc(reader).aspace_id,
        addr + data.len() <= usize::MAX,
        post.aspaces@.len() == pre.aspaces@.len(),
        pre.spec_proc(writer).aspace_id < pre.aspaces@.len(),
        post.aspaces@[pre.spec_proc(writer).aspace_id as int].bytes_map()
            == crate::aspace::spec_write_bytes(
            pre.aspaces@[pre.spec_proc(writer).aspace_id as int].bytes_map(),
            addr,
            data,
        ),
        0 <= k < data.len(),
    ensures
        post.aspaces@[post.spec_proc(reader).aspace_id as int].spec_byte((addr + k) as usize)
            == data[k],
{
    crate::aspace::lemma_write_bytes_byte(
        pre.aspaces@[pre.spec_proc(writer).aspace_id as int].bytes_map(),
        addr,
        data,
        (addr + k) as usize,
    );
}

} // verus!

use procsig::aspace::{AddrSpace, MappingFlags};
use procsig::flags::{CLONE_CHILD_CLEARTID, CLONE_PARENT, CLONE_THREAD, CLONE_VM};
use procsig::kernel::Kernel;
use procsig::trapframe::TrapFrame;

fn boot() -> (Kernel, u64) {
    let mut k = Kernel::new(0x7f00_0000);
    let mut f = TrapFrame::default();
    f.sp = 0x20_0000;
    f.sepc = 0x1000;
    let pid = k.spawn_user_task(AddrSpace::new(), f);
    (k, pid)
}

#[test]
fn boot_process_is_registered_under_pid_one() {
    let (k, pid) = boot();
    assert_eq!(pid, 1);
    let p = k.get_process(pid).unwrap();
    assert_eq!(p.ppid, 1);
    assert_eq!(p.pid, 1);
    assert!(!p.is_exited);
}

#[test]
fn clone_process_gets_fresh_pid_and_parent() {
    let (mut k, pid) = boot();
    let c = k.sys_clone(pid, pid, 0, 0, 0, 0, 0).unwrap();
    assert_ne!(c, pid);
    let child = k.get_process(c).unwrap();
    assert_eq!(child.ppid, pid);
    let parent = k.get_process(pid).unwrap();
    assert_eq!(parent.children, vec![c]);
    // A second clone gets yet another pid.
    let c2 = k.sys_clone(pid, pid, 0, 0, 0, 0, 0).unwrap();
    assert_ne!(c2, c);
    assert_ne!(c2, pid);
}

#[test]
fn clone_parent_links_to_grandparent() {
    let (mut k, pid) = boot();
    let c = k.sys_clone(pid, pid, 0, 0, 0, 0, 0).unwrap();
    // The child clones with CLONE_PARENT: the new process becomes a
    // sibling of the child, child of `pid`.
    let g = k.sys_clone(c, c, CLONE_PARENT as usize, 0, 0, 0, 0).unwrap();
    let gp = k.get_process(g).unwrap();
    assert_eq!(gp.ppid, pid);
    let parent = k.get_process(pid).unwrap();
    assert_eq!(parent.children, vec![c, g]);
    let cp = k.get_process(c).unwrap();
    assert!(cp.children.is_empty());
}

#[test]
fn clone_child_frame_adjusted() {
    let (mut k, pid) = boot();
    let c = k.sys_clone(pid, pid, 0, 0x30_0000, 0, 0, 0).unwrap();
    let child = k.get_process(c).unwrap();
    let f = child.threads[0].frame;
    assert_eq!(f.a0, 0);
    assert_eq!(f.sepc, 0x1004);
    assert_eq!(f.sp, 0x30_0000);
}

#[test]
fn clone_records_clear_child_tid() {
    let (mut k, pid) = boot();
    let c = k
        .sys_clone(pid, pid, CLONE_CHILD_CLEARTID as usize, 0, 0, 0, 0xbeef)
        .unwrap();
    let child = k.get_process(c).unwrap();
    assert_eq!(child.threads[0].clear_child_tid, 0xbeef);
}

#[test]
fn clone_rejects_unknown_flags() {
    let (mut k, pid) = boot();
    // Bit 0x40 is above the exit-signal byte mask and is no known flag;
    // the clone path reports failures as memory exhaustion.
    let r = k.sys_clone(pid, pid, 0x40, 0, 0, 0, 0);
    assert_eq!(r, Err(procsig::errors::KernelError::OutOfMemory));
}

#[test]
fn clone_thread_adds_thread_not_process() {
    let (mut k, pid) = boot();
    let n_before = k.procs.len();
    let tid = k.sys_clone(pid, pid, CLONE_THREAD as usize, 0, 0, 0, 0).unwrap();
    assert_ne!(tid, pid);
    assert_eq!(k.procs.len(), n_before);
    assert!(k.get_process(tid).is_none());
    let p = k.get_process(pid).unwrap();
    assert_eq!(p.pid, pid);
    assert_eq!(p.threads.len(), 2);
    let occurrences = p.threads.iter().filter(|t| t.tid == tid).count();
    assert_eq!(occurrences, 1);
}

#[test]
fn clone_vm_shares_memory_between_views() {
    let (mut k, pid) = boot();
    k.alloc_range_lazy(pid, 0x1_0000, 0x1_1000, MappingFlags::all()).unwrap();
    let c = k.sys_clone(pid, pid, CLONE_VM as usize, 0, 0, 0, 0).unwrap();
    // A byte written through the child's view is seen through the parent's.
    k.aspace_write(c, 0x1_0040, &vec![0xab]).unwrap();
    assert_eq!(k.aspace_read_byte(pid, 0x1_0040), Some(0xab));
    // And the other way round.
    k.aspace_write(pid, 0x1_0041, &vec![0x5c]).unwrap();
    assert_eq!(k.aspace_read_byte(c, 0x1_0041), Some(0x5c));
}

#[test]
fn clone_without_vm_copies_memory() {
    let (mut k, pid) = boot();
    k.alloc_range_lazy(pid, 0x1_0000, 0x1_1000, MappingFlags::all()).unwrap();
    k.aspace_write(pid, 0x1_0000, &vec![0x11]).unwrap();
    let c = k.sys_clone(pid, pid, 0, 0, 0, 0, 0).unwrap();
    // The pre-clone byte was copied.
    assert_eq!(k.aspace_read_byte(c, 0x1_0000), Some(0x11));
    // A post-clone write in the parent is not seen by the child.
    k.aspace_write(pid, 0x1_0001, &vec![0x22]).unwrap();
    assert_eq!(k.aspace_read_byte(c, 0x1_0001), Some(0));
}

#[test]
fn getpid_and_getppid_follow_threads() {
    let (mut k, pid) = boot();
    let c = k.sys_clone(pid, pid, 0, 0, 0, 0, 0).unwrap();
    let tid = k.sys_clone(c, c, CLONE_THREAD as usize, 0, 0, 0, 0).unwrap();
    assert_eq!(k.sys_getpid(pid), pid);
    assert_eq!(k.sys_getpid(c), c);
    assert_eq!(k.sys_getpid(tid), c);
    assert_eq!(k.sys_getppid(tid), pid);
    assert_eq!(k.sys_getpid(0xdead), 1);
    assert_eq!(k.sys_getppid(0xdead), 1);
}

#[test]
fn set_tid_address_returns_tid() {
    let (mut k, pid) = boot();
    let r = k.sys_set_tid_address(pid, pid, 0x4000);
    assert_eq!(r, pid);
    let p = k.get_process(pid).unwrap();
    assert_eq!(p.threads[0].clear_child_tid, 0x4000);
}

#[test]
fn brk_moves_the_break() {
    let (mut k, pid) = boot();
    let bottom = k.get_process(pid).unwrap().heap_bottom;
    // Zero queries the current break.
    assert_eq!(k.sys_brk(pid, 0), bottom as isize);
    // Below the bottom fails.
    assert_eq!(k.sys_brk(pid, bottom - 1), -1);
    // Growing succeeds and the new break is visible.
    let target = bottom + 0x2000;
    assert_eq!(k.sys_brk(pid, target), target as isize);
    assert_eq!(k.sys_brk(pid, 0), target as isize);
    // The grown range is mapped.
    k.aspace_write(pid, bottom + 0x100, &vec![9]).unwrap();
    // Shrinking back also succeeds.
    assert_eq!(k.sys_brk(pid, bottom + 0x1000), (bottom + 0x1000) as isize);
}

#[test]
fn page_fault_resolution_checks_mapping() {
    let (mut k, pid) = boot();
    k.alloc_range_lazy(pid, 0x1_0000, 0x1_1000, MappingFlags::all()).unwrap();
    assert!(k.handle_page_fault(pid, pid, 0x1_0800, MappingFlags::all()).is_ok());
    // Writes and reads outside any mapping are refused.
    assert_eq!(
        k.aspace_write(pid, 0x9_0000, &vec![1]),
        Err(procsig::errors::KernelError::InvalidArgument)
    );
    assert_eq!(k.aspace_read(pid, 0x9_0000, 4), None);
    // A fault outside any mapping terminates the (single-threaded) process.
    let r = k.handle_page_fault(pid, pid, 0x9_0000, MappingFlags::all());
    assert!(r.is_err());
    assert!(k.get_process(pid).is_none());
}

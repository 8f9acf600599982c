use procsig::aspace::AddrSpace;
use procsig::flags::{WaitStatus, CLONE_THREAD};
use procsig::kernel::Kernel;
use procsig::teardown::ExitProgress;
use procsig::trapframe::TrapFrame;

fn boot() -> (Kernel, u64) {
    let mut k = Kernel::new(0x7f00_0000);
    let pid = k.spawn_user_task(AddrSpace::new(), TrapFrame::default());
    (k, pid)
}

#[test]
fn wait_no_children_reports_not_exist() {
    let (mut k, pid) = boot();
    assert_eq!(k.wait_pid(pid, -1, 0), Err(WaitStatus::NotExist));
    assert_eq!(k.wait_pid(pid, 7, 0), Err(WaitStatus::NotExist));
}

#[test]
fn wait_running_child_reports_running() {
    let (mut k, pid) = boot();
    let c = k.sys_clone(pid, pid, 0, 0, 0, 0, 0).unwrap();
    assert_eq!(k.wait_pid(pid, c as i32, 0), Err(WaitStatus::Running));
    assert_eq!(k.wait_pid(pid, -1, 0), Err(WaitStatus::Running));
}

#[test]
fn exit_status_round_trip() {
    let (mut k, pid) = boot();
    let c = k.sys_clone(pid, pid, 0, 0, 0, 0, 0).unwrap();
    // The child exits with status 7; the registry entry goes at once.
    assert_eq!(k.sys_exit(c, c, 7), ExitProgress::Done);
    assert!(k.get_process(c).is_none());
    // The parent's wait reports exactly 7 << 8.
    let (rp, status) = k.wait_pid(pid, c as i32, 0).unwrap();
    assert_eq!(rp, c);
    assert_eq!(status, 7 << 8);
}

#[test]
fn reap_is_at_most_once() {
    let (mut k, pid) = boot();
    let c = k.sys_clone(pid, pid, 0, 0, 0, 0, 0).unwrap();
    k.sys_exit(c, c, 3);
    assert!(k.wait_pid(pid, c as i32, 0).is_ok());
    // The child left the list at the first success; a second wait finds
    // nothing.
    assert_eq!(k.wait_pid(pid, c as i32, 0), Err(WaitStatus::NotExist));
    assert!(k.get_process(pid).unwrap().children.is_empty());
}

#[test]
fn wait_any_takes_first_exited() {
    let (mut k, pid) = boot();
    let c1 = k.sys_clone(pid, pid, 0, 0, 0, 0, 0).unwrap();
    let c2 = k.sys_clone(pid, pid, 0, 0, 0, 0, 0).unwrap();
    k.sys_exit(c2, c2, 5);
    let (rp, status) = k.wait_pid(pid, -1, 0).unwrap();
    assert_eq!(rp, c2);
    assert_eq!(status, 5 << 8);
    // The remaining child still runs.
    assert_eq!(k.wait_pid(pid, -1, 0), Err(WaitStatus::Running));
    assert_eq!(k.get_process(pid).unwrap().children, vec![c1]);
}

#[test]
fn wait_status_masks_exit_code_low_byte() {
    let (mut k, pid) = boot();
    let c = k.sys_clone(pid, pid, 0, 0, 0, 0, 0).unwrap();
    k.sys_exit(c, c, 0x1ff);
    let (_, status) = k.wait_pid(pid, c as i32, 0).unwrap();
    assert_eq!(status, 0xff00);
}

#[test]
fn thread_group_exit_barrier() {
    let (mut k, pid) = boot();
    let c = k.sys_clone(pid, pid, 0, 0, 0, 0, 0).unwrap();
    let t2 = k.sys_clone(c, c, CLONE_THREAD as usize, 0, 0, 0, 0).unwrap();
    let t3 = k.sys_clone(c, c, CLONE_THREAD as usize, 0, 0, 0, 0).unwrap();
    assert_eq!(k.get_process(c).unwrap().threads.len(), 3);

    // The main thread exits while two workers remain: the barrier holds,
    // the process stays registered and is marked exited, no code stored.
    assert_eq!(k.sys_exit(c, c, 0), ExitProgress::Waiting);
    let p = k.get_process(c).expect("must stay in the registry");
    assert!(p.is_exited);
    // The workers leave one by one; the process must not finalize before
    // the last of them is gone.
    assert_eq!(k.sys_exit(c, t2, 0), ExitProgress::Done);
    assert_eq!(k.get_process(c).unwrap().threads.len(), 2);
    // The barrier still holds with one worker left.
    assert_eq!(k.exit(c, 0), ExitProgress::Waiting);
    assert_eq!(k.sys_exit(c, t3, 0), ExitProgress::Done);
    // Now the barrier clears and the process finalizes.
    assert_eq!(k.exit(c, 0), ExitProgress::Done);
    assert!(k.get_process(c).is_none());
    // The parent reaps it.
    let (rp, status) = k.wait_pid(pid, c as i32, 0).unwrap();
    assert_eq!(rp, c);
    assert_eq!(status, 0);
}

#[test]
fn exit_reparents_children_to_root() {
    let (mut k, pid) = boot();
    let c = k.sys_clone(pid, pid, 0, 0, 0, 0, 0).unwrap();
    let g = k.sys_clone(c, c, 0, 0, 0, 0, 0).unwrap();
    assert_eq!(k.get_process(g).unwrap().ppid, c);
    k.sys_exit(c, c, 0);
    assert_eq!(k.get_process(g).unwrap().ppid, 1);
}

#[test]
fn worker_thread_exit_keeps_process_running() {
    let (mut k, pid) = boot();
    let c = k.sys_clone(pid, pid, 0, 0, 0, 0, 0).unwrap();
    let t = k.sys_clone(c, c, CLONE_THREAD as usize, 0, 0, 0, 0).unwrap();
    assert_eq!(k.sys_exit(c, t, 0), ExitProgress::Done);
    let p = k.get_process(c).unwrap();
    assert!(!p.is_exited);
    assert_eq!(p.threads.len(), 1);
    assert_eq!(p.threads[0].tid, c);
    assert_eq!(k.wait_pid(pid, c as i32, 0), Err(WaitStatus::Running));
}

#[test]
fn remove_process_is_idempotent() {
    let (mut k, pid) = boot();
    assert!(k.get_process(pid).is_some());
    k.remove_process(pid);
    assert!(k.get_process(pid).is_none());
    k.remove_process(pid);
    assert!(k.get_process(pid).is_none());
    k.remove_process(0xdead);
}

#[test]
fn exit_zeroes_the_clear_child_tid_word() {
    let (mut k, pid) = boot();
    let c = k.sys_clone(pid, pid, 0, 0, 0, 0, 0).unwrap();
    k.alloc_range_lazy(c, 0x1_0000, 0x1_1000, procsig::aspace::MappingFlags::all()).unwrap();
    k.aspace_write(c, 0x1_0080, &vec![0xff, 0xff, 0xff, 0xff]).unwrap();
    k.sys_set_tid_address(c, c, 0x1_0080);
    assert_eq!(k.sys_exit(c, c, 0), ExitProgress::Done);
    // The word at the registered address was zeroed on the way out.
    assert_eq!(k.aspace_read(c, 0x1_0080, 4).unwrap(), vec![0, 0, 0, 0]);
}

#[test]
fn exit_with_unmapped_tid_word_still_exits() {
    let (mut k, pid) = boot();
    let c = k.sys_clone(pid, pid, 0, 0, 0, 0, 0).unwrap();
    k.sys_set_tid_address(c, c, 0x9_0000);
    assert_eq!(k.sys_exit(c, c, 3), ExitProgress::Done);
    let (_, status) = k.wait_pid(pid, c as i32, 0).unwrap();
    assert_eq!(status, 3 << 8);
}

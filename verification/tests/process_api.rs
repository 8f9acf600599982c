use procsig::action::{SigAction, SigActionFlags, SigActionKind, SA_RESTART};
use procsig::aspace::AddrSpace;
use procsig::kernel::Kernel;
use procsig::process::{Process, SignalModule, TaskState, BRK_BOTTOM, BRK_TOP};
use procsig::signal_no::SignalNo;
use procsig::sigset::SignalHandler;
use procsig::trapframe::TrapFrame;

#[test]
fn fresh_process_shape() {
    let p = Process::new(1, 5, 0, TrapFrame::default());
    assert_eq!(p.pid, 5);
    assert_eq!(p.ppid, 1);
    assert!(p.in_registry);
    assert_eq!(p.state(), TaskState::Running);
    assert_eq!(p.exit_code(), 0);
    assert_eq!(p.heap_bottom, BRK_BOTTOM);
    assert_eq!(p.heap_top, BRK_TOP);
    assert_eq!(p.heap_current, BRK_BOTTOM);
    assert_eq!(p.main_thread(), 5);
    assert!(p.is_main_thread(5));
    assert!(!p.is_main_thread(6));
    assert_eq!(p.threads.len(), 1);
    assert_eq!(p.threads[0].tid, 5);
}

#[test]
fn add_thread_appends_fresh_module() {
    let mut p = Process::new(1, 5, 0, TrapFrame::default());
    let mut f = TrapFrame::default();
    f.sp = 0x9000;
    p.add_thread(6, f);
    assert_eq!(p.threads.len(), 2);
    assert_eq!(p.threads[1].tid, 6);
    assert_eq!(p.threads[1].frame.sp, 0x9000);
    let m = p.threads[1].sig.as_ref().unwrap();
    assert_eq!(m.sig_set.pending, 0);
    assert_eq!(m.sig_set.mask, 0);
    assert!(m.last_trap_frame.is_none());
}

#[test]
fn signal_module_exit_signal() {
    let mut m = SignalModule::new();
    assert_eq!(m.get_exit_signal(), None);
    m.set_exit_signal(SignalNo::SIGCHLD);
    assert_eq!(m.get_exit_signal(), Some(SignalNo::SIGCHLD));
}

#[test]
fn have_restart_signal_consults_action_table() {
    let mut m = SignalModule::new();
    let mut h = SignalHandler::new();
    assert_eq!(m.have_restart_signal(&h), None);
    m.sig_set.try_add_sig(15, None);
    assert_eq!(m.have_restart_signal(&h), Some(false));
    let act = SigAction {
        sa_handler: SigActionKind::Handler(0x5000),
        sa_flags: SigActionFlags { bits: SA_RESTART },
        sa_restorer: 0,
        sa_mask: 0,
    };
    h.set_action(15, &act);
    assert_eq!(m.have_restart_signal(&h), Some(true));
}

#[test]
fn new_process_registers_under_fresh_pid() {
    let mut k = Kernel::new(0x7f00_0000);
    let first = k.spawn_user_task(AddrSpace::new(), TrapFrame::default());
    let pid = k.new_process(first, 0, TrapFrame::default());
    assert_ne!(pid, first);
    let p = k.get_process(pid).unwrap();
    assert_eq!(p.ppid, first);
    assert_eq!(p.aspace_id, 0);
}

#[test]
fn exec_refuses_a_multithreaded_group() {
    let mut k = Kernel::new(0x7f00_0000);
    let pid = k.spawn_user_task(AddrSpace::new(), TrapFrame::default());
    k.sys_clone(pid, pid, procsig::flags::CLONE_THREAD as usize, 0, 0, 0, 0).unwrap();
    assert_eq!(
        k.exec_clear(pid),
        Err(procsig::errors::KernelError::NotSupported)
    );
}

#[test]
fn exec_clears_memory_and_resets_the_frame() {
    let mut k = Kernel::new(0x7f00_0000);
    let pid = k.spawn_user_task(AddrSpace::new(), TrapFrame::default());
    k.alloc_range_lazy(pid, 0x1_0000, 0x1_1000, procsig::aspace::MappingFlags::all()).unwrap();
    k.aspace_write(pid, 0x1_0000, &vec![0x77]).unwrap();
    assert_eq!(k.exec_clear(pid), Ok(()));
    // The old image is gone: nothing is mapped any more.
    assert_eq!(k.aspace_read_byte(pid, 0x1_0000), None);
    k.exec_reset(pid, pid, 0x7000, 0x8_0000, 2);
    let f = k.get_process(pid).unwrap().threads[0].frame;
    assert_eq!(f.sepc, 0x7000);
    assert_eq!(f.sp, 0x8_0000);
    assert_eq!(f.a0, 2);
    assert_eq!(f.ra, 0);
}

use procsig::action::{SigAction, SigActionFlags, SigActionKind, SA_ONSTACK, SA_SIGINFO};
use procsig::aspace::AddrSpace;
use procsig::ctypes::SigMaskFlag;
use procsig::delivery::Dispatch;
use procsig::errors::KernelError;
use procsig::flags::CLONE_THREAD;
use procsig::info::SigInfo;
use procsig::kernel::Kernel;
use procsig::teardown::ExitProgress;
use procsig::trapframe::TrapFrame;
use procsig::ucontext::SignalStack;

fn boot() -> (Kernel, u64) {
    let mut k = Kernel::new(0x7f00_0000);
    let mut f = TrapFrame::default();
    f.sp = 0x20_0000;
    f.sepc = 0x1000;
    f.a0 = 77;
    let pid = k.spawn_user_task(AddrSpace::new(), f);
    (k, pid)
}

fn handler_action(addr: usize, flag_bits: u32) -> SigAction {
    SigAction {
        sa_handler: SigActionKind::Handler(addr),
        sa_flags: SigActionFlags { bits: flag_bits },
        sa_restorer: 0,
        sa_mask: 0,
    }
}

#[test]
fn no_signal_pending_is_a_no_op() {
    let (mut k, pid) = boot();
    assert_eq!(k.handle_signals(pid, pid), Dispatch::NoSignal);
}

#[test]
fn blocked_signal_stays_pending_until_unblocked() {
    let (mut k, pid) = boot();
    // Block SIGUSR1, then send it to ourselves.
    k.sys_sigprocmask(pid, pid, SigMaskFlag::Block, Some(1u64 << 9), 8).unwrap();
    k.send_signal_to_proc(pid, 10, None).unwrap();
    // Dispatch does not deliver it while blocked.
    assert_eq!(k.handle_signals(pid, pid), Dispatch::NoSignal);
    assert!(k.get_process(pid).is_some());
    // Unblocking lets the next pass terminate the process (SIGUSR1's
    // default action).
    k.sys_sigprocmask(pid, pid, SigMaskFlag::Unblock, Some(1u64 << 9), 8).unwrap();
    assert_eq!(
        k.handle_signals(pid, pid),
        Dispatch::Terminated(10, ExitProgress::Done)
    );
    assert!(k.get_process(pid).is_none());
}

#[test]
fn sigkill_delivers_through_any_mask() {
    let (mut k, pid) = boot();
    k.sys_sigprocmask(pid, pid, SigMaskFlag::Setmask, Some(u64::MAX), 8).unwrap();
    k.send_signal_to_proc(pid, 9, None).unwrap();
    assert_eq!(
        k.handle_signals(pid, pid),
        Dispatch::Terminated(9, ExitProgress::Done)
    );
}

#[test]
fn sigstop_is_selected_but_stubbed() {
    let (mut k, pid) = boot();
    k.sys_sigprocmask(pid, pid, SigMaskFlag::Setmask, Some(u64::MAX), 8).unwrap();
    k.send_signal_to_proc(pid, 19, None).unwrap();
    assert_eq!(k.handle_signals(pid, pid), Dispatch::Unsupported(19));
}

#[test]
fn default_ignore_discards_signal() {
    let (mut k, pid) = boot();
    k.send_signal_to_proc(pid, 17, None).unwrap();
    assert_eq!(k.handle_signals(pid, pid), Dispatch::Ignored(17));
    assert_eq!(k.handle_signals(pid, pid), Dispatch::NoSignal);
}

#[test]
fn explicit_ignore_discards_signal() {
    let (mut k, pid) = boot();
    let act = SigAction {
        sa_handler: SigActionKind::Ignore,
        sa_flags: SigActionFlags { bits: 0 },
        sa_restorer: 0,
        sa_mask: 0,
    };
    k.set_signal_action(pid, 15, &act);
    k.send_signal_to_proc(pid, 15, None).unwrap();
    assert_eq!(k.handle_signals(pid, pid), Dispatch::Ignored(15));
    assert!(k.get_process(pid).is_some());
}

#[test]
fn handler_frame_is_installed() {
    let (mut k, pid) = boot();
    k.set_signal_action(pid, 10, &handler_action(0x5000, 0));
    k.send_signal_to_proc(pid, 10, None).unwrap();
    assert_eq!(k.handle_signals(pid, pid), Dispatch::Delivered(10));
    let p = k.get_process(pid).unwrap();
    let f = p.threads[0].frame;
    assert_eq!(f.sepc, 0x5000);
    assert_eq!(f.a0, 10);
    assert_eq!(f.ra, 0x7f00_0000);
    assert_eq!(f.sp, 0x20_0000 - 512);
    let m = p.threads[0].sig.as_ref().unwrap();
    assert!(m.last_trap_frame.is_some());
    assert_eq!(m.last_trap_frame.unwrap().sepc, 0x1000);
}

#[test]
fn handler_on_alternate_stack() {
    let (mut k, pid) = boot();
    k.sys_sigaltstack(pid, pid, Some(SignalStack { sp: 0x50_0000, size: 0x1000, flags: 0 }));
    k.set_signal_action(pid, 10, &handler_action(0x5000, SA_ONSTACK));
    k.send_signal_to_proc(pid, 10, None).unwrap();
    assert_eq!(k.handle_signals(pid, pid), Dispatch::Delivered(10));
    let p = k.get_process(pid).unwrap();
    assert_eq!(p.threads[0].frame.sp, (0x50_0000 + 0x1000 - 1) & !0xf);
}

#[test]
fn siginfo_delivery_and_sigreturn_round_trip() {
    let (mut k, pid) = boot();
    k.set_signal_action(pid, 12, &handler_action(0x5000, SA_SIGINFO));
    let mut si = SigInfo::default();
    si.si_signo = 12;
    si.si_val_int = 42;
    k.send_signal_to_proc(pid, 12, Some(si)).unwrap();
    assert_eq!(k.handle_signals(pid, pid), Dispatch::Delivered(12));

    let (a1, a2) = {
        let p = k.get_process(pid).unwrap();
        let f = p.threads[0].frame;
        assert_eq!(f.sepc, 0x5000);
        assert_eq!(f.a0, 12);
        assert_eq!(f.sp, f.a2);
        (f.a1, f.a2)
    };
    // The info record lies at the second handler argument.
    let bytes = k.aspace_read(pid, a1, 40).unwrap();
    assert_eq!(bytes[0], 12);
    assert_eq!(bytes[24], 42);
    // The context record holds the pre-signal program counter.
    let uctx = k.aspace_read(pid, a2, 8).unwrap();
    assert_eq!(uctx[0], 0x00);
    assert_eq!(uctx[1], 0x10);

    // Returning restores the interrupted frame and reports its result
    // register.
    let r = k.signal_return(pid, pid);
    assert_eq!(r, 77);
    let p = k.get_process(pid).unwrap();
    assert_eq!(p.threads[0].frame.sepc, 0x1000);
    assert_eq!(p.threads[0].frame.a0, 77);
    assert!(p.threads[0].sig.as_ref().unwrap().last_trap_frame.is_none());
}

#[test]
fn sigreturn_reads_adjusted_program_counter() {
    let (mut k, pid) = boot();
    k.set_signal_action(pid, 12, &handler_action(0x5000, SA_SIGINFO));
    k.send_signal_to_proc(pid, 12, None).unwrap();
    assert_eq!(k.handle_signals(pid, pid), Dispatch::Delivered(12));
    let a2 = k.get_process(pid).unwrap().threads[0].frame.a2;
    // The handler rewrites the saved program counter in the context
    // record before returning.
    k.aspace_write(pid, a2, &vec![0x44, 0x33, 0, 0, 0, 0, 0, 0]).unwrap();
    let _ = k.signal_return(pid, pid);
    assert_eq!(k.get_process(pid).unwrap().threads[0].frame.sepc, 0x3344);
}

#[test]
fn sigreturn_without_handler_fails() {
    let (mut k, pid) = boot();
    assert_eq!(k.signal_return(pid, pid), -1);
}

#[test]
fn nested_fault_terminates_process() {
    let (mut k, pid) = boot();
    k.set_signal_action(pid, 10, &handler_action(0x5000, 0));
    k.send_signal_to_proc(pid, 10, None).unwrap();
    assert_eq!(k.handle_signals(pid, pid), Dispatch::Delivered(10));
    // A SIGSEGV arriving while the handler runs must end the process, not
    // recurse; the exit code reflects the fault.
    k.send_signal_to_proc(pid, 11, None).unwrap();
    assert_eq!(
        k.handle_signals(pid, pid),
        Dispatch::Terminated(11, ExitProgress::Done)
    );
    assert!(k.get_process(pid).is_none());
    assert_eq!(k.procs[0].exit_code, 11);
}

#[test]
fn nested_ordinary_signal_is_dropped() {
    let (mut k, pid) = boot();
    k.set_signal_action(pid, 10, &handler_action(0x5000, 0));
    k.send_signal_to_proc(pid, 10, None).unwrap();
    assert_eq!(k.handle_signals(pid, pid), Dispatch::Delivered(10));
    k.send_signal_to_proc(pid, 15, None).unwrap();
    assert_eq!(k.handle_signals(pid, pid), Dispatch::DroppedNested(15));
    // The drop consumed the pending bit: nothing is left after return.
    let _ = k.signal_return(pid, pid);
    assert_eq!(k.handle_signals(pid, pid), Dispatch::NoSignal);
}

#[test]
fn exited_process_forces_thread_out() {
    let (mut k, pid) = boot();
    let c = k.sys_clone(pid, pid, 0, 0, 0, 0, 0).unwrap();
    let t = k.sys_clone(c, c, CLONE_THREAD as usize, 0, 0, 0, 0).unwrap();
    assert_eq!(k.sys_exit(c, c, 0), ExitProgress::Waiting);
    // The worker's next trap return notices the exited mark and leaves.
    assert_eq!(k.handle_signals(c, t), Dispatch::ForcedExit(ExitProgress::Done));
    assert_eq!(k.exit(c, 0), ExitProgress::Done);
    assert!(k.wait_pid(pid, c as i32, 0).is_ok());
}

#[test]
fn worker_fault_forwards_to_main_thread() {
    let (mut k, pid) = boot();
    let c = k.sys_clone(pid, pid, 0, 0, 0, 0, 0).unwrap();
    let t = k.sys_clone(c, c, CLONE_THREAD as usize, 0, 0, 0, 0).unwrap();
    // The worker hits an unresolvable page fault: the worker thread exits
    // while the process itself keeps running on its main thread.
    let r = k.handle_page_fault(c, t, 0x9_0000, procsig::aspace::MappingFlags::all());
    assert!(r.is_err());
    let p = k.get_process(c).unwrap();
    assert!(!p.is_exited);
    assert_eq!(p.threads.len(), 1);
    assert_eq!(p.threads[0].tid, c);
}

#[test]
fn kill_argument_validation() {
    let (mut k, pid) = boot();
    assert_eq!(k.sys_kill(0, 9), Err(KernelError::NotFound));
    assert_eq!(k.sys_kill(-1, 9), Err(KernelError::InvalidArgument));
    assert_eq!(k.sys_kill(pid as isize, 0), Err(KernelError::InvalidArgument));
    assert_eq!(k.sys_kill(pid as isize, 65), Err(KernelError::InvalidArgument));
    // Killing a pid the registry does not resolve fails.
    assert_eq!(k.sys_kill(0x7777, 9), Err(KernelError::NotFound));
    // A real kill marks the signal pending.
    assert_eq!(k.sys_kill(pid as isize, 10), Ok(0));
    let p = k.get_process(pid).unwrap();
    assert_eq!(p.threads[0].sig.as_ref().unwrap().sig_set.pending, 1u64 << 9);
}

#[test]
fn sigprocmask_rejects_wrong_set_size() {
    let (mut k, pid) = boot();
    assert_eq!(
        k.sys_sigprocmask(pid, pid, SigMaskFlag::Block, Some(1), 4),
        Err(KernelError::InvalidArgument)
    );
}

#[test]
fn sigprocmask_combines_masks() {
    let (mut k, pid) = boot();
    assert_eq!(k.sys_sigprocmask(pid, pid, SigMaskFlag::Block, Some(0b1100), 8), Ok(0));
    assert_eq!(
        k.sys_sigprocmask(pid, pid, SigMaskFlag::Block, Some(0b0110), 8),
        Ok(0b1100)
    );
    assert_eq!(
        k.sys_sigprocmask(pid, pid, SigMaskFlag::Unblock, Some(0b0100), 8),
        Ok(0b1110)
    );
    assert_eq!(
        k.sys_sigprocmask(pid, pid, SigMaskFlag::Setmask, Some(0b1), 8),
        Ok(0b1010)
    );
    assert_eq!(k.sys_sigprocmask(pid, pid, SigMaskFlag::Block, None, 8), Ok(0b1));
}

#[test]
fn sigaltstack_reports_previous_stack() {
    let (mut k, pid) = boot();
    let st = SignalStack { sp: 0x40_0000, size: 0x2000, flags: 0 };
    let old = k.sys_sigaltstack(pid, pid, Some(st));
    assert_eq!(old, SignalStack::default());
    let old2 = k.sys_sigaltstack(pid, pid, None);
    assert_eq!(old2, st);
}

#[test]
fn send_signal_to_missing_process_fails() {
    let (mut k, _) = boot();
    assert_eq!(k.send_signal_to_proc(0x7777, 9, None), Err(KernelError::NotFound));
}

use procsig::action::{SigAction, SigActionFlags, SigActionKind, SignalDefault, SA_RESTART, SA_RESTORER};
use procsig::ctypes::SigMaskFlag;
use procsig::info::SigInfo;
use procsig::records::{siginfo_to_bytes, u64_from_le_at, ucontext_to_bytes};
use procsig::signal_no::SignalNo;
use procsig::sigset::{SignalHandler, SignalSet};
use procsig::ucontext::{SignalStack, SignalUserContext, SS_DISABLE};

#[test]
fn signal_no_round_trip() {
    for n in 1..=64usize {
        let s = SignalNo::from(n);
        assert_eq!(s.num(), n);
    }
    assert_eq!(SignalNo::from(9), SignalNo::SIGKILL);
    assert_eq!(SignalNo::from(19), SignalNo::SIGSTOP);
    assert_eq!(SignalNo::from(11), SignalNo::SIGSEGV);
    assert_eq!(SignalNo::from(40), SignalNo::SIGRT(40));
}

#[test]
fn default_action_table() {
    assert_eq!(SignalDefault::get_action(SignalNo::SIGCHLD), SignalDefault::Ignore);
    assert_eq!(SignalDefault::get_action(SignalNo::SIGWINCH), SignalDefault::Ignore);
    assert_eq!(SignalDefault::get_action(SignalNo::SIGSEGV), SignalDefault::Core);
    assert_eq!(SignalDefault::get_action(SignalNo::SIGBUS), SignalDefault::Core);
    assert_eq!(SignalDefault::get_action(SignalNo::SIGKILL), SignalDefault::Terminate);
    assert_eq!(SignalDefault::get_action(SignalNo::SIGSTOP), SignalDefault::Stop);
    assert_eq!(SignalDefault::get_action(SignalNo::SIGCONT), SignalDefault::Cont);
    assert_eq!(SignalDefault::get_action(SignalNo::SIGRT(44)), SignalDefault::Terminate);
}

#[test]
fn find_sig_picks_lowest_unmasked() {
    let mut s = SignalSet::new();
    assert_eq!(s.find_sig(), None);
    s.try_add_sig(10, None);
    s.try_add_sig(3, None);
    assert_eq!(s.find_sig(), Some(3));
    // Blocking 3 moves selection to 10.
    s.mask = 1u64 << 2;
    assert_eq!(s.find_sig(), Some(10));
    // Blocking both leaves nothing deliverable.
    s.mask = (1u64 << 2) | (1u64 << 9);
    assert_eq!(s.find_sig(), None);
}

#[test]
fn find_sig_ignores_mask_for_kill_and_stop() {
    let mut s = SignalSet::new();
    s.try_add_sig(9, None);
    s.mask = u64::MAX;
    assert_eq!(s.find_sig(), Some(9));
    let mut t = SignalSet::new();
    t.try_add_sig(19, None);
    t.mask = u64::MAX;
    assert_eq!(t.find_sig(), Some(19));
}

#[test]
fn get_one_sig_pops_pending() {
    let mut s = SignalSet::new();
    s.try_add_sig(5, None);
    s.try_add_sig(7, None);
    assert_eq!(s.get_one_sig(), Some(5));
    assert_eq!(s.get_one_sig(), Some(7));
    assert_eq!(s.get_one_sig(), None);
}

#[test]
fn try_add_sig_stores_payload() {
    let mut s = SignalSet::new();
    let mut si = SigInfo::default();
    si.si_signo = 12;
    si.si_val_int = 42;
    s.try_add_sig(12, Some(si));
    assert_eq!(s.pending, 1u64 << 11);
    assert_eq!(s.info[11].unwrap().si_val_int, 42);
}

#[test]
fn handler_table_defaults_and_updates() {
    let mut h = SignalHandler::new();
    assert_eq!(h.get_action(1).sa_handler, SigActionKind::Default);
    assert_eq!(h.get_action(64).sa_handler, SigActionKind::Default);
    let act = SigAction {
        sa_handler: SigActionKind::Handler(0x5000),
        sa_flags: SigActionFlags { bits: SA_RESTART },
        sa_restorer: 0,
        sa_mask: 0,
    };
    h.set_action(17, &act);
    assert_eq!(h.get_action(17).sa_handler, SigActionKind::Handler(0x5000));
    assert!(h.get_action(17).need_restart());
    h.clear();
    assert_eq!(h.get_action(17).sa_handler, SigActionKind::Default);
}

#[test]
fn action_restorer_only_with_flag() {
    let mut act = SigAction::default();
    act.sa_restorer = 0x9000;
    assert_eq!(act.get_storer(), None);
    act.sa_flags = SigActionFlags { bits: SA_RESTORER };
    assert_eq!(act.get_storer(), Some(0x9000));
    assert!(!act.need_restart());
}

#[test]
fn sig_mask_flag_from_value() {
    assert_eq!(SigMaskFlag::from(0), SigMaskFlag::Block);
    assert_eq!(SigMaskFlag::from(1), SigMaskFlag::Unblock);
    assert_eq!(SigMaskFlag::from(2), SigMaskFlag::Setmask);
}

#[test]
fn signal_stack_default_disabled() {
    let st = SignalStack::default();
    assert_eq!(st.flags, SS_DISABLE);
    assert_eq!(st.sp, 0);
    assert_eq!(st.size, 0);
}

#[test]
fn record_layouts() {
    let mut si = SigInfo::default();
    si.si_signo = 11;
    si.uid = 7;
    let bytes = siginfo_to_bytes(&si);
    assert_eq!(bytes.len(), 40);
    assert_eq!(bytes[0], 11);
    assert_eq!(bytes[20], 7);
    // The default si_code is the thread-kill code, -6, little-endian.
    assert_eq!(bytes[8], 0xfa);
    assert_eq!(bytes[9], 0xff);

    let uc = SignalUserContext::init(0x1234, 0x8000);
    let ub = ucontext_to_bytes(&uc);
    assert_eq!(ub.len(), 16);
    assert_eq!(u64_from_le_at(&ub, 0), 0x1234);
    assert_eq!(u64_from_le_at(&ub, 8), 0x8000);
    assert_eq!(uc.get_pc(), 0x1234);
}

use rsh::trap::{
    disposition, get_pending_signal, get_signal_mode, get_trap, got_sigchld, interrupts_off,
    interrupts_on, is_trap_set, on_sig, on_sigint, passes_while_off, remove_handlers, set_got_sig,
    trapped_signals,
    set_got_sigchld, set_pending_signal, set_signal, set_signal_mode, set_trap, Disposition,
    SignalKind, SignalResponse, TrapData, S_CATCH, S_DFL, S_HARD_IGN, S_IGN,
};

#[test]
fn dispositions_follow_the_table() {
    let table = [
        (SignalKind::Interrupt, Disposition::Catch),
        (SignalKind::Quit, Disposition::Ignore),
        (SignalKind::Terminate, Disposition::Ignore),
        (SignalKind::TerminalOutput, Disposition::Ignore),
        (SignalKind::TerminalStop, Disposition::Catch),
        (SignalKind::Child, Disposition::Catch),
        (SignalKind::TerminalInput, Disposition::Default),
        (SignalKind::Other, Disposition::Default),
    ];
    for (kind, want) in table {
        assert_eq!(disposition(kind, false, false), want);
        assert_eq!(disposition(kind, true, false), Disposition::Catch);
        assert_eq!(disposition(kind, false, true), Disposition::Default);
        assert_eq!(disposition(kind, true, true), Disposition::Default);
    }
}

#[test]
fn interrupts_nest_by_depth() {
    let mut t = TrapData::new();
    assert_eq!(t.interrupts_off_depth, 0);
    assert!(interrupts_off(&mut t));
    assert!(!interrupts_off(&mut t));
    assert_eq!(t.interrupts_off_depth, 2);
    assert!(!interrupts_on(&mut t));
    assert_eq!(t.interrupts_off_depth, 1);
    assert!(interrupts_on(&mut t));
    assert_eq!(t.interrupts_off_depth, 0);
    assert!(interrupts_on(&mut t));
    assert_eq!(t.interrupts_off_depth, 0);
    t.interrupts_off_depth = usize::MAX;
    assert!(!interrupts_off(&mut t));
    assert_eq!(t.interrupts_off_depth, usize::MAX);
}

#[test]
fn only_keyboard_signals_pass_while_off() {
    assert!(passes_while_off(SignalKind::Interrupt));
    assert!(passes_while_off(SignalKind::TerminalStop));
    assert!(!passes_while_off(SignalKind::Child));
    assert!(!passes_while_off(SignalKind::Quit));
    assert!(!passes_while_off(SignalKind::Other));
}

#[test]
fn traps_and_modes_are_kept_by_number() {
    let mut t = TrapData::new();
    assert_eq!(t.got_sig, vec![false; 32]);
    assert!(!is_trap_set(&t, 2));
    assert_eq!(get_trap(&t, 2), None);
    set_trap(&mut t, 2, "echo hi");
    assert!(is_trap_set(&t, 2));
    assert_eq!(get_trap(&t, 2).as_deref(), Some("echo hi"));
    assert_eq!(get_signal_mode(&t, 2), None);
    set_signal_mode(&mut t, 2, S_IGN);
    assert_eq!(get_signal_mode(&t, 2), Some(S_IGN));
    set_got_sig(&mut t, 3);
    set_got_sig(&mut t, 40);
    set_got_sig(&mut t, -1);
    assert!(t.got_sig[3]);
    assert_eq!(t.got_sig.iter().filter(|b| **b).count(), 1);
    set_pending_signal(&mut t, 15);
    assert_eq!(get_pending_signal(&t), Some(15));
    set_got_sigchld(&mut t, true);
    assert!(got_sigchld(&t));
    t.sigint_pending = true;
    on_sigint(&mut t);
    assert!(!t.sigint_pending);
}

#[test]
fn set_signal_installs_what_is_not_settled() {
    let mut t = TrapData::new();
    assert_eq!(set_signal(&mut t, 2, SignalKind::Interrupt, false), Some(Disposition::Catch));
    assert_eq!(get_signal_mode(&t, 2), Some(S_CATCH));
    assert_eq!(set_signal(&mut t, 2, SignalKind::Interrupt, false), None);
    assert_eq!(set_signal(&mut t, 3, SignalKind::Quit, false), Some(Disposition::Ignore));
    assert_eq!(get_signal_mode(&t, 3), Some(S_IGN));
    assert_eq!(set_signal(&mut t, 10, SignalKind::Other, false), Some(Disposition::Default));
    assert_eq!(get_signal_mode(&t, 10), Some(S_DFL));
    set_trap(&mut t, 10, "x");
    assert_eq!(set_signal(&mut t, 10, SignalKind::Other, false), Some(Disposition::Catch));
    set_signal_mode(&mut t, 15, S_HARD_IGN);
    assert_eq!(set_signal(&mut t, 15, SignalKind::Terminate, false), None);
    assert_eq!(get_signal_mode(&t, 15), Some(S_HARD_IGN));
    assert_eq!(set_signal(&mut t, 17, SignalKind::Child, true), Some(Disposition::Default));
    assert_eq!(get_signal_mode(&t, 17), None);
    assert_eq!(set_signal(&mut t, 2, SignalKind::Interrupt, true), Some(Disposition::Default));
    assert_eq!(get_signal_mode(&t, 2), Some(S_CATCH));
}

#[test]
fn the_handler_notes_signals() {
    let nothing = SignalResponse { reap_child: false, break_line: false, clear_mask: false };
    let mut t = TrapData::new();
    let r = on_sig(&mut t, 17, SignalKind::Child, false);
    assert_eq!(r, SignalResponse { reap_child: true, ..nothing });
    assert!(t.got_sigchld);
    assert_eq!(t.pending_signal, None);
    assert!(!t.got_sig[17]);
    set_trap(&mut t, 17, "x");
    let r = on_sig(&mut t, 17, SignalKind::Child, false);
    assert_eq!(r, SignalResponse { reap_child: true, ..nothing });
    assert_eq!(t.pending_signal, Some(17));
    assert!(t.got_sig[17]);
    let r = on_sig(&mut t, 2, SignalKind::Interrupt, false);
    assert_eq!(r, SignalResponse { reap_child: false, break_line: true, clear_mask: true });
    assert!(t.sigint_pending);
    assert_eq!(t.pending_signal, Some(2));
    t.suppress_sigint = true;
    let r = on_sig(&mut t, 2, SignalKind::Interrupt, false);
    assert_eq!(r, SignalResponse { reap_child: false, break_line: true, clear_mask: false });
    set_trap(&mut t, 2, "y");
    assert_eq!(on_sig(&mut t, 2, SignalKind::Interrupt, false), nothing);
    assert_eq!(on_sig(&mut t, 20, SignalKind::TerminalStop, false), nothing);
    assert_eq!(t.pending_signal, Some(20));
    assert!(t.got_sig[20]);
    let mut quiet = TrapData::new();
    assert_eq!(on_sig(&mut quiet, 2, SignalKind::Interrupt, true), nothing);
    quiet.block_signals = true;
    assert_eq!(on_sig(&mut quiet, 17, SignalKind::Child, false), nothing);
    assert!(!quiet.got_sigchld && quiet.pending_signal.is_none());
}

#[test]
fn a_forked_child_resets_the_bookkeeping() {
    let mut t = TrapData::new();
    set_trap(&mut t, 2, "x");
    set_signal(&mut t, 2, SignalKind::Interrupt, false);
    on_sig(&mut t, 2, SignalKind::Interrupt, false);
    interrupts_off(&mut t);
    let reset = remove_handlers(&mut t);
    assert_eq!(reset.trapped, vec![2]);
    assert_eq!(
        reset.kinds,
        vec![
            SignalKind::Interrupt,
            SignalKind::Quit,
            SignalKind::Terminate,
            SignalKind::TerminalStop,
            SignalKind::TerminalInput,
            SignalKind::TerminalOutput,
            SignalKind::Child,
        ]
    );
    assert_eq!(t.interrupts_off_depth, 0);
    assert_eq!(t.pending_signal, None);
    assert_eq!(get_signal_mode(&t, 2), None);
    assert_eq!(t.got_sig, vec![false; 32]);
    assert!(is_trap_set(&t, 2));
}

#[test]
fn a_forked_child_forgets_the_signals() {
    let mut t = TrapData::new();
    set_trap(&mut t, 15, "echo bye");
    set_pending_signal(&mut t, 15);
    set_got_sigchld(&mut t, true);
    interrupts_off(&mut t);
    interrupts_off(&mut t);
    set_trap(&mut t, 10, "echo usr");
    set_trap(&mut t, 15, "echo again");
    assert_eq!(trapped_signals(&t).len(), 2);
    let reset = rsh::jobs::fork_reset(&mut t);
    assert_eq!(reset.kinds.len(), 7);
    assert_eq!(reset.kinds[0], SignalKind::Interrupt);
    assert_eq!(reset.kinds[6], SignalKind::Child);
    let mut trapped = reset.trapped.clone();
    trapped.sort();
    assert_eq!(trapped, vec![10, 15]);
    assert!(trapped_signals(&TrapData::new()).is_empty());
    assert_eq!(t.interrupts_off_depth, 0);
    assert_eq!(get_pending_signal(&t), None);
    assert!(!got_sigchld(&t));
    assert!(is_trap_set(&t, 15));
    assert_eq!(get_trap(&t, 15).as_deref(), Some("echo again"));
}

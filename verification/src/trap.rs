//! The bookkeeping of signals: which signals are trapped and how each is
//! disposed of, which were received, and how deep the shell is inside
//! sections that must not be interrupted.

use std::collections::HashMap;
use vstd::prelude::*;
use vstd::std_specs::hash::spec_keys_iter;
use vstd::std_specs::iter::IteratorSpec;

verus! {

/// The disposition of a signal is the default one.
pub const S_DFL: usize = 1;

/// The signal is caught.
pub const S_CATCH: usize = 2;

/// The signal is ignored.
pub const S_IGN: usize = 3;

/// The signal is ignored, whatever is asked later.
pub const S_HARD_IGN: usize = 4;

/// The disposition is to be reset.
pub const S_RESET: usize = 5;

/// The number of flags for received signals.
pub const SIGNAL_SLOTS: usize = 32;

/// The signals that the shell tells apart when it decides what to do with one.
#[derive(Clone, Copy, Debug, PartialEq, Eq, Structural)]
pub enum SignalKind {
    /// The interrupt from the keyboard.
    Interrupt,
    /// The quit from the keyboard.
    Quit,
    /// The request to terminate.
    Terminate,
    /// The stop from the keyboard.
    TerminalStop,
    /// Terminal input of a background process.
    TerminalInput,
    /// Terminal output of a background process.
    TerminalOutput,
    /// A child changed state.
    Child,
    /// Any other signal.
    Other,
}

/// What is installed for a signal.
#[derive(Clone, Copy, Debug, PartialEq, Eq, Structural)]
pub enum Disposition {
    /// The default action of the system.
    Default,
    /// The handler of the shell.
    Catch,
    /// Nothing: the signal is ignored.
    Ignore,
}

/// The mode that stands for a disposition.
pub open spec fn mode_of(d: Disposition) -> usize {
    match d {
        Disposition::Default => S_DFL,
        Disposition::Catch => S_CATCH,
        Disposition::Ignore => S_IGN,
    }
}

/// How the shell disposes of a signal. A forked child takes the default for
/// every signal. The shell itself always catches the signal of a child that
/// changed state, and every signal with a trap; without a trap it catches the
/// interrupt and the stop from the keyboard, ignores quit, terminate and
/// terminal output, and leaves the default for the rest.
pub open spec fn spec_disposition(kind: SignalKind, trapped: bool, forked: bool) -> Disposition {
    if forked {
        Disposition::Default
    } else if kind == SignalKind::Child || trapped {
        Disposition::Catch
    } else {
        match kind {
            SignalKind::Interrupt => Disposition::Catch,
            SignalKind::TerminalStop => Disposition::Catch,
            SignalKind::Quit => Disposition::Ignore,
            SignalKind::Terminate => Disposition::Ignore,
            SignalKind::TerminalOutput => Disposition::Ignore,
            _ => Disposition::Default,
        }
    }
}

/// How the shell disposes of a signal: see `spec_disposition`.
pub fn disposition(kind: SignalKind, trapped: bool, forked: bool) -> (d: Disposition)
    ensures
        d == spec_disposition(kind, trapped, forked),
{
    if forked {
        Disposition::Default
    } else if kind == SignalKind::Child || trapped {
        Disposition::Catch
    } else {
        match kind {
            SignalKind::Interrupt => Disposition::Catch,
            SignalKind::TerminalStop => Disposition::Catch,
            SignalKind::Quit => Disposition::Ignore,
            SignalKind::Terminate => Disposition::Ignore,
            SignalKind::TerminalOutput => Disposition::Ignore,
            _ => Disposition::Default,
        }
    }
}

/// Tells whether a signal stays deliverable while interrupts are off: the
/// interrupt and the stop from the keyboard do, every other signal is blocked.
pub fn passes_while_off(kind: SignalKind) -> (r: bool)
    ensures
        r == (kind == SignalKind::Interrupt || kind == SignalKind::TerminalStop),
{
    kind == SignalKind::Interrupt || kind == SignalKind::TerminalStop
}

/// What the shell knows about signals.
pub struct TrapData {
    /// The script to run on a signal, by signal number.
    pub traps: HashMap<i32, String>,
    /// The mode installed for a signal, by signal number.
    pub signal_mode: HashMap<i32, usize>,
    /// For each signal number below the length, whether the signal came.
    pub got_sig: Vec<bool>,
    /// The signal that came last and was not handled yet.
    pub pending_signal: Option<i32>,
    /// A child changed state since the flag was last cleared.
    pub got_sigchld: bool,
    /// An interrupt came and was not handled yet.
    pub sigint_pending: bool,
    /// Interrupts are not acted on at once.
    pub suppress_sigint: bool,
    /// The handler drops every signal.
    pub block_signals: bool,
    /// How many sections that must not be interrupted are open.
    pub interrupts_off_depth: usize,
}

/// What the handler asks for after a signal came.
#[derive(Clone, Copy, Debug, PartialEq, Eq, Structural)]
pub struct SignalResponse {
    /// One child is to be reaped, without blocking.
    pub reap_child: bool,
    /// The line being read is to be abandoned.
    pub break_line: bool,
    /// The signal mask is to be cleared.
    pub clear_mask: bool,
}

impl TrapData {
    /// Nothing is trapped, nothing came, interrupts are on.
    pub fn new() -> (t: TrapData)
        ensures
            t.traps@.len() == 0,
            t.signal_mode@.len() == 0,
            t.got_sig@ == Seq::new(SIGNAL_SLOTS as nat, |i: int| false),
            t.pending_signal is None,
            !t.got_sigchld,
            !t.sigint_pending,
            !t.suppress_sigint,
            !t.block_signals,
            t.interrupts_off_depth == 0,
    {
        let mut got: Vec<bool> = Vec::new();
        let mut i: usize = 0;
        while i < SIGNAL_SLOTS
            invariant
                i <= SIGNAL_SLOTS,
                got@ == Seq::new(i as nat, |j: int| false),
            decreases SIGNAL_SLOTS - i,
        {
            got.push(false);
            assert(got@ =~= Seq::new((i + 1) as nat, |j: int| false));
            i += 1;
        }
        TrapData {
            traps: HashMap::new(),
            signal_mode: HashMap::new(),
            got_sig: got,
            pending_signal: None,
            got_sigchld: false,
            sigint_pending: false,
            suppress_sigint: false,
            block_signals: false,
            interrupts_off_depth: 0,
        }
    }

    /// Interrupts are off: a section that must not be interrupted is open.
    pub open spec fn interrupts_are_off(&self) -> bool {
        self.interrupts_off_depth > 0
    }
}

/// Tells whether a script is to run on signal `signo`.
pub fn is_trap_set(data: &TrapData, signo: i32) -> (r: bool)
    ensures
        r == data.traps@.contains_key(signo),
{
    data.traps.contains_key(&signo)
}

/// The script to run on signal `signo`.
pub fn get_trap(data: &TrapData, signo: i32) -> (r: Option<String>)
    ensures
        r is Some <==> data.traps@.contains_key(signo),
        r matches Some(s) ==> s@ == data.traps@[signo]@,
{
    match data.traps.get(&signo) {
        Some(s) => Some(s.clone()),
        None => None,
    }
}

/// Sets the script to run on signal `signo`.
pub fn set_trap(data: &mut TrapData, signo: i32, script: &str)
    ensures
        final(data).traps@.dom() == old(data).traps@.dom().insert(signo),
        final(data).traps@[signo]@ == script@,
        forall|k: i32| k != signo && old(data).traps@.contains_key(k) ==> final(data).traps@[k]
            == old(data).traps@[k],
        final(data).signal_mode == old(data).signal_mode,
        final(data).got_sig == old(data).got_sig,
        final(data).pending_signal == old(data).pending_signal,
        final(data).got_sigchld == old(data).got_sigchld,
        final(data).sigint_pending == old(data).sigint_pending,
        final(data).suppress_sigint == old(data).suppress_sigint,
        final(data).block_signals == old(data).block_signals,
        final(data).interrupts_off_depth == old(data).interrupts_off_depth,
{
    data.traps.insert(signo, script.to_owned());
}

/// Records the mode installed for signal `signo`.
pub fn set_signal_mode(data: &mut TrapData, signo: i32, mode: usize)
    ensures
        *final(data) == (TrapData {
            signal_mode: final(data).signal_mode,
            ..*old(data)
        }),
        final(data).signal_mode@ == old(data).signal_mode@.insert(signo, mode),
{
    data.signal_mode.insert(signo, mode);
}

/// The mode installed for signal `signo`.
pub fn get_signal_mode(data: &TrapData, signo: i32) -> (r: Option<usize>)
    ensures
        r == (if data.signal_mode@.contains_key(signo) {
            Some(data.signal_mode@[signo])
        } else {
            None
        }),
{
    match data.signal_mode.get(&signo) {
        Some(m) => Some(*m),
        None => None,
    }
}

/// Flags signal `signo` as received. A number without a flag changes nothing.
pub fn set_got_sig(data: &mut TrapData, signo: i32)
    ensures
        *final(data) == (TrapData { got_sig: final(data).got_sig, ..*old(data) }),
        final(data).got_sig@ == (if 0 <= signo < old(data).got_sig@.len() {
            old(data).got_sig@.update(signo as int, true)
        } else {
            old(data).got_sig@
        }),
{
    if signo >= 0 && (signo as usize) < data.got_sig.len() {
        data.got_sig.set(signo as usize, true);
    }
}

/// Records signal `signo` as the one that waits to be handled.
pub fn set_pending_signal(data: &mut TrapData, signo: i32)
    ensures
        *final(data) == (TrapData { pending_signal: Some(signo), ..*old(data) }),
{
    data.pending_signal = Some(signo);
}

/// The signal that waits to be handled.
pub fn get_pending_signal(data: &TrapData) -> (r: Option<i32>)
    ensures
        r == data.pending_signal,
{
    data.pending_signal
}

/// Sets or clears the flag that a child changed state.
pub fn set_got_sigchld(data: &mut TrapData, val: bool)
    ensures
        *final(data) == (TrapData { got_sigchld: val, ..*old(data) }),
{
    data.got_sigchld = val;
}

/// Tells whether a child changed state since the flag was last cleared.
pub fn got_sigchld(data: &TrapData) -> (r: bool)
    ensures
        r == data.got_sigchld,
{
    data.got_sigchld
}

/// Opens a section that must not be interrupted. Tells whether the signal
/// mask has to be installed now, which is so for the outermost section.
/// The depth stops at the largest number.
pub fn interrupts_off(data: &mut TrapData) -> (install: bool)
    ensures
        *final(data) == (TrapData {
            interrupts_off_depth: if old(data).interrupts_off_depth < usize::MAX {
                (old(data).interrupts_off_depth + 1) as usize
            } else {
                usize::MAX
            },
            ..*old(data)
        }),
        install == (old(data).interrupts_off_depth == 0),
        final(data).interrupts_are_off(),
{
    let install = data.interrupts_off_depth == 0;
    if data.interrupts_off_depth < usize::MAX {
        data.interrupts_off_depth += 1;
    }
    install
}

/// Closes a section that must not be interrupted. Tells whether the signal
/// mask has to be cleared now, which is so when the outermost section was
/// closed, or none was open.
pub fn interrupts_on(data: &mut TrapData) -> (clear: bool)
    ensures
        *final(data) == (TrapData {
            interrupts_off_depth: if old(data).interrupts_off_depth > 0 {
                (old(data).interrupts_off_depth - 1) as usize
            } else {
                0
            },
            ..*old(data)
        }),
        clear == !final(data).interrupts_are_off(),
{
    if data.interrupts_off_depth > 0 {
        data.interrupts_off_depth -= 1;
    }
    data.interrupts_off_depth == 0
}

/// Handles an interrupt: it is no longer pending, and the mask is cleared.
pub fn on_sigint(data: &mut TrapData)
    ensures
        *final(data) == (TrapData { sigint_pending: false, ..*old(data) }),
{
    data.sigint_pending = false;
}

/// The handler of every caught signal. While signals are blocked, and in a
/// forked child, it does nothing. The signal of a child sets the flag that a
/// child changed state and asks for one child to be reaped; it is then noted
/// like any other signal only if it has a trap. A noted signal is flagged as
/// received and becomes the pending signal. An interrupt without a trap asks
/// to abandon the line being read and stays pending; unless interrupts are
/// suppressed, the mask is cleared for it.
pub fn on_sig(data: &mut TrapData, signo: i32, kind: SignalKind, forked: bool) -> (r:
    SignalResponse)
    ensures
        old(data).block_signals || forked ==> *final(data) == *old(data) && r == (SignalResponse {
            reap_child: false,
            break_line: false,
            clear_mask: false,
        }),
        !(old(data).block_signals || forked) ==> {
            let child = kind == SignalKind::Child;
            let trapped = old(data).traps@.contains_key(signo);
            let noted = !child || trapped;
            let plain_interrupt = noted && kind == SignalKind::Interrupt && !trapped;
            &&& r.reap_child == child
            &&& r.break_line == plain_interrupt
            &&& r.clear_mask == (plain_interrupt && !old(data).suppress_sigint)
            &&& final(data).got_sigchld == (old(data).got_sigchld || child)
            &&& final(data).pending_signal == (if noted {
                Some(signo)
            } else {
                old(data).pending_signal
            })
            &&& final(data).got_sig@ == (if noted && 0 <= signo < old(data).got_sig@.len() {
                old(data).got_sig@.update(signo as int, true)
            } else {
                old(data).got_sig@
            })
            &&& final(data).sigint_pending == (plain_interrupt || old(data).sigint_pending)
            &&& final(data).traps == old(data).traps
            &&& final(data).signal_mode == old(data).signal_mode
            &&& final(data).suppress_sigint == old(data).suppress_sigint
            &&& final(data).block_signals == old(data).block_signals
            &&& final(data).interrupts_off_depth == old(data).interrupts_off_depth
        },
{
    let nothing = SignalResponse { reap_child: false, break_line: false, clear_mask: false };
    if data.block_signals || forked {
        return nothing;
    }
    let child = kind == SignalKind::Child;
    let trapped = is_trap_set(data, signo);
    if child {
        data.got_sigchld = true;
        if !trapped {
            return SignalResponse { reap_child: true, break_line: false, clear_mask: false };
        }
    }
    set_got_sig(data, signo);
    set_pending_signal(data, signo);
    if kind == SignalKind::Interrupt && !trapped {
        let clear = !data.suppress_sigint;
        if clear {
            on_sigint(data);
        }
        data.sigint_pending = true;
        return SignalResponse { reap_child: child, break_line: true, clear_mask: clear };
    }
    SignalResponse { reap_child: child, break_line: false, clear_mask: false }
}

/// Decides what to install for signal `signo` of kind `kind`. The answer is the
/// disposition to install, or `None` when there is nothing to do: the signal
/// is ignored for good, or its mode is already the one wanted. The mode is
/// recorded, but for a forked child.
pub fn set_signal(data: &mut TrapData, signo: i32, kind: SignalKind, forked: bool) -> (r: Option<
    Disposition,
>)
    ensures
        ({
            let want = spec_disposition(kind, old(data).traps@.contains_key(signo), forked);
            let settled = old(data).signal_mode@.contains_key(signo) && (old(
                data,
            ).signal_mode@[signo] == S_HARD_IGN || old(data).signal_mode@[signo] == mode_of(
                want,
            ));
            &&& r == (if settled {
                None
            } else {
                Some(want)
            })
            &&& final(data).signal_mode@ == (if settled || forked {
                old(data).signal_mode@
            } else {
                old(data).signal_mode@.insert(signo, mode_of(want))
            })
            &&& *final(data) == (TrapData { signal_mode: final(data).signal_mode, ..*old(data) })
        }),
{
    let want = disposition(kind, is_trap_set(data, signo), forked);
    let action = match want {
        Disposition::Default => S_DFL,
        Disposition::Catch => S_CATCH,
        Disposition::Ignore => S_IGN,
    };
    match get_signal_mode(data, signo) {
        Some(mode) => {
            if mode == S_HARD_IGN || mode == action {
                return None;
            }
        },
        None => {},
    }
    if !forked {
        set_signal_mode(data, signo, action);
    }
    Some(want)
}

/// The signals whose handlers a forked child takes off, in order.
pub open spec fn reset_kinds() -> Seq<SignalKind> {
    seq![
        SignalKind::Interrupt,
        SignalKind::Quit,
        SignalKind::Terminate,
        SignalKind::TerminalStop,
        SignalKind::TerminalInput,
        SignalKind::TerminalOutput,
        SignalKind::Child,
    ]
}

/// The numbers of the signals that have a trap, each once, in no particular
/// order.
pub fn trapped_signals(data: &TrapData) -> (r: Vec<i32>)
    ensures
        r@.to_set() == data.traps@.dom(),
        r@.no_duplicates(),
{
    let mut out: Vec<i32> = Vec::new();
    proof {
        broadcast use vstd::std_specs::hash::axiom_spec_keys_iter;

        assert(spec_keys_iter(&data.traps).remaining().unref().to_set() == data.traps@.dom());
    }
    for k in it: data.traps.keys()
        invariant
            out@ == it.seq().unref().take(it.index()),
            it.seq() == spec_keys_iter(&data.traps).remaining(),
    {
        out.push(*k);
    }
    proof {
        let all = spec_keys_iter(&data.traps).remaining();
        assert(out@ =~= all.unref());
    }
    out
}

/// The signals that a forked child gives their default disposition back.
#[derive(Debug)]
pub struct ChildReset {
    /// The kinds of signal that the shell disposes of in its own way.
    pub kinds: Vec<SignalKind>,
    /// The numbers of the signals that have a trap, each once.
    pub trapped: Vec<i32>,
}

/// Resets the bookkeeping in a forked child: no signal is pending, none is
/// flagged, no section is open and no mode is recorded. The answer lists the
/// signals for which the default disposition is to be installed, after the
/// mask was cleared: those that the shell disposes of in its own way, and
/// every signal that has a trap. The scripts of the traps stay remembered.
pub fn remove_handlers(data: &mut TrapData) -> (r: ChildReset)
    ensures
        r.kinds@ == reset_kinds(),
        r.trapped@.to_set() == old(data).traps@.dom(),
        r.trapped@.no_duplicates(),
        final(data).traps == old(data).traps,
        final(data).signal_mode@ == Map::<i32, usize>::empty(),
        final(data).got_sig@ == Seq::new(old(data).got_sig@.len(), |i: int| false),
        final(data).pending_signal is None,
        !final(data).got_sigchld,
        !final(data).sigint_pending,
        final(data).suppress_sigint == old(data).suppress_sigint,
        !final(data).block_signals,
        final(data).interrupts_off_depth == 0,
{
    let n = data.got_sig.len();
    let mut i: usize = 0;
    while i < n
        invariant
            i <= n == data.got_sig.len(),
            n == old(data).got_sig.len(),
            forall|j: int| 0 <= j < i ==> !data.got_sig@[j],
            data.traps == old(data).traps,
            data.suppress_sigint == old(data).suppress_sigint,
        decreases n - i,
    {
        data.got_sig.set(i, false);
        i += 1;
    }
    assert(data.got_sig@ =~= Seq::new(n as nat, |i: int| false));
    data.signal_mode.clear();
    data.pending_signal = None;
    data.got_sigchld = false;
    data.sigint_pending = false;
    data.block_signals = false;
    data.interrupts_off_depth = 0;
    let mut out: Vec<SignalKind> = Vec::new();
    out.push(SignalKind::Interrupt);
    out.push(SignalKind::Quit);
    out.push(SignalKind::Terminate);
    out.push(SignalKind::TerminalStop);
    out.push(SignalKind::TerminalInput);
    out.push(SignalKind::TerminalOutput);
    out.push(SignalKind::Child);
    assert(out@ =~= reset_kinds());
    let trapped = trapped_signals(data);
    ChildReset { kinds: out, trapped }
}

} // verus!

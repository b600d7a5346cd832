//! What the shell makes of its command line: whether it talks to a terminal,
//! runs a script, or runs the text that follows `-c`.

use crate::shell::Shell;
use crate::text::{chars_of, views};
use vstd::prelude::*;

verus! {

/// How the shell was asked to run.
#[derive(Clone, Copy, Debug, PartialEq, Eq, Structural)]
pub enum Mode {
    /// It reads its commands from the terminal.
    Interactive,
    /// It runs a script.
    Script,
    /// It runs the text that follows `-c`.
    Command,
}

/// What the command line of the shell asks for.
#[derive(Debug)]
pub struct Invocation {
    /// How the shell runs.
    pub mode: Mode,
    /// `-l` was given: the shell logs what it does.
    pub logging: bool,
    /// The name of the script, or the text to run; empty for a terminal.
    pub subject: String,
    /// The arguments after the subject: the positional parameters from `1` on.
    pub args: Vec<String>,
}

/// The mathematical content of an `Invocation`.
pub struct InvocationView {
    pub mode: Mode,
    pub logging: bool,
    pub subject: Seq<char>,
    pub args: Seq<Seq<char>>,
}

impl View for Invocation {
    type V = InvocationView;

    open spec fn view(&self) -> InvocationView {
        InvocationView {
            mode: self.mode,
            logging: self.logging,
            subject: self.subject@,
            args: views(self.args@),
        }
    }
}

/// Tells whether an option word asks for the text of the command line: the
/// word begins with `-` and holds a `c` after it.
pub open spec fn asks_command(arg: Seq<char>) -> bool {
    arg.len() > 0 && arg[0] == '-' && arg.subrange(1, arg.len() as int).contains('c')
}

/// Tells whether an option word asks for logging: the word begins with `-`
/// and holds an `l` after it.
pub open spec fn asks_logging(arg: Seq<char>) -> bool {
    arg.len() > 0 && arg[0] == '-' && arg.subrange(1, arg.len() as int).contains('l')
}

/// Reads an option word: whether it holds `c`, which asks to run the text
/// that follows, and whether it holds `l`, which asks for logging. A word
/// that does not begin with `-` holds neither.
pub fn parse_dash_arg(arg: &str) -> (r: (bool, bool))
    ensures
        r.0 == asks_command(arg@),
        r.1 == asks_logging(arg@),
{
    let v = chars_of(arg);
    if v.len() == 0 || v[0] != '-' {
        return (false, false);
    }
    let ghost rest = v@.subrange(1, v.len() as int);
    let mut read_from_args = false;
    let mut logging = false;
    let mut i: usize = 1;
    while i < v.len()
        invariant
            1 <= i <= v.len(),
            rest == v@.subrange(1, v.len() as int),
            read_from_args == rest.subrange(0, i - 1).contains('c'),
            logging == rest.subrange(0, i - 1).contains('l'),
        decreases v.len() - i,
    {
        let ghost before = rest.subrange(0, i - 1);
        let ghost after = rest.subrange(0, i as int);
        proof {
            assert(after == before.push(v@[i as int]));
            assert forall|c: char| after.contains(c) == (before.contains(c) || c == v@[i as int]) by {
                if before.contains(c) {
                    let k = choose|k: int| 0 <= k < before.len() && before[k] == c;
                    assert(after[k] == c);
                }
                if c == v@[i as int] {
                    assert(after[after.len() - 1] == c);
                }
            }
        }
        if v[i] == 'c' {
            read_from_args = true;
        } else if v[i] == 'l' {
            logging = true;
        }
        i += 1;
    }
    assert(rest.subrange(0, rest.len() as int) == rest);
    (read_from_args, logging)
}

/// What the arguments `args[i..]` ask for, after the options that were read
/// so far. Option words come first. One that holds `c` takes the next
/// argument as the text to run. The first word that is no option names the
/// script. What follows the text or the script are the positional
/// parameters. Without text and script the shell talks to the terminal.
pub open spec fn invocation(args: Seq<Seq<char>>, i: int, logging: bool) -> InvocationView
    decreases args.len() - i,
{
    if i >= args.len() || i < 0 {
        InvocationView {
            mode: Mode::Interactive,
            logging: logging,
            subject: Seq::empty(),
            args: Seq::empty(),
        }
    } else if args[i].len() > 0 && args[i][0] == '-' {
        if asks_command(args[i]) {
            InvocationView {
                mode: Mode::Command,
                logging: logging || asks_logging(args[i]),
                subject: if i + 1 < args.len() {
                    args[i + 1]
                } else {
                    Seq::empty()
                },
                args: if i + 2 < args.len() {
                    args.subrange(i + 2, args.len() as int)
                } else {
                    Seq::empty()
                },
            }
        } else {
            invocation(args, i + 1, logging || asks_logging(args[i]))
        }
    } else {
        InvocationView {
            mode: Mode::Script,
            logging: logging,
            subject: args[i],
            args: args.subrange(i + 1, args.len() as int),
        }
    }
}

/// The copy of `args[from..]`.
fn tail_of(args: &Vec<String>, from: usize) -> (r: Vec<String>)
    ensures
        views(r@) == (if from < args@.len() {
            views(args@).subrange(from as int, args@.len() as int)
        } else {
            Seq::empty()
        }),
{
    let mut out: Vec<String> = Vec::new();
    if from >= args.len() {
        assert(views(out@) =~= Seq::<Seq<char>>::empty());
        return out;
    }
    let mut k: usize = from;
    assert(views(out@) =~= views(args@).subrange(from as int, k as int));
    while k < args.len()
        invariant
            from <= k <= args.len(),
            views(out@) == views(args@).subrange(from as int, k as int),
        decreases args.len() - k,
    {
        let ghost before = views(out@);
        out.push(args[k].clone());
        assert(views(out@) =~= before.push(args@[k as int]@));
        assert(views(args@).subrange(from as int, k as int + 1) =~= views(args@).subrange(
            from as int,
            k as int,
        ).push(args@[k as int]@));
        k += 1;
    }
    out
}

/// Reads the command line of the shell. The first argument is the name of
/// the program and is passed over; of the rest see `invocation`.
pub fn parse_args(args: &Vec<String>) -> (r: Invocation)
    ensures
        r@ == invocation(views(args@), 1, false),
{
    let ghost all = views(args@);
    let mut logging = false;
    let mut i: usize = 1;
    while i < args.len()
        invariant
            1 <= i,
            all == views(args@),
            invocation(all, i as int, logging) == invocation(all, 1, false),
        decreases args.len() - i,
    {
        let v = chars_of(args[i].as_str());
        assert(all[i as int] == v@);
        if v.len() > 0 && v[0] == '-' {
            let (command, log) = parse_dash_arg(args[i].as_str());
            if command {
                let subject = if i + 1 < args.len() {
                    args[i + 1].clone()
                } else {
                    String::new()
                };
                let rest = if i + 1 < args.len() {
                    tail_of(args, i + 2)
                } else {
                    Vec::new()
                };
                let r = Invocation { mode: Mode::Command, logging: logging || log, subject, args: rest };
                assert(r@.args =~= invocation(all, i as int, logging).args);
                return r;
            }
            logging = logging || log;
        } else {
            let r = Invocation {
                mode: Mode::Script,
                logging,
                subject: args[i].clone(),
                args: tail_of(args, i + 1),
            };
            assert(r@.args =~= invocation(all, i as int, logging).args);
            return r;
        }
        i += 1;
    }
    let r = Invocation {
        mode: Mode::Interactive,
        logging,
        subject: String::new(),
        args: Vec::new(),
    };
    assert(r@.args =~= Seq::<Seq<char>>::empty());
    r
}

/// Sets the shell up for what its command line asks for: talking to a
/// terminal leaves it as it is; a script or a text to run makes it
/// non-interactive, names the script where there is one, and binds the
/// arguments to the positional parameters `1`, `2` and so on in the
/// environment scope.
pub fn apply_invocation(shell: &mut Shell, inv: &Invocation)
    requires
        old(shell).wf(),
    ensures
        final(shell).wf(),
        inv.mode == Mode::Interactive ==> *final(shell) == *old(shell),
        inv.mode != Mode::Interactive ==> {
            &&& !final(shell).interactive
            &&& final(shell).script_name@ == (if inv.mode == Mode::Script {
                inv.subject@
            } else {
                old(shell).script_name@
            })
            &&& final(shell).context_manager@ == positional_bound(
                old(shell).context_manager@,
                views(inv.args@),
                0,
            )
            &&& final(shell).job_control == old(shell).job_control
            &&& final(shell).aliases == old(shell).aliases
            &&& final(shell).exit_status == old(shell).exit_status
        },
{
    match inv.mode {
        Mode::Interactive => {
            return ;
        },
        Mode::Script => {
            crate::shell::set_script_name(shell, inv.subject.as_str());
        },
        Mode::Command => {
            crate::shell::set_interactive(shell, false);
        },
    }
    let ghost ws = views(inv.args@);
    let ghost start = old(shell).context_manager@;
    let mut i: usize = 0;
    while i < inv.args.len()
        invariant
            i <= inv.args.len(),
            ws == views(inv.args@),
            shell.wf(),
            !shell.interactive,
            shell.script_name@ == (if inv.mode == Mode::Script {
                inv.subject@
            } else {
                old(shell).script_name@
            }),
            shell.job_control == old(shell).job_control,
            shell.aliases == old(shell).aliases,
            shell.exit_status == old(shell).exit_status,
            positional_bound(shell.context_manager@, ws, i as int) == positional_bound(
                start,
                ws,
                0,
            ),
        decreases inv.args.len() - i,
    {
        crate::shell::set_input_args(shell, inv.args[i].as_str(), i + 1);
        i += 1;
    }
}

/// The manager after the words `ws[from..]` were bound in the environment
/// scope to the positional parameters `from + 1`, `from + 2` and so on.
pub open spec fn positional_bound(
    m: crate::context::ManagerView,
    ws: Seq<Seq<char>>,
    from: int,
) -> crate::context::ManagerView
    decreases ws.len() - from,
{
    if from >= ws.len() || from < 0 {
        m
    } else {
        positional_bound(
            m.assigned_at(crate::shell::positional((from + 1) as nat, ws[from]), 0),
            ws,
            from + 1,
        )
    }
}

} // verus!

//! The built-ins: what each one makes of its arguments, what it changes in
//! the shell, and what it leaves for the caller to do to the world outside.

use crate::ast::{suffix_words, SimpleCommand};
use crate::context::{law_write_undone, ManagerView, VarView};
use crate::eval::Flow;
use crate::expand::prefix_assignments;
use crate::jobs::{real_pids, JobControl, JobId, JobTableView, JobView};
use crate::shell::{alias_lines, Shell};
use crate::text::{
    assignment_name, assignment_value, chars_of, decimal, has_char, lemma_decimal_digits,
    lemma_digits_assignment, parse_i32, parse_int, push_decimal, push_str, split_assignment,
    str_contains, str_eq, string_of_range, views,
};
use vstd::prelude::*;

verus! {

/// Why a built-in gave up.
#[derive(Clone, Copy, Debug, PartialEq, Eq, Structural)]
pub enum BuiltinError {
    /// `cd` without an argument, and no `HOME` to go to.
    NoHome,
    /// An argument that should be a number is none.
    BadNumber,
    /// `fg` or `bg` without an argument.
    FgbgNeedsArgument,
    /// No job holds the process.
    NoJobWithPid,
    /// No job has the number.
    NoJobWithJid,
    /// `unalias` without an argument.
    UnaliasNeedsArgument,
    /// `unalias` with more than one argument.
    UnaliasTooMany,
    /// `export context` without an argument, or without a name to export as.
    ExportContextNeedsArgument,
    /// `unset` without an argument.
    UnsetNeedsArgument,
    /// `unset` with an option it does not know.
    UnsetInvalidOption,
    /// `readonly` without an argument.
    ReadonlyNeedsArgument,
    /// `readonly` with an option it does not know.
    ReadonlyInvalidOption,
    /// `exec` without a command.
    ExecNeedsArgument,
    /// `exec -a` without a name and a command.
    ExecRenameNeedsArgument,
    /// `source` without a file.
    SourceNeedsArgument,
    /// `eval` without a text.
    EvalNeedsArgument,
    /// The command is no built-in.
    NotImplemented,
}

impl BuiltinError {
    /// The words that tell of the error.
    pub open spec fn spec_message(self) -> Seq<char> {
        match self {
            BuiltinError::NoHome => "cd: HOME not set"@,
            BuiltinError::BadNumber => "numeric argument required"@,
            BuiltinError::FgbgNeedsArgument => "fgbg needs an argument"@,
            BuiltinError::NoJobWithPid => "No job with that pid"@,
            BuiltinError::NoJobWithJid => "No job with that jid"@,
            BuiltinError::UnaliasNeedsArgument => "unalias needs an argument"@,
            BuiltinError::UnaliasTooMany => "unalias only takes one argument"@,
            BuiltinError::ExportContextNeedsArgument => "export context needs an argument"@,
            BuiltinError::UnsetNeedsArgument => "unset needs an argument"@,
            BuiltinError::UnsetInvalidOption => "unset: invalid option"@,
            BuiltinError::ReadonlyNeedsArgument => "readonly needs an argument"@,
            BuiltinError::ReadonlyInvalidOption => "readonly: invalid option"@,
            BuiltinError::ExecNeedsArgument => "exec needs an argument"@,
            BuiltinError::ExecRenameNeedsArgument => "exec -a needs an argument"@,
            BuiltinError::SourceNeedsArgument => "source needs an argument"@,
            BuiltinError::EvalNeedsArgument => "eval needs an argument"@,
            BuiltinError::NotImplemented => "Not implemented"@,
        }
    }

    /// The words that tell of the error.
    pub fn message(&self) -> (r: &'static str)
        ensures
            r@ == self.spec_message(),
    {
        match self {
            BuiltinError::NoHome => "cd: HOME not set",
            BuiltinError::BadNumber => "numeric argument required",
            BuiltinError::FgbgNeedsArgument => "fgbg needs an argument",
            BuiltinError::NoJobWithPid => "No job with that pid",
            BuiltinError::NoJobWithJid => "No job with that jid",
            BuiltinError::UnaliasNeedsArgument => "unalias needs an argument",
            BuiltinError::UnaliasTooMany => "unalias only takes one argument",
            BuiltinError::ExportContextNeedsArgument => "export context needs an argument",
            BuiltinError::UnsetNeedsArgument => "unset needs an argument",
            BuiltinError::UnsetInvalidOption => "unset: invalid option",
            BuiltinError::ReadonlyNeedsArgument => "readonly needs an argument",
            BuiltinError::ReadonlyInvalidOption => "readonly: invalid option",
            BuiltinError::ExecNeedsArgument => "exec needs an argument",
            BuiltinError::ExecRenameNeedsArgument => "exec -a needs an argument",
            BuiltinError::SourceNeedsArgument => "source needs an argument",
            BuiltinError::EvalNeedsArgument => "eval needs an argument",
            BuiltinError::NotImplemented => "Not implemented",
        }
    }
}

/// What a built-in leaves for its caller to do.
#[derive(Debug)]
pub enum Effect {
    /// Nothing.
    Nothing,
    /// Make this directory the working directory.
    ChangeDirectory(String),
    /// Save the history and end the process with this status.
    Exit(i32),
    /// Write this text to the standard output.
    Print(String),
    /// Write this text to the standard error.
    Diagnostic(String),
    /// Write the working directory to the standard output.
    PrintWorkingDirectory,
    /// Write the environment of the process to the standard output.
    PrintEnvironment,
    /// Write this line, send the signal to continue to these processes, and
    /// wait for the job if `wait` says so.
    Resume { job: JobId, pids: Vec<i32>, wait: bool, line: String },
    /// Put these variables into the environment of the process.
    Export(Vec<(String, String)>),
    /// Evaluate this file in a new scope, pop the scope and export it under
    /// this namespace.
    ExportFile { namespace: String, file: String },
    /// Replace the process by this command with these arguments; with
    /// `clear_env` its environment is empty.
    Exec { clear_env: bool, command: String, argv: Vec<String> },
    /// Read this file and evaluate it in the current scope. With
    /// `search_path` the file is looked for on the search path first.
    /// Afterwards `leave_source` puts back what `saved` holds: what the
    /// positional parameters `1`, `2` and so on held before.
    Source { file: String, search_path: bool, saved: Vec<Option<String>> },
    /// Parse this text and evaluate it in the current scope.
    Eval(String),
    /// Write the readonly variables to the standard output, or the readonly
    /// functions, or the readonly variables of the scope exported under the
    /// namespace.
    ListReadonly { kind: Flags, namespace: Option<String> },
}

/// The number of words after the name of a command.
fn word_count(command: &SimpleCommand) -> (n: usize)
    ensures
        n == suffix_words(*command).len(),
{
    match &command.suffix {
        Some(s) => s.word.len(),
        None => 0,
    }
}

/// Word `i` after the name of a command.
fn word(command: &SimpleCommand, i: usize) -> (w: &String)
    requires
        i < suffix_words(*command).len(),
    ensures
        w@ == suffix_words(*command)[i as int],
{
    &command.suffix.as_ref().unwrap().word[i]
}

/// What `cd` answers. The directory to go to is the first argument, or the
/// value of `HOME` if there is none; without both it is an error.
pub open spec fn cd_answer(m: ManagerView, ws: Seq<Seq<char>>) -> Result<Seq<char>, BuiltinError> {
    if ws.len() > 0 {
        Ok(ws[0])
    } else {
        match m.lookup_var("HOME"@) {
            Some(v) => Ok(v.value),
            None => Err(BuiltinError::NoHome),
        }
    }
}

/// The contract of `change_directory`: what holds of its answer, and of the shell before
/// and after it where it takes one.
pub open spec fn cd_done(before: Shell, command: SimpleCommand, r: Result<Effect, BuiltinError>) -> bool {
    &&& (match cd_answer(before.context_manager@, suffix_words(command)) {
            Ok(dir) => r matches Ok(Effect::ChangeDirectory(d)) && d@ == dir,
            Err(e) => r == Err::<Effect, BuiltinError>(e),
        })
}

/// The built-in `cd`: see `cd_answer`. The shell is not changed.
pub fn change_directory(shell: &Shell, command: &SimpleCommand) -> (r: Result<Effect, BuiltinError>)
    requires
        shell.wf(),
    ensures
        cd_done(*shell, *command, r),
{
    if word_count(command) > 0 {
        Ok(Effect::ChangeDirectory(word(command, 0).clone()))
    } else {
        match shell.context_manager.value_of("HOME") {
            Some(v) => Ok(Effect::ChangeDirectory(v)),
            None => Err(BuiltinError::NoHome),
        }
    }
}

/// The status that `exit` and `return` name: the first argument as a number,
/// or the exit status of the command that ran last if there is no argument.
pub open spec fn status_argument(exit: i32, ws: Seq<Seq<char>>) -> Result<i32, BuiltinError> {
    if ws.len() == 0 {
        Ok(exit)
    } else {
        match parse_int(ws[0]) {
            Some(n) => Ok(n as i32),
            None => Err(BuiltinError::BadNumber),
        }
    }
}

fn read_status(exit: i32, command: &SimpleCommand) -> (r: Result<i32, BuiltinError>)
    ensures
        r == status_argument(exit, suffix_words(*command)),
{
    if word_count(command) == 0 {
        Ok(exit)
    } else {
        match parse_i32(word(command, 0).as_str()) {
            Some(n) => Ok(n),
            None => Err(BuiltinError::BadNumber),
        }
    }
}

/// The contract of `quit`: what holds of its answer, and of the shell before
/// and after it where it takes one.
pub open spec fn quit_done(before: Shell, after: Shell, command: SimpleCommand, r: Result<Effect, BuiltinError>) -> bool {
    &&& (match status_argument(before.exit_status, suffix_words(command)) {
            Ok(n) => {
                &&& r matches Ok(Effect::Exit(code)) && code == n
                &&& after == (Shell { exit_status: n, flow: Flow::Exit, ..before })
            },
            Err(e) => r == Err::<Effect, BuiltinError>(e) && after == before,
        })
}

/// The built-in `exit`: the shell is to end with the status that the
/// argument names, and the flow of evaluation becomes `Exit`. An argument
/// that is no number is an error and changes nothing.
pub fn quit(shell: &mut Shell, command: &SimpleCommand) -> (r: Result<Effect, BuiltinError>)
    ensures
        quit_done(*old(shell), *final(shell), *command, r),
{
    match read_status(shell.exit_status, command) {
        Ok(n) => {
            shell.exit_status = n;
            shell.flow = Flow::Exit;
            Ok(Effect::Exit(n))
        },
        Err(e) => Err(e),
    }
}

/// The contract of `return_cmd`: what holds of its answer, and of the shell before
/// and after it where it takes one.
pub open spec fn return_done(before: Shell, after: Shell, command: SimpleCommand, r: Result<Effect, BuiltinError>) -> bool {
    &&& (match status_argument(before.exit_status, suffix_words(command)) {
            Ok(n) => {
                &&& r matches Ok(Effect::Nothing)
                &&& after == (Shell { exit_status: n, flow: Flow::Return, ..before })
            },
            Err(e) => r == Err::<Effect, BuiltinError>(e) && after == before,
        })
}

/// The built-in `return`: the exit status becomes the status that the
/// argument names, and the flow of evaluation becomes `Return`. The process
/// goes on.
pub fn return_cmd(shell: &mut Shell, command: &SimpleCommand) -> (r: Result<Effect, BuiltinError>)
    ensures
        return_done(*old(shell), *final(shell), *command, r),
{
    match read_status(shell.exit_status, command) {
        Ok(n) => {
            shell.exit_status = n;
            shell.flow = Flow::Return;
            Ok(Effect::Nothing)
        },
        Err(e) => Err(e),
    }
}

/// The contract of `jobs`: what holds of its answer, and of the shell before
/// and after it where it takes one.
pub open spec fn jobs_done(before: Shell, r: Result<Effect, BuiltinError>) -> bool {
    &&& (r matches Ok(Effect::Print(text)) && text@ == crate::jobs::listing(
            before.job_control@.jobs,
            crate::shell::job_marker(before.context_manager@),
            0,
        ))
}

/// The built-in `jobs`: the listing of the jobs is to be printed.
pub fn jobs(shell: &Shell) -> (r: Result<Effect, BuiltinError>)
    requires
        shell.wf(),
    ensures
        jobs_done(*shell, r),
{
    Ok(Effect::Print(crate::shell::display_jobs(shell)))
}

/// The built-in `pwd`: the working directory is to be printed.
pub fn pwd() -> (r: Result<Effect, BuiltinError>)
    ensures
        r matches Ok(Effect::PrintWorkingDirectory),
{
    Ok(Effect::PrintWorkingDirectory)
}

/// The job that the argument of `fg` and `bg` names: `%N` names job `N`, and
/// `N` names the job that holds process `N`.
pub open spec fn job_argument(t: JobTableView, w: Seq<char>) -> Result<usize, BuiltinError> {
    if w.len() > 0 && w[0] == '%' {
        match parse_int(w.subrange(1, w.len() as int)) {
            Some(n) => if n >= 0 && t.has_job(n as usize) {
                Ok(n as usize)
            } else {
                Err(BuiltinError::NoJobWithJid)
            },
            None => Err(BuiltinError::BadNumber),
        }
    } else {
        match parse_int(w) {
            Some(n) => if n >= 0 && t.pids.contains_key(n as i32) {
                Ok(t.pids[n as i32])
            } else {
                Err(BuiltinError::NoJobWithPid)
            },
            None => Err(BuiltinError::BadNumber),
        }
    }
}

fn read_job(jobs: &JobControl, w: &str) -> (r: Result<usize, BuiltinError>)
    requires
        jobs.wf(),
    ensures
        r == job_argument(jobs@, w@),
        r matches Ok(id) ==> jobs@.has_job(id),
{
    let v = chars_of(w);
    if v.len() > 0 && v[0] == '%' {
        let rest = string_of_range(&v, 1, v.len());
        match parse_i32(rest.as_str()) {
            Some(n) => {
                if n >= 0 && jobs.job_by_id(n as usize).is_some() {
                    Ok(n as usize)
                } else {
                    Err(BuiltinError::NoJobWithJid)
                }
            },
            None => Err(BuiltinError::BadNumber),
        }
    } else {
        match parse_i32(w) {
            Some(n) => {
                if n < 0 {
                    return Err(BuiltinError::NoJobWithPid);
                }
                match jobs.job_by_pid(n) {
                    Some(j) => {
                        proof {
                            crate::jobs::lemma_pid_has_job(jobs@, n);
                        }
                        Ok(j.job_id)
                    },
                    None => {
                        proof {
                            if jobs@.pids.contains_key(n) {
                                crate::jobs::lemma_pid_has_job(jobs@, n);
                            }
                        }
                        Err(BuiltinError::NoJobWithPid)
                    },
                }
            },
            None => Err(BuiltinError::BadNumber),
        }
    }
}

/// The line that `fg` and `bg` show: the number of the job in brackets and
/// the line of the job.
pub open spec fn resume_line(j: JobView) -> Seq<char> {
    "["@ + decimal(j.job_id as nat) + "] "@ + j.line()
}

/// The contract of `fgbg`: what holds of its answer, and of the shell before
/// and after it where it takes one.
pub open spec fn fgbg_done(before: Shell, after: Shell, command: SimpleCommand, r: Result<Effect, BuiltinError>) -> bool {
    &&& (after == (Shell { job_control: after.job_control, ..before }))
    &&& (suffix_words(command).len() == 0 ==> r == Err::<Effect, BuiltinError>(
            BuiltinError::FgbgNeedsArgument,
        ) && after.job_control@ == before.job_control@)
    &&& (suffix_words(command).len() > 0 ==> match job_argument(
            before.job_control@,
            suffix_words(command)[0],
        ) {
            Err(e) => {
                &&& r == Err::<Effect, BuiltinError>(e)
                &&& after.job_control@ == before.job_control@
            },
            Ok(id) => {
                let background = command.name@ == "bg"@;
                &&& after.job_control@ == before.job_control@.resumed(id, background)
                &&& r matches Ok(Effect::Resume { job, pids, wait, line })
                &&& job == id
                &&& pids@ == real_pids(before.job_control@.job(id)->0.processes, 0)
                &&& wait == !background
                &&& line@ == resume_line(after.job_control@.job(id)->0)
            },
        })
}

/// The built-ins `fg` and `bg`. The job that the first argument names runs
/// again, in the background for `bg` and in the foreground for any other
/// name. Its processes are to be sent the signal to continue, its line is to
/// be shown, and in the foreground it is to be waited for. Without an
/// argument, and for an argument that names no job, it is an error and the
/// shell stays as it is.
pub fn fgbg(shell: &mut Shell, command: &SimpleCommand) -> (r: Result<Effect, BuiltinError>)
    requires
        old(shell).wf(),
    ensures
        final(shell).wf(),
        fgbg_done(*old(shell), *final(shell), *command, r),
{
    if word_count(command) == 0 {
        return Err(BuiltinError::FgbgNeedsArgument);
    }
    let id = match read_job(&shell.job_control, word(command, 0).as_str()) {
        Ok(id) => id,
        Err(e) => {
            return Err(e);
        },
    };
    let background = str_eq(command.name.as_str(), "bg");
    let pids = match shell.job_control.resume_job(id, background) {
        Some(p) => p,
        None => {
            return Err(BuiltinError::NoJobWithJid);
        },
    };
    let mut line = String::new();
    push_str(&mut line, "[");
    push_decimal(&mut line, id as u64);
    push_str(&mut line, "] ");
    match shell.job_control.job_by_id(id) {
        Some(j) => {
            let text = j.to_string();
            push_str(&mut line, text.as_str());
            proof {
                crate::jobs::lemma_resumed_job(old(shell).job_control@, id, background);
                crate::jobs::lemma_job_pos(old(shell).job_control@.jobs, id, 0);
                assert(j@.job_id == id);
                assert(line@ =~= resume_line(j@));
            }
        },
        None => {
            proof {
                crate::jobs::lemma_resumed_job(old(shell).job_control@, id, background);
            }
        },
    }
    Ok(Effect::Resume { job: id, pids, wait: !background, line })
}

/// The aliases after the definitions among `ws[from..]` were taken, in
/// order: a word with exactly one `=` defines an alias, any other word
/// defines nothing.
pub open spec fn aliases_defined(a: Map<Seq<char>, Seq<char>>, ws: Seq<Seq<char>>, from: int) -> Map<
    Seq<char>,
    Seq<char>,
>
    decreases ws.len() - from,
{
    if from >= ws.len() {
        a
    } else {
        aliases_defined(crate::shell::alias_defined(a, ws[from]), ws, from + 1)
    }
}

/// The contract of `alias`: what holds of its answer, and of the shell before
/// and after it where it takes one.
pub open spec fn alias_done(before: Shell, after: Shell, command: SimpleCommand, r: Result<Effect, BuiltinError>) -> bool {
    &&& (crate::shell::same_but_aliases(before, after))
    &&& (suffix_words(command).len() == 0 || suffix_words(command)[0] == "-p"@ ==> {
            &&& after.aliases@ == before.aliases@
            &&& r matches Ok(Effect::Print(text)) && text@ == alias_lines(
                before.aliases.names(),
                before.aliases.values(),
                0,
            )
        })
    &&& (!(suffix_words(command).len() == 0 || suffix_words(command)[0] == "-p"@) ==> {
            &&& after.aliases@ == aliases_defined(
                before.aliases@,
                suffix_words(command),
                0,
            )
            &&& r matches Ok(Effect::Nothing)
        })
}

/// The built-in `alias`. Without arguments, and with `-p` as the first one,
/// the aliases are to be printed. Any other arguments are definitions
/// `NAME=TEXT`, which are taken in order.
pub fn alias(shell: &mut Shell, command: &SimpleCommand) -> (r: Result<Effect, BuiltinError>)
    requires
        old(shell).wf(),
    ensures
        final(shell).wf(),
        alias_done(*old(shell), *final(shell), *command, r),
{
    let n = word_count(command);
    if n == 0 || str_eq(word(command, 0).as_str(), "-p") {
        return Ok(Effect::Print(crate::shell::display_aliases(shell)));
    }
    let mut i: usize = 0;
    while i < n
        invariant
            i <= n == suffix_words(*command).len(),
            shell.wf(),
            crate::shell::same_but_aliases(*old(shell), *shell),
            aliases_defined(shell.aliases@, suffix_words(*command), i as int) == aliases_defined(
                old(shell).aliases@,
                suffix_words(*command),
                0,
            ),
        decreases n - i,
    {
        crate::shell::define_alias(shell, word(command, i).as_str());
        i += 1;
    }
    Ok(Effect::Nothing)
}

/// The contract of `unalias`: what holds of its answer, and of the shell before
/// and after it where it takes one.
pub open spec fn unalias_done(before: Shell, after: Shell, command: SimpleCommand, r: Result<Effect, BuiltinError>) -> bool {
    &&& (crate::shell::same_but_aliases(before, after))
    &&& (({
            let ws = suffix_words(command);
            if ws.len() == 0 {
                &&& r == Err::<Effect, BuiltinError>(BuiltinError::UnaliasNeedsArgument)
                &&& after.aliases@ == before.aliases@
            } else if ws.len() > 1 {
                &&& r == Err::<Effect, BuiltinError>(BuiltinError::UnaliasTooMany)
                &&& after.aliases@ == before.aliases@
            } else {
                &&& r matches Ok(Effect::Nothing)
                &&& after.aliases@ == (if ws[0] == "-a"@ {
                    Map::<Seq<char>, Seq<char>>::empty()
                } else {
                    before.aliases@.remove(ws[0])
                })
            }
        }))
}

/// The built-in `unalias`. It takes one argument: `-a` removes every alias,
/// any other word the alias of that name.
pub fn unalias(shell: &mut Shell, command: &SimpleCommand) -> (r: Result<Effect, BuiltinError>)
    requires
        old(shell).wf(),
    ensures
        final(shell).wf(),
        unalias_done(*old(shell), *final(shell), *command, r),
{
    let n = word_count(command);
    if n == 0 {
        return Err(BuiltinError::UnaliasNeedsArgument);
    }
    if n > 1 {
        return Err(BuiltinError::UnaliasTooMany);
    }
    if str_eq(word(command, 0).as_str(), "-a") {
        crate::shell::clear_aliases(shell);
    } else {
        crate::shell::remove_alias(shell, word(command, 0).as_str());
    }
    Ok(Effect::Nothing)
}

/// The manager after the assignments `asg[from..]` were carried out, in
/// order.
pub open spec fn assigned_all(m: ManagerView, asg: Seq<Seq<char>>, from: int) -> ManagerView
    decreases asg.len() - from,
{
    if from >= asg.len() {
        m
    } else {
        assigned_all(m.assigned(asg[from]), asg, from + 1)
    }
}

/// The complaints about the assignments `asg[from..]` that meet a readonly
/// variable: for each, the name and `: readonly variable`, on a line.
pub open spec fn readonly_complaints(m: ManagerView, asg: Seq<Seq<char>>, from: int) -> Seq<char>
    decreases asg.len() - from,
{
    if from >= asg.len() {
        Seq::empty()
    } else {
        (if m.lookup_var(assignment_name(asg[from])) is Some && m.lookup_var(
            assignment_name(asg[from]),
        )->0.readonly {
            assignment_name(asg[from]) + ": readonly variable\n"@
        } else {
            Seq::empty()
        }) + readonly_complaints(m.assigned(asg[from]), asg, from + 1)
    }
}

/// The contract of `assignment`: what holds of its answer, and of the shell before
/// and after it where it takes one.
pub open spec fn assignment_done(before: Shell, after: Shell, command: SimpleCommand, r: Result<Effect, BuiltinError>) -> bool {
    &&& (after == (Shell { context_manager: after.context_manager, ..before }))
    &&& (after.context_manager@ == assigned_all(
            before.context_manager@,
            prefix_assignments(command),
            0,
        ))
    &&& (({
            let text = readonly_complaints(
                before.context_manager@,
                prefix_assignments(command),
                0,
            );
            if text.len() == 0 {
                r matches Ok(Effect::Nothing)
            } else {
                r matches Ok(Effect::Diagnostic(t)) && t@ == text
            }
        }))
}

/// The command that only assigns. Its assignments are carried out in order. An
/// assignment to a readonly variable changes nothing; it is complained
/// about, and the complaints are to be written to the standard error.
pub fn assignment(shell: &mut Shell, command: &SimpleCommand) -> (r: Result<Effect, BuiltinError>)
    requires
        old(shell).wf(),
    ensures
        final(shell).wf(),
        assignment_done(*old(shell), *final(shell), *command, r),
{
    let mut text = String::new();
    match &command.prefix {
        Some(p) => {
            let ghost asg = views(p.assignment@);
            let ghost start = shell.context_manager@;
            let mut i: usize = 0;
            assert(text@ + readonly_complaints(start, asg, 0) =~= readonly_complaints(
                start,
                asg,
                0,
            ));
            while i < p.assignment.len()
                invariant
                    i <= p.assignment.len(),
                    asg == views(p.assignment@),
                    start == old(shell).context_manager@,
                    shell.wf(),
                    *shell == (Shell { context_manager: shell.context_manager, ..*old(shell) }),
                    assigned_all(shell.context_manager@, asg, i as int) == assigned_all(
                        start,
                        asg,
                        0,
                    ),
                    text@ + readonly_complaints(shell.context_manager@, asg, i as int)
                        == readonly_complaints(start, asg, 0),
                decreases p.assignment.len() - i,
            {
                let set = p.assignment[i].as_str();
                let ghost m = shell.context_manager@;
                let ghost before = text@;
                let ghost rest = readonly_complaints(m.assigned(asg[i as int]), asg, i as int + 1);
                let (name, _value) = split_assignment(set);
                let hit = match shell.context_manager.get_var(name.as_str()) {
                    Some(v) => v.readonly,
                    None => false,
                };
                if hit {
                    push_str(&mut text, name.as_str());
                    push_str(&mut text, ": readonly variable\n");
                    assert((before + (name@ + ": readonly variable\n"@)) + rest =~= text@ + rest);
                } else {
                    assert(before + (Seq::<char>::empty() + rest) =~= before + rest);
                }
                shell.context_manager.add_var(set);
                i += 1;
            }
            assert(text@ + Seq::<char>::empty() =~= text@);
        },
        None => {},
    }
    if text.as_str().is_empty() {
        Ok(Effect::Nothing)
    } else {
        Ok(Effect::Diagnostic(text))
    }
}

/// The contract of `eval_cmd`: what holds of its answer, and of the shell before
/// and after it where it takes one.
pub open spec fn eval_done(command: SimpleCommand, r: Result<Effect, BuiltinError>) -> bool {
    &&& (suffix_words(command).len() == 0 ==> r == Err::<Effect, BuiltinError>(
            BuiltinError::EvalNeedsArgument,
        ))
    &&& (suffix_words(command).len() > 0 ==> {
            &&& r matches Ok(Effect::Eval(text))
            &&& text@ == suffix_words(command)[0] + "\n"@
        })
}

/// The built-in `eval`: the first argument and a line feed are to be parsed
/// and evaluated in the current scope.
pub fn eval_cmd(command: &SimpleCommand) -> (r: Result<Effect, BuiltinError>)
    ensures
        eval_done(*command, r),
{
    if word_count(command) == 0 {
        return Err(BuiltinError::EvalNeedsArgument);
    }
    let mut text = word(command, 0).clone();
    push_str(&mut text, "\n");
    Ok(Effect::Eval(text))
}

/// What `unset` removes.
#[derive(Clone, Copy, Debug, PartialEq, Eq, Structural)]
pub enum Flags {
    Variable,
    Function,
    Context,
}

/// The kind that an option of `unset` names, if it is one.
pub open spec fn unset_option(w: Seq<char>) -> Option<Flags> {
    if w == "-f"@ {
        Some(Flags::Function)
    } else if w == "-v"@ {
        Some(Flags::Variable)
    } else if w == "-c"@ {
        Some(Flags::Context)
    } else {
        None
    }
}

/// What `unset` makes of its arguments: the kind of thing to remove and its
/// name. The first argument may be one of the options `-f`, `-v` and `-c`;
/// any other word that begins with `-` is an error. The name follows.
pub open spec fn unset_request(ws: Seq<Seq<char>>) -> Result<(Flags, Seq<char>), BuiltinError> {
    if ws.len() == 0 {
        Err(BuiltinError::UnsetNeedsArgument)
    } else if ws[0].len() > 0 && ws[0][0] == '-' {
        match unset_option(ws[0]) {
            None => Err(BuiltinError::UnsetInvalidOption),
            Some(kind) => if ws.len() < 2 {
                Err(BuiltinError::UnsetNeedsArgument)
            } else {
                Ok((kind, ws[1]))
            },
        }
    } else {
        Ok((Flags::Variable, ws[0]))
    }
}

/// The manager after `unset` removed the thing of this kind and name.
pub open spec fn unset_applied(m: ManagerView, kind: Flags, name: Seq<char>) -> ManagerView {
    match kind {
        Flags::Variable => m.without_var(name),
        Flags::Function => m.without_function(name),
        Flags::Context => ManagerView { exported: m.exported.remove(name), ..m },
    }
}

/// Tells whether a word begins with `-`.
fn is_option(w: &str) -> (r: bool)
    ensures
        r == (w@.len() > 0 && w@[0] == '-'),
{
    let v = chars_of(w);
    v.len() > 0 && v[0] == '-'
}

/// The contract of `unset`: what holds of its answer, and of the shell before
/// and after it where it takes one.
pub open spec fn unset_done(before: Shell, after: Shell, command: SimpleCommand, r: Result<Effect, BuiltinError>) -> bool {
    &&& (after == (Shell { context_manager: after.context_manager, ..before }))
    &&& (match unset_request(suffix_words(command)) {
            Err(e) => {
                &&& r == Err::<Effect, BuiltinError>(e)
                &&& after.context_manager@ == before.context_manager@
            },
            Ok(req) => (r matches Ok(Effect::Nothing)) && after.context_manager@
                == unset_applied(before.context_manager@, req.0, req.1),
        })
}

/// The built-in `unset`: it removes a variable, a function with `-f`, or an
/// exported scope with `-c`. What is readonly stays. See `unset_request`.
pub fn unset(shell: &mut Shell, command: &SimpleCommand) -> (r: Result<Effect, BuiltinError>)
    requires
        old(shell).wf(),
    ensures
        final(shell).wf(),
        unset_done(*old(shell), *final(shell), *command, r),
{
    let n = word_count(command);
    if n == 0 {
        return Err(BuiltinError::UnsetNeedsArgument);
    }
    let first = word(command, 0).as_str();
    let mut kind = Flags::Variable;
    let mut pos: usize = 0;
    if is_option(first) {
        if str_eq(first, "-f") {
            kind = Flags::Function;
        } else if str_eq(first, "-v") {
            kind = Flags::Variable;
        } else if str_eq(first, "-c") {
            kind = Flags::Context;
        } else {
            return Err(BuiltinError::UnsetInvalidOption);
        }
        if n < 2 {
            return Err(BuiltinError::UnsetNeedsArgument);
        }
        pos = 1;
    }
    let name = word(command, pos).as_str();
    match kind {
        Flags::Variable => shell.context_manager.remove_var(name),
        Flags::Function => shell.context_manager.remove_function(name),
        Flags::Context => shell.context_manager.remove_context(name),
    }
    Ok(Effect::Nothing)
}

/// The texts of a sequence of optional strings.
pub open spec fn option_views(v: Seq<Option<String>>) -> Seq<Option<Seq<char>>> {
    Seq::new(
        v.len(),
        |i: int|
            match v[i] {
                Some(s) => Some(s@),
                None => None,
            },
    )
}

/// The value of a variable, if there is one.
pub open spec fn value_in(v: Option<VarView>) -> Option<Seq<char>> {
    match v {
        Some(x) => Some(x.value),
        None => None,
    }
}

/// What the positional parameters `from`, `from + 1` and so on hold, each
/// taken when `bound_arguments` is about to bind it.
pub open spec fn saved_arguments(m: ManagerView, ws: Seq<Seq<char>>, from: int) -> Seq<
    Option<Seq<char>>,
>
    decreases ws.len() - from,
{
    if from >= ws.len() || from < 0 {
        Seq::empty()
    } else {
        seq![value_in(m.lookup_var(decimal(from as nat)))] + saved_arguments(
            m.assigned(crate::shell::positional(from as nat, ws[from])),
            ws,
            from + 1,
        )
    }
}

/// The manager after positional parameter `index` was given the value that
/// it held before, or unset if it held none.
pub open spec fn put_back(m: ManagerView, index: nat, held: Option<Seq<char>>) -> ManagerView {
    match held {
        Some(value) => m.assigned(crate::shell::positional(index, value)),
        None => m.without_var(decimal(index)),
    }
}

/// The manager after the positional parameters `from + j`, `from + j + 1`
/// and so on were put back to what `saved[j..]` holds, the last one first.
pub open spec fn restored_arguments(
    m: ManagerView,
    saved: Seq<Option<Seq<char>>>,
    from: int,
    j: int,
) -> ManagerView
    decreases saved.len() - j,
{
    if j < 0 || j >= saved.len() || from < 0 {
        m
    } else {
        put_back(restored_arguments(m, saved, from, j + 1), (from + j) as nat, saved[j])
    }
}

/// What `source` leaves. Without an argument it is an error and nothing
/// changes. Else the arguments after the first are bound to the positional
/// parameters, and the answer names the file, says whether the search path
/// is to be tried, and holds what the positional parameters held before.
pub open spec fn source_done(
    before: Shell,
    after: Shell,
    command: SimpleCommand,
    r: Result<Effect, BuiltinError>,
) -> bool {
    &&& (after == (Shell { context_manager: after.context_manager, ..before }))
    &&& (suffix_words(command).len() == 0 ==> r == Err::<Effect, BuiltinError>(
        BuiltinError::SourceNeedsArgument,
    ) && after.context_manager@ == before.context_manager@)
    &&& (suffix_words(command).len() > 0 ==> {
        let ws = suffix_words(command);
        &&& after.context_manager@ == bound_arguments(before.context_manager@, ws, 1)
        &&& r matches Ok(Effect::Source { file, search_path, saved })
        &&& file@ == ws[0]
        &&& search_path == !has_char(ws[0], '/')
        &&& option_views(saved@) == saved_arguments(before.context_manager@, ws, 1)
    })
}

/// The built-in `source` and `.`: the file that the first argument names is
/// to be read and evaluated in the current scope, with the further
/// arguments bound to the positional parameters `1`, `2` and so on for the
/// time of the evaluation. A name without `/` is looked for on the search
/// path first.
pub fn source(shell: &mut Shell, command: &SimpleCommand) -> (r: Result<Effect, BuiltinError>)
    requires
        old(shell).wf(),
    ensures
        final(shell).wf(),
        source_done(*old(shell), *final(shell), *command, r),
{
    let n = word_count(command);
    if n == 0 {
        return Err(BuiltinError::SourceNeedsArgument);
    }
    let ghost ws = suffix_words(*command);
    let ghost start = old(shell).context_manager@;
    let mut saved: Vec<Option<String>> = Vec::new();
    let mut i: usize = 1;
    assert(option_views(saved@) + saved_arguments(start, ws, 1) =~= saved_arguments(start, ws, 1));
    while i < n
        invariant
            1 <= i <= n == ws.len(),
            ws == suffix_words(*command),
            shell.wf(),
            *shell == (Shell { context_manager: shell.context_manager, ..*old(shell) }),
            start == old(shell).context_manager@,
            bound_arguments(shell.context_manager@, ws, i as int) == bound_arguments(start, ws, 1),
            option_views(saved@) + saved_arguments(shell.context_manager@, ws, i as int)
                == saved_arguments(start, ws, 1),
        decreases n - i,
    {
        let mut name = String::new();
        push_decimal(&mut name, i as u64);
        let ghost kept = option_views(saved@);
        let ghost now = shell.context_manager@;
        let held = shell.context_manager.value_of(name.as_str());
        let mut set = name;
        push_str(&mut set, "=");
        push_str(&mut set, word(command, i).as_str());
        saved.push(held);
        shell.context_manager.add_var(set.as_str());
        proof {
            let first = value_in(now.lookup_var(decimal(i as nat)));
            assert(option_views(saved@) =~= kept.push(first));
            assert(kept.push(first) + saved_arguments(shell.context_manager@, ws, i + 1) =~= kept
                + saved_arguments(now, ws, i as int));
        }
        i += 1;
    }
    assert(option_views(saved@) + Seq::<Option<Seq<char>>>::empty() =~= option_views(saved@));
    let file = word(command, 0).clone();
    let search_path = !str_contains(file.as_str(), '/');
    Ok(Effect::Source { file, search_path, saved })
}

/// Binding a positional parameter and putting back what it held changes
/// nothing.
proof fn lemma_put_back(m: ManagerView, index: nat, w: Seq<char>)
    requires
        m.wf(),
    ensures
        m.assigned(crate::shell::positional(index, w)).wf(),
        put_back(
            m.assigned(crate::shell::positional(index, w)),
            index,
            value_in(m.lookup_var(decimal(index))),
        ) == m,
{
    let name = decimal(index);
    lemma_decimal_digits(index);
    lemma_digits_assignment(name, w);
    law_write_undone(m, name, w);
    match m.lookup_var(name) {
        Some(v) => {
            lemma_digits_assignment(name, v.value);
        },
        None => {},
    }
}

/// Dropping the first of the saved values moves the others one place down.
proof fn lemma_restored_shift(
    m: ManagerView,
    first: Option<Seq<char>>,
    rest: Seq<Option<Seq<char>>>,
    from: int,
    j: int,
)
    requires
        0 <= from,
        0 <= j,
    ensures
        restored_arguments(m, seq![first] + rest, from, j + 1) == restored_arguments(
            m,
            rest,
            from + 1,
            j,
        ),
    decreases rest.len() - j,
{
    let all = seq![first] + rest;
    if j < rest.len() {
        lemma_restored_shift(m, first, rest, from, j + 1);
        assert(all[j + 1] == rest[j]);
    }
}

/// What `law_source_restores` says, from any positional parameter on.
proof fn lemma_source_restores(m: ManagerView, ws: Seq<Seq<char>>, from: int)
    requires
        m.wf(),
        0 <= from,
    ensures
        restored_arguments(bound_arguments(m, ws, from), saved_arguments(m, ws, from), from, 0)
            == m,
    decreases ws.len() - from,
{
    if from < ws.len() {
        let next = m.assigned(crate::shell::positional(from as nat, ws[from]));
        let first = value_in(m.lookup_var(decimal(from as nat)));
        let rest = saved_arguments(next, ws, from + 1);
        let bound = bound_arguments(m, ws, from);
        lemma_put_back(m, from as nat, ws[from]);
        lemma_source_restores(next, ws, from + 1);
        lemma_restored_shift(bound, first, rest, from, 0);
        assert((seq![first] + rest)[0] == first);
    }
}

/// When the evaluation of the file changes nothing, `leave_source` gives
/// back the variables as they were before `source`.
pub proof fn law_source_restores(m: ManagerView, ws: Seq<Seq<char>>)
    requires
        m.wf(),
    ensures
        restored_arguments(bound_arguments(m, ws, 1), saved_arguments(m, ws, 1), 1, 0) == m,
{
    lemma_source_restores(m, ws, 1);
}

/// Ends the evaluation of a file that `source` began: the positional
/// parameters `1`, `2` and so on get back what `saved` holds, the last one
/// first, and one that held nothing is unset.
pub fn leave_source(shell: &mut Shell, saved: &Vec<Option<String>>)
    requires
        old(shell).wf(),
    ensures
        final(shell).wf(),
        final(shell).context_manager@ == restored_arguments(
            old(shell).context_manager@,
            option_views(saved@),
            1,
            0,
        ),
        *final(shell) == (Shell { context_manager: final(shell).context_manager, ..*old(shell) }),
{
    let ghost start = old(shell).context_manager@;
    let ghost held = option_views(saved@);
    let mut j: usize = saved.len();
    while j > 0
        invariant
            j <= saved@.len(),
            held == option_views(saved@),
            shell.wf(),
            *shell == (Shell { context_manager: shell.context_manager, ..*old(shell) }),
            shell.context_manager@ == restored_arguments(start, held, 1, j as int),
        decreases j,
    {
        j -= 1;
        let mut name = String::new();
        push_decimal(&mut name, (j + 1) as u64);
        match &saved[j] {
            Some(value) => {
                let mut set = name;
                push_str(&mut set, "=");
                push_str(&mut set, value.as_str());
                shell.context_manager.add_var(set.as_str());
            },
            None => {
                shell.context_manager.remove_var(name.as_str());
            },
        }
    }
}

/// The manager after the words `ws[from..]` were bound to the positional
/// parameters `from`, `from + 1` and so on.
pub open spec fn bound_arguments(m: ManagerView, ws: Seq<Seq<char>>, from: int) -> ManagerView
    decreases ws.len() - from,
{
    if from >= ws.len() || from < 0 {
        m
    } else {
        bound_arguments(
            m.assigned(crate::shell::positional(from as nat, ws[from])),
            ws,
            from + 1,
        )
    }
}

/// The manager after word `w` of `export` was taken. A word `NAME=VALUE`
/// carries out the assignment in the environment scope. A name that reaches
/// a variable writes the variable into the environment scope; else a name
/// that reaches a function binds the function there; any other name changes
/// nothing.
pub open spec fn export_word(m: ManagerView, w: Seq<char>) -> ManagerView {
    if has_char(w, '=') {
        m.assigned_at(w, 0)
    } else {
        match m.lookup_var(w) {
            Some(v) => m.with_scope(
                0,
                m.stack[0].assigned(VarView { name: w, value: v.value, readonly: false }),
            ),
            None => match m.lookup_function(w) {
                Some(f) => m.with_scope(0, m.stack[0].with_function(w, f)),
                None => m,
            },
        }
    }
}

/// The variable that word `w` of `export` puts into the environment of the
/// process, if it puts one there.
pub open spec fn export_mirror(m: ManagerView, w: Seq<char>) -> Option<(Seq<char>, Seq<char>)> {
    if has_char(w, '=') {
        Some((assignment_name(w), assignment_value(w)))
    } else {
        match m.lookup_var(w) {
            Some(v) => Some((w, v.value)),
            None => None,
        }
    }
}

/// The manager after the words `ws[from..]` of `export` were taken, in order.
pub open spec fn exported_all(m: ManagerView, ws: Seq<Seq<char>>, from: int) -> ManagerView
    decreases ws.len() - from,
{
    if from >= ws.len() {
        m
    } else {
        exported_all(export_word(m, ws[from]), ws, from + 1)
    }
}

/// The variables that the words `ws[from..]` of `export` put into the
/// environment of the process, in order.
pub open spec fn mirrored_all(m: ManagerView, ws: Seq<Seq<char>>, from: int) -> Seq<
    (Seq<char>, Seq<char>),
>
    decreases ws.len() - from,
{
    if from >= ws.len() {
        Seq::empty()
    } else {
        (match export_mirror(m, ws[from]) {
            Some(p) => seq![p],
            None => Seq::empty(),
        }) + mirrored_all(export_word(m, ws[from]), ws, from + 1)
    }
}

/// What `export context` makes of its argument.
pub enum ContextExport {
    /// The current scope is exported under this namespace.
    Current(Seq<char>),
    /// The scope that the evaluation of a file leaves is exported.
    File(Seq<char>, Seq<char>),
    /// There is no name to export the current scope under.
    Nameless,
}

/// What `export context ARG` asks for. `NS=self` exports the current scope as
/// `NS`, and `NS=FILE` the scope of the file. `self` alone exports the
/// current scope under the value of its variable `0`; any other word names a
/// file and the namespace at once.
pub open spec fn context_export(m: ManagerView, arg: Seq<char>) -> ContextExport {
    if has_char(arg, '=') {
        if assignment_value(arg) == "self"@ {
            ContextExport::Current(assignment_name(arg))
        } else {
            ContextExport::File(assignment_name(arg), assignment_value(arg))
        }
    } else if arg == "self"@ {
        if m.stack.last().vars.contains_key("0"@) {
            ContextExport::Current(m.stack.last().vars["0"@].value)
        } else {
            ContextExport::Nameless
        }
    } else {
        ContextExport::File(arg, arg)
    }
}

/// What the built-in `export` does: see `export`.
pub open spec fn export_done(
    before: Shell,
    after: Shell,
    command: SimpleCommand,
    r: Result<Effect, BuiltinError>,
) -> bool {
    let ws = suffix_words(command);
    let m = before.context_manager@;
    &&& after == (Shell { context_manager: after.context_manager, ..before })
    &&& if ws.len() == 0 || ws[0] == "-p"@ {
        &&& r matches Ok(Effect::PrintEnvironment)
        &&& after.context_manager@ == m
    } else if ws[0] == "context"@ {
        if ws.len() < 2 {
            &&& r == Err::<Effect, BuiltinError>(BuiltinError::ExportContextNeedsArgument)
            &&& after.context_manager@ == m
        } else {
            match context_export(m, ws[1]) {
                ContextExport::Current(ns) => {
                    &&& r matches Ok(Effect::Nothing)
                    &&& after.context_manager@ == m.with_exported(ns, m.stack.last())
                },
                ContextExport::File(ns, f) => {
                    &&& r matches Ok(Effect::ExportFile { namespace, file })
                    &&& namespace@ == ns
                    &&& file@ == f
                    &&& after.context_manager@ == m
                },
                ContextExport::Nameless => {
                    &&& r == Err::<Effect, BuiltinError>(BuiltinError::ExportContextNeedsArgument)
                    &&& after.context_manager@ == m
                },
            }
        }
    } else {
        &&& r matches Ok(Effect::Export(vars))
        &&& crate::eval::pair_views(vars@) == mirrored_all(m, ws, 0)
        &&& after.context_manager@ == exported_all(m, ws, 0)
    }
}

/// The built-in `export`. Without arguments, or with `-p`, the environment
/// of the process is to be printed. After `context` it exports a scope under
/// a namespace: see `context_export`; the current scope is exported as it is
/// at this moment. Any other arguments are promoted to the environment
/// scope, and the variables among them are to be put into the environment
/// of the process: see `export_word` and `export_mirror`.
pub fn export(shell: &mut Shell, command: &SimpleCommand) -> (r: Result<Effect, BuiltinError>)
    requires
        old(shell).wf(),
    ensures
        final(shell).wf(),
        export_done(*old(shell), *final(shell), *command, r),
{
    let n = word_count(command);
    if n == 0 || str_eq(word(command, 0).as_str(), "-p") {
        return Ok(Effect::PrintEnvironment);
    }
    if str_eq(word(command, 0).as_str(), "context") {
        if n < 2 {
            return Err(BuiltinError::ExportContextNeedsArgument);
        }
        let arg = word(command, 1).as_str();
        if str_contains(arg, '=') {
            let (ns, target) = split_assignment(arg);
            if str_eq(target.as_str(), "self") {
                let copy = shell.context_manager.get_context().duplicate();
                shell.context_manager.add_context(ns.as_str(), copy);
                return Ok(Effect::Nothing);
            }
            return Ok(Effect::ExportFile { namespace: ns, file: target });
        }
        if str_eq(arg, "self") {
            let ns = match shell.context_manager.get_context().get_var("0") {
                Some(v) => v.value.clone(),
                None => {
                    return Err(BuiltinError::ExportContextNeedsArgument);
                },
            };
            let copy = shell.context_manager.get_context().duplicate();
            shell.context_manager.add_context(ns.as_str(), copy);
            return Ok(Effect::Nothing);
        }
        return Ok(Effect::ExportFile { namespace: arg.to_owned(), file: arg.to_owned() });
    }
    let ghost ws = suffix_words(*command);
    let ghost start = shell.context_manager@;
    let mut vars: Vec<(String, String)> = Vec::new();
    assert(crate::eval::pair_views(vars@) + mirrored_all(start, ws, 0) =~= mirrored_all(
        start,
        ws,
        0,
    ));
    let mut i: usize = 0;
    while i < n
        invariant
            i <= n == ws.len(),
            ws == suffix_words(*command),
            start == old(shell).context_manager@,
            shell.wf(),
            *shell == (Shell { context_manager: shell.context_manager, ..*old(shell) }),
            exported_all(shell.context_manager@, ws, i as int) == exported_all(start, ws, 0),
            crate::eval::pair_views(vars@) + mirrored_all(shell.context_manager@, ws, i as int)
                == mirrored_all(start, ws, 0),
        decreases n - i,
    {
        let w = word(command, i).as_str();
        let ghost m = shell.context_manager@;
        let ghost before = crate::eval::pair_views(vars@);
        let ghost rest = mirrored_all(export_word(m, ws[i as int]), ws, i as int + 1);
        if str_contains(w, '=') {
            let pair = split_assignment(w);
            let ghost item = (pair.0@, pair.1@);
            vars.push(pair);
            shell.context_manager.add_var_pos(w, 0);
            proof {
                assert(crate::eval::pair_views(vars@) =~= before.push(item));
                assert(before.push(item) + rest =~= before + (seq![item] + rest));
            }
        } else {
            match shell.context_manager.value_of(w) {
                Some(value) => {
                    let ghost item = (w@, value@);
                    vars.push((w.to_owned(), value.clone()));
                    shell.context_manager.set_in_scope(
                        0,
                        crate::context::Var { name: w.to_owned(), value, readonly: false },
                    );
                    proof {
                        assert(crate::eval::pair_views(vars@) =~= before.push(item));
                        assert(before.push(item) + rest =~= before + (seq![item] + rest));
                    }
                },
                None => {
                    match shell.context_manager.get_function(w) {
                        Some(f) => {
                            shell.context_manager.add_function_pos(w, f, 0);
                        },
                        None => {},
                    }
                    proof {
                        assert(before + (Seq::<(Seq<char>, Seq<char>)>::empty() + rest) =~= before
                            + rest);
                    }
                },
            }
        }
        i += 1;
    }
    assert(crate::eval::pair_views(vars@) + Seq::<(Seq<char>, Seq<char>)>::empty()
        =~= crate::eval::pair_views(vars@));
    Ok(Effect::Export(vars))
}

/// What `readonly` found in its options: the kind of thing it is about,
/// whether it is to list, and where its operand stands.
pub struct ReadonlyOptions {
    pub kind: Flags,
    pub print: bool,
    pub pos: int,
}

/// The options of `readonly` among `ws[pos..]`, read on from what was found
/// so far. The options are `-f`, `-v`, `-c` and `-p`; any other word that
/// begins with `-` is an error. The first other word ends the options.
pub open spec fn readonly_options(ws: Seq<Seq<char>>, pos: int, kind: Flags, print: bool) -> Result<
    ReadonlyOptions,
    BuiltinError,
>
    decreases ws.len() - pos,
{
    if pos >= ws.len() || !(ws[pos].len() > 0 && ws[pos][0] == '-') {
        Ok(ReadonlyOptions { kind: kind, print: print, pos: pos })
    } else if ws[pos] == "-f"@ {
        readonly_options(ws, pos + 1, Flags::Function, print)
    } else if ws[pos] == "-v"@ {
        readonly_options(ws, pos + 1, Flags::Variable, print)
    } else if ws[pos] == "-c"@ {
        readonly_options(ws, pos + 1, Flags::Context, print)
    } else if ws[pos] == "-p"@ {
        readonly_options(ws, pos + 1, kind, true)
    } else {
        Err(BuiltinError::ReadonlyInvalidOption)
    }
}

/// What the built-in `readonly` does: see `readonly`.
pub open spec fn readonly_done(
    before: Shell,
    after: Shell,
    command: SimpleCommand,
    r: Result<Effect, BuiltinError>,
) -> bool {
    let ws = suffix_words(command);
    let m = before.context_manager@;
    let same = after.context_manager@ == m;
    &&& after == (Shell { context_manager: after.context_manager, ..before })
    &&& if ws.len() == 0 {
        r == Err::<Effect, BuiltinError>(BuiltinError::ReadonlyNeedsArgument) && same
    } else {
        match readonly_options(ws, 0, Flags::Variable, false) {
            Err(e) => r == Err::<Effect, BuiltinError>(e) && same,
            Ok(o) => if o.print && o.kind != Flags::Context {
                &&& same
                &&& r matches Ok(Effect::ListReadonly { kind, namespace })
                &&& kind == o.kind
                &&& namespace is None
            } else if o.pos >= ws.len() {
                r == Err::<Effect, BuiltinError>(BuiltinError::ReadonlyNeedsArgument) && same
            } else if o.print {
                &&& same
                &&& r matches Ok(Effect::ListReadonly { kind, namespace })
                &&& kind == Flags::Context
                &&& namespace is Some
                &&& namespace->0@ == ws[o.pos]
            } else {
                &&& r matches Ok(Effect::Nothing)
                &&& after.context_manager@ == (if o.kind == Flags::Function {
                    m.function_readonly(ws[o.pos])
                } else if has_char(ws[o.pos], '=') {
                    m.assigned_readonly(ws[o.pos])
                } else {
                    m.marked_readonly(ws[o.pos])
                })
            },
        }
    }
}

/// The built-in `readonly`. After its options (see `readonly_options`) comes
/// one operand. With `-p` the readonly variables are to be listed, or the
/// readonly functions with `-f`, or the readonly variables of the exported
/// scope that the operand names with `-c`. Without `-p` the operand is made
/// readonly: a function with `-f`; else a variable, which an operand
/// `NAME=VALUE` writes first.
pub fn readonly(shell: &mut Shell, command: &SimpleCommand) -> (r: Result<Effect, BuiltinError>)
    requires
        old(shell).wf(),
    ensures
        final(shell).wf(),
        readonly_done(*old(shell), *final(shell), *command, r),
{
    let n = word_count(command);
    if n == 0 {
        return Err(BuiltinError::ReadonlyNeedsArgument);
    }
    let ghost ws = suffix_words(*command);
    let mut kind = Flags::Variable;
    let mut print = false;
    let mut pos: usize = 0;
    while pos < n && is_option(word(command, pos).as_str())
        invariant
            pos <= n == ws.len(),
            ws == suffix_words(*command),
            *shell == *old(shell),
            shell.wf(),
            readonly_options(ws, pos as int, kind, print) == readonly_options(
                ws,
                0,
                Flags::Variable,
                false,
            ),
        decreases n - pos,
    {
        let w = word(command, pos).as_str();
        if str_eq(w, "-f") {
            kind = Flags::Function;
        } else if str_eq(w, "-v") {
            kind = Flags::Variable;
        } else if str_eq(w, "-c") {
            kind = Flags::Context;
        } else if str_eq(w, "-p") {
            print = true;
        } else {
            return Err(BuiltinError::ReadonlyInvalidOption);
        }
        pos += 1;
    }
    let in_context = match kind {
        Flags::Context => true,
        _ => false,
    };
    if print && !in_context {
        return Ok(Effect::ListReadonly { kind, namespace: None });
    }
    if pos >= n {
        return Err(BuiltinError::ReadonlyNeedsArgument);
    }
    let operand = word(command, pos).as_str();
    if print {
        return Ok(Effect::ListReadonly { kind, namespace: Some(operand.to_owned()) });
    }
    match kind {
        Flags::Function => shell.context_manager.set_function_readonly(operand),
        _ => {
            if str_contains(operand, '=') {
                shell.context_manager.add_var_readonly(operand);
            } else {
                shell.context_manager.set_var_readonly(operand);
            }
        },
    }
    Ok(Effect::Nothing)
}

/// What `exec` is to run.
pub struct ExecRequest {
    pub clear_env: bool,
    pub command: Seq<char>,
    pub argv: Seq<Seq<char>>,
}

/// What `exec` makes of the words `ws[pos..]`, after the options that were
/// found so far. The options are `-c`, which clears the environment, `-l`,
/// which puts a `-` before the name that the program is shown, and `-a`,
/// whose next word is that name in place of the command. The first other
/// word is the command; the words after it are its arguments.
pub open spec fn exec_request(
    ws: Seq<Seq<char>>,
    pos: int,
    clear: bool,
    login: bool,
    name: Option<Seq<char>>,
) -> Result<ExecRequest, BuiltinError>
    decreases ws.len() - pos,
{
    if pos >= ws.len() || pos < 0 {
        if name is Some {
            Err(BuiltinError::ExecRenameNeedsArgument)
        } else {
            Err(BuiltinError::ExecNeedsArgument)
        }
    } else if ws[pos] == "-c"@ {
        exec_request(ws, pos + 1, true, login, name)
    } else if ws[pos] == "-l"@ {
        exec_request(ws, pos + 1, clear, true, name)
    } else if ws[pos] == "-a"@ {
        if pos + 1 >= ws.len() {
            Err(BuiltinError::ExecRenameNeedsArgument)
        } else {
            exec_request(ws, pos + 2, clear, login, Some(ws[pos + 1]))
        }
    } else {
        let shown = match name {
            Some(n) => n,
            None => ws[pos],
        };
        Ok(
            ExecRequest {
                clear_env: clear,
                command: ws[pos],
                argv: seq![if login {
                    "-"@ + shown
                } else {
                    shown
                }] + ws.subrange(pos + 1, ws.len() as int),
            },
        )
    }
}

/// The contract of `exec_cmd`: what holds of its answer, and of the shell before
/// and after it where it takes one.
pub open spec fn exec_done(command: SimpleCommand, r: Result<Effect, BuiltinError>) -> bool {
    &&& (match exec_request(suffix_words(command), 0, false, false, None) {
            Err(e) => r == Err::<Effect, BuiltinError>(e),
            Ok(req) => {
                &&& r matches Ok(Effect::Exec { clear_env, command: program, argv })
                &&& clear_env == req.clear_env
                &&& program@ == req.command
                &&& views(argv@) == req.argv
            },
        })
}

/// The built-in `exec`: the process is to be replaced by the command that
/// the arguments name: see `exec_request`. The shell is not changed.
pub fn exec_cmd(command: &SimpleCommand) -> (r: Result<Effect, BuiltinError>)
    ensures
        exec_done(*command, r),
{
    let n = word_count(command);
    let ghost ws = suffix_words(*command);
    let mut clear = false;
    let mut login = false;
    let mut name: Option<String> = None;
    let mut pos: usize = 0;
    while pos < n
        invariant
            pos <= n == ws.len(),
            ws == suffix_words(*command),
            exec_request(
                ws,
                pos as int,
                clear,
                login,
                match name {
                    Some(s) => Some(s@),
                    None => None,
                },
            ) == exec_request(ws, 0, false, false, None),
        decreases n - pos,
    {
        let w = word(command, pos).as_str();
        if str_eq(w, "-c") {
            clear = true;
            pos += 1;
        } else if str_eq(w, "-l") {
            login = true;
            pos += 1;
        } else if str_eq(w, "-a") {
            if pos + 1 >= n {
                return Err(BuiltinError::ExecRenameNeedsArgument);
            }
            name = Some(word(command, pos + 1).clone());
            pos += 2;
        } else {
            let program = word(command, pos).clone();
            let mut shown = String::new();
            if login {
                push_str(&mut shown, "-");
            }
            match &name {
                Some(s) => push_str(&mut shown, s.as_str()),
                None => push_str(&mut shown, w),
            }
            let mut argv: Vec<String> = Vec::new();
            argv.push(shown);
            let ghost head = views(argv@);
            let mut k: usize = pos + 1;
            while k < n
                invariant
                    pos < k <= n == ws.len(),
                    ws == suffix_words(*command),
                    views(argv@) == head + ws.subrange(pos as int + 1, k as int),
                decreases n - k,
            {
                let ghost before = views(argv@);
                argv.push(word(command, k).clone());
                assert(views(argv@) =~= before.push(ws[k as int]));
                assert(ws.subrange(pos as int + 1, k as int + 1) =~= ws.subrange(
                    pos as int + 1,
                    k as int,
                ).push(ws[k as int]));
                k += 1;
            }
            proof {
                assert(head =~= seq![head[0]]);
                assert(Seq::<char>::empty() + head[0] =~= head[0]);
            }
            return Ok(Effect::Exec { clear_env: clear, command: program, argv });
        }
    }
    match name {
        Some(_) => Err(BuiltinError::ExecRenameNeedsArgument),
        None => Err(BuiltinError::ExecNeedsArgument),
    }
}

/// What the built-in that a command names leaves: the command is handed to
/// the built-in of its name, and a command that names none is an error that
/// changes nothing.
pub open spec fn builtin_done(
    before: Shell,
    after: Shell,
    command: SimpleCommand,
    r: Result<Effect, BuiltinError>,
) -> bool {
    let name = command.name@;
    if name == "cd"@ {
        cd_done(before, command, r) && after == before
    } else if name == "exit"@ {
        quit_done(before, after, command, r)
    } else if name == "return"@ {
        return_done(before, after, command, r)
    } else if name == "jobs"@ {
        jobs_done(before, r) && after == before
    } else if name == "fg"@ || name == "bg"@ {
        fgbg_done(before, after, command, r)
    } else if name == "alias"@ {
        alias_done(before, after, command, r)
    } else if name == "unalias"@ {
        unalias_done(before, after, command, r)
    } else if name == "export"@ {
        export_done(before, after, command, r)
    } else if name == "unset"@ {
        unset_done(before, after, command, r)
    } else if name == "readonly"@ {
        readonly_done(before, after, command, r)
    } else if name == "exec"@ {
        exec_done(command, r) && after == before
    } else if name == "source"@ || name == "."@ {
        source_done(before, after, command, r)
    } else if name == "eval"@ {
        eval_done(command, r) && after == before
    } else if name == ""@ {
        assignment_done(before, after, command, r)
    } else {
        r == Err::<Effect, BuiltinError>(BuiltinError::NotImplemented) && after == before
    }
}

/// Runs the built-in that the command names, in the shell itself: see
/// `builtin_done`. No built-in forks; what is to be done to the world
/// outside is handed back as an effect.
pub fn eval_builtin(shell: &mut Shell, command: &SimpleCommand) -> (r: Result<Effect, BuiltinError>)
    requires
        old(shell).wf(),
    ensures
        final(shell).wf(),
        builtin_done(*old(shell), *final(shell), *command, r),
{
    let name = command.name.as_str();
    if str_eq(name, "cd") {
        change_directory(shell, command)
    } else if str_eq(name, "exit") {
        quit(shell, command)
    } else if str_eq(name, "return") {
        return_cmd(shell, command)
    } else if str_eq(name, "jobs") {
        jobs(shell)
    } else if str_eq(name, "fg") || str_eq(name, "bg") {
        fgbg(shell, command)
    } else if str_eq(name, "alias") {
        alias(shell, command)
    } else if str_eq(name, "unalias") {
        unalias(shell, command)
    } else if str_eq(name, "export") {
        export(shell, command)
    } else if str_eq(name, "unset") {
        unset(shell, command)
    } else if str_eq(name, "readonly") {
        readonly(shell, command)
    } else if str_eq(name, "exec") {
        exec_cmd(command)
    } else if str_eq(name, "source") || str_eq(name, ".") {
        source(shell, command)
    } else if str_eq(name, "eval") {
        eval_cmd(command)
    } else if str_eq(name, "") {
        assignment(shell, command)
    } else {
        Err(BuiltinError::NotImplemented)
    }
}

} // verus!

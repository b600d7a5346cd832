//! The decisions of the executor: which pipeline of an and-or list runs next,
//! how the stages of a pipeline are started and wired, what a child does
//! before it runs its command, and how a function is entered and left.
//!
//! The executor forks no process and opens no file itself. It says what is
//! to be done, and is told what came of it.

use crate::ast::{AndOr, ConditionalExec, IoRedirect, Pipeline, RedirectType, SimpleCommand};
use crate::expand::{evaluated, expand, expanded_argv, expanded_assignments};
use crate::context::{Context, ContextManager, ManagerView, ScopeView, Var, VarView};
use crate::jobs::{
    process_views, Job, JobControl, JobId, JobTableView, Process, ProcessView, NO_PID,
};
use crate::text::{
    assignment_name, assignment_value, decimal, push_decimal, push_signed_decimal, push_str,
    signed_decimal, split_assignment, str_eq, views,
};
use crate::trap::{interrupts_off, interrupts_on, TrapData};
use vstd::prelude::*;

verus! {

/// The exit status of a pipeline that was abandoned.
pub const FAILURE: i32 = 1;

/// The names of the built-ins, the empty name of a command that only assigns
/// among them.
pub open spec fn is_builtin(name: Seq<char>) -> bool {
    name == "cd"@ || name == "exit"@ || name == "jobs"@ || name == "fg"@ || name == "bg"@ || name
        == "alias"@ || name == "unalias"@ || name == "export"@ || name == "return"@ || name
        == "unset"@ || name == "readonly"@ || name == "exec"@ || name == "source"@ || name == "."@
        || name == "eval"@ || name == ""@
}

/// Tells whether a command name is the name of a built-in. The empty name is
/// one: it stands for a command that only assigns.
pub fn check_if_builtin(cmd_name: &str) -> (r: bool)
    ensures
        r == is_builtin(cmd_name@),
{
    str_eq(cmd_name, "cd") || str_eq(cmd_name, "exit") || str_eq(cmd_name, "jobs") || str_eq(
        cmd_name,
        "fg",
    ) || str_eq(cmd_name, "bg") || str_eq(cmd_name, "alias") || str_eq(cmd_name, "unalias")
        || str_eq(cmd_name, "export") || str_eq(cmd_name, "return") || str_eq(cmd_name, "unset")
        || str_eq(cmd_name, "readonly") || str_eq(cmd_name, "exec") || str_eq(cmd_name, "source")
        || str_eq(cmd_name, ".") || str_eq(cmd_name, "eval") || str_eq(cmd_name, "")
}

/// Tells whether a command name reaches a function.
pub fn check_if_function(ctx: &ContextManager, cmd_name: &str) -> (r: bool)
    requires
        ctx.wf(),
    ensures
        r == ctx@.lookup_function(cmd_name@) is Some,
{
    ctx.is_function(cmd_name)
}

/// Why the executor gave up.
#[derive(Clone, Copy, Debug, PartialEq, Eq, Structural)]
pub enum EvalError {
    /// A pipeline follows another one without `&&` or `||` between them.
    MissingOperator,
}

impl EvalError {
    /// The words that tell of the error.
    pub fn message(&self) -> (r: &'static str)
        ensures
            r@ == "Error: Conditional Execution requires an operator"@,
    {
        "Error: Conditional Execution requires an operator"
    }
}

/// Tells whether the pipeline after an operator runs: after `&&` if the one
/// before succeeded, after `||` if it failed.
pub open spec fn runs_after(op: ConditionalExec, status: i32) -> bool {
    match op {
        ConditionalExec::And => status == 0,
        ConditionalExec::Or => status != 0,
    }
}

/// The operators of an and-or list, in the order in which its pipelines
/// run: the operator before each pipeline, from the first one on.
pub open spec fn chain_ops(ao: AndOr) -> Seq<Option<ConditionalExec>>
    decreases ao,
{
    match ao.and_or {
        Some(before) => chain_ops(*before).push(ao.conditional_exec),
        None => seq![ao.conditional_exec],
    }
}

/// The pipelines of an and-or list, in the order in which they run.
pub open spec fn chain_pipelines(ao: AndOr) -> Seq<Pipeline>
    decreases ao,
{
    match ao.and_or {
        Some(before) => chain_pipelines(*before).push(ao.pipeline),
        None => seq![ao.pipeline],
    }
}

/// The operators of an and-or list, in the order in which its pipelines run.
pub fn and_or_ops(ao: &AndOr) -> (r: Vec<Option<ConditionalExec>>)
    ensures
        r@ == chain_ops(*ao),
    decreases ao,
{
    match &ao.and_or {
        Some(before) => {
            let mut out = and_or_ops(before);
            out.push(ao.conditional_exec);
            out
        },
        None => {
            let mut out: Vec<Option<ConditionalExec>> = Vec::new();
            out.push(ao.conditional_exec);
            out
        },
    }
}

/// The pipelines of an and-or list, in the order in which they run.
pub fn and_or_pipelines(ao: &AndOr) -> (r: Vec<&Pipeline>)
    ensures
        r@.len() == chain_pipelines(*ao).len(),
        forall|i: int| 0 <= i < r@.len() ==> *(#[trigger] r@[i]) == chain_pipelines(*ao)[i],
    decreases ao,
{
    match &ao.and_or {
        Some(before) => {
            let mut out = and_or_pipelines(before);
            out.push(&ao.pipeline);
            out
        },
        None => {
            let mut out: Vec<&Pipeline> = Vec::new();
            out.push(&ao.pipeline);
            out
        },
    }
}

/// What comes next in an and-or list.
#[derive(Clone, Copy, Debug, PartialEq, Eq, Structural)]
pub enum AndOrStep {
    /// The pipeline at this position runs.
    Run(usize),
    /// The list is through.
    Done,
    /// The pipeline at this position has no operator before it.
    Broken(usize),
}

/// What comes next in an and-or list from position `from` on, when the
/// pipeline that ran last left `status`. `ops[i]` is the operator before
/// pipeline `i`. A pipeline that does not run leaves the status as it is.
pub open spec fn spec_next(ops: Seq<Option<ConditionalExec>>, from: int, status: i32) -> AndOrStep
    decreases ops.len() - from,
{
    if from >= ops.len() || from < 0 {
        AndOrStep::Done
    } else if from == 0 {
        AndOrStep::Run(0)
    } else {
        match ops[from] {
            None => AndOrStep::Broken(from as usize),
            Some(op) => if runs_after(op, status) {
                AndOrStep::Run(from as usize)
            } else {
                spec_next(ops, from + 1, status)
            },
        }
    }
}

/// Decides what comes next in an and-or list: see `spec_next`. The first
/// pipeline always runs; each later one runs or not by its operator and the
/// exit status of the pipeline that ran last.
pub fn next_in_and_or(ops: &Vec<Option<ConditionalExec>>, from: usize, status: i32) -> (r:
    AndOrStep)
    ensures
        r == spec_next(ops@, from as int, status),
{
    let mut i: usize = from;
    while i < ops.len()
        invariant
            from <= i,
            spec_next(ops@, from as int, status) == spec_next(ops@, i as int, status),
        decreases ops.len() - i,
    {
        if i == 0 {
            return AndOrStep::Run(0);
        }
        match ops[i] {
            None => {
                return AndOrStep::Broken(i);
            },
            Some(op) => {
                let runs = match op {
                    ConditionalExec::And => status == 0,
                    ConditionalExec::Or => status != 0,
                };
                if runs {
                    return AndOrStep::Run(i);
                }
            },
        }
        i += 1;
    }
    AndOrStep::Done
}

/// After `a && b`, `b` runs exactly if `a` left zero; after `a || b`, exactly
/// if it left something else.
pub proof fn law_and_or(op: ConditionalExec, status: i32)
    ensures
        spec_next(seq![None, Some(op)], 1, status) == (if runs_after(op, status) {
            AndOrStep::Run(1)
        } else {
            AndOrStep::Done
        }),
{
    let ops = seq![None, Some(op)];
    assert(spec_next(ops, 2, status) == AndOrStep::Done);
}

/// The kinds of stage of a pipeline.
#[derive(Clone, Copy, Debug, PartialEq, Eq, Structural)]
pub enum StageKind {
    /// A program to execute.
    External,
    /// A built-in.
    Builtin,
    /// A call of a function.
    Function,
    /// A brace group, a loop or a conditional.
    Compound,
    /// A subshell.
    Subshell,
}

/// Tells whether a stage runs in the shell itself: a built-in, a function or
/// a compound command, alone in a pipeline in the foreground. Every other
/// stage runs in a forked child.
pub open spec fn in_place(kind: StageKind, count: nat, background: bool) -> bool {
    count == 1 && !background && (kind == StageKind::Builtin || kind == StageKind::Function || kind
        == StageKind::Compound)
}

/// Classifies an expanded command name: a built-in, else a function if the
/// name reaches one, else a program.
pub fn classify(ctx: &ContextManager, name: &str) -> (k: StageKind)
    requires
        ctx.wf(),
    ensures
        k == (if is_builtin(name@) {
            StageKind::Builtin
        } else if ctx@.lookup_function(name@) is Some {
            StageKind::Function
        } else {
            StageKind::External
        }),
{
    if check_if_builtin(name) {
        StageKind::Builtin
    } else if ctx.is_function(name) {
        StageKind::Function
    } else {
        StageKind::External
    }
}

/// One stage of a pipeline, ready to start: its kind and its expanded
/// argument vector.
#[derive(Debug)]
pub struct Stage {
    pub kind: StageKind,
    pub argv: Vec<String>,
}

/// The words `ws[from..]` joined by blanks.
pub open spec fn joined(ws: Seq<Seq<char>>, from: int) -> Seq<char>
    decreases ws.len() - from,
{
    if from >= ws.len() {
        Seq::empty()
    } else if from + 1 == ws.len() {
        ws[from]
    } else {
        ws[from] + " "@ + joined(ws, from + 1)
    }
}

/// The kind of the stage with this argument vector: a command without a
/// name, which only assigns, counts as a built-in; any other is what
/// `classify` makes of its name.
pub open spec fn stage_kind(m: ManagerView, argv: Seq<Seq<char>>) -> StageKind {
    if argv.len() == 0 || is_builtin(argv[0]) {
        StageKind::Builtin
    } else if m.lookup_function(argv[0]) is Some {
        StageKind::Function
    } else {
        StageKind::External
    }
}

/// Makes a stage of a simple command: the command is expanded where it
/// stands, as `SimpleCommand::eval` does, and the stage holds its argument
/// vector and its kind. This is done inside the section that must not be
/// interrupted only: with interrupts on there is no stage, and the command
/// stays as it is. `alias` is the alias of the name of the command, if it has
/// one; `outputs` holds the outputs of the scripts that `substitutions`
/// names.
pub fn stage_of(
    trap: &TrapData,
    ctx: &ContextManager,
    cmd: &mut SimpleCommand,
    alias: Option<&str>,
    outputs: &Vec<String>,
) -> (r: Option<Stage>)
    requires
        ctx.wf(),
    ensures
        r is Some <==> trap.interrupts_are_off(),
        r is None ==> *final(cmd) == *old(cmd),
        r matches Some(stage) ==> {
            let argv = expanded_argv(
                ctx@,
                *old(cmd),
                match alias {
                    Some(a) => Some(a@),
                    None => None,
                },
                views(outputs@),
            );
            &&& views(stage.argv@) == argv
            &&& stage.kind == stage_kind(ctx@, argv)
            &&& evaluated(
                *old(cmd),
                *final(cmd),
                expanded_assignments(ctx@, *old(cmd), views(outputs@)),
                argv,
            )
        },
{
    if trap.interrupts_off_depth == 0 {
        return None;
    }
    let expansion = expand(cmd, alias, ctx, outputs);
    let argv = expansion.argv;
    let kind = if argv.len() == 0 {
        StageKind::Builtin
    } else {
        classify(ctx, argv[0].as_str())
    };
    cmd.eval(alias, ctx, outputs);
    Some(Stage { kind, argv })
}

/// The process that a stage with this argument vector starts as: it is not
/// forked yet, its arguments are the argument vector, unchanged, the command
/// is the first argument, and the command line is the vector joined by
/// blanks.
pub open spec fn stage_process(argv: Seq<Seq<char>>) -> ProcessView {
    ProcessView {
        pid: NO_PID,
        argv: argv,
        argv0: if argv.len() > 0 {
            argv[0]
        } else {
            Seq::empty()
        },
        cmd: joined(argv, 0),
        status: None,
    }
}

/// The processes of the stages `stages[..upto]`.
pub open spec fn stage_processes(stages: Seq<Stage>, upto: int) -> Seq<ProcessView>
    decreases upto,
{
    if upto <= 0 {
        Seq::empty()
    } else {
        stage_processes(stages, upto - 1).push(stage_process(views(stages[upto - 1].argv@)))
    }
}

/// The process of a stage: see `stage_process`. What the child is started
/// with is the expanded argument vector and nothing else.
pub fn process_of(argv: &Vec<String>) -> (p: Process)
    ensures
        p@ == stage_process(views(argv@)),
        p@.argv == views(argv@),
{
    let mut copy: Vec<String> = Vec::new();
    let mut i: usize = 0;
    while i < argv.len()
        invariant
            i <= argv.len(),
            views(copy@) == views(argv@).subrange(0, i as int),
        decreases argv.len() - i,
    {
        let ghost before = views(copy@);
        copy.push(argv[i].clone());
        assert(views(copy@) =~= before.push(argv@[i as int]@));
        assert(views(argv@).subrange(0, i as int + 1) =~= views(argv@).subrange(0, i as int).push(
            argv@[i as int]@,
        ));
        i += 1;
    }
    assert(views(argv@).subrange(0, argv.len() as int) =~= views(argv@));
    let argv0 = if argv.len() > 0 {
        argv[0].clone()
    } else {
        String::new()
    };
    let mut cmd = String::new();
    let mut k: usize = argv.len();
    while k > 0
        invariant
            k <= argv.len(),
            cmd@ == joined(views(argv@), k as int),
        decreases k,
    {
        k -= 1;
        let mut piece = argv[k].clone();
        if k + 1 < argv.len() {
            push_str(&mut piece, " ");
            push_str(&mut piece, cmd.as_str());
        }
        cmd = piece;
    }
    Process::new(copy, argv0, cmd)
}

/// What the executor asks for while it runs a pipeline.
#[derive(Debug)]
pub enum PipelineAction {
    /// Evaluate this stage in the shell itself, and tell its exit status.
    RunInPlace { stage: usize },
    /// Create a pipe, and tell its two ends.
    OpenPipe,
    /// Fork a child for this stage, and tell its process id. The child reads
    /// from `stdin` and writes to `stdout` where these are not negative, and
    /// closes `unused` where it is not negative. In the background it joins
    /// the process group of `leader`, or leads its own if `leader` is
    /// `NO_PID`.
    Fork { stage: usize, stdin: i32, stdout: i32, unused: i32, leader: i32 },
    /// Wait for this job, and tell when the wait is over.
    Wait { job: JobId },
    /// The pipeline is through with this exit status. A background job is
    /// announced with the text.
    Finish { status: i32, announce: Option<String> },
}

/// What the executor asks for, and the file descriptors that the shell is
/// to close before; a negative one stands for none.
#[derive(Debug)]
pub struct PipelineStep {
    pub action: PipelineAction,
    pub close: (i32, i32, i32),
}

/// What came of the last request of the executor.
#[derive(Clone, Copy, Debug, PartialEq, Eq, Structural)]
pub enum PipelineEvent {
    /// The stage that ran in the shell left this exit status.
    InPlaceDone(i32),
    /// The pipe was created, with this end to read from and this to write to.
    PipeOpened(i32, i32),
    /// No pipe could be created.
    PipeFailed,
    /// The child was forked, with this process id.
    Forked(i32),
    /// No child could be forked.
    ForkFailed,
    /// The wait for the job is over.
    Waited,
}

/// Where a pipeline is.
#[derive(Clone, Copy, Debug, PartialEq, Eq, Structural)]
pub enum Phase {
    /// The single stage runs in the shell.
    InPlace,
    /// A pipe to the next stage was asked for.
    Piping,
    /// A child for the next stage was asked for.
    Forking,
    /// The job is waited for.
    Waiting,
    /// The pipeline is through.
    Done,
}

/// The state of a pipeline that runs.
#[derive(Clone, Copy, Debug, PartialEq, Eq, Structural)]
pub struct PipelineRun {
    /// The pipeline runs in the background.
    pub background: bool,
    /// The job of the pipeline.
    pub job: Option<JobId>,
    /// The number of stages.
    pub count: usize,
    /// The stage that is started next.
    pub next: usize,
    /// The end to read from of the pipe from the stage before; negative for
    /// none.
    pub prev_read: i32,
    /// The ends of the pipe to the stage after; negative for none.
    pub pipe_read: i32,
    pub pipe_write: i32,
    /// The process id of the first child; `NO_PID` before it is forked.
    pub leader: i32,
    /// Where the pipeline is.
    pub phase: Phase,
}

/// The announcement of a background job: its number in brackets, the process
/// id of its leading process in parentheses, and the line of the job.
pub open spec fn announcement(j: crate::jobs::JobView) -> Seq<char> {
    "["@ + decimal(j.job_id as nat) + "] ("@ + signed_decimal(
        (if j.processes.len() > 0 {
            j.processes[0].pid
        } else {
            NO_PID
        }) as int,
    ) + ") "@ + j.line()
}

/// The number of open sections after one of `depth` open sections was
/// closed; with none open, none stays open.
pub open spec fn closed(depth: usize) -> usize {
    if depth > 0 {
        (depth - 1) as usize
    } else {
        0
    }
}

/// The steps that end a pipeline leave the signal bookkeeping with one
/// section less open, and nothing else changed.
pub open spec fn section_closed(before: TrapData, after: TrapData) -> bool {
    after == (TrapData { interrupts_off_depth: closed(before.interrupts_off_depth), ..before })
}

impl PipelineRun {
    /// Opens the section that must not be interrupted, in which a pipeline is
    /// prepared and started. Tells whether the signal mask has to be installed
    /// now, which is so when no section was open.
    pub fn enter(trap: &mut TrapData) -> (install: bool)
        ensures
            *final(trap) == (TrapData {
                interrupts_off_depth: if old(trap).interrupts_off_depth < usize::MAX {
                    (old(trap).interrupts_off_depth + 1) as usize
                } else {
                    usize::MAX
                },
                ..*old(trap)
            }),
            final(trap).interrupts_are_off(),
            install == !old(trap).interrupts_are_off(),
    {
        interrupts_off(trap)
    }

    /// Begins a pipeline of these stages, inside the section that `enter`
    /// opened. With interrupts on no pipeline begins: it is through at once,
    /// with failure, and nothing is changed. A pipeline without stages is
    /// through at once, with success. A single stage that runs in the shell is
    /// asked for next. For every other pipeline a job of its processes is
    /// created, and the first pipe, or the only child, is asked for. Where
    /// the job cannot be created the pipeline is through, with failure. A
    /// pipeline that is through at once closes the section; any other leaves
    /// it open, for the step that ends the pipeline to close.
    pub fn begin(
        jobs: &mut JobControl,
        trap: &mut TrapData,
        stages: &Vec<Stage>,
        background: bool,
    ) -> (r: (PipelineRun, PipelineStep))
        requires
            old(jobs).wf(),
        ensures
            final(jobs).wf(),
            r.1.close == (-1i32, -1i32, -1i32),
            r.0.background == background,
            r.0.count == stages@.len(),
            r.0.next == 0,
            r.0.prev_read == -1 && r.0.pipe_read == -1 && r.0.pipe_write == -1,
            r.0.leader == NO_PID,
            !old(trap).interrupts_are_off() ==> {
                &&& r.0.phase == Phase::Done
                &&& r.0.job is None
                &&& r.1.action == (PipelineAction::Finish { status: FAILURE, announce: None })
                &&& final(jobs)@ == old(jobs)@
                &&& *final(trap) == *old(trap)
            },
            old(trap).interrupts_are_off() && stages@.len() == 0 ==> {
                &&& r.0.phase == Phase::Done
                &&& r.0.job is None
                &&& r.1.action == (PipelineAction::Finish { status: 0, announce: None })
                &&& final(jobs)@ == old(jobs)@
                &&& section_closed(*old(trap), *final(trap))
            },
            old(trap).interrupts_are_off() && stages@.len() > 0 && in_place(
                stages@[0].kind,
                stages@.len(),
                background,
            ) ==> {
                &&& r.0.phase == Phase::InPlace
                &&& r.0.job is None
                &&& r.1.action == (PipelineAction::RunInPlace { stage: 0 })
                &&& final(jobs)@ == old(jobs)@
                &&& *final(trap) == *old(trap)
            },
            old(trap).interrupts_are_off() && stages@.len() > 0 && !in_place(
                stages@[0].kind,
                stages@.len(),
                background,
            ) ==> {
                let ps = stage_processes(stages@, stages@.len() as int);
                if old(jobs)@.next_id < usize::MAX {
                    &&& r.0.job == Some(old(jobs)@.next_id)
                    &&& final(jobs)@ == old(jobs)@.created(ps, background)
                    &&& *final(trap) == *old(trap)
                    &&& if stages@.len() > 1 {
                        r.0.phase == Phase::Piping && r.1.action == PipelineAction::OpenPipe
                    } else {
                        r.0.phase == Phase::Forking && r.1.action == (PipelineAction::Fork {
                            stage: 0,
                            stdin: -1i32,
                            stdout: -1i32,
                            unused: -1i32,
                            leader: NO_PID,
                        })
                    }
                } else {
                    &&& r.0.phase == Phase::Done
                    &&& r.0.job is None
                    &&& r.1.action == (PipelineAction::Finish { status: FAILURE, announce: None })
                    &&& final(jobs)@ == old(jobs)@
                    &&& section_closed(*old(trap), *final(trap))
                }
            },
    {
        let count = stages.len();
        let mut run = PipelineRun {
            background,
            job: None,
            count,
            next: 0,
            prev_read: -1i32,
            pipe_read: -1i32,
            pipe_write: -1i32,
            leader: NO_PID,
            phase: Phase::Done,
        };
        let none = (-1i32, -1i32, -1i32);
        if trap.interrupts_off_depth == 0 {
            return (
                run,
                PipelineStep {
                    action: PipelineAction::Finish { status: FAILURE, announce: None },
                    close: none,
                },
            );
        }
        if count == 0 {
            interrupts_on(trap);
            return (
                run,
                PipelineStep {
                    action: PipelineAction::Finish { status: 0, announce: None },
                    close: none,
                },
            );
        }
        let kind = stages[0].kind;
        let here = count == 1 && !background && (kind == StageKind::Builtin || kind
            == StageKind::Function || kind == StageKind::Compound);
        if here {
            run.phase = Phase::InPlace;
            return (
                run,
                PipelineStep { action: PipelineAction::RunInPlace { stage: 0 }, close: none },
            );
        }
        let mut processes: Vec<Process> = Vec::new();
        let mut i: usize = 0;
        while i < count
            invariant
                i <= count == stages.len(),
                process_views(processes@) == stage_processes(stages@, i as int),
                process_views(processes@).len() == i,
                forall|k: int|
                    0 <= k < i ==> (#[trigger] process_views(processes@)[k]).pid == NO_PID,
            decreases count - i,
        {
            let ghost before = process_views(processes@);
            let p = process_of(&stages[i].argv);
            processes.push(p);
            assert(process_views(processes@) =~= before.push(
                stage_process(views(stages@[i as int].argv@)),
            ));
            i += 1;
        }
        proof {
            lemma_unbound_never_clash(jobs@, process_views(processes@), 0);
        }
        match jobs.create_job(processes, background) {
            Ok(id) => {
                run.job = Some(id);
                if count > 1 {
                    run.phase = Phase::Piping;
                    (run, PipelineStep { action: PipelineAction::OpenPipe, close: none })
                } else {
                    run.phase = Phase::Forking;
                    (
                        run,
                        PipelineStep {
                            action: PipelineAction::Fork {
                                stage: 0,
                                stdin: -1i32,
                                stdout: -1i32,
                                unused: -1i32,
                                leader: NO_PID,
                            },
                            close: none,
                        },
                    )
                }
            },
            Err(_) => {
                interrupts_on(trap);
                (
                    run,
                    PipelineStep {
                        action: PipelineAction::Finish { status: FAILURE, announce: None },
                        close: none,
                    },
                )
            },
        }
    }

    /// Gives the pipeline up: the job is asked to leave the table, the section
    /// that must not be interrupted is closed, and the pipeline is through
    /// with failure. The open ends of pipes are to be closed.
    fn abandon(&mut self, jobs: &mut JobControl, trap: &mut TrapData, exit: &mut i32) -> (r:
        PipelineStep)
        requires
            old(jobs).wf(),
        ensures
            final(jobs).wf(),
            abandoned(
                *old(self),
                *final(self),
                old(jobs)@,
                final(jobs)@,
                *old(trap),
                *final(trap),
                *final(exit),
                r,
            ),
    {
        let close = (self.prev_read, self.pipe_read, self.pipe_write);
        match self.job {
            Some(id) => {
                jobs.delete_job_by_id(id);
            },
            None => {},
        }
        interrupts_on(trap);
        *exit = FAILURE;
        self.prev_read = -1;
        self.pipe_read = -1;
        self.pipe_write = -1;
        self.phase = Phase::Done;
        PipelineStep { action: PipelineAction::Finish { status: FAILURE, announce: None }, close }
    }

    /// Takes what came of the last request and says what is to be done next.
    ///
    /// A pipeline that is through stays through. The stage that ran in the
    /// shell ends the pipeline with its exit status. A new pipe leads to the
    /// fork of the next stage, which reads from the pipe before it and writes
    /// to the new one. A forked child gets its process id bound in the job;
    /// the shell closes the end it read from and the end it wrote to, and
    /// goes on with the next stage. After the last stage a pipeline in the
    /// foreground waits for its job; one in the background is announced and
    /// is through, without a wait. When the wait is over the job is asked to
    /// leave the table, and the pipeline is through with the exit status that
    /// the wait left in `exit`. Whatever ends a pipeline closes the section
    /// that must not be interrupted. A failure to create a pipe or to fork,
    /// and an answer that does not fit the request, abandon the pipeline.
    pub fn step(
        &mut self,
        jobs: &mut JobControl,
        trap: &mut TrapData,
        exit: &mut i32,
        event: PipelineEvent,
    ) -> (r: PipelineStep)
        requires
            old(jobs).wf(),
        ensures
            final(jobs).wf(),
            stepped(
                *old(self),
                *final(self),
                old(jobs)@,
                final(jobs)@,
                *old(trap),
                *final(trap),
                *old(exit),
                *final(exit),
                event,
                r,
            ),
    {
        let none = (-1i32, -1i32, -1i32);
        match (self.phase, event) {
            (Phase::Done, _) => PipelineStep {
                action: PipelineAction::Finish { status: *exit, announce: None },
                close: none,
            },
            (Phase::InPlace, PipelineEvent::InPlaceDone(status)) => {
                *exit = status;
                interrupts_on(trap);
                self.phase = Phase::Done;
                PipelineStep {
                    action: PipelineAction::Finish { status, announce: None },
                    close: none,
                }
            },
            (Phase::Piping, PipelineEvent::PipeOpened(read, write)) => {
                self.pipe_read = read;
                self.pipe_write = write;
                self.phase = Phase::Forking;
                PipelineStep {
                    action: PipelineAction::Fork {
                        stage: self.next,
                        stdin: self.prev_read,
                        stdout: write,
                        unused: read,
                        leader: self.leader,
                    },
                    close: none,
                }
            },
            (Phase::Forking, PipelineEvent::Forked(pid)) => {
                let id = match self.job {
                    Some(id) => id,
                    None => {
                        return self.abandon(jobs, trap, exit);
                    },
                };
                if self.next >= self.count {
                    return self.abandon(jobs, trap, exit);
                }
                jobs.update_pid_table(id, pid);
                let close = (self.prev_read, self.pipe_write, -1i32);
                if self.leader == NO_PID {
                    self.leader = pid;
                }
                self.prev_read = self.pipe_read;
                self.pipe_read = -1;
                self.pipe_write = -1;
                self.next = self.next + 1;
                if self.next < self.count {
                    if self.next + 1 < self.count {
                        self.phase = Phase::Piping;
                        PipelineStep { action: PipelineAction::OpenPipe, close }
                    } else {
                        PipelineStep {
                            action: PipelineAction::Fork {
                                stage: self.next,
                                stdin: self.prev_read,
                                stdout: -1i32,
                                unused: -1i32,
                                leader: self.leader,
                            },
                            close,
                        }
                    }
                } else if self.background {
                    let text = match jobs.job_by_id(id) {
                        Some(j) => Some(announce(j)),
                        None => None,
                    };
                    interrupts_on(trap);
                    self.phase = Phase::Done;
                    PipelineStep {
                        action: PipelineAction::Finish { status: *exit, announce: text },
                        close,
                    }
                } else {
                    self.phase = Phase::Waiting;
                    PipelineStep { action: PipelineAction::Wait { job: id }, close }
                }
            },
            (Phase::Waiting, PipelineEvent::Waited) => {
                match self.job {
                    Some(id) => {
                        jobs.delete_job_by_id(id);
                    },
                    None => {},
                }
                interrupts_on(trap);
                self.phase = Phase::Done;
                PipelineStep {
                    action: PipelineAction::Finish { status: *exit, announce: None },
                    close: (self.prev_read, -1i32, -1i32),
                }
            },
            _ => self.abandon(jobs, trap, exit),
        }
    }
}

/// The announcement of a background job: see `announcement`.
pub fn announce(job: &Job) -> (r: String)
    ensures
        r@ == announcement(job@),
{
    let mut out = String::new();
    push_str(&mut out, "[");
    push_decimal(&mut out, job.job_id as u64);
    push_str(&mut out, "] (");
    let pid = if job.processes.len() > 0 {
        job.processes[0].pid
    } else {
        NO_PID
    };
    push_signed_decimal(&mut out, pid as i64);
    push_str(&mut out, ") ");
    let line = job.to_string();
    push_str(&mut out, line.as_str());
    assert(out@ =~= announcement(job@));
    out
}

/// Processes that were not forked yet clash with no job.
pub proof fn lemma_unbound_never_clash(t: JobTableView, ps: Seq<ProcessView>, from: int)
    requires
        0 <= from <= ps.len(),
        forall|k: int| 0 <= k < ps.len() ==> (#[trigger] ps[k]).pid == NO_PID,
    ensures
        t.clash_pos(ps, from) == ps.len(),
    decreases ps.len() - from,
{
    if from < ps.len() {
        assert(ps[from].pid == NO_PID);
        lemma_unbound_never_clash(t, ps, from + 1);
    }
}

/// The table after a request to delete the job of a pipeline, if it has one.
pub open spec fn without_job(t: JobTableView, job: Option<JobId>) -> JobTableView {
    match job {
        Some(id) => t.deleted(id),
        None => t,
    }
}

/// What giving a pipeline up leaves: see `PipelineRun::abandon`.
pub open spec fn abandoned(
    before: PipelineRun,
    after: PipelineRun,
    jobs_before: JobTableView,
    jobs_after: JobTableView,
    trap_before: TrapData,
    trap_after: TrapData,
    exit_after: i32,
    r: PipelineStep,
) -> bool {
    &&& after == (PipelineRun {
        prev_read: -1i32,
        pipe_read: -1i32,
        pipe_write: -1i32,
        phase: Phase::Done,
        ..before
    })
    &&& jobs_after == without_job(jobs_before, before.job)
    &&& section_closed(trap_before, trap_after)
    &&& exit_after == FAILURE
    &&& r.action == (PipelineAction::Finish { status: FAILURE, announce: None })
    &&& r.close == (before.prev_read, before.pipe_read, before.pipe_write)
}

/// The answer fits the request that the pipeline made last.
pub open spec fn fits(run: PipelineRun, event: PipelineEvent) -> bool {
    match run.phase {
        Phase::Done => true,
        Phase::InPlace => event is InPlaceDone,
        Phase::Piping => event is PipeOpened,
        Phase::Forking => event is Forked && run.job is Some && run.next < run.count,
        Phase::Waiting => event is Waited,
    }
}

/// What one step of a pipeline leaves: see `PipelineRun::step`.
pub open spec fn stepped(
    before: PipelineRun,
    after: PipelineRun,
    jobs_before: JobTableView,
    jobs_after: JobTableView,
    trap_before: TrapData,
    trap_after: TrapData,
    exit_before: i32,
    exit_after: i32,
    event: PipelineEvent,
    r: PipelineStep,
) -> bool {
    if !fits(before, event) {
        abandoned(before, after, jobs_before, jobs_after, trap_before, trap_after, exit_after, r)
    } else {
        match before.phase {
            Phase::Done => {
                &&& after == before
                &&& jobs_after == jobs_before
                &&& trap_after == trap_before
                &&& exit_after == exit_before
                &&& r.action == (PipelineAction::Finish { status: exit_before, announce: None })
                &&& r.close == (-1i32, -1i32, -1i32)
            },
            Phase::InPlace => {
                &&& after == (PipelineRun { phase: Phase::Done, ..before })
                &&& jobs_after == jobs_before
                &&& section_closed(trap_before, trap_after)
                &&& exit_after == event->InPlaceDone_0
                &&& r.action == (PipelineAction::Finish {
                    status: event->InPlaceDone_0,
                    announce: None,
                })
                &&& r.close == (-1i32, -1i32, -1i32)
            },
            Phase::Piping => {
                &&& after == (PipelineRun {
                    pipe_read: event->PipeOpened_0,
                    pipe_write: event->PipeOpened_1,
                    phase: Phase::Forking,
                    ..before
                })
                &&& jobs_after == jobs_before
                &&& trap_after == trap_before
                &&& exit_after == exit_before
                &&& r.action == (PipelineAction::Fork {
                    stage: before.next,
                    stdin: before.prev_read,
                    stdout: event->PipeOpened_1,
                    unused: event->PipeOpened_0,
                    leader: before.leader,
                })
                &&& r.close == (-1i32, -1i32, -1i32)
            },
            Phase::Forking => {
                let pid = event->Forked_0;
                let id = before.job->0;
                let bound = if jobs_before.can_bind(id, pid) {
                    jobs_before.bound(id, pid)
                } else {
                    jobs_before
                };
                let next = (before.next + 1) as usize;
                let leader = if before.leader == NO_PID {
                    pid
                } else {
                    before.leader
                };
                let moved = PipelineRun {
                    next: next,
                    prev_read: before.pipe_read,
                    pipe_read: -1i32,
                    pipe_write: -1i32,
                    leader: leader,
                    ..before
                };
                &&& jobs_after == bound
                &&& exit_after == exit_before
                &&& r.close == (before.prev_read, before.pipe_write, -1i32)
                &&& if next < before.count {
                    &&& trap_after == trap_before
                    &&& if next + 1 < before.count {
                        &&& after == (PipelineRun { phase: Phase::Piping, ..moved })
                        &&& r.action == PipelineAction::OpenPipe
                    } else {
                        &&& after == moved
                        &&& r.action == (PipelineAction::Fork {
                            stage: next,
                            stdin: before.pipe_read,
                            stdout: -1i32,
                            unused: -1i32,
                            leader: leader,
                        })
                    }
                } else if before.background {
                    &&& after == (PipelineRun { phase: Phase::Done, ..moved })
                    &&& section_closed(trap_before, trap_after)
                    &&& r.action matches PipelineAction::Finish { status, announce }
                    &&& status == exit_before
                    &&& announce is Some <==> bound.job(id) is Some
                    &&& announce matches Some(text) ==> text@ == announcement(bound.job(id)->0)
                } else {
                    &&& after == (PipelineRun { phase: Phase::Waiting, ..moved })
                    &&& trap_after == trap_before
                    &&& r.action == (PipelineAction::Wait { job: id })
                }
            },
            Phase::Waiting => {
                &&& after == (PipelineRun { phase: Phase::Done, ..before })
                &&& jobs_after == without_job(jobs_before, before.job)
                &&& section_closed(trap_before, trap_after)
                &&& exit_after == exit_before
                &&& r.action == (PipelineAction::Finish { status: exit_before, announce: None })
                &&& r.close == (before.prev_read, -1i32, -1i32)
            },
        }
    }
}

/// The processes of the stages keep the argument vectors of the stages, one
/// for one.
pub proof fn lemma_stage_processes(stages: Seq<Stage>, upto: int, k: int)
    requires
        0 <= k < upto <= stages.len(),
    ensures
        stage_processes(stages, upto).len() == upto,
        stage_processes(stages, upto)[k] == stage_process(views(stages[k].argv@)),
    decreases upto,
{
    if upto > 0 {
        lemma_stage_processes_len(stages, upto - 1);
        if k < upto - 1 {
            lemma_stage_processes(stages, upto - 1, k);
        }
    }
}

proof fn lemma_stage_processes_len(stages: Seq<Stage>, upto: int)
    requires
        0 <= upto <= stages.len(),
    ensures
        stage_processes(stages, upto).len() == upto,
    decreases upto,
{
    if upto > 0 {
        lemma_stage_processes_len(stages, upto - 1);
    }
}

/// What a child is started with is the argument vector that the expansion
/// gave: in the job that a pipeline creates, the process of every stage
/// holds the argument vector of its stage, unchanged.
pub proof fn law_child_receives_argv(t: JobTableView, stages: Seq<Stage>, background: bool, k: int)
    requires
        0 <= k < stages.len(),
    ensures
        ({
            let made = t.created(stage_processes(stages, stages.len() as int), background);
            made.jobs.last().processes[k].argv == views(stages[k].argv@)
        }),
{
    lemma_stage_processes(stages, stages.len() as int, k);
}

/// A pipeline in the background is never waited for: no step of it asks for
/// a wait.
pub proof fn law_background_returns(
    before: PipelineRun,
    after: PipelineRun,
    jobs_before: JobTableView,
    jobs_after: JobTableView,
    trap_before: TrapData,
    trap_after: TrapData,
    exit_before: i32,
    exit_after: i32,
    event: PipelineEvent,
    r: PipelineStep,
)
    requires
        before.background,
        stepped(
            before,
            after,
            jobs_before,
            jobs_after,
            trap_before,
            trap_after,
            exit_before,
            exit_after,
            event,
            r,
        ),
    ensures
        !(r.action is Wait),
        after.background,
{
}

/// A pipeline runs with interrupts off and gives them back as it got them:
/// a step of a pipeline that is not through yet leaves the sections that
/// must not be interrupted as they are, unless it ends the pipeline; the step
/// that ends it closes the one section that `PipelineRun::enter` opened.
pub proof fn law_pipeline_sections(
    before: PipelineRun,
    after: PipelineRun,
    jobs_before: JobTableView,
    jobs_after: JobTableView,
    trap_before: TrapData,
    trap_after: TrapData,
    exit_before: i32,
    exit_after: i32,
    event: PipelineEvent,
    r: PipelineStep,
)
    requires
        before.phase != Phase::Done,
        stepped(
            before,
            after,
            jobs_before,
            jobs_after,
            trap_before,
            trap_after,
            exit_before,
            exit_after,
            event,
            r,
        ),
    ensures
        r.action is Finish <==> after.phase == Phase::Done,
        r.action is Finish ==> section_closed(trap_before, trap_after),
        !(r.action is Finish) ==> trap_after == trap_before,
        trap_before.interrupts_off_depth == 1 && r.action is Finish
            ==> !trap_after.interrupts_are_off(),
{
}

/// A pipeline gives the sections that must not be interrupted back as it got
/// them: what `PipelineRun::enter` opened, the end of the pipeline closes.
pub proof fn law_section_given_back(before: TrapData, inside: TrapData, after: TrapData)
    requires
        before.interrupts_off_depth < usize::MAX,
        inside == (TrapData {
            interrupts_off_depth: (before.interrupts_off_depth + 1) as usize,
            ..before
        }),
        section_closed(inside, after),
    ensures
        inside.interrupts_are_off(),
        after == before,
{
}

/// The exit status that a pipeline in the foreground ends with is the exit
/// status that the wait for its job left.
pub proof fn law_foreground_status(
    before: PipelineRun,
    after: PipelineRun,
    jobs_before: JobTableView,
    jobs_after: JobTableView,
    trap_before: TrapData,
    trap_after: TrapData,
    exit_before: i32,
    exit_after: i32,
    r: PipelineStep,
)
    requires
        before.phase == Phase::Waiting,
        stepped(
            before,
            after,
            jobs_before,
            jobs_after,
            trap_before,
            trap_after,
            exit_before,
            exit_after,
            PipelineEvent::Waited,
            r,
        ),
    ensures
        r.action == (PipelineAction::Finish { status: exit_before, announce: None }),
{
}

/// What a child does to its file descriptors and its process group before it
/// runs its command.
#[derive(Clone, Copy, Debug, PartialEq, Eq, Structural)]
pub enum ChildOp {
    /// Join the process group of this process; lead an own group for `NO_PID`.
    JoinGroup(i32),
    /// Take the default disposition for every signal, and clear the mask.
    ResetSignals,
    /// Close this file descriptor.
    Close(i32),
    /// Make the second file descriptor a copy of the first.
    Dup(i32, i32),
}

/// What a child does before it runs its command: in the background it joins
/// its process group; it resets its signals; it closes the end of the new
/// pipe that it does not use, makes the pipe before it its standard input
/// and the new pipe its standard output, and closes the ends it copied.
pub open spec fn child_ops(background: bool, stdin: i32, stdout: i32, unused: i32, leader: i32) -> Seq<
    ChildOp,
> {
    (if background {
        seq![ChildOp::JoinGroup(leader)]
    } else {
        Seq::empty()
    }) + seq![ChildOp::ResetSignals] + (if unused >= 0 {
        seq![ChildOp::Close(unused)]
    } else {
        Seq::empty()
    }) + (if stdin > 0 {
        seq![ChildOp::Dup(stdin, 0), ChildOp::Close(stdin)]
    } else {
        Seq::empty()
    }) + (if stdout > 1 {
        seq![ChildOp::Dup(stdout, 1), ChildOp::Close(stdout)]
    } else {
        Seq::empty()
    })
}

/// The plan of a child for its file descriptors: see `child_ops`.
pub fn child_plan(background: bool, stdin: i32, stdout: i32, unused: i32, leader: i32) -> (r: Vec<
    ChildOp,
>)
    ensures
        r@ == child_ops(background, stdin, stdout, unused, leader),
{
    let mut out: Vec<ChildOp> = Vec::new();
    if background {
        out.push(ChildOp::JoinGroup(leader));
    }
    out.push(ChildOp::ResetSignals);
    if unused >= 0 {
        out.push(ChildOp::Close(unused));
    }
    if stdin > 0 {
        out.push(ChildOp::Dup(stdin, 0));
        out.push(ChildOp::Close(stdin));
    }
    if stdout > 1 {
        out.push(ChildOp::Dup(stdout, 1));
        out.push(ChildOp::Close(stdout));
    }
    assert(out@ =~= child_ops(background, stdin, stdout, unused, leader));
    out
}

/// A redirection to carry out: the file descriptor to replace, how the file
/// is opened, and the name of the file.
#[derive(Debug)]
pub struct RedirectOp {
    pub target: i32,
    pub kind: RedirectType,
    pub filename: String,
}

/// The mathematical content of a `RedirectOp`.
pub struct RedirectOpView {
    pub target: i32,
    pub kind: RedirectType,
    pub filename: Seq<char>,
}

impl View for RedirectOp {
    type V = RedirectOpView;

    open spec fn view(&self) -> RedirectOpView {
        RedirectOpView { target: self.target, kind: self.kind, filename: self.filename@ }
    }
}

/// The contents of a sequence of redirections to carry out.
pub open spec fn redirect_views(rs: Seq<RedirectOp>) -> Seq<RedirectOpView> {
    Seq::new(rs.len(), |i: int| rs[i]@)
}

/// A redirection that the executor carries out: one to a file, for input,
/// output or appending.
pub open spec fn is_carried_out(r: IoRedirect) -> bool {
    r.io_file is Some && r.io_file->0.redirect_type != RedirectType::Clobber
}

/// What is carried out for a redirection: the file descriptor before the
/// operator is replaced if there is one, else the standard input for input
/// and the standard output for output and appending.
pub open spec fn redirect_op(r: IoRedirect) -> RedirectOpView {
    RedirectOpView {
        target: match r.io_number {
            Some(n) => n,
            None => if r.io_file->0.redirect_type == RedirectType::Input {
                0
            } else {
                1
            },
        },
        kind: r.io_file->0.redirect_type,
        filename: r.io_file->0.filename@,
    }
}

/// What is carried out for the redirections `rs[from..]`, in order.
pub open spec fn redirect_ops(rs: Seq<IoRedirect>, from: int) -> Seq<RedirectOpView>
    decreases rs.len() - from,
{
    if from >= rs.len() {
        Seq::empty()
    } else if is_carried_out(rs[from]) {
        seq![redirect_op(rs[from])] + redirect_ops(rs, from + 1)
    } else {
        redirect_ops(rs, from + 1)
    }
}

/// The redirections of a command to carry out, in order: see `redirect_ops`.
pub fn eval_redirect(redirect: &Vec<IoRedirect>) -> (r: Vec<RedirectOp>)
    ensures
        redirect_views(r@) == redirect_ops(redirect@, 0),
{
    let mut out: Vec<RedirectOp> = Vec::new();
    let ghost mut done: Seq<RedirectOpView> = Seq::empty();
    assert(redirect_views(out@) =~= done);
    let mut i: usize = 0;
    while i < redirect.len()
        invariant
            i <= redirect.len(),
            redirect_views(out@) == done,
            done + redirect_ops(redirect@, i as int) == redirect_ops(redirect@, 0),
        decreases redirect.len() - i,
    {
        let r = &redirect[i];
        match &r.io_file {
            Some(f) => {
                let carried = match f.redirect_type {
                    RedirectType::Clobber => false,
                    _ => true,
                };
                if carried {
                    let target = match r.io_number {
                        Some(n) => n,
                        None => match f.redirect_type {
                            RedirectType::Input => 0,
                            _ => 1,
                        },
                    };
                    out.push(
                        RedirectOp { target, kind: f.redirect_type, filename: f.filename.clone() },
                    );
                    proof {
                        let op = redirect_op(redirect@[i as int]);
                        let rest = redirect_ops(redirect@, i as int + 1);
                        assert(redirect_views(out@) =~= done.push(op));
                        assert(done.push(op) + rest =~= done + (seq![op] + rest));
                        done = done.push(op);
                    }
                }
            },
            None => {},
        }
        i += 1;
    }
    assert(done + Seq::<RedirectOpView>::empty() =~= done);
    out
}

/// The names and values of the assignments `asg[from..]`, split at the first
/// `=` each.
pub open spec fn environment(asg: Seq<Seq<char>>, from: int) -> Seq<(Seq<char>, Seq<char>)>
    decreases asg.len() - from,
{
    if from >= asg.len() {
        Seq::empty()
    } else {
        seq![(assignment_name(asg[from]), assignment_value(asg[from]))] + environment(
            asg,
            from + 1,
        )
    }
}

/// The contents of a sequence of pairs of strings.
pub open spec fn pair_views(ps: Seq<(String, String)>) -> Seq<(Seq<char>, Seq<char>)> {
    Seq::new(ps.len(), |i: int| (ps[i].0@, ps[i].1@))
}

/// The variables that a child puts into its environment for the assignments
/// before its command: name and value of each, in order.
pub fn eval_assignment(assignment: &Vec<String>) -> (r: Vec<(String, String)>)
    ensures
        pair_views(r@) == environment(views(assignment@), 0),
{
    let mut out: Vec<(String, String)> = Vec::new();
    let ghost asg = views(assignment@);
    let mut i: usize = 0;
    assert(pair_views(out@) + environment(asg, 0) =~= environment(asg, 0));
    while i < assignment.len()
        invariant
            i <= assignment.len(),
            asg == views(assignment@),
            pair_views(out@) + environment(asg, i as int) == environment(asg, 0),
        decreases assignment.len() - i,
    {
        let ghost before = pair_views(out@);
        let pair = split_assignment(assignment[i].as_str());
        out.push(pair);
        proof {
            let item = (assignment_name(asg[i as int]), assignment_value(asg[i as int]));
            assert(pair_views(out@) =~= before.push(item));
            assert(before.push(item) + environment(asg, i + 1) =~= before + environment(
                asg,
                i as int,
            ));
        }
        i += 1;
    }
    assert(pair_views(out@) + Seq::<(Seq<char>, Seq<char>)>::empty() =~= pair_views(out@));
    out
}

/// The scope of a call of function `name` with arguments `args[..upto]`:
/// `0` is the name of the function, and `1`, `2` and so on are the arguments.
pub open spec fn call_scope(name: Seq<char>, args: Seq<Seq<char>>, upto: int) -> ScopeView
    decreases upto,
{
    if upto <= 0 {
        ScopeView::empty().assigned(VarView { name: "0"@, value: name, readonly: false })
    } else {
        call_scope(name, args, upto - 1).assigned(
            VarView { name: decimal(upto as nat), value: args[upto - 1], readonly: false },
        )
    }
}

/// Enters a function: a new scope becomes the current one, in which `0` is
/// the name of the function and `1`, `2` and so on are the arguments of the
/// call.
pub fn enter_function(ctx: &mut ContextManager, name: &str, args: &Vec<String>)
    requires
        old(ctx).wf(),
    ensures
        final(ctx).wf(),
        final(ctx)@ == old(ctx)@.pushed(call_scope(name@, views(args@), args@.len() as int)),
{
    let mut scope = Context::new();
    scope.set(Var::new("0", name));
    let mut i: usize = 0;
    while i < args.len()
        invariant
            i <= args.len(),
            scope.wf(),
            scope@ == call_scope(name@, views(args@), i as int),
        decreases args.len() - i,
    {
        let mut key = String::new();
        push_decimal(&mut key, (i + 1) as u64);
        scope.set(Var::new(key.as_str(), args[i].as_str()));
        i += 1;
    }
    ctx.push_context(scope);
}

/// Leaves a function: the scope of the call is popped, and with it the
/// variables that were written in it.
pub fn leave_function(ctx: &mut ContextManager)
    requires
        old(ctx).wf(),
    ensures
        final(ctx).wf(),
        final(ctx)@ == old(ctx)@.popped(),
{
    ctx.pop_context();
}

/// How the evaluation of a list goes on after a command.
#[derive(Clone, Copy, Debug, PartialEq, Eq, Structural)]
pub enum Flow {
    /// The next command runs.
    Continue,
    /// A `return` was met: the body of the function is left.
    Return,
    /// An `exit` was met: the shell is left.
    Exit,
}

/// The and-or list of a list that runs next: the one at `index`, while the
/// list has one and neither a `return` nor an `exit` was met. The exit status
/// of a list is that of the and-or list that ran last.
pub fn next_in_list(len: usize, index: usize, flow: Flow) -> (r: Option<usize>)
    ensures
        r == (if index < len && flow == Flow::Continue {
            Some(index)
        } else {
            None
        }),
{
    if index < len && flow == Flow::Continue {
        Some(index)
    } else {
        None
    }
}

/// The flow after the call of a function came back to its caller: a `return`
/// is used up, an `exit` goes on.
pub fn after_call(flow: Flow) -> (r: Flow)
    ensures
        r == (if flow == Flow::Exit {
            Flow::Exit
        } else {
            Flow::Continue
        }),
{
    match flow {
        Flow::Exit => Flow::Exit,
        _ => Flow::Continue,
    }
}

/// What a `return N` or `exit N` does where it is met: in the shell itself a
/// `return` goes on by the flow and the shell stays; in a forked child both
/// end the process with the status.
pub fn leaves_process(flow: Flow, forked: bool) -> (r: bool)
    ensures
        r == (flow == Flow::Exit || (forked && flow == Flow::Return)),
{
    match flow {
        Flow::Exit => true,
        Flow::Return => forked,
        Flow::Continue => false,
    }
}

} // verus!

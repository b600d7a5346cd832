use rsh::ast::{
    AndOr, ConditionalExec, IoFile, IoHere, IoRedirect, PipeSequence, Pipeline, RedirectType,
};
use rsh::context::ContextManager;
use rsh::eval::{
    after_call, and_or_ops, and_or_pipelines, announce, check_if_builtin, check_if_function,
    child_plan, classify, enter_function, eval_assignment, eval_redirect, leave_function,
    leaves_process, next_in_and_or, next_in_list, process_of, AndOrStep, ChildOp, EvalError, Flow,
    stage_of, Phase, PipelineAction, PipelineEvent, PipelineRun, Stage, StageKind,
};
use rsh::jobs::{JobControl, JobState};
use rsh::status::WaitStatus;
use rsh::trap::TrapData;
use rsh::wait::{WaitAction, WaitEvent, WaitLoop};

fn stage(kind: StageKind, words: &[&str]) -> Stage {
    Stage { kind, argv: words.iter().map(|w| w.to_string()).collect() }
}

fn pipeline(bang: bool) -> Pipeline {
    Pipeline { bang, pipe_sequence: PipeSequence::new(), background: false }
}

fn action(step: &rsh::eval::PipelineStep) -> String {
    format!("{:?} close {:?}", step.action, step.close)
}

#[test]
fn built_ins_are_known_by_name() {
    for name in [
        "cd", "exit", "jobs", "fg", "bg", "alias", "unalias", "export", "return", "unset",
        "readonly", "exec", "source", ".", "eval", "",
    ] {
        assert!(check_if_builtin(name));
    }
    for name in ["ls", "echo", "pwd", "CD", "cd ", "true"] {
        assert!(!check_if_builtin(name));
    }
}

#[test]
fn commands_are_classified() {
    let mut m = ContextManager::new(&Vec::new(), false, 1, 1, "/");
    assert_eq!(classify(&m, "cd"), StageKind::Builtin);
    assert_eq!(classify(&m, "f"), StageKind::External);
    assert!(!check_if_function(&m, "f"));
    m.add_function(
        "f",
        std::rc::Rc::new(rsh::ast::FunctionBody {
            compound_command: rsh::ast::CompoundCommand::BraceGroup(rsh::ast::BraceGroup(
                rsh::ast::CompoundList(rsh::ast::Term(Vec::new())),
            )),
            redirect_list: None,
        }),
    );
    assert_eq!(classify(&m, "f"), StageKind::Function);
    assert!(check_if_function(&m, "f"));
    m.add_function(
        "cd",
        std::rc::Rc::new(rsh::ast::FunctionBody {
            compound_command: rsh::ast::CompoundCommand::BraceGroup(rsh::ast::BraceGroup(
                rsh::ast::CompoundList(rsh::ast::Term(Vec::new())),
            )),
            redirect_list: None,
        }),
    );
    assert_eq!(classify(&m, "cd"), StageKind::Builtin);
}

#[test]
fn and_or_runs_by_the_status_before() {
    let and = vec![None, Some(ConditionalExec::And)];
    let or = vec![None, Some(ConditionalExec::Or)];
    assert_eq!(next_in_and_or(&and, 0, 0), AndOrStep::Run(0));
    assert_eq!(next_in_and_or(&and, 0, 1), AndOrStep::Run(0));
    assert_eq!(next_in_and_or(&and, 1, 0), AndOrStep::Run(1));
    assert_eq!(next_in_and_or(&and, 1, 1), AndOrStep::Done);
    assert_eq!(next_in_and_or(&or, 1, 0), AndOrStep::Done);
    assert_eq!(next_in_and_or(&or, 1, 1), AndOrStep::Run(1));
    assert_eq!(next_in_and_or(&or, 1, -1), AndOrStep::Run(1));
    assert_eq!(next_in_and_or(&and, 2, 0), AndOrStep::Done);
    assert_eq!(next_in_and_or(&Vec::new(), 0, 0), AndOrStep::Done);
    let mixed = vec![
        None,
        Some(ConditionalExec::And),
        Some(ConditionalExec::And),
        Some(ConditionalExec::Or),
        None,
    ];
    assert_eq!(next_in_and_or(&mixed, 1, 1), AndOrStep::Run(3));
    assert_eq!(next_in_and_or(&mixed, 4, 0), AndOrStep::Broken(4));
    assert_eq!(next_in_and_or(&mixed, 3, 0), AndOrStep::Broken(4));
    assert_eq!(
        EvalError::MissingOperator.message(),
        "Error: Conditional Execution requires an operator"
    );
}

#[test]
fn and_or_chains_are_flattened_in_running_order() {
    let first = AndOr { and_or: None, conditional_exec: None, pipeline: pipeline(true) };
    let second = AndOr {
        and_or: Some(Box::new(first)),
        conditional_exec: Some(ConditionalExec::And),
        pipeline: pipeline(false),
    };
    let third = AndOr {
        and_or: Some(Box::new(second)),
        conditional_exec: Some(ConditionalExec::Or),
        pipeline: pipeline(true),
    };
    assert_eq!(
        and_or_ops(&third),
        vec![None, Some(ConditionalExec::And), Some(ConditionalExec::Or)]
    );
    let bangs: Vec<bool> = and_or_pipelines(&third).iter().map(|p| p.bang).collect();
    assert_eq!(bangs, vec![true, false, true]);
}

#[test]
fn lists_stop_at_return_and_exit() {
    assert_eq!(next_in_list(3, 0, Flow::Continue), Some(0));
    assert_eq!(next_in_list(3, 2, Flow::Continue), Some(2));
    assert_eq!(next_in_list(3, 3, Flow::Continue), None);
    assert_eq!(next_in_list(3, 1, Flow::Return), None);
    assert_eq!(next_in_list(3, 1, Flow::Exit), None);
    assert_eq!(after_call(Flow::Return), Flow::Continue);
    assert_eq!(after_call(Flow::Continue), Flow::Continue);
    assert_eq!(after_call(Flow::Exit), Flow::Exit);
    assert!(leaves_process(Flow::Exit, false));
    assert!(leaves_process(Flow::Exit, true));
    assert!(leaves_process(Flow::Return, true));
    assert!(!leaves_process(Flow::Return, false));
    assert!(!leaves_process(Flow::Continue, true));
}

#[test]
fn a_stage_starts_as_a_process_with_its_argument_vector() {
    let argv = vec!["ls".to_string(), "-l".to_string(), "a b".to_string()];
    let p = process_of(&argv);
    assert_eq!(p.argv, argv);
    assert_eq!(p.argv0, "ls");
    assert_eq!(p.cmd, "ls -l a b");
    assert_eq!(p.pid, -1);
    assert_eq!(p.status, None);
    let e = process_of(&Vec::new());
    assert!(e.argv.is_empty());
    assert_eq!(e.argv0, "");
    assert_eq!(e.cmd, "");
}

#[test]
fn an_empty_pipeline_is_through_at_once() {
    let mut jobs = JobControl::new();
    let mut trap = TrapData::new();
    PipelineRun::enter(&mut trap);
    let (run, step) = PipelineRun::begin(&mut jobs, &mut trap, &Vec::new(), false);
    assert_eq!(run.phase, Phase::Done);
    assert_eq!(action(&step), "Finish { status: 0, announce: None } close (-1, -1, -1)");
    assert_eq!(trap.interrupts_off_depth, 0);
    assert_eq!(jobs.len(), 0);
}

#[test]
fn a_single_built_in_runs_in_the_shell() {
    let mut jobs = JobControl::new();
    let mut trap = TrapData::new();
    let mut exit = 0;
    for kind in [StageKind::Builtin, StageKind::Function, StageKind::Compound] {
        let stages = vec![stage(kind, &["cd", "/"])];
        PipelineRun::enter(&mut trap);
        let (mut run, step) = PipelineRun::begin(&mut jobs, &mut trap, &stages, false);
        assert_eq!(action(&step), "RunInPlace { stage: 0 } close (-1, -1, -1)");
        assert_eq!(trap.interrupts_off_depth, 1);
        assert_eq!(jobs.len(), 0);
        let step = run.step(&mut jobs, &mut trap, &mut exit, PipelineEvent::InPlaceDone(4));
        assert_eq!(action(&step), "Finish { status: 4, announce: None } close (-1, -1, -1)");
        assert_eq!(exit, 4);
        assert_eq!(trap.interrupts_off_depth, 0);
        assert_eq!(run.phase, Phase::Done);
        let step = run.step(&mut jobs, &mut trap, &mut exit, PipelineEvent::Waited);
        assert_eq!(action(&step), "Finish { status: 4, announce: None } close (-1, -1, -1)");
        assert_eq!(trap.interrupts_off_depth, 0);
    }
}

#[test]
fn a_foreground_pipeline_of_three_stages() {
    let mut jobs = JobControl::new();
    let mut trap = TrapData::new();
    let mut exit = 9;
    let stages = vec![
        stage(StageKind::External, &["echo", "a"]),
        stage(StageKind::Builtin, &["cat"]),
        stage(StageKind::External, &["wc", "-c"]),
    ];
    PipelineRun::enter(&mut trap);
    let (mut run, step) = PipelineRun::begin(&mut jobs, &mut trap, &stages, false);
    assert_eq!(action(&step), "OpenPipe close (-1, -1, -1)");
    assert_eq!(trap.interrupts_off_depth, 1);
    assert_eq!(run.job, Some(1));
    let job = jobs.job_by_id(1).unwrap();
    assert_eq!(job.to_string(), "Running echo a | cat | wc -c");
    assert_eq!(job.processes[2].argv, vec!["wc", "-c"]);
    let step = run.step(&mut jobs, &mut trap, &mut exit, PipelineEvent::PipeOpened(3, 4));
    assert_eq!(
        action(&step),
        "Fork { stage: 0, stdin: -1, stdout: 4, unused: 3, leader: -1 } close (-1, -1, -1)"
    );
    let step = run.step(&mut jobs, &mut trap, &mut exit, PipelineEvent::Forked(100));
    assert_eq!(action(&step), "OpenPipe close (-1, 4, -1)");
    let step = run.step(&mut jobs, &mut trap, &mut exit, PipelineEvent::PipeOpened(5, 6));
    assert_eq!(
        action(&step),
        "Fork { stage: 1, stdin: 3, stdout: 6, unused: 5, leader: 100 } close (-1, -1, -1)"
    );
    let step = run.step(&mut jobs, &mut trap, &mut exit, PipelineEvent::Forked(101));
    assert_eq!(
        action(&step),
        "Fork { stage: 2, stdin: 5, stdout: -1, unused: -1, leader: 100 } close (3, 6, -1)"
    );
    let step = run.step(&mut jobs, &mut trap, &mut exit, PipelineEvent::Forked(102));
    assert_eq!(action(&step), "Wait { job: 1 } close (5, -1, -1)");
    assert_eq!(trap.interrupts_off_depth, 1);
    let pids: Vec<i32> = jobs.job_by_id(1).unwrap().processes.iter().map(|p| p.pid).collect();
    assert_eq!(pids, vec![100, 101, 102]);
    let (mut w, _) = WaitLoop::begin(&jobs, Some(1));
    for status in
        [WaitStatus::Exited(101, 0), WaitStatus::Exited(102, 0), WaitStatus::Exited(100, 0)]
    {
        w.step(&mut jobs, &mut exit, WaitEvent::Reported(status));
    }
    assert_eq!(
        w.step(&mut jobs, &mut exit, WaitEvent::StillAlive),
        WaitAction::Done(Some(WaitStatus::Exited(100, 0)))
    );
    let step = run.step(&mut jobs, &mut trap, &mut exit, PipelineEvent::Waited);
    assert_eq!(action(&step), "Finish { status: 0, announce: None } close (-1, -1, -1)");
    assert_eq!(trap.interrupts_off_depth, 0);
    assert_eq!(jobs.len(), 0);
    assert_eq!(exit, 0);
}

#[test]
fn a_background_pipeline_is_announced_and_not_waited_for() {
    let mut jobs = JobControl::new();
    let mut trap = TrapData::new();
    let mut exit = 0;
    let stages = vec![stage(StageKind::External, &["sleep", "10"])];
    PipelineRun::enter(&mut trap);
    let (mut run, step) = PipelineRun::begin(&mut jobs, &mut trap, &stages, true);
    assert_eq!(
        action(&step),
        "Fork { stage: 0, stdin: -1, stdout: -1, unused: -1, leader: -1 } close (-1, -1, -1)"
    );
    let step = run.step(&mut jobs, &mut trap, &mut exit, PipelineEvent::Forked(321));
    assert_eq!(
        action(&step),
        "Finish { status: 0, announce: Some(\"[1] (321) Running sleep 10 &\") } close (-1, -1, -1)"
    );
    assert_eq!(trap.interrupts_off_depth, 0);
    assert_eq!(jobs.job_by_id(1).unwrap().state, JobState::Running);
    assert_eq!(announce(jobs.job_by_id(1).unwrap()), "[1] (321) Running sleep 10 &");
}

#[test]
fn a_built_in_in_the_background_forks() {
    let mut jobs = JobControl::new();
    let mut trap = TrapData::new();
    let stages = vec![stage(StageKind::Builtin, &["cd"])];
    PipelineRun::enter(&mut trap);
    let (_, step) = PipelineRun::begin(&mut jobs, &mut trap, &stages, true);
    assert!(matches!(step.action, PipelineAction::Fork { stage: 0, .. }));
    let stages = vec![stage(StageKind::Subshell, &["x"])];
    PipelineRun::enter(&mut trap);
    let (_, step) = PipelineRun::begin(&mut jobs, &mut trap, &stages, false);
    assert!(matches!(step.action, PipelineAction::Fork { stage: 0, .. }));
}

#[test]
fn a_failure_abandons_the_pipeline() {
    let mut jobs = JobControl::new();
    let mut trap = TrapData::new();
    let mut exit = 0;
    let stages = vec![stage(StageKind::External, &["a"]), stage(StageKind::External, &["b"])];
    PipelineRun::enter(&mut trap);
    let (mut run, _) = PipelineRun::begin(&mut jobs, &mut trap, &stages, false);
    let step = run.step(&mut jobs, &mut trap, &mut exit, PipelineEvent::PipeFailed);
    assert_eq!(action(&step), "Finish { status: 1, announce: None } close (-1, -1, -1)");
    assert_eq!((exit, jobs.len(), trap.interrupts_off_depth), (1, 0, 0));

    PipelineRun::enter(&mut trap);
    let (mut run, _) = PipelineRun::begin(&mut jobs, &mut trap, &stages, false);
    run.step(&mut jobs, &mut trap, &mut exit, PipelineEvent::PipeOpened(3, 4));
    run.step(&mut jobs, &mut trap, &mut exit, PipelineEvent::Forked(50));
    let step = run.step(&mut jobs, &mut trap, &mut exit, PipelineEvent::ForkFailed);
    assert_eq!(action(&step), "Finish { status: 1, announce: None } close (3, -1, -1)");
    assert_eq!((jobs.len(), trap.interrupts_off_depth), (0, 0));
    assert_eq!(run.phase, Phase::Done);

    exit = 0;
    PipelineRun::enter(&mut trap);
    let (mut run, _) = PipelineRun::begin(&mut jobs, &mut trap, &stages, false);
    let step = run.step(&mut jobs, &mut trap, &mut exit, PipelineEvent::Waited);
    assert_eq!(action(&step), "Finish { status: 1, announce: None } close (-1, -1, -1)");
    assert_eq!((exit, jobs.len(), trap.interrupts_off_depth), (1, 0, 0));
}

#[test]
fn interrupts_come_back_as_they_were() {
    let mut jobs = JobControl::new();
    let mut trap = TrapData::new();
    let mut exit = 0;
    rsh::trap::interrupts_off(&mut trap);
    let stages = vec![stage(StageKind::Function, &["f"])];
    PipelineRun::enter(&mut trap);
    let (mut run, _) = PipelineRun::begin(&mut jobs, &mut trap, &stages, false);
    assert_eq!(trap.interrupts_off_depth, 2);
    run.step(&mut jobs, &mut trap, &mut exit, PipelineEvent::InPlaceDone(0));
    assert_eq!(trap.interrupts_off_depth, 1);
}

#[test]
fn the_child_wires_its_pipes() {
    assert_eq!(child_plan(false, -1, -1, -1, -1), vec![ChildOp::ResetSignals]);
    assert_eq!(
        child_plan(false, -1, 4, 3, -1),
        vec![ChildOp::ResetSignals, ChildOp::Close(3), ChildOp::Dup(4, 1), ChildOp::Close(4)]
    );
    assert_eq!(
        child_plan(true, 3, 6, 5, 100),
        vec![
            ChildOp::JoinGroup(100),
            ChildOp::ResetSignals,
            ChildOp::Close(5),
            ChildOp::Dup(3, 0),
            ChildOp::Close(3),
            ChildOp::Dup(6, 1),
            ChildOp::Close(6),
        ]
    );
    assert_eq!(
        child_plan(true, 0, 1, 0, -1),
        vec![ChildOp::JoinGroup(-1), ChildOp::ResetSignals, ChildOp::Close(0)]
    );
}

#[test]
fn redirections_name_their_target() {
    let file = |n: Option<i32>, t: RedirectType, f: &str| IoRedirect {
        io_number: n,
        io_file: Some(IoFile { redirect_type: t, filename: f.to_string() }),
        io_here: None,
    };
    let list = vec![
        file(None, RedirectType::Input, "in"),
        file(None, RedirectType::Output, "out"),
        file(None, RedirectType::Append, "log"),
        file(Some(2), RedirectType::Output, "err"),
        file(Some(5), RedirectType::Input, "five"),
        file(None, RedirectType::Clobber, "skip"),
        IoRedirect {
            io_number: None,
            io_file: None,
            io_here: Some(IoHere { here: "EOF".to_string() }),
        },
    ];
    let ops: Vec<(i32, RedirectType, String)> =
        eval_redirect(&list).into_iter().map(|o| (o.target, o.kind, o.filename)).collect();
    assert_eq!(
        ops,
        vec![
            (0, RedirectType::Input, "in".to_string()),
            (1, RedirectType::Output, "out".to_string()),
            (1, RedirectType::Append, "log".to_string()),
            (2, RedirectType::Output, "err".to_string()),
            (5, RedirectType::Input, "five".to_string()),
        ]
    );
    assert!(eval_redirect(&Vec::new()).is_empty());
}

#[test]
fn assignments_become_environment_pairs() {
    let asg = vec!["A=1".to_string(), "B=x=y".to_string(), "C".to_string(), "D=".to_string()];
    assert_eq!(
        eval_assignment(&asg),
        vec![
            ("A".to_string(), "1".to_string()),
            ("B".to_string(), "x=y".to_string()),
            ("C".to_string(), "".to_string()),
            ("D".to_string(), "".to_string()),
        ]
    );
    assert!(eval_assignment(&Vec::new()).is_empty());
}

#[test]
fn a_function_call_binds_its_arguments_in_a_new_scope() {
    let mut m = ContextManager::new(&Vec::new(), false, 1, 1, "/");
    m.add_var("1=outer");
    m.add_var("G=g");
    let args: Vec<String> =
        ["world", "b", "c", "d", "e", "f", "g", "h", "i", "ten"].iter().map(|s| s.to_string()).collect();
    enter_function(&mut m, "f", &args);
    assert_eq!(m.depth(), 2);
    assert_eq!(m.get_var("0").unwrap().value, "f");
    assert_eq!(m.get_var("1").unwrap().value, "world");
    assert_eq!(m.get_var("10").unwrap().value, "ten");
    assert!(m.get_var("11").is_none());
    m.add_var("G=changed");
    m.add_var("L=local");
    leave_function(&mut m);
    assert_eq!(m.depth(), 1);
    assert_eq!(m.get_var("1").unwrap().value, "outer");
    assert!(m.get_var("0").is_none());
    assert!(m.get_var("L").is_none());
    assert_eq!(m.get_var("G").unwrap().value, "changed");
    leave_function(&mut m);
    assert_eq!(m.depth(), 1);
}

#[test]
fn no_pipeline_begins_with_interrupts_on() {
    let mut jobs = JobControl::new();
    let mut trap = TrapData::new();
    let stages = vec![stage(StageKind::External, &["ls"])];
    let (run, step) = PipelineRun::begin(&mut jobs, &mut trap, &stages, false);
    assert_eq!(run.phase, Phase::Done);
    assert_eq!(action(&step), "Finish { status: 1, announce: None } close (-1, -1, -1)");
    assert_eq!((jobs.len(), trap.interrupts_off_depth), (0, 0));
    let (run, step) = PipelineRun::begin(&mut jobs, &mut trap, &Vec::new(), false);
    assert_eq!(run.phase, Phase::Done);
    assert_eq!(action(&step), "Finish { status: 1, announce: None } close (-1, -1, -1)");
    assert!(PipelineRun::enter(&mut trap));
    assert!(!PipelineRun::enter(&mut trap));
    assert_eq!(trap.interrupts_off_depth, 2);
    let (run, step) = PipelineRun::begin(&mut jobs, &mut trap, &stages, false);
    assert_eq!(run.phase, Phase::Forking);
    assert!(matches!(step.action, PipelineAction::Fork { stage: 0, .. }));
    assert_eq!((jobs.len(), trap.interrupts_off_depth), (1, 2));
    let (run, _) = PipelineRun::begin(&mut jobs, &mut trap, &Vec::new(), false);
    assert_eq!(run.phase, Phase::Done);
    assert_eq!(trap.interrupts_off_depth, 1);
}

#[test]
fn a_stage_is_made_inside_the_section_only() {
    let mut m = ContextManager::new(&Vec::new(), false, 1, 1, "/");
    m.add_var("X=a b");
    let mut trap = TrapData::new();
    let words = |words: &[&str]| rsh::ast::SimpleCommand {
        prefix: None,
        name: words[0].to_string(),
        suffix: Some(rsh::ast::Suffix {
            io_redirect: Vec::new(),
            word: words[1..].iter().map(|w| w.to_string()).collect(),
        }),
    };
    let mut cmd = words(&["echo", "$X", "'c d'"]);
    assert!(stage_of(&trap, &m, &mut cmd, None, &Vec::new()).is_none());
    assert_eq!(cmd, words(&["echo", "$X", "'c d'"]));
    PipelineRun::enter(&mut trap);
    let made = stage_of(&trap, &m, &mut cmd, None, &Vec::new()).unwrap();
    assert_eq!(made.kind, StageKind::External);
    assert_eq!(made.argv, vec!["echo", "a", "b", "c d"]);
    assert_eq!(cmd, words(&["echo", "a", "b", "c d"]));
    let mut cd = words(&["ll", "/tmp"]);
    let made = stage_of(&trap, &m, &mut cd, Some("cd"), &Vec::new()).unwrap();
    assert_eq!((made.kind, made.argv), (StageKind::Builtin, vec!["cd".to_string(), "/tmp".to_string()]));
    let mut nothing = words(&["$NONE"]);
    let made = stage_of(&trap, &m, &mut nothing, None, &Vec::new()).unwrap();
    assert_eq!(made.kind, StageKind::Builtin);
    assert!(made.argv.is_empty());
    assert_eq!(nothing.name, "");
}

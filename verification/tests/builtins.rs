use rsh::ast::{Prefix, SimpleCommand, Suffix};
use rsh::builtins::{
    alias, assignment, change_directory, eval_builtin, eval_cmd, exec_cmd, export, fgbg, jobs,
    leave_source, pwd, quit, readonly, return_cmd, source, unalias, unset, BuiltinError, Effect,
    Flags,
};
use rsh::context::Context;
use rsh::eval::Flow;
use rsh::jobs::{JobState, Process};
use rsh::shell::Shell;
use rsh::status::WaitStatus;

fn shell() -> Shell {
    let env = vec![
        ("HOME".to_string(), "/home/u".to_string()),
        ("PATH".to_string(), "/bin".to_string()),
    ];
    Shell::new(&env, false, 100, 99, "/work")
}

fn command(name: &str, words: &[&str]) -> SimpleCommand {
    SimpleCommand {
        prefix: None,
        name: name.to_string(),
        suffix: if words.is_empty() {
            None
        } else {
            Some(Suffix {
                io_redirect: Vec::new(),
                word: words.iter().map(|w| w.to_string()).collect(),
            })
        },
    }
}

fn assigning(assignments: &[&str]) -> SimpleCommand {
    SimpleCommand {
        prefix: Some(Prefix {
            io_redirect: Vec::new(),
            assignment: assignments.iter().map(|w| w.to_string()).collect(),
        }),
        name: String::new(),
        suffix: None,
    }
}

fn show(r: Result<Effect, BuiltinError>) -> String {
    format!("{:?}", r)
}

fn value(s: &Shell, name: &str) -> Option<String> {
    s.context_manager.get_var(name).map(|v| v.value.clone())
}

fn bound(cmd: &str, pid: i32) -> Process {
    let mut p = Process::new(vec![cmd.to_string()], cmd.to_string(), cmd.to_string());
    p.set_pid(pid);
    p
}

#[test]
fn cd_goes_to_its_argument_or_home() {
    let mut s = shell();
    assert_eq!(show(change_directory(&s, &command("cd", &["/tmp", "x"]))), "Ok(ChangeDirectory(\"/tmp\"))");
    assert_eq!(show(change_directory(&s, &command("cd", &[]))), "Ok(ChangeDirectory(\"/home/u\"))");
    s.context_manager.remove_var("HOME");
    assert_eq!(show(change_directory(&s, &command("cd", &[]))), "Err(NoHome)");
    assert_eq!(BuiltinError::NoHome.message(), "cd: HOME not set");
}

#[test]
fn exit_and_return_take_a_status() {
    let mut s = shell();
    s.exit_status = 7;
    assert_eq!(show(quit(&mut s, &command("exit", &["x"]))), "Err(BadNumber)");
    assert_eq!((s.exit_status, s.flow), (7, Flow::Continue));
    assert_eq!(show(return_cmd(&mut s, &command("return", &["3"]))), "Ok(Nothing)");
    assert_eq!((s.exit_status, s.flow), (3, Flow::Return));
    assert_eq!(show(return_cmd(&mut s, &command("return", &[]))), "Ok(Nothing)");
    assert_eq!(s.exit_status, 3);
    assert_eq!(show(return_cmd(&mut s, &command("return", &["1.5"]))), "Err(BadNumber)");
    assert_eq!(show(quit(&mut s, &command("exit", &[]))), "Ok(Exit(3))");
    assert_eq!(s.flow, Flow::Exit);
    assert_eq!(show(quit(&mut s, &command("exit", &["-2"]))), "Ok(Exit(-2))");
    assert_eq!(s.exit_status, -2);
    assert_eq!(BuiltinError::BadNumber.message(), "numeric argument required");
}

#[test]
fn jobs_and_pwd_ask_for_output() {
    let mut s = shell();
    s.job_control.create_job(vec![bound("sleep 10", 5)], true).unwrap();
    assert_eq!(show(jobs(&s)), "Ok(Print(\"[1] + Running sleep 10 &\\n\"))");
    s.context_manager.remove_var("PS4");
    assert_eq!(show(jobs(&s)), "Ok(Print(\"[1] Running sleep 10 &\\n\"))");
    assert_eq!(show(pwd()), "Ok(PrintWorkingDirectory)");
}

#[test]
fn fg_and_bg_resume_a_job() {
    let mut s = shell();
    let id = s.job_control.create_job(vec![bound("vi", 5), bound("cat", 6)], false).unwrap();
    s.job_control.set_process_status(5, WaitStatus::Stopped(5, 20));
    s.job_control.set_process_status(6, WaitStatus::Stopped(6, 20));
    assert_eq!(s.job_control.job_by_id(id).unwrap().state, JobState::Stopped);
    assert_eq!(
        show(fgbg(&mut s, &command("bg", &["%1"]))),
        "Ok(Resume { job: 1, pids: [5, 6], wait: false, line: \"[1] Running vi | cat &\" })"
    );
    let job = s.job_control.job_by_id(id).unwrap();
    assert_eq!(job.state, JobState::Running);
    assert!(job.background);
    assert_eq!(
        show(fgbg(&mut s, &command("fg", &["6"]))),
        "Ok(Resume { job: 1, pids: [5, 6], wait: true, line: \"[1] Running vi | cat\" })"
    );
    assert!(!s.job_control.job_by_id(id).unwrap().background);
}

#[test]
fn fg_and_bg_refuse_what_names_no_job() {
    let mut s = shell();
    s.job_control.create_job(vec![bound("vi", 5)], false).unwrap();
    assert_eq!(show(fgbg(&mut s, &command("fg", &[]))), "Err(FgbgNeedsArgument)");
    assert_eq!(show(fgbg(&mut s, &command("fg", &["%2"]))), "Err(NoJobWithJid)");
    assert_eq!(show(fgbg(&mut s, &command("fg", &["%-1"]))), "Err(NoJobWithJid)");
    assert_eq!(show(fgbg(&mut s, &command("fg", &["%"]))), "Err(BadNumber)");
    assert_eq!(show(fgbg(&mut s, &command("fg", &["%x"]))), "Err(BadNumber)");
    assert_eq!(show(fgbg(&mut s, &command("bg", &["7"]))), "Err(NoJobWithPid)");
    assert_eq!(show(fgbg(&mut s, &command("bg", &["-1"]))), "Err(NoJobWithPid)");
    assert_eq!(show(fgbg(&mut s, &command("bg", &["five"]))), "Err(BadNumber)");
    assert_eq!(s.job_control.job_by_id(1).unwrap().state, JobState::Running);
    assert_eq!(BuiltinError::FgbgNeedsArgument.message(), "fgbg needs an argument");
    assert_eq!(BuiltinError::NoJobWithPid.message(), "No job with that pid");
    assert_eq!(BuiltinError::NoJobWithJid.message(), "No job with that jid");
}

#[test]
fn alias_defines_and_prints() {
    let mut s = shell();
    assert_eq!(show(alias(&mut s, &command("alias", &[]))), "Ok(Print(\"\"))");
    assert_eq!(
        show(alias(&mut s, &command("alias", &["ll='ls -l'", "skip", "a=b=c", "g=\"git\"", "e="]))),
        "Ok(Nothing)"
    );
    assert_eq!(s.aliases.get("ll").map(|v| v.as_str()), Some("ls -l"));
    assert_eq!(s.aliases.get("g").map(|v| v.as_str()), Some("git"));
    assert_eq!(s.aliases.get("e").map(|v| v.as_str()), Some(""));
    assert!(s.aliases.get("a").is_none() && s.aliases.get("skip").is_none());
    assert_eq!(
        show(alias(&mut s, &command("alias", &["-p", "x=y"]))),
        "Ok(Print(\"alias ll='ls -l'\\nalias g='git'\\nalias e=''\\n\"))"
    );
    assert!(s.aliases.get("x").is_none());
}

#[test]
fn unalias_takes_one_argument() {
    let mut s = shell();
    alias(&mut s, &command("alias", &["a=1", "b=2", "c=3"])).unwrap();
    assert_eq!(show(unalias(&mut s, &command("unalias", &[]))), "Err(UnaliasNeedsArgument)");
    assert_eq!(show(unalias(&mut s, &command("unalias", &["a", "b"]))), "Err(UnaliasTooMany)");
    assert_eq!(show(unalias(&mut s, &command("unalias", &["b"]))), "Ok(Nothing)");
    assert!(s.aliases.get("b").is_none() && s.aliases.get("a").is_some());
    assert_eq!(show(unalias(&mut s, &command("unalias", &["zz"]))), "Ok(Nothing)");
    assert_eq!(show(unalias(&mut s, &command("unalias", &["-a"]))), "Ok(Nothing)");
    assert!(s.aliases.get("a").is_none() && s.aliases.get("c").is_none());
    assert_eq!(BuiltinError::UnaliasNeedsArgument.message(), "unalias needs an argument");
    assert_eq!(BuiltinError::UnaliasTooMany.message(), "unalias only takes one argument");
}

#[test]
fn assignments_are_carried_out_in_order() {
    let mut s = shell();
    assert_eq!(show(assignment(&mut s, &assigning(&["X=1", "Y=2", "X=3"]))), "Ok(Nothing)");
    assert_eq!(value(&s, "X").as_deref(), Some("3"));
    assert_eq!(value(&s, "Y").as_deref(), Some("2"));
    assert_eq!(show(assignment(&mut s, &command("", &[]))), "Ok(Nothing)");
}

#[test]
fn assignment_to_a_readonly_variable_is_complained_about() {
    let mut s = shell();
    readonly(&mut s, &command("readonly", &["R=1"])).unwrap();
    assert_eq!(
        show(assignment(&mut s, &assigning(&["A=1", "R=2", "R=3"]))),
        "Ok(Diagnostic(\"R: readonly variable\\nR: readonly variable\\n\"))"
    );
    assert_eq!(value(&s, "R").as_deref(), Some("1"));
    assert_eq!(value(&s, "A").as_deref(), Some("1"));
}

#[test]
fn eval_hands_its_text_back() {
    assert_eq!(show(eval_cmd(&command("eval", &["echo hi", "x"]))), "Ok(Eval(\"echo hi\\n\"))");
    assert_eq!(show(eval_cmd(&command("eval", &[]))), "Err(EvalNeedsArgument)");
    assert_eq!(BuiltinError::EvalNeedsArgument.message(), "eval needs an argument");
}

#[test]
fn unset_removes_variables_functions_and_scopes() {
    let mut s = shell();
    s.context_manager.add_var("X=1");
    rsh::shell::add_function(
        &mut s,
        "f",
        rsh::ast::FunctionBody {
            compound_command: rsh::ast::CompoundCommand::BraceGroup(rsh::ast::BraceGroup(
                rsh::ast::CompoundList(rsh::ast::Term(Vec::new())),
            )),
            redirect_list: None,
        },
    );
    s.context_manager.add_context("ns", Context::new());
    assert_eq!(show(unset(&mut s, &command("unset", &[]))), "Err(UnsetNeedsArgument)");
    assert_eq!(show(unset(&mut s, &command("unset", &["-x", "X"]))), "Err(UnsetInvalidOption)");
    assert_eq!(show(unset(&mut s, &command("unset", &["-fv", "X"]))), "Err(UnsetInvalidOption)");
    assert_eq!(show(unset(&mut s, &command("unset", &["-f"]))), "Err(UnsetNeedsArgument)");
    assert_eq!(value(&s, "X").as_deref(), Some("1"));
    assert_eq!(show(unset(&mut s, &command("unset", &["-f", "X"]))), "Ok(Nothing)");
    assert_eq!(value(&s, "X").as_deref(), Some("1"));
    assert_eq!(show(unset(&mut s, &command("unset", &["X"]))), "Ok(Nothing)");
    assert_eq!(value(&s, "X"), None);
    s.context_manager.add_var("Y=1");
    assert_eq!(show(unset(&mut s, &command("unset", &["-v", "Y"]))), "Ok(Nothing)");
    assert_eq!(value(&s, "Y"), None);
    assert!(rsh::shell::is_function(&s, "f"));
    assert_eq!(show(unset(&mut s, &command("unset", &["-f", "f"]))), "Ok(Nothing)");
    assert!(!rsh::shell::is_function(&s, "f"));
    assert_eq!(show(unset(&mut s, &command("unset", &["-c", "ns"]))), "Ok(Nothing)");
    assert!(s.context_manager.get_context_by_name("ns").is_none());
    assert_eq!(BuiltinError::UnsetNeedsArgument.message(), "unset needs an argument");
    assert_eq!(BuiltinError::UnsetInvalidOption.message(), "unset: invalid option");
}

#[test]
fn source_binds_its_arguments() {
    let mut s = shell();
    assert_eq!(show(source(&mut s, &command("source", &[]))), "Err(SourceNeedsArgument)");
    assert_eq!(
        show(source(&mut s, &command("source", &["lib.sh", "one", "two"]))),
        "Ok(Source { file: \"lib.sh\", search_path: true, saved: [None, None] })"
    );
    assert_eq!(value(&s, "1").as_deref(), Some("one"));
    assert_eq!(value(&s, "2").as_deref(), Some("two"));
    assert_eq!(value(&s, "3"), None);
    assert_eq!(
        show(source(&mut s, &command(".", &["./lib.sh"]))),
        "Ok(Source { file: \"./lib.sh\", search_path: false, saved: [] })"
    );
    assert_eq!(BuiltinError::SourceNeedsArgument.message(), "source needs an argument");
}

#[test]
fn export_promotes_to_the_environment_scope() {
    let mut s = shell();
    s.context_manager.push_context_new();
    s.context_manager.add_var("LOCAL=l");
    rsh::shell::add_function(
        &mut s,
        "f",
        rsh::ast::FunctionBody {
            compound_command: rsh::ast::CompoundCommand::BraceGroup(rsh::ast::BraceGroup(
                rsh::ast::CompoundList(rsh::ast::Term(Vec::new())),
            )),
            redirect_list: None,
        },
    );
    assert_eq!(show(export(&mut s, &command("export", &[]))), "Ok(PrintEnvironment)");
    assert_eq!(show(export(&mut s, &command("export", &["-p", "A=1"]))), "Ok(PrintEnvironment)");
    assert_eq!(
        show(export(&mut s, &command("export", &["A=1", "LOCAL", "f", "nothing", "B=x=y"]))),
        "Ok(Export([(\"A\", \"1\"), (\"LOCAL\", \"l\"), (\"B\", \"x=y\")]))"
    );
    s.context_manager.pop_context();
    assert_eq!(value(&s, "A").as_deref(), Some("1"));
    assert_eq!(value(&s, "LOCAL").as_deref(), Some("l"));
    assert_eq!(value(&s, "B").as_deref(), Some("x=y"));
    assert_eq!(value(&s, "nothing"), None);
    assert!(rsh::shell::is_function(&s, "f"));
}

#[test]
fn export_context_exports_a_scope() {
    let mut s = shell();
    s.context_manager.push_context_new();
    s.context_manager.add_var("K=v");
    assert_eq!(
        show(export(&mut s, &command("export", &["context"]))),
        "Err(ExportContextNeedsArgument)"
    );
    assert_eq!(
        show(export(&mut s, &command("export", &["context", "self"]))),
        "Err(ExportContextNeedsArgument)"
    );
    assert_eq!(show(export(&mut s, &command("export", &["context", "lib=self"]))), "Ok(Nothing)");
    assert_eq!(value(&s, "lib::K").as_deref(), Some("v"));
    s.context_manager.add_var("K=later");
    assert_eq!(value(&s, "lib::K").as_deref(), Some("v"));
    s.context_manager.add_var_pos("0=me", 1);
    assert_eq!(show(export(&mut s, &command("export", &["context", "self"]))), "Ok(Nothing)");
    assert_eq!(value(&s, "me::K").as_deref(), Some("later"));
    assert_eq!(
        show(export(&mut s, &command("export", &["context", "ns=lib.sh"]))),
        "Ok(ExportFile { namespace: \"ns\", file: \"lib.sh\" })"
    );
    assert_eq!(
        show(export(&mut s, &command("export", &["context", "lib.sh"]))),
        "Ok(ExportFile { namespace: \"lib.sh\", file: \"lib.sh\" })"
    );
    assert_eq!(
        BuiltinError::ExportContextNeedsArgument.message(),
        "export context needs an argument"
    );
}

#[test]
fn readonly_marks_and_lists() {
    let mut s = shell();
    s.context_manager.add_var("X=1");
    assert_eq!(show(readonly(&mut s, &command("readonly", &[]))), "Err(ReadonlyNeedsArgument)");
    assert_eq!(show(readonly(&mut s, &command("readonly", &["-x"]))), "Err(ReadonlyInvalidOption)");
    assert_eq!(show(readonly(&mut s, &command("readonly", &["-v"]))), "Err(ReadonlyNeedsArgument)");
    assert_eq!(show(readonly(&mut s, &command("readonly", &["-c", "-p"]))), "Err(ReadonlyNeedsArgument)");
    assert_eq!(show(readonly(&mut s, &command("readonly", &["X"]))), "Ok(Nothing)");
    assert!(s.context_manager.get_var("X").unwrap().readonly);
    assert_eq!(show(readonly(&mut s, &command("readonly", &["-v", "Y=2"]))), "Ok(Nothing)");
    assert_eq!(value(&s, "Y").as_deref(), Some("2"));
    assert!(s.context_manager.get_var("Y").unwrap().readonly);
    assert_eq!(show(readonly(&mut s, &command("readonly", &["missing"]))), "Ok(Nothing)");
    assert_eq!(value(&s, "missing"), None);
    assert_eq!(
        show(readonly(&mut s, &command("readonly", &["-p"]))),
        "Ok(ListReadonly { kind: Variable, namespace: None })"
    );
    assert_eq!(
        show(readonly(&mut s, &command("readonly", &["-p", "-f", "x"]))),
        "Ok(ListReadonly { kind: Function, namespace: None })"
    );
    assert_eq!(
        show(readonly(&mut s, &command("readonly", &["-c", "-p", "ns"]))),
        "Ok(ListReadonly { kind: Context, namespace: Some(\"ns\") })"
    );
    rsh::shell::add_function(
        &mut s,
        "f",
        rsh::ast::FunctionBody {
            compound_command: rsh::ast::CompoundCommand::BraceGroup(rsh::ast::BraceGroup(
                rsh::ast::CompoundList(rsh::ast::Term(Vec::new())),
            )),
            redirect_list: None,
        },
    );
    assert_eq!(show(readonly(&mut s, &command("readonly", &["-f", "f"]))), "Ok(Nothing)");
    assert!(s.context_manager.get_env_context().is_readonly_function("f"));
    assert_eq!(Flags::Variable, Flags::Variable);
    assert_eq!(BuiltinError::ReadonlyNeedsArgument.message(), "readonly needs an argument");
    assert_eq!(BuiltinError::ReadonlyInvalidOption.message(), "readonly: invalid option");
}

#[test]
fn exec_reads_its_options() {
    assert_eq!(show(exec_cmd(&command("exec", &[]))), "Err(ExecNeedsArgument)");
    assert_eq!(show(exec_cmd(&command("exec", &["-c", "-l"]))), "Err(ExecNeedsArgument)");
    assert_eq!(show(exec_cmd(&command("exec", &["-a"]))), "Err(ExecRenameNeedsArgument)");
    assert_eq!(show(exec_cmd(&command("exec", &["-a", "name"]))), "Err(ExecRenameNeedsArgument)");
    assert_eq!(
        show(exec_cmd(&command("exec", &["ls", "-l", "-c"]))),
        "Ok(Exec { clear_env: false, command: \"ls\", argv: [\"ls\", \"-l\", \"-c\"] })"
    );
    assert_eq!(
        show(exec_cmd(&command("exec", &["-c", "env"]))),
        "Ok(Exec { clear_env: true, command: \"env\", argv: [\"env\"] })"
    );
    assert_eq!(
        show(exec_cmd(&command("exec", &["-l", "sh", "x"]))),
        "Ok(Exec { clear_env: false, command: \"sh\", argv: [\"-sh\", \"x\"] })"
    );
    assert_eq!(
        show(exec_cmd(&command("exec", &["-a", "nice", "sh"]))),
        "Ok(Exec { clear_env: false, command: \"sh\", argv: [\"nice\"] })"
    );
    assert_eq!(
        show(exec_cmd(&command("exec", &["-l", "-a", "nice", "-c", "sh", "-x"]))),
        "Ok(Exec { clear_env: true, command: \"sh\", argv: [\"-nice\", \"-x\"] })"
    );
    assert_eq!(
        show(exec_cmd(&command("exec", &["-cl", "sh"]))),
        "Ok(Exec { clear_env: false, command: \"-cl\", argv: [\"-cl\", \"sh\"] })"
    );
    assert_eq!(BuiltinError::ExecNeedsArgument.message(), "exec needs an argument");
    assert_eq!(BuiltinError::ExecRenameNeedsArgument.message(), "exec -a needs an argument");
}

#[test]
fn the_dispatcher_hands_on_by_name() {
    let mut s = shell();
    assert_eq!(show(eval_builtin(&mut s, &command("cd", &["/x"]))), "Ok(ChangeDirectory(\"/x\"))");
    assert_eq!(show(eval_builtin(&mut s, &command("jobs", &[]))), "Ok(Print(\"\"))");
    assert_eq!(show(eval_builtin(&mut s, &command("alias", &["a=b"]))), "Ok(Nothing)");
    assert_eq!(show(eval_builtin(&mut s, &command("unalias", &["a"]))), "Ok(Nothing)");
    assert_eq!(show(eval_builtin(&mut s, &command("fg", &[]))), "Err(FgbgNeedsArgument)");
    assert_eq!(show(eval_builtin(&mut s, &command("bg", &[]))), "Err(FgbgNeedsArgument)");
    assert_eq!(show(eval_builtin(&mut s, &command("export", &[]))), "Ok(PrintEnvironment)");
    assert_eq!(show(eval_builtin(&mut s, &command("unset", &["x"]))), "Ok(Nothing)");
    assert_eq!(show(eval_builtin(&mut s, &command("readonly", &["x"]))), "Ok(Nothing)");
    assert_eq!(show(eval_builtin(&mut s, &command("exec", &[]))), "Err(ExecNeedsArgument)");
    assert_eq!(show(eval_builtin(&mut s, &command("source", &[]))), "Err(SourceNeedsArgument)");
    assert_eq!(show(eval_builtin(&mut s, &command(".", &[]))), "Err(SourceNeedsArgument)");
    assert_eq!(show(eval_builtin(&mut s, &command("eval", &["x"]))), "Ok(Eval(\"x\\n\"))");
    assert_eq!(show(eval_builtin(&mut s, &assigning(&["V=1"]))), "Ok(Nothing)");
    assert_eq!(value(&s, "V").as_deref(), Some("1"));
    assert_eq!(show(eval_builtin(&mut s, &command("return", &["2"]))), "Ok(Nothing)");
    assert_eq!(show(eval_builtin(&mut s, &command("exit", &[]))), "Ok(Exit(2))");
    assert_eq!(show(eval_builtin(&mut s, &command("ls", &[]))), "Err(NotImplemented)");
    assert_eq!(show(eval_builtin(&mut s, &command("pwd", &[]))), "Err(NotImplemented)");
    assert_eq!(BuiltinError::NotImplemented.message(), "Not implemented");
}

#[test]
fn source_gives_the_positional_parameters_back() {
    let mut s = shell();
    s.context_manager.add_var("1=first");
    s.context_manager.add_var("X=kept");
    let saved = match source(&mut s, &command("source", &["lib.sh", "one", "two", "three"])) {
        Ok(Effect::Source { file, search_path, saved }) => {
            assert_eq!(file, "lib.sh");
            assert!(search_path);
            saved
        },
        other => panic!("{:?}", other),
    };
    assert_eq!(saved, vec![Some("first".to_string()), None, None]);
    assert_eq!(value(&s, "1").as_deref(), Some("one"));
    assert_eq!(value(&s, "2").as_deref(), Some("two"));
    assert_eq!(value(&s, "3").as_deref(), Some("three"));
    s.context_manager.add_var("X=changed");
    s.context_manager.add_var("Y=new");
    leave_source(&mut s, &saved);
    assert_eq!(value(&s, "1").as_deref(), Some("first"));
    assert_eq!(value(&s, "2"), None);
    assert_eq!(value(&s, "3"), None);
    assert_eq!(value(&s, "X").as_deref(), Some("changed"));
    assert_eq!(value(&s, "Y").as_deref(), Some("new"));
    leave_source(&mut s, &Vec::new());
    assert_eq!(value(&s, "1").as_deref(), Some("first"));
}

#[test]
fn source_leaves_a_readonly_parameter() {
    let mut s = shell();
    s.context_manager.add_var_readonly("1=fixed");
    let saved = match source(&mut s, &command(".", &["./lib.sh", "one", "two"])) {
        Ok(Effect::Source { saved, search_path, .. }) => {
            assert!(!search_path);
            saved
        },
        other => panic!("{:?}", other),
    };
    assert_eq!(saved, vec![Some("fixed".to_string()), None]);
    assert_eq!(value(&s, "1").as_deref(), Some("fixed"));
    assert_eq!(value(&s, "2").as_deref(), Some("two"));
    leave_source(&mut s, &saved);
    assert_eq!(value(&s, "1").as_deref(), Some("fixed"));
    assert!(s.context_manager.get_var("1").unwrap().readonly);
    assert_eq!(value(&s, "2"), None);
}

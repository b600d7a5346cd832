use rsh::args::{apply_invocation, parse_args, parse_dash_arg, Mode};
use rsh::ast::{BraceGroup, CompoundCommand, CompoundList, FunctionBody, Term};
use rsh::context::Context;
use rsh::jobs::{JobError, Process};
use rsh::shell::{
    add_alias, add_context, add_function, add_var, add_var_context, background_jobs,
    clear_aliases, create_job, define_alias, delete_job, display_aliases, display_jobs,
    expand_var, get_current_context, get_current_job, get_env_context, get_exit_code,
    get_exit_status, get_forked, get_function, get_job, get_script_name, is_background_job,
    is_function, is_interactive, lookup_alias, lookup_command, pop_context, push_context,
    push_context_new, remove_alias, set_arg_0, set_current_job, set_exit_status, set_forked,
    set_history_location, set_input_args, set_interactive, set_script_name, update_pid_table,
    Shell, ShellAliasUtils, ShellJobUtils,
};
use rsh::status::WaitStatus;

fn shell() -> Shell {
    let env = vec![("PATH".to_string(), "/bin:/usr/bin".to_string())];
    Shell::new(&env, false, 100, 99, "/work")
}

fn process(cmd: &str) -> Process {
    Process::new(vec![cmd.to_string()], cmd.to_string(), cmd.to_string())
}

fn strings(words: &[&str]) -> Vec<String> {
    words.iter().map(|w| w.to_string()).collect()
}

#[test]
fn a_new_shell() {
    let s = shell();
    assert!(is_interactive(&s));
    assert_eq!(get_script_name(&s), "rsh");
    assert_eq!(s.history_location, "");
    assert_eq!(get_exit_code(&s), 0);
    assert!(!get_forked(&s));
    assert!(background_jobs(&s));
    assert_eq!(display_jobs(&s), "");
    assert_eq!(display_aliases(&s), "");
    assert_eq!(expand_var(&s, "PS1").as_deref(), Some("$ "));
    assert_eq!(expand_var(&s, "nope"), None);
}

#[test]
fn aliases_in_two_forms() {
    let mut s = shell();
    add_alias(&mut s, "ll='ls -l'");
    add_alias(&mut s, ("gs", "\"git status\""));
    add_alias(&mut s, "bad");
    add_alias(&mut s, "two=equals=signs");
    add_alias(&mut s, ("pair", "a=b"));
    define_alias(&mut s, "la=ls -a");
    assert_eq!(lookup_alias(&s, "ll"), Some(("ls".to_string(), Some(strings(&["-l"])))));
    assert_eq!(lookup_alias(&s, "gs"), Some(("git".to_string(), Some(strings(&["status"])))));
    assert_eq!(lookup_alias(&s, "pair"), Some(("a=b".to_string(), None)));
    assert_eq!(lookup_alias(&s, "bad"), None);
    assert_eq!(lookup_alias(&s, "two"), None);
    assert_eq!(
        display_aliases(&s),
        "alias ll='ls -l'\nalias gs='git status'\nalias pair='a=b'\nalias la='ls -a'\n"
    );
    add_alias(&mut s, "ll=ls");
    assert_eq!(lookup_alias(&s, "ll"), Some(("ls".to_string(), None)));
    add_alias(&mut s, "blank=  ");
    assert_eq!(lookup_alias(&s, "blank"), None);
    remove_alias(&mut s, "gs");
    assert_eq!(lookup_alias(&s, "gs"), None);
    clear_aliases(&mut s);
    assert_eq!(display_aliases(&s), "");
}

#[test]
fn settings() {
    let mut s = shell();
    set_history_location(&mut s, "history.txt");
    assert_eq!(s.history_location, "history.txt");
    set_interactive(&mut s, false);
    assert!(!is_interactive(&s));
    set_interactive(&mut s, true);
    set_script_name(&mut s, "run.sh");
    assert_eq!(get_script_name(&s), "run.sh");
    assert!(!is_interactive(&s));
    set_forked(&mut s, true);
    assert!(get_forked(&s));
    set_exit_status(&mut s, 0x0100);
    assert_eq!(get_exit_code(&s), 256);
    assert_eq!(get_exit_status(&s), WaitStatus::Exited(-1, 256));
    set_exit_status(&mut s, 1);
    assert_eq!(get_exit_status(&s), WaitStatus::Exited(-1, 1));
}

#[test]
fn jobs_through_the_shell() {
    let mut s = shell();
    assert_eq!(create_job(&mut s, vec![process("a")], true), Ok(1));
    assert_eq!(create_job(&mut s, vec![process("b")], false), Ok(2));
    assert!(update_pid_table(&mut s, 1, 10));
    assert!(!update_pid_table(&mut s, 1, 11));
    let mut taken = process("c");
    taken.set_pid(10);
    assert_eq!(create_job(&mut s, vec![taken], false), Err(JobError::PidInUse));
    assert_eq!(get_job(&s, 10i32).unwrap().job_id, 1);
    assert_eq!(get_job(&s, 2usize).unwrap().job_id, 2);
    assert!(get_job(&s, 3usize).is_none());
    assert!(is_background_job(&s, 1));
    assert!(!is_background_job(&s, 2));
    assert!(!background_jobs(&s));
    assert_eq!(get_current_job(&s).unwrap().job_id, 2);
    set_current_job(&mut s, 1);
    assert_eq!(get_current_job(&s).unwrap().job_id, 2);
    assert_eq!(display_jobs(&s), "[1] + Running a &\n[2] + Running b\n");
    delete_job(&mut s, 10i32);
    delete_job(&mut s, 2usize);
    assert_eq!(display_jobs(&s), "");
    assert!(get_current_job(&s).is_none());
}

#[test]
fn scopes_through_the_shell() {
    let mut s = shell();
    push_context_new(&mut s);
    assert!(set_arg_0(&mut s));
    assert_eq!(get_current_context(&s).get_var("0").unwrap().value, "rsh");
    set_input_args(&mut s, "first", 1);
    set_input_args(&mut s, "eleventh", 11);
    assert_eq!(get_env_context(&s).get_var("1").unwrap().value, "first");
    assert_eq!(get_env_context(&s).get_var("11").unwrap().value, "eleventh");
    assert!(add_var(&mut s, "A=env", 0));
    assert!(add_var(&mut s, "B=top", 1));
    assert!(!add_var(&mut s, "C=none", 2));
    add_var_context(&mut s, "A=changed");
    add_var_context(&mut s, "D=new");
    assert_eq!(get_env_context(&s).get_var("A").unwrap().value, "changed");
    assert_eq!(get_current_context(&s).get_var("D").unwrap().value, "new");
    let top = pop_context(&mut s).unwrap();
    assert_eq!(top.get_var("B").unwrap().value, "top");
    assert!(pop_context(&mut s).is_none());
    assert!(!set_arg_0(&mut s));
    add_context(&mut s, "kept", top);
    assert_eq!(expand_var(&s, "kept::D").as_deref(), Some("new"));
    let mut c = Context::new();
    rsh::context::ContextUtils::add_var(&mut c, "P=1");
    push_context(&mut s, c);
    assert_eq!(expand_var(&s, "P").as_deref(), Some("1"));
}

#[test]
fn functions_through_the_shell() {
    let mut s = shell();
    assert!(!is_function(&s, "f"));
    assert!(get_function(&s, "f").is_none());
    add_function(
        &mut s,
        "f",
        FunctionBody {
            compound_command: CompoundCommand::BraceGroup(BraceGroup(CompoundList(Term(Vec::new())))),
            redirect_list: None,
        },
    );
    assert!(is_function(&s, "f"));
    assert!(get_function(&s, "f").is_some());
}

#[test]
fn commands_are_looked_up_on_the_path() {
    let s = shell();
    assert_eq!(lookup_command(&s, "ls", &vec![false, true]), Some("/usr/bin/ls".to_string()));
    assert_eq!(lookup_command(&s, "ls", &vec![false, false]), None);
}

#[test]
fn option_words() {
    assert_eq!(parse_dash_arg("-c"), (true, false));
    assert_eq!(parse_dash_arg("-l"), (false, true));
    assert_eq!(parse_dash_arg("-lc"), (true, true));
    assert_eq!(parse_dash_arg("-xcy"), (true, false));
    assert_eq!(parse_dash_arg("-"), (false, false));
    assert_eq!(parse_dash_arg("c"), (false, false));
    assert_eq!(parse_dash_arg("cl-"), (false, false));
    assert_eq!(parse_dash_arg(""), (false, false));
}

#[test]
fn command_lines() {
    let i = parse_args(&strings(&["rsh"]));
    assert_eq!((i.mode, i.logging, i.subject.as_str(), i.args.len()), (Mode::Interactive, false, "", 0));
    let i = parse_args(&Vec::new());
    assert_eq!(i.mode, Mode::Interactive);
    let i = parse_args(&strings(&["rsh", "-l"]));
    assert_eq!((i.mode, i.logging), (Mode::Interactive, true));
    let i = parse_args(&strings(&["rsh", "run.sh", "a", "-c", "b"]));
    assert_eq!((i.mode, i.logging, i.subject.as_str()), (Mode::Script, false, "run.sh"));
    assert_eq!(i.args, strings(&["a", "-c", "b"]));
    let i = parse_args(&strings(&["rsh", "-l", "-x", "run.sh"]));
    assert_eq!((i.mode, i.logging, i.subject.as_str(), i.args.len()), (Mode::Script, true, "run.sh", 0));
    let i = parse_args(&strings(&["rsh", "-c", "echo hi", "one", "two"]));
    assert_eq!((i.mode, i.logging, i.subject.as_str()), (Mode::Command, false, "echo hi"));
    assert_eq!(i.args, strings(&["one", "two"]));
    let i = parse_args(&strings(&["rsh", "-lc", "x"]));
    assert_eq!((i.mode, i.logging, i.subject.as_str(), i.args.len()), (Mode::Command, true, "x", 0));
    let i = parse_args(&strings(&["rsh", "-c"]));
    assert_eq!((i.mode, i.subject.as_str(), i.args.len()), (Mode::Command, "", 0));
}

#[test]
fn an_invocation_sets_the_shell_up() {
    let mut s = shell();
    apply_invocation(&mut s, &parse_args(&strings(&["rsh"])));
    assert!(is_interactive(&s));
    assert_eq!(get_script_name(&s), "rsh");
    apply_invocation(&mut s, &parse_args(&strings(&["rsh", "run.sh", "a", "b"])));
    assert!(!is_interactive(&s));
    assert_eq!(get_script_name(&s), "run.sh");
    assert_eq!(expand_var(&s, "1").as_deref(), Some("a"));
    assert_eq!(expand_var(&s, "2").as_deref(), Some("b"));
    let mut s = shell();
    apply_invocation(&mut s, &parse_args(&strings(&["rsh", "-c", "echo $1", "x"])));
    assert!(!is_interactive(&s));
    assert_eq!(get_script_name(&s), "rsh");
    assert_eq!(expand_var(&s, "1").as_deref(), Some("x"));
}

#[test]
fn jobs_by_either_key() {
    let mut s = shell();
    assert!(rsh::shell::get_job_table(&s).is_empty());
    let mut one = process("a");
    one.set_pid(10);
    assert_eq!(create_job(&mut s, vec![one], true), Ok(1));
    assert_eq!(create_job(&mut s, vec![process("b")], false), Ok(2));
    let ids: Vec<usize> = rsh::shell::get_job_table(&s).iter().map(|j| j.job_id).collect();
    assert_eq!(ids, vec![1, 2]);
    assert_eq!(s.job_control.get_job_table().len(), 2);
    assert_eq!(ShellJobUtils::get_job(&s, 10i32).unwrap().job_id, 1);
    assert_eq!(ShellJobUtils::get_job(&s, 2usize).unwrap().job_id, 2);
    assert!(ShellJobUtils::get_job(&s, 11i32).is_none());
    assert!(ShellJobUtils::get_job(&s, 3usize).is_none());
    ShellJobUtils::delete_job(&mut s, 11i32);
    assert_eq!(rsh::shell::get_job_table(&s).len(), 2);
    ShellJobUtils::delete_job(&mut s, 10i32);
    assert!(ShellJobUtils::get_job(&s, 1usize).is_none());
    ShellJobUtils::delete_job(&mut s, 2usize);
    assert!(rsh::shell::get_job_table(&s).is_empty());
}

#[test]
fn a_variable_is_expanded_to_its_value() {
    let mut s = shell();
    add_var_context(&mut s, "X=1");
    assert_eq!(s.expand_variable("X").as_deref(), Some("1"));
    assert_eq!(s.expand_variable("PS2").as_deref(), Some("> "));
    assert_eq!(s.expand_variable("Y"), None);
    assert_eq!(s.expand_variable("X"), expand_var(&s, "X"));
}

#[test]
fn an_alias_leaves_the_rest_of_the_shell() {
    let mut s = shell();
    set_exit_status(&mut s, 7);
    add_var_context(&mut s, "X=1");
    assert_eq!(create_job(&mut s, vec![process("a")], true), Ok(1));
    add_alias(&mut s, "ll='ls -l'");
    add_alias(&mut s, ("gs", "\"git status\""));
    ShellAliasUtils::add_alias(&mut s, "ll=ls");
    assert_eq!(s.aliases.get("ll").map(|v| v.as_str()), Some("ls"));
    assert_eq!(s.aliases.get("gs").map(|v| v.as_str()), Some("git status"));
    assert_eq!(get_exit_code(&s), 7);
    assert!(is_interactive(&s));
    assert_eq!(expand_var(&s, "X").as_deref(), Some("1"));
    assert_eq!(rsh::shell::get_job_table(&s).len(), 1);
    ShellJobUtils::delete_job(&mut s, 1usize);
    assert_eq!(s.aliases.get("ll").map(|v| v.as_str()), Some("ls"));
    assert_eq!(get_exit_code(&s), 7);
    assert_eq!(expand_var(&s, "X").as_deref(), Some("1"));
    assert!(rsh::shell::get_job_table(&s).is_empty());
}

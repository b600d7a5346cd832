use rsh::ast::{BraceGroup, CompoundCommand, CompoundList, FunctionBody, Term};
use rsh::context::{Context, ContextManager, ContextUtils, Var};
use std::rc::Rc;

fn manager() -> ContextManager {
    let env = vec![
        ("HOME".to_string(), "/home/u".to_string()),
        ("PATH".to_string(), "/bin:/usr/bin".to_string()),
    ];
    ContextManager::new(&env, false, 100, 99, "/work")
}

fn body() -> Rc<FunctionBody> {
    Rc::new(FunctionBody {
        compound_command: CompoundCommand::BraceGroup(BraceGroup(CompoundList(Term(Vec::new())))),
        redirect_list: None,
    })
}

fn value(m: &ContextManager, name: &str) -> Option<String> {
    m.get_var(name).map(|v| v.value.clone())
}

#[test]
fn var_new_is_writable() {
    let mut v = Var::new("X", "1");
    assert_eq!(v.name, "X");
    assert_eq!(v.value, "1");
    assert!(!v.readonly);
    v.make_readonly();
    assert!(v.readonly);
    assert_eq!(v.to_string(), "X=1");
}

#[test]
fn initial_scope_holds_prompts_and_ids() {
    let m = manager();
    assert_eq!(m.depth(), 1);
    assert_eq!(value(&m, "PS1").as_deref(), Some("$ "));
    assert_eq!(value(&m, "PS2").as_deref(), Some("> "));
    assert_eq!(value(&m, "PS4").as_deref(), Some("+ "));
    assert_eq!(value(&m, "PID").as_deref(), Some("100"));
    assert_eq!(value(&m, "PPID").as_deref(), Some("99"));
    assert_eq!(value(&m, "HOME").as_deref(), Some("/home/u"));
    assert_eq!(value(&m, "PATH").as_deref(), Some("/bin:/usr/bin"));
    assert_eq!(value(&m, "PWD").as_deref(), Some("/work"));
}

#[test]
fn initial_scope_of_root_without_path() {
    let env = vec![("PS1".to_string(), "mine".to_string()), ("PWD".to_string(), "/x".to_string())];
    let m = ContextManager::new(&env, true, 1, 0, "/cwd");
    assert_eq!(value(&m, "PS1").as_deref(), Some("# "));
    assert_eq!(value(&m, "PWD").as_deref(), Some("/x"));
    assert_eq!(
        value(&m, "PATH").as_deref(),
        Some("/bin:/usr/local/sbin:/usr/local/bin:/usr/sbin:/usr/bin:/sbin:/bin")
    );
}

#[test]
fn set_then_get_returns_the_value() {
    let mut m = manager();
    m.add_var("X=1");
    assert_eq!(value(&m, "X").as_deref(), Some("1"));
    m.add_var("X=2");
    assert_eq!(value(&m, "X").as_deref(), Some("2"));
    m.add_var("Y=a=b");
    assert_eq!(value(&m, "Y").as_deref(), Some("a=b"));
    m.add_var("Q=\"quoted\"");
    assert_eq!(value(&m, "Q").as_deref(), Some("\"quoted\""));
    assert_eq!(value(&m, "X").as_deref(), Some("2"));
}

#[test]
fn readonly_variable_resists_write_and_unset() {
    let mut m = manager();
    m.add_var("R=1");
    assert!(m.set_var_readonly("R"));
    m.add_var("R=2");
    assert_eq!(value(&m, "R").as_deref(), Some("1"));
    m.remove_var("R");
    assert_eq!(value(&m, "R").as_deref(), Some("1"));
    assert!(m.get_var("R").unwrap().readonly);
    assert!(!m.set_var_readonly("missing"));
}

#[test]
fn add_var_readonly_writes_and_locks() {
    let mut m = manager();
    m.add_var_readonly("R=1");
    assert_eq!(value(&m, "R").as_deref(), Some("1"));
    assert!(m.get_var("R").unwrap().readonly);
    m.add_var_readonly("R=2");
    assert_eq!(value(&m, "R").as_deref(), Some("1"));
}

#[test]
fn assignment_writes_the_topmost_scope_that_holds_the_name() {
    let mut m = manager();
    m.add_var("X=bottom");
    m.push_context_new();
    m.add_var("X=changed");
    m.add_var("L=local");
    assert_eq!(value(&m, "X").as_deref(), Some("changed"));
    assert_eq!(value(&m, "L").as_deref(), Some("local"));
    let popped = m.pop_context().unwrap();
    assert!(popped.get_var("L").is_some());
    assert!(popped.get_var("X").is_none());
    assert_eq!(value(&m, "X").as_deref(), Some("changed"));
    assert_eq!(value(&m, "L"), None);
}

#[test]
fn the_environment_scope_is_never_popped() {
    let mut m = manager();
    assert!(m.pop_context().is_none());
    assert_eq!(m.depth(), 1);
    m.push_context_new();
    assert_eq!(m.depth(), 2);
    assert!(m.pop_context().is_some());
    assert!(m.pop_context().is_none());
    assert_eq!(m.depth(), 1);
}

#[test]
fn unset_removes_from_the_owner() {
    let mut m = manager();
    m.add_var("X=1");
    m.push_context_new();
    m.remove_var("X");
    assert_eq!(value(&m, "X"), None);
    m.remove_var("X");
    assert_eq!(value(&m, "X"), None);
}

#[test]
fn add_var_pos_writes_the_given_scope() {
    let mut m = manager();
    m.push_context_new();
    assert!(m.add_var_pos("1=one", 0));
    assert!(m.add_var_pos("0=name", 1));
    assert!(!m.add_var_pos("2=two", 2));
    assert_eq!(m.get_env_context().get_var("1").unwrap().value, "one");
    assert_eq!(m.get_context().get_var("0").unwrap().value, "name");
    assert!(m.get_context().get_var("1").is_none());
    assert_eq!(value(&m, "2"), None);
}

#[test]
fn qualified_names_reach_exported_scopes_only() {
    let mut m = manager();
    let mut scope = Context::new();
    scope.add_var("K=v");
    scope.add_function("f", body());
    m.add_context("lib", scope);
    assert_eq!(value(&m, "lib::K").as_deref(), Some("v"));
    assert_eq!(value(&m, "K"), None);
    assert_eq!(value(&m, "other::K"), None);
    assert!(m.is_function("lib::f"));
    assert!(!m.is_function("f"));
    m.add_var("lib::K=w");
    assert_eq!(value(&m, "lib::K").as_deref(), Some("v"));
    m.remove_var("lib::K");
    assert_eq!(value(&m, "lib::K"), None);
    assert!(m.get_context_by_name("lib").is_some());
    m.remove_context("lib");
    assert!(m.get_context_by_name("lib").is_none());
    assert!(!m.is_function("lib::f"));
}

#[test]
fn qualified_readonly_writes_the_exported_scope() {
    let mut m = manager();
    m.add_context("ns", Context::new());
    m.add_var_readonly("ns::A=1");
    assert_eq!(value(&m, "ns::A").as_deref(), Some("1"));
    assert!(m.get_var("ns::A").unwrap().readonly);
    m.add_var_readonly("gone::A=1");
    assert_eq!(value(&m, "gone::A"), None);
    m.add_context("ns2", Context::new());
    m.add_var_readonly("ns2::B=2");
    assert!(m.set_var_readonly("ns2::B"));
    assert!(!m.set_var_readonly("ns2::C"));
}

#[test]
fn functions_follow_the_scopes() {
    let mut m = manager();
    assert!(!m.is_function("f"));
    m.add_function("f", body());
    assert!(m.is_function("f"));
    assert!(m.get_function("f").is_some());
    m.push_context_new();
    m.add_function("g", body());
    assert!(m.is_function("g"));
    m.pop_context();
    assert!(!m.is_function("g"));
    m.remove_function("f");
    assert!(!m.is_function("f"));
}

#[test]
fn readonly_function_resists_overwrite_and_removal() {
    let mut m = manager();
    let first = body();
    m.add_function("f", first.clone());
    m.set_function_readonly("f");
    let second = body();
    m.add_function("f", second.clone());
    assert!(Rc::ptr_eq(&m.get_function("f").unwrap(), &first));
    m.remove_function("f");
    assert!(m.is_function("f"));
    assert!(m.get_env_context().is_readonly_function("f"));
    m.set_function_readonly("missing");
    assert!(!m.get_env_context().is_readonly_function("missing"));
}

#[test]
fn get_function_shares_the_body() {
    let mut m = manager();
    let b = body();
    m.add_function("f", b.clone());
    let got = m.get_function("f").unwrap();
    assert!(Rc::ptr_eq(&got, &b));
    assert_eq!(Rc::strong_count(&b), 3);
}

#[test]
fn context_utils_take_three_forms() {
    let mut c = Context::new();
    c.add_var("A=1");
    c.add_var(("B", "2"));
    c.add_var(Var::new("C", "3"));
    c.add_var_readonly("D=4");
    c.add_var_readonly(("E", "5"));
    c.add_var_readonly(Var::new("F", "6"));
    let seen: Vec<(String, String, bool)> =
        c.vars().iter().map(|v| (v.name.clone(), v.value.clone(), v.readonly)).collect();
    assert_eq!(
        seen,
        vec![
            ("A".to_string(), "1".to_string(), false),
            ("B".to_string(), "2".to_string(), false),
            ("C".to_string(), "3".to_string(), false),
            ("D".to_string(), "4".to_string(), true),
            ("E".to_string(), "5".to_string(), true),
            ("F".to_string(), "6".to_string(), true),
        ]
    );
    c.add_var("D=changed");
    assert_eq!(c.get_var("D").unwrap().value, "4");
    c.add_var("A=changed");
    assert_eq!(c.get_var("A").unwrap().value, "changed");
    c.add_var("novalue");
    assert_eq!(c.get_var("novalue").unwrap().value, "");
}

#[test]
fn duplicate_is_a_separate_copy() {
    let mut c = Context::new();
    c.add_var("A=1");
    c.add_function("f", body());
    c.make_readonly_func("f");
    let d = c.duplicate();
    c.add_var("A=2");
    assert_eq!(d.get_var("A").unwrap().value, "1");
    assert!(d.has_function("f"));
    assert!(d.is_readonly_function("f"));
}

#[test]
fn command_candidates_follow_the_path() {
    let m = manager();
    assert_eq!(m.command_candidates("ls"), vec!["/bin/ls", "/usr/bin/ls"]);
    let env = vec![("PATH".to_string(), "/a::/b:".to_string())];
    let m = ContextManager::new(&env, false, 1, 1, "/");
    assert_eq!(m.command_candidates("x"), vec!["/a/x", "/x", "/b/x", "/x"]);
    let env = vec![("PATH".to_string(), "".to_string())];
    let m = ContextManager::new(&env, false, 1, 1, "/");
    assert_eq!(m.command_candidates("x"), vec!["/x"]);
}

#[test]
fn lookup_command_takes_the_first_regular_file() {
    let m = manager();
    assert_eq!(m.lookup_command("ls", &vec![false, true]), Some("/usr/bin/ls".to_string()));
    assert_eq!(m.lookup_command("ls", &vec![true, true]), Some("/bin/ls".to_string()));
    assert_eq!(m.lookup_command("ls", &vec![false, false]), None);
    assert_eq!(m.lookup_command("ls", &vec![]), None);
    assert_eq!(m.lookup_command("ls", &vec![false]), None);
    assert_eq!(m.lookup_command("ls", &vec![false, false, true]), None);
}

fn listed(vars: &Vec<Var>) -> Vec<String> {
    vars.iter().map(|v| format!("{}{}", if v.readonly { "!" } else { "" }, v.to_string())).collect()
}

#[test]
fn all_vars_come_in_the_order_of_their_names() {
    let env = vec![("b".to_string(), "2".to_string()), ("a".to_string(), "1".to_string())];
    let mut m = ContextManager::new(&env, true, 7, 6, "/w");
    assert_eq!(
        listed(&m.all_vars()),
        vec![
            "PATH=/bin:/usr/local/sbin:/usr/local/bin:/usr/sbin:/usr/bin:/sbin:/bin",
            "PID=7",
            "PPID=6",
            "PS1=# ",
            "PS2=> ",
            "PS4=+ ",
            "PWD=/w",
            "a=1",
            "b=2",
        ]
    );
    assert!(m.all_readonly_vars().is_empty());
    assert!(m.all_readonly_functions().is_empty());
    assert!(m.all_readonly_vars_context("ns").is_empty());
    m.remove_var("PATH");
    m.remove_var("PID");
    m.remove_var("PPID");
    m.remove_var("PS1");
    m.remove_var("PS2");
    m.remove_var("PS4");
    m.remove_var("PWD");
    m.push_context_new();
    let mut upper = Context::new();
    upper.add_var(("a", "upper"));
    upper.add_var(("ab", "x"));
    upper.add_var(("B", "capital"));
    upper.add_var_readonly(("", "empty"));
    m.push_context(upper);
    assert_eq!(listed(&m.all_vars()), vec!["!=empty", "B=capital", "a=upper", "ab=x", "b=2"]);
    assert_eq!(listed(&m.all_readonly_vars()), vec!["!=empty"]);
    m.pop_context();
    assert_eq!(listed(&m.all_vars()), vec!["a=1", "b=2"]);
}

#[test]
fn a_listing_takes_the_readonly_variable_of_the_upper_scope() {
    let mut m = ContextManager::new(&Vec::new(), false, 1, 1, "/");
    m.add_var_readonly("R=low");
    m.add_var_readonly("S=low");
    let mut upper = Context::new();
    upper.add_var(("S", "plain"));
    upper.add_var_readonly(("R", "high"));
    m.push_context(upper);
    assert_eq!(listed(&m.all_readonly_vars()), vec!["!R=high", "!S=low"]);
    let all = listed(&m.all_vars());
    assert!(all.contains(&"!R=high".to_string()));
    assert!(all.contains(&"S=plain".to_string()));
    assert!(!all.contains(&"!S=low".to_string()));
}

#[test]
fn a_listing_takes_exported_scopes_after_the_stack() {
    let mut m = ContextManager::new(&Vec::new(), false, 1, 1, "/");
    m.add_var("PS1=mine");
    let mut ns = Context::new();
    ns.add_var_readonly(("z", "26"));
    ns.add_var_readonly(("PS1", "theirs"));
    ns.add_var(("plain", "p"));
    ns.add_function("g", body());
    ns.make_readonly_func("g");
    m.add_context("ns", ns);
    assert_eq!(listed(&m.all_readonly_vars_context("ns")), vec!["!PS1=theirs", "!z=26"]);
    assert!(m.all_readonly_vars_context("other").is_empty());
    assert_eq!(listed(&m.all_readonly_vars()), vec!["!PS1=theirs", "!z=26"]);
    let all = listed(&m.all_vars());
    assert!(all.contains(&"!PS1=theirs".to_string()));
    assert!(all.contains(&"plain=p".to_string()));
    assert!(!all.contains(&"PS1=mine".to_string()));
    let mut sorted = all.clone();
    sorted.sort_by(|a, b| a.trim_start_matches('!').cmp(b.trim_start_matches('!')));
    assert_eq!(all, sorted);
    m.add_function("f", body());
    m.add_function("a", body());
    m.add_function("free", body());
    m.set_function_readonly("f");
    m.set_function_readonly("a");
    m.push_context_new();
    m.add_function("f", body());
    assert_eq!(m.all_readonly_functions(), vec!["a", "f", "g"]);
}

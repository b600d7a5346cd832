//! The shell as a whole: its aliases, its scopes, its jobs, its signals and
//! the exit status of the command that ran last.

use crate::ast::FunctionBody;
use crate::context::{
    assoc, lemma_assoc_absent, lemma_assoc_push, lemma_assoc_remove, lemma_assoc_update, name_pos,
    no_dups, Context, ContextManager, ManagerView, ScopeView,
};
use crate::eval::Flow;
use crate::jobs::{
    job_views, listing, process_views, Job, JobControl, JobError, JobId, JobTableView, JobUtils,
    JobView, Process,
};
use crate::status::WaitStatus;
use crate::text::{
    chars_of, decimal, fields, push_decimal, push_str, spec_trim, split_assignment, split_fields,
    trim, views,
};
use crate::trap::TrapData;
use std::rc::Rc;
use vstd::prelude::*;

verus! {

/// The name of the shell, which is the name of the script until one is set.
pub const SHELL_NAME: &'static str = "rsh";

/// An alias: a name and the text that stands for it.
pub struct Alias {
    pub name: String,
    pub value: String,
}

/// The names of a sequence of aliases.
pub open spec fn alias_names(a: Seq<Alias>) -> Seq<Seq<char>> {
    Seq::new(a.len(), |i: int| a[i].name@)
}

/// The texts of a sequence of aliases.
pub open spec fn alias_values(a: Seq<Alias>) -> Seq<Seq<char>> {
    Seq::new(a.len(), |i: int| a[i].value@)
}

/// The aliases of the shell, in the order in which their names were first
/// defined.
pub struct AliasTable {
    entries: Vec<Alias>,
}

impl View for AliasTable {
    type V = Map<Seq<char>, Seq<char>>;

    closed spec fn view(&self) -> Map<Seq<char>, Seq<char>> {
        assoc(alias_names(self.entries@), alias_values(self.entries@))
    }
}

/// The lines that show the aliases `names[from..]` with their texts.
pub open spec fn alias_lines(names: Seq<Seq<char>>, values: Seq<Seq<char>>, from: int) -> Seq<char>
    decreases names.len() - from,
{
    if from >= names.len() {
        Seq::empty()
    } else {
        "alias "@ + names[from] + "='"@ + values[from] + "'\n"@ + alias_lines(
            names,
            values,
            from + 1,
        )
    }
}

impl AliasTable {
    /// No name is defined twice.
    pub closed spec fn wf(&self) -> bool {
        no_dups(alias_names(self.entries@))
    }

    /// The names of the aliases, in the order of the table.
    pub closed spec fn names(&self) -> Seq<Seq<char>> {
        alias_names(self.entries@)
    }

    /// The texts of the aliases, in the order of the table.
    pub closed spec fn values(&self) -> Seq<Seq<char>> {
        alias_values(self.entries@)
    }

    /// A table without aliases: no name is defined, and its listing is empty.
    pub fn new() -> (t: AliasTable)
        ensures
            t.wf(),
            t@ == Map::<Seq<char>, Seq<char>>::empty(),
            t.names() == Seq::<Seq<char>>::empty(),
            t.values() == Seq::<Seq<char>>::empty(),
    {
        let t = AliasTable { entries: Vec::new() };
        assert(t@ =~= Map::<Seq<char>, Seq<char>>::empty());
        assert(t.names() =~= Seq::<Seq<char>>::empty());
        assert(t.values() =~= Seq::<Seq<char>>::empty());
        t
    }

    fn find(&self, name: &String) -> (r: Option<usize>)
        ensures
            r is Some <==> self@.contains_key(name@),
            r matches Some(i) ==> i < self.entries.len() && i == name_pos(
                alias_names(self.entries@),
                name@,
                0,
            ) && self.entries[i as int].value@ == self@[name@],
    {
        let mut i: usize = 0;
        while i < self.entries.len()
            invariant
                i <= self.entries.len(),
                name_pos(alias_names(self.entries@), name@, 0) == name_pos(
                    alias_names(self.entries@),
                    name@,
                    i as int,
                ),
            decreases self.entries.len() - i,
        {
            if self.entries[i].name == *name {
                return Some(i);
            }
            i += 1;
        }
        None
    }

    /// Defines `name` as an alias for `value`.
    pub fn insert(&mut self, name: String, value: String)
        requires
            old(self).wf(),
        ensures
            final(self).wf(),
            final(self)@ == old(self)@.insert(name@, value@),
    {
        let ghost names = alias_names(self.entries@);
        let ghost vals = alias_values(self.entries@);
        let ghost n = name@;
        let ghost v = value@;
        match self.find(&name) {
            Some(i) => {
                self.entries[i].value = value;
                proof {
                    assert(alias_names(self.entries@) =~= names);
                    assert(alias_values(self.entries@) =~= vals.update(i as int, v));
                    lemma_assoc_update(names, vals, n, v);
                }
            },
            None => {
                self.entries.push(Alias { name, value });
                proof {
                    assert(alias_names(self.entries@) =~= names.push(n));
                    assert(alias_values(self.entries@) =~= vals.push(v));
                    lemma_assoc_push(names, vals, n, v);
                }
            },
        }
    }

    /// The text that `name` stands for.
    pub fn get(&self, name: &str) -> (r: Option<&String>)
        ensures
            r is Some <==> self@.contains_key(name@),
            r matches Some(v) ==> v@ == self@[name@],
    {
        let key = name.to_owned();
        match self.find(&key) {
            Some(i) => Some(&self.entries[i].value),
            None => None,
        }
    }

    /// Removes the alias `name`.
    pub fn remove(&mut self, name: &str)
        requires
            old(self).wf(),
        ensures
            final(self).wf(),
            final(self)@ == old(self)@.remove(name@),
    {
        let key = name.to_owned();
        let ghost names = alias_names(self.entries@);
        let ghost vals = alias_values(self.entries@);
        match self.find(&key) {
            Some(i) => {
                self.entries.remove(i);
                proof {
                    assert(alias_names(self.entries@) =~= names.remove(i as int));
                    assert(alias_values(self.entries@) =~= vals.remove(i as int));
                    lemma_assoc_remove(names, vals, name@);
                }
            },
            None => {
                proof {
                    lemma_assoc_absent(names, vals, name@);
                }
            },
        }
    }

    /// Removes every alias.
    pub fn clear(&mut self)
        ensures
            final(self).wf(),
            final(self)@ == Map::<Seq<char>, Seq<char>>::empty(),
    {
        self.entries.clear();
        assert(self@ =~= Map::<Seq<char>, Seq<char>>::empty());
    }

    /// The aliases, one line each: `alias NAME='TEXT'`.
    pub fn display(&self) -> (r: String)
        ensures
            r@ == alias_lines(self.names(), self.values(), 0),
    {
        let n = self.entries.len();
        let mut out = String::new();
        let mut i: usize = n;
        while i > 0
            invariant
                i <= n == self.entries.len(),
                out@ == alias_lines(self.names(), self.values(), i as int),
            decreases i,
        {
            i -= 1;
            let mut line = String::new();
            push_str(&mut line, "alias ");
            push_str(&mut line, self.entries[i].name.as_str());
            push_str(&mut line, "='");
            push_str(&mut line, self.entries[i].value.as_str());
            push_str(&mut line, "'\n");
            push_str(&mut line, out.as_str());
            out = line;
        }
        out
    }
}

/// The shell.
pub struct Shell {
    /// The shell reads its commands from a terminal.
    pub interactive: bool,
    /// The name of the script that runs, or of the shell.
    pub script_name: String,
    /// Where the history of the command line is kept.
    pub history_location: String,
    /// The aliases.
    pub aliases: AliasTable,
    /// The jobs.
    pub job_control: JobControl,
    /// The scopes of variables and functions.
    pub context_manager: ContextManager,
    /// The bookkeeping of signals.
    pub trap: TrapData,
    /// The exit status of the command that ran last.
    pub exit_status: i32,
    /// Whether a `return` or an `exit` was met.
    pub flow: Flow,
    /// This process is a child that the shell forked.
    pub forked: bool,
}

/// What can be given to `add_alias`: a definition `NAME=TEXT`, or a pair of
/// name and text.
pub trait ShellAliasUtils<S> {
    /// The aliases of the shell.
    spec fn alias_table(&self) -> Map<Seq<char>, Seq<char>>;

    /// The invariant of the shell.
    spec fn shell_wf(&self) -> bool;

    /// The aliases after `input` was taken.
    spec fn with_alias(&self, input: S) -> Map<Seq<char>, Seq<char>>;

    /// Tells whether the shell is as `before` was, but for its aliases.
    spec fn kept_but_aliases(&self, before: &Self) -> bool;

    /// Defines the alias that `input` gives, and leaves the rest of the shell
    /// as it is.
    fn add_alias(&mut self, input: S)
        requires
            old(self).shell_wf(),
        ensures
            final(self).shell_wf(),
            final(self).alias_table() == old(self).with_alias(input),
            final(self).kept_but_aliases(old(self)),
    ;
}

/// Finding and deleting a job of the shell by a key: the number of the job,
/// or the id of one of its processes.
pub trait ShellJobUtils<I> {
    /// The job table of the shell.
    spec fn jobs(&self) -> JobTableView;

    /// The job that the key names, if there is one.
    spec fn job_named(&self, id: I) -> Option<JobView>;

    /// The job table after a request to delete the job that the key names.
    spec fn jobs_without(&self, id: I) -> JobTableView;

    /// Tells whether the shell is as `before` was, but for its jobs.
    spec fn kept_but_jobs(&self, before: &Self) -> bool;

    /// Deletes the job that the key names, unless it is kept as stopped, and
    /// leaves the rest of the shell as it is.
    fn delete_job(&mut self, job: I)
        requires
            old(self).jobs().wf(),
        ensures
            final(self).jobs().wf(),
            final(self).jobs() == old(self).jobs_without(job),
            final(self).kept_but_jobs(old(self)),
    ;

    /// The job that the key names.
    fn get_job(&self, id: I) -> (r: Option<&Job>)
        requires
            self.jobs().wf(),
        ensures
            r is Some <==> self.job_named(id) is Some,
            r matches Some(j) ==> Some(j@) == self.job_named(id),
    ;
}

impl ShellJobUtils<i32> for Shell {
    open spec fn jobs(&self) -> JobTableView {
        self.job_control@
    }

    open spec fn job_named(&self, id: i32) -> Option<JobView> {
        self.job_control@.job_of_pid(id)
    }

    open spec fn jobs_without(&self, id: i32) -> JobTableView {
        self.job_control@.deleted_pid(id)
    }

    open spec fn kept_but_jobs(&self, before: &Shell) -> bool {
        *self == (Shell { job_control: self.job_control, ..*before })
    }

    fn delete_job(&mut self, job: i32) {
        self.job_control.delete_job_by_pid(job);
    }

    fn get_job(&self, id: i32) -> (r: Option<&Job>) {
        self.job_control.job_by_pid(id)
    }
}

impl ShellJobUtils<JobId> for Shell {
    open spec fn jobs(&self) -> JobTableView {
        self.job_control@
    }

    open spec fn job_named(&self, id: JobId) -> Option<JobView> {
        self.job_control@.job(id)
    }

    open spec fn jobs_without(&self, id: JobId) -> JobTableView {
        self.job_control@.deleted(id)
    }

    open spec fn kept_but_jobs(&self, before: &Shell) -> bool {
        *self == (Shell { job_control: self.job_control, ..*before })
    }

    fn delete_job(&mut self, job: JobId) {
        self.job_control.delete_job_by_id(job);
    }

    fn get_job(&self, id: JobId) -> (r: Option<&Job>) {
        self.job_control.job_by_id(id)
    }
}

/// The number of `=` in `s[from..]`.
pub open spec fn count_eq(s: Seq<char>, from: int) -> nat
    decreases s.len() - from,
{
    if from >= s.len() {
        0
    } else if s[from] == '=' {
        1 + count_eq(s, from + 1)
    } else {
        count_eq(s, from + 1)
    }
}

impl Shell {
    /// The invariant of the shell: that of its parts.
    pub open spec fn wf(&self) -> bool {
        self.aliases.wf() && self.job_control.wf() && self.context_manager.wf()
    }

    /// The value of the variable that a name reaches.
    pub fn expand_variable(&self, var: &str) -> (r: Option<String>)
        requires
            self.wf(),
        ensures
            r is Some <==> self.context_manager@.lookup_var(var@) is Some,
            r matches Some(s) ==> s@ == self.context_manager@.lookup_var(var@)->0.value,
    {
        self.context_manager.value_of(var)
    }

    /// A shell at its start: interactive, named `rsh`, without aliases and
    /// jobs, with the environment scope that `ContextManager::new` makes of
    /// what the host process gives.
    pub fn new(env: &Vec<(String, String)>, is_root: bool, pid: i32, ppid: i32, cwd: &str) -> (s:
        Shell)
        ensures
            s.wf(),
            s.interactive,
            s.script_name@ == SHELL_NAME@,
            s.history_location@ == Seq::<char>::empty(),
            s.aliases@ == Map::<Seq<char>, Seq<char>>::empty(),
            s.job_control@.jobs.len() == 0,
            s.context_manager@.stack == seq![
                crate::context::initial_scope(env@, is_root, pid, ppid, cwd@),
            ],
            s.exit_status == 0,
            s.flow == Flow::Continue,
            !s.forked,
            !s.trap.interrupts_are_off(),
    {
        Shell {
            interactive: true,
            script_name: SHELL_NAME.to_owned(),
            history_location: String::new(),
            aliases: AliasTable::new(),
            job_control: JobControl::new(),
            context_manager: ContextManager::new(env, is_root, pid, ppid, cwd),
            trap: TrapData::new(),
            exit_status: 0,
            flow: Flow::Continue,
            forked: false,
        }
    }

    /// The head and the tail of the alias of `command`: its first token, and
    /// the tokens after it if there are any. A command without an alias, and
    /// one whose alias holds no token, has none.
    pub fn lookup_alias(&self, command: &str) -> (r: Option<(String, Option<Vec<String>>)>)
        ensures
            r is Some <==> self.aliases@.contains_key(command@) && fields(
                self.aliases@[command@],
            ).len() > 0,
            r matches Some(p) ==> {
                let tokens = fields(self.aliases@[command@]);
                &&& p.0@ == tokens[0]
                &&& p.1 is Some <==> tokens.len() > 1
                &&& p.1 matches Some(tail) ==> views(tail@) == tokens.subrange(
                    1,
                    tokens.len() as int,
                )
            },
    {
        let value = match self.aliases.get(command) {
            Some(v) => v,
            None => {
                return None;
            },
        };
        let mut tokens = split_fields(&chars_of(value.as_str()));
        if tokens.len() == 0 {
            return None;
        }
        let ghost all = views(tokens@);
        let head = tokens.remove(0);
        assert(views(tokens@) =~= all.subrange(1, all.len() as int));
        if tokens.len() == 0 {
            Some((head, None))
        } else {
            Some((head, Some(tokens)))
        }
    }

    /// Sets the place where the history is kept.
    pub fn set_history_location(&mut self, location: &str)
        ensures
            *final(self) == (Shell { history_location: final(self).history_location, ..*old(self) }),
            final(self).history_location@ == location@,
    {
        self.history_location = location.to_owned();
    }

    /// The aliases of the shell, one line each.
    pub fn display_aliases(&self) -> (r: String)
        ensures
            r@ == alias_lines(self.aliases.names(), self.aliases.values(), 0),
    {
        self.aliases.display()
    }

    /// Tells whether no job runs in the background.
    pub fn background_jobs(&self) -> (r: bool)
        ensures
            r == self.job_control@.no_background(),
    {
        self.job_control.background_jobs()
    }

    /// Tells whether a job is in the table and runs in the background.
    pub fn is_background_job(&self, job_id: JobId) -> (r: bool)
        ensures
            r == (self.job_control@.job(job_id) is Some && self.job_control@.job(
                job_id,
            )->0.background),
    {
        self.job_control.is_background_job(job_id)
    }

    /// Binds a process id to a process of a job: see
    /// `JobControl::update_pid_table`.
    pub fn update_pid_table(&mut self, job_id: JobId, pid: i32) -> (ok: bool)
        requires
            old(self).wf(),
        ensures
            final(self).wf(),
            ok == old(self).job_control@.can_bind(job_id, pid),
            final(self).job_control@ == (if ok {
                old(self).job_control@.bound(job_id, pid)
            } else {
                old(self).job_control@
            }),
            *final(self) == (Shell { job_control: final(self).job_control, ..*old(self) }),
    {
        self.job_control.update_pid_table(job_id, pid)
    }

    /// Creates a job: see `JobControl::create_job`.
    pub fn create_job(&mut self, processes: Vec<Process>, background: bool) -> (r: Result<
        JobId,
        JobError,
    >)
        requires
            old(self).wf(),
        ensures
            final(self).wf(),
            *final(self) == (Shell { job_control: final(self).job_control, ..*old(self) }),
            match r {
                Ok(id) => {
                    &&& !old(self).job_control@.clashes(process_views(processes@))
                    &&& id == old(self).job_control@.next_id
                    &&& id < usize::MAX
                    &&& final(self).job_control@ == old(self).job_control@.created(
                        process_views(processes@),
                        background,
                    )
                },
                Err(JobError::PidInUse) => {
                    &&& old(self).job_control@.clashes(process_views(processes@))
                    &&& final(self).job_control@ == old(self).job_control@
                },
                Err(JobError::TableFull) => {
                    &&& !old(self).job_control@.clashes(process_views(processes@))
                    &&& old(self).job_control@.next_id == usize::MAX
                    &&& final(self).job_control@ == old(self).job_control@
                },
            },
    {
        self.job_control.create_job(processes, background)
    }

    /// The listing of the jobs of the shell, in the order of their numbers.
    pub fn display_jobs(&self) -> (r: String)
        requires
            self.wf(),
        ensures
            r@ == listing(self.job_control@.jobs, job_marker(self.context_manager@), 0),
    {
        let marker = match self.context_manager.value_of("PS4") {
            Some(v) => v,
            None => String::new(),
        };
        self.job_control.display(marker.as_str())
    }

    /// The current job.
    pub fn get_current_job(&self) -> (r: Option<&Job>)
        requires
            self.wf(),
        ensures
            r is Some <==> self.job_control@.current is Some,
            r matches Some(j) ==> Some(j@) == self.job_control@.job(self.job_control@.current->0),
    {
        self.job_control.get_current_job()
    }

    /// The path of a command: see `ContextManager::lookup_command`.
    pub fn lookup_command(&self, command: &str, regular: &Vec<bool>) -> (r: Option<String>)
        requires
            self.wf(),
        ensures
            ({
                let c = self.context_manager@.command_paths(command@);
                let k = crate::context::first_flagged(regular@, c.len() as int, 0);
                &&& r is Some <==> k < c.len()
                &&& r matches Some(p) ==> p@ == c[k]
            }),
    {
        self.context_manager.lookup_command(command, regular)
    }

    /// Pushes a scope: see `ContextManager::push_context`.
    pub fn push_context(&mut self, context: Context)
        requires
            old(self).wf(),
            context.wf(),
        ensures
            final(self).wf(),
            final(self).context_manager@ == old(self).context_manager@.pushed(context@),
            *final(self) == (Shell { context_manager: final(self).context_manager, ..*old(self) }),
    {
        self.context_manager.push_context(context);
    }

    /// Pushes an empty scope, which becomes the current one.
    pub fn push_context_new(&mut self)
        requires
            old(self).wf(),
        ensures
            final(self).wf(),
            final(self).context_manager@ == old(self).context_manager@.pushed(ScopeView::empty()),
            *final(self) == (Shell { context_manager: final(self).context_manager, ..*old(self) }),
    {
        self.context_manager.push_context_new();
    }

    /// Pops the current scope: see `ContextManager::pop_context`.
    pub fn pop_context(&mut self) -> (r: Option<Context>)
        requires
            old(self).wf(),
        ensures
            final(self).wf(),
            final(self).context_manager@ == old(self).context_manager@.popped(),
            r is Some <==> old(self).context_manager@.stack.len() > 1,
            r matches Some(c) ==> c.wf() && c@ == old(self).context_manager@.stack.last(),
            *final(self) == (Shell { context_manager: final(self).context_manager, ..*old(self) }),
    {
        self.context_manager.pop_context()
    }

    /// Exports a scope under a namespace: see `ContextManager::add_context`.
    pub fn add_context(&mut self, namespace: &str, context: Context)
        requires
            old(self).wf(),
            context.wf(),
        ensures
            final(self).wf(),
            final(self).context_manager@ == old(self).context_manager@.with_exported(
                namespace@,
                context@,
            ),
            *final(self) == (Shell { context_manager: final(self).context_manager, ..*old(self) }),
    {
        self.context_manager.add_context(namespace, context);
    }

    /// The current scope.
    pub fn get_current_context(&self) -> (c: &Context)
        requires
            self.wf(),
        ensures
            c.wf(),
            c@ == self.context_manager@.stack.last(),
    {
        self.context_manager.get_context()
    }

    /// The environment scope.
    pub fn get_env_context(&self) -> (c: &Context)
        requires
            self.wf(),
        ensures
            c.wf(),
            c@ == self.context_manager@.stack[0],
    {
        self.context_manager.get_env_context()
    }

    /// Carries out an assignment in scope `index` of the stack. Tells whether
    /// there is such a scope.
    pub fn add_var(&mut self, set: &str, index: usize) -> (ok: bool)
        requires
            old(self).wf(),
        ensures
            final(self).wf(),
            ok == (index < old(self).context_manager@.stack.len()),
            final(self).context_manager@ == old(self).context_manager@.assigned_at(
                set@,
                index as int,
            ),
            *final(self) == (Shell { context_manager: final(self).context_manager, ..*old(self) }),
    {
        self.context_manager.add_var_pos(set, index)
    }

    /// Carries out an assignment `NAME=VALUE`: see `ContextManager::add_var`.
    pub fn add_var_context(&mut self, set: &str)
        requires
            old(self).wf(),
        ensures
            final(self).wf(),
            final(self).context_manager@ == old(self).context_manager@.assigned(set@),
            *final(self) == (Shell { context_manager: final(self).context_manager, ..*old(self) }),
    {
        self.context_manager.add_var(set);
    }

    /// Binds a function: see `ContextManager::add_function`.
    pub fn add_function(&mut self, name: &str, body: FunctionBody)
        requires
            old(self).wf(),
        ensures
            final(self).wf(),
            final(self).context_manager@ == old(self).context_manager@.with_function(name@, body),
            *final(self) == (Shell { context_manager: final(self).context_manager, ..*old(self) }),
    {
        self.context_manager.add_function(name, Rc::new(body));
    }

    /// Tells whether a name reaches a function.
    pub fn is_function(&self, name: &str) -> (r: bool)
        requires
            self.wf(),
        ensures
            r == self.context_manager@.lookup_function(name@) is Some,
    {
        self.context_manager.is_function(name)
    }

    /// The function that a name reaches.
    pub fn get_function(&self, name: &str) -> (r: Option<Rc<FunctionBody>>)
        requires
            self.wf(),
        ensures
            r is Some <==> self.context_manager@.lookup_function(name@) is Some,
            r matches Some(b) ==> Some(*b) == self.context_manager@.lookup_function(name@),
    {
        self.context_manager.get_function(name)
    }
}

impl<'a> ShellAliasUtils<&'a str> for Shell {
    open spec fn alias_table(&self) -> Map<Seq<char>, Seq<char>> {
        self.aliases@
    }

    open spec fn shell_wf(&self) -> bool {
        self.wf()
    }

    /// A definition `NAME=TEXT` with exactly one `=` defines `NAME` as `TEXT`
    /// without its outer quotes; any other text defines nothing.
    open spec fn with_alias(&self, input: &'a str) -> Map<Seq<char>, Seq<char>> {
        alias_defined(self.aliases@, input@)
    }

    open spec fn kept_but_aliases(&self, before: &Shell) -> bool {
        same_but_aliases(*before, *self)
    }

    fn add_alias(&mut self, input: &'a str) {
        define_alias(self, input);
    }
}

impl<'a, 'b> ShellAliasUtils<(&'a str, &'b str)> for Shell {
    open spec fn alias_table(&self) -> Map<Seq<char>, Seq<char>> {
        self.aliases@
    }

    open spec fn shell_wf(&self) -> bool {
        self.wf()
    }

    /// A pair defines its first part as its second part without its outer
    /// quotes.
    open spec fn with_alias(&self, input: (&'a str, &'b str)) -> Map<Seq<char>, Seq<char>> {
        self.aliases@.insert(input.0@, spec_trim(input.1@))
    }

    open spec fn kept_but_aliases(&self, before: &Shell) -> bool {
        same_but_aliases(*before, *self)
    }

    fn add_alias(&mut self, input: (&'a str, &'b str)) {
        let text = trim(input.1);
        self.aliases.insert(input.0.to_owned(), text);
    }
}

/// The aliases after the definition `input` was taken: a text `NAME=TEXT`
/// with exactly one `=` defines `NAME` as `TEXT` without its outer quotes;
/// any other text defines nothing.
pub open spec fn alias_defined(a: Map<Seq<char>, Seq<char>>, input: Seq<char>) -> Map<
    Seq<char>,
    Seq<char>,
> {
    if count_eq(input, 0) == 1 {
        a.insert(
            crate::text::assignment_name(input),
            spec_trim(crate::text::assignment_value(input)),
        )
    } else {
        a
    }
}

/// Takes the definition of an alias: see `alias_defined`.
pub fn define_alias(shell: &mut Shell, input: &str)
    requires
        old(shell).wf(),
    ensures
        final(shell).wf(),
        final(shell).aliases@ == alias_defined(old(shell).aliases@, input@),
        same_but_aliases(*old(shell), *final(shell)),
{
    let v = chars_of(input);
    let mut count: usize = 0;
    let mut i: usize = v.len();
    while i > 0
        invariant
            i <= v.len(),
            count == count_eq(v@, i as int),
            count <= v.len() - i,
        decreases i,
    {
        i -= 1;
        if v[i] == '=' {
            count += 1;
        }
    }
    if count != 1 {
        return ;
    }
    let (name, value) = split_assignment(input);
    let text = trim(value.as_str());
    shell.aliases.insert(name, text);
}

/// Defines an alias from a definition `NAME=TEXT` or from a pair of name and
/// text: see the two forms of `ShellAliasUtils`.
pub fn add_alias<S>(shell: &mut Shell, alias: S) where Shell: ShellAliasUtils<S>
    requires
        old(shell).shell_wf(),
    ensures
        final(shell).shell_wf(),
        final(shell).alias_table() == old(shell).with_alias(alias),
        final(shell).kept_but_aliases(old(shell)),
{
    shell.add_alias(alias);
}

/// The head and the tail of the alias of `command`: see `Shell::lookup_alias`.
pub fn lookup_alias(shell: &Shell, command: &str) -> (r: Option<(String, Option<Vec<String>>)>)
    ensures
        r is Some <==> shell.aliases@.contains_key(command@) && fields(
            shell.aliases@[command@],
        ).len() > 0,
        r matches Some(p) ==> {
            let tokens = fields(shell.aliases@[command@]);
            &&& p.0@ == tokens[0]
            &&& p.1 is Some <==> tokens.len() > 1
            &&& p.1 matches Some(tail) ==> views(tail@) == tokens.subrange(1, tokens.len() as int)
        },
{
    shell.lookup_alias(command)
}

/// Removes every alias.
pub fn clear_aliases(shell: &mut Shell)
    ensures
        final(shell).aliases@ == Map::<Seq<char>, Seq<char>>::empty(),
        final(shell).aliases.wf(),
        same_but_aliases(*old(shell), *final(shell)),
{
    shell.aliases.clear();
}

/// Removes the alias `alias`.
pub fn remove_alias(shell: &mut Shell, alias: &str)
    requires
        old(shell).aliases.wf(),
    ensures
        final(shell).aliases.wf(),
        final(shell).aliases@ == old(shell).aliases@.remove(alias@),
        same_but_aliases(*old(shell), *final(shell)),
{
    shell.aliases.remove(alias);
}

/// Two shells that differ in their aliases at most.
pub open spec fn same_but_aliases(a: Shell, b: Shell) -> bool {
    b == (Shell { aliases: b.aliases, ..a })
}

/// The aliases of the shell, one line each.
pub fn display_aliases(shell: &Shell) -> (r: String)
    ensures
        r@ == alias_lines(shell.aliases.names(), shell.aliases.values(), 0),
{
    shell.display_aliases()
}

/// Sets the place where the history is kept.
pub fn set_history_location(shell: &mut Shell, location: &str)
    ensures
        *final(shell) == (Shell { history_location: final(shell).history_location, ..*old(shell) }),
        final(shell).history_location@ == location@,
{
    shell.set_history_location(location)
}

/// The marker that listings of jobs show: the value of `PS4`, or nothing.
pub open spec fn job_marker(m: ManagerView) -> Seq<char> {
    match m.lookup_var("PS4"@) {
        Some(v) => v.value,
        None => Seq::empty(),
    }
}

/// The listing of the jobs of the shell, in the order of their numbers.
pub fn display_jobs(shell: &Shell) -> (r: String)
    requires
        shell.wf(),
    ensures
        r@ == listing(shell.job_control@.jobs, job_marker(shell.context_manager@), 0),
{
    shell.display_jobs()
}

/// Creates a job: see `JobControl::create_job`.
pub fn create_job(shell: &mut Shell, processes: Vec<Process>, background: bool) -> (r: Result<
    JobId,
    JobError,
>)
    requires
        old(shell).wf(),
    ensures
        final(shell).wf(),
        *final(shell) == (Shell { job_control: final(shell).job_control, ..*old(shell) }),
        match r {
            Ok(id) => {
                &&& !old(shell).job_control@.clashes(process_views(processes@))
                &&& id == old(shell).job_control@.next_id
                &&& id < usize::MAX
                &&& final(shell).job_control@ == old(shell).job_control@.created(
                    process_views(processes@),
                    background,
                )
            },
            Err(JobError::PidInUse) => {
                &&& old(shell).job_control@.clashes(process_views(processes@))
                &&& final(shell).job_control@ == old(shell).job_control@
            },
            Err(JobError::TableFull) => {
                &&& !old(shell).job_control@.clashes(process_views(processes@))
                &&& old(shell).job_control@.next_id == usize::MAX
                &&& final(shell).job_control@ == old(shell).job_control@
            },
        },
{
    shell.create_job(processes, background)
}

/// The jobs of the shell, in the order of creation.
pub fn get_job_table(shell: &Shell) -> (r: &Vec<Job>)
    ensures
        job_views(r@) == shell.job_control@.jobs,
{
    shell.job_control.get_job_table()
}

/// The job that a key names: its number, or the id of one of its processes.
pub fn get_job<I>(shell: &Shell, id: I) -> (r: Option<&Job>) where JobControl: JobUtils<I>
    requires
        shell.job_control.table().wf(),
    ensures
        r is Some <==> shell.job_control.job_by(id) is Some,
        r matches Some(j) ==> Some(j@) == shell.job_control.job_by(id),
{
    shell.job_control.get_job(id)
}

/// Handles a request to delete the job that a key names. The caller keeps
/// interrupts off meanwhile.
pub fn delete_job<I>(shell: &mut Shell, id: I) where JobControl: JobUtils<I>
    requires
        old(shell).job_control.table().wf(),
    ensures
        final(shell).job_control.table().wf(),
        final(shell).job_control.table() == old(shell).job_control.without(id),
        *final(shell) == (Shell { job_control: final(shell).job_control, ..*old(shell) }),
{
    shell.job_control.delete_job(id);
}

/// Proposes a job as the current one: see `JobControl::set_current_job`.
pub fn set_current_job(shell: &mut Shell, job_id: usize)
    requires
        old(shell).wf(),
    ensures
        final(shell).wf(),
        final(shell).job_control@ == old(shell).job_control@.proposed(job_id),
        *final(shell) == (Shell { job_control: final(shell).job_control, ..*old(shell) }),
{
    shell.job_control.set_current_job(job_id);
}

/// Tells whether no job runs in the background.
pub fn background_jobs(shell: &Shell) -> (r: bool)
    ensures
        r == shell.job_control@.no_background(),
{
    shell.background_jobs()
}

/// Tells whether a job is in the table and runs in the background.
pub fn is_background_job(shell: &Shell, job_id: JobId) -> (r: bool)
    ensures
        r == (shell.job_control@.job(job_id) is Some && shell.job_control@.job(
            job_id,
        )->0.background),
{
    shell.is_background_job(job_id)
}

/// Binds a process id to a process of a job: see
/// `JobControl::update_pid_table`.
pub fn update_pid_table(shell: &mut Shell, job_id: JobId, pid: i32) -> (ok: bool)
    requires
        old(shell).wf(),
    ensures
        final(shell).wf(),
        ok == old(shell).job_control@.can_bind(job_id, pid),
        final(shell).job_control@ == (if ok {
            old(shell).job_control@.bound(job_id, pid)
        } else {
            old(shell).job_control@
        }),
        *final(shell) == (Shell { job_control: final(shell).job_control, ..*old(shell) }),
{
    shell.update_pid_table(job_id, pid)
}

/// The path of a command: see `ContextManager::lookup_command`.
pub fn lookup_command(shell: &Shell, command: &str, regular: &Vec<bool>) -> (r: Option<String>)
    requires
        shell.wf(),
    ensures
        ({
            let c = shell.context_manager@.command_paths(command@);
            let k = crate::context::first_flagged(regular@, c.len() as int, 0);
            &&& r is Some <==> k < c.len()
            &&& r matches Some(p) ==> p@ == c[k]
        }),
{
    shell.lookup_command(command, regular)
}

/// Tells whether the shell reads its commands from a terminal.
pub fn is_interactive(shell: &Shell) -> (r: bool)
    ensures
        r == shell.interactive,
{
    shell.interactive
}

/// Says whether the shell reads its commands from a terminal.
pub fn set_interactive(shell: &mut Shell, interactive: bool)
    ensures
        *final(shell) == (Shell { interactive: interactive, ..*old(shell) }),
{
    shell.interactive = interactive;
}

/// Sets the name of the script that runs; the shell is then not interactive.
pub fn set_script_name(shell: &mut Shell, script_name: &str)
    ensures
        *final(shell) == (Shell {
            script_name: final(shell).script_name,
            interactive: false,
            ..*old(shell)
        }),
        final(shell).script_name@ == script_name@,
{
    shell.script_name = script_name.to_owned();
    shell.interactive = false;
}

/// The name of the script that runs, or of the shell.
pub fn get_script_name(shell: &Shell) -> (r: String)
    ensures
        r@ == shell.script_name@,
{
    shell.script_name.clone()
}

/// Tells whether this process is a forked child.
pub fn get_forked(shell: &Shell) -> (r: bool)
    ensures
        r == shell.forked,
{
    shell.forked
}

/// Says whether this process is a forked child.
pub fn set_forked(shell: &mut Shell, state: bool)
    ensures
        *final(shell) == (Shell { forked: state, ..*old(shell) }),
{
    shell.forked = state;
}

/// The assignment that binds positional parameter `index` to `arg`.
pub open spec fn positional(index: nat, arg: Seq<char>) -> Seq<char> {
    decimal(index) + "="@ + arg
}

/// Binds positional parameter `index` to `arg` in the environment scope.
pub fn set_input_args(shell: &mut Shell, arg: &str, index: usize)
    requires
        old(shell).wf(),
    ensures
        final(shell).wf(),
        final(shell).context_manager@ == old(shell).context_manager@.assigned_at(
            positional(index as nat, arg@),
            0,
        ),
        *final(shell) == (Shell { context_manager: final(shell).context_manager, ..*old(shell) }),
{
    let mut set = String::new();
    push_decimal(&mut set, index as u64);
    push_str(&mut set, "=");
    push_str(&mut set, arg);
    shell.context_manager.add_var_pos(set.as_str(), 0);
}

/// Pushes a scope: see `ContextManager::push_context`.
pub fn push_context(shell: &mut Shell, context: Context)
    requires
        old(shell).wf(),
        context.wf(),
    ensures
        final(shell).wf(),
        final(shell).context_manager@ == old(shell).context_manager@.pushed(context@),
        *final(shell) == (Shell { context_manager: final(shell).context_manager, ..*old(shell) }),
{
    shell.push_context(context)
}

/// Pushes an empty scope, which becomes the current one.
pub fn push_context_new(shell: &mut Shell)
    requires
        old(shell).wf(),
    ensures
        final(shell).wf(),
        final(shell).context_manager@ == old(shell).context_manager@.pushed(ScopeView::empty()),
        *final(shell) == (Shell { context_manager: final(shell).context_manager, ..*old(shell) }),
{
    shell.push_context_new()
}

/// Pops the current scope: see `ContextManager::pop_context`.
pub fn pop_context(shell: &mut Shell) -> (r: Option<Context>)
    requires
        old(shell).wf(),
    ensures
        final(shell).wf(),
        final(shell).context_manager@ == old(shell).context_manager@.popped(),
        r is Some <==> old(shell).context_manager@.stack.len() > 1,
        r matches Some(c) ==> c.wf() && c@ == old(shell).context_manager@.stack.last(),
        *final(shell) == (Shell { context_manager: final(shell).context_manager, ..*old(shell) }),
{
    shell.pop_context()
}

/// Exports a scope under a namespace: see `ContextManager::add_context`.
pub fn add_context(shell: &mut Shell, namespace: &str, context: Context)
    requires
        old(shell).wf(),
        context.wf(),
    ensures
        final(shell).wf(),
        final(shell).context_manager@ == old(shell).context_manager@.with_exported(
            namespace@,
            context@,
        ),
        *final(shell) == (Shell { context_manager: final(shell).context_manager, ..*old(shell) }),
{
    shell.add_context(namespace, context)
}

/// The current scope.
pub fn get_current_context(shell: &Shell) -> (c: &Context)
    requires
        shell.wf(),
    ensures
        c.wf(),
        c@ == shell.context_manager@.stack.last(),
{
    shell.get_current_context()
}

/// The environment scope.
pub fn get_env_context(shell: &Shell) -> (c: &Context)
    requires
        shell.wf(),
    ensures
        c.wf(),
        c@ == shell.context_manager@.stack[0],
{
    shell.get_env_context()
}

/// Carries out an assignment in scope `index` of the stack. Tells whether
/// there is such a scope.
pub fn add_var(shell: &mut Shell, set: &str, index: usize) -> (ok: bool)
    requires
        old(shell).wf(),
    ensures
        final(shell).wf(),
        ok == (index < old(shell).context_manager@.stack.len()),
        final(shell).context_manager@ == old(shell).context_manager@.assigned_at(
            set@,
            index as int,
        ),
        *final(shell) == (Shell { context_manager: final(shell).context_manager, ..*old(shell) }),
{
    shell.add_var(set, index)
}

/// Carries out an assignment `NAME=VALUE`: see `ContextManager::add_var`.
pub fn add_var_context(shell: &mut Shell, set: &str)
    requires
        old(shell).wf(),
    ensures
        final(shell).wf(),
        final(shell).context_manager@ == old(shell).context_manager@.assigned(set@),
        *final(shell) == (Shell { context_manager: final(shell).context_manager, ..*old(shell) }),
{
    shell.add_var_context(set)
}

/// The value of the variable that a name reaches.
pub fn expand_var(shell: &Shell, var: &str) -> (r: Option<String>)
    requires
        shell.wf(),
    ensures
        r is Some <==> shell.context_manager@.lookup_var(var@) is Some,
        r matches Some(s) ==> s@ == shell.context_manager@.lookup_var(var@)->0.value,
{
    shell.context_manager.value_of(var)
}

/// Binds positional parameter `0` to the name of the script, in the scope
/// above the environment scope. Tells whether there is such a scope.
pub fn set_arg_0(shell: &mut Shell) -> (ok: bool)
    requires
        old(shell).wf(),
    ensures
        final(shell).wf(),
        ok == (old(shell).context_manager@.stack.len() > 1),
        final(shell).context_manager@ == old(shell).context_manager@.assigned_at(
            "0="@ + old(shell).script_name@,
            1,
        ),
        *final(shell) == (Shell { context_manager: final(shell).context_manager, ..*old(shell) }),
{
    let mut set = String::new();
    push_str(&mut set, "0=");
    push_str(&mut set, shell.script_name.as_str());
    shell.context_manager.add_var_pos(set.as_str(), 1)
}

/// Binds a function: see `ContextManager::add_function`.
pub fn add_function(shell: &mut Shell, name: &str, body: FunctionBody)
    requires
        old(shell).wf(),
    ensures
        final(shell).wf(),
        final(shell).context_manager@ == old(shell).context_manager@.with_function(name@, body),
        *final(shell) == (Shell { context_manager: final(shell).context_manager, ..*old(shell) }),
{
    shell.add_function(name, body)
}

/// Tells whether a name reaches a function.
pub fn is_function(shell: &Shell, name: &str) -> (r: bool)
    requires
        shell.wf(),
    ensures
        r == shell.context_manager@.lookup_function(name@) is Some,
{
    shell.is_function(name)
}

/// The function that a name reaches.
pub fn get_function(shell: &Shell, name: &str) -> (r: Option<Rc<FunctionBody>>)
    requires
        shell.wf(),
    ensures
        r is Some <==> shell.context_manager@.lookup_function(name@) is Some,
        r matches Some(b) ==> Some(*b) == shell.context_manager@.lookup_function(name@),
{
    shell.get_function(name)
}

/// The current job.
pub fn get_current_job(shell: &Shell) -> (r: Option<&Job>)
    requires
        shell.wf(),
    ensures
        r is Some <==> shell.job_control@.current is Some,
        r matches Some(j) ==> Some(j@) == shell.job_control@.job(shell.job_control@.current->0),
{
    shell.get_current_job()
}

/// The exit status of the command that ran last, as a report: an exit with
/// that status, of a process without an id.
pub fn get_exit_status(shell: &Shell) -> (r: WaitStatus)
    ensures
        r == WaitStatus::Exited(crate::jobs::NO_PID, shell.exit_status),
{
    crate::wait::get_exit_status(shell.exit_status)
}

/// Remembers the exit status of the command that ran last.
pub fn set_exit_status(shell: &mut Shell, status: i32)
    ensures
        *final(shell) == (Shell { exit_status: status, ..*old(shell) }),
{
    shell.exit_status = status;
}

/// The exit status of the command that ran last.
pub fn get_exit_code(shell: &Shell) -> (r: i32)
    ensures
        r == shell.exit_status,
{
    shell.exit_status
}

} // verus!

//! Variables, functions and the scopes that hold them: a stack of scopes, with
//! the environment scope at the bottom, and scopes exported under a namespace.

use crate::ast::FunctionBody;
use crate::sorted::{
    lemma_assoc_insert, lemma_rising_insert, lemma_rising_no_dups, place_name, rising, slot,
};
use crate::text::{
    assignment_name, assignment_value, chars_of, find_from, index_from, is_qualified, member_of,
    namespace_of, push_signed_decimal, push_str, split_assignment, split_qualified,
    string_of_range, views,
};
use std::rc::Rc;
use vstd::prelude::*;

verus! {

/// The prompt of an ordinary user.
pub const REG_USER_PROMPT: &'static str = "$ ";

/// The prompt of the super user.
pub const SUP_USER_PROMPT: &'static str = "# ";

/// The search path for commands where the environment gives none.
pub const DEFAULT_PATH: &'static str =
    "/bin:/usr/local/sbin:/usr/local/bin:/usr/sbin:/usr/bin:/sbin:/bin";

/// Another handle on a shared value; `Rc::clone` makes it, and the value is
/// the same.
#[verifier::external_body]
pub(crate) fn share<X>(a: &Rc<X>) -> (r: Rc<X>)
    ensures
        r == *a,
{
    a.clone()
}

/// A variable.
#[derive(Debug)]
pub struct Var {
    pub name: String,
    pub value: String,
    pub readonly: bool,
}

/// The mathematical content of a variable.
pub struct VarView {
    pub name: Seq<char>,
    pub value: Seq<char>,
    pub readonly: bool,
}

impl View for Var {
    type V = VarView;

    open spec fn view(&self) -> VarView {
        VarView { name: self.name@, value: self.value@, readonly: self.readonly }
    }
}

impl Var {
    /// A variable that can be written.
    pub fn new(name: &str, value: &str) -> (v: Var)
        ensures
            v@ == (VarView { name: name@, value: value@, readonly: false }),
    {
        Var { name: name.to_owned(), value: value.to_owned(), readonly: false }
    }

    /// Makes the variable readonly.
    pub fn make_readonly(&mut self)
        ensures
            final(self)@ == (VarView { readonly: true, ..old(self)@ }),
    {
        self.readonly = true;
    }

    /// A copy of the variable.
    pub fn duplicate(&self) -> (v: Var)
        ensures
            v@ == self@,
    {
        Var { name: self.name.clone(), value: self.value.clone(), readonly: self.readonly }
    }

    /// The variable as an assignment: `name=value`.
    pub fn to_string(&self) -> (r: String)
        ensures
            r@ == self@.name + "="@ + self@.value,
    {
        let mut out = self.name.clone();
        push_str(&mut out, "=");
        push_str(&mut out, self.value.as_str());
        out
    }
}

/// The first position at or after `from` where `names` holds `n`; the length
/// when there is none.
pub open spec fn name_pos(names: Seq<Seq<char>>, n: Seq<char>, from: int) -> int
    decreases names.len() - from,
{
    if from >= names.len() {
        names.len() as int
    } else if names[from] == n {
        from
    } else {
        name_pos(names, n, from + 1)
    }
}

/// What `name_pos` finds.
pub proof fn lemma_name_pos(names: Seq<Seq<char>>, n: Seq<char>, from: int)
    requires
        0 <= from <= names.len(),
    ensures
        from <= name_pos(names, n, from) <= names.len(),
        name_pos(names, n, from) < names.len() ==> names[name_pos(names, n, from)] == n,
        forall|i: int| from <= i < name_pos(names, n, from) ==> names[i] != n,
    decreases names.len() - from,
{
    if from < names.len() && names[from] != n {
        lemma_name_pos(names, n, from + 1);
    }
}

/// What `name_pos` finds from the start, for every name.
pub proof fn lemma_name_pos_all(names: Seq<Seq<char>>)
    ensures
        forall|n: Seq<char>|
            0 <= #[trigger] name_pos(names, n, 0) <= names.len() && (name_pos(names, n, 0)
                < names.len() ==> names[name_pos(names, n, 0)] == n),
{
    assert forall|n: Seq<char>|
        0 <= #[trigger] name_pos(names, n, 0) <= names.len() && (name_pos(names, n, 0)
            < names.len() ==> names[name_pos(names, n, 0)] == n) by {
        lemma_name_pos(names, n, 0);
    }
}

/// No name occurs twice.
pub open spec fn no_dups(names: Seq<Seq<char>>) -> bool {
    forall|i: int, j: int| 0 <= i < j < names.len() ==> names[i] != names[j]
}

/// Where `n` is found after `x` was appended to `names`.
pub open spec fn pos_after_push(names: Seq<Seq<char>>, x: Seq<char>, n: Seq<char>) -> int {
    if name_pos(names, n, 0) < names.len() {
        name_pos(names, n, 0)
    } else if x == n {
        names.len() as int
    } else {
        names.len() as int + 1
    }
}

/// Where `n` is found after the name at `i` was taken out of `names`.
pub open spec fn pos_after_remove(names: Seq<Seq<char>>, i: int, n: Seq<char>) -> int {
    if name_pos(names, n, 0) < i {
        name_pos(names, n, 0)
    } else if name_pos(names, n, 0) == i {
        names.len() as int - 1
    } else if name_pos(names, n, 0) < names.len() {
        name_pos(names, n, 0) - 1
    } else {
        names.len() as int - 1
    }
}

/// Where a name is found after another name was appended.
pub proof fn lemma_name_pos_push(names: Seq<Seq<char>>, x: Seq<char>, n: Seq<char>)
    ensures
        name_pos(names.push(x), n, 0) == pos_after_push(names, x, n),
        no_dups(names) && name_pos(names, x, 0) >= names.len() ==> no_dups(names.push(x)),
{
    let p = names.push(x);
    lemma_name_pos(names, n, 0);
    lemma_name_pos(p, n, 0);
    let a = name_pos(names, n, 0);
    let b = name_pos(p, n, 0);
    assert forall|i: int| 0 <= i < names.len() implies p[i] == names[i] by {}
    assert(p[names.len() as int] == x);
    if a < names.len() {
        assert(p[a] == n);
        if b < a {
            assert(names[b] == p[b]);
        }
    } else {
        if b < names.len() {
            assert(names[b] == p[b]);
        }
        if x == n {
            assert(p[names.len() as int] == n);
        } else if b == names.len() {
            assert(p[b] == n);
        }
    }
    if no_dups(names) && name_pos(names, x, 0) >= names.len() {
        lemma_name_pos(names, x, 0);
        assert forall|i: int, j: int| 0 <= i < j < names.push(x).len() implies names.push(x)[i]
            != names.push(x)[j] by {
            if j < names.len() {
                assert(names[i] != names[j]);
            }
        }
    }
}

/// Where a name is found after the name at `i` was taken out.
pub proof fn lemma_name_pos_remove(names: Seq<Seq<char>>, i: int, n: Seq<char>)
    requires
        no_dups(names),
        0 <= i < names.len(),
    ensures
        no_dups(names.remove(i)),
        name_pos(names.remove(i), n, 0) == pos_after_remove(names, i, n),
{
    let r = names.remove(i);
    lemma_name_pos(names, n, 0);
    lemma_name_pos(r, n, 0);
    let a = name_pos(names, n, 0);
    let b = name_pos(r, n, 0);
    assert forall|x: int| 0 <= x < r.len() implies r[x] == names[if x < i {
        x
    } else {
        x + 1
    }] by {}
    if b < r.len() {
        let b0 = if b < i {
            b
        } else {
            b + 1
        };
        assert(names[b0] == n);
        if a < names.len() && a != b0 {
            if a < b0 {
                assert(names[a] != names[b0]);
            } else {
                assert(names[b0] != names[a]);
            }
        }
    }
    if a < names.len() && a != i {
        let a1 = if a < i {
            a
        } else {
            a - 1
        };
        assert(r[a1] == n);
    }
}

/// The map that an association list stands for: each name leads to the value
/// at the first position where the name occurs.
pub open spec fn assoc<V>(names: Seq<Seq<char>>, vals: Seq<V>) -> Map<Seq<char>, V> {
    Map::new(
        |n: Seq<char>| name_pos(names, n, 0) < names.len(),
        |n: Seq<char>| vals[name_pos(names, n, 0)],
    )
}

/// Appending a name that is not there yet inserts it into the map.
pub proof fn lemma_assoc_push<V>(names: Seq<Seq<char>>, vals: Seq<V>, x: Seq<char>, v: V)
    requires
        names.len() == vals.len(),
        no_dups(names),
        name_pos(names, x, 0) >= names.len(),
    ensures
        assoc(names.push(x), vals.push(v)) == assoc(names, vals).insert(x, v),
        no_dups(names.push(x)),
{
    let a = assoc(names.push(x), vals.push(v));
    let b = assoc(names, vals).insert(x, v);
    lemma_name_pos_push(names, x, x);
    lemma_name_pos_all(names);
    assert forall|n: Seq<char>| a.contains_key(n) == b.contains_key(n) by {
        lemma_name_pos_push(names, x, n);
    }
    assert forall|n: Seq<char>| a.contains_key(n) implies a[n] == b[n] by {
        lemma_name_pos_push(names, x, n);
        let q = name_pos(names.push(x), n, 0);
        if n != x {
            assert(vals.push(v)[q] == vals[q]);
        }
    }
    assert(a =~= b);
}

/// Replacing the value at the place of a name writes the name in the map.
pub proof fn lemma_assoc_update<V>(names: Seq<Seq<char>>, vals: Seq<V>, x: Seq<char>, v: V)
    requires
        names.len() == vals.len(),
        name_pos(names, x, 0) < names.len(),
    ensures
        assoc(names, vals.update(name_pos(names, x, 0), v)) == assoc(names, vals).insert(x, v),
{
    let i = name_pos(names, x, 0);
    let a = assoc(names, vals.update(i, v));
    let b = assoc(names, vals).insert(x, v);
    lemma_name_pos_all(names);
    assert forall|n: Seq<char>| a.contains_key(n) == b.contains_key(n) by {}
    assert forall|n: Seq<char>| a.contains_key(n) implies a[n] == b[n] by {
        let q = name_pos(names, n, 0);
        if n != x {
            assert(names[q] == n);
            assert(q != i);
        }
    }
    assert(a =~= b);
}

/// Taking out a name with its value removes it from the map.
pub proof fn lemma_assoc_remove<V>(names: Seq<Seq<char>>, vals: Seq<V>, x: Seq<char>)
    requires
        names.len() == vals.len(),
        no_dups(names),
        name_pos(names, x, 0) < names.len(),
    ensures
        assoc(names.remove(name_pos(names, x, 0)), vals.remove(name_pos(names, x, 0))) == assoc(
            names,
            vals,
        ).remove(x),
        no_dups(names.remove(name_pos(names, x, 0))),
{
    let i = name_pos(names, x, 0);
    let a = assoc(names.remove(i), vals.remove(i));
    let b = assoc(names, vals).remove(x);
    lemma_name_pos_all(names);
    lemma_name_pos_remove(names, i, x);
    assert forall|n: Seq<char>| a.contains_key(n) == b.contains_key(n) by {
        lemma_name_pos_remove(names, i, n);
    }
    assert forall|n: Seq<char>| a.contains_key(n) implies a[n] == b[n] by {
        lemma_name_pos_remove(names, i, n);
        let q = name_pos(names, n, 0);
        assert(names[q] == n);
    }
    assert(a =~= b);
}

/// A name that is not in the list is not in the map.
pub proof fn lemma_assoc_absent<V>(names: Seq<Seq<char>>, vals: Seq<V>, x: Seq<char>)
    requires
        name_pos(names, x, 0) >= names.len(),
    ensures
        !assoc(names, vals).contains_key(x),
        assoc(names, vals).remove(x) == assoc(names, vals),
{
    assert(assoc(names, vals).remove(x) =~= assoc(names, vals));
}

/// The mathematical content of a scope: its variables and functions by name,
/// and the names of the functions that are readonly.
pub struct ScopeView {
    pub vars: Map<Seq<char>, VarView>,
    pub functions: Map<Seq<char>, FunctionBody>,
    pub readonly_functions: Set<Seq<char>>,
}

impl ScopeView {
    /// A scope that holds nothing.
    pub open spec fn empty() -> ScopeView {
        ScopeView { vars: Map::empty(), functions: Map::empty(), readonly_functions: Set::empty() }
    }

    /// Every variable is filed under its own name.
    pub open spec fn wf(self) -> bool {
        forall|n: Seq<char>| #[trigger] self.vars.contains_key(n) ==> self.vars[n].name == n
    }

    /// The scope holds a readonly variable of this name.
    pub open spec fn var_readonly(self, name: Seq<char>) -> bool {
        self.vars.contains_key(name) && self.vars[name].readonly
    }

    /// The scope after variable `v` was written: a readonly variable of that
    /// name stays as it is.
    pub open spec fn assigned(self, v: VarView) -> ScopeView {
        if self.var_readonly(v.name) {
            self
        } else {
            ScopeView { vars: self.vars.insert(v.name, v), ..self }
        }
    }

    /// The scope after the variable `name` was unset: a readonly variable stays.
    pub open spec fn without_var(self, name: Seq<char>) -> ScopeView {
        if self.var_readonly(name) {
            self
        } else {
            ScopeView { vars: self.vars.remove(name), ..self }
        }
    }

    /// The scope after the variable `name` was made readonly, if it is there.
    pub open spec fn marked_readonly(self, name: Seq<char>) -> ScopeView {
        if self.vars.contains_key(name) {
            ScopeView {
                vars: self.vars.insert(name, VarView { readonly: true, ..self.vars[name] }),
                ..self
            }
        } else {
            self
        }
    }

    /// The scope after function `name` was bound to `body`: a readonly function
    /// stays as it is.
    pub open spec fn with_function(self, name: Seq<char>, body: FunctionBody) -> ScopeView {
        if self.readonly_functions.contains(name) {
            self
        } else {
            ScopeView { functions: self.functions.insert(name, body), ..self }
        }
    }

    /// The scope after function `name` was removed: a readonly function stays.
    pub open spec fn without_function(self, name: Seq<char>) -> ScopeView {
        if self.readonly_functions.contains(name) {
            self
        } else {
            ScopeView { functions: self.functions.remove(name), ..self }
        }
    }

    /// The scope after function `name` was made readonly, if it is there.
    pub open spec fn function_readonly(self, name: Seq<char>) -> ScopeView {
        if self.functions.contains_key(name) {
            ScopeView { readonly_functions: self.readonly_functions.insert(name), ..self }
        } else {
            self
        }
    }
}

/// The body behind a shared handle.
pub open spec fn body_of(handle: Rc<FunctionBody>) -> FunctionBody {
    *handle
}

/// A function of a scope: its name and its body.
pub struct Function {
    pub name: String,
    pub body: Rc<FunctionBody>,
}

/// The names of a sequence of variables.
pub open spec fn var_names(vs: Seq<Var>) -> Seq<Seq<char>> {
    Seq::new(vs.len(), |i: int| vs[i].name@)
}

/// The names of a sequence of functions.
pub open spec fn function_names(fs: Seq<Function>) -> Seq<Seq<char>> {
    Seq::new(fs.len(), |i: int| fs[i].name@)
}

/// A scope: one frame of the stack of contexts.
pub struct Context {
    vars: Vec<Var>,
    functions: Vec<Function>,
    readonly_functions: Vec<String>,
}

/// The contents of a sequence of variables.
pub open spec fn var_views(vs: Seq<Var>) -> Seq<VarView> {
    Seq::new(vs.len(), |i: int| vs[i]@)
}

/// The bodies of a sequence of functions.
pub open spec fn function_bodies(fs: Seq<Function>) -> Seq<FunctionBody> {
    Seq::new(fs.len(), |i: int| *fs[i].body)
}

impl View for Context {
    type V = ScopeView;

    closed spec fn view(&self) -> ScopeView {
        ScopeView {
            vars: assoc(var_names(self.vars@), var_views(self.vars@)),
            functions: assoc(function_names(self.functions@), function_bodies(self.functions@)),
            readonly_functions: assoc(
                views(self.readonly_functions@),
                views(self.readonly_functions@),
            ).dom(),
        }
    }
}

/// What can be written into a scope as a variable: an assignment `NAME=VALUE`,
/// a pair of name and value, or a variable.
pub trait ContextUtils<V> {
    /// The content of the scope.
    spec fn scope(&self) -> ScopeView;

    /// The invariant of the scope.
    spec fn scope_wf(&self) -> bool;

    /// The variable that `var` stands for.
    spec fn as_var(var: V) -> VarView;

    /// Writes the variable, unless the scope holds a readonly one of that name.
    fn add_var(&mut self, var: V)
        requires
            old(self).scope_wf(),
        ensures
            final(self).scope_wf(),
            final(self).scope() == old(self).scope().assigned(Self::as_var(var)),
    ;

    /// Writes the variable as a readonly one, unless the scope holds a readonly
    /// one of that name.
    fn add_var_readonly(&mut self, var: V)
        requires
            old(self).scope_wf(),
        ensures
            final(self).scope_wf(),
            final(self).scope() == old(self).scope().assigned(
                VarView { readonly: true, ..Self::as_var(var) },
            ),
    ;
}

impl Context {
    /// The hidden part of the invariant: no name is held twice.
    pub closed spec fn inv(&self) -> bool {
        &&& no_dups(var_names(self.vars@))
        &&& no_dups(function_names(self.functions@))
        &&& no_dups(views(self.readonly_functions@))
    }

    /// The invariant of a scope.
    pub open spec fn wf(&self) -> bool {
        self.inv() && self@.wf()
    }

    /// An empty scope.
    pub fn new() -> (c: Context)
        ensures
            c.wf(),
            c@ == ScopeView::empty(),
    {
        let c = Context { vars: Vec::new(), functions: Vec::new(), readonly_functions: Vec::new() };
        assert(c@.vars =~= Map::empty());
        assert(c@.functions =~= Map::empty());
        assert(c@.readonly_functions =~= Set::empty());
        c
    }

    /// The position of the variable `name`.
    fn find_var(&self, name: &String) -> (r: Option<usize>)
        ensures
            r is Some <==> self@.vars.contains_key(name@),
            r matches Some(i) ==> i < self.vars.len() && i == name_pos(
                var_names(self.vars@),
                name@,
                0,
            ) && self.vars[i as int].name@ == name@,
    {
        let mut i: usize = 0;
        while i < self.vars.len()
            invariant
                i <= self.vars.len(),
                name_pos(var_names(self.vars@), name@, 0) == name_pos(
                    var_names(self.vars@),
                    name@,
                    i as int,
                ),
            decreases self.vars.len() - i,
        {
            if self.vars[i].name == *name {
                return Some(i);
            }
            i += 1;
        }
        None
    }

    /// The position of the function `name`.
    fn find_function(&self, name: &String) -> (r: Option<usize>)
        ensures
            r is Some <==> self@.functions.contains_key(name@),
            r matches Some(i) ==> i < self.functions.len() && i == name_pos(
                function_names(self.functions@),
                name@,
                0,
            ) && self.functions[i as int].name@ == name@,
    {
        let mut i: usize = 0;
        while i < self.functions.len()
            invariant
                i <= self.functions.len(),
                name_pos(function_names(self.functions@), name@, 0) == name_pos(
                    function_names(self.functions@),
                    name@,
                    i as int,
                ),
            decreases self.functions.len() - i,
        {
            if self.functions[i].name == *name {
                return Some(i);
            }
            i += 1;
        }
        None
    }

    /// The position of `name` among the readonly functions.
    fn find_readonly(&self, name: &String) -> (r: Option<usize>)
        ensures
            r is Some <==> self@.readonly_functions.contains(name@),
            r matches Some(i) ==> i < self.readonly_functions.len() && i == name_pos(
                views(self.readonly_functions@),
                name@,
                0,
            ),
    {
        let mut i: usize = 0;
        while i < self.readonly_functions.len()
            invariant
                i <= self.readonly_functions.len(),
                name_pos(views(self.readonly_functions@), name@, 0) == name_pos(
                    views(self.readonly_functions@),
                    name@,
                    i as int,
                ),
            decreases self.readonly_functions.len() - i,
        {
            if self.readonly_functions[i] == *name {
                return Some(i);
            }
            i += 1;
        }
        None
    }

    /// Writes variable `var`, unless the scope holds a readonly variable of that
    /// name.
    pub fn set(&mut self, var: Var)
        requires
            old(self).wf(),
        ensures
            final(self).wf(),
            final(self)@ == old(self)@.assigned(var@),
    {
        let ghost names = var_names(self.vars@);
        let ghost vals = var_views(self.vars@);
        let ghost v = var@;
        match self.find_var(&var.name) {
            Some(i) => {
                if !self.vars[i].readonly {
                    self.vars[i] = var;
                    proof {
                        assert(var_names(self.vars@) =~= names);
                        assert(var_views(self.vars@) =~= vals.update(i as int, v));
                        lemma_assoc_update(names, vals, v.name, v);
                    }
                }
            },
            None => {
                self.vars.push(var);
                proof {
                    assert(var_names(self.vars@) =~= names.push(v.name));
                    assert(var_views(self.vars@) =~= vals.push(v));
                    lemma_assoc_push(names, vals, v.name, v);
                }
            },
        }
    }

    /// The variable `name`.
    pub fn get_var(&self, name: &str) -> (r: Option<&Var>)
        ensures
            r is Some <==> self@.vars.contains_key(name@),
            r matches Some(v) ==> v@ == self@.vars[name@],
    {
        let key = name.to_owned();
        match self.find_var(&key) {
            Some(i) => Some(&self.vars[i]),
            None => None,
        }
    }

    /// Unsets the variable `name`, unless it is readonly.
    pub fn remove_var(&mut self, name: &str)
        requires
            old(self).wf(),
        ensures
            final(self).wf(),
            final(self)@ == old(self)@.without_var(name@),
    {
        let key = name.to_owned();
        let ghost names = var_names(self.vars@);
        let ghost vals = var_views(self.vars@);
        match self.find_var(&key) {
            Some(i) => {
                if !self.vars[i].readonly {
                    self.vars.remove(i);
                    proof {
                        assert(var_names(self.vars@) =~= names.remove(i as int));
                        assert(var_views(self.vars@) =~= vals.remove(i as int));
                        lemma_assoc_remove(names, vals, name@);
                    }
                }
            },
            None => {
                proof {
                    lemma_assoc_absent(names, vals, name@);
                }
            },
        }
    }

    /// Makes the variable `name` readonly, if the scope holds it. Tells
    /// whether it does.
    pub fn make_readonly_var(&mut self, name: &str) -> (found: bool)
        requires
            old(self).wf(),
        ensures
            final(self).wf(),
            found == old(self)@.vars.contains_key(name@),
            final(self)@ == old(self)@.marked_readonly(name@),
    {
        let key = name.to_owned();
        let ghost names = var_names(self.vars@);
        let ghost vals = var_views(self.vars@);
        match self.find_var(&key) {
            Some(i) => {
                self.vars[i].readonly = true;
                proof {
                    assert(var_names(self.vars@) =~= names);
                    assert(var_views(self.vars@) =~= vals.update(
                        i as int,
                        VarView { readonly: true, ..vals[i as int] },
                    ));
                    lemma_assoc_update(
                        names,
                        vals,
                        name@,
                        VarView { readonly: true, ..vals[i as int] },
                    );
                }
                true
            },
            None => false,
        }
    }

    /// The body of function `name`.
    pub fn get_function(&self, name: &str) -> (r: Option<Rc<FunctionBody>>)
        ensures
            r is Some <==> self@.functions.contains_key(name@),
            r matches Some(b) ==> *b == self@.functions[name@],
    {
        let key = name.to_owned();
        match self.find_function(&key) {
            Some(i) => Some(share(&self.functions[i].body)),
            None => None,
        }
    }

    /// Tells whether the scope holds a function `name`.
    pub fn has_function(&self, name: &str) -> (r: bool)
        ensures
            r == self@.functions.contains_key(name@),
    {
        let key = name.to_owned();
        self.find_function(&key).is_some()
    }

    /// Tells whether function `name` is readonly.
    pub fn is_readonly_function(&self, name: &str) -> (r: bool)
        ensures
            r == self@.readonly_functions.contains(name@),
    {
        let key = name.to_owned();
        self.find_readonly(&key).is_some()
    }

    /// Binds function `name` to `body`, unless the name is readonly.
    pub fn add_function(&mut self, name: &str, body: Rc<FunctionBody>)
        requires
            old(self).wf(),
        ensures
            final(self).wf(),
            final(self)@ == old(self)@.with_function(name@, *body),
    {
        let key = name.to_owned();
        if self.find_readonly(&key).is_some() {
            return ;
        }
        let ghost names = function_names(self.functions@);
        let ghost vals = function_bodies(self.functions@);
        let ghost b: FunctionBody = body_of(body);
        match self.find_function(&key) {
            Some(i) => {
                self.functions[i].body = body;
                proof {
                    assert(function_names(self.functions@) =~= names);
                    assert(function_bodies(self.functions@) =~= vals.update(i as int, b));
                    lemma_assoc_update(names, vals, name@, b);
                }
            },
            None => {
                self.functions.push(Function { name: key, body });
                proof {
                    assert(function_names(self.functions@) =~= names.push(name@));
                    assert(function_bodies(self.functions@) =~= vals.push(b));
                    lemma_assoc_push(names, vals, name@, b);
                }
            },
        }
        assert(self@.vars == old(self)@.vars);
    }

    /// Removes function `name`, unless it is readonly.
    pub fn remove_function(&mut self, name: &str)
        requires
            old(self).wf(),
        ensures
            final(self).wf(),
            final(self)@ == old(self)@.without_function(name@),
    {
        let key = name.to_owned();
        if self.find_readonly(&key).is_some() {
            return ;
        }
        let ghost names = function_names(self.functions@);
        let ghost vals = function_bodies(self.functions@);
        match self.find_function(&key) {
            Some(i) => {
                self.functions.remove(i);
                proof {
                    assert(function_names(self.functions@) =~= names.remove(i as int));
                    assert(function_bodies(self.functions@) =~= vals.remove(i as int));
                    lemma_assoc_remove(names, vals, name@);
                }
            },
            None => {
                proof {
                    lemma_assoc_absent(names, vals, name@);
                }
            },
        }
        assert(self@.vars == old(self)@.vars);
    }

    /// Makes function `name` readonly, if the scope holds it.
    pub fn make_readonly_func(&mut self, name: &str)
        requires
            old(self).wf(),
        ensures
            final(self).wf(),
            final(self)@ == old(self)@.function_readonly(name@),
    {
        let key = name.to_owned();
        if self.find_function(&key).is_none() {
            return ;
        }
        let ghost names = views(self.readonly_functions@);
        if self.find_readonly(&key).is_some() {
            assert(old(self)@.readonly_functions.insert(name@) =~= old(self)@.readonly_functions);
            return ;
        }
        self.readonly_functions.push(key);
        proof {
            assert(views(self.readonly_functions@) =~= names.push(name@));
            lemma_assoc_push(names, names, name@, name@);
            assert(self@.readonly_functions =~= old(self)@.readonly_functions.insert(name@));
            assert(self@.vars == old(self)@.vars);
        }
    }

    /// The variables of the scope, in the order in which their names were first
    /// written.
    pub fn vars(&self) -> (r: &Vec<Var>)
        requires
            self.wf(),
        ensures
            forall|i: int|
                0 <= i < r@.len() ==> self@.vars.contains_key(#[trigger] r@[i]@.name)
                    && self@.vars[r@[i]@.name] == r@[i]@,
            forall|n: Seq<char>|
                self@.vars.contains_key(n) ==> exists|i: int|
                    0 <= i < r@.len() && (#[trigger] r@[i])@.name == n,
    {
        proof {
            let names = var_names(self.vars@);
            assert forall|i: int| 0 <= i < self.vars@.len() implies self@.vars.contains_key(
                #[trigger] self.vars@[i]@.name,
            ) && self@.vars[self.vars@[i]@.name] == self.vars@[i]@ by {
                lemma_name_pos(names, names[i], 0);
                let p = name_pos(names, names[i], 0);
                if p < i {
                    assert(names[p] != names[i]);
                }
            }
            assert forall|n: Seq<char>| self@.vars.contains_key(n) implies exists|i: int|
                0 <= i < self.vars@.len() && (#[trigger] self.vars@[i])@.name == n by {
                lemma_name_pos(names, n, 0);
                let p = name_pos(names, n, 0);
                assert(self.vars@[p]@.name == n);
            }
        }
        &self.vars
    }

    /// A copy of the scope.
    pub fn duplicate(&self) -> (c: Context)
        requires
            self.wf(),
        ensures
            c.wf(),
            c@ == self@,
    {
        let mut vars: Vec<Var> = Vec::new();
        let mut i: usize = 0;
        while i < self.vars.len()
            invariant
                i <= self.vars.len(),
                vars@.len() == i,
                forall|j: int| 0 <= j < i ==> (#[trigger] vars@[j])@ == self.vars@[j]@,
            decreases self.vars.len() - i,
        {
            vars.push(self.vars[i].duplicate());
            i += 1;
        }
        let mut functions: Vec<Function> = Vec::new();
        let mut i: usize = 0;
        while i < self.functions.len()
            invariant
                i <= self.functions.len(),
                functions@.len() == i,
                forall|j: int|
                    0 <= j < i ==> (#[trigger] functions@[j]).name@ == self.functions@[j].name@
                        && *functions@[j].body == *self.functions@[j].body,
            decreases self.functions.len() - i,
        {
            functions.push(
                Function {
                    name: self.functions[i].name.clone(),
                    body: share(&self.functions[i].body),
                },
            );
            i += 1;
        }
        let mut readonly_functions: Vec<String> = Vec::new();
        let mut i: usize = 0;
        while i < self.readonly_functions.len()
            invariant
                i <= self.readonly_functions.len(),
                readonly_functions@.len() == i,
                forall|j: int|
                    0 <= j < i ==> (#[trigger] readonly_functions@[j])@
                        == self.readonly_functions@[j]@,
            decreases self.readonly_functions.len() - i,
        {
            readonly_functions.push(self.readonly_functions[i].clone());
            i += 1;
        }
        let c = Context { vars, functions, readonly_functions };
        proof {
            assert(var_names(c.vars@) =~= var_names(self.vars@));
            assert(var_views(c.vars@) =~= var_views(self.vars@));
            assert(function_names(c.functions@) =~= function_names(self.functions@));
            assert(function_bodies(c.functions@) =~= function_bodies(self.functions@));
            assert(views(c.readonly_functions@) =~= views(self.readonly_functions@));
        }
        c
    }
}

impl<'a> ContextUtils<&'a str> for Context {
    open spec fn scope(&self) -> ScopeView {
        self@
    }

    open spec fn scope_wf(&self) -> bool {
        self.wf()
    }

    /// An assignment `NAME=VALUE` stands for the variable `NAME` with the value
    /// `VALUE`; a text without `=` for a variable with an empty value.
    open spec fn as_var(var: &'a str) -> VarView {
        VarView { name: assignment_name(var@), value: assignment_value(var@), readonly: false }
    }

    fn add_var(&mut self, var: &'a str) {
        let (name, value) = split_assignment(var);
        self.set(Var { name, value, readonly: false });
    }

    fn add_var_readonly(&mut self, var: &'a str) {
        let (name, value) = split_assignment(var);
        self.set(Var { name, value, readonly: true });
    }
}

impl<'a, 'b> ContextUtils<(&'a str, &'b str)> for Context {
    open spec fn scope(&self) -> ScopeView {
        self@
    }

    open spec fn scope_wf(&self) -> bool {
        self.wf()
    }

    open spec fn as_var(var: (&'a str, &'b str)) -> VarView {
        VarView { name: var.0@, value: var.1@, readonly: false }
    }

    fn add_var(&mut self, var: (&'a str, &'b str)) {
        self.set(Var::new(var.0, var.1));
    }

    fn add_var_readonly(&mut self, var: (&'a str, &'b str)) {
        let mut v = Var::new(var.0, var.1);
        v.make_readonly();
        self.set(v);
    }
}

impl ContextUtils<Var> for Context {
    open spec fn scope(&self) -> ScopeView {
        self@
    }

    open spec fn scope_wf(&self) -> bool {
        self.wf()
    }

    open spec fn as_var(var: Var) -> VarView {
        var@
    }

    fn add_var(&mut self, var: Var) {
        self.set(var);
    }

    fn add_var_readonly(&mut self, var: Var) {
        let mut v = var;
        v.make_readonly();
        self.set(v);
    }
}

/// The highest position below `upto` of a scope that holds a variable `name`;
/// `-1` when there is none.
pub open spec fn var_owner(stack: Seq<ScopeView>, name: Seq<char>, upto: int) -> int
    decreases upto,
{
    if upto <= 0 {
        -1
    } else if stack[upto - 1].vars.contains_key(name) {
        upto - 1
    } else {
        var_owner(stack, name, upto - 1)
    }
}

/// The highest position below `upto` of a scope that holds a function `name`;
/// `-1` when there is none.
pub open spec fn function_owner(stack: Seq<ScopeView>, name: Seq<char>, upto: int) -> int
    decreases upto,
{
    if upto <= 0 {
        -1
    } else if stack[upto - 1].functions.contains_key(name) {
        upto - 1
    } else {
        function_owner(stack, name, upto - 1)
    }
}

/// What `var_owner` finds.
pub proof fn lemma_var_owner(stack: Seq<ScopeView>, name: Seq<char>, upto: int)
    requires
        0 <= upto <= stack.len(),
    ensures
        -1 <= var_owner(stack, name, upto) < upto,
        var_owner(stack, name, upto) >= 0 ==> stack[var_owner(stack, name, upto)].vars.contains_key(
            name,
        ),
        forall|i: int|
            var_owner(stack, name, upto) < i < upto ==> !(#[trigger] stack[i]).vars.contains_key(
                name,
            ),
    decreases upto,
{
    if upto > 0 && !stack[upto - 1].vars.contains_key(name) {
        lemma_var_owner(stack, name, upto - 1);
    }
}

/// What `function_owner` finds.
pub proof fn lemma_function_owner(stack: Seq<ScopeView>, name: Seq<char>, upto: int)
    requires
        0 <= upto <= stack.len(),
    ensures
        -1 <= function_owner(stack, name, upto) < upto,
        function_owner(stack, name, upto) >= 0 ==> stack[function_owner(
            stack,
            name,
            upto,
        )].functions.contains_key(name),
        forall|i: int|
            function_owner(stack, name, upto) < i < upto ==> !(
            #[trigger] stack[i]).functions.contains_key(name),
    decreases upto,
{
    if upto > 0 && !stack[upto - 1].functions.contains_key(name) {
        lemma_function_owner(stack, name, upto - 1);
    }
}

/// The mathematical content of the context manager: the stack of scopes, the
/// environment scope first, and the scopes exported under a namespace.
pub struct ManagerView {
    pub stack: Seq<ScopeView>,
    pub exported: Map<Seq<char>, ScopeView>,
}

impl ManagerView {
    /// The stack is never empty, and every scope is well formed.
    pub open spec fn wf(self) -> bool {
        &&& self.stack.len() >= 1
        &&& forall|i: int| 0 <= i < self.stack.len() ==> (#[trigger] self.stack[i]).wf()
        &&& forall|ns: Seq<char>| #[trigger]
            self.exported.contains_key(ns) ==> self.exported[ns].wf()
    }

    /// The scope that a write of variable `name` goes to: the topmost scope
    /// that holds the name, else the current scope.
    pub open spec fn var_target(self, name: Seq<char>) -> int {
        if var_owner(self.stack, name, self.stack.len() as int) >= 0 {
            var_owner(self.stack, name, self.stack.len() as int)
        } else {
            self.stack.len() - 1
        }
    }

    /// The scope that a definition of function `name` goes to.
    pub open spec fn function_target(self, name: Seq<char>) -> int {
        if function_owner(self.stack, name, self.stack.len() as int) >= 0 {
            function_owner(self.stack, name, self.stack.len() as int)
        } else {
            self.stack.len() - 1
        }
    }

    /// The variable that `name` reaches: a qualified name `ns::member` reaches
    /// into the scope exported as `ns` and nowhere else; any other name reaches
    /// the topmost scope of the stack that holds it.
    pub open spec fn lookup_var(self, name: Seq<char>) -> Option<VarView> {
        if is_qualified(name) {
            if self.exported.contains_key(namespace_of(name))
                && self.exported[namespace_of(name)].vars.contains_key(member_of(name)) {
                Some(self.exported[namespace_of(name)].vars[member_of(name)])
            } else {
                None
            }
        } else {
            let o = var_owner(self.stack, name, self.stack.len() as int);
            if o >= 0 {
                Some(self.stack[o].vars[name])
            } else {
                None
            }
        }
    }

    /// The function that `name` reaches, by the rule of `lookup_var`.
    pub open spec fn lookup_function(self, name: Seq<char>) -> Option<FunctionBody> {
        if is_qualified(name) {
            if self.exported.contains_key(namespace_of(name))
                && self.exported[namespace_of(name)].functions.contains_key(member_of(name)) {
                Some(self.exported[namespace_of(name)].functions[member_of(name)])
            } else {
                None
            }
        } else {
            let o = function_owner(self.stack, name, self.stack.len() as int);
            if o >= 0 {
                Some(self.stack[o].functions[name])
            } else {
                None
            }
        }
    }

    /// The manager after scope `pos` of the stack was replaced.
    pub open spec fn with_scope(self, pos: int, scope: ScopeView) -> ManagerView {
        ManagerView { stack: self.stack.update(pos, scope), ..self }
    }

    /// The manager after the scope exported as `ns` was replaced.
    pub open spec fn with_exported(self, ns: Seq<char>, scope: ScopeView) -> ManagerView {
        ManagerView { exported: self.exported.insert(ns, scope), ..self }
    }

    /// The manager after variable `v` was written: into the topmost scope that
    /// holds the name, else into the current scope. A readonly variable stays.
    pub open spec fn written(self, v: VarView) -> ManagerView {
        let t = self.var_target(v.name);
        self.with_scope(t, self.stack[t].assigned(v))
    }

    /// The manager after the assignment `NAME=VALUE` was carried out.
    pub open spec fn assigned(self, set: Seq<char>) -> ManagerView {
        self.written(
            VarView { name: assignment_name(set), value: assignment_value(set), readonly: false },
        )
    }

    /// The manager after the assignment `NAME=VALUE` was carried out and the
    /// variable made readonly. A text `ns::NAME=VALUE` writes into the scope
    /// exported as `ns`, if there is one.
    pub open spec fn assigned_readonly(self, set: Seq<char>) -> ManagerView {
        if is_qualified(set) {
            let ns = namespace_of(set);
            if self.exported.contains_key(ns) {
                self.with_exported(
                    ns,
                    self.exported[ns].assigned(
                        VarView {
                            name: assignment_name(member_of(set)),
                            value: assignment_value(member_of(set)),
                            readonly: true,
                        },
                    ),
                )
            } else {
                self
            }
        } else {
            self.written(
                VarView { name: assignment_name(set), value: assignment_value(set), readonly: true },
            )
        }
    }

    /// The manager after the assignment was carried out in scope `pos` of the
    /// stack; a position outside the stack changes nothing.
    pub open spec fn assigned_at(self, set: Seq<char>, pos: int) -> ManagerView {
        if 0 <= pos < self.stack.len() {
            self.with_scope(
                pos,
                self.stack[pos].assigned(
                    VarView {
                        name: assignment_name(set),
                        value: assignment_value(set),
                        readonly: false,
                    },
                ),
            )
        } else {
            self
        }
    }

    /// The manager after the variable that `name` reaches was made readonly.
    pub open spec fn marked_readonly(self, name: Seq<char>) -> ManagerView {
        if is_qualified(name) {
            let ns = namespace_of(name);
            if self.exported.contains_key(ns) {
                self.with_exported(ns, self.exported[ns].marked_readonly(member_of(name)))
            } else {
                self
            }
        } else {
            let o = var_owner(self.stack, name, self.stack.len() as int);
            if o >= 0 {
                self.with_scope(o, self.stack[o].marked_readonly(name))
            } else {
                self
            }
        }
    }

    /// The manager after the variable that `name` reaches was unset. A
    /// readonly variable stays.
    pub open spec fn without_var(self, name: Seq<char>) -> ManagerView {
        if is_qualified(name) {
            let ns = namespace_of(name);
            if self.exported.contains_key(ns) {
                self.with_exported(ns, self.exported[ns].without_var(member_of(name)))
            } else {
                self
            }
        } else {
            let o = var_owner(self.stack, name, self.stack.len() as int);
            if o >= 0 {
                self.with_scope(o, self.stack[o].without_var(name))
            } else {
                self
            }
        }
    }

    /// The manager after function `name` was bound to `body`: in the topmost
    /// scope that holds the name, else in the current scope. A readonly
    /// function stays.
    pub open spec fn with_function(self, name: Seq<char>, body: FunctionBody) -> ManagerView {
        let t = self.function_target(name);
        self.with_scope(t, self.stack[t].with_function(name, body))
    }

    /// The manager after the function that `name` reaches was removed. A
    /// readonly function stays.
    pub open spec fn without_function(self, name: Seq<char>) -> ManagerView {
        if is_qualified(name) {
            let ns = namespace_of(name);
            if self.exported.contains_key(ns) {
                self.with_exported(ns, self.exported[ns].without_function(member_of(name)))
            } else {
                self
            }
        } else {
            let o = function_owner(self.stack, name, self.stack.len() as int);
            if o >= 0 {
                self.with_scope(o, self.stack[o].without_function(name))
            } else {
                self
            }
        }
    }

    /// The manager after the function that `name` reaches was made readonly.
    pub open spec fn function_readonly(self, name: Seq<char>) -> ManagerView {
        if is_qualified(name) {
            let ns = namespace_of(name);
            if self.exported.contains_key(ns) {
                self.with_exported(ns, self.exported[ns].function_readonly(member_of(name)))
            } else {
                self
            }
        } else {
            let o = function_owner(self.stack, name, self.stack.len() as int);
            if o >= 0 {
                self.with_scope(o, self.stack[o].function_readonly(name))
            } else {
                self
            }
        }
    }

    /// The paths where command `cmd` may be, in the order of the search path:
    /// for each directory of `PATH` in the environment scope, the directory,
    /// `/` and the name. Without a `PATH` there is none.
    pub open spec fn command_paths(self, cmd: Seq<char>) -> Seq<Seq<char>> {
        if self.stack[0].vars.contains_key("PATH"@) {
            candidates(pieces(self.stack[0].vars["PATH"@].value, ':', 0), cmd)
        } else {
            Seq::empty()
        }
    }

    /// The manager after `scope` was pushed.
    pub open spec fn pushed(self, scope: ScopeView) -> ManagerView {
        ManagerView { stack: self.stack.push(scope), ..self }
    }

    /// The manager after the topmost scope was popped; the environment scope
    /// stays.
    pub open spec fn popped(self) -> ManagerView {
        if self.stack.len() > 1 {
            ManagerView { stack: self.stack.drop_last(), ..self }
        } else {
            self
        }
    }
}

/// After a variable was written, its name reaches the value that was
/// written, unless the name reached a readonly variable before. The name is
/// an unqualified one.
pub proof fn law_write_then_read(m: ManagerView, v: VarView)
    requires
        m.wf(),
        !is_qualified(v.name),
        !(m.lookup_var(v.name) matches Some(w) && w.readonly),
    ensures
        m.written(v).lookup_var(v.name) == Some(v),
        m.written(v).wf(),
{
    let n = m.stack.len() as int;
    lemma_var_owner(m.stack, v.name, n);
    let t = m.var_target(v.name);
    let after = m.written(v);
    lemma_var_owner(after.stack, v.name, n);
    assert(after.stack[t].vars.contains_key(v.name));
    let o = var_owner(after.stack, v.name, n);
    if o > t {
        assert(after.stack[o] == m.stack[o]);
    }
}

/// A write to a name that reaches a readonly variable changes nothing.
pub proof fn law_readonly_write(m: ManagerView, v: VarView)
    requires
        m.wf(),
        !is_qualified(v.name),
        m.lookup_var(v.name) matches Some(w) && w.readonly,
    ensures
        m.written(v) == m,
{
    let n = m.stack.len() as int;
    lemma_var_owner(m.stack, v.name, n);
    let t = m.var_target(v.name);
    assert(m.stack.update(t, m.stack[t]) =~= m.stack);
}

/// A write to one name leaves what every other name reaches.
pub proof fn law_write_keeps_others(m: ManagerView, v: VarView, other: Seq<char>)
    requires
        m.wf(),
        other != v.name,
    ensures
        m.written(v).lookup_var(other) == m.lookup_var(other),
{
    let n = m.stack.len() as int;
    let after = m.written(v);
    if !is_qualified(other) {
        lemma_var_owner(m.stack, v.name, n);
        lemma_same_owner(m.stack, after.stack, other, n);
        let o = var_owner(m.stack, other, n);
        lemma_var_owner(m.stack, other, n);
    }
}

/// A write to a name is undone by writing back the value that the name
/// reached before, or by unsetting the name if it reached nothing.
pub proof fn law_write_undone(m: ManagerView, name: Seq<char>, value: Seq<char>)
    requires
        m.wf(),
        !is_qualified(name),
    ensures
        m.written(plain_var(name, value)).wf(),
        m.lookup_var(name) matches Some(v) ==> m.written(plain_var(name, value)).written(
            plain_var(name, v.value),
        ) == m,
        m.lookup_var(name) is None ==> m.written(plain_var(name, value)).without_var(name) == m,
{
    let n = m.stack.len() as int;
    let t = m.var_target(name);
    let after = m.written(plain_var(name, value));
    lemma_var_owner(m.stack, name, n);
    lemma_var_owner(after.stack, name, n);
    assert forall|i: int| 0 <= i < after.stack.len() implies (#[trigger] after.stack[i]).wf() by {
        assert(m.stack[i].wf());
    }
    match m.lookup_var(name) {
        Some(v) => {
            assert(m.stack[t].vars.contains_key(name));
            lemma_same_owner(m.stack, after.stack, name, n);
            let back = after.written(plain_var(name, v.value));
            if v.readonly {
                assert(after.stack =~= m.stack);
                assert(back.stack =~= m.stack);
            } else {
                assert(v.name == name);
                assert(back.stack[t].vars =~= m.stack[t].vars);
                assert(back.stack[t] == m.stack[t]);
                assert(back.stack =~= m.stack);
            }
        },
        None => {
            assert(!m.stack[t].vars.contains_key(name));
            assert(after.stack[t].vars.contains_key(name));
            let o = var_owner(after.stack, name, n);
            if o > t {
                assert(after.stack[o] == m.stack[o]);
            }
            if 0 <= o < t {
                assert(after.stack[t].vars.contains_key(name));
            }
            assert(o == t);
            let back = after.without_var(name);
            assert(back.stack[t].vars =~= m.stack[t].vars);
            assert(back.stack[t] == m.stack[t]);
            assert(back.stack =~= m.stack);
        },
    }
}

/// Two stacks whose scopes hold the same names with regard to `name` have the
/// same owner of `name`.
proof fn lemma_same_owner(a: Seq<ScopeView>, b: Seq<ScopeView>, name: Seq<char>, upto: int)
    requires
        a.len() == b.len(),
        0 <= upto <= a.len(),
        forall|i: int|
            0 <= i < a.len() ==> (#[trigger] a[i]).vars.contains_key(name)
                == b[i].vars.contains_key(name),
    ensures
        var_owner(a, name, upto) == var_owner(b, name, upto),
    decreases upto,
{
    if upto > 0 {
        assert(a[upto - 1].vars.contains_key(name) == b[upto - 1].vars.contains_key(name));
        lemma_same_owner(a, b, name, upto - 1);
    }
}

/// A scope that holds no variable `name`, pushed onto the stack, leaves what
/// the name reaches; and popping it again gives the manager back.
pub proof fn law_push_pop(m: ManagerView, scope: ScopeView, name: Seq<char>)
    requires
        m.wf(),
    ensures
        !scope.vars.contains_key(name) ==> m.pushed(scope).lookup_var(name) == m.lookup_var(name),
        m.pushed(scope).popped() == m,
{
    let p = m.pushed(scope);
    assert(p.stack.drop_last() =~= m.stack);
    if !scope.vars.contains_key(name) && !is_qualified(name) {
        let n = m.stack.len() as int;
        assert(p.stack[n] == scope);
        lemma_owner_prefix(m.stack, p.stack, name, n);
        lemma_var_owner(m.stack, name, n);
        let o = var_owner(m.stack, name, n);
        if o >= 0 {
            assert(p.stack[o] == m.stack[o]);
        }
    }
}

/// The owner of a name below `upto` depends on the scopes below `upto` only.
proof fn lemma_owner_prefix(a: Seq<ScopeView>, b: Seq<ScopeView>, name: Seq<char>, upto: int)
    requires
        0 <= upto <= a.len(),
        upto <= b.len(),
        forall|i: int| 0 <= i < upto ==> #[trigger] a[i] == b[i],
    ensures
        var_owner(a, name, upto) == var_owner(b, name, upto),
    decreases upto,
{
    if upto > 0 {
        assert(a[upto - 1] == b[upto - 1]);
        lemma_owner_prefix(a, b, name, upto - 1);
    }
}

/// A variable written in a scope is gone once the scope is popped, where the
/// scopes below did not hold the name: the name reaches what it reached
/// before the scope was pushed.
pub proof fn law_pop_forgets(m: ManagerView, v: VarView)
    requires
        m.wf(),
        !is_qualified(v.name),
        m.lookup_var(v.name) is None,
    ensures
        m.pushed(ScopeView::empty()).written(v).popped() == m,
{
    let n = m.stack.len() as int;
    let p = m.pushed(ScopeView::empty());
    lemma_owner_prefix(m.stack, p.stack, v.name, n);
    lemma_var_owner(m.stack, v.name, n);
    assert(p.stack[n] == ScopeView::empty());
    assert(var_owner(p.stack, v.name, n + 1) == -1);
    let w = p.written(v);
    assert(w.stack.drop_last() =~= m.stack);
}

/// The pieces of `s[from..]` between the occurrences of `sep`; an empty piece
/// counts.
pub open spec fn pieces(s: Seq<char>, sep: char, from: int) -> Seq<Seq<char>>
    decreases s.len() - from,
{
    let k = index_from(s, sep, from);
    if from > s.len() {
        Seq::empty()
    } else if k >= s.len() {
        seq![s.subrange(from, s.len() as int)]
    } else if k < from {
        Seq::empty()
    } else {
        seq![s.subrange(from, k)] + pieces(s, sep, k + 1)
    }
}

/// The paths where a command may be: each directory of the search path,
/// then `/`, then the name of the command.
pub open spec fn candidates(dirs: Seq<Seq<char>>, cmd: Seq<char>) -> Seq<Seq<char>> {
    Seq::new(dirs.len(), |i: int| dirs[i] + "/"@ + cmd)
}

/// The first position at or after `from` that is flagged in `flags` and below
/// `limit`; `limit` when there is none.
pub open spec fn first_flagged(flags: Seq<bool>, limit: int, from: int) -> int
    decreases limit - from,
{
    if from >= limit || from >= flags.len() {
        limit
    } else if flags[from] {
        from
    } else {
        first_flagged(flags, limit, from + 1)
    }
}

/// A scope exported under a namespace.
pub struct Exported {
    pub name: String,
    pub context: Context,
}

/// The namespaces of a sequence of exported scopes.
pub open spec fn exported_names(es: Seq<Exported>) -> Seq<Seq<char>> {
    Seq::new(es.len(), |i: int| es[i].name@)
}

/// The contents of a sequence of exported scopes.
pub open spec fn exported_views(es: Seq<Exported>) -> Seq<ScopeView> {
    Seq::new(es.len(), |i: int| es[i].context@)
}

/// The contents of a sequence of scopes.
pub open spec fn scope_views(cs: Seq<Context>) -> Seq<ScopeView> {
    Seq::new(cs.len(), |i: int| cs[i]@)
}

/// The variables of the environment scope at the start, as the host process
/// gives them: the variables of its environment, the later of two of a name
/// winning, from `env[..upto]`.
pub open spec fn env_scope(env: Seq<(String, String)>, upto: int) -> ScopeView
    decreases upto,
{
    if upto <= 0 {
        ScopeView::empty()
    } else {
        env_scope(env, upto - 1).assigned(
            VarView { name: env[upto - 1].0@, value: env[upto - 1].1@, readonly: false },
        )
    }
}

/// A variable that can be written.
pub open spec fn plain_var(name: Seq<char>, value: Seq<char>) -> VarView {
    VarView { name: name, value: value, readonly: false }
}

/// The environment scope at the start: the environment of the host process;
/// then the search path and the working directory where the environment
/// gives none; then the prompts, and the ids of the parent process and of the
/// shell itself.
pub open spec fn initial_scope(
    env: Seq<(String, String)>,
    is_root: bool,
    pid: i32,
    ppid: i32,
    cwd: Seq<char>,
) -> ScopeView {
    let e = env_scope(env, env.len() as int);
    let e1 = if e.vars.contains_key("PATH"@) {
        e
    } else {
        e.assigned(plain_var("PATH"@, DEFAULT_PATH@))
    };
    let e2 = if e1.vars.contains_key("PWD"@) {
        e1
    } else {
        e1.assigned(plain_var("PWD"@, cwd))
    };
    e2.assigned(
        plain_var(
            "PS1"@,
            if is_root {
                SUP_USER_PROMPT@
            } else {
                REG_USER_PROMPT@
            },
        ),
    ).assigned(plain_var("PS2"@, "> "@)).assigned(plain_var("PS4"@, "+ "@)).assigned(
        plain_var("PPID"@, crate::text::signed_decimal(ppid as int)),
    ).assigned(plain_var("PID"@, crate::text::signed_decimal(pid as int)))
}

/// The stack of scopes and the exported scopes.
pub struct ContextManager {
    context_stack: Vec<Context>,
    exported_contexts: Vec<Exported>,
}

impl View for ContextManager {
    type V = ManagerView;

    closed spec fn view(&self) -> ManagerView {
        ManagerView {
            stack: scope_views(self.context_stack@),
            exported: assoc(
                exported_names(self.exported_contexts@),
                exported_views(self.exported_contexts@),
            ),
        }
    }
}

impl ContextManager {
    /// The hidden part of the invariant.
    pub closed spec fn inv(&self) -> bool {
        &&& no_dups(exported_names(self.exported_contexts@))
        &&& forall|i: int|
            0 <= i < self.context_stack@.len() ==> (#[trigger] self.context_stack@[i]).wf()
        &&& forall|i: int|
            0 <= i < self.exported_contexts@.len() ==> (
            #[trigger] self.exported_contexts@[i]).context.wf()
    }

    /// The invariant of the manager.
    pub open spec fn wf(&self) -> bool {
        self.inv() && self@.wf()
    }

    /// The hidden part of the invariant gives the rest, but for the depth of
    /// the stack.
    proof fn lemma_views_wf(&self)
        requires
            self.inv(),
            self.context_stack@.len() >= 1,
        ensures
            self.wf(),
    {
        assert forall|i: int| 0 <= i < self@.stack.len() implies (#[trigger] self@.stack[i]).wf() by {
            assert(self.context_stack@[i].wf());
        }
        let names = exported_names(self.exported_contexts@);
        lemma_name_pos_all(names);
        assert forall|ns: Seq<char>| #[trigger] self@.exported.contains_key(ns) implies self@.exported[ns].wf() by {
            let q = name_pos(names, ns, 0);
            assert(self.exported_contexts@[q].context.wf());
        }
    }

    /// A manager whose environment scope holds what `initial_scope` says.
    pub fn new(env: &Vec<(String, String)>, is_root: bool, pid: i32, ppid: i32, cwd: &str) -> (m:
        ContextManager)
        ensures
            m.wf(),
            m@.stack == seq![initial_scope(env@, is_root, pid, ppid, cwd@)],
            m@.exported == Map::<Seq<char>, ScopeView>::empty(),
    {
        let mut scope = Context::new();
        let mut i: usize = 0;
        while i < env.len()
            invariant
                i <= env.len(),
                scope.wf(),
                scope@ == env_scope(env@, i as int),
            decreases env.len() - i,
        {
            scope.set(Var { name: env[i].0.clone(), value: env[i].1.clone(), readonly: false });
            i += 1;
        }
        if scope.get_var("PATH").is_none() {
            scope.set(Var::new("PATH", DEFAULT_PATH));
        }
        if scope.get_var("PWD").is_none() {
            scope.set(Var::new("PWD", cwd));
        }
        let ps1 = if is_root {
            SUP_USER_PROMPT
        } else {
            REG_USER_PROMPT
        };
        scope.set(Var::new("PS1", ps1));
        scope.set(Var::new("PS2", "> "));
        scope.set(Var::new("PS4", "+ "));
        let mut parent = String::new();
        push_signed_decimal(&mut parent, ppid as i64);
        scope.set(Var::new("PPID", parent.as_str()));
        let mut own = String::new();
        push_signed_decimal(&mut own, pid as i64);
        scope.set(Var::new("PID", own.as_str()));
        let mut stack: Vec<Context> = Vec::new();
        stack.push(scope);
        let m = ContextManager { context_stack: stack, exported_contexts: Vec::new() };
        proof {
            assert(m@.stack =~= seq![initial_scope(env@, is_root, pid, ppid, cwd@)]);
            assert(m@.exported =~= Map::<Seq<char>, ScopeView>::empty());
            m.lemma_views_wf();
        }
        m
    }

    /// Pushes `context`; it becomes the current scope.
    pub fn push_context(&mut self, context: Context)
        requires
            old(self).wf(),
            context.wf(),
        ensures
            final(self).wf(),
            final(self)@ == old(self)@.pushed(context@),
    {
        self.context_stack.push(context);
        proof {
            assert(self@.stack =~= old(self)@.stack.push(context@));
            assert forall|i: int| 0 <= i < self.context_stack@.len() implies (
            #[trigger] self.context_stack@[i]).wf() by {
                if i < old(self).context_stack@.len() {
                    assert(self.context_stack@[i] == old(self).context_stack@[i]);
                }
            }
            self.lemma_views_wf();
        }
    }

    /// Pushes an empty scope; it becomes the current scope.
    pub fn push_context_new(&mut self)
        requires
            old(self).wf(),
        ensures
            final(self).wf(),
            final(self)@ == old(self)@.pushed(ScopeView::empty()),
    {
        self.push_context(Context::new());
    }

    /// Removes the current scope and hands it out. The environment scope is
    /// never removed: with it alone on the stack the answer is `None`.
    pub fn pop_context(&mut self) -> (r: Option<Context>)
        requires
            old(self).wf(),
        ensures
            final(self).wf(),
            final(self)@ == old(self)@.popped(),
            r is Some <==> old(self)@.stack.len() > 1,
            r matches Some(c) ==> c.wf() && c@ == old(self)@.stack.last(),
    {
        if self.context_stack.len() <= 1 {
            return None;
        }
        let c = self.context_stack.pop();
        proof {
            assert(self@.stack =~= old(self)@.stack.drop_last());
            assert(old(self).context_stack@[old(self).context_stack@.len() - 1].wf());
            assert forall|i: int| 0 <= i < self.context_stack@.len() implies (
            #[trigger] self.context_stack@[i]).wf() by {
                assert(self.context_stack@[i] == old(self).context_stack@[i]);
            }
            self.lemma_views_wf();
        }
        c
    }

    /// The number of scopes on the stack.
    pub fn depth(&self) -> (n: usize)
        ensures
            n == self@.stack.len(),
    {
        self.context_stack.len()
    }

    /// The current scope.
    pub fn get_context(&self) -> (c: &Context)
        requires
            self.wf(),
        ensures
            c.wf(),
            c@ == self@.stack.last(),
    {
        &self.context_stack[self.context_stack.len() - 1]
    }

    /// The environment scope.
    pub fn get_env_context(&self) -> (c: &Context)
        requires
            self.wf(),
        ensures
            c.wf(),
            c@ == self@.stack[0],
    {
        &self.context_stack[0]
    }

    /// The position of the scope exported as `name`.
    fn find_exported(&self, name: &String) -> (r: Option<usize>)
        ensures
            r is Some <==> self@.exported.contains_key(name@),
            r matches Some(i) ==> i < self.exported_contexts.len() && i == name_pos(
                exported_names(self.exported_contexts@),
                name@,
                0,
            ) && self.exported_contexts[i as int].context@ == self@.exported[name@]
                && self.exported_contexts[i as int].name@ == name@,
    {
        let mut i: usize = 0;
        while i < self.exported_contexts.len()
            invariant
                i <= self.exported_contexts.len(),
                name_pos(exported_names(self.exported_contexts@), name@, 0) == name_pos(
                    exported_names(self.exported_contexts@),
                    name@,
                    i as int,
                ),
            decreases self.exported_contexts.len() - i,
        {
            if self.exported_contexts[i].name == *name {
                return Some(i);
            }
            i += 1;
        }
        None
    }

    /// Exports `context` as `name`, in place of a scope exported under that
    /// name before.
    pub fn add_context(&mut self, name: &str, context: Context)
        requires
            old(self).wf(),
            context.wf(),
        ensures
            final(self).wf(),
            final(self)@ == old(self)@.with_exported(name@, context@),
    {
        let key = name.to_owned();
        let ghost names = exported_names(self.exported_contexts@);
        let ghost vals = exported_views(self.exported_contexts@);
        let ghost c = context@;
        match self.find_exported(&key) {
            Some(i) => {
                self.exported_contexts[i].context = context;
                proof {
                    assert(exported_names(self.exported_contexts@) =~= names);
                    assert(exported_views(self.exported_contexts@) =~= vals.update(i as int, c));
                    lemma_assoc_update(names, vals, name@, c);
                }
            },
            None => {
                self.exported_contexts.push(Exported { name: key, context });
                proof {
                    assert(exported_names(self.exported_contexts@) =~= names.push(name@));
                    assert(exported_views(self.exported_contexts@) =~= vals.push(c));
                    lemma_assoc_push(names, vals, name@, c);
                }
            },
        }
        proof {
            assert(self@.stack =~= old(self)@.stack);
            assert forall|i: int| 0 <= i < self.exported_contexts@.len() implies (
            #[trigger] self.exported_contexts@[i]).context.wf() by {
                if i < old(self).exported_contexts@.len() && self.exported_contexts@[i].context@
                    != c {
                    assert(self.exported_contexts@[i] == old(self).exported_contexts@[i]);
                }
            }
            self.lemma_views_wf();
        }
    }

    /// Removes the scope exported as `name`.
    pub fn remove_context(&mut self, name: &str)
        requires
            old(self).wf(),
        ensures
            final(self).wf(),
            final(self)@ == (ManagerView {
                exported: old(self)@.exported.remove(name@),
                ..old(self)@
            }),
    {
        let key = name.to_owned();
        let ghost names = exported_names(self.exported_contexts@);
        let ghost vals = exported_views(self.exported_contexts@);
        match self.find_exported(&key) {
            Some(i) => {
                self.exported_contexts.remove(i);
                proof {
                    assert(exported_names(self.exported_contexts@) =~= names.remove(i as int));
                    assert(exported_views(self.exported_contexts@) =~= vals.remove(i as int));
                    lemma_assoc_remove(names, vals, name@);
                }
            },
            None => {
                proof {
                    lemma_assoc_absent(names, vals, name@);
                }
            },
        }
        proof {
            assert(self@.stack =~= old(self)@.stack);
            assert forall|i: int| 0 <= i < self.exported_contexts@.len() implies (
            #[trigger] self.exported_contexts@[i]).context.wf() by {
                let j = if self.exported_contexts@.len() == old(self).exported_contexts@.len()
                    || i < name_pos(names, name@, 0) {
                    i
                } else {
                    i + 1
                };
                assert(self.exported_contexts@[i] == old(self).exported_contexts@[j]);
            }
            self.lemma_views_wf();
        }
    }

    /// The scope exported as `name`.
    pub fn get_context_by_name(&self, name: &str) -> (r: Option<&Context>)
        requires
            self.wf(),
        ensures
            r is Some <==> self@.exported.contains_key(name@),
            r matches Some(c) ==> c.wf() && c@ == self@.exported[name@],
    {
        let key = name.to_owned();
        match self.find_exported(&key) {
            Some(i) => Some(&self.exported_contexts[i].context),
            None => None,
        }
    }

    /// The position of the topmost scope that holds a variable `name`.
    fn find_var_owner(&self, name: &str) -> (r: Option<usize>)
        ensures
            r is Some <==> var_owner(self@.stack, name@, self@.stack.len() as int) >= 0,
            r matches Some(i) ==> i < self.context_stack.len() && i == var_owner(
                self@.stack,
                name@,
                self@.stack.len() as int,
            ),
    {
        let n = self.context_stack.len();
        let mut k: usize = n;
        while k > 0
            invariant
                k <= n == self.context_stack.len(),
                var_owner(self@.stack, name@, n as int) == var_owner(self@.stack, name@, k as int),
            decreases k,
        {
            k -= 1;
            if self.context_stack[k].get_var(name).is_some() {
                return Some(k);
            }
        }
        None
    }

    /// The position of the topmost scope that holds a function `name`.
    fn find_function_owner(&self, name: &str) -> (r: Option<usize>)
        ensures
            r is Some <==> function_owner(self@.stack, name@, self@.stack.len() as int) >= 0,
            r matches Some(i) ==> i < self.context_stack.len() && i == function_owner(
                self@.stack,
                name@,
                self@.stack.len() as int,
            ),
    {
        let n = self.context_stack.len();
        let mut k: usize = n;
        while k > 0
            invariant
                k <= n == self.context_stack.len(),
                function_owner(self@.stack, name@, n as int) == function_owner(
                    self@.stack,
                    name@,
                    k as int,
                ),
            decreases k,
        {
            k -= 1;
            if self.context_stack[k].has_function(name) {
                return Some(k);
            }
        }
        None
    }

    /// The variable that `name` reaches: see `ManagerView::lookup_var`.
    pub fn get_var(&self, name: &str) -> (r: Option<&Var>)
        requires
            self.wf(),
        ensures
            r is Some <==> self@.lookup_var(name@) is Some,
            r matches Some(v) ==> Some(v@) == self@.lookup_var(name@),
    {
        proof {
            lemma_var_owner(self@.stack, name@, self@.stack.len() as int);
        }
        match split_qualified(name) {
            Some((ns, member)) => match self.get_context_by_name(ns.as_str()) {
                Some(c) => c.get_var(member.as_str()),
                None => None,
            },
            None => match self.find_var_owner(name) {
                Some(i) => {
                    assert(self@.stack[i as int] == self.context_stack@[i as int]@);
                    self.context_stack[i].get_var(name)
                },
                None => None,
            },
        }
    }

    /// The value of the variable that `name` reaches.
    pub fn value_of(&self, name: &str) -> (r: Option<String>)
        requires
            self.wf(),
        ensures
            r is Some <==> self@.lookup_var(name@) is Some,
            r matches Some(s) ==> s@ == self@.lookup_var(name@)->0.value,
    {
        match self.get_var(name) {
            Some(v) => Some(v.value.clone()),
            None => None,
        }
    }

    /// The function that `name` reaches: see `ManagerView::lookup_function`.
    pub fn get_function(&self, name: &str) -> (r: Option<Rc<FunctionBody>>)
        requires
            self.wf(),
        ensures
            r is Some <==> self@.lookup_function(name@) is Some,
            r matches Some(b) ==> Some(*b) == self@.lookup_function(name@),
    {
        proof {
            lemma_function_owner(self@.stack, name@, self@.stack.len() as int);
        }
        match split_qualified(name) {
            Some((ns, member)) => match self.get_context_by_name(ns.as_str()) {
                Some(c) => c.get_function(member.as_str()),
                None => None,
            },
            None => match self.find_function_owner(name) {
                Some(i) => {
                    assert(self@.stack[i as int] == self.context_stack@[i as int]@);
                    self.context_stack[i].get_function(name)
                },
                None => None,
            },
        }
    }

    /// Tells whether `name` reaches a function.
    pub fn is_function(&self, name: &str) -> (r: bool)
        requires
            self.wf(),
        ensures
            r == self@.lookup_function(name@) is Some,
    {
        self.get_function(name).is_some()
    }

    /// After a change of scope `pos` alone, the manager is well formed and is
    /// its old self with that scope replaced.
    proof fn lemma_scope_changed(&self, before: &ContextManager, pos: int)
        requires
            before.wf(),
            0 <= pos < before.context_stack@.len(),
            self.context_stack@.len() == before.context_stack@.len(),
            forall|i: int|
                0 <= i < self.context_stack@.len() && i != pos ==> self.context_stack@[i]
                    == before.context_stack@[i],
            self.context_stack@[pos].wf(),
            self.exported_contexts == before.exported_contexts,
        ensures
            self.wf(),
            self@ == before@.with_scope(pos, self.context_stack@[pos]@),
    {
        assert(self@.stack =~= before@.stack.update(pos, self.context_stack@[pos]@));
        assert forall|i: int| 0 <= i < self.context_stack@.len() implies (
        #[trigger] self.context_stack@[i]).wf() by {
            if i != pos {
                assert(before.context_stack@[i].wf());
            }
        }
        self.lemma_views_wf();
    }

    /// After a change of the exported scope at `pos` alone, the manager is well
    /// formed and is its old self with that scope replaced.
    proof fn lemma_exported_changed(&self, before: &ContextManager, pos: int)
        requires
            before.wf(),
            0 <= pos < before.exported_contexts@.len(),
            self.exported_contexts@.len() == before.exported_contexts@.len(),
            forall|i: int|
                0 <= i < self.exported_contexts@.len() && i != pos ==> self.exported_contexts@[i]
                    == before.exported_contexts@[i],
            self.exported_contexts@[pos].name == before.exported_contexts@[pos].name,
            self.exported_contexts@[pos].context.wf(),
            self.context_stack == before.context_stack,
        ensures
            self.wf(),
            self@ == before@.with_exported(
                before.exported_contexts@[pos].name@,
                self.exported_contexts@[pos].context@,
            ),
    {
        let names = exported_names(before.exported_contexts@);
        let vals = exported_views(before.exported_contexts@);
        lemma_own_pos(names, pos);
        assert(exported_names(self.exported_contexts@) =~= names);
        assert(exported_views(self.exported_contexts@) =~= vals.update(
            pos,
            self.exported_contexts@[pos].context@,
        ));
        lemma_assoc_update(names, vals, names[pos], self.exported_contexts@[pos].context@);
        assert forall|i: int| 0 <= i < self.exported_contexts@.len() implies (
        #[trigger] self.exported_contexts@[i]).context.wf() by {
            if i != pos {
                assert(before.exported_contexts@[i].context.wf());
            }
        }
        self.lemma_views_wf();
    }

    /// Binds function `name` to `body` in scope `pos` of the stack, unless the
    /// scope holds it as a readonly one.
    pub fn add_function_pos(&mut self, name: &str, func: Rc<FunctionBody>, pos: usize)
        requires
            old(self).wf(),
            pos < old(self)@.stack.len(),
        ensures
            final(self).wf(),
            final(self)@ == old(self)@.with_scope(
                pos as int,
                old(self)@.stack[pos as int].with_function(name@, *func),
            ),
    {
        assert(old(self).context_stack@[pos as int].wf());
        self.context_stack[pos].add_function(name, func);
        proof {
            self.lemma_scope_changed(old(self), pos as int);
        }
    }

    /// Writes `var` into scope `pos` of the stack.
    pub fn set_in_scope(&mut self, pos: usize, var: Var)
        requires
            old(self).wf(),
            pos < old(self)@.stack.len(),
        ensures
            final(self).wf(),
            final(self)@ == old(self)@.with_scope(
                pos as int,
                old(self)@.stack[pos as int].assigned(var@),
            ),
    {
        assert(old(self).context_stack@[pos as int].wf());
        self.context_stack[pos].set(var);
        proof {
            self.lemma_scope_changed(old(self), pos as int);
        }
    }

    /// Writes `var` into the exported scope at `pos`.
    fn set_in_exported(&mut self, pos: usize, var: Var)
        requires
            old(self).wf(),
            pos < old(self).exported_contexts@.len(),
        ensures
            final(self).wf(),
            final(self)@ == old(self)@.with_exported(
                old(self).exported_contexts@[pos as int].name@,
                old(self).exported_contexts@[pos as int].context@.assigned(var@),
            ),
    {
        assert(old(self).exported_contexts@[pos as int].context.wf());
        self.exported_contexts[pos].context.set(var);
        proof {
            self.lemma_exported_changed(old(self), pos as int);
        }
    }

    /// Carries out the assignment `NAME=VALUE`: it writes the topmost scope
    /// that holds the name, else the current scope, and leaves a readonly
    /// variable as it is.
    pub fn add_var(&mut self, set: &str)
        requires
            old(self).wf(),
        ensures
            final(self).wf(),
            final(self)@ == old(self)@.assigned(set@),
    {
        let (name, value) = split_assignment(set);
        let t = match self.find_var_owner(name.as_str()) {
            Some(i) => i,
            None => self.context_stack.len() - 1,
        };
        self.set_in_scope(t, Var { name, value, readonly: false });
    }

    /// Carries out the assignment and makes the variable readonly: see
    /// `ManagerView::assigned_readonly`.
    pub fn add_var_readonly(&mut self, set: &str)
        requires
            old(self).wf(),
        ensures
            final(self).wf(),
            final(self)@ == old(self)@.assigned_readonly(set@),
    {
        match split_qualified(set) {
            Some((ns, member)) => {
                match self.find_exported(&ns) {
                    Some(i) => {
                        let (name, value) = split_assignment(member.as_str());
                        self.set_in_exported(i, Var { name, value, readonly: true });
                    },
                    None => {},
                }
            },
            None => {
                let (name, value) = split_assignment(set);
                let t = match self.find_var_owner(name.as_str()) {
                    Some(i) => i,
                    None => self.context_stack.len() - 1,
                };
                self.set_in_scope(t, Var { name, value, readonly: true });
            },
        }
    }

    /// Carries out the assignment in scope `pos` of the stack. Tells whether
    /// the stack has such a scope; if not, nothing changes.
    pub fn add_var_pos(&mut self, set: &str, pos: usize) -> (ok: bool)
        requires
            old(self).wf(),
        ensures
            final(self).wf(),
            ok == (pos < old(self)@.stack.len()),
            final(self)@ == old(self)@.assigned_at(set@, pos as int),
    {
        if pos >= self.context_stack.len() {
            return false;
        }
        let (name, value) = split_assignment(set);
        self.set_in_scope(pos, Var { name, value, readonly: false });
        true
    }

    /// Makes the variable that `name` reaches readonly. Tells whether the name
    /// reaches a variable.
    pub fn set_var_readonly(&mut self, name: &str) -> (found: bool)
        requires
            old(self).wf(),
        ensures
            final(self).wf(),
            found == old(self)@.lookup_var(name@) is Some,
            final(self)@ == old(self)@.marked_readonly(name@),
    {
        proof {
            lemma_var_owner(self@.stack, name@, self@.stack.len() as int);
        }
        match split_qualified(name) {
            Some((ns, member)) => {
                match self.find_exported(&ns) {
                    Some(i) => {
                        assert(old(self).exported_contexts@[i as int].context.wf());
                        let found = self.exported_contexts[i].context.make_readonly_var(
                            member.as_str(),
                        );
                        proof {
                            self.lemma_exported_changed(old(self), i as int);
                        }
                        found
                    },
                    None => false,
                }
            },
            None => match self.find_var_owner(name) {
                Some(i) => {
                    assert(old(self).context_stack@[i as int].wf());
                    let found = self.context_stack[i].make_readonly_var(name);
                    proof {
                        self.lemma_scope_changed(old(self), i as int);
                    }
                    found
                },
                None => false,
            },
        }
    }

    /// Unsets the variable that `name` reaches, unless it is readonly.
    pub fn remove_var(&mut self, name: &str)
        requires
            old(self).wf(),
        ensures
            final(self).wf(),
            final(self)@ == old(self)@.without_var(name@),
    {
        match split_qualified(name) {
            Some((ns, member)) => {
                match self.find_exported(&ns) {
                    Some(i) => {
                        assert(old(self).exported_contexts@[i as int].context.wf());
                        self.exported_contexts[i].context.remove_var(member.as_str());
                        proof {
                            self.lemma_exported_changed(old(self), i as int);
                        }
                    },
                    None => {},
                }
            },
            None => match self.find_var_owner(name) {
                Some(i) => {
                    assert(old(self).context_stack@[i as int].wf());
                    self.context_stack[i].remove_var(name);
                    proof {
                        self.lemma_scope_changed(old(self), i as int);
                    }
                },
                None => {},
            },
        }
    }

    /// Binds function `name` to `body`: in the topmost scope that holds the
    /// name, else in the current scope. A readonly function stays as it is.
    pub fn add_function(&mut self, name: &str, func: Rc<FunctionBody>)
        requires
            old(self).wf(),
        ensures
            final(self).wf(),
            final(self)@ == old(self)@.with_function(name@, *func),
    {
        let t = match self.find_function_owner(name) {
            Some(i) => i,
            None => self.context_stack.len() - 1,
        };
        assert(old(self).context_stack@[t as int].wf());
        self.context_stack[t].add_function(name, func);
        proof {
            self.lemma_scope_changed(old(self), t as int);
        }
    }

    /// Removes the function that `name` reaches, unless it is readonly.
    pub fn remove_function(&mut self, name: &str)
        requires
            old(self).wf(),
        ensures
            final(self).wf(),
            final(self)@ == old(self)@.without_function(name@),
    {
        match split_qualified(name) {
            Some((ns, member)) => {
                match self.find_exported(&ns) {
                    Some(i) => {
                        assert(old(self).exported_contexts@[i as int].context.wf());
                        self.exported_contexts[i].context.remove_function(member.as_str());
                        proof {
                            self.lemma_exported_changed(old(self), i as int);
                        }
                    },
                    None => {},
                }
            },
            None => match self.find_function_owner(name) {
                Some(i) => {
                    assert(old(self).context_stack@[i as int].wf());
                    self.context_stack[i].remove_function(name);
                    proof {
                        self.lemma_scope_changed(old(self), i as int);
                    }
                },
                None => {},
            },
        }
    }

    /// Makes the function that `name` reaches readonly.
    pub fn set_function_readonly(&mut self, name: &str)
        requires
            old(self).wf(),
        ensures
            final(self).wf(),
            final(self)@ == old(self)@.function_readonly(name@),
    {
        match split_qualified(name) {
            Some((ns, member)) => {
                match self.find_exported(&ns) {
                    Some(i) => {
                        assert(old(self).exported_contexts@[i as int].context.wf());
                        self.exported_contexts[i].context.make_readonly_func(member.as_str());
                        proof {
                            self.lemma_exported_changed(old(self), i as int);
                        }
                    },
                    None => {},
                }
            },
            None => match self.find_function_owner(name) {
                Some(i) => {
                    assert(old(self).context_stack@[i as int].wf());
                    self.context_stack[i].make_readonly_func(name);
                    proof {
                        self.lemma_scope_changed(old(self), i as int);
                    }
                },
                None => {},
            },
        }
    }

    /// The paths where command `cmd` may be: see `ManagerView::command_paths`.
    pub fn command_candidates(&self, cmd: &str) -> (r: Vec<String>)
        requires
            self.wf(),
        ensures
            views(r@) == self@.command_paths(cmd@),
    {
        let mut out: Vec<String> = Vec::new();
        let path = match self.context_stack[0].get_var("PATH") {
            Some(v) => chars_of(v.value.as_str()),
            None => {
                assert(views(out@) =~= Seq::<Seq<char>>::empty());
                return out;
            },
        };
        let ghost all = pieces(path@, ':', 0);
        let ghost mut done: Seq<Seq<char>> = Seq::empty();
        let n = path.len();
        let mut from: usize = 0;
        loop
            invariant_except_break
                from <= n == path.len(),
                all == pieces(path@, ':', 0),
                done + pieces(path@, ':', from as int) == all,
                views(out@) == candidates(done, cmd@),
            ensures
                views(out@) == candidates(all, cmd@),
            decreases n - from,
        {
            let k = find_from(&path, ':', from);
            let mut item = string_of_range(&path, from, k);
            let ghost dir = item@;
            push_str(&mut item, "/");
            push_str(&mut item, cmd);
            let ghost before = views(out@);
            out.push(item);
            proof {
                assert(views(out@) =~= before.push(dir + "/"@ + cmd@));
                assert(candidates(done.push(dir), cmd@) =~= candidates(done, cmd@).push(
                    dir + "/"@ + cmd@,
                ));
            }
            if k >= n {
                proof {
                    assert(done + seq![dir] =~= done.push(dir));
                    assert(all == done.push(dir));
                }
                break ;
            }
            proof {
                assert(done + (seq![dir] + pieces(path@, ':', k as int + 1)) =~= done.push(dir)
                    + pieces(path@, ':', k as int + 1));
                done = done.push(dir);
            }
            from = k + 1;
        }
        out
    }

    /// The path of a command: the first of its candidates that is flagged as a
    /// regular file in `regular`, which holds one flag for each candidate, in
    /// order. A candidate without a flag counts as none.
    pub fn lookup_command(&self, cmd: &str, regular: &Vec<bool>) -> (r: Option<String>)
        requires
            self.wf(),
        ensures
            ({
                let c = self@.command_paths(cmd@);
                let k = first_flagged(regular@, c.len() as int, 0);
                &&& r is Some <==> k < c.len()
                &&& r matches Some(p) ==> p@ == c[k]
            }),
    {
        let c = self.command_candidates(cmd);
        assert(views(c@).len() == c.len());
        let mut k: usize = 0;
        while k < c.len() && k < regular.len()
            invariant
                k <= c.len(),
                views(c@).len() == c.len(),
                views(c@) == self@.command_paths(cmd@),
                first_flagged(regular@, c.len() as int, 0) == first_flagged(
                    regular@,
                    c.len() as int,
                    k as int,
                ),
            decreases c.len() - k,
        {
            if regular[k] {
                let p = c[k].clone();
                assert(p@ == views(c@)[k as int]);
                assert(first_flagged(regular@, c.len() as int, k as int) == k);
                return Some(p);
            }
            k += 1;
        }
        None
    }
}

/// In a list without repetition, a name is found at its own position.
pub proof fn lemma_own_pos(names: Seq<Seq<char>>, i: int)
    requires
        no_dups(names),
        0 <= i < names.len(),
    ensures
        name_pos(names, names[i], 0) == i,
{
    lemma_name_pos(names, names[i], 0);
    let p = name_pos(names, names[i], 0);
    if p < i {
        assert(names[p] != names[i]);
    }
}

/// The variables that a listing takes from `m`: all of them, or the readonly
/// ones only.
pub open spec fn only(m: Map<Seq<char>, VarView>, readonly: bool) -> Map<Seq<char>, VarView> {
    Map::new(
        |n: Seq<char>| m.contains_key(n) && (!readonly || m[n].readonly),
        |n: Seq<char>| m[n],
    )
}

/// What a listing holds after it took the scopes `scopes[..upto]` in order:
/// where two scopes hold a name, the later one gives the variable.
pub open spec fn merged(scopes: Seq<ScopeView>, readonly: bool, upto: int) -> Map<
    Seq<char>,
    VarView,
>
    decreases upto,
{
    if upto <= 0 {
        Map::empty()
    } else {
        merged(scopes, readonly, upto - 1).union_prefer_right(
            only(scopes[upto - 1].vars, readonly),
        )
    }
}

/// Tells whether one of the scopes `scopes[..upto]` holds `n` as the name of
/// a readonly function.
pub open spec fn readonly_among(scopes: Seq<ScopeView>, n: Seq<char>, upto: int) -> bool
    decreases upto,
{
    upto > 0 && (scopes[upto - 1].readonly_functions.contains(n) || readonly_among(
        scopes,
        n,
        upto - 1,
    ))
}

/// `readonly_among` finds what some scope holds.
pub proof fn lemma_readonly_among(scopes: Seq<ScopeView>, n: Seq<char>, upto: int)
    requires
        0 <= upto <= scopes.len(),
    ensures
        readonly_among(scopes, n, upto) <==> exists|i: int|
            0 <= i < upto && (#[trigger] scopes[i]).readonly_functions.contains(n),
    decreases upto,
{
    if upto > 0 {
        lemma_readonly_among(scopes, n, upto - 1);
        if readonly_among(scopes, n, upto) {
            if scopes[upto - 1].readonly_functions.contains(n) {
            } else {
                let i = choose|i: int|
                    0 <= i < upto - 1 && (#[trigger] scopes[i]).readonly_functions.contains(n);
                assert(0 <= i < upto && scopes[i].readonly_functions.contains(n));
            }
        }
    }
}

impl ManagerView {
    /// `order` names each exported scope once.
    pub open spec fn orders_exported(self, order: Seq<Seq<char>>) -> bool {
        &&& no_dups(order)
        &&& forall|ns: Seq<char>|
            self.exported.contains_key(ns) <==> name_pos(order, ns, 0) < order.len()
    }

    /// The scopes of the stack from the bottom up, then the exported scopes
    /// in the order in which `order` names them.
    pub open spec fn scopes_in(self, order: Seq<Seq<char>>) -> Seq<ScopeView> {
        self.stack + Seq::new(order.len(), |i: int| self.exported[order[i]])
    }

    /// Tells whether some scope, of the stack or exported, holds `n` as the
    /// name of a readonly function.
    pub open spec fn holds_readonly_function(self, n: Seq<char>) -> bool {
        ||| exists|i: int|
            0 <= i < self.stack.len() && (#[trigger] self.stack[i]).readonly_functions.contains(n)
        ||| exists|ns: Seq<char>| #[trigger]
            self.exported.contains_key(ns) && self.exported[ns].readonly_functions.contains(n)
    }
}

/// Writes a variable into a rising list of variables, at the place of its
/// name. `names` holds the names of `vars`.
fn place_var(names: &mut Vec<String>, vars: &mut Vec<Var>, v: Var)
    requires
        rising(views(old(names)@)),
        views(old(names)@) == var_names(old(vars)@),
    ensures
        rising(views(final(names)@)),
        views(final(names)@) == var_names(final(vars)@),
        assoc(var_names(final(vars)@), var_views(final(vars)@)) == assoc(
            var_names(old(vars)@),
            var_views(old(vars)@),
        ).insert(v@.name, v@),
{
    let (p, found) = slot(names, v.name.as_str());
    let ghost before_names = var_names(vars@);
    let ghost before_views = var_views(vars@);
    assert(names@.len() == vars@.len()) by {
        assert(views(names@).len() == var_names(vars@).len());
    }
    if found {
        proof {
            lemma_assoc_update(before_names, before_views, v@.name, v@);
        }
        vars.set(p, v);
        proof {
            assert(before_names[p as int] == v@.name);
            assert(var_names(vars@) =~= before_names);
            assert(var_views(vars@) =~= before_views.update(p as int, v@));
        }
    } else {
        proof {
            lemma_rising_insert(before_names, v@.name);
            lemma_rising_no_dups(before_names);
            lemma_rising_no_dups(before_names.insert(p as int, v@.name));
            lemma_assoc_insert(before_names, before_views, p as int, v@.name, v@);
        }
        names.insert(p, v.name.clone());
        vars.insert(p, v);
        proof {
            assert(views(names@) =~= before_names.insert(p as int, v@.name));
            assert(var_names(vars@) =~= before_names.insert(p as int, v@.name));
            assert(var_views(vars@) =~= before_views.insert(p as int, v@));
        }
    }
}

impl Context {
    /// Writes the variables of the scope, or its readonly ones only, into a
    /// rising list of variables. `names` holds the names of `vars`.
    fn list_into(&self, names: &mut Vec<String>, vars: &mut Vec<Var>, readonly: bool)
        requires
            self.wf(),
            rising(views(old(names)@)),
            views(old(names)@) == var_names(old(vars)@),
        ensures
            rising(views(final(names)@)),
            views(final(names)@) == var_names(final(vars)@),
            assoc(var_names(final(vars)@), var_views(final(vars)@)) == assoc(
                var_names(old(vars)@),
                var_views(old(vars)@),
            ).union_prefer_right(only(self@.vars, readonly)),
    {
        let ghost start = assoc(var_names(vars@), var_views(vars@));
        let n = self.vars.len();
        let mut j: usize = 0;
        assert(start.union_prefer_right(
            only(assoc(Seq::<Seq<char>>::empty(), Seq::<VarView>::empty()), readonly),
        ) =~= start);
        assert(var_names(self.vars@.take(0)) =~= Seq::<Seq<char>>::empty());
        assert(var_views(self.vars@.take(0)) =~= Seq::<VarView>::empty());
        while j < n
            invariant
                j <= n == self.vars@.len(),
                self.wf(),
                rising(views(names@)),
                views(names@) == var_names(vars@),
                assoc(var_names(vars@), var_views(vars@)) == start.union_prefer_right(
                    only(
                        assoc(
                            var_names(self.vars@.take(j as int)),
                            var_views(self.vars@.take(j as int)),
                        ),
                        readonly,
                    ),
                ),
            decreases n - j,
        {
            let v = &self.vars[j];
            let ghost pre = self.vars@.take(j as int);
            let ghost nxt = self.vars@.take(j + 1);
            let ghost part = assoc(var_names(pre), var_views(pre));
            let ghost listed = assoc(var_names(vars@), var_views(vars@));
            proof {
                assert(var_names(nxt) =~= var_names(pre).push(v@.name));
                assert(var_views(nxt) =~= var_views(pre).push(v@));
                lemma_name_pos(var_names(pre), v@.name, 0);
                let q = name_pos(var_names(pre), v@.name, 0);
                if q < j {
                    assert(var_names(self.vars@)[q] == var_names(self.vars@)[j as int]);
                }
                assert(no_dups(var_names(pre))) by {
                    assert forall|a: int, b: int| 0 <= a < b < j implies var_names(pre)[a]
                        != var_names(pre)[b] by {
                        assert(var_names(self.vars@)[a] != var_names(self.vars@)[b]);
                    }
                }
                lemma_assoc_push(var_names(pre), var_views(pre), v@.name, v@);
                lemma_assoc_absent(var_names(pre), var_views(pre), v@.name);
            }
            if !readonly || v.readonly {
                place_var(names, vars, v.duplicate());
                assert(assoc(var_names(vars@), var_views(vars@)) =~= start.union_prefer_right(
                    only(part.insert(v@.name, v@), readonly),
                ));
            } else {
                assert(listed =~= start.union_prefer_right(
                    only(part.insert(v@.name, v@), readonly),
                ));
            }
            j += 1;
        }
        assert(self.vars@.take(n as int) =~= self.vars@);
    }

    /// Writes the names of the readonly functions of the scope into a rising
    /// list of names.
    fn list_readonly_functions_into(&self, names: &mut Vec<String>)
        requires
            rising(views(old(names)@)),
        ensures
            rising(views(final(names)@)),
            forall|n: Seq<char>| #[trigger]
                views(final(names)@).contains(n) <==> (views(old(names)@).contains(n)
                    || self@.readonly_functions.contains(n)),
    {
        let k = self.readonly_functions.len();
        let mut j: usize = 0;
        while j < k
            invariant
                j <= k == self.readonly_functions@.len(),
                rising(views(names@)),
                forall|n: Seq<char>|
                    views(names@).contains(n) <==> (views(old(names)@).contains(n) || exists|
                        i: int,
                    |
                        0 <= i < j && #[trigger] views(self.readonly_functions@)[i] == n),
            decreases k - j,
        {
            let ghost before = views(names@);
            place_name(names, self.readonly_functions[j].as_str());
            proof {
                let held = views(self.readonly_functions@);
                assert forall|n: Seq<char>|
                    views(names@).contains(n) <==> (views(old(names)@).contains(n) || exists|
                        i: int,
                    |
                        0 <= i < j + 1 && #[trigger] held[i] == n) by {
                    if before.contains(n) && !views(old(names)@).contains(n) {
                        let i = choose|i: int| 0 <= i < j && #[trigger] held[i] == n;
                        assert(0 <= i < j + 1 && held[i] == n);
                    }
                    if n == held[j as int] {
                        assert(0 <= j < j + 1 && held[j as int] == n);
                    }
                    if exists|i: int| 0 <= i < j + 1 && #[trigger] held[i] == n {
                        let i = choose|i: int| 0 <= i < j + 1 && #[trigger] held[i] == n;
                        if i < j {
                            assert(before.contains(n));
                        }
                    }
                }
            }
            j += 1;
        }
        proof {
            let held = views(self.readonly_functions@);
            assert forall|n: Seq<char>|
                self@.readonly_functions.contains(n) <==> exists|i: int|
                    0 <= i < k && #[trigger] held[i] == n by {
                lemma_name_pos(held, n, 0);
                if self@.readonly_functions.contains(n) {
                    let q = name_pos(held, n, 0);
                    assert(0 <= q < k && held[q] == n);
                }
            }
        }
    }
}

impl ContextManager {
    /// The exported scopes in the order in which they are kept.
    proof fn lemma_kept_order(&self)
        requires
            self.inv(),
        ensures
            self@.orders_exported(exported_names(self.exported_contexts@)),
            self@.scopes_in(exported_names(self.exported_contexts@)) == scope_views(
                self.context_stack@,
            ) + exported_views(self.exported_contexts@),
    {
        let order = exported_names(self.exported_contexts@);
        let kept = exported_views(self.exported_contexts@);
        assert forall|i: int| 0 <= i < order.len() implies self@.exported[order[i]]
            == kept[i] by {
            lemma_own_pos(order, i);
        }
        assert(self@.scopes_in(order) =~= scope_views(self.context_stack@) + kept);
    }

    /// The variables of all scopes, or the readonly ones only, in the order
    /// of their names.
    fn listing(&self, readonly: bool) -> (r: Vec<Var>)
        requires
            self.wf(),
        ensures
            rising(var_names(r@)),
            exists|order: Seq<Seq<char>>| #[trigger]
                self@.orders_exported(order) && assoc(var_names(r@), var_views(r@)) == merged(
                    self@.scopes_in(order),
                    readonly,
                    self@.scopes_in(order).len() as int,
                ),
    {
        let mut names: Vec<String> = Vec::new();
        let mut vars: Vec<Var> = Vec::new();
        let ghost order = exported_names(self.exported_contexts@);
        let ghost scopes = self@.scopes_in(order);
        proof {
            self.lemma_kept_order();
            assert(assoc(var_names(vars@), var_views(vars@)) =~= merged(scopes, readonly, 0));
            assert(views(names@) =~= var_names(vars@));
        }
        let depth = self.context_stack.len();
        let mut i: usize = 0;
        while i < depth
            invariant
                i <= depth == self.context_stack@.len(),
                self.wf(),
                scopes == scope_views(self.context_stack@) + exported_views(
                    self.exported_contexts@,
                ),
                rising(views(names@)),
                views(names@) == var_names(vars@),
                assoc(var_names(vars@), var_views(vars@)) == merged(scopes, readonly, i as int),
            decreases depth - i,
        {
            assert(self.context_stack@[i as int].wf());
            assert(scopes[i as int] == self.context_stack@[i as int]@);
            self.context_stack[i].list_into(&mut names, &mut vars, readonly);
            i += 1;
        }
        let width = self.exported_contexts.len();
        let mut j: usize = 0;
        while j < width
            invariant
                j <= width == self.exported_contexts@.len(),
                depth == self.context_stack@.len(),
                self.wf(),
                scopes == scope_views(self.context_stack@) + exported_views(
                    self.exported_contexts@,
                ),
                rising(views(names@)),
                views(names@) == var_names(vars@),
                assoc(var_names(vars@), var_views(vars@)) == merged(
                    scopes,
                    readonly,
                    depth + j,
                ),
            decreases width - j,
        {
            assert(self.exported_contexts@[j as int].context.wf());
            assert(scopes[depth + j] == self.exported_contexts@[j as int].context@);
            self.exported_contexts[j].context.list_into(&mut names, &mut vars, readonly);
            j += 1;
        }
        assert(scopes.len() == depth + width);
        vars
    }

    /// The variables of all scopes in the order of their names. Where two
    /// scopes hold a name, the upper scope of the stack gives the variable;
    /// an exported scope comes after the stack.
    pub fn all_vars(&self) -> (r: Vec<Var>)
        requires
            self.wf(),
        ensures
            rising(var_names(r@)),
            exists|order: Seq<Seq<char>>| #[trigger]
                self@.orders_exported(order) && assoc(var_names(r@), var_views(r@)) == merged(
                    self@.scopes_in(order),
                    false,
                    self@.scopes_in(order).len() as int,
                ),
    {
        self.listing(false)
    }

    /// The readonly variables of all scopes in the order of their names.
    /// Where two scopes hold a name as readonly, the upper scope of the
    /// stack gives the variable; an exported scope comes after the stack.
    pub fn all_readonly_vars(&self) -> (r: Vec<Var>)
        requires
            self.wf(),
        ensures
            rising(var_names(r@)),
            exists|order: Seq<Seq<char>>| #[trigger]
                self@.orders_exported(order) && assoc(var_names(r@), var_views(r@)) == merged(
                    self@.scopes_in(order),
                    true,
                    self@.scopes_in(order).len() as int,
                ),
    {
        self.listing(true)
    }

    /// The readonly variables of the scope exported as `context`, in the
    /// order of their names; none where no scope is exported under that name.
    pub fn all_readonly_vars_context(&self, context: &str) -> (r: Vec<Var>)
        requires
            self.wf(),
        ensures
            rising(var_names(r@)),
            assoc(var_names(r@), var_views(r@)) == (if self@.exported.contains_key(context@) {
                only(self@.exported[context@].vars, true)
            } else {
                Map::empty()
            }),
    {
        let mut names: Vec<String> = Vec::new();
        let mut vars: Vec<Var> = Vec::new();
        assert(views(names@) =~= var_names(vars@));
        assert(assoc(var_names(vars@), var_views(vars@)) =~= Map::<Seq<char>, VarView>::empty());
        match self.get_context_by_name(context) {
            Some(c) => {
                c.list_into(&mut names, &mut vars, true);
                assert(assoc(var_names(vars@), var_views(vars@)) =~= only(c@.vars, true));
            },
            None => {},
        }
        vars
    }

    /// The names of the readonly functions of all scopes, each once, in the
    /// order of a dictionary.
    pub fn all_readonly_functions(&self) -> (r: Vec<String>)
        requires
            self.wf(),
        ensures
            rising(views(r@)),
            forall|n: Seq<char>| views(r@).contains(n) <==> self@.holds_readonly_function(n),
    {
        let mut names: Vec<String> = Vec::new();
        let ghost order = exported_names(self.exported_contexts@);
        let ghost scopes = self@.scopes_in(order);
        proof {
            self.lemma_kept_order();
        }
        let depth = self.context_stack.len();
        let mut i: usize = 0;
        while i < depth
            invariant
                i <= depth == self.context_stack@.len(),
                scopes == scope_views(self.context_stack@) + exported_views(
                    self.exported_contexts@,
                ),
                rising(views(names@)),
                forall|n: Seq<char>|
                    views(names@).contains(n) <==> readonly_among(scopes, n, i as int),
            decreases depth - i,
        {
            assert(scopes[i as int] == self.context_stack@[i as int]@);
            let ghost before = views(names@);
            self.context_stack[i].list_readonly_functions_into(&mut names);
            assert forall|n: Seq<char>|
                views(names@).contains(n) <==> readonly_among(scopes, n, i + 1) by {
                assert(before.contains(n) <==> readonly_among(scopes, n, i as int));
            }
            i += 1;
        }
        let width = self.exported_contexts.len();
        let mut j: usize = 0;
        while j < width
            invariant
                j <= width == self.exported_contexts@.len(),
                depth == self.context_stack@.len(),
                scopes == scope_views(self.context_stack@) + exported_views(
                    self.exported_contexts@,
                ),
                rising(views(names@)),
                forall|n: Seq<char>|
                    views(names@).contains(n) <==> readonly_among(scopes, n, depth + j),
            decreases width - j,
        {
            assert(scopes[depth + j] == self.exported_contexts@[j as int].context@);
            let ghost before = views(names@);
            self.exported_contexts[j].context.list_readonly_functions_into(&mut names);
            assert forall|n: Seq<char>|
                views(names@).contains(n) <==> readonly_among(scopes, n, depth + j + 1) by {
                assert(before.contains(n) <==> readonly_among(scopes, n, depth + j));
            }
            j += 1;
        }
        proof {
            let kept = exported_views(self.exported_contexts@);
            assert forall|n: Seq<char>|
                views(names@).contains(n) <==> self@.holds_readonly_function(n) by {
                lemma_readonly_among(scopes, n, depth + width);
                if readonly_among(scopes, n, depth + width) {
                    let i = choose|i: int|
                        0 <= i < depth + width && (#[trigger] scopes[i]).readonly_functions.contains(
                            n,
                        );
                    if i < depth {
                        assert(self@.stack[i] == scopes[i]);
                    } else {
                        lemma_own_pos(order, i - depth);
                        assert(self@.exported.contains_key(order[i - depth]));
                        assert(self@.exported[order[i - depth]] == scopes[i]);
                    }
                }
                if self@.holds_readonly_function(n) {
                    if exists|i: int|
                        0 <= i < self@.stack.len() && (
                        #[trigger] self@.stack[i]).readonly_functions.contains(n) {
                        let i = choose|i: int|
                            0 <= i < self@.stack.len() && (
                            #[trigger] self@.stack[i]).readonly_functions.contains(n);
                        assert(scopes[i] == self@.stack[i]);
                    } else {
                        let ns = choose|ns: Seq<char>| #[trigger]
                            self@.exported.contains_key(ns)
                                && self@.exported[ns].readonly_functions.contains(n);
                        lemma_name_pos(order, ns, 0);
                        let q = name_pos(order, ns, 0);
                        assert(scopes[depth + q] == kept[q]);
                        assert(scopes[depth + q].readonly_functions.contains(n));
                    }
                }
            }
        }
        names
    }
}

} // verus!

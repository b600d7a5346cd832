//! The expansion of a simple command: alias substitution, the rewriting of
//! double-quoted words, command substitution, parameter expansion, field
//! splitting and the stripping of quotes, in this order.
//!
//! The expansion itself runs no command. It names the scripts whose output
//! it needs, and takes their outputs as an argument.

use crate::ast::{suffix_words, IoRedirect, Prefix, SimpleCommand, Suffix};
use crate::context::{ContextManager, ManagerView};
use crate::text::{
    assignment_name, assignment_value, chars_of, fields, find_char, has_char, split_fields,
    string_of, string_of_range, views,
};
use vstd::prelude::*;

verus! {

/// A word in single quotes: it starts and ends with `'`.
pub open spec fn is_single(w: Seq<char>) -> bool {
    w.len() >= 2 && w[0] == '\'' && w.last() == '\''
}

/// A word in double quotes: it starts and ends with `"`.
pub open spec fn is_double(w: Seq<char>) -> bool {
    w.len() >= 2 && w[0] == '"' && w.last() == '"'
}

/// The text of a word without its outer pair of quotes, if it has one.
pub open spec fn body(w: Seq<char>) -> Seq<char> {
    if is_single(w) || is_double(w) {
        w.subrange(1, w.len() - 1)
    } else {
        w
    }
}

/// A text that names a parameter: it begins with `$`, and no `(` follows.
pub open spec fn is_param(t: Seq<char>) -> bool {
    t.len() > 0 && t[0] == '$' && !(t.len() > 1 && t[1] == '(')
}

/// The value of the parameter that `t` names: the value of the variable that
/// the name reaches, or nothing if it reaches none.
pub open spec fn param_value(m: ManagerView, t: Seq<char>) -> Seq<char> {
    match m.lookup_var(t.subrange(1, t.len() as int)) {
        Some(v) => v.value,
        None => Seq::empty(),
    }
}

/// `s` without the line feeds at its end.
pub open spec fn trim_newlines(s: Seq<char>) -> Seq<char>
    decreases s.len(),
{
    if s.len() > 0 && s.last() == '\n' {
        trim_newlines(s.drop_last())
    } else {
        s
    }
}

/// Where the scan of a text for command substitutions is.
#[derive(Clone, Copy, Debug, PartialEq, Eq, Structural)]
pub enum Scan {
    /// In plain text.
    Text,
    /// Inside `$(`, before the `)`.
    Paren,
    /// Inside a pair of backticks.
    Tick,
}

/// The output that stands in for substitution number `k`: the output of its
/// script without the line feeds at its end; nothing where no output is given.
pub open spec fn output(outs: Seq<Seq<char>>, k: int) -> Seq<char> {
    if 0 <= k < outs.len() {
        trim_newlines(outs[k])
    } else {
        Seq::empty()
    }
}

/// The text `t[i..]` with every command substitution replaced by an output,
/// the first one by output number `k`, where the scan is in state `scan`. A
/// substitution is `$(` up to the next `)`, or a backtick up to the next
/// backtick; one that is not closed runs to the end of the text.
pub open spec fn substituted(t: Seq<char>, i: int, scan: Scan, outs: Seq<Seq<char>>, k: int) -> Seq<
    char,
>
    decreases t.len() - i,
{
    if i >= t.len() {
        match scan {
            Scan::Text => Seq::empty(),
            _ => output(outs, k),
        }
    } else {
        match scan {
            Scan::Text => if t[i] == '$' && i + 1 < t.len() && t[i + 1] == '(' {
                substituted(t, i + 2, Scan::Paren, outs, k)
            } else if t[i] == '`' {
                substituted(t, i + 1, Scan::Tick, outs, k)
            } else {
                seq![t[i]] + substituted(t, i + 1, Scan::Text, outs, k)
            },
            Scan::Paren => if t[i] == ')' {
                output(outs, k) + substituted(t, i + 1, Scan::Text, outs, k + 1)
            } else {
                substituted(t, i + 1, Scan::Paren, outs, k)
            },
            Scan::Tick => if t[i] == '`' {
                output(outs, k) + substituted(t, i + 1, Scan::Text, outs, k + 1)
            } else {
                substituted(t, i + 1, Scan::Tick, outs, k)
            },
        }
    }
}

/// The scripts of the command substitutions of `t[i..]`, in order, where the
/// scan is in state `scan` and the script being read started at `start`.
pub open spec fn scripts(t: Seq<char>, i: int, scan: Scan, start: int) -> Seq<Seq<char>>
    decreases t.len() - i,
{
    if i >= t.len() {
        match scan {
            Scan::Text => Seq::empty(),
            _ => seq![t.subrange(start, t.len() as int)],
        }
    } else {
        match scan {
            Scan::Text => if t[i] == '$' && i + 1 < t.len() && t[i + 1] == '(' {
                scripts(t, i + 2, Scan::Paren, i + 2)
            } else if t[i] == '`' {
                scripts(t, i + 1, Scan::Tick, i + 1)
            } else {
                scripts(t, i + 1, Scan::Text, start)
            },
            Scan::Paren => if t[i] == ')' {
                seq![t.subrange(start, i)] + scripts(t, i + 1, Scan::Text, start)
            } else {
                scripts(t, i + 1, Scan::Paren, start)
            },
            Scan::Tick => if t[i] == '`' {
                seq![t.subrange(start, i)] + scripts(t, i + 1, Scan::Text, start)
            } else {
                scripts(t, i + 1, Scan::Tick, start)
            },
        }
    }
}

/// The scripts whose output the expansion of word `w` needs. A word in single
/// quotes needs none, and neither does a word that names a parameter.
pub open spec fn word_scripts(w: Seq<char>) -> Seq<Seq<char>> {
    if is_single(w) || is_param(body(w)) {
        Seq::empty()
    } else {
        scripts(body(w), 0, Scan::Text, 0)
    }
}

/// The text that word `w` expands to, before it is split into fields. A word
/// in single quotes gives its body as it is. Of any other word the body is
/// taken: if it names a parameter, it gives the value of the parameter; else
/// its command substitutions are replaced by the outputs from number `k` on.
pub open spec fn word_text(m: ManagerView, w: Seq<char>, outs: Seq<Seq<char>>, k: int) -> Seq<char> {
    if is_single(w) {
        body(w)
    } else if is_param(body(w)) {
        param_value(m, body(w))
    } else {
        substituted(body(w), 0, Scan::Text, outs, k)
    }
}

/// The fields that word `w` expands to. A word in quotes gives one field,
/// white space and all; any other word is split at white space, and may give
/// no field at all.
pub open spec fn word_fields(m: ManagerView, w: Seq<char>, outs: Seq<Seq<char>>, k: int) -> Seq<
    Seq<char>,
> {
    if is_single(w) || is_double(w) {
        seq![word_text(m, w, outs, k)]
    } else {
        fields(word_text(m, w, outs, k))
    }
}

/// The scripts that the expansion of the words `ws[from..]` needs, in order.
pub open spec fn words_scripts(ws: Seq<Seq<char>>, from: int) -> Seq<Seq<char>>
    decreases ws.len() - from,
{
    if from >= ws.len() {
        Seq::empty()
    } else {
        word_scripts(ws[from]) + words_scripts(ws, from + 1)
    }
}

/// The fields that the words `ws[from..]` expand to, in order, with the
/// outputs from number `k` on.
pub open spec fn words_fields(
    m: ManagerView,
    ws: Seq<Seq<char>>,
    outs: Seq<Seq<char>>,
    k: int,
    from: int,
) -> Seq<Seq<char>>
    decreases ws.len() - from,
{
    if from >= ws.len() {
        Seq::empty()
    } else {
        word_fields(m, ws[from], outs, k) + words_fields(
            m,
            ws,
            outs,
            k + word_scripts(ws[from]).len(),
            from + 1,
        )
    }
}

/// The scripts that the expansion of an assignment needs: those of its right
/// hand side.
pub open spec fn assignment_scripts(a: Seq<char>) -> Seq<Seq<char>> {
    if has_char(a, '=') {
        word_scripts(assignment_value(a))
    } else {
        Seq::empty()
    }
}

/// An assignment with its right hand side expanded; the name and the `=` stay.
/// The right hand side is not split into fields.
pub open spec fn assignment_text(m: ManagerView, a: Seq<char>, outs: Seq<Seq<char>>, k: int) -> Seq<
    char,
> {
    if has_char(a, '=') {
        assignment_name(a) + "="@ + word_text(m, assignment_value(a), outs, k)
    } else {
        a
    }
}

/// The scripts that the expansion of the assignments `asg[from..]` needs.
pub open spec fn assignments_scripts(asg: Seq<Seq<char>>, from: int) -> Seq<Seq<char>>
    decreases asg.len() - from,
{
    if from >= asg.len() {
        Seq::empty()
    } else {
        assignment_scripts(asg[from]) + assignments_scripts(asg, from + 1)
    }
}

/// The assignments `asg[from..]`, expanded, with the outputs from number `k`
/// on.
pub open spec fn assignments_texts(
    m: ManagerView,
    asg: Seq<Seq<char>>,
    outs: Seq<Seq<char>>,
    k: int,
    from: int,
) -> Seq<Seq<char>>
    decreases asg.len() - from,
{
    if from >= asg.len() {
        Seq::empty()
    } else {
        seq![assignment_text(m, asg[from], outs, k)] + assignments_texts(
            m,
            asg,
            outs,
            k + assignment_scripts(asg[from]).len(),
            from + 1,
        )
    }
}

/// The words of a command after alias resolution: where the name has an
/// alias that holds at least one token, the tokens of the alias, then the
/// words after the name; else the name and the words after it. The tokens of
/// an alias are not looked up again.
pub open spec fn aliased(alias: Option<Seq<char>>, name: Seq<char>, rest: Seq<Seq<char>>) -> Seq<
    Seq<char>,
> {
    if alias is Some && fields(alias->0).len() > 0 {
        fields(alias->0) + rest
    } else {
        seq![name] + rest
    }
}

/// The assignments before the name of a command.
pub open spec fn prefix_assignments(c: SimpleCommand) -> Seq<Seq<char>> {
    match c.prefix {
        Some(p) => views(p.assignment@),
        None => Seq::empty(),
    }
}

/// The scripts whose output the expansion of a command needs, in the order
/// in which their outputs are used: those of the assignments, then those of
/// the words.
pub open spec fn command_scripts(c: SimpleCommand, alias: Option<Seq<char>>) -> Seq<Seq<char>> {
    assignments_scripts(prefix_assignments(c), 0) + words_scripts(
        aliased(alias, c.name@, suffix_words(c)),
        0,
    )
}

/// The assignments of a command after expansion.
pub open spec fn expanded_assignments(
    m: ManagerView,
    c: SimpleCommand,
    outs: Seq<Seq<char>>,
) -> Seq<Seq<char>> {
    assignments_texts(m, prefix_assignments(c), outs, 0, 0)
}

/// The argument vector of a command after expansion: the fields of its
/// words after alias resolution.
pub open spec fn expanded_argv(
    m: ManagerView,
    c: SimpleCommand,
    alias: Option<Seq<char>>,
    outs: Seq<Seq<char>>,
) -> Seq<Seq<char>> {
    words_fields(
        m,
        aliased(alias, c.name@, suffix_words(c)),
        outs,
        assignments_scripts(prefix_assignments(c), 0).len() as int,
        0,
    )
}

/// What the expansion of a simple command gives: the assignments with their
/// right hand sides expanded, and the argument vector. The redirections of
/// the command are not touched.
#[derive(Debug)]
pub struct Expansion {
    pub assignments: Vec<String>,
    pub argv: Vec<String>,
}

/// Tells the kind of quotes of a word: `'`, `"`, or a blank for none.
fn quote_of(w: &Vec<char>) -> (q: char)
    ensures
        q == '\'' <==> is_single(w@),
        q == '"' <==> is_double(w@),
        q == '\'' || q == '"' || q == ' ',
{
    let n = w.len();
    if n >= 2 && w[0] == '\'' && w[n - 1] == '\'' {
        '\''
    } else if n >= 2 && w[0] == '"' && w[n - 1] == '"' {
        '"'
    } else {
        ' '
    }
}

/// The body of a word: the word without its outer pair of quotes.
fn body_of_word(w: &Vec<char>) -> (b: Vec<char>)
    ensures
        b@ == body(w@),
{
    let q = quote_of(w);
    let n = w.len();
    let (from, to) = if q == ' ' {
        (0, n)
    } else {
        (1, n - 1)
    };
    let mut b: Vec<char> = Vec::new();
    let mut i: usize = from;
    while i < to
        invariant
            from <= i <= to <= n == w.len(),
            b@ == w@.subrange(from as int, i as int),
        decreases to - i,
    {
        b.push(w[i]);
        i += 1;
    }
    proof {
        if q == ' ' {
            assert(w@.subrange(0, n as int) == w@);
        }
    }
    b
}

/// Appends `s` without the line feeds at its end to `out`.
fn push_trimmed(out: &mut Vec<char>, s: &str)
    ensures
        final(out)@ == old(out)@ + trim_newlines(s@),
{
    let v = chars_of(s);
    let mut end: usize = v.len();
    assert(v@.subrange(0, v.len() as int) == v@);
    while end > 0 && v[end - 1] == '\n'
        invariant
            end <= v.len(),
            trim_newlines(v@) == trim_newlines(v@.subrange(0, end as int)),
        decreases end,
    {
        proof {
            let cur = v@.subrange(0, end as int);
            assert(cur.drop_last() == v@.subrange(0, end as int - 1));
        }
        end -= 1;
    }
    proof {
        assert(v@.subrange(0, v.len() as int) == v@);
    }
    let ghost kept = v@.subrange(0, end as int);
    assert(trim_newlines(kept) == kept);
    let mut i: usize = 0;
    while i < end
        invariant
            i <= end <= v.len(),
            out@ == old(out)@ + v@.subrange(0, i as int),
        decreases end - i,
    {
        out.push(v[i]);
        assert(v@.subrange(0, i as int + 1) == v@.subrange(0, i as int).push(v@[i as int]));
        i += 1;
    }
}

/// The machine number `kk` stands for the number `k` of an output among `n`
/// outputs: it is `k`, or both lie beyond the outputs.
pub open spec fn stands_for(kk: usize, k: int, n: nat) -> bool {
    kk == k || (kk >= n && k >= n)
}

/// The sum of two machine numbers, or the largest one if the sum is larger.
fn capped_sum(a: usize, b: usize) -> (r: usize)
    ensures
        r == (if a + b <= usize::MAX {
            a + b
        } else {
            usize::MAX as int
        }),
{
    if b <= usize::MAX - a {
        a + b
    } else {
        usize::MAX
    }
}

/// Replaces the command substitutions of `t` by the outputs from number `k`
/// on, and counts them.
fn substitute(t: &Vec<char>, outs: &Vec<String>, kk: usize, Ghost(k): Ghost<int>) -> (r: (
    Vec<char>,
    usize,
))
    requires
        stands_for(kk, k, outs@.len()),
    ensures
        r.0@ == substituted(t@, 0, Scan::Text, views(outs@), k),
        r.1 == scripts(t@, 0, Scan::Text, 0).len(),
{
    let n = t.len();
    let total = outs.len();
    let mut out: Vec<char> = Vec::new();
    let mut scan = Scan::Text;
    let mut used: usize = 0;
    let ghost mut start: int = 0;
    let mut i: usize = 0;
    while i < n
        invariant
            i <= n == t.len(),
            used <= i,
            matches!(scan, Scan::Text) || used < i,
            total == outs@.len(),
            stands_for(kk, k, outs@.len()),
            out@ + substituted(t@, i as int, scan, views(outs@), k + used) == substituted(
                t@,
                0,
                Scan::Text,
                views(outs@),
                k,
            ),
            used + scripts(t@, i as int, scan, start).len() == scripts(t@, 0, Scan::Text, 0).len(),
        decreases n - i,
    {
        let c = t[i];
        match scan {
            Scan::Text => {
                if c == '$' && i + 1 < n && t[i + 1] == '(' {
                    scan = Scan::Paren;
                    proof {
                        start = i + 2;
                    }
                    i += 2;
                } else if c == '`' {
                    scan = Scan::Tick;
                    proof {
                        start = i + 1;
                    }
                    i += 1;
                } else {
                    let ghost before = out@;
                    out.push(c);
                    proof {
                        let rest = substituted(t@, i as int + 1, Scan::Text, views(outs@), k + used);
                        assert(before.push(c) + rest =~= before + (seq![c] + rest));
                    }
                    i += 1;
                }
            },
            _ => {
                let closes = match scan {
                    Scan::Paren => c == ')',
                    _ => c == '`',
                };
                if closes {
                    let ghost before = out@;
                    push_output(&mut out, outs, capped_sum(kk, used), Ghost(k + used));
                    proof {
                        let rest = substituted(
                            t@,
                            i as int + 1,
                            Scan::Text,
                            views(outs@),
                            k + used + 1,
                        );
                        let o = output(views(outs@), k + used);
                        assert((before + o) + rest =~= before + (o + rest));
                    }
                    used += 1;
                    scan = Scan::Text;
                }
                i += 1;
            },
        }
    }
    match scan {
        Scan::Text => {
            assert(out@ + Seq::<char>::empty() =~= out@);
        },
        _ => {
            push_output(&mut out, outs, capped_sum(kk, used), Ghost(k + used));
            used += 1;
        },
    }
    (out, used)
}

/// Appends the output that stands in for substitution number `k` to `out`.
fn push_output(out: &mut Vec<char>, outs: &Vec<String>, kk: usize, Ghost(k): Ghost<int>)
    requires
        stands_for(kk, k, outs@.len()),
    ensures
        final(out)@ == old(out)@ + output(views(outs@), k),
{
    if kk < outs.len() {
        push_trimmed(out, outs[kk].as_str());
    } else {
        assert(out@ + Seq::<char>::empty() =~= out@);
    }
}

/// Appends the scripts of the command substitutions of `t` to `out`.
fn push_scripts(out: &mut Vec<String>, t: &Vec<char>)
    ensures
        views(final(out)@) == views(old(out)@) + scripts(t@, 0, Scan::Text, 0),
{
    let n = t.len();
    let mut scan = Scan::Text;
    let mut start: usize = 0;
    let mut i: usize = 0;
    assert(views(out@) + Seq::<Seq<char>>::empty() =~= views(out@));
    let ghost mut done: Seq<Seq<char>> = Seq::empty();
    while i < n
        invariant
            start <= i <= n == t.len(),
            views(out@) == views(old(out)@) + done,
            done + scripts(t@, i as int, scan, start as int) == scripts(t@, 0, Scan::Text, 0),
        decreases n - i,
    {
        let c = t[i];
        match scan {
            Scan::Text => {
                if c == '$' && i + 1 < n && t[i + 1] == '(' {
                    scan = Scan::Paren;
                    start = i + 2;
                    i += 2;
                } else if c == '`' {
                    scan = Scan::Tick;
                    start = i + 1;
                    i += 1;
                } else {
                    i += 1;
                }
            },
            _ => {
                let closes = match scan {
                    Scan::Paren => c == ')',
                    _ => c == '`',
                };
                if closes {
                    let ghost before = views(out@);
                    let piece = string_of_range(t, start, i);
                    out.push(piece);
                    proof {
                        let script = t@.subrange(start as int, i as int);
                        let rest = scripts(t@, i as int + 1, Scan::Text, start as int);
                        assert(views(out@) =~= before.push(script));
                        assert(before.push(script) =~= views(old(out)@) + done.push(script));
                        assert(done.push(script) + rest =~= done + (seq![script] + rest));
                        done = done.push(script);
                    }
                    scan = Scan::Text;
                }
                i += 1;
            },
        }
    }
    match scan {
        Scan::Text => {
            assert(done + Seq::<Seq<char>>::empty() =~= done);
        },
        _ => {
            let ghost before = views(out@);
            let piece = string_of_range(t, start, n);
            out.push(piece);
            proof {
                let script = t@.subrange(start as int, n as int);
                assert(views(out@) =~= before.push(script));
                assert(before.push(script) =~= views(old(out)@) + (done + seq![script]));
            }
        },
    }
}

/// Tells whether the text names a parameter.
fn names_param(t: &Vec<char>) -> (r: bool)
    ensures
        r == is_param(t@),
{
    t.len() > 0 && t[0] == '$' && !(t.len() > 1 && t[1] == '(')
}

/// Appends the scripts that the expansion of word `w` needs to `out`.
fn push_word_scripts(out: &mut Vec<String>, w: &Vec<char>)
    ensures
        views(final(out)@) == views(old(out)@) + word_scripts(w@),
{
    let q = quote_of(w);
    let b = body_of_word(w);
    if q == '\'' || names_param(&b) {
        assert(views(out@) + Seq::<Seq<char>>::empty() =~= views(out@));
    } else {
        push_scripts(out, &b);
    }
}

/// The text that word `w` expands to, and the number of outputs it used.
fn expand_text(
    ctx: &ContextManager,
    w: &Vec<char>,
    outs: &Vec<String>,
    kk: usize,
    Ghost(k): Ghost<int>,
) -> (r: (Vec<char>, usize))
    requires
        ctx.wf(),
        stands_for(kk, k, outs@.len()),
    ensures
        r.0@ == word_text(ctx@, w@, views(outs@), k),
        r.1 == word_scripts(w@).len(),
{
    let q = quote_of(w);
    let b = body_of_word(w);
    if q == '\'' {
        (b, 0)
    } else if names_param(&b) {
        let name = string_of_range(&b, 1, b.len());
        match ctx.value_of(name.as_str()) {
            Some(v) => (chars_of(v.as_str()), 0),
            None => (Vec::new(), 0),
        }
    } else {
        substitute(&b, outs, kk, Ghost(k))
    }
}

/// The contents of a sequence of character vectors.
pub open spec fn texts(v: Seq<Vec<char>>) -> Seq<Seq<char>> {
    Seq::new(v.len(), |i: int| v[i]@)
}

/// The words of a command after alias resolution.
fn alias_words(cmd: &SimpleCommand, alias: Option<&str>) -> (r: Vec<Vec<char>>)
    ensures
        texts(r@) == aliased(
            match alias {
                Some(a) => Some(a@),
                None => None,
            },
            cmd.name@,
            suffix_words(*cmd),
        ),
{
    let mut out: Vec<Vec<char>> = Vec::new();
    let tokens = match alias {
        Some(a) => split_fields(&chars_of(a)),
        None => Vec::new(),
    };
    if tokens.len() > 0 {
        let mut i: usize = 0;
        while i < tokens.len()
            invariant
                i <= tokens.len(),
                texts(out@) == views(tokens@).subrange(0, i as int),
            decreases tokens.len() - i,
        {
            let ghost before = texts(out@);
            out.push(chars_of(tokens[i].as_str()));
            assert(texts(out@) =~= before.push(tokens@[i as int]@));
            assert(views(tokens@).subrange(0, i as int + 1) =~= views(tokens@).subrange(
                0,
                i as int,
            ).push(tokens@[i as int]@));
            i += 1;
        }
        assert(views(tokens@).subrange(0, tokens.len() as int) =~= views(tokens@));
    } else {
        out.push(chars_of(cmd.name.as_str()));
        assert(texts(out@) =~= seq![cmd.name@]);
    }
    let ghost head = texts(out@);
    match &cmd.suffix {
        Some(s) => {
            let mut i: usize = 0;
            while i < s.word.len()
                invariant
                    i <= s.word.len(),
                    texts(out@) == head + views(s.word@).subrange(0, i as int),
                decreases s.word.len() - i,
            {
                let ghost before = texts(out@);
                out.push(chars_of(s.word[i].as_str()));
                assert(texts(out@) =~= before.push(s.word@[i as int]@));
                assert(views(s.word@).subrange(0, i as int + 1) =~= views(s.word@).subrange(
                    0,
                    i as int,
                ).push(s.word@[i as int]@));
                i += 1;
            }
            assert(views(s.word@).subrange(0, s.word.len() as int) =~= views(s.word@));
        },
        None => {
            assert(head + Seq::<Seq<char>>::empty() =~= head);
        },
    }
    proof {
        if tokens.len() > 0 {
            assert(views(tokens@).len() > 0);
        } else if alias is Some {
            assert(views(tokens@).len() == 0);
        }
    }
    out
}

/// The scripts whose output the expansion of `cmd` needs, in the order in
/// which the outputs are to be given: see `command_scripts`. `alias` is the
/// alias of the name of the command, if it has one.
pub fn substitutions(cmd: &SimpleCommand, alias: Option<&str>) -> (r: Vec<String>)
    ensures
        views(r@) == command_scripts(
            *cmd,
            match alias {
                Some(a) => Some(a@),
                None => None,
            },
        ),
{
    let mut out: Vec<String> = Vec::new();
    assert(views(out@) =~= Seq::<Seq<char>>::empty());
    match &cmd.prefix {
        Some(p) => {
            let ghost asg = views(p.assignment@);
            let ghost mut done: Seq<Seq<char>> = Seq::empty();
            let mut i: usize = 0;
            while i < p.assignment.len()
                invariant
                    i <= p.assignment.len(),
                    asg == views(p.assignment@),
                    views(out@) == done,
                    done + assignments_scripts(asg, i as int) == assignments_scripts(asg, 0),
                decreases p.assignment.len() - i,
            {
                let a = chars_of(p.assignment[i].as_str());
                let ghost piece = assignment_scripts(a@);
                let ghost rest = assignments_scripts(asg, i as int + 1);
                let e = find_char(&a, '=');
                if e < a.len() {
                    let mut value: Vec<char> = Vec::new();
                    let mut j: usize = e + 1;
                    while j < a.len()
                        invariant
                            e < j <= a.len(),
                            value@ == a@.subrange(e as int + 1, j as int),
                        decreases a.len() - j,
                    {
                        value.push(a[j]);
                        j += 1;
                    }
                    push_word_scripts(&mut out, &value);
                } else {
                    assert(views(out@) + Seq::<Seq<char>>::empty() =~= views(out@));
                }
                proof {
                    assert(asg[i as int] == a@);
                    assert((done + piece) + rest =~= done + (piece + rest));
                    done = done + piece;
                }
                i += 1;
            }
            assert(done + Seq::<Seq<char>>::empty() =~= done);
        },
        None => {},
    }
    let ws = alias_words(cmd, alias);
    let ghost head = views(out@);
    let ghost words = texts(ws@);
    let ghost mut done: Seq<Seq<char>> = Seq::empty();
    assert(head + done =~= head);
    let mut i: usize = 0;
    while i < ws.len()
        invariant
            i <= ws.len(),
            words == texts(ws@),
            views(out@) == head + done,
            done + words_scripts(words, i as int) == words_scripts(words, 0),
        decreases ws.len() - i,
    {
        let ghost piece = word_scripts(ws@[i as int]@);
        let ghost rest = words_scripts(words, i as int + 1);
        push_word_scripts(&mut out, &ws[i]);
        proof {
            assert((head + done) + piece =~= head + (done + piece));
            assert((done + piece) + rest =~= done + (piece + rest));
            done = done + piece;
        }
        i += 1;
    }
    assert(done + Seq::<Seq<char>>::empty() =~= done);
    out
}

/// Expands a simple command. `alias` is the alias of the name of the command,
/// if it has one; `outputs` holds the outputs of the scripts that
/// `substitutions` names, in that order. The assignments keep their names
/// and get their right hand sides expanded; the argument vector holds the
/// fields of the words: see `expanded_assignments` and `expanded_argv`.
pub fn expand(cmd: &SimpleCommand, alias: Option<&str>, ctx: &ContextManager, outputs: &Vec<String>) -> (r:
    Expansion)
    requires
        ctx.wf(),
    ensures
        views(r.assignments@) == expanded_assignments(ctx@, *cmd, views(outputs@)),
        views(r.argv@) == expanded_argv(
            ctx@,
            *cmd,
            match alias {
                Some(a) => Some(a@),
                None => None,
            },
            views(outputs@),
        ),
{
    let ghost outs = views(outputs@);
    let ghost m = ctx@;
    let total = outputs.len();
    let mut assignments: Vec<String> = Vec::new();
    let mut kk: usize = 0;
    let ghost mut k: int = 0;
    assert(views(assignments@) =~= Seq::<Seq<char>>::empty());
    match &cmd.prefix {
        Some(p) => {
            let ghost asg = views(p.assignment@);
            let mut i: usize = 0;
            while i < p.assignment.len()
                invariant
                    i <= p.assignment.len(),
                    ctx.wf(),
                    m == ctx@,
                    outs == views(outputs@),
                    asg == views(p.assignment@),
                    total == outputs@.len(),
                    stands_for(kk, k, outputs@.len()),
                    k + assignments_scripts(asg, i as int).len() == assignments_scripts(asg, 0).len(),
                    views(assignments@) + assignments_texts(m, asg, outs, k, i as int)
                        == assignments_texts(m, asg, outs, 0, 0),
                decreases p.assignment.len() - i,
            {
                let a = chars_of(p.assignment[i].as_str());
                let ghost before = views(assignments@);
                let ghost text = assignment_text(m, a@, outs, k);
                let ghost used = assignment_scripts(a@).len() as int;
                let ghost rest = assignments_texts(m, asg, outs, k + used, i as int + 1);
                assert(asg[i as int] == a@);
                let e = find_char(&a, '=');
                if e < a.len() {
                    let mut value: Vec<char> = Vec::new();
                    let mut j: usize = e + 1;
                    while j < a.len()
                        invariant
                            e < j <= a.len(),
                            value@ == a@.subrange(e as int + 1, j as int),
                        decreases a.len() - j,
                    {
                        value.push(a[j]);
                        j += 1;
                    }
                    let (text_chars, n) = expand_text(ctx, &value, outputs, kk, Ghost(k));
                    let mut item = string_of_range(&a, 0, e);
                    item.push('=');
                    let tail = string_of(&text_chars);
                    item.append(tail.as_str());
                    proof {
                        reveal_strlit("=");
                        assert("="@ =~= seq!['=']);
                    }
                    assert(item@ =~= text);
                    assignments.push(item);
                    kk = capped_sum(kk, n);
                } else {
                    assignments.push(p.assignment[i].clone());
                }
                proof {
                    assert(views(assignments@) =~= before.push(text));
                    assert(before.push(text) + rest =~= before + (seq![text] + rest));
                    k = k + used;
                }
                i += 1;
            }
            assert(views(assignments@) + Seq::<Seq<char>>::empty() =~= views(assignments@));
        },
        None => {},
    }
    let ws = alias_words(cmd, alias);
    let ghost words = texts(ws@);
    let ghost k0 = k;
    let mut argv: Vec<String> = Vec::new();
    assert(views(argv@) =~= Seq::<Seq<char>>::empty());
    let mut i: usize = 0;
    while i < ws.len()
        invariant
            i <= ws.len(),
            ctx.wf(),
            m == ctx@,
            outs == views(outputs@),
            words == texts(ws@),
            total == outputs@.len(),
            stands_for(kk, k, outputs@.len()),
            views(argv@) + words_fields(m, words, outs, k, i as int) == words_fields(
                m,
                words,
                outs,
                k0,
                0,
            ),
        decreases ws.len() - i,
    {
        let ghost before = views(argv@);
        let ghost piece = word_fields(m, ws@[i as int]@, outs, k);
        let ghost used = word_scripts(ws@[i as int]@).len() as int;
        let ghost rest = words_fields(m, words, outs, k + used, i as int + 1);
        let q = quote_of(&ws[i]);
        let (text, n) = expand_text(ctx, &ws[i], outputs, kk, Ghost(k));
        if q == ' ' {
            let mut parts = split_fields(&text);
            let ghost pv = views(parts@);
            argv.append(&mut parts);
            assert(views(argv@) =~= before + pv);
        } else {
            argv.push(string_of(&text));
            assert(views(argv@) =~= before + seq![text@]);
        }
        proof {
            assert((before + piece) + rest =~= before + (piece + rest));
            k = k + used;
        }
        kk = capped_sum(kk, n);
        i += 1;
    }
    assert(views(argv@) + Seq::<Seq<char>>::empty() =~= views(argv@));
    Expansion { assignments, argv }
}

/// The redirections before the name of a command.
pub open spec fn prefix_redirects(c: SimpleCommand) -> Seq<IoRedirect> {
    match c.prefix {
        Some(p) => p.io_redirect@,
        None => Seq::empty(),
    }
}

/// The redirections after the name of a command.
pub open spec fn suffix_redirects(c: SimpleCommand) -> Seq<IoRedirect> {
    match c.suffix {
        Some(s) => s.io_redirect@,
        None => Seq::empty(),
    }
}

/// Tells whether `after` is `before` with its expansion in its place: the
/// first argument is the name, the further arguments are the words, the
/// assignments are the expanded ones, and the redirections are as they were.
pub open spec fn evaluated(
    before: SimpleCommand,
    after: SimpleCommand,
    assignments: Seq<Seq<char>>,
    argv: Seq<Seq<char>>,
) -> bool {
    &&& after.name@ == (if argv.len() > 0 {
        argv[0]
    } else {
        Seq::empty()
    })
    &&& suffix_words(after) == (if argv.len() > 0 {
        argv.subrange(1, argv.len() as int)
    } else {
        Seq::empty()
    })
    &&& prefix_assignments(after) == assignments
    &&& prefix_redirects(after) == prefix_redirects(before)
    &&& suffix_redirects(after) == suffix_redirects(before)
}

impl SimpleCommand {
    /// Expands the command where it stands, as `expand` does: afterwards
    /// its name and words are the argument vector, its assignments have
    /// their right hand sides expanded, and its redirections are untouched.
    /// A command that expands to nothing has the empty name.
    pub fn eval(&mut self, alias: Option<&str>, ctx: &ContextManager, outputs: &Vec<String>)
        requires
            ctx.wf(),
        ensures
            evaluated(
                *old(self),
                *final(self),
                expanded_assignments(ctx@, *old(self), views(outputs@)),
                expanded_argv(
                    ctx@,
                    *old(self),
                    match alias {
                        Some(a) => Some(a@),
                        None => None,
                    },
                    views(outputs@),
                ),
            ),
    {
        let Expansion { assignments, argv } = expand(self, alias, ctx, outputs);
        let ghost all = views(argv@);
        let mut words = argv;
        let name = if words.len() > 0 {
            words.remove(0)
        } else {
            String::new()
        };
        assert(views(words@) =~= (if all.len() > 0 {
            all.subrange(1, all.len() as int)
        } else {
            Seq::empty()
        }));
        self.name = name;
        let redirects = match self.suffix.take() {
            Some(s) => s.io_redirect,
            None => Vec::new(),
        };
        self.suffix = Some(Suffix { io_redirect: redirects, word: words });
        match self.prefix.take() {
            Some(p) => {
                self.prefix = Some(Prefix { io_redirect: p.io_redirect, assignment: assignments });
            },
            None => {
                if assignments.len() > 0 {
                    self.prefix = Some(Prefix { io_redirect: Vec::new(), assignment: assignments });
                } else {
                    assert(views(assignments@) =~= Seq::<Seq<char>>::empty());
                }
            },
        }
    }
}

} // verus!

//! The parser: it makes a command tree of the tokens of a command line.
//!
//! It knows lists of and-or lists of pipelines of simple commands, with
//! assignments and redirections, and definitions of functions whose bodies
//! are such lists.

use crate::ast::{
    AndOr, BraceGroup, Command, CompleteCommand, CompoundCommand, CompoundList, ConditionalExec,
    FunctionBody, FunctionDefinition, IoFile, IoRedirect, List, PipeSequence, Pipeline, Prefix,
    RedirectType, SimpleCommand, Suffix, Term,
};
use crate::lexer::{lex, Error, Lexer, Token, TokenView};
use crate::text::{index_of, views};
use vstd::prelude::*;

verus! {

/// Why a command line could not be made a tree of.
#[derive(Clone, Copy, Debug, PartialEq, Eq, Structural)]
pub enum ParseError {
    /// The lexer met a character that starts no token.
    Lexical(Error),
    /// The token at this position, counted in tokens, fits nowhere.
    Unexpected(usize),
}

/// A redirection, as the parser sees it.
pub struct RedirectView {
    pub number: Option<i32>,
    pub file: Option<(RedirectType, Seq<char>)>,
    pub here: Option<Seq<char>>,
}

/// A simple command, as the parser sees it.
pub struct SimpleView {
    pub assignments: Seq<Seq<char>>,
    pub prefix_redirects: Seq<RedirectView>,
    pub name: Seq<char>,
    pub words: Seq<Seq<char>>,
    pub suffix_redirects: Seq<RedirectView>,
}

/// A command, as the parser sees it: a simple command, the definition of a
/// function with its name and the and-or lists of its body, or something
/// else.
pub enum CommandView {
    Simple(SimpleView),
    Function(Seq<char>, Seq<Seq<LinkView>>),
    Other,
}

/// One pipeline of an and-or list, with the operator before it.
pub struct LinkView {
    pub op: Option<ConditionalExec>,
    pub bang: bool,
    pub background: bool,
    pub commands: Seq<CommandView>,
}

/// The content of a redirection.
pub open spec fn redirect_view(r: IoRedirect) -> RedirectView {
    RedirectView {
        number: r.io_number,
        file: match r.io_file {
            Some(f) => Some((f.redirect_type, f.filename@)),
            None => None,
        },
        here: match r.io_here {
            Some(h) => Some(h.here@),
            None => None,
        },
    }
}

/// The contents of a sequence of redirections.
pub open spec fn redirect_views(rs: Seq<IoRedirect>) -> Seq<RedirectView> {
    Seq::new(rs.len(), |i: int| redirect_view(rs[i]))
}

/// The content of a simple command.
pub open spec fn simple_view(c: SimpleCommand) -> SimpleView {
    SimpleView {
        assignments: match c.prefix {
            Some(p) => views(p.assignment@),
            None => Seq::empty(),
        },
        prefix_redirects: match c.prefix {
            Some(p) => redirect_views(p.io_redirect@),
            None => Seq::empty(),
        },
        name: c.name@,
        words: match c.suffix {
            Some(x) => views(x.word@),
            None => Seq::empty(),
        },
        suffix_redirects: match c.suffix {
            Some(x) => redirect_views(x.io_redirect@),
            None => Seq::empty(),
        },
    }
}

/// The content of a command in the body of a function: a simple command, or
/// something else.
pub open spec fn inner_command_view(c: Command) -> CommandView {
    match c {
        Command::SimpleCommand(x) => CommandView::Simple(simple_view(x)),
        _ => CommandView::Other,
    }
}

/// The content of a pipeline in the body of a function, with the operator
/// before it.
pub open spec fn inner_link_view(op: Option<ConditionalExec>, p: Pipeline) -> LinkView {
    LinkView {
        op: op,
        bang: p.bang,
        background: p.background,
        commands: Seq::new(
            p.pipe_sequence.0@.len(),
            |i: int| inner_command_view(p.pipe_sequence.0@[i]),
        ),
    }
}

/// The pipelines of an and-or list in the body of a function, in the order in
/// which they run.
pub open spec fn inner_chain_view(ao: AndOr) -> Seq<LinkView>
    decreases ao,
{
    match ao.and_or {
        Some(before) => inner_chain_view(*before).push(
            inner_link_view(ao.conditional_exec, ao.pipeline),
        ),
        None => seq![inner_link_view(ao.conditional_exec, ao.pipeline)],
    }
}

/// The and-or lists of a body.
pub open spec fn inner_list_view(v: Seq<AndOr>) -> Seq<Seq<LinkView>> {
    Seq::new(v.len(), |i: int| inner_chain_view(v[i]))
}

/// The and-or lists of the body of a function, where the body is a brace
/// group; none for any other body.
pub open spec fn body_items(b: FunctionBody) -> Seq<AndOr> {
    match b.compound_command {
        CompoundCommand::BraceGroup(g) => g.0.0.0@,
        _ => Seq::empty(),
    }
}

/// The content of a command.
pub open spec fn command_view(c: Command) -> CommandView {
    match c {
        Command::SimpleCommand(x) => CommandView::Simple(simple_view(x)),
        Command::FunctionDefinition(d) => CommandView::Function(
            d.name@,
            inner_list_view(body_items(d.function_body)),
        ),
        _ => CommandView::Other,
    }
}

/// The content of a pipeline, with the operator before it.
pub open spec fn link_view(op: Option<ConditionalExec>, p: Pipeline) -> LinkView {
    LinkView {
        op: op,
        bang: p.bang,
        background: p.background,
        commands: Seq::new(p.pipe_sequence.0@.len(), |i: int| command_view(p.pipe_sequence.0@[i])),
    }
}

/// The pipelines of an and-or list, in the order in which they run.
pub open spec fn chain_view(ao: AndOr) -> Seq<LinkView>
    decreases ao,
{
    match ao.and_or {
        Some(before) => chain_view(*before).push(link_view(ao.conditional_exec, ao.pipeline)),
        None => seq![link_view(ao.conditional_exec, ao.pipeline)],
    }
}

/// The and-or lists of a list.
pub open spec fn list_view(v: Seq<AndOr>) -> Seq<Seq<LinkView>> {
    Seq::new(v.len(), |i: int| chain_view(v[i]))
}

/// The and-or lists of a command line.
pub open spec fn complete_view(c: CompleteCommand) -> Seq<Seq<LinkView>> {
    match c.list {
        Some(l) => list_view(l.0@),
        None => Seq::empty(),
    }
}

/// The contents of a sequence of tokens.
pub open spec fn token_views(ts: Seq<Token>) -> Seq<TokenView> {
    Seq::new(ts.len(), |i: int| ts[i]@)
}

/// The token at position `i`; the end of the input beyond the tokens.
pub open spec fn tok(ts: Seq<TokenView>, i: int) -> TokenView {
    if 0 <= i < ts.len() {
        ts[i]
    } else {
        TokenView::EOF
    }
}

/// The first position at or after `i` that holds no list of line feeds.
pub open spec fn skip_newlines(ts: Seq<TokenView>, i: int) -> int
    decreases ts.len() - i,
{
    if 0 <= i < ts.len() && ts[i] is NewlineList {
        skip_newlines(ts, i + 1)
    } else {
        i
    }
}

/// A word that assigns: it holds a `=` after a name that is not empty.
pub open spec fn is_assignment(w: Seq<char>) -> bool {
    0 < index_of(w, '=') < w.len()
}

/// The kind of redirection that an operator stands for.
pub open spec fn redirect_kind(t: TokenView) -> Option<RedirectType> {
    match t {
        TokenView::Less => Some(RedirectType::Input),
        TokenView::Greater => Some(RedirectType::Output),
        TokenView::DoubleGreater => Some(RedirectType::Append),
        _ => None,
    }
}

/// The text of a token that counts as a word after the name of a command: a
/// word, or a reserved word.
pub open spec fn argument_text(t: TokenView) -> Option<Seq<char>> {
    match t {
        TokenView::Word(w) => Some(w),
        TokenView::For => Some("for"@),
        TokenView::In => Some("in"@),
        TokenView::While => Some("while"@),
        TokenView::Until => Some("until"@),
        TokenView::If => Some("if"@),
        TokenView::Then => Some("then"@),
        TokenView::Else => Some("else"@),
        TokenView::Elif => Some("elif"@),
        TokenView::Fi => Some("fi"@),
        TokenView::Do => Some("do"@),
        TokenView::Done => Some("done"@),
        TokenView::Case => Some("case"@),
        TokenView::Esac => Some("esac"@),
        _ => None,
    }
}

/// A simple command without anything.
pub open spec fn empty_simple() -> SimpleView {
    SimpleView {
        assignments: Seq::empty(),
        prefix_redirects: Seq::empty(),
        name: Seq::empty(),
        words: Seq::empty(),
        suffix_redirects: Seq::empty(),
    }
}

/// A simple command with one more word: before the name a word that assigns
/// is an assignment and any other word is the name; after the name every
/// word is an argument.
pub open spec fn with_word(acc: SimpleView, w: Seq<char>) -> SimpleView {
    if acc.name.len() > 0 {
        SimpleView { words: acc.words.push(w), ..acc }
    } else if is_assignment(w) {
        SimpleView { assignments: acc.assignments.push(w), ..acc }
    } else {
        SimpleView { name: w, ..acc }
    }
}

/// A simple command with one more redirection, before or after its name.
pub open spec fn with_redirect(acc: SimpleView, r: RedirectView) -> SimpleView {
    if acc.name.len() > 0 {
        SimpleView { suffix_redirects: acc.suffix_redirects.push(r), ..acc }
    } else {
        SimpleView { prefix_redirects: acc.prefix_redirects.push(r), ..acc }
    }
}

/// A redirection to a file.
pub open spec fn file_redirect(number: Option<i32>, kind: RedirectType, name: Seq<char>) -> RedirectView {
    RedirectView { number: number, file: Some((kind, name)), here: None }
}

/// The simple command that starts with what `acc` holds and goes on at
/// position `i`, and the position after it. Words, and redirections of the
/// forms `< FILE`, `> FILE`, `>> FILE` with an optional number before the
/// operator, go on the command; the first other token ends it. After the
/// name a reserved word is a word like any other.
pub open spec fn simple_from(ts: Seq<TokenView>, i: int, acc: SimpleView) -> Result<
    (SimpleView, int),
    ParseError,
>
    decreases ts.len() - i,
{
    if i >= ts.len() || i < 0 {
        Ok((acc, i))
    } else if ts[i] is Word || (acc.name.len() > 0 && argument_text(ts[i]) is Some) {
        simple_from(ts, i + 1, with_word(acc, argument_text(ts[i])->0))
    } else if ts[i] is Number {
        if redirect_kind(tok(ts, i + 1)) is Some && tok(ts, i + 2) is Word {
            simple_from(
                ts,
                i + 3,
                with_redirect(
                    acc,
                    file_redirect(
                        Some(ts[i]->Number_0),
                        redirect_kind(tok(ts, i + 1))->0,
                        tok(ts, i + 2)->Word_0,
                    ),
                ),
            )
        } else {
            Err(ParseError::Unexpected(i as usize))
        }
    } else if redirect_kind(ts[i]) is Some {
        if tok(ts, i + 1) is Word {
            simple_from(
                ts,
                i + 2,
                with_redirect(
                    acc,
                    file_redirect(None, redirect_kind(ts[i])->0, tok(ts, i + 1)->Word_0),
                ),
            )
        } else {
            Err(ParseError::Unexpected(i as usize))
        }
    } else {
        Ok((acc, i))
    }
}

/// The command at position `i`, and the position after it. A word before
/// `(`, `)` and a brace group defines a function, outside the body of a
/// function; its body is the list in the braces. Anything else is a simple
/// command, which holds one token at least.
pub open spec fn command_at(ts: Seq<TokenView>, i: int, inner: bool) -> Result<
    (CommandView, int),
    ParseError,
>
    decreases ts.len() - i, 1int,
{
    if !inner && tok(ts, i) is Word && tok(ts, i + 1) is OpenParen && tok(ts, i + 2)
        is CloseParen {
        let j = skip_newlines(ts, i + 3);
        if j < i + 3 || j >= ts.len() || !(tok(ts, j) is OpenBrace) {
            Err(ParseError::Unexpected(j as usize))
        } else {
            match list_from(ts, j + 1, true, Seq::empty()) {
                Err(e) => Err(e),
                Ok(r) => if tok(ts, r.1) is CloseBrace {
                    Ok((CommandView::Function(tok(ts, i)->Word_0, r.0), r.1 + 1))
                } else {
                    Err(ParseError::Unexpected(r.1 as usize))
                },
            }
        }
    } else {
        match simple_from(ts, i, empty_simple()) {
            Err(e) => Err(e),
            Ok(r) => if r.1 <= i {
                Err(ParseError::Unexpected(i as usize))
            } else {
                Ok((CommandView::Simple(r.0), r.1))
            },
        }
    }
}

/// The commands of a pipeline from position `i` on, after those in `acc`,
/// and the position after the pipeline. The commands are joined by `|`,
/// after which line feeds may stand.
pub open spec fn pipeline_from(ts: Seq<TokenView>, i: int, inner: bool, acc: Seq<CommandView>) -> Result<
    (Seq<CommandView>, int),
    ParseError,
>
    decreases ts.len() - i, 2int,
{
    match command_at(ts, i, inner) {
        Err(e) => Err(e),
        Ok(r) => if r.1 <= i || r.1 > ts.len() {
            Err(ParseError::Unexpected(i as usize))
        } else if tok(ts, r.1) is Pipe {
            if r.1 < skip_newlines(ts, r.1 + 1) <= ts.len() {
                pipeline_from(ts, skip_newlines(ts, r.1 + 1), inner, acc.push(r.0))
            } else {
                Err(ParseError::Unexpected(i as usize))
            }
        } else {
            Ok((acc.push(r.0), r.1))
        },
    }
}

/// The pipeline at position `i` with the operator `op` before it, and the
/// position after it. A `!` may stand before its first command.
pub open spec fn link_at(ts: Seq<TokenView>, i: int, inner: bool, op: Option<ConditionalExec>) -> Result<
    (LinkView, int),
    ParseError,
>
    decreases ts.len() - i, 3int,
{
    let bang = tok(ts, i) is Bang;
    let start = if bang {
        i + 1
    } else {
        i
    };
    match pipeline_from(ts, start, inner, Seq::empty()) {
        Err(e) => Err(e),
        Ok(r) => Ok((LinkView { op: op, bang: bang, background: false, commands: r.0 }, r.1)),
    }
}

/// The operator that a token stands for.
pub open spec fn operator(t: TokenView) -> Option<ConditionalExec> {
    match t {
        TokenView::And => Some(ConditionalExec::And),
        TokenView::Or => Some(ConditionalExec::Or),
        _ => None,
    }
}

/// The pipelines of an and-or list from position `i` on, after those in
/// `acc`, where `op` stands before the next one; and the position after the
/// list. The pipelines are joined by `&&` and `||`, after which line feeds
/// may stand.
pub open spec fn chain_from(
    ts: Seq<TokenView>,
    i: int,
    inner: bool,
    acc: Seq<LinkView>,
    op: Option<ConditionalExec>,
) -> Result<(Seq<LinkView>, int), ParseError>
    decreases ts.len() - i, 4int,
{
    match link_at(ts, i, inner, op) {
        Err(e) => Err(e),
        Ok(r) => if r.1 <= i || r.1 > ts.len() {
            Err(ParseError::Unexpected(i as usize))
        } else if operator(tok(ts, r.1)) is Some {
            if r.1 < skip_newlines(ts, r.1 + 1) <= ts.len() {
                chain_from(
                    ts,
                    skip_newlines(ts, r.1 + 1),
                    inner,
                    acc.push(r.0),
                    operator(tok(ts, r.1)),
                )
            } else {
                Err(ParseError::Unexpected(i as usize))
            }
        } else {
            Ok((acc.push(r.0), r.1))
        },
    }
}

/// An and-or list whose last pipeline runs in the background.
pub open spec fn in_background(chain: Seq<LinkView>) -> Seq<LinkView> {
    if chain.len() > 0 {
        chain.update(chain.len() - 1, LinkView { background: true, ..chain.last() })
    } else {
        chain
    }
}

/// The and-or lists from position `i` on, after those in `acc`, and the
/// position where the list ends: the end of the tokens, or the `}` that
/// closes the body of a function. `;` and line feeds separate the and-or
/// lists; `&` after one ends it and sends its last pipeline to the
/// background.
pub open spec fn list_from(ts: Seq<TokenView>, i: int, inner: bool, acc: Seq<Seq<LinkView>>) -> Result<
    (Seq<Seq<LinkView>>, int),
    ParseError,
>
    decreases ts.len() - i, 5int,
{
    if i >= ts.len() || i < 0 {
        Ok((acc, i))
    } else if ts[i] is SemiColon || ts[i] is NewlineList {
        list_from(ts, i + 1, inner, acc)
    } else if ts[i] is EOF || (inner && ts[i] is CloseBrace) {
        Ok((acc, i))
    } else {
        match chain_from(ts, i, inner, Seq::empty(), None) {
            Err(e) => Err(e),
            Ok(r) => if r.1 <= i || r.1 > ts.len() {
                Err(ParseError::Unexpected(i as usize))
            } else if tok(ts, r.1) is Ampersand {
                list_from(ts, r.1 + 1, inner, acc.push(in_background(r.0)))
            } else {
                list_from(ts, r.1, inner, acc.push(r.0))
            },
        }
    }
}

/// The and-or lists that the tokens spell, up to their end.
pub open spec fn parsed(ts: Seq<TokenView>) -> Result<Seq<Seq<LinkView>>, ParseError> {
    match list_from(ts, 0, false, Seq::empty()) {
        Err(e) => Err(e),
        Ok(r) => if tok(ts, r.1) is EOF {
            Ok(r.0)
        } else {
            Err(ParseError::Unexpected(r.1 as usize))
        },
    }
}

/// The content of a command, inside the body of a function or outside.
pub open spec fn command_view_in(c: Command, inner: bool) -> CommandView {
    if inner {
        inner_command_view(c)
    } else {
        command_view(c)
    }
}

/// The contents of a sequence of commands.
pub open spec fn commands_view_in(cs: Seq<Command>, inner: bool) -> Seq<CommandView> {
    Seq::new(cs.len(), |i: int| command_view_in(cs[i], inner))
}

/// The content of a pipeline, inside the body of a function or outside.
pub open spec fn link_view_in(op: Option<ConditionalExec>, p: Pipeline, inner: bool) -> LinkView {
    if inner {
        inner_link_view(op, p)
    } else {
        link_view(op, p)
    }
}

/// The pipelines of an and-or list, inside the body of a function or outside.
pub open spec fn chain_view_in(ao: AndOr, inner: bool) -> Seq<LinkView> {
    if inner {
        inner_chain_view(ao)
    } else {
        chain_view(ao)
    }
}

/// The and-or lists of a list, inside the body of a function or outside.
pub open spec fn list_view_in(v: Seq<AndOr>, inner: bool) -> Seq<Seq<LinkView>> {
    Seq::new(v.len(), |i: int| chain_view_in(v[i], inner))
}

/// What the parser tells tokens apart by.
#[derive(Clone, Copy, Debug, PartialEq, Eq, Structural)]
pub enum Tag {
    Word,
    Number,
    Bang,
    Pipe,
    And,
    Or,
    Ampersand,
    OpenParen,
    CloseParen,
    OpenBrace,
    CloseBrace,
    SemiColon,
    NewlineList,
    End,
    Other,
}

/// The tag of a token.
pub open spec fn tag_of(t: TokenView) -> Tag {
    match t {
        TokenView::Word(_) => Tag::Word,
        TokenView::Number(_) => Tag::Number,
        TokenView::Bang => Tag::Bang,
        TokenView::Pipe => Tag::Pipe,
        TokenView::And => Tag::And,
        TokenView::Or => Tag::Or,
        TokenView::Ampersand => Tag::Ampersand,
        TokenView::OpenParen => Tag::OpenParen,
        TokenView::CloseParen => Tag::CloseParen,
        TokenView::OpenBrace => Tag::OpenBrace,
        TokenView::CloseBrace => Tag::CloseBrace,
        TokenView::SemiColon => Tag::SemiColon,
        TokenView::NewlineList => Tag::NewlineList,
        TokenView::EOF => Tag::End,
        _ => Tag::Other,
    }
}

/// The tag of the token `k` places after position `i`.
fn tag_at(ts: &Vec<Token>, i: usize, k: usize) -> (r: Tag)
    ensures
        r == tag_of(tok(token_views(ts@), i + k)),
        r != Tag::End ==> i + k < ts@.len(),
{
    match at(ts, i, k) {
        Some(Token::Word(_)) => Tag::Word,
        Some(Token::Number(_)) => Tag::Number,
        Some(Token::Bang) => Tag::Bang,
        Some(Token::Pipe) => Tag::Pipe,
        Some(Token::And) => Tag::And,
        Some(Token::Or) => Tag::Or,
        Some(Token::Ampersand) => Tag::Ampersand,
        Some(Token::OpenParen) => Tag::OpenParen,
        Some(Token::CloseParen) => Tag::CloseParen,
        Some(Token::OpenBrace) => Tag::OpenBrace,
        Some(Token::CloseBrace) => Tag::CloseBrace,
        Some(Token::SemiColon) => Tag::SemiColon,
        Some(Token::NewlineList) => Tag::NewlineList,
        Some(Token::EOF) => Tag::End,
        Some(_) => Tag::Other,
        None => Tag::End,
    }
}

/// The token `k` places after position `i`, if there is one.
fn at(ts: &Vec<Token>, i: usize, k: usize) -> (r: Option<&Token>)
    ensures
        r is Some <==> i + k < ts@.len(),
        r matches Some(t) ==> *t == ts@[i + k],
        match r {
            Some(t) => t@ == tok(token_views(ts@), i + k),
            None => tok(token_views(ts@), i + k) == TokenView::EOF,
        },
{
    if k < ts.len() && i < ts.len() - k {
        Some(&ts[i + k])
    } else {
        None
    }
}

/// The text of the word at the place, if a word stands there.
fn word_at(ts: &Vec<Token>, i: usize, k: usize) -> (r: Option<String>)
    ensures
        r is Some <==> tok(token_views(ts@), i + k) is Word,
        r matches Some(w) ==> w@ == tok(token_views(ts@), i + k)->Word_0 && i + k < ts@.len(),
{
    match at(ts, i, k) {
        Some(Token::Word(w)) => Some(w.clone()),
        _ => None,
    }
}

/// The kind of redirection of the operator at the place, if one stands there.
fn redirect_at(ts: &Vec<Token>, i: usize, k: usize) -> (r: Option<RedirectType>)
    ensures
        r == redirect_kind(tok(token_views(ts@), i + k)),
        r is Some ==> i + k < ts@.len(),
{
    match at(ts, i, k) {
        Some(Token::Less) => Some(RedirectType::Input),
        Some(Token::Greater) => Some(RedirectType::Output),
        Some(Token::DoubleGreater) => Some(RedirectType::Append),
        _ => None,
    }
}

/// The text of a token that counts as a word: see `argument_text`.
fn text_of(t: &Token) -> (r: Option<String>)
    ensures
        r is Some <==> argument_text(t@) is Some,
        r matches Some(w) ==> w@ == argument_text(t@)->0,
{
    let text = match t {
        Token::Word(w) => {
            return Some(w.clone());
        },
        Token::For => "for",
        Token::In => "in",
        Token::While => "while",
        Token::Until => "until",
        Token::If => "if",
        Token::Then => "then",
        Token::Else => "else",
        Token::Elif => "elif",
        Token::Fi => "fi",
        Token::Do => "do",
        Token::Done => "done",
        Token::Case => "case",
        Token::Esac => "esac",
        _ => {
            return None;
        },
    };
    Some(text.to_owned())
}

/// The first position at or after `i` that holds no list of line feeds.
fn pass_newlines(ts: &Vec<Token>, i: usize) -> (r: usize)
    requires
        i <= ts@.len(),
    ensures
        r == skip_newlines(token_views(ts@), i as int),
        i <= r <= ts@.len(),
{
    let mut k: usize = i;
    while k < ts.len() && tag_at(ts, k, 0) == Tag::NewlineList
        invariant
            i <= k <= ts@.len(),
            skip_newlines(token_views(ts@), i as int) == skip_newlines(
                token_views(ts@),
                k as int,
            ),
        decreases ts@.len() - k,
    {
        k += 1;
    }
    k
}

/// Tells whether a word assigns.
fn assigns(w: &str) -> (r: bool)
    ensures
        r == is_assignment(w@),
{
    let v = crate::text::chars_of(w);
    let k = crate::text::find_char(&v, '=');
    0 < k && k < v.len()
}

/// The simple command at position `i`, and the position after it: see
/// `simple_from`.
fn parse_simple(ts: &Vec<Token>, i: usize) -> (r: Result<(SimpleCommand, usize), ParseError>)
    requires
        i <= ts@.len(),
    ensures
        match simple_from(token_views(ts@), i as int, empty_simple()) {
            Ok(x) => r matches Ok(y) && simple_view(y.0) == x.0 && y.1 == x.1 && i <= y.1
                <= ts@.len(),
            Err(e) => r matches Err(f) && f == e,
        },
{
    let ghost tv = token_views(ts@);
    let mut assignments: Vec<String> = Vec::new();
    let mut before: Vec<IoRedirect> = Vec::new();
    let mut name = String::new();
    let mut words: Vec<String> = Vec::new();
    let mut after: Vec<IoRedirect> = Vec::new();
    let ghost mut acc = empty_simple();
    let mut k: usize = i;
    proof {
        assert(views(assignments@) =~= acc.assignments);
        assert(views(words@) =~= acc.words);
        assert(redirect_views(before@) =~= acc.prefix_redirects);
        assert(redirect_views(after@) =~= acc.suffix_redirects);
    }
    loop
        invariant
            i <= k <= ts@.len(),
            tv == token_views(ts@),
            acc == (SimpleView {
                assignments: views(assignments@),
                prefix_redirects: redirect_views(before@),
                name: name@,
                words: views(words@),
                suffix_redirects: redirect_views(after@),
            }),
            simple_from(tv, k as int, acc) == simple_from(tv, i as int, empty_simple()),
        ensures
            i <= k <= ts@.len(),
            acc == (SimpleView {
                assignments: views(assignments@),
                prefix_redirects: redirect_views(before@),
                name: name@,
                words: views(words@),
                suffix_redirects: redirect_views(after@),
            }),
            simple_from(tv, i as int, empty_simple()) == Ok::<(SimpleView, int), ParseError>(
                (acc, k as int),
            ),
        decreases ts@.len() - k,
    {
        if k >= ts.len() {
            break ;
        }
        let named = !name.as_str().is_empty();
        let is_word = tag_at(ts, k, 0) == Tag::Word;
        let number = match &ts[k] {
            Token::Number(n) => Some(*n),
            _ => None,
        };
        let text = text_of(&ts[k]);
        if is_word || (named && text.is_some()) {
            let w = text.unwrap();
            if named {
                let ghost old_words = views(words@);
                words.push(w);
                proof {
                    assert(views(words@) =~= old_words.push(argument_text(tv[k as int])->0));
                    acc = with_word(acc, argument_text(tv[k as int])->0);
                }
            } else if assigns(w.as_str()) {
                let ghost old_assignments = views(assignments@);
                assignments.push(w);
                proof {
                    assert(views(assignments@) =~= old_assignments.push(
                        argument_text(tv[k as int])->0,
                    ));
                    acc = with_word(acc, argument_text(tv[k as int])->0);
                }
            } else {
                name = w;
                proof {
                    acc = with_word(acc, argument_text(tv[k as int])->0);
                }
            }
            k += 1;
        } else if number.is_some() || redirect_at(ts, k, 0).is_some() {
            let shift: usize = if number.is_some() {
                1
            } else {
                0
            };
            let kind = redirect_at(ts, k, shift);
            let file = word_at(ts, k, shift + 1);
            if kind.is_none() || file.is_none() {
                return Err(ParseError::Unexpected(k));
            }
            let item = IoRedirect {
                io_number: number,
                io_file: Some(IoFile { redirect_type: kind.unwrap(), filename: file.unwrap() }),
                io_here: None,
            };
            let ghost rv = redirect_view(item);
            if named {
                let ghost old_after = redirect_views(after@);
                after.push(item);
                proof {
                    assert(redirect_views(after@) =~= old_after.push(rv));
                }
            } else {
                let ghost old_before = redirect_views(before@);
                before.push(item);
                proof {
                    assert(redirect_views(before@) =~= old_before.push(rv));
                }
            }
            proof {
                acc = with_redirect(acc, rv);
            }
            k = k + shift + 2;
        } else {
            break ;
        }
    }
    let prefix = if assignments.len() == 0 && before.len() == 0 {
        None
    } else {
        Some(Prefix { io_redirect: before, assignment: assignments })
    };
    let suffix = if words.len() == 0 && after.len() == 0 {
        None
    } else {
        Some(Suffix { io_redirect: after, word: words })
    };
    let command = SimpleCommand { prefix, name, suffix };
    proof {
        let v = simple_view(command);
        assert(v.assignments =~= acc.assignments);
        assert(v.prefix_redirects =~= acc.prefix_redirects);
        assert(v.words =~= acc.words);
        assert(v.suffix_redirects =~= acc.suffix_redirects);
    }
    Ok((command, k))
}

/// The command at position `i`, and the position after it: see `command_at`.
fn parse_command(ts: &Vec<Token>, i: usize, inner: bool) -> (r: Result<
    (Command, usize),
    ParseError,
>)
    requires
        i <= ts@.len(),
    ensures
        match command_at(token_views(ts@), i as int, inner) {
            Ok(x) => r matches Ok(y) && command_view_in(y.0, inner) == x.0 && y.1 == x.1 && y.1
                <= ts@.len(),
            Err(e) => r matches Err(f) && f == e,
        },
    decreases ts@.len() - i, 1int,
{
    let n = ts.len();
    let defines = !inner && tag_at(ts, i, 0) == Tag::Word && tag_at(ts, i, 1) == Tag::OpenParen
        && tag_at(ts, i, 2) == Tag::CloseParen;
    if defines {
        let name = word_at(ts, i, 0).unwrap();
        let j = pass_newlines(ts, i + 3);
        if j >= ts.len() || tag_at(ts, j, 0) != Tag::OpenBrace {
            return Err(ParseError::Unexpected(j));
        }
        match parse_list(ts, j + 1, true) {
            Err(e) => Err(e),
            Ok((body, k)) => {
                if tag_at(ts, k, 0) == Tag::CloseBrace {
                    let definition = FunctionDefinition {
                        name,
                        function_body: FunctionBody {
                            compound_command: CompoundCommand::BraceGroup(
                                BraceGroup(CompoundList(Term(body))),
                            ),
                            redirect_list: None,
                        },
                    };
                    let command = Command::FunctionDefinition(definition);
                    proof {
                        assert(inner_list_view(body_items(definition.function_body))
                            =~= list_view_in(body@, true));
                    }
                    Ok((command, k + 1))
                } else {
                    Err(ParseError::Unexpected(k))
                }
            },
        }
    } else {
        match parse_simple(ts, i) {
            Err(e) => Err(e),
            Ok((simple, j)) => {
                if j <= i {
                    Err(ParseError::Unexpected(i))
                } else {
                    Ok((Command::SimpleCommand(simple), j))
                }
            },
        }
    }
}

/// The commands of the pipeline at position `i`, and the position after it:
/// see `pipeline_from`.
fn parse_commands(ts: &Vec<Token>, i: usize, inner: bool) -> (r: Result<
    (Vec<Command>, usize),
    ParseError,
>)
    requires
        i <= ts@.len(),
    ensures
        match pipeline_from(token_views(ts@), i as int, inner, Seq::empty()) {
            Ok(x) => r matches Ok(y) && commands_view_in(y.0@, inner) == x.0 && y.1 == x.1 && y.1
                <= ts@.len(),
            Err(e) => r matches Err(f) && f == e,
        },
    decreases ts@.len() - i, 2int,
{
    let ghost tv = token_views(ts@);
    let n = ts.len();
    let mut commands: Vec<Command> = Vec::new();
    let mut k: usize = i;
    assert(commands_view_in(commands@, inner) =~= Seq::<CommandView>::empty());
    loop
        invariant
            i <= k <= ts@.len(),
            n == ts@.len(),
            tv == token_views(ts@),
            pipeline_from(tv, k as int, inner, commands_view_in(commands@, inner))
                == pipeline_from(tv, i as int, inner, Seq::empty()),
        decreases ts@.len() - k,
    {
        let ghost acc = commands_view_in(commands@, inner);
        match parse_command(ts, k, inner) {
            Err(e) => {
                return Err(e);
            },
            Ok((command, j)) => {
                if j <= k || j > n {
                    return Err(ParseError::Unexpected(k));
                }
                let ghost cv = command_view_in(command, inner);
                commands.push(command);
                assert(commands_view_in(commands@, inner) =~= acc.push(cv));
                if tag_at(ts, j, 0) == Tag::Pipe {
                    let next = pass_newlines(ts, j + 1);
                    if !(j < next && next <= n) {
                        return Err(ParseError::Unexpected(k));
                    }
                    k = next;
                } else {
                    return Ok((commands, j));
                }
            },
        }
    }
}

/// The pipeline at position `i` with the operator `op` before it, and the
/// position after it: see `link_at`.
fn parse_pipeline(ts: &Vec<Token>, i: usize, inner: bool, op: Option<ConditionalExec>) -> (r: Result<
    (Pipeline, usize),
    ParseError,
>)
    requires
        i <= ts@.len(),
    ensures
        match link_at(token_views(ts@), i as int, inner, op) {
            Ok(x) => r matches Ok(y) && link_view_in(op, y.0, inner) == x.0 && y.1 == x.1 && y.1
                <= ts@.len(),
            Err(e) => r matches Err(f) && f == e,
        },
    decreases ts@.len() - i, 3int,
{
    let n = ts.len();
    let bang = tag_at(ts, i, 0) == Tag::Bang;
    let start = if bang {
        i + 1
    } else {
        i
    };
    match parse_commands(ts, start, inner) {
        Err(e) => Err(e),
        Ok((commands, j)) => {
            let ghost cv = commands_view_in(commands@, inner);
            let pipeline = Pipeline {
                bang,
                pipe_sequence: PipeSequence(commands),
                background: false,
            };
            assert(link_view_in(op, pipeline, inner).commands =~= cv);
            Ok((pipeline, j))
        },
    }
}

/// The and-or list at position `i`, and the position after it: see
/// `chain_from`.
fn parse_chain(ts: &Vec<Token>, i: usize, inner: bool) -> (r: Result<(AndOr, usize), ParseError>)
    requires
        i <= ts@.len(),
    ensures
        match chain_from(token_views(ts@), i as int, inner, Seq::empty(), None) {
            Ok(x) => r matches Ok(y) && chain_view_in(y.0, inner) == x.0 && y.1 == x.1 && y.1
                <= ts@.len(),
            Err(e) => r matches Err(f) && f == e,
        },
    decreases ts@.len() - i, 4int,
{
    let ghost tv = token_views(ts@);
    let mut chain: Option<AndOr> = None;
    let ghost mut acc: Seq<LinkView> = Seq::empty();
    let mut op: Option<ConditionalExec> = None;
    let mut k: usize = i;
    loop
        invariant
            i <= k <= ts@.len(),
            tv == token_views(ts@),
            match chain {
                Some(c) => chain_view_in(c, inner) == acc,
                None => acc.len() == 0,
            },
            chain_from(tv, k as int, inner, acc, op) == chain_from(
                tv,
                i as int,
                inner,
                Seq::empty(),
                None,
            ),
        decreases ts@.len() - k,
    {
        match parse_pipeline(ts, k, inner, op) {
            Err(e) => {
                return Err(e);
            },
            Ok((pipeline, j)) => {
                if j <= k || j > ts.len() {
                    return Err(ParseError::Unexpected(k));
                }
                let ghost link = link_view_in(op, pipeline, inner);
                let grown = AndOr {
                    and_or: match chain {
                        Some(c) => Some(Box::new(c)),
                        None => None,
                    },
                    conditional_exec: op,
                    pipeline,
                };
                proof {
                    assert(acc.len() == 0 ==> acc.push(link) =~= seq![link]);
                    assert(chain_view_in(grown, inner) =~= acc.push(link));
                    acc = acc.push(link);
                }
                let next_op = match tag_at(ts, j, 0) {
                    Tag::And => Some(ConditionalExec::And),
                    Tag::Or => Some(ConditionalExec::Or),
                    _ => None,
                };
                if next_op.is_some() {
                    let next = pass_newlines(ts, j + 1);
                    if !(j < next && next <= ts.len()) {
                        return Err(ParseError::Unexpected(k));
                    }
                    chain = Some(grown);
                    op = next_op;
                    k = next;
                } else {
                    return Ok((grown, j));
                }
            },
        }
    }
}

/// The and-or lists from position `i` on, and the position where the list
/// ends: see `list_from`.
fn parse_list(ts: &Vec<Token>, i: usize, inner: bool) -> (r: Result<(Vec<AndOr>, usize), ParseError>)
    requires
        i <= ts@.len(),
    ensures
        match list_from(token_views(ts@), i as int, inner, Seq::empty()) {
            Ok(x) => r matches Ok(y) && list_view_in(y.0@, inner) == x.0 && y.1 == x.1 && y.1
                <= ts@.len(),
            Err(e) => r matches Err(f) && f == e,
        },
    decreases ts@.len() - i, 5int,
{
    let ghost tv = token_views(ts@);
    let mut items: Vec<AndOr> = Vec::new();
    let mut k: usize = i;
    assert(list_view_in(items@, inner) =~= Seq::<Seq<LinkView>>::empty());
    loop
        invariant
            i <= k <= ts@.len(),
            tv == token_views(ts@),
            list_from(tv, k as int, inner, list_view_in(items@, inner)) == list_from(
                tv,
                i as int,
                inner,
                Seq::empty(),
            ),
        decreases ts@.len() - k,
    {
        if k >= ts.len() {
            return Ok((items, k));
        }
        let tag = tag_at(ts, k, 0);
        let separator = tag == Tag::SemiColon || tag == Tag::NewlineList;
        let ends = tag == Tag::End || (inner && tag == Tag::CloseBrace);
        if separator {
            k += 1;
        } else if ends {
            return Ok((items, k));
        } else {
            match parse_chain(ts, k, inner) {
                Err(e) => {
                    return Err(e);
                },
                Ok((chain, j)) => {
                    if j <= k || j > ts.len() {
                        return Err(ParseError::Unexpected(k));
                    }
                    let ghost old_items = list_view_in(items@, inner);
                    let ghost links = chain_view_in(chain, inner);
                    if tag_at(ts, j, 0) == Tag::Ampersand {
                        let mut sent = chain;
                        sent.pipeline.background = true;
                        proof {
                            lemma_chain_nonempty(chain, inner);
                            assert(chain_view_in(sent, inner) =~= in_background(links));
                        }
                        items.push(sent);
                        assert(list_view_in(items@, inner) =~= old_items.push(
                            in_background(links),
                        ));
                        k = j + 1;
                    } else {
                        items.push(chain);
                        assert(list_view_in(items@, inner) =~= old_items.push(links));
                        k = j;
                    }
                },
            }
        }
    }
}

/// An and-or list holds one pipeline at least, and its last pipeline is the
/// pipeline of its outermost link.
proof fn lemma_chain_nonempty(ao: AndOr, inner: bool)
    ensures
        chain_view_in(ao, inner).len() > 0,
        chain_view_in(ao, inner).last() == link_view_in(ao.conditional_exec, ao.pipeline, inner),
{
}

/// Makes a command tree of tokens: see `parsed`. The tokens are those of the
/// lexer, with the words that stand side by side already joined.
pub fn parse_tokens(ts: &Vec<Token>) -> (r: Result<CompleteCommand, ParseError>)
    ensures
        match parsed(token_views(ts@)) {
            Ok(x) => r matches Ok(c) && complete_view(c) == x,
            Err(e) => r matches Err(f) && f == e,
        },
{
    match parse_list(ts, 0, false) {
        Err(e) => Err(e),
        Ok((items, k)) => {
            if tag_at(ts, k, 0) != Tag::End {
                return Err(ParseError::Unexpected(k));
            }
            proof {
                assert(list_view(items@) =~= list_view_in(items@, false));
            }
            if items.len() == 0 {
                assert(list_view(items@) =~= Seq::<Seq<LinkView>>::empty());
                Ok(CompleteCommand { list: None })
            } else {
                Ok(CompleteCommand { list: Some(List(items)) })
            }
        },
    }
}

/// The tokens of `s` from position `pos` on, each with its start and end,
/// or the first error of the lexer.
pub open spec fn lex_all(s: Seq<char>, pos: int) -> Result<Seq<(int, TokenView, int)>, Error>
    decreases s.len() - pos,
{
    let step = lex(s, pos);
    match step.item {
        None => Ok(Seq::empty()),
        Some(Err(e)) => Err(e),
        Some(Ok(t)) => if pos < step.pos <= s.len() {
            after(t, lex_all(s, step.pos))
        } else {
            Ok(seq![t])
        },
    }
}

/// The tokens `rest` after the token `t`.
pub open spec fn after(
    t: (int, TokenView, int),
    rest: Result<Seq<(int, TokenView, int)>, Error>,
) -> Result<Seq<(int, TokenView, int)>, Error> {
    match rest {
        Ok(r) => Ok(seq![t] + r),
        Err(e) => Err(e),
    }
}

/// The tokens `rest` after the tokens `done`.
pub open spec fn after_all(
    done: Seq<(int, TokenView, int)>,
    rest: Result<Seq<(int, TokenView, int)>, Error>,
) -> Result<Seq<(int, TokenView, int)>, Error> {
    match rest {
        Ok(r) => Ok(done + r),
        Err(e) => Err(e),
    }
}

/// The contents of a sequence of tokens with their starts and ends.
pub open spec fn span_views(ts: Seq<(usize, Token, usize)>) -> Seq<(int, TokenView, int)> {
    Seq::new(ts.len(), |i: int| (ts[i].0 as int, ts[i].1@, ts[i].2 as int))
}

/// Cuts a command line into its tokens, each with its start and end: see
/// `lex_all`. The end of the input is no token of the list.
pub fn tokenize(input: &str) -> (r: Result<Vec<(usize, Token, usize)>, Error>)
    ensures
        match lex_all(input@, 0) {
            Ok(x) => r matches Ok(y) && span_views(y@) == x,
            Err(e) => r matches Err(f) && f == e,
        },
{
    let mut lexer = Lexer::new(input);
    let mut out: Vec<(usize, Token, usize)> = Vec::new();
    assert(span_views(out@) =~= Seq::<(int, TokenView, int)>::empty());
    loop
        invariant
            lexer.wf(),
            lexer@.input == input@,
            after_all(span_views(out@), lex_all(input@, lexer@.pos)) == lex_all(input@, 0),
        decreases input@.len() - lexer@.pos,
    {
        proof {
            lexer.lemma_within();
        }
        let before = lexer.position();
        let ghost done = span_views(out@);
        match lexer.next_token() {
            None => {
                assert(done + Seq::<(int, TokenView, int)>::empty() =~= done);
                return Ok(out);
            },
            Some(Err(e)) => {
                return Err(e);
            },
            Some(Ok(t)) => {
                let ghost tv = (t.0 as int, t.1@, t.2 as int);
                out.push(t);
                proof {
                    lexer.lemma_within();
                    assert(span_views(out@) =~= done.push(tv));
                    assert(done + seq![tv] =~= done.push(tv));
                    match lex_all(input@, lexer@.pos) {
                        Ok(rest) => {
                            assert(done + (seq![tv] + rest) =~= done.push(tv) + rest);
                        },
                        Err(_) => {},
                    }
                }
                if lexer.position() <= before {
                    return Ok(out);
                }
            },
        }
    }
}

/// The text of a token that is part of a word: a word itself, or `=`.
pub open spec fn word_part(t: TokenView) -> Option<Seq<char>> {
    match t {
        TokenView::Word(w) => Some(w),
        TokenView::Equals => Some("="@),
        _ => None,
    }
}

/// The text of a token that can go on a word that it follows without a
/// gap: a word, `=`, or `!`.
pub open spec fn joining_part(t: TokenView) -> Option<Seq<char>> {
    match t {
        TokenView::Bang => Some("!"@),
        _ => word_part(t),
    }
}

/// The word that is being joined, as a token; nothing if there is none.
pub open spec fn flushed(pending: Option<(Seq<char>, int)>) -> Seq<TokenView> {
    match pending {
        Some(p) => seq![TokenView::Word(p.0)],
        None => Seq::empty(),
    }
}

/// A token that starts at `start` goes on the word that is being joined:
/// there is such a word, and it ends where the token starts.
pub open spec fn joins(pending: Option<(Seq<char>, int)>, start: int) -> bool {
    match pending {
        Some(p) => p.1 == start,
        None => false,
    }
}

/// The text of the word that is being joined.
pub open spec fn joined_text(pending: Option<(Seq<char>, int)>) -> Seq<char> {
    match pending {
        Some(p) => p.0,
        None => Seq::empty(),
    }
}

/// The tokens `ts[i..]` with the words that stand side by side joined, where
/// `pending` is the word that is being joined and its end. Words and `=`
/// that follow each other without a gap make one word, and so does a `!`
/// that follows a word without a gap.
pub open spec fn merged(
    ts: Seq<(int, TokenView, int)>,
    i: int,
    pending: Option<(Seq<char>, int)>,
) -> Seq<TokenView>
    decreases ts.len() - i,
{
    if i >= ts.len() || i < 0 {
        flushed(pending)
    } else {
        if joins(pending, ts[i].0) && joining_part(ts[i].1) is Some {
            merged(ts, i + 1, Some((joined_text(pending) + joining_part(ts[i].1)->0, ts[i].2)))
        } else {
            match word_part(ts[i].1) {
                Some(text) => flushed(pending) + merged(ts, i + 1, Some((text, ts[i].2))),
                None => flushed(pending) + seq![ts[i].1] + merged(ts, i + 1, None),
            }
        }
    }
}

/// The content of the word that is being joined.
pub open spec fn pending_view(pending: Option<(String, usize)>) -> Option<(Seq<char>, int)> {
    match pending {
        Some(p) => Some((p.0@, p.1 as int)),
        None => None,
    }
}

/// Joins the words that stand side by side: see `merged`.
pub fn merge_words(spans: Vec<(usize, Token, usize)>) -> (r: Vec<Token>)
    ensures
        token_views(r@) == merged(span_views(spans@), 0, None),
{
    let ghost all = span_views(spans@);
    let mut out: Vec<Token> = Vec::new();
    let mut pending: Option<(String, usize)> = None;
    assert(token_views(out@) =~= Seq::<TokenView>::empty());
    assert(Seq::<TokenView>::empty() + merged(all, 0, None) =~= merged(all, 0, None));
    for item in it: spans
        invariant
            span_views(it.seq()) == all,
            token_views(out@) + merged(all, it.index() as int, pending_view(pending)) == merged(
                all,
                0,
                None,
            ),
    {
        let ghost i = it.index() as int;
        let ghost done = token_views(out@);
        let ghost pv = pending_view(pending);
        let (a, token, b) = item;
        proof {
            assert(all[i] == (a as int, token@, b as int));
        }
        let part = match &token {
            Token::Word(w) => Some(w.clone()),
            Token::Equals => Some("=".to_owned()),
            _ => None,
        };
        let adjacent = match &pending {
            Some(p) => p.1 == a,
            None => false,
        };
        let goes_on = match &token {
            Token::Bang => Some("!".to_owned()),
            _ => part.clone(),
        };
        if adjacent && goes_on.is_some() {
            let (mut word, _) = pending.unwrap();
            word.append(goes_on.unwrap().as_str());
            pending = Some((word, b));
        } else {
            match pending {
                Some(p) => {
                    out.push(Token::Word(p.0));
                },
                None => {},
            }
            match part {
                Some(text) => {
                    proof {
                        let next = merged(all, i + 1, Some((text@, b as int)));
                        assert(token_views(out@) =~= done + flushed(pv));
                        assert((done + flushed(pv)) + next =~= done + (flushed(pv) + next));
                    }
                    pending = Some((text, b));
                },
                None => {
                    let ghost tv = token@;
                    out.push(token);
                    proof {
                        let next = merged(all, i + 1, None);
                        assert(token_views(out@) =~= done + flushed(pv) + seq![tv]);
                        assert((done + flushed(pv) + seq![tv]) + next =~= done + (flushed(pv)
                            + seq![tv] + next));
                    }
                    pending = None;
                },
            }
        }
    }
    let ghost done = token_views(out@);
    match pending {
        Some(p) => {
            out.push(Token::Word(p.0));
            assert(token_views(out@) =~= done + seq![TokenView::Word(p.0@)]);
        },
        None => {
            assert(done + Seq::<TokenView>::empty() =~= done);
        },
    }
    out
}

/// What a command line parses to: the tokens of the lexer, with the words
/// that stand side by side joined, made a tree of.
pub open spec fn parsed_text(s: Seq<char>) -> Result<Seq<Seq<LinkView>>, ParseError> {
    match lex_all(s, 0) {
        Err(e) => Err(ParseError::Lexical(e)),
        Ok(spans) => parsed(merged(spans, 0, None)),
    }
}

/// Parses a command line: see `parsed_text`.
pub fn parse(input: &str) -> (r: Result<CompleteCommand, ParseError>)
    ensures
        match parsed_text(input@) {
            Ok(x) => r matches Ok(c) && complete_view(c) == x,
            Err(e) => r matches Err(f) && f == e,
        },
{
    match tokenize(input) {
        Err(e) => Err(ParseError::Lexical(e)),
        Ok(spans) => {
            let tokens = merge_words(spans);
            parse_tokens(&tokens)
        },
    }
}

} // verus!

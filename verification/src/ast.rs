//! The command tree that the executor walks, as the parser hands it over.

use crate::text::{
    char_is_whitespace, chars_of, is_whitespace, push_str, string_of_range, views,
};
use vstd::prelude::*;

verus! {

/// A whole command line.
#[derive(Debug)]
pub struct CompleteCommand {
    pub list: Option<List>,
}

/// The and-or lists of a command line, in order.
#[derive(Debug)]
pub struct List(pub Vec<AndOr>);

impl List {
    /// An empty list.
    pub fn new() -> (l: List)
        ensures
            l.0@.len() == 0,
    {
        List(Vec::new())
    }

    /// Appends an and-or list.
    pub fn push(&mut self, and_or: AndOr)
        ensures
            final(self).0@ == old(self).0@.push(and_or),
    {
        self.0.push(and_or);
    }

    /// The and-or lists, in order.
    pub fn iter(&self) -> (r: &Vec<AndOr>)
        ensures
            r == self.0,
    {
        &self.0
    }
}

/// The operator that joins a pipeline to the one before it.
#[derive(Debug, Clone, Copy, PartialEq, Eq, Structural)]
pub enum ConditionalExec {
    /// `&&`: run if the one before succeeded.
    And,
    /// `||`: run if the one before failed.
    Or,
}

/// A pipeline, and what comes before it in its and-or list.
#[derive(Debug)]
pub struct AndOr {
    pub and_or: Option<Box<AndOr>>,
    pub conditional_exec: Option<ConditionalExec>,
    pub pipeline: Pipeline,
}

/// Commands joined by `|`.
#[derive(Debug)]
pub struct Pipeline {
    pub bang: bool,
    pub pipe_sequence: PipeSequence,
    pub background: bool,
}

/// The stages of a pipeline, in order.
#[derive(Debug)]
pub struct PipeSequence(pub Vec<Command>);

impl PipeSequence {
    /// An empty sequence.
    pub fn new() -> (p: PipeSequence)
        ensures
            p.0@.len() == 0,
    {
        PipeSequence(Vec::new())
    }

    /// Appends a stage.
    pub fn push(&mut self, command: Command)
        ensures
            final(self).0@ == old(self).0@.push(command),
    {
        self.0.push(command);
    }

    /// The stages, in order.
    pub fn iter(&self) -> (r: &Vec<Command>)
        ensures
            r == self.0,
    {
        &self.0
    }
}

/// One stage of a pipeline.
#[derive(Debug)]
pub enum Command {
    SimpleCommand(SimpleCommand),
    CompoundCommand(CompoundCommand, Option<RedirectList>),
    FunctionDefinition(FunctionDefinition),
}

#[derive(Debug)]
pub enum CompoundCommand {
    BraceGroup(BraceGroup),
    SubShell(Subshell),
    ForClause(ForClause),
    CaseClause(CaseClause),
    IfClause(IfClause),
    WhileClause(WhileClause),
    UntilClause(UntilClause),
}

#[derive(Debug)]
pub struct Subshell {
    pub compound_list: CompoundList,
}

#[derive(Debug)]
pub struct CompoundList(pub Term);

#[derive(Debug)]
pub struct Term(pub Vec<AndOr>);

#[derive(Debug, Clone, PartialEq)]
pub enum ForType {
    ForClauseReg(ForClauseReg),
    ForClauseList(ForClauseList),
}

#[derive(Debug, Clone, PartialEq)]
pub struct ForClauseReg {
    pub name: String,
}

#[derive(Debug, Clone, PartialEq)]
pub struct ForClauseList {
    pub name: String,
    pub word_list: WordList,
}

#[derive(Debug)]
pub struct ForClause {
    pub for_type: ForType,
    pub do_group: DoGroup,
}

#[derive(Debug, Clone, PartialEq)]
pub struct WordList(pub Vec<String>);

#[derive(Debug)]
pub struct CaseClause {
    pub word: String,
    pub case_list: Option<CaseList>,
}

#[derive(Debug)]
pub struct CaseList(pub Vec<CaseItem>);

#[derive(Debug)]
pub struct CaseItem {
    pub pattern: Pattern,
    pub compound_list: Option<CompoundList>,
}

#[derive(Debug, Clone, PartialEq)]
pub struct Pattern(pub Vec<String>);

#[derive(Debug)]
pub struct IfClause {
    pub condition: CompoundList,
    pub then: CompoundList,
    pub else_part: Vec<ElsePart>,
}

#[derive(Debug)]
pub struct ElsePart {
    pub condition: Option<CompoundList>,
    pub then: CompoundList,
}

#[derive(Debug)]
pub struct WhileClause {
    pub condition: CompoundList,
    pub do_group: DoGroup,
}

#[derive(Debug)]
pub struct UntilClause {
    pub condition: CompoundList,
    pub do_group: DoGroup,
}

/// A function definition: a name and the body bound to it.
#[derive(Debug)]
pub struct FunctionDefinition {
    pub name: String,
    pub function_body: FunctionBody,
}

/// The body of a function: a compound command and its redirections.
#[derive(Debug)]
pub struct FunctionBody {
    pub compound_command: CompoundCommand,
    pub redirect_list: Option<RedirectList>,
}

#[derive(Debug)]
pub struct BraceGroup(pub CompoundList);

#[derive(Debug)]
pub struct DoGroup(pub CompoundList);

/// A simple command: assignments and redirections before the name, the name,
/// and words and redirections after it.
#[derive(Debug, Clone, PartialEq)]
pub struct SimpleCommand {
    pub prefix: Option<Prefix>,
    pub name: String,
    pub suffix: Option<Suffix>,
}

#[derive(Debug, Clone, PartialEq)]
pub struct Prefix {
    pub io_redirect: Vec<IoRedirect>,
    pub assignment: Vec<String>,
}

#[derive(Debug, Clone, PartialEq)]
pub struct Suffix {
    pub io_redirect: Vec<IoRedirect>,
    pub word: Vec<String>,
}

#[derive(Debug, Clone, PartialEq)]
pub struct RedirectList(pub Vec<IoRedirect>);

/// One redirection: an optional file descriptor, and a file or a here-document.
#[derive(Debug, Clone, PartialEq)]
pub struct IoRedirect {
    pub io_number: Option<i32>,
    pub io_file: Option<IoFile>,
    pub io_here: Option<IoHere>,
}

/// The kinds of redirection to a file.
#[derive(Debug, Clone, Copy, PartialEq, Eq, Structural)]
pub enum RedirectType {
    /// `<`
    Input,
    /// `>`
    Output,
    /// `>>`
    Append,
    /// `>|`
    Clobber,
}

#[derive(Debug, Clone, PartialEq)]
pub struct IoFile {
    pub redirect_type: RedirectType,
    pub filename: String,
}

#[derive(Debug, Clone, PartialEq)]
pub struct IoHere {
    pub here: String,
}

#[derive(Debug, Clone, PartialEq)]
pub struct NewlineList {
    pub list: Vec<String>,
}

/// The words after the name of a command.
pub open spec fn suffix_words(c: SimpleCommand) -> Seq<Seq<char>> {
    match c.suffix {
        Some(s) => views(s.word@),
        None => Seq::empty(),
    }
}

/// The argument vector of a command: its name, then the words after it.
pub open spec fn spec_argv(c: SimpleCommand) -> Seq<Seq<char>> {
    seq![c.name@] + suffix_words(c)
}

/// The words of `ws[from..]`, each preceded by a blank.
pub open spec fn blank_joined(ws: Seq<Seq<char>>, from: int) -> Seq<char>
    decreases ws.len() - from,
{
    if from >= ws.len() {
        Seq::empty()
    } else {
        " "@ + ws[from] + blank_joined(ws, from + 1)
    }
}

/// The command line of a command: its argument vector joined by blanks.
pub open spec fn spec_cmd(c: SimpleCommand) -> Seq<char> {
    c.name@ + blank_joined(suffix_words(c), 0)
}

impl SimpleCommand {
    /// The argument vector: the name, then the words after it.
    pub fn argv(&self) -> (r: Vec<String>)
        ensures
            views(r@) == spec_argv(*self),
    {
        let mut out: Vec<String> = Vec::new();
        out.push(self.name.clone());
        assert(views(out@) =~= seq![self.name@]);
        match &self.suffix {
            Some(s) => {
                let mut i: usize = 0;
                while i < s.word.len()
                    invariant
                        i <= s.word.len(),
                        views(out@) == seq![self.name@] + views(s.word@).subrange(0, i as int),
                    decreases s.word.len() - i,
                {
                    let ghost before = views(out@);
                    out.push(s.word[i].clone());
                    assert(views(out@) =~= before.push(s.word@[i as int]@));
                    assert(views(s.word@).subrange(0, i as int + 1) =~= views(s.word@).subrange(
                        0,
                        i as int,
                    ).push(s.word@[i as int]@));
                    i += 1;
                }
                assert(views(s.word@).subrange(0, s.word.len() as int) == views(s.word@));
            },
            None => {
                assert(views(out@) == seq![self.name@] + Seq::<Seq<char>>::empty());
            },
        }
        out
    }

    /// The command line, for listings: the argument vector joined by blanks.
    pub fn cmd(&self) -> (r: String)
        ensures
            r@ == spec_cmd(*self),
    {
        let mut tail = String::new();
        match &self.suffix {
            Some(s) => {
                let mut i: usize = s.word.len();
                while i > 0
                    invariant
                        i <= s.word.len(),
                        tail@ == blank_joined(views(s.word@), i as int),
                    decreases i,
                {
                    i -= 1;
                    let mut piece = String::new();
                    push_str(&mut piece, " ");
                    push_str(&mut piece, s.word[i].as_str());
                    push_str(&mut piece, tail.as_str());
                    tail = piece;
                }
            },
            None => {},
        }
        let mut out = self.name.clone();
        push_str(&mut out, tail.as_str());
        out
    }

    /// The prefix and the suffix of the command.
    pub fn prefix_suffix(&self) -> (r: (Option<&Prefix>, Option<&Suffix>))
        ensures
            r.0 is Some <==> self.prefix is Some,
            r.1 is Some <==> self.suffix is Some,
            r.0 matches Some(p) ==> self.prefix == Some(*p),
            r.1 matches Some(s) ==> self.suffix == Some(*s),
    {
        (self.prefix.as_ref(), self.suffix.as_ref())
    }
}

/// How far the scan of a text for its pieces is inside quotes.
#[derive(Debug, Clone, Copy, PartialEq, Eq, Structural)]
pub enum QuoteType {
    Unquoted,
    Single,
    Double,
}

/// The pieces of `s[i..]` split at white space outside quotes, where the piece
/// being read started at `start` and the scan is in quote state `q`. Every
/// white space character outside quotes ends a piece, an empty one too; what
/// is left at the end is a piece unless it is empty.
pub open spec fn pieces_from(s: Seq<char>, i: int, start: int, q: QuoteType) -> Seq<Seq<char>>
    decreases s.len() - i,
{
    if i >= s.len() {
        if start < s.len() {
            seq![s.subrange(start, s.len() as int)]
        } else {
            Seq::empty()
        }
    } else {
        match q {
            QuoteType::Unquoted => if s[i] == '\'' {
                pieces_from(s, i + 1, start, QuoteType::Single)
            } else if s[i] == '"' {
                pieces_from(s, i + 1, start, QuoteType::Double)
            } else if is_whitespace(s[i]) {
                seq![s.subrange(start, i)] + pieces_from(s, i + 1, i + 1, QuoteType::Unquoted)
            } else {
                pieces_from(s, i + 1, start, QuoteType::Unquoted)
            },
            QuoteType::Single => pieces_from(
                s,
                i + 1,
                start,
                if s[i] == '\'' {
                    QuoteType::Unquoted
                } else {
                    QuoteType::Single
                },
            ),
            QuoteType::Double => pieces_from(
                s,
                i + 1,
                start,
                if s[i] == '"' {
                    QuoteType::Unquoted
                } else {
                    QuoteType::Double
                },
            ),
        }
    }
}

/// Splitting a text at the white space that stands outside quotes.
pub trait SplitWhitespaceIgnoringQuotes {
    /// The pieces that the split gives.
    spec fn spec_split(&self) -> Seq<Seq<char>>;

    /// The pieces of the text between white space outside single and double
    /// quotes. Quotes stay in the pieces.
    fn split_whitespace_ig_qts(&self) -> (r: Vec<String>)
        ensures
            views(r@) == self.spec_split(),
    ;
}

impl SplitWhitespaceIgnoringQuotes for str {
    open spec fn spec_split(&self) -> Seq<Seq<char>> {
        pieces_from(self@, 0, 0, QuoteType::Unquoted)
    }

    fn split_whitespace_ig_qts(&self) -> (r: Vec<String>) {
        let v = chars_of(self);
        let n = v.len();
        let mut quote_type = QuoteType::Unquoted;
        let mut start: usize = 0;
        let mut splits: Vec<String> = Vec::new();
        let mut i: usize = 0;
        while i < n
            invariant
                start <= i <= n == v.len(),
                v@ == self@,
                views(splits@) + pieces_from(v@, i as int, start as int, quote_type)
                    == pieces_from(v@, 0, 0, QuoteType::Unquoted),
            decreases n - i,
        {
            let c = v[i];
            let ghost before = views(splits@);
            match quote_type {
                QuoteType::Unquoted => {
                    if c == '\'' {
                        quote_type = QuoteType::Single;
                    } else if c == '"' {
                        quote_type = QuoteType::Double;
                    } else if char_is_whitespace(c) {
                        let ghost rest = pieces_from(v@, i as int + 1, i as int + 1, QuoteType::Unquoted);
                        let piece = string_of_range(&v, start, i);
                        splits.push(piece);
                        assert(views(splits@) == before + seq![v@.subrange(start as int, i as int)]);
                        assert((before + seq![v@.subrange(start as int, i as int)]) + rest == before
                            + (seq![v@.subrange(start as int, i as int)] + rest));
                        start = i + 1;
                    }
                },
                QuoteType::Single => {
                    if c == '\'' {
                        quote_type = QuoteType::Unquoted;
                    }
                },
                QuoteType::Double => {
                    if c == '"' {
                        quote_type = QuoteType::Unquoted;
                    }
                },
            }
            i += 1;
        }
        if start < n {
            let ghost before = views(splits@);
            splits.push(string_of_range(&v, start, n));
            assert(views(splits@) == before + seq![v@.subrange(start as int, n as int)]);
        } else {
            assert(views(splits@) + Seq::<Seq<char>>::empty() == views(splits@));
        }
        splits
    }
}

} // verus!

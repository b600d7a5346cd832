//! The lexer: it cuts a command line into tokens, each with the positions
//! where it starts and ends. Positions count characters.

use crate::text::{
    char_is_whitespace, chars_of, is_whitespace, parse_i32, parse_int, string_of_range,
};
use vstd::prelude::*;

verus! {

/// A lexer error.
#[derive(Debug, Clone, Copy, PartialEq, Eq, Structural)]
pub enum Error {
    /// A character that starts no token, with its start and end.
    UnrecognizedChar(usize, char, usize),
}

impl Error {
    /// The text that tells of the error.
    pub fn to_string(&self) -> (r: String)
        ensures
            r@ == self.spec_text(),
    {
        match self {
            Error::UnrecognizedChar(start, chr, _end) => {
                let mut out = String::new();
                crate::text::push_str(&mut out, "Unrecognized character '");
                out.push(*chr);
                crate::text::push_str(&mut out, "' at position ");
                crate::text::push_decimal(&mut out, *start as u64);
                proof {
                    reveal_strlit("Unrecognized character '");
                    reveal_strlit("' at position ");
                }
                assert(out@ =~= self.spec_text());
                out
            },
        }
    }

    /// The text that tells of the error.
    pub open spec fn spec_text(self) -> Seq<char> {
        match self {
            Error::UnrecognizedChar(start, chr, _end) => "Unrecognized character '"@ + seq![chr]
                + "' at position "@ + crate::text::decimal(start as nat),
        }
    }
}

/// A token.
#[derive(Debug, Clone, PartialEq)]
pub enum Token {
    Space,
    Tab,
    Newline,
    NewlineList,
    Comment,
    SemiColon,
    Pipe,
    BackTick,
    Dollar,
    OpenParen,
    CloseParen,
    OpenBrace,
    CloseBrace,
    Greater,
    Less,
    DoubleGreater,
    DoubleLess,
    GreaterAnd,
    LessAnd,
    Ampersand,
    Equals,
    And,
    Or,
    Bang,
    For,
    In,
    While,
    Until,
    If,
    Then,
    Else,
    Elif,
    Fi,
    Do,
    Done,
    Case,
    Esac,
    EOF,
    Subshell(String),
    Number(i32),
    Word(String),
}

/// The mathematical content of a token.
pub enum TokenView {
    Space,
    Tab,
    Newline,
    NewlineList,
    Comment,
    SemiColon,
    Pipe,
    BackTick,
    Dollar,
    OpenParen,
    CloseParen,
    OpenBrace,
    CloseBrace,
    Greater,
    Less,
    DoubleGreater,
    DoubleLess,
    GreaterAnd,
    LessAnd,
    Ampersand,
    Equals,
    And,
    Or,
    Bang,
    For,
    In,
    While,
    Until,
    If,
    Then,
    Else,
    Elif,
    Fi,
    Do,
    Done,
    Case,
    Esac,
    EOF,
    Subshell(Seq<char>),
    Number(i32),
    Word(Seq<char>),
}

impl View for Token {
    type V = TokenView;

    open spec fn view(&self) -> TokenView {
        match self {
            Token::Space => TokenView::Space,
            Token::Tab => TokenView::Tab,
            Token::Newline => TokenView::Newline,
            Token::NewlineList => TokenView::NewlineList,
            Token::Comment => TokenView::Comment,
            Token::SemiColon => TokenView::SemiColon,
            Token::Pipe => TokenView::Pipe,
            Token::BackTick => TokenView::BackTick,
            Token::Dollar => TokenView::Dollar,
            Token::OpenParen => TokenView::OpenParen,
            Token::CloseParen => TokenView::CloseParen,
            Token::OpenBrace => TokenView::OpenBrace,
            Token::CloseBrace => TokenView::CloseBrace,
            Token::Greater => TokenView::Greater,
            Token::Less => TokenView::Less,
            Token::DoubleGreater => TokenView::DoubleGreater,
            Token::DoubleLess => TokenView::DoubleLess,
            Token::GreaterAnd => TokenView::GreaterAnd,
            Token::LessAnd => TokenView::LessAnd,
            Token::Ampersand => TokenView::Ampersand,
            Token::Equals => TokenView::Equals,
            Token::And => TokenView::And,
            Token::Or => TokenView::Or,
            Token::Bang => TokenView::Bang,
            Token::For => TokenView::For,
            Token::In => TokenView::In,
            Token::While => TokenView::While,
            Token::Until => TokenView::Until,
            Token::If => TokenView::If,
            Token::Then => TokenView::Then,
            Token::Else => TokenView::Else,
            Token::Elif => TokenView::Elif,
            Token::Fi => TokenView::Fi,
            Token::Do => TokenView::Do,
            Token::Done => TokenView::Done,
            Token::Case => TokenView::Case,
            Token::Esac => TokenView::Esac,
            Token::EOF => TokenView::EOF,
            Token::Subshell(s) => TokenView::Subshell(s@),
            Token::Number(n) => TokenView::Number(*n),
            Token::Word(s) => TokenView::Word(s@),
        }
    }
}

impl Token {
    /// The name of the token, with its content in parentheses where it has
    /// one.
    pub fn to_string(&self) -> (r: String)
        ensures
            r@ == self@.name(),
    {
        let mut out = String::new();
        match self {
            Token::Space => crate::text::push_str(&mut out, "Space"),
            Token::Tab => crate::text::push_str(&mut out, "Tab"),
            Token::Newline => crate::text::push_str(&mut out, "Newline"),
            Token::NewlineList => crate::text::push_str(&mut out, "NewlineList"),
            Token::Comment => crate::text::push_str(&mut out, "Comment"),
            Token::SemiColon => crate::text::push_str(&mut out, "SemiColon"),
            Token::Pipe => crate::text::push_str(&mut out, "Pipe"),
            Token::BackTick => crate::text::push_str(&mut out, "BackTick"),
            Token::Dollar => crate::text::push_str(&mut out, "Dollar"),
            Token::OpenParen => crate::text::push_str(&mut out, "OpenParen"),
            Token::CloseParen => crate::text::push_str(&mut out, "CloseParen"),
            Token::OpenBrace => crate::text::push_str(&mut out, "OpenBrace"),
            Token::CloseBrace => crate::text::push_str(&mut out, "CloseBrace"),
            Token::Greater => crate::text::push_str(&mut out, "Greater"),
            Token::Less => crate::text::push_str(&mut out, "Less"),
            Token::DoubleGreater => crate::text::push_str(&mut out, "DoubleGreater"),
            Token::DoubleLess => crate::text::push_str(&mut out, "DoubleLess"),
            Token::GreaterAnd => crate::text::push_str(&mut out, "GreaterAnd"),
            Token::LessAnd => crate::text::push_str(&mut out, "LessAnd"),
            Token::Ampersand => crate::text::push_str(&mut out, "Ampersand"),
            Token::Equals => crate::text::push_str(&mut out, "Equals"),
            Token::And => crate::text::push_str(&mut out, "And"),
            Token::Or => crate::text::push_str(&mut out, "Or"),
            Token::Bang => crate::text::push_str(&mut out, "Bang"),
            Token::For => crate::text::push_str(&mut out, "For"),
            Token::In => crate::text::push_str(&mut out, "In"),
            Token::While => crate::text::push_str(&mut out, "While"),
            Token::Until => crate::text::push_str(&mut out, "Until"),
            Token::If => crate::text::push_str(&mut out, "If"),
            Token::Then => crate::text::push_str(&mut out, "Then"),
            Token::Else => crate::text::push_str(&mut out, "Else"),
            Token::Elif => crate::text::push_str(&mut out, "Elif"),
            Token::Fi => crate::text::push_str(&mut out, "Fi"),
            Token::Do => crate::text::push_str(&mut out, "Do"),
            Token::Done => crate::text::push_str(&mut out, "Done"),
            Token::Case => crate::text::push_str(&mut out, "Case"),
            Token::Esac => crate::text::push_str(&mut out, "Esac"),
            Token::EOF => crate::text::push_str(&mut out, "EOF"),
            Token::Subshell(s) => {
                crate::text::push_str(&mut out, "Subshell(");
                crate::text::push_str(&mut out, s.as_str());
                crate::text::push_str(&mut out, ")");
            },
            Token::Number(n) => {
                crate::text::push_str(&mut out, "Number(");
                crate::text::push_signed_decimal(&mut out, *n as i64);
                crate::text::push_str(&mut out, ")");
            },
            Token::Word(s) => {
                crate::text::push_str(&mut out, "Word(");
                crate::text::push_str(&mut out, s.as_str());
                crate::text::push_str(&mut out, ")");
            },
        }
        assert(out@ =~= self@.name());
        out
    }
}

impl TokenView {
    /// The name of the token, with its content in parentheses where it has
    /// one.
    pub open spec fn name(self) -> Seq<char> {
        match self {
            TokenView::Space => "Space"@,
            TokenView::Tab => "Tab"@,
            TokenView::Newline => "Newline"@,
            TokenView::NewlineList => "NewlineList"@,
            TokenView::Comment => "Comment"@,
            TokenView::SemiColon => "SemiColon"@,
            TokenView::Pipe => "Pipe"@,
            TokenView::BackTick => "BackTick"@,
            TokenView::Dollar => "Dollar"@,
            TokenView::OpenParen => "OpenParen"@,
            TokenView::CloseParen => "CloseParen"@,
            TokenView::OpenBrace => "OpenBrace"@,
            TokenView::CloseBrace => "CloseBrace"@,
            TokenView::Greater => "Greater"@,
            TokenView::Less => "Less"@,
            TokenView::DoubleGreater => "DoubleGreater"@,
            TokenView::DoubleLess => "DoubleLess"@,
            TokenView::GreaterAnd => "GreaterAnd"@,
            TokenView::LessAnd => "LessAnd"@,
            TokenView::Ampersand => "Ampersand"@,
            TokenView::Equals => "Equals"@,
            TokenView::And => "And"@,
            TokenView::Or => "Or"@,
            TokenView::Bang => "Bang"@,
            TokenView::For => "For"@,
            TokenView::In => "In"@,
            TokenView::While => "While"@,
            TokenView::Until => "Until"@,
            TokenView::If => "If"@,
            TokenView::Then => "Then"@,
            TokenView::Else => "Else"@,
            TokenView::Elif => "Elif"@,
            TokenView::Fi => "Fi"@,
            TokenView::Do => "Do"@,
            TokenView::Done => "Done"@,
            TokenView::Case => "Case"@,
            TokenView::Esac => "Esac"@,
            TokenView::EOF => "EOF"@,
            TokenView::Subshell(s) => "Subshell("@ + s + ")"@,
            TokenView::Number(n) => "Number("@ + crate::text::signed_decimal(n as int) + ")"@,
            TokenView::Word(s) => "Word("@ + s + ")"@,
        }
    }
}

/// The characters that can go on a word: any character
/// but white space and the characters that mean something to the shell.
pub open spec fn word_continue(chr: char) -> bool {
    !(chr == ';' || chr == '&' || chr == '|' || chr == '(' || chr == ')' || chr == '{' || chr
        == '}' || chr == '<' || chr == '>' || chr == '!' || chr == '$' || chr == '`' || chr == '*'
        || chr == '=') && !is_whitespace(chr)
}

/// The characters that can start a word: a letter, a
/// digit, an underscore, a quote, or any character that can go on a word.
pub open spec fn word_start(chr: char) -> bool {
    ('a' <= chr <= 'z') || ('A' <= chr <= 'Z') || chr == '_' || ('0' <= chr <= '9') || chr == '"'
        || chr == '\'' || word_continue(chr)
}

/// Tells whether a character can start a word.
pub fn is_word_start(chr: char) -> (r: bool)
    ensures
        r == word_start(chr),
{
    ('a' <= chr && chr <= 'z') || ('A' <= chr && chr <= 'Z') || chr == '_' || ('0' <= chr && chr
        <= '9') || chr == '"' || chr == '\'' || is_word_continue(chr)
}

/// Tells whether a character can go on a word.
pub fn is_word_continue(chr: char) -> (r: bool)
    ensures
        r == word_continue(chr),
{
    match chr {
        ';' | '&' | '|' | '(' | ')' | '{' | '}' | '<' | '>' | '!' | '$' | '`' | '*' | '=' => false,
        _ => !char_is_whitespace(chr),
    }
}

/// What a scan of the lexer stops at.
#[derive(Debug, Clone, Copy, PartialEq, Eq, Structural)]
pub enum Stop {
    /// This character.
    At(char),
    /// A character that cannot go on a word.
    WordEnd,
}

impl Stop {
    /// The characters at which the scan stops.
    pub open spec fn hits(self, c: char) -> bool {
        match self {
            Stop::At(x) => c == x,
            Stop::WordEnd => !word_continue(c),
        }
    }

    /// Tells whether the scan stops at `c`.
    pub fn stops(self, c: char) -> (r: bool)
        ensures
            r == self.hits(c),
    {
        match self {
            Stop::At(x) => c == x,
            Stop::WordEnd => !is_word_continue(c),
        }
    }
}

/// The first position at or after `from` where the scan stops; the length of
/// `s` when it stops nowhere.
pub open spec fn stop_pos(s: Seq<char>, stop: Stop, from: int) -> int
    decreases s.len() - from,
{
    if from >= s.len() {
        s.len() as int
    } else if stop.hits(s[from]) {
        from
    } else {
        stop_pos(s, stop, from + 1)
    }
}

/// Bounds of `stop_pos`.
pub proof fn lemma_stop_pos(s: Seq<char>, stop: Stop, from: int)
    requires
        0 <= from <= s.len(),
    ensures
        from <= stop_pos(s, stop, from) <= s.len(),
    decreases s.len() - from,
{
    if from < s.len() && !stop.hits(s[from]) {
        lemma_stop_pos(s, stop, from + 1);
    }
}

/// The position after the character where the scan stops; the length of `s`
/// when it stops nowhere.
pub open spec fn stop_after(s: Seq<char>, stop: Stop, from: int) -> int {
    if stop_pos(s, stop, from) < s.len() {
        stop_pos(s, stop, from) + 1
    } else {
        s.len() as int
    }
}

/// The token that a word stands for: a reserved word, a number if it is one
/// and a redirection operator follows, else a word.
pub open spec fn word_token(text: Seq<char>, follow: Option<char>) -> TokenView {
    if text == "for"@ {
        TokenView::For
    }     else if text == "in"@ {
        TokenView::In
    }     else if text == "while"@ {
        TokenView::While
    }     else if text == "if"@ {
        TokenView::If
    }     else if text == "then"@ {
        TokenView::Then
    }     else if text == "else"@ {
        TokenView::Else
    }     else if text == "elif"@ {
        TokenView::Elif
    }     else if text == "fi"@ {
        TokenView::Fi
    }     else if text == "do"@ {
        TokenView::Do
    }     else if text == "done"@ {
        TokenView::Done
    }     else if text == "case"@ {
        TokenView::Case
    }     else if text == "esac"@ {
        TokenView::Esac
    } else if (follow == Some('<') || follow == Some('>')) && parse_int(text) is Some {
        TokenView::Number(parse_int(text)->0 as i32)
    } else {
        TokenView::Word(text)
    }
}

/// What one step of the lexer gives: a token with its start and end, or an
/// error, or nothing at the end of the input; and the position where the
/// next step starts.
pub struct LexStep {
    pub item: Option<Result<(int, TokenView, int), Error>>,
    pub pos: int,
}

/// The character of `s` at `i`, if there is one.
pub open spec fn peek(s: Seq<char>, i: int) -> Option<char> {
    if 0 <= i < s.len() {
        Some(s[i])
    } else {
        None
    }
}

/// A token of one character at `pos`.
pub open spec fn single(t: TokenView, pos: int) -> LexStep {
    LexStep { item: Some(Ok((pos, t, pos + 1))), pos: pos + 1 }
}

/// A token at `pos` that is `short` alone and `long` where `second` follows.
/// The end of the token is the end of its first character in both cases.
pub open spec fn one_or_two(
    s: Seq<char>,
    pos: int,
    second: char,
    long: TokenView,
    short: TokenView,
) -> LexStep {
    if peek(s, pos + 1) == Some(second) {
        LexStep { item: Some(Ok((pos, long, pos + 1))), pos: pos + 2 }
    } else {
        single(short, pos)
    }
}

/// A word from `pos` up to `end`.
pub open spec fn word_step(s: Seq<char>, pos: int, end: int) -> LexStep {
    LexStep {
        item: Some(Ok((pos, word_token(s.subrange(pos, end), peek(s, end)), end))),
        pos: end,
    }
}

/// A word from `pos` up to `end`, whatever it spells.
pub open spec fn quoted_step(s: Seq<char>, pos: int, end: int) -> LexStep {
    LexStep { item: Some(Ok((pos, TokenView::Word(s.subrange(pos, end)), end))), pos: end }
}

/// The step of the lexer at position `pos` of `s`. White space and comments
/// are skipped. Line feeds in a row give one token. `|`, `&`, `<` and `>`
/// give a token of two characters where the second one fits. A text in
/// quotes, in backticks or in `$(` and `)` gives a word with its delimiters;
/// where it is not closed the word runs to the end. `$` before `{` is a
/// token of its own. Any other character that can start a word starts one,
/// which runs while characters can go on a word.
pub open spec fn lex(s: Seq<char>, pos: int) -> LexStep
    decreases s.len() - pos,
{
    if pos >= s.len() || pos < 0 {
        LexStep { item: None, pos: pos }
    } else {
        let c = s[pos];
        if c == '\n' {
            LexStep {
                item: Some(Ok((pos, TokenView::NewlineList, pos + 1))),
                pos: newline_end(s, pos + 1),
            }
        } else if c == '|' {
            one_or_two(s, pos, '|', TokenView::Or, TokenView::Pipe)
        } else if c == '&' {
            one_or_two(s, pos, '&', TokenView::And, TokenView::Ampersand)
        } else if c == '>' {
            if peek(s, pos + 1) == Some('&') {
                LexStep { item: Some(Ok((pos, TokenView::GreaterAnd, pos + 1))), pos: pos + 2 }
            } else {
                one_or_two(s, pos, '>', TokenView::DoubleGreater, TokenView::Greater)
            }
        } else if c == '<' {
            if peek(s, pos + 1) == Some('&') {
                LexStep { item: Some(Ok((pos, TokenView::LessAnd, pos + 1))), pos: pos + 2 }
            } else {
                one_or_two(s, pos, '<', TokenView::DoubleLess, TokenView::Less)
            }
        } else if c == '`' {
            quoted_step(s, pos, stop_after(s, Stop::At('`'), pos + 1))
        } else if c == '"' {
            quoted_step(s, pos, stop_after(s, Stop::At('"'), pos + 1))
        } else if c == '\'' {
            quoted_step(s, pos, stop_after(s, Stop::At('\''), pos + 1))
        } else if c == '$' {
            if peek(s, pos + 1) == Some('(') {
                quoted_step(s, pos, stop_after(s, Stop::At(')'), pos + 1))
            } else if peek(s, pos + 1) == Some('{') {
                single(TokenView::Dollar, pos)
            } else {
                word_step(s, pos, stop_pos(s, Stop::WordEnd, pos + 1))
            }
        } else if c == '#' {
            if pos < stop_pos(s, Stop::At('\n'), pos + 1) <= s.len() {
                lex(s, stop_pos(s, Stop::At('\n'), pos + 1))
            } else {
                LexStep { item: None, pos: pos }
            }
        } else if c == ';' {
            single(TokenView::SemiColon, pos)
        } else if c == '(' {
            single(TokenView::OpenParen, pos)
        } else if c == ')' {
            single(TokenView::CloseParen, pos)
        } else if c == '{' {
            single(TokenView::OpenBrace, pos)
        } else if c == '}' {
            single(TokenView::CloseBrace, pos)
        } else if c == '=' {
            single(TokenView::Equals, pos)
        } else if c == '!' {
            single(TokenView::Bang, pos)
        } else if word_start(c) {
            word_step(s, pos, stop_pos(s, Stop::WordEnd, pos + 1))
        } else if is_whitespace(c) {
            lex(s, pos + 1)
        } else {
            LexStep { item: Some(Err(Error::UnrecognizedChar(pos as usize, c, (pos + 1) as usize))), pos: pos + 1 }
        }
    }
}

/// The first position at or after `from` that holds no line feed.
pub open spec fn newline_end(s: Seq<char>, from: int) -> int
    decreases s.len() - from,
{
    if from >= s.len() {
        s.len() as int
    } else if s[from] == '\n' {
        newline_end(s, from + 1)
    } else {
        from
    }
}

/// The lexer: the input, how far it was read, and whether the end was told.
pub struct Lexer {
    send_eof: bool,
    input: Vec<char>,
    pos: usize,
}

/// The mathematical content of a lexer.
pub struct LexerView {
    pub input: Seq<char>,
    pub pos: int,
    pub send_eof: bool,
}

impl View for Lexer {
    type V = LexerView;

    closed spec fn view(&self) -> LexerView {
        LexerView { input: self.input@, pos: self.pos as int, send_eof: self.send_eof }
    }
}

impl Lexer {
    /// The lexer never reads beyond its input.
    pub closed spec fn wf(&self) -> bool {
        self.pos <= self.input@.len()
    }

    /// A lexer at the start of `input`.
    pub fn new(input: &str) -> (l: Lexer)
        ensures
            l.wf(),
            l@ == (LexerView { input: input@, pos: 0, send_eof: false }),
    {
        Lexer { send_eof: false, input: chars_of(input), pos: 0 }
    }

    /// The position of the character that is read next.
    pub fn position(&self) -> (r: usize)
        ensures
            r == self@.pos,
    {
        self.pos
    }

    /// The lexer never reads beyond its input.
    pub proof fn lemma_within(&self)
        requires
            self.wf(),
        ensures
            0 <= self@.pos <= self@.input.len(),
    {
    }

    /// The character that is read next, with its start and end.
    pub fn lookahead(&self) -> (r: Option<(usize, char, usize)>)
        requires
            self.wf(),
        ensures
            r == (if self@.pos < self@.input.len() {
                Some((self@.pos as usize, self@.input[self@.pos], (self@.pos + 1) as usize))
            } else {
                None
            }),
    {
        if self.pos < self.input.len() {
            Some((self.pos, self.input[self.pos], self.pos + 1))
        } else {
            None
        }
    }

    /// Reads one character: gives it with its start and end, and goes on to
    /// the next one. At the end of the input there is none.
    pub fn advance(&mut self) -> (r: Option<(usize, char, usize)>)
        requires
            old(self).wf(),
        ensures
            final(self).wf(),
            old(self)@.pos < old(self)@.input.len() ==> r == Some(
                (
                    old(self)@.pos as usize,
                    old(self)@.input[old(self)@.pos],
                    (old(self)@.pos + 1) as usize,
                ),
            ) && final(self)@ == (LexerView { pos: old(self)@.pos + 1, ..old(self)@ }),
            old(self)@.pos >= old(self)@.input.len() ==> r is None && final(self)@ == old(self)@,
    {
        if self.pos < self.input.len() {
            let c = self.input[self.pos];
            let start = self.pos;
            self.pos += 1;
            Some((start, c, start + 1))
        } else {
            None
        }
    }

    /// Reads on until the scan stops, and leaves the character it stops at
    /// unread. Gives the text from `start` to the end of what was read, and
    /// that end.
    pub fn take_until(&mut self, start: usize, end: usize, stop: Stop) -> (r: (String, usize))
        requires
            old(self).wf(),
            start <= end == old(self)@.pos,
        ensures
            final(self).wf(),
            r.1 == stop_pos(old(self)@.input, stop, end as int),
            r.0@ == old(self)@.input.subrange(start as int, r.1 as int),
            final(self)@ == (LexerView { pos: r.1 as int, ..old(self)@ }),
    {
        proof {
            lemma_stop_pos(self.input@, stop, end as int);
        }
        while self.pos < self.input.len() && !stop.stops(self.input[self.pos])
            invariant
                end <= self.pos <= self.input@.len(),
                self.input == old(self).input,
                self.send_eof == old(self).send_eof,
                stop_pos(self.input@, stop, end as int) == stop_pos(
                    self.input@,
                    stop,
                    self.pos as int,
                ),
            decreases self.input@.len() - self.pos,
        {
            self.pos += 1;
        }
        (string_of_range(&self.input, start, self.pos), self.pos)
    }

    /// Reads on until the scan stops, and reads the character it stops at
    /// too. Gives the text from `start` to the end of what was read, and that
    /// end.
    pub fn take_until_alt(&mut self, start: usize, end: usize, stop: Stop) -> (r: (String, usize))
        requires
            old(self).wf(),
            start <= end == old(self)@.pos,
        ensures
            final(self).wf(),
            r.1 == stop_after(old(self)@.input, stop, end as int),
            r.0@ == old(self)@.input.subrange(start as int, r.1 as int),
            final(self)@ == (LexerView { pos: r.1 as int, ..old(self)@ }),
    {
        proof {
            lemma_stop_pos(self.input@, stop, end as int);
        }
        let (_, _) = self.take_until(start, end, stop);
        if self.pos < self.input.len() {
            self.pos += 1;
        }
        (string_of_range(&self.input, start, self.pos), self.pos)
    }

    /// Reads on until the scan stops, as `take_until` does.
    pub fn take_until_seen_twice(&mut self, start: usize, end: usize, stop: Stop) -> (r: (
        String,
        usize,
    ))
        requires
            old(self).wf(),
            start <= end == old(self)@.pos,
        ensures
            final(self).wf(),
            r.1 == stop_pos(old(self)@.input, stop, end as int),
            r.0@ == old(self)@.input.subrange(start as int, r.1 as int),
            final(self)@ == (LexerView { pos: r.1 as int, ..old(self)@ }),
    {
        self.take_until(start, end, stop)
    }

    /// Reads on while characters can go on a word.
    pub fn take_while(&mut self, start: usize, end: usize) -> (r: (String, usize))
        requires
            old(self).wf(),
            start <= end == old(self)@.pos,
        ensures
            final(self).wf(),
            r.1 == stop_pos(old(self)@.input, Stop::WordEnd, end as int),
            r.0@ == old(self)@.input.subrange(start as int, r.1 as int),
            final(self)@ == (LexerView { pos: r.1 as int, ..old(self)@ }),
    {
        self.take_until(start, end, Stop::WordEnd)
    }

    /// The token that a word stands for: see `word_token`.
    fn num_or_word(&self, word: String) -> (t: Token)
        requires
            self.wf(),
        ensures
            t@ == word_token(word@, peek(self@.input, self@.pos)),
    {
        let w = word.as_str();
        if crate::text::str_eq(w, "for") {
            return Token::For;
        }
        if crate::text::str_eq(w, "in") {
            return Token::In;
        }
        if crate::text::str_eq(w, "while") {
            return Token::While;
        }
        if crate::text::str_eq(w, "if") {
            return Token::If;
        }
        if crate::text::str_eq(w, "then") {
            return Token::Then;
        }
        if crate::text::str_eq(w, "else") {
            return Token::Else;
        }
        if crate::text::str_eq(w, "elif") {
            return Token::Elif;
        }
        if crate::text::str_eq(w, "fi") {
            return Token::Fi;
        }
        if crate::text::str_eq(w, "do") {
            return Token::Do;
        }
        if crate::text::str_eq(w, "done") {
            return Token::Done;
        }
        if crate::text::str_eq(w, "case") {
            return Token::Case;
        }
        if crate::text::str_eq(w, "esac") {
            return Token::Esac;
        }
        let redirects = self.pos < self.input.len() && (self.input[self.pos] == '<'
            || self.input[self.pos] == '>');
        if redirects {
            match parse_i32(w) {
                Some(n) => Token::Number(n),
                None => Token::Word(word),
            }
        } else {
            Token::Word(word)
        }
    }

    /// The next token with its start and end, or an error; `None` at the end
    /// of the input: see `lex`.
    pub fn next_token(&mut self) -> (r: Option<Result<(usize, Token, usize), Error>>)
        requires
            old(self).wf(),
        ensures
            final(self).wf(),
            final(self)@ == (LexerView {
                pos: lex(old(self)@.input, old(self)@.pos).pos,
                ..old(self)@
            }),
            match lex(old(self)@.input, old(self)@.pos).item {
                None => r is None,
                Some(Err(e)) => r == Some(Err::<(usize, Token, usize), Error>(e)),
                Some(Ok(t)) => {
                    &&& r matches Some(Ok(got))
                    &&& got.0 == t.0
                    &&& got.1@ == t.1
                    &&& got.2 == t.2
                },
            },
    {
        let ghost s = self.input@;
        let ghost first = self.pos as int;
        loop
            invariant
                self.wf(),
                self.input@ == s,
                self.send_eof == old(self).send_eof,
                s == old(self)@.input,
                first == old(self)@.pos,
                lex(s, self.pos as int) == lex(s, first),
            decreases s.len() - self.pos,
        {
            let (start, chr, end) = match self.advance() {
                Some(t) => t,
                None => {
                    return None;
                },
            };
            let next = if self.pos < self.input.len() {
                Some(self.input[self.pos])
            } else {
                None
            };
            proof {
                lemma_stop_pos(s, Stop::At('\n'), end as int);
                lemma_stop_pos(s, Stop::WordEnd, end as int);
            }
            if chr == '\n' {
                while self.pos < self.input.len() && self.input[self.pos] == '\n'
                    invariant
                        end <= self.pos <= self.input@.len(),
                        self.input@ == s,
                        self.send_eof == old(self).send_eof,
                        newline_end(s, end as int) == newline_end(s, self.pos as int),
                    decreases self.input@.len() - self.pos,
                {
                    self.pos += 1;
                }
                return Some(Ok((start, Token::NewlineList, end)));
            } else if chr == '|' || chr == '&' || chr == '>' || chr == '<' {
                let (long, short, amp) = if chr == '|' {
                    (Token::Or, Token::Pipe, Token::Pipe)
                } else if chr == '&' {
                    (Token::And, Token::Ampersand, Token::Ampersand)
                } else if chr == '>' {
                    (Token::DoubleGreater, Token::Greater, Token::GreaterAnd)
                } else {
                    (Token::DoubleLess, Token::Less, Token::LessAnd)
                };
                if next == Some(chr) {
                    self.pos += 1;
                    return Some(Ok((start, long, end)));
                }
                if (chr == '>' || chr == '<') && next == Some('&') {
                    self.pos += 1;
                    return Some(Ok((start, amp, end)));
                }
                return Some(Ok((start, short, end)));
            } else if chr == '`' || chr == '"' || chr == '\'' {
                let (word, last) = self.take_until_alt(start, end, Stop::At(chr));
                return Some(Ok((start, Token::Word(word), last)));
            } else if chr == '$' {
                if next == Some('(') {
                    let (word, last) = self.take_until_alt(start, end, Stop::At(')'));
                    return Some(Ok((start, Token::Word(word), last)));
                }
                if next == Some('{') {
                    return Some(Ok((start, Token::Dollar, end)));
                }
                let (word, last) = self.take_while(start, end);
                let token = self.num_or_word(word);
                return Some(Ok((start, token, last)));
            } else if chr == '#' {
                let (_, _) = self.take_until(start, end, Stop::At('\n'));
            } else if chr == ';' {
                return Some(Ok((start, Token::SemiColon, end)));
            } else if chr == '(' {
                return Some(Ok((start, Token::OpenParen, end)));
            } else if chr == ')' {
                return Some(Ok((start, Token::CloseParen, end)));
            } else if chr == '{' {
                return Some(Ok((start, Token::OpenBrace, end)));
            } else if chr == '}' {
                return Some(Ok((start, Token::CloseBrace, end)));
            } else if chr == '=' {
                return Some(Ok((start, Token::Equals, end)));
            } else if chr == '!' {
                return Some(Ok((start, Token::Bang, end)));
            } else if is_word_start(chr) {
                let (word, last) = self.take_while(start, end);
                let token = self.num_or_word(word);
                return Some(Ok((start, token, last)));
            } else if char_is_whitespace(chr) {
            } else {
                return Some(Err(Error::UnrecognizedChar(start, chr, end)));
            }
        }
    }

    /// The item that follows in the stream of tokens: the next token; after
    /// the last one, once, the token that marks the end of the input at
    /// position zero; then nothing.
    pub fn next(&mut self) -> (r: Option<Result<(usize, Token, usize), Error>>)
        requires
            old(self).wf(),
        ensures
            final(self).wf(),
            final(self)@.input == old(self)@.input,
            final(self)@.pos == lex(old(self)@.input, old(self)@.pos).pos,
            match lex(old(self)@.input, old(self)@.pos).item {
                None => {
                    &&& final(self)@.send_eof
                    &&& if old(self)@.send_eof {
                        r is None
                    } else {
                        &&& r matches Some(Ok(got))
                        &&& got.0 == 0
                        &&& got.1@ == TokenView::EOF
                        &&& got.2 == 0
                    }
                },
                Some(Err(e)) => {
                    &&& r == Some(Err::<(usize, Token, usize), Error>(e))
                    &&& final(self)@.send_eof == old(self)@.send_eof
                },
                Some(Ok(t)) => {
                    &&& final(self)@.send_eof == old(self)@.send_eof
                    &&& r matches Some(Ok(got))
                    &&& got.0 == t.0
                    &&& got.1@ == t.1
                    &&& got.2 == t.2
                },
            },
    {
        match self.next_token() {
            Some(item) => Some(item),
            None => {
                if !self.send_eof {
                    self.send_eof = true;
                    Some(Ok((0, Token::EOF, 0)))
                } else {
                    None
                }
            },
        }
    }
}

} // verus!

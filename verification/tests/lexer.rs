use rsh::lexer::{is_word_continue, is_word_start, Error, Lexer, Stop, Token};

fn spans(input: &str) -> Vec<(usize, Token, usize)> {
    let mut lexer = Lexer::new(input);
    let mut out = Vec::new();
    while let Some(item) = lexer.next() {
        out.push(item.unwrap());
    }
    out
}

fn tokens(input: &str) -> Vec<Token> {
    let mut all: Vec<Token> = spans(input).into_iter().map(|t| t.1).collect();
    assert_eq!(all.pop(), Some(Token::EOF));
    all
}

fn word(s: &str) -> Token {
    Token::Word(s.to_string())
}

#[test]
fn words_and_operators() {
    assert_eq!(
        tokens("ls -l | grep foo && echo ok || echo no; cat &"),
        vec![
            word("ls"),
            word("-l"),
            Token::Pipe,
            word("grep"),
            word("foo"),
            Token::And,
            word("echo"),
            word("ok"),
            Token::Or,
            word("echo"),
            word("no"),
            Token::SemiColon,
            word("cat"),
            Token::Ampersand,
        ]
    );
    assert_eq!(
        tokens("(){}=!"),
        vec![
            Token::OpenParen,
            Token::CloseParen,
            Token::OpenBrace,
            Token::CloseBrace,
            Token::Equals,
            Token::Bang,
        ]
    );
}

#[test]
fn spans_count_characters() {
    assert_eq!(
        spans("a || b\n\n\nç>>x"),
        vec![
            (0, word("a"), 1),
            (2, Token::Or, 3),
            (5, word("b"), 6),
            (6, Token::NewlineList, 7),
            (9, word("ç"), 10),
            (10, Token::DoubleGreater, 11),
            (12, word("x"), 13),
            (0, Token::EOF, 0),
        ]
    );
}

#[test]
fn redirections_and_numbers() {
    assert_eq!(
        tokens("cat < inp > out >> log 2> err 2>&1 <& 3<<x 12 a2>b"),
        vec![
            word("cat"),
            Token::Less,
            word("inp"),
            Token::Greater,
            word("out"),
            Token::DoubleGreater,
            word("log"),
            Token::Number(2),
            Token::Greater,
            word("err"),
            Token::Number(2),
            Token::GreaterAnd,
            word("1"),
            Token::LessAnd,
            Token::Number(3),
            Token::DoubleLess,
            word("x"),
            word("12"),
            word("a2"),
            Token::Greater,
            word("b"),
        ]
    );
    assert_eq!(
        tokens("99999999999>x"),
        vec![word("99999999999"), Token::Greater, word("x")]
    );
}

#[test]
fn quotes_and_substitutions_are_words_with_their_delimiters() {
    assert_eq!(
        tokens("echo 'a b' \"c d\" `e f` $(g h) $x ${y} $"),
        vec![
            word("echo"),
            word("'a b'"),
            word("\"c d\""),
            word("`e f`"),
            word("$(g h)"),
            word("$x"),
            Token::Dollar,
            Token::OpenBrace,
            word("y"),
            Token::CloseBrace,
            word("$"),
        ]
    );
    assert_eq!(tokens("'open"), vec![word("'open")]);
    assert_eq!(tokens("\"open | x"), vec![word("\"open | x")]);
    assert_eq!(tokens("$(open"), vec![word("$(open")]);
    assert_eq!(tokens("a'b c'"), vec![word("a'b"), word("c'")]);
}

#[test]
fn reserved_words() {
    assert_eq!(
        tokens("for in while if then else elif fi do done case esac until forx"),
        vec![
            Token::For,
            Token::In,
            Token::While,
            Token::If,
            Token::Then,
            Token::Else,
            Token::Elif,
            Token::Fi,
            Token::Do,
            Token::Done,
            Token::Case,
            Token::Esac,
            word("until"),
            word("forx"),
        ]
    );
}

#[test]
fn comments_and_white_space_are_skipped() {
    assert_eq!(tokens("  a \t b # c | d"), vec![word("a"), word("b")]);
    assert_eq!(tokens("a # c\nb"), vec![word("a"), Token::NewlineList, word("b")]);
    assert_eq!(tokens("#only"), Vec::new());
    assert_eq!(tokens(""), Vec::new());
    assert_eq!(tokens("   "), Vec::new());
}

#[test]
fn the_end_is_told_once() {
    let mut lexer = Lexer::new("a");
    assert_eq!(lexer.next(), Some(Ok((0, word("a"), 1))));
    assert_eq!(lexer.next(), Some(Ok((0, Token::EOF, 0))));
    assert_eq!(lexer.next(), None);
    assert_eq!(lexer.next(), None);
    let mut lexer = Lexer::new("b");
    assert_eq!(lexer.next_token(), Some(Ok((0, word("b"), 1))));
    assert_eq!(lexer.next_token(), None);
    assert_eq!(lexer.next(), Some(Ok((0, Token::EOF, 0))));
}

#[test]
fn a_star_starts_no_token() {
    let mut lexer = Lexer::new("ls *");
    assert_eq!(lexer.next(), Some(Ok((0, word("ls"), 2))));
    let e = Error::UnrecognizedChar(3, '*', 4);
    assert_eq!(lexer.next(), Some(Err(e)));
    assert_eq!(e.to_string(), "Unrecognized character '*' at position 3");
    assert_eq!(lexer.next(), Some(Ok((0, Token::EOF, 0))));
}

#[test]
fn character_classes() {
    for c in ['a', 'Z', '_', '0', '"', '\'', '-', '/', '.', ',', 'é', '#'] {
        assert!(is_word_start(c));
    }
    for c in [';', '&', '|', '(', ')', '{', '}', '<', '>', '!', '$', '`', '*', '=', ' ', '\n'] {
        assert!(!is_word_start(c));
        assert!(!is_word_continue(c));
    }
    assert!(is_word_continue('"') && is_word_continue('x') && is_word_continue('#'));
    assert!(Stop::At('x').stops('x') && !Stop::At('x').stops('y'));
    assert!(Stop::WordEnd.stops(' ') && !Stop::WordEnd.stops('a'));
}

#[test]
fn scans_read_until_their_stop() {
    let mut lexer = Lexer::new("abc;def;g");
    assert_eq!(lexer.lookahead(), Some((0, 'a', 1)));
    assert_eq!(lexer.advance(), Some((0, 'a', 1)));
    assert_eq!(lexer.take_until(0, 1, Stop::At(';')), ("abc".to_string(), 3));
    assert_eq!(lexer.lookahead(), Some((3, ';', 4)));
    assert_eq!(lexer.take_until_alt(1, 3, Stop::At('d')), ("bc;d".to_string(), 5));
    assert_eq!(lexer.take_while(5, 5), ("ef".to_string(), 7));
    assert_eq!(lexer.take_until_seen_twice(7, 7, Stop::At('g')), (";".to_string(), 8));
    assert_eq!(lexer.take_until_alt(8, 8, Stop::At('z')), ("g".to_string(), 9));
    assert_eq!(lexer.advance(), None);
    assert_eq!(lexer.lookahead(), None);
}

#[test]
fn tokens_have_names() {
    assert_eq!(Token::Pipe.to_string(), "Pipe");
    assert_eq!(Token::EOF.to_string(), "EOF");
    assert_eq!(Token::NewlineList.to_string(), "NewlineList");
    assert_eq!(word("ls").to_string(), "Word(ls)");
    assert_eq!(Token::Number(-3).to_string(), "Number(-3)");
    assert_eq!(Token::Subshell("x".to_string()).to_string(), "Subshell(x)");
}

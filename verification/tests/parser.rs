use rsh::ast::{Command, CompleteCommand, CompoundCommand, ConditionalExec, RedirectType};
use rsh::context::ContextManager;
use rsh::eval::{and_or_ops, and_or_pipelines};
use rsh::expand::expand;
use rsh::lexer::{Error, Token};
use rsh::parser::{merge_words, parse, parse_tokens, tokenize, ParseError};

/// The pipelines of a command line, each as the argument vectors of its
/// commands, with a mark for what is special about it.
fn shape(tree: &CompleteCommand) -> Vec<String> {
    let mut out = Vec::new();
    let list = match &tree.list {
        Some(l) => l,
        None => return out,
    };
    for and_or in list.0.iter() {
        let ops = and_or_ops(and_or);
        for (op, pipeline) in ops.iter().zip(and_or_pipelines(and_or)) {
            let mut text = String::new();
            match op {
                Some(ConditionalExec::And) => text.push_str("&& "),
                Some(ConditionalExec::Or) => text.push_str("|| "),
                None => {},
            }
            if pipeline.bang {
                text.push_str("! ");
            }
            let commands: Vec<String> = pipeline
                .pipe_sequence
                .0
                .iter()
                .map(|c| match c {
                    Command::SimpleCommand(s) => format!("{:?}", s.argv()),
                    Command::FunctionDefinition(d) => format!("fn {}", d.name),
                    Command::CompoundCommand(_, _) => "compound".to_string(),
                })
                .collect();
            text.push_str(&commands.join(" | "));
            if pipeline.background {
                text.push_str(" &");
            }
            out.push(text);
        }
    }
    out
}

fn shape_of(input: &str) -> Vec<String> {
    shape(&parse(input).unwrap())
}

fn argv_of(input: &str) -> Vec<String> {
    let tree = parse(input).unwrap();
    let list = tree.list.unwrap();
    let m = ContextManager::new(&Vec::new(), false, 1, 1, "/");
    match &list.0[0].pipeline.pipe_sequence.0[0] {
        Command::SimpleCommand(c) => expand(c, None, &m, &Vec::new()).argv,
        other => panic!("{:?}", other),
    }
}

#[test]
fn argv_round_trip() {
    assert_eq!(argv_of("echo 'a b'"), vec!["echo", "a b"]);
    assert_eq!(argv_of("echo \"a b\""), vec!["echo", "a b"]);
    assert_eq!(argv_of("echo a b"), vec!["echo", "a", "b"]);
}

#[test]
fn a_simple_command_is_parsed() {
    assert_eq!(shape_of("echo Hello world"), vec!["[\"echo\", \"Hello\", \"world\"]"]);
}

#[test]
fn a_quoted_word_stays_one_word() {
    assert_eq!(shape_of("echo \"Hello world\""), vec!["[\"echo\", \"\\\"Hello world\\\"\"]"]);
}

#[test]
fn a_pipeline_is_parsed() {
    assert_eq!(shape_of("echo Hello world | cat"), vec!["[\"echo\", \"Hello\", \"world\"] | [\"cat\"]"]);
}

#[test]
fn a_long_pipeline_is_parsed() {
    assert_eq!(
        shape_of("echo Hello world | cat | wc | grep world"),
        vec!["[\"echo\", \"Hello\", \"world\"] | [\"cat\"] | [\"wc\"] | [\"grep\", \"world\"]"]
    );
}

#[test]
fn redirections_are_parsed() {
    let tree = parse("echo Hello world > file.txt 2>> log < in.txt").unwrap();
    let list = tree.list.unwrap();
    match &list.0[0].pipeline.pipe_sequence.0[0] {
        Command::SimpleCommand(c) => {
            assert_eq!(c.argv(), vec!["echo", "Hello", "world"]);
            let seen: Vec<(Option<i32>, RedirectType, String)> = c
                .suffix
                .as_ref()
                .unwrap()
                .io_redirect
                .iter()
                .map(|r| {
                    let f = r.io_file.as_ref().unwrap();
                    (r.io_number, f.redirect_type, f.filename.clone())
                })
                .collect();
            assert_eq!(
                seen,
                vec![
                    (None, RedirectType::Output, "file.txt".to_string()),
                    (Some(2), RedirectType::Append, "log".to_string()),
                    (None, RedirectType::Input, "in.txt".to_string()),
                ]
            );
            assert!(c.prefix.is_none());
        },
        other => panic!("{:?}", other),
    }
}

#[test]
fn assignments_before_the_name_are_parsed() {
    let tree = parse("FOO=bar X=$(date) <inp echo Hello A=b").unwrap();
    let list = tree.list.unwrap();
    match &list.0[0].pipeline.pipe_sequence.0[0] {
        Command::SimpleCommand(c) => {
            let prefix = c.prefix.as_ref().unwrap();
            assert_eq!(prefix.assignment, vec!["FOO=bar", "X=$(date)"]);
            assert_eq!(prefix.io_redirect.len(), 1);
            assert_eq!(c.argv(), vec!["echo", "Hello", "A=b"]);
        },
        other => panic!("{:?}", other),
    }
    let tree = parse("X=1").unwrap();
    match &tree.list.unwrap().0[0].pipeline.pipe_sequence.0[0] {
        Command::SimpleCommand(c) => {
            assert_eq!(c.name, "");
            assert_eq!(c.prefix.as_ref().unwrap().assignment, vec!["X=1"]);
            assert!(c.suffix.is_none());
        },
        other => panic!("{:?}", other),
    }
}

#[test]
fn a_function_definition_is_parsed() {
    let tree = parse("foo() { echo Hello world; }").unwrap();
    assert_eq!(shape(&tree), vec!["fn foo"]);
    match &tree.list.unwrap().0[0].pipeline.pipe_sequence.0[0] {
        Command::FunctionDefinition(d) => match &d.function_body.compound_command {
            CompoundCommand::BraceGroup(g) => {
                assert_eq!(g.0 .0 .0.len(), 1);
                match &g.0 .0 .0[0].pipeline.pipe_sequence.0[0] {
                    Command::SimpleCommand(c) => assert_eq!(c.argv(), vec!["echo", "Hello", "world"]),
                    other => panic!("{:?}", other),
                }
            },
            other => panic!("{:?}", other),
        },
        other => panic!("{:?}", other),
    }
}

#[test]
fn function_definitions_in_other_forms() {
    assert_eq!(shape_of("foo ()\n\n{ echo a | cat; echo $1 & }\nfoo world"), vec!["fn foo", "[\"foo\", \"world\"]"]);
    assert_eq!(parse("foo() { bar() { x; }; }").err(), Some(ParseError::Unexpected(5)));
    assert_eq!(parse("foo() { echo").err(), Some(ParseError::Unexpected(5)));
    assert_eq!(parse("foo() echo").err(), Some(ParseError::Unexpected(3)));
}

#[test]
fn lists_and_operators() {
    assert_eq!(
        shape_of("false && echo x; echo y"),
        vec!["[\"false\"]", "&& [\"echo\", \"x\"]", "[\"echo\", \"y\"]"]
    );
    assert_eq!(
        shape_of("a || b &&\n c & d\n\n! e | f ;"),
        vec!["[\"a\"]", "|| [\"b\"]", "&& [\"c\"] &", "[\"d\"]", "! [\"e\"] | [\"f\"]"]
    );
    assert_eq!(shape_of("sleep 10 &"), vec!["[\"sleep\", \"10\"] &"]);
    assert_eq!(shape_of("echo done in if"), vec!["[\"echo\", \"done\", \"in\", \"if\"]"]);
    assert!(parse("").unwrap().list.is_none());
    assert!(parse(" ;; \n # nothing").unwrap().list.is_none());
}

#[test]
fn what_fits_nowhere_is_refused() {
    assert_eq!(parse("echo |").err(), Some(ParseError::Unexpected(2)));
    assert_eq!(parse("| echo").err(), Some(ParseError::Unexpected(0)));
    assert_eq!(parse("echo && ; x").err(), Some(ParseError::Unexpected(2)));
    assert_eq!(parse("echo >").err(), Some(ParseError::Unexpected(1)));
    assert_eq!(parse("echo 2> | x").err(), Some(ParseError::Unexpected(1)));
    assert_eq!(parse("echo )").err(), Some(ParseError::Unexpected(1)));
    assert_eq!(parse("}").err(), Some(ParseError::Unexpected(0)));
    assert_eq!(parse("if x").err(), Some(ParseError::Unexpected(0)));
    assert_eq!(parse("echo ${x}").err(), Some(ParseError::Unexpected(1)));
    assert_eq!(
        parse("echo *").err(),
        Some(ParseError::Lexical(Error::UnrecognizedChar(5, '*', 6)))
    );
}

#[test]
fn words_that_touch_are_joined() {
    let spans = tokenize("a=b c = d x=\"y z\" !e f! g!h").unwrap();
    assert_eq!(spans.len(), 16);
    let word = |s: &str| Token::Word(s.to_string());
    assert_eq!(
        merge_words(spans),
        vec![
            word("a=b"),
            word("c"),
            word("="),
            word("d"),
            word("x=\"y z\""),
            Token::Bang,
            word("e"),
            word("f!"),
            word("g!h"),
        ]
    );
    assert!(tokenize("").unwrap().is_empty());
    assert_eq!(tokenize("a *"), Err(Error::UnrecognizedChar(2, '*', 3)));
    assert!(merge_words(Vec::new()).is_empty());
    assert!(parse_tokens(&Vec::new()).unwrap().list.is_none());
    assert!(parse_tokens(&vec![Token::EOF, word("ignored")]).unwrap().list.is_none());
    assert_eq!(parse_tokens(&vec![Token::Pipe]).err(), Some(ParseError::Unexpected(0)));
}

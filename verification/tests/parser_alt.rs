use rsh::ast::Command;
use rsh::parser::parse;

#[test]
fn parser_alt_test_parser() {
    let input = "echo Hello, world!";
    let ast = parse(input).unwrap();
    println!("{:#?}", ast);
    let list = ast.list.unwrap();
    assert_eq!(list.0.len(), 1);
    let pipeline = &list.0[0].pipeline;
    assert_eq!(pipeline.pipe_sequence.0.len(), 1);
    match &pipeline.pipe_sequence.0[0] {
        Command::SimpleCommand(c) => assert_eq!(c.argv(), vec!["echo", "Hello,", "world!"]),
        other => panic!("{:?}", other),
    }
}

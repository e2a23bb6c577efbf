use meth::parser::{parse, ParseError, ParseErrorKind};
use meth::runtime::{run, RunError, RuntimeError};

#[test]
fn parse_failures_name_kind_and_offset() {
    assert_eq!(
        ParseError { kind: ParseErrorKind::Lex, offset: 0 }.describe(),
        "lex error: text that is no token at offset 0"
    );
    assert_eq!(
        ParseError { kind: ParseErrorKind::UnexpectedEnd, offset: 7 }.describe(),
        "parse error: unexpected end of input at offset 7"
    );
    assert_eq!(
        ParseError { kind: ParseErrorKind::ExpectedIdent, offset: 120 }.describe(),
        "parse error: expected an identifier at offset 120"
    );
    assert_eq!(
        ParseError { kind: ParseErrorKind::UnexpectedToken, offset: usize::MAX }.describe(),
        format!("parse error: unexpected token at offset {}", usize::MAX)
    );
}

#[test]
fn parse_failure_of_a_source_text() {
    assert_eq!(parse("(f λx.").unwrap_err().describe(), "parse error: unexpected end of input at offset 7");
    assert_eq!(parse("x 123456789012345678901").unwrap_err().describe(), "lex error: text that is no token at offset 2");
}

#[test]
fn runtime_failures_have_names() {
    assert_eq!(RuntimeError::UnknownVariable.describe(), "unknown variable");
    assert_eq!(RuntimeError::ArityMismatch.describe(), "arity mismatch");
    assert_eq!(RuntimeError::StackOverflow.describe(), "stack overflow");
    assert_eq!(RuntimeError::InvalidArgument.describe(), "invalid argument");
}

#[test]
fn run_failures_name_kind_node_and_span() {
    let failure = RunError { error: RuntimeError::ArityMismatch, node: 3, span: 10..25 };
    assert_eq!(failure.describe(), "arity mismatch in node 3 at 10..25");
    let ast = parse("1 2 (nope)").unwrap();
    assert_eq!(run(&ast, 10).result.unwrap_err().describe(), "unknown variable in node 2 at 4..10");
}

use meth::ast::{Expr, ExprKind, Node, NodeKind};
use meth::lexer::{tokenize, Lexeme, Token};
use meth::parser::{parse, parse_ast, ParseError, ParseErrorKind, Parser};

fn ident(name: &str, span: std::ops::Range<usize>) -> Expr {
    Expr { kind: ExprKind::Ident(name.to_string()), span }
}

fn number(n: u64, span: std::ops::Range<usize>) -> Expr {
    Expr { kind: ExprKind::Number(n), span }
}

fn failure(src: &str) -> ParseError {
    parse(src).unwrap_err()
}

#[test]
fn parse_shape() {
    let ast = parse("λx.x").unwrap();
    assert_eq!(
        ast,
        vec![Node {
            kind: NodeKind::Expr(ExprKind::Lambda(
                vec!["x".to_string()],
                Box::new(ident("x", 4..5)),
            )),
            span: 0..5,
        }]
    );
}

#[test]
fn empty_program() {
    assert_eq!(parse("").unwrap(), Vec::<Node>::new());
    assert_eq!(parse("  <| nothing here\n").unwrap(), Vec::<Node>::new());
}

#[test]
fn identifier_and_number() {
    assert_eq!(
        parse("abc 42").unwrap(),
        vec![
            Node { kind: NodeKind::Expr(ExprKind::Ident("abc".to_string())), span: 0..3 },
            Node { kind: NodeKind::Expr(ExprKind::Number(42)), span: 4..6 },
        ]
    );
}

#[test]
fn lambda_without_parameters() {
    assert_eq!(
        parse("λ.7").unwrap(),
        vec![Node {
            kind: NodeKind::Expr(ExprKind::Lambda(vec![], Box::new(number(7, 3..4)))),
            span: 0..4,
        }]
    );
}

#[test]
fn lambda_with_several_parameters() {
    assert_eq!(
        parse("λa b a.b").unwrap(),
        vec![Node {
            kind: NodeKind::Expr(ExprKind::Lambda(
                vec!["a".to_string(), "b".to_string(), "a".to_string()],
                Box::new(ident("b", 8..9)),
            )),
            span: 0..9,
        }]
    );
}

#[test]
fn application_without_arguments() {
    assert_eq!(
        parse("(f)").unwrap(),
        vec![Node {
            kind: NodeKind::Expr(ExprKind::Call(Box::new(ident("f", 1..2)), vec![])),
            span: 0..3,
        }]
    );
}

#[test]
fn application_with_arguments_spans_to_the_closing_bracket() {
    assert_eq!(
        parse("(f 1 x )").unwrap(),
        vec![Node {
            kind: NodeKind::Expr(ExprKind::Call(
                Box::new(ident("f", 1..2)),
                vec![number(1, 3..4), ident("x", 5..6)],
            )),
            span: 0..8,
        }]
    );
}

#[test]
fn nested_applications_and_lambdas() {
    assert_eq!(
        parse("((3 succ) λ.(g))").unwrap(),
        vec![Node {
            kind: NodeKind::Expr(ExprKind::Call(
                Box::new(Expr {
                    kind: ExprKind::Call(Box::new(number(3, 2..3)), vec![ident("succ", 4..8)]),
                    span: 1..9,
                }),
                vec![Expr {
                    kind: ExprKind::Lambda(
                        vec![],
                        Box::new(Expr {
                            kind: ExprKind::Call(Box::new(ident("g", 14..15)), vec![]),
                            span: 13..16,
                        }),
                    ),
                    span: 10..16,
                }],
            )),
            span: 0..17,
        }]
    );
}

#[test]
fn binding_spans_from_its_name_to_the_end_of_its_expression() {
    assert_eq!(
        parse("def id λx.x").unwrap(),
        vec![Node {
            kind: NodeKind::VariableAssign {
                var: "id".to_string(),
                expr: Expr {
                    kind: ExprKind::Lambda(vec!["x".to_string()], Box::new(ident("x", 11..12))),
                    span: 7..12,
                },
            },
            span: 4..12,
        }]
    );
}

#[test]
fn nodes_come_in_source_order() {
    let ast = parse("def x 1 def f λy.x def x 2 (f 0)").unwrap();
    assert_eq!(ast.len(), 4);
    assert!(matches!(&ast[0].kind, NodeKind::VariableAssign { var, .. } if var == "x"));
    assert!(matches!(&ast[1].kind, NodeKind::VariableAssign { var, .. } if var == "f"));
    assert!(matches!(&ast[2].kind, NodeKind::VariableAssign { var, .. } if var == "x"));
    assert!(matches!(&ast[3].kind, NodeKind::Expr(ExprKind::Call(_, _))));
}

#[test]
fn input_that_ends_early() {
    let end = ParseErrorKind::UnexpectedEnd;
    assert_eq!(failure("(f"), ParseError { kind: end, offset: 2 });
    assert_eq!(failure("("), ParseError { kind: end, offset: 1 });
    assert_eq!(failure("(f 1 2"), ParseError { kind: end, offset: 6 });
    assert_eq!(failure("λx"), ParseError { kind: end, offset: 3 });
    assert_eq!(failure("λx."), ParseError { kind: end, offset: 4 });
    assert_eq!(failure("def"), ParseError { kind: end, offset: 3 });
    assert_eq!(failure("def x"), ParseError { kind: end, offset: 5 });
    assert_eq!(failure("1 (g  "), ParseError { kind: end, offset: 4 });
}

#[test]
fn identifier_expected() {
    let want = ParseErrorKind::ExpectedIdent;
    assert_eq!(failure("def 5 1"), ParseError { kind: want, offset: 4 });
    assert_eq!(failure("def def 1"), ParseError { kind: want, offset: 4 });
    assert_eq!(failure("λx 1.x"), ParseError { kind: want, offset: 4 });
    assert_eq!(failure("λ(.x"), ParseError { kind: want, offset: 2 });
    assert_eq!(failure("λλ.x"), ParseError { kind: want, offset: 2 });
}

#[test]
fn token_that_begins_no_expression() {
    let bad = ParseErrorKind::UnexpectedToken;
    assert_eq!(failure("."), ParseError { kind: bad, offset: 0 });
    assert_eq!(failure(")"), ParseError { kind: bad, offset: 0 });
    assert_eq!(failure("()"), ParseError { kind: bad, offset: 1 });
    assert_eq!(failure("(def x 1)"), ParseError { kind: bad, offset: 1 });
    assert_eq!(failure("x (f .)"), ParseError { kind: bad, offset: 5 });
    assert_eq!(failure("def x )"), ParseError { kind: bad, offset: 6 });
    assert_eq!(failure("λx.def"), ParseError { kind: bad, offset: 4 });
}

#[test]
fn unreadable_text_is_reported_where_the_parser_meets_it() {
    let lex = ParseErrorKind::Lex;
    let big = "99999999999999999999";
    assert_eq!(failure(big), ParseError { kind: lex, offset: 0 });
    assert_eq!(failure(&format!("(f {big})")), ParseError { kind: lex, offset: 3 });
    assert_eq!(failure(&format!("def {big} 1")), ParseError { kind: lex, offset: 4 });
    assert_eq!(failure(&format!("λx {big}.x")), ParseError { kind: lex, offset: 4 });
    // an earlier failure wins
    assert_eq!(
        failure(&format!(") {big}")),
        ParseError { kind: ParseErrorKind::UnexpectedToken, offset: 0 }
    );
}

#[test]
fn no_partial_program_on_failure() {
    assert!(parse("def x 1 (f").is_err());
    assert!(parse("def x 1 x").is_ok());
}

#[test]
fn parser_reads_node_by_node() {
    let mut ps = Parser::new_from_lex(tokenize("def a 1 (a)"));
    let first = ps.parse_node().unwrap().unwrap();
    assert_eq!(
        first,
        Node {
            kind: NodeKind::VariableAssign { var: "a".to_string(), expr: number(1, 6..7) },
            span: 4..7,
        }
    );
    let second = ps.parse_node().unwrap().unwrap();
    assert_eq!(second.span, 8..11);
    assert_eq!(ps.parse_node(), Ok(None));
    assert_eq!(ps.parse_node(), Ok(None));
}

#[test]
fn parse_ast_reads_what_is_left() {
    let mut ps = Parser::new_from_lex(tokenize("1 2 3"));
    assert_eq!(ps.parse_expr().unwrap(), number(1, 0..1));
    let rest = parse_ast(&mut ps).unwrap();
    assert_eq!(rest.len(), 2);
    assert_eq!(rest[0].kind, NodeKind::Expr(ExprKind::Number(2)));
    assert_eq!(rest[1].kind, NodeKind::Expr(ExprKind::Number(3)));
    assert_eq!(parse_ast(&mut ps).unwrap(), Vec::<Node>::new());
}

#[test]
fn parser_takes_lexemes_from_any_source() {
    let lexemes = vec![
        Lexeme { token: Some(Token::AppliStart), text: "(".to_string(), span: 10..11 },
        Lexeme { token: Some(Token::Ident), text: "f".to_string(), span: 20..21 },
        Lexeme { token: Some(Token::AppliEnd), text: ")".to_string(), span: 30..31 },
    ];
    let mut ps = Parser::new_from_lex(lexemes);
    assert_eq!(
        parse_ast(&mut ps).unwrap(),
        vec![Node {
            kind: NodeKind::Expr(ExprKind::Call(Box::new(ident("f", 20..21)), vec![])),
            span: 10..31,
        }]
    );
}

#[test]
fn expression_required_at_end_of_lexemes() {
    let mut ps = Parser::new_from_lex(Vec::new());
    assert_eq!(
        ps.parse_expr(),
        Err(ParseError { kind: ParseErrorKind::UnexpectedEnd, offset: 0 })
    );
}

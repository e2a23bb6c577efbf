//! Recursive-descent parser with one token of lookahead.
//!
//! The grammar, over token kinds:
//!
//! ```text
//! program := node*
//! node    := Store Ident expr | expr
//! expr    := Ident | Number | Lambda Ident* Dot expr | AppliStart expr expr* AppliEnd
//! ```
//!
//! What the parser returns is defined by the spec functions `parse_expr_at`,
//! `parse_params_at`, `parse_args_at`, `parse_node_at` and `parse_nodes_at`;
//! the executable functions are proved to compute exactly those.

use vstd::prelude::*;
use vstd::string::StringExecFns;
use crate::ast::{Ast, Expr, ExprKind, ExprKindView, ExprView, Node, NodeKind, NodeKindView, NodeView};
use crate::ast::{expr_views, lemma_call_view, name_views, node_views};
use crate::lexer::{Lexeme, LexemeView, Span, Token, lex, lexeme_views, tokenize};
use crate::text::{decimal, push_decimal};

verus! {

/// Why parsing stopped.
#[derive(Debug, Clone, Copy, PartialEq, Eq)]
pub enum ParseErrorKind {
    /// The token source could not read the text at this place.
    Lex,
    /// The input ended where a token was required.
    UnexpectedEnd,
    /// A binding's target or a parameter was not an identifier.
    ExpectedIdent,
    /// The token cannot begin an expression.
    UnexpectedToken,
}

/// A parse failure and the byte offset it was found at: the start of the
/// offending token, or the end of the last token where the input ran out.
#[derive(Debug, Clone, Copy, PartialEq, Eq)]
pub struct ParseError {
    pub kind: ParseErrorKind,
    pub offset: usize,
}

impl ParseErrorKind {
    /// What the failure is called in a message.
    pub open spec fn title(self) -> Seq<char> {
        match self {
            ParseErrorKind::Lex => "lex error: text that is no token"@,
            ParseErrorKind::UnexpectedEnd => "parse error: unexpected end of input"@,
            ParseErrorKind::ExpectedIdent => "parse error: expected an identifier"@,
            ParseErrorKind::UnexpectedToken => "parse error: unexpected token"@,
        }
    }
}

impl ParseError {
    /// The message for the failure: its kind, then its offset.
    pub open spec fn message(self) -> Seq<char> {
        self.kind.title() + " at offset "@ + decimal(self.offset as nat)
    }

    /// The message for the failure, as text.
    pub fn describe(&self) -> (r: String)
        ensures
            r@ == self.message(),
    {
        let mut out = String::new();
        match self.kind {
            ParseErrorKind::Lex => out.append("lex error: text that is no token"),
            ParseErrorKind::UnexpectedEnd => out.append("parse error: unexpected end of input"),
            ParseErrorKind::ExpectedIdent => out.append("parse error: expected an identifier"),
            ParseErrorKind::UnexpectedToken => out.append("parse error: unexpected token"),
        }
        out.append(" at offset ");
        push_decimal(&mut out, self.offset as u64);
        out
    }
}

/// The offset at which the input ends: the end of the last lexeme, or 0.
pub open spec fn end_offset(t: Seq<LexemeView>) -> usize {
    if t.len() == 0 {
        0
    } else {
        t.last().span.end
    }
}

/// The failure of the given kind at the given offset.
pub open spec fn failure(kind: ParseErrorKind, offset: usize) -> ParseError {
    ParseError { kind, offset }
}

/// The number of tokens that an expression is written with.
pub open spec fn width(e: ExprView) -> nat
    decreases e,
{
    match e.kind {
        ExprKindView::Ident(_) => 1,
        ExprKindView::Number(_) => 1,
        ExprKindView::Lambda(params, body) => 2 + params.len() + width(*body),
        ExprKindView::Call(callee, args) => 2 + width(*callee) + widths(args),
    }
}

/// The number of tokens that a run of expressions is written with.
pub open spec fn widths(es: Seq<ExprView>) -> nat
    decreases es,
{
    if es.len() == 0 {
        0
    } else {
        widths(es.drop_last()) + width(es.last())
    }
}

/// How many tokens stand at or after `pos`.
pub open spec fn remaining(t: Seq<LexemeView>, pos: nat) -> nat {
    if pos <= t.len() {
        (t.len() - pos) as nat
    } else {
        0
    }
}

/// The parameter list that starts at `pos`: the identifiers up to the
/// closing `Dot`, which stands `len()` tokens further on.
pub open spec fn parse_params_at(t: Seq<LexemeView>, pos: nat) -> Result<Seq<Seq<char>>, ParseError>
    decreases t.len() - pos,
{
    if pos >= t.len() {
        Err(failure(ParseErrorKind::UnexpectedEnd, end_offset(t)))
    } else {
        match t[pos as int].token {
            None => Err(failure(ParseErrorKind::Lex, t[pos as int].span.start)),
            Some(Token::Dot) => Ok(Seq::empty()),
            Some(Token::Ident) => match parse_params_at(t, pos + 1) {
                Ok(rest) => Ok(seq![t[pos as int].text] + rest),
                Err(e) => Err(e),
            },
            Some(_) => Err(failure(ParseErrorKind::ExpectedIdent, t[pos as int].span.start)),
        }
    }
}

/// The expression that starts at `pos`. It ends `width` tokens further on.
pub open spec fn parse_expr_at(t: Seq<LexemeView>, pos: nat) -> Result<ExprView, ParseError>
    decreases remaining(t, pos), 0nat,
{
    if pos >= t.len() {
        Err(failure(ParseErrorKind::UnexpectedEnd, end_offset(t)))
    } else {
        let first = t[pos as int];
        match first.token {
            None => Err(failure(ParseErrorKind::Lex, first.span.start)),
            Some(Token::Ident) => Ok(
                ExprView { kind: ExprKindView::Ident(first.text), span: first.span },
            ),
            Some(Token::Number(n)) => Ok(
                ExprView { kind: ExprKindView::Number(n), span: first.span },
            ),
            Some(Token::Lambda) => match parse_params_at(t, pos + 1) {
                Err(e) => Err(e),
                Ok(params) => match parse_expr_at(t, pos + 2 + params.len()) {
                    Err(e) => Err(e),
                    Ok(body) => Ok(
                        ExprView {
                            kind: ExprKindView::Lambda(params, Box::new(body)),
                            span: Span { start: first.span.start, end: body.span.end },
                        },
                    ),
                },
            },
            Some(Token::AppliStart) => match parse_expr_at(t, pos + 1) {
                Err(e) => Err(e),
                Ok(callee) => match parse_args_at(t, pos + 1 + width(callee)) {
                    Err(e) => Err(e),
                    Ok(args) => Ok(
                        ExprView {
                            kind: ExprKindView::Call(Box::new(callee), args),
                            span: Span {
                                start: first.span.start,
                                end: t[(pos + 1 + width(callee) + widths(args)) as int].span.end,
                            },
                        },
                    ),
                },
            },
            Some(_) => Err(failure(ParseErrorKind::UnexpectedToken, first.span.start)),
        }
    }
}

/// The arguments that start at `pos`: the expressions up to the closing
/// `AppliEnd`, which stands `widths` tokens further on.
pub open spec fn parse_args_at(t: Seq<LexemeView>, pos: nat) -> Result<Seq<ExprView>, ParseError>
    decreases remaining(t, pos), 1nat,
{
    if pos >= t.len() {
        Err(failure(ParseErrorKind::UnexpectedEnd, end_offset(t)))
    } else {
        match t[pos as int].token {
            None => Err(failure(ParseErrorKind::Lex, t[pos as int].span.start)),
            Some(Token::AppliEnd) => Ok(Seq::empty()),
            Some(_) => match parse_expr_at(t, pos) {
                Err(e) => Err(e),
                Ok(arg) => {
                    proof {
                        lemma_width_positive(arg);
                    }
                    match parse_args_at(t, pos + width(arg)) {
                        Err(e) => Err(e),
                        Ok(rest) => Ok(seq![arg] + rest),
                    }
                },
            },
        }
    }
}

/// Every expression is written with at least one token.
pub proof fn lemma_width_positive(e: ExprView)
    ensures
        width(e) >= 1,
{
}

/// A parsed parameter list, with its `Dot`, lies inside the input.
pub proof fn lemma_params_within(t: Seq<LexemeView>, pos: nat)
    requires
        parse_params_at(t, pos) is Ok,
    ensures
        pos + parse_params_at(t, pos).unwrap().len() < t.len(),
    decreases remaining(t, pos),
{
    if t[pos as int].token == Some(Token::Ident) {
        lemma_params_within(t, pos + 1);
    }
}

/// A parsed expression lies inside the input: the tokens it is written
/// with start at `pos` and end at or before the end.
pub proof fn lemma_expr_within(t: Seq<LexemeView>, pos: nat)
    requires
        parse_expr_at(t, pos) is Ok,
    ensures
        pos + width(parse_expr_at(t, pos).unwrap()) <= t.len(),
    decreases remaining(t, pos), 0nat,
{
    match t[pos as int].token {
        Some(Token::Lambda) => {
            lemma_params_within(t, pos + 1);
            let params = parse_params_at(t, pos + 1).unwrap();
            lemma_expr_within(t, pos + 2 + params.len());
        },
        Some(Token::AppliStart) => {
            lemma_expr_within(t, pos + 1);
            let callee = parse_expr_at(t, pos + 1).unwrap();
            lemma_width_positive(callee);
            lemma_args_within(t, pos + 1 + width(callee));
        },
        _ => {},
    }
}

/// Parsed arguments, with their `AppliEnd`, lie inside the input.
pub proof fn lemma_args_within(t: Seq<LexemeView>, pos: nat)
    requires
        parse_args_at(t, pos) is Ok,
    ensures
        pos + widths(parse_args_at(t, pos).unwrap()) < t.len(),
    decreases remaining(t, pos), 1nat,
{
    if t[pos as int].token != Some(Token::AppliEnd) {
        lemma_expr_within(t, pos);
        let arg = parse_expr_at(t, pos).unwrap();
        lemma_width_positive(arg);
        lemma_args_within(t, pos + width(arg));
        let rest = parse_args_at(t, pos + width(arg)).unwrap();
        lemma_widths_prepend(arg, rest);
    }
}

/// An expression in front adds its tokens to the run's.
pub proof fn lemma_widths_prepend(e: ExprView, es: Seq<ExprView>)
    ensures
        widths(seq![e] + es) == width(e) + widths(es),
    decreases es.len(),
{
    if es.len() == 0 {
        assert(widths(seq![e]) == widths(seq![e].drop_last()) + width(seq![e].last()));
    } else {
        lemma_widths_prepend(e, es.drop_last());
        assert((seq![e] + es).drop_last() =~= seq![e] + es.drop_last());
    }
}

/// The number of tokens that a node is written with.
pub open spec fn node_width(n: NodeView) -> nat {
    match n.kind {
        NodeKindView::VariableAssign { var, expr } => 2 + width(expr),
        NodeKindView::Expr(kind) => width(ExprView { kind, span: n.span }),
    }
}

/// The top-level node that starts at `pos`, where `pos` is inside the input.
pub open spec fn parse_node_at(t: Seq<LexemeView>, pos: nat) -> Result<NodeView, ParseError> {
    match t[pos as int].token {
        None => Err(failure(ParseErrorKind::Lex, t[pos as int].span.start)),
        Some(Token::Store) => if pos + 1 >= t.len() {
            Err(failure(ParseErrorKind::UnexpectedEnd, end_offset(t)))
        } else {
            let target = t[pos as int + 1];
            match target.token {
                None => Err(failure(ParseErrorKind::Lex, target.span.start)),
                Some(Token::Ident) => match parse_expr_at(t, pos + 2) {
                    Err(e) => Err(e),
                    Ok(expr) => Ok(
                        NodeView {
                            kind: NodeKindView::VariableAssign { var: target.text, expr },
                            span: Span { start: target.span.start, end: expr.span.end },
                        },
                    ),
                },
                Some(_) => Err(failure(ParseErrorKind::ExpectedIdent, target.span.start)),
            }
        },
        Some(_) => match parse_expr_at(t, pos) {
            Err(e) => Err(e),
            Ok(expr) => Ok(NodeView { kind: NodeKindView::Expr(expr.kind), span: expr.span }),
        },
    }
}

/// The program that starts at `pos`: nodes up to the end of the input.
pub open spec fn parse_nodes_at(t: Seq<LexemeView>, pos: nat) -> Result<Seq<NodeView>, ParseError>
    decreases remaining(t, pos),
{
    if pos >= t.len() {
        Ok(Seq::empty())
    } else {
        match parse_node_at(t, pos) {
            Err(e) => Err(e),
            Ok(node) => {
                proof {
                    lemma_node_width_positive(node);
                }
                match parse_nodes_at(t, pos + node_width(node)) {
                    Err(e) => Err(e),
                    Ok(rest) => Ok(seq![node] + rest),
                }
            },
        }
    }
}

/// Every node is written with at least one token.
pub proof fn lemma_node_width_positive(n: NodeView)
    ensures
        node_width(n) >= 1,
{
    match n.kind {
        NodeKindView::VariableAssign { var, expr } => {},
        NodeKindView::Expr(kind) => {
            lemma_width_positive(ExprView { kind, span: n.span });
        },
    }
}

/// The whole input as a program.
pub open spec fn parse_program(t: Seq<LexemeView>) -> Result<Seq<NodeView>, ParseError> {
    parse_nodes_at(t, 0)
}

/// What one token of lookahead shows at `pos`: the token, nothing at the end
/// of the input, or the failure of the token source.
pub open spec fn peek_at(t: Seq<LexemeView>, pos: nat) -> Result<Option<Token>, ParseError> {
    if pos >= t.len() {
        Ok(None)
    } else {
        match t[pos as int].token {
            None => Err(failure(ParseErrorKind::Lex, t[pos as int].span.start)),
            Some(token) => Ok(Some(token)),
        }
    }
}

/// The identifier required at `pos`.
pub open spec fn parse_ident_at(t: Seq<LexemeView>, pos: nat) -> Result<Seq<char>, ParseError> {
    if pos >= t.len() {
        Err(failure(ParseErrorKind::UnexpectedEnd, end_offset(t)))
    } else {
        match t[pos as int].token {
            None => Err(failure(ParseErrorKind::Lex, t[pos as int].span.start)),
            Some(Token::Ident) => Ok(t[pos as int].text),
            Some(_) => Err(failure(ParseErrorKind::ExpectedIdent, t[pos as int].span.start)),
        }
    }
}

/// A cursor over the lexemes of one source text.
#[derive(Debug)]
pub struct Parser {
    lex: Vec<Lexeme>,
    pos: usize,
}

impl Parser {
    #[verifier::type_invariant]
    spec fn in_bounds(&self) -> bool {
        self.pos <= self.lex.len()
    }

    /// The lexemes that the parser reads, consumed ones included.
    pub closed spec fn tokens(&self) -> Seq<LexemeView> {
        lexeme_views(self.lex@)
    }

    /// How many lexemes have been consumed.
    pub closed spec fn position(&self) -> nat {
        self.pos as nat
    }

    /// A parser at the start of `lex`.
    pub fn new_from_lex(lex: Vec<Lexeme>) -> (ps: Parser)
        ensures
            ps.tokens() == lexeme_views(lex@),
            ps.position() == 0,
    {
        Parser { lex, pos: 0 }
    }

    /// The offset at which the input ends.
    fn end(&self) -> (r: usize)
        ensures
            r == end_offset(self.tokens()),
    {
        let n = self.lex.len();
        if n == 0 {
            0
        } else {
            self.lex[n - 1].span.end
        }
    }

    /// The upcoming token, left in place.
    fn peek(&self) -> (r: Result<Option<Token>, ParseError>)
        ensures
            r == peek_at(self.tokens(), self.position()),
            self.position() <= self.tokens().len(),
    {
        proof {
            use_type_invariant(self);
        }
        if self.pos < self.lex.len() {
            let l = &self.lex[self.pos];
            match l.token {
                Some(token) => Ok(Some(token)),
                None => Err(ParseError { kind: ParseErrorKind::Lex, offset: l.span.start }),
            }
        } else {
            Ok(None)
        }
    }

    /// The upcoming token, consumed.
    fn next(&mut self) -> (r: Result<Option<Token>, ParseError>)
        ensures
            r == peek_at(old(self).tokens(), old(self).position()),
            final(self).tokens() == old(self).tokens(),
            old(self).position() <= final(self).position(),
            final(self).position() == old(self).position() + (if r matches Ok(Some(_)) {
                1nat
            } else {
                0nat
            }),
            final(self).position() <= final(self).tokens().len(),
    {
        let r = self.peek();
        if let Ok(Some(_)) = r {
            assert(self.pos < self.lex.len());
            self.pos = self.pos + 1;
        }
        r
    }

    /// The value inside `opt`, or the failure for input that ended early.
    fn must<T>(&self, opt: Option<T>) -> (r: Result<T, ParseError>)
        ensures
            r == match opt {
                Some(v) => Ok::<T, ParseError>(v),
                None => Err(failure(ParseErrorKind::UnexpectedEnd, end_offset(self.tokens()))),
            },
    {
        match opt {
            Some(v) => Ok(v),
            None => Err(ParseError { kind: ParseErrorKind::UnexpectedEnd, offset: self.end() }),
        }
    }

    /// The text of the lexeme consumed last.
    fn slice(&self) -> (r: String)
        requires
            0 < self.position() <= self.tokens().len(),
        ensures
            r@ == self.tokens()[self.position() - 1].text,
    {
        self.lex[self.pos - 1].text.clone()
    }

    /// The span of the lexeme consumed last.
    fn span(&self) -> (r: Span)
        requires
            0 < self.position() <= self.tokens().len(),
        ensures
            r == self.tokens()[self.position() - 1].span,
    {
        let l = &self.lex[self.pos - 1];
        Span { start: l.span.start, end: l.span.end }
    }

    /// Consumes the identifier that must come next and returns its text.
    fn parse_ident(&mut self) -> (r: Result<String, ParseError>)
        ensures
            final(self).tokens() == old(self).tokens(),
            old(self).position() <= final(self).position(),
            match parse_ident_at(old(self).tokens(), old(self).position()) {
                Ok(name) => r matches Ok(s) && s@ == name && final(self).position() == old(self).position() + 1,
                Err(e) => r == Err::<String, ParseError>(e),
            },
            final(self).position() <= final(self).tokens().len(),
    {
        let token = match self.next() {
            Ok(token) => token,
            Err(e) => { return Err(e); },
        };
        let token = match self.must(token) {
            Ok(token) => token,
            Err(e) => { return Err(e); },
        };
        match token {
            Token::Ident => Ok(self.slice()),
            _ => Err(ParseError { kind: ParseErrorKind::ExpectedIdent, offset: self.span().start }),
        }
    }

    /// Consumes a parameter list: identifiers, then the `Dot` that closes it.
    fn parse_params(&mut self) -> (r: Result<Vec<String>, ParseError>)
        ensures
            final(self).tokens() == old(self).tokens(),
            old(self).position() <= final(self).position(),
            match parse_params_at(old(self).tokens(), old(self).position()) {
                Ok(params) => r matches Ok(v) && name_views(v@) == params && final(self).position() == old(self).position() + params.len() + 1,
                Err(e) => r == Err::<Vec<String>, ParseError>(e),
            },
            final(self).position() <= final(self).tokens().len(),
    {
        let ghost t = self.tokens();
        let ghost start = self.position();
        let mut ids: Vec<String> = Vec::new();
        proof {
            use_type_invariant(&*self);
        }
        loop
            invariant
                t == old(self).tokens(),
                start == old(self).position(),
                self.tokens() == t,
                self.position() == start + ids.len(),
                self.position() <= t.len(),
                parse_params_at(t, start) == (match parse_params_at(t, self.position()) {
                    Ok(rest) => Ok::<Seq<Seq<char>>, ParseError>(name_views(ids@) + rest),
                    Err(e) => Err(e),
                }),
            decreases t.len() - self.position(),
        {
            let ahead = match self.peek() {
                Ok(ahead) => ahead,
                Err(e) => { return Err(e); },
            };
            let ahead = match self.must(ahead) {
                Ok(ahead) => ahead,
                Err(e) => { return Err(e); },
            };
            if let Token::Dot = ahead {
                let _ = self.next();
                return Ok(ids);
            }
            let ghost before = name_views(ids@);
            let ghost here = self.position();
            let id = match self.parse_ident() {
                Ok(id) => id,
                Err(e) => { return Err(e); },
            };
            ids.push(id);
            proof {
                match parse_params_at(t, self.position()) {
                    Ok(rest) => {
                        assert(name_views(ids@) + rest =~= before + (seq![t[here as int].text]
                            + rest));
                    },
                    Err(_) => {},
                }
            }
        }
    }

    /// Consumes the arguments of an application: expressions, then the
    /// `AppliEnd` that closes it.
    fn parse_args(&mut self) -> (r: Result<Vec<Expr>, ParseError>)
        ensures
            final(self).tokens() == old(self).tokens(),
            old(self).position() <= final(self).position(),
            match parse_args_at(old(self).tokens(), old(self).position()) {
                Ok(args) => r matches Ok(v) && expr_views(v@) == args && final(self).position()
                    == old(self).position() + widths(args) + 1,
                Err(e) => r == Err::<Vec<Expr>, ParseError>(e),
            },
            final(self).position() <= final(self).tokens().len(),
        decreases remaining(old(self).tokens(), old(self).position()), 1nat,
    {
        let ghost t = self.tokens();
        let ghost start = self.position();
        let mut ops: Vec<Expr> = Vec::new();
        proof {
            use_type_invariant(&*self);
        }
        loop
            invariant
                t == old(self).tokens(),
                start == old(self).position(),
                self.tokens() == t,
                self.position() == start + widths(expr_views(ops@)),
                self.position() <= t.len(),
                parse_args_at(t, start) == (match parse_args_at(t, self.position()) {
                    Ok(rest) => Ok::<Seq<ExprView>, ParseError>(expr_views(ops@) + rest),
                    Err(e) => Err(e),
                }),
            decreases t.len() - self.position(),
        {
            let ahead = match self.peek() {
                Ok(ahead) => ahead,
                Err(e) => { return Err(e); },
            };
            let ahead = match self.must(ahead) {
                Ok(ahead) => ahead,
                Err(e) => { return Err(e); },
            };
            if let Token::AppliEnd = ahead {
                let _ = self.next();
                return Ok(ops);
            }
            let ghost before = expr_views(ops@);
            let ghost here = self.position();
            let op = match self.parse_expr() {
                Ok(op) => op,
                Err(e) => { return Err(e); },
            };
            proof {
                lemma_width_positive(op.view());
            }
            ops.push(op);
            proof {
                let arg = parse_expr_at(t, here).unwrap();
                assert(expr_views(ops@) =~= before.push(arg));
                lemma_widths_push(before, arg);
                match parse_args_at(t, self.position()) {
                    Ok(rest) => {
                        assert(expr_views(ops@) + rest =~= before + (seq![arg] + rest));
                    },
                    Err(_) => {},
                }
            }
        }
    }

    /// Consumes one expression.
    pub fn parse_expr(&mut self) -> (r: Result<Expr, ParseError>)
        ensures
            final(self).tokens() == old(self).tokens(),
            old(self).position() <= final(self).position(),
            match parse_expr_at(old(self).tokens(), old(self).position()) {
                Ok(e) => r matches Ok(x) && x.view() == e && final(self).position() == old(
                    self).position() + width(e),
                Err(e) => r == Err::<Expr, ParseError>(e),
            },
            final(self).position() <= final(self).tokens().len(),
        decreases remaining(old(self).tokens(), old(self).position()), 0nat,
    {
        let token = match self.next() {
            Ok(token) => token,
            Err(e) => { return Err(e); },
        };
        let token = match self.must(token) {
            Ok(token) => token,
            Err(e) => { return Err(e); },
        };
        match token {
            Token::Ident => Ok(Expr { kind: ExprKind::Ident(self.slice()), span: self.span() }),
            Token::Number(n) => Ok(Expr { kind: ExprKind::Number(n), span: self.span() }),
            Token::Lambda => {
                let start = self.span().start;
                let ids = match self.parse_params() {
                    Ok(ids) => ids,
                    Err(e) => { return Err(e); },
                };
                let bd = match self.parse_expr() {
                    Ok(bd) => bd,
                    Err(e) => { return Err(e); },
                };
                let end = bd.span.end;
                Ok(Expr { kind: ExprKind::Lambda(ids, Box::new(bd)), span: Span { start, end } })
            },
            Token::AppliStart => {
                let start = self.span().start;
                let f = match self.parse_expr() {
                    Ok(f) => f,
                    Err(e) => { return Err(e); },
                };
                proof {
                    lemma_width_positive(f.view());
                }
                let ops = match self.parse_args() {
                    Ok(ops) => ops,
                    Err(e) => { return Err(e); },
                };
                let end = self.span().end;
                let call = Expr { kind: ExprKind::Call(Box::new(f), ops), span: Span { start, end } };
                proof {
                    lemma_call_view(call.kind);
                }
                Ok(call)
            },
            _ => Err(ParseError { kind: ParseErrorKind::UnexpectedToken, offset: self.span().start }),
        }
    }

    /// Consumes one top-level node, or returns `None` at the end of the
    /// input.
    pub fn parse_node(&mut self) -> (r: Result<Option<Node>, ParseError>)
        ensures
            final(self).tokens() == old(self).tokens(),
            old(self).position() <= final(self).position(),
            old(self).position() >= old(self).tokens().len() ==> r == Ok::<
                Option<Node>,
                ParseError,
            >(None) && final(self).position() == old(self).position(),
            old(self).position() < old(self).tokens().len() ==> match parse_node_at(
                old(self).tokens(),
                old(self).position(),
            ) {
                Ok(n) => r matches Ok(Some(x)) && x.view() == n && final(self).position() == old(
                    self).position() + node_width(n),
                Err(e) => r == Err::<Option<Node>, ParseError>(e),
            },
            final(self).position() <= final(self).tokens().len(),
    {
        let ahead = match self.peek() {
            Ok(Some(ahead)) => ahead,
            Ok(None) => { return Ok(None); },
            Err(e) => { return Err(e); },
        };
        match ahead {
            Token::Store => {
                let _ = self.next();
                let id = match self.parse_ident() {
                    Ok(id) => id,
                    Err(e) => { return Err(e); },
                };
                let span_start = self.span().start;
                let expr = match self.parse_expr() {
                    Ok(expr) => expr,
                    Err(e) => { return Err(e); },
                };
                let span_end = expr.span.end;
                Ok(
                    Some(
                        Node {
                            kind: NodeKind::VariableAssign { var: id, expr },
                            span: Span { start: span_start, end: span_end },
                        },
                    ),
                )
            },
            _ => match self.parse_expr() {
                Ok(a) => Ok(Some(Node { kind: NodeKind::Expr(a.kind), span: a.span })),
                Err(e) => Err(e),
            },
        }
    }
}

/// Parses a source text: splits it into lexemes and reads them as a
/// program.
pub fn parse(src: &str) -> (r: Result<Ast, ParseError>)
    ensures
        match parse_program(lex(src@)) {
            Ok(nodes) => r matches Ok(ast) && node_views(ast@) == nodes,
            Err(e) => r == Err::<Ast, ParseError>(e),
        },
{
    let mut ps = Parser::new_from_lex(tokenize(src));
    parse_ast(&mut ps)
}

/// Parses the rest of the input as a program: every node, in order, or the
/// first failure and nothing else.
pub fn parse_ast(ps: &mut Parser) -> (r: Result<Ast, ParseError>)
    ensures
        final(ps).tokens() == old(ps).tokens(),
        old(ps).position() <= final(ps).position() <= final(ps).tokens().len(),
        match parse_nodes_at(old(ps).tokens(), old(ps).position()) {
            Ok(nodes) => r matches Ok(ast) && node_views(ast@) == nodes && final(ps).position()
                == final(ps).tokens().len(),
            Err(e) => r == Err::<Ast, ParseError>(e),
        },
{
    let ghost t = ps.tokens();
    let ghost start = ps.position();
    let mut ast: Ast = Vec::new();
    loop
        invariant
            t == old(ps).tokens(),
            start == old(ps).position(),
            ps.tokens() == t,
            start <= ps.position(),
            parse_nodes_at(t, start) == (match parse_nodes_at(t, ps.position()) {
                Ok(rest) => Ok::<Seq<NodeView>, ParseError>(node_views(ast@) + rest),
                Err(e) => Err(e),
            }),
        decreases remaining(t, ps.position()),
    {
        let ghost before = node_views(ast@);
        let ghost here = ps.position();
        let n = match ps.parse_node() {
            Ok(Some(n)) => n,
            Ok(None) => {
                return Ok(ast);
            },
            Err(e) => { return Err(e); },
        };
        proof {
            lemma_node_width_positive(n.view());
        }
        ast.push(n);
        proof {
            let node = parse_node_at(t, here).unwrap();
            match parse_nodes_at(t, ps.position()) {
                Ok(rest) => {
                    assert(node_views(ast@) + rest =~= before + (seq![node] + rest));
                },
                Err(_) => {},
            }
        }
    }
}

/// One more expression adds its tokens to the run's.
pub proof fn lemma_widths_push(es: Seq<ExprView>, e: ExprView)
    ensures
        widths(es.push(e)) == widths(es) + width(e),
{
    assert(es.push(e).drop_last() =~= es);
}

} // verus!

//! The syntax tree and its mathematical model.

use vstd::prelude::*;
use crate::lexer::Span;

verus! {

/// A program: top-level nodes in the order in which they run.
pub type Ast = Vec<Node>;

/// A top-level unit with the source range it was read from.
#[derive(Debug, PartialEq, Eq)]
pub struct Node {
    pub kind: NodeKind,
    pub span: Span,
}

/// What a top-level unit is.
#[derive(Debug, PartialEq, Eq)]
pub enum NodeKind {
    /// `def var expr`: binds `var` to the value of `expr`.
    VariableAssign { var: String, expr: Expr },
    /// A bare expression, evaluated for its effects.
    Expr(ExprKind),
}

/// An expression with the source range from its first to its last token.
#[derive(Debug, PartialEq, Eq)]
pub struct Expr {
    pub kind: ExprKind,
    pub span: Span,
}

/// What an expression is.
#[derive(Debug, PartialEq, Eq)]
pub enum ExprKind {
    /// A variable reference.
    Ident(String),
    /// An integer literal.
    Number(u64),
    /// Parameters, in order and possibly none, and the body.
    Lambda(Vec<String>, Box<Expr>),
    /// The callee and its arguments, in order and possibly none.
    Call(Box<Expr>, Vec<Expr>),
}

/// Model of an [`Expr`].
pub ghost struct ExprView {
    pub kind: ExprKindView,
    pub span: Span,
}

/// Model of an [`ExprKind`]: names are sequences of characters, lists are
/// sequences.
pub ghost enum ExprKindView {
    Ident(Seq<char>),
    Number(u64),
    Lambda(Seq<Seq<char>>, Box<ExprView>),
    Call(Box<ExprView>, Seq<ExprView>),
}

/// Model of a [`Node`].
pub ghost struct NodeView {
    pub kind: NodeKindView,
    pub span: Span,
}

/// Model of a [`NodeKind`].
pub ghost enum NodeKindView {
    VariableAssign { var: Seq<char>, expr: ExprView },
    Expr(ExprKindView),
}

/// The names in a list, each as its sequence of characters.
pub open spec fn name_views(names: Seq<String>) -> Seq<Seq<char>> {
    Seq::new(names.len(), |i: int| names[i]@)
}

impl Expr {
    /// The model of the expression.
    pub open spec fn view(&self) -> ExprView
        decreases self,
    {
        ExprView { kind: self.kind.view(), span: self.span }
    }
}

impl ExprKind {
    /// The model of the expression's kind.
    pub open spec fn view(&self) -> ExprKindView
        decreases self,
    {
        match self {
            ExprKind::Ident(name) => ExprKindView::Ident(name@),
            ExprKind::Number(n) => ExprKindView::Number(*n),
            ExprKind::Lambda(params, body) => ExprKindView::Lambda(
                name_views(params@),
                Box::new(body.view()),
            ),
            ExprKind::Call(callee, args) => ExprKindView::Call(
                Box::new(callee.view()),
                Seq::new(
                    args.len() as nat,
                    |i: int|
                        if 0 <= i < args.len() {
                            args[i].view()
                        } else {
                            arbitrary()
                        },
                ),
            ),
        }
    }
}

/// The models of a list of expressions, in order.
pub open spec fn expr_views(exprs: Seq<Expr>) -> Seq<ExprView> {
    Seq::new(exprs.len(), |i: int| exprs[i].view())
}

/// The model of an application holds the model of its callee and the models
/// of its arguments, in order.
pub proof fn lemma_call_view(kind: ExprKind)
    requires
        kind is Call,
    ensures
        kind.view() == ExprKindView::Call(
            Box::new(kind->Call_0.view()),
            expr_views(kind->Call_1@),
        ),
{
    match kind {
        ExprKind::Call(callee, args) => {
            assert(kind.view()->Call_1 =~= expr_views(args@));
        },
        _ => {},
    }
}

impl NodeKind {
    /// The model of the node's kind.
    pub open spec fn view(&self) -> NodeKindView {
        match self {
            NodeKind::VariableAssign { var, expr } => NodeKindView::VariableAssign {
                var: var@,
                expr: expr.view(),
            },
            NodeKind::Expr(kind) => NodeKindView::Expr(kind.view()),
        }
    }
}

impl Node {
    /// The model of the node.
    pub open spec fn view(&self) -> NodeView {
        NodeView { kind: self.kind.view(), span: self.span }
    }
}

/// The models of a program's nodes, in order.
pub open spec fn node_views(nodes: Seq<Node>) -> Seq<NodeView> {
    Seq::new(nodes.len(), |i: int| nodes[i].view())
}

} // verus!

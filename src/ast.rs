use crate::span::Spanned;
use vstd::prelude::*;

verus! {

/// A statement of the language.
#[derive(Debug)]
pub enum Statement {
    Block(Vec<Spanned<Statement>>),
    Print(Box<Spanned<Expression>>),
    Expression(Box<Spanned<Expression>>),
}

/// An arithmetic expression; a number keeps its numeral text.
#[derive(Debug)]
pub enum Expression {
    Number(String),
    Negation(Box<Spanned<Expression>>),
    Addition(Box<Spanned<Expression>>, Box<Spanned<Expression>>),
    Subtraction(Box<Spanned<Expression>>, Box<Spanned<Expression>>),
    Multiplication(Box<Spanned<Expression>>, Box<Spanned<Expression>>),
    Division(Box<Spanned<Expression>>, Box<Spanned<Expression>>),
}

/// The model of an expression node: its shape and its inclusive span.
pub struct ExprNode {
    pub kind: ExprKind,
    pub start: int,
    pub end: int,
}

pub enum ExprKind {
    Number(Seq<char>),
    Negation(Box<ExprNode>),
    Addition(Box<ExprNode>, Box<ExprNode>),
    Subtraction(Box<ExprNode>, Box<ExprNode>),
    Multiplication(Box<ExprNode>, Box<ExprNode>),
    Division(Box<ExprNode>, Box<ExprNode>),
}

/// The model of a statement node: its shape and its inclusive span.
pub struct StmtNode {
    pub kind: StmtKind,
    pub start: int,
    pub end: int,
}

pub enum StmtKind {
    Block(Seq<StmtNode>),
    Print(ExprNode),
    Expression(ExprNode),
}

pub open spec fn expr_view(e: Spanned<Expression>) -> ExprNode
    decreases e,
{
    let kind = match e.item {
        Expression::Number(s) => ExprKind::Number(s@),
        Expression::Negation(x) => ExprKind::Negation(Box::new(expr_view(*x))),
        Expression::Addition(l, r) => ExprKind::Addition(
            Box::new(expr_view(*l)),
            Box::new(expr_view(*r)),
        ),
        Expression::Subtraction(l, r) => ExprKind::Subtraction(
            Box::new(expr_view(*l)),
            Box::new(expr_view(*r)),
        ),
        Expression::Multiplication(l, r) => ExprKind::Multiplication(
            Box::new(expr_view(*l)),
            Box::new(expr_view(*r)),
        ),
        Expression::Division(l, r) => ExprKind::Division(
            Box::new(expr_view(*l)),
            Box::new(expr_view(*r)),
        ),
    };
    ExprNode { kind, start: e.span.start as int, end: e.span.end as int }
}

pub open spec fn stmt_view(s: Spanned<Statement>) -> StmtNode
    decreases s, 0nat,
{
    let kind = match s.item {
        Statement::Block(v) => {
            proof {
                broadcast use vstd::std_specs::vec::axiom_vec_decreases_to_view;
            }
            StmtKind::Block(stmts_view(v@, v@.len() as int))
        },
        Statement::Print(x) => StmtKind::Print(expr_view(*x)),
        Statement::Expression(x) => StmtKind::Expression(expr_view(*x)),
    };
    StmtNode { kind, start: s.span.start as int, end: s.span.end as int }
}

/// The models of the first `n` statements of `v`.
pub open spec fn stmts_view(v: Seq<Spanned<Statement>>, n: int) -> Seq<StmtNode>
    decreases v, n,
{
    if n <= 0 || n > v.len() {
        Seq::empty()
    } else {
        proof {
            broadcast use vstd::seq::axiom_seq_index_decreases;
        }
        stmts_view(v, n - 1).push(stmt_view(v[n - 1]))
    }
}

} // verus!

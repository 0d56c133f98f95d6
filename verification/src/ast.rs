//! The abstract syntax tree of the source language.

use vstd::prelude::*;

use crate::ident::Id;

verus! {

/// A source program: a statement list.
#[derive(Debug)]
pub struct Program {
    pub stmts: Vec<Stmt>,
}

/// A statement.
#[derive(Debug)]
pub enum Stmt {
    Assign(Id, Expr),
    Print(Expr),
    Read(Expr),
    If { guard: Expr, tt: Vec<Stmt>, ff: Vec<Stmt> },
}

/// An expression.
#[derive(Debug)]
pub enum Expr {
    Var(Id),
    Const(i64),
    BOp { op: BOp, lhs: Box<Expr>, rhs: Box<Expr> },
    Negate(Box<Expr>),
}

/// A binary operator.
#[derive(Clone, Copy, Debug, PartialEq, Eq, Structural)]
pub enum BOp {
    Mul,
    Div,
    Add,
    Sub,
    Lt,
}

} // verus!

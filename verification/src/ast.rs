use vstd::prelude::*;
use crate::span::Spanned;

verus! {

/// A literal of the source language.  The language has exactly one primitive
/// type, so the only literal form is numeric.
#[derive(Clone, Copy, PartialEq, Eq, Structural, Debug)]
pub enum Literal {
    Num(i64),
}

/// A prefix operator of the source language.
#[derive(Clone, Copy, PartialEq, Eq, Structural, Debug)]
pub enum PrefixOperator {
    Negate,
}

/// A binary operator of the source language.
#[derive(Clone, Copy, PartialEq, Eq, Structural, Debug)]
pub enum BinaryOperator {
    Add,
    Subtract,
    Multiply,
    Divide,
}

/// An expression of the input syntax tree.  Every sub-expression is paired
/// with its span.
#[derive(PartialEq, Debug)]
pub enum Expr {
    Var(Spanned<String>),
    Literal(Spanned<Literal>),
    Prefix { op: Spanned<PrefixOperator>, expr: Box<Spanned<Expr>> },
    Binary { op: Spanned<BinaryOperator>, lhs: Box<Spanned<Expr>>, rhs: Box<Spanned<Expr>> },
}

/// A statement of the input syntax tree.
#[derive(PartialEq, Debug)]
pub enum Statement {
    Expr(Spanned<Expr>),
    Block(Spanned<Vec<Spanned<Statement>>>),
    Let { name: Spanned<String>, value: Box<Spanned<Expr>> },
    Print(Spanned<Expr>),
}

/// A whole program: the sequence of its top-level statements.
#[derive(PartialEq, Debug)]
pub struct Ast {
    pub statements: Spanned<Vec<Spanned<Statement>>>,
}

} // verus!

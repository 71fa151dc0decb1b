use vstd::prelude::*;
use crate::span::Spanned;

verus! {

/// A resolved, concrete type of an expression.  The set is closed; the source
/// language currently has exactly one primitive type, the numeric one.
#[derive(Clone, Copy, PartialEq, Eq, Structural, Debug)]
pub enum Type {
    Num,
}

/// A literal of the typed tree.
#[derive(Clone, Copy, PartialEq, Eq, Structural, Debug)]
pub enum Literal {
    Num(i64),
}

/// A prefix operator of the typed tree.
#[derive(Clone, Copy, PartialEq, Eq, Structural, Debug)]
pub enum PrefixOperator {
    Negate,
}

/// A binary operator of the typed tree.
#[derive(Clone, Copy, PartialEq, Eq, Structural, Debug)]
pub enum BinaryOperator {
    Add,
    Subtract,
    Multiply,
    Divide,
}

/// A typed expression: the expression form together with its resolved type.
#[derive(PartialEq, Debug)]
pub struct Expr {
    pub expr: ExprKind,
    pub ty: Type,
}

/// The form of a typed expression.  It is isomorphic to the input expression
/// form, and every node keeps the span of its source node.
#[derive(PartialEq, Debug)]
pub enum ExprKind {
    Var(Spanned<String>),
    Literal(Spanned<Literal>),
    Prefix { op: Spanned<PrefixOperator>, expr: Box<Spanned<Expr>> },
    Binary { op: Spanned<BinaryOperator>, lhs: Box<Spanned<Expr>>, rhs: Box<Spanned<Expr>> },
}

/// A typed statement, isomorphic to the input statement form.
#[derive(PartialEq, Debug)]
pub enum Statement {
    Expr(Spanned<Expr>),
    Block(Spanned<Vec<Spanned<Statement>>>),
    Let { name: Spanned<String>, value: Box<Spanned<Expr>> },
    Print(Spanned<Expr>),
}

/// A typed program.
#[derive(PartialEq, Debug)]
pub struct TypedAst {
    pub statements: Spanned<Vec<Spanned<Statement>>>,
}

impl Literal {
    /// The intrinsic type of a literal.
    pub fn ty(&self) -> (t: Type)
        ensures
            t == Type::Num,
    {
        match self {
            Literal::Num(_) => Type::Num,
        }
    }
}

impl Type {
    /// The operator-applicability table for prefix operators: the type of
    /// applying `op` to an operand of type `self`, or an operator-mismatch
    /// marker if no rule matches.  Every entry of the current table maps to
    /// the numeric type.
    pub fn get_prefix_type(&self, op: PrefixOperator) -> (r: Result<Type, ()>)
        ensures
            r == Result::<Type, ()>::Ok(Type::Num),
    {
        match self {
            Type::Num => match op {
                PrefixOperator::Negate => Ok(Type::Num),
            },
        }
    }

    /// The operator-applicability table for binary operators: the type of
    /// combining operands of types `self` and `rhs`, or an operator-mismatch
    /// marker if no rule matches.  Every entry of the current table maps to
    /// the numeric type.
    pub fn get_binary_type(&self, rhs: &Type) -> (r: Result<Type, ()>)
        ensures
            r == Result::<Type, ()>::Ok(Type::Num),
    {
        match (self, rhs) {
            (Type::Num, Type::Num) => Ok(Type::Num),
        }
    }
}

} // verus!

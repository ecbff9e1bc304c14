//! The kernel's expression tree, as built through the predicate visitor.

use vstd::prelude::*;

verus! {

/// A binary operator of the expression language.
#[derive(Clone, Copy, Debug, PartialEq, Eq)]
pub enum BinaryOperator {
    And,
    Or,
    Plus,
    Minus,
    Multiply,
    Divide,
    LessThan,
    LessThanOrEqual,
    GreaterThan,
    GreaterThanOrEqual,
    Equal,
    NotEqual,
}

/// A literal value.
#[derive(Debug, PartialEq, Eq)]
pub enum Scalar {
    Integer(i32),
    Long(i64),
    String(String),
    Boolean(bool),
    Null,
}

/// An expression over the columns of a table.
#[derive(Debug, PartialEq, Eq)]
pub enum Expression {
    /// A literal value.
    Literal(Scalar),
    /// The column with the given name.
    Column(String),
    /// `left op right`.
    BinaryOperation { op: BinaryOperator, left: Box<Expression>, right: Box<Expression> },
}

} // verus!

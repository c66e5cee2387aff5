//! The parsed form of a program. The expressions that give a new qubit's
//! amplitudes are carried through as values of the parameter `E`: deciding
//! what a statement does never looks inside them.

use vstd::prelude::*;

verus! {

/// The kinds of node that a parsed program is made of.
#[derive(Clone, Copy, Debug, PartialEq, Eq, Structural)]
pub enum NodeType {
    Program,
    CreateStatement,
    ApplyStatement,
    MeasureStatement,
    DisplayStatement,
    ComplexArray,
    RealNumber,
    ImaginaryNumber,
    Number,
    InfixExpression,
    PrefixExpression,
}

/// A whole program: its statements, run in order.
pub struct ProgramNode<E> {
    pub node_type: NodeType,
    pub statements: Vec<StatementNode<E>>,
}

/// One statement of a program.
pub enum StatementNode<E> {
    /// Declares a qubit with the given amplitudes.
    CreateStatement { identifier: String, complex_array: ComplexArrayNode<E> },
    /// Applies gate `identifier2` to qubit `identifier1`.
    ApplyStatement { identifier1: String, identifier2: String },
    /// Measures a qubit.
    MeasureStatement { identifier: String },
    /// Shows a qubit's state or a gate's matrix.
    DisplayStatement { identifier: String },
}

/// The amplitude expressions of a new qubit.
pub struct ComplexArrayNode<E> {
    pub node_type: NodeType,
    pub values: Vec<E>,
}

/// What an infix operator of an amplitude expression does.
#[derive(Clone, Copy, Debug, PartialEq, Eq, Structural)]
pub enum InfixOperator {
    Add,
    Subtract,
    Multiply,
    Divide,
    /// Any other operator: the expression evaluates to zero.
    Unrecognized,
}

/// What a prefix operator of an amplitude expression does.
#[derive(Clone, Copy, Debug, PartialEq, Eq, Structural)]
pub enum PrefixOperator {
    Negate,
    /// Any other operator: the operand passes through unchanged.
    Keep,
}

/// The meaning of an infix operator's text.
pub open spec fn infix_operator_of(op: Seq<char>) -> InfixOperator {
    if op == "+"@ {
        InfixOperator::Add
    } else if op == "-"@ {
        InfixOperator::Subtract
    } else if op == "*"@ {
        InfixOperator::Multiply
    } else if op == "/"@ {
        InfixOperator::Divide
    } else {
        InfixOperator::Unrecognized
    }
}

/// The meaning of a prefix operator's text.
pub open spec fn prefix_operator_of(op: Seq<char>) -> PrefixOperator {
    if op == "-"@ {
        PrefixOperator::Negate
    } else {
        PrefixOperator::Keep
    }
}

/// Reads an infix operator.
pub fn infix_operator(op: &String) -> (r: InfixOperator)
    ensures
        r == infix_operator_of(op@),
{
    if *op == String::from_str("+") {
        InfixOperator::Add
    } else if *op == String::from_str("-") {
        InfixOperator::Subtract
    } else if *op == String::from_str("*") {
        InfixOperator::Multiply
    } else if *op == String::from_str("/") {
        InfixOperator::Divide
    } else {
        InfixOperator::Unrecognized
    }
}

/// Reads a prefix operator.
pub fn prefix_operator(op: &String) -> (r: PrefixOperator)
    ensures
        r == prefix_operator_of(op@),
{
    if *op == String::from_str("-") {
        PrefixOperator::Negate
    } else {
        PrefixOperator::Keep
    }
}

} // verus!

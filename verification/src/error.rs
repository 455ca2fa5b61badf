//! The reasons for which an evaluation fails.

use vstd::prelude::*;

verus! {

/// Why an evaluation was abandoned. An evaluation that fails yields one of
/// these and never a partial result.
#[derive(Debug, Clone, Copy, PartialEq, Eq, Structural)]
pub enum Error {
    /// The token source failed while producing the next token.
    ReadError,
    /// A token is neither a digit string that fits the operand range nor a
    /// single operator character.
    ParseError,
    /// A reduction found fewer than two operands or no operator.
    NotEnoughElements,
    /// A reduction popped an operator of unrecognized kind.
    UnknownOperator,
    /// After draining, the operand stack did not hold exactly one value.
    StackUnderflow,
    /// A division found zero as its right-hand operand.
    DivisionByZero,
    /// A grouping operator reached a reduction.
    UnsupportedConstruct,
    /// The result of a reduction does not fit the operand range.
    Overflow,
}

} // verus!

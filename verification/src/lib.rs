//! A calculator core: a two-stack, operator-precedence evaluator for
//! arithmetic expressions over `i32`.
//!
//! An expression is a text of numbers and the operators `+ - * /`, separated
//! by single spaces. [`evaluate`] splits it into pieces, classifies each
//! piece as a token and feeds the tokens to an [`Evaluator`], which keeps an
//! operand stack and an operator stack and reduces pending operators as
//! precedence demands.
//!
//! - [`op`]: operator kinds and their precedence.
//! - [`arith`]: what one operator does to two operands.
//! - [`text`]: digits, whitespace, and the pieces of a text.
//! - [`token`]: tokens and the tokenizer.
//! - [`machine`]: the two stacks as sequences, and each step on them.
//! - [`evaluator`]: the executable evaluator, step by step the machine.
//! - [`driver`]: from a text, or from tokens, to the value.
//! - [`infix`]: the usual meaning of an infix expression, and the proof
//!   that the evaluator computes it.
//! - [`error`]: why an evaluation fails.

pub mod arith;
pub mod driver;
pub mod error;
pub mod evaluator;
pub mod infix;
pub mod machine;
pub mod op;
pub mod text;
pub mod token;

pub use driver::{evaluate, evaluate_tokens};
pub use error::Error;
pub use evaluator::Evaluator;
pub use op::{is_op, Op, OpKind};
pub use token::{classify, is_num, lex, Token};

//! Evaluation of integer formulas in reverse Polish notation.
//!
//! A formula is a line of whitespace-separated tokens: decimal `i32`
//! literals and the operators `+ - * / %`. Tokens are applied left to right
//! to an operand stack; exactly one value must remain.

pub mod calc;
pub mod laws;
pub mod lexer;
pub mod number;

pub use calc::{EvalError, Mode, RpnCalculator, Snapshot};

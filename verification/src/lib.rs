//! A small register machine for teaching: the expression tree of its source
//! language, the two rewrite passes that run before code generation, its
//! instruction set, and an interpreter that can be stepped and looked into.
//!
//! - [`types`]: operators, expressions, registers, instructions, failures.
//! - [`arith`]: the machine's 32-bit arithmetic.
//! - [`text`]: numbers as decimal text, both ways.
//! - [`passes`]: constant folding and strength reduction.
//! - [`eval`]: the value of an expression, which the passes preserve.
//! - [`machine`]: the machine as a mathematical state and its steps.
//! - [`interpreter`]: the executable machine.
//! - [`registers`], [`variables`]: the register store and the inputs.
//! - [`program`]: what generated code owes the machine.
//! - [`replay`]: a run next to a machine for stepping through it again.
//! - [`report`]: failures and warnings in words.
//!
//! Every executable function is verified against its contract and cannot
//! panic.

pub mod arith;
pub mod eval;
pub mod interpreter;
pub mod machine;
pub mod passes;
pub mod program;
pub mod registers;
pub mod replay;
pub mod report;
pub mod text;
pub mod types;
pub mod variables;

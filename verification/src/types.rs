//! The data the rest of the crate works on: operators, the expression tree,
//! register names, instructions, machine capacity and the failures and
//! warnings of a run.

use vstd::prelude::*;
use vstd::string::StringExecFns;
use crate::text::{digits, push_digits};

verus! {

/// The binary operators of the source language. `Sub` doubles as the tag of
/// unary negation.
#[derive(Clone, Copy, Debug, PartialEq, Eq, Hash, Structural)]
pub enum Operator {
    Add,
    Sub,
    Mul,
    Div,
    Shl,
    Shr,
}

/// A source expression. A node owns its operands, so a value of this type
/// is a finite tree.
#[derive(Debug, PartialEq, Eq)]
pub enum Expr {
    /// An integer literal.
    Num(i32),
    /// A named input, supplied when the program runs.
    Var(String),
    /// A unary operator applied to an operand. Only `Sub` (negation) has a
    /// meaning here; the other operators are carried along untouched.
    UnaryOp(Operator, Box<Expr>),
    /// Left operand, operator, right operand.
    BinaryOp(Box<Expr>, Operator, Box<Expr>),
}

impl Expr {
    /// A copy of the whole tree.
    pub fn duplicate(&self) -> (copy: Expr)
        ensures
            copy == *self,
        decreases *self,
    {
        match self {
            Expr::Num(n) => Expr::Num(*n),
            Expr::Var(name) => Expr::Var(name.clone()),
            Expr::UnaryOp(op, operand) => Expr::UnaryOp(*op, Box::new(operand.duplicate())),
            Expr::BinaryOp(left, op, right) => Expr::BinaryOp(
                Box::new(left.duplicate()),
                *op,
                Box::new(right.duplicate()),
            ),
        }
    }
}

impl Clone for Expr {
    fn clone(&self) -> (copy: Expr)
        ensures
            copy == *self,
    {
        self.duplicate()
    }
}

impl From<i32> for Expr {
    fn from(value: i32) -> (e: Expr) {
        Expr::Num(value)
    }
}

impl vstd::std_specs::convert::FromSpecImpl<i32> for Expr {
    open spec fn obeys_from_spec() -> bool {
        true
    }

    open spec fn from_spec(value: i32) -> Expr {
        Expr::Num(value)
    }
}

/// The name of a register: its index in the register file. Whether an index
/// is in range depends on the machine the code was generated for.
#[derive(Clone, Copy, Debug, PartialEq, Eq, Hash, Structural)]
pub struct Reg(pub u8);

impl Reg {
    /// The register's index in the register file.
    pub fn index(&self) -> (i: u8)
        ensures
            i == self.0,
    {
        self.0
    }

    /// The name under which the register is shown: `r` and its index.
    pub open spec fn name_text(self) -> Seq<char> {
        "r"@ + digits(self.0 as nat)
    }

    /// The name under which the register is shown.
    pub fn name(&self) -> (name: String)
        ensures
            name@ == self.name_text(),
    {
        let mut name = String::from_str("r");
        push_digits(&mut name, self.0 as u64);
        name
    }
}

/// One instruction of the machine. The binary operations are two-address:
/// the first register is only read, the second is read and then receives
/// the result.
#[derive(Debug, PartialEq, Eq)]
pub enum Inst {
    Add(Reg, Reg),
    Sub(Reg, Reg),
    Mul(Reg, Reg),
    Div(Reg, Reg),
    Shl(Reg, Reg),
    Shr(Reg, Reg),
    /// Puts a literal into a register.
    Store(i32, Reg),
    /// Reads the named input as a number and puts it into a register.
    Transfer(String, Reg),
    /// Ends the program with the value of a register.
    Result(Reg),
    /// Copies a register into the RAM cell at an address.
    Write(Reg, usize),
    /// Copies the RAM cell at an address into a register.
    Load(usize, Reg),
}

impl Inst {
    /// A copy of the instruction.
    pub fn duplicate(&self) -> (copy: Inst)
        ensures
            copy == *self,
    {
        match self {
            Inst::Add(a, b) => Inst::Add(*a, *b),
            Inst::Sub(a, b) => Inst::Sub(*a, *b),
            Inst::Mul(a, b) => Inst::Mul(*a, *b),
            Inst::Div(a, b) => Inst::Div(*a, *b),
            Inst::Shl(a, b) => Inst::Shl(*a, *b),
            Inst::Shr(a, b) => Inst::Shr(*a, *b),
            Inst::Store(value, reg) => Inst::Store(*value, *reg),
            Inst::Transfer(name, reg) => Inst::Transfer(name.clone(), *reg),
            Inst::Result(reg) => Inst::Result(*reg),
            Inst::Write(reg, addr) => Inst::Write(*reg, *addr),
            Inst::Load(addr, reg) => Inst::Load(*addr, *reg),
        }
    }

    /// The operator and the two registers of a binary instruction: first
    /// the register that is only read, then the one that is overwritten.
    pub open spec fn binary(self) -> Option<(Operator, Reg, Reg)> {
        match self {
            Inst::Add(a, b) => Some((Operator::Add, a, b)),
            Inst::Sub(a, b) => Some((Operator::Sub, a, b)),
            Inst::Mul(a, b) => Some((Operator::Mul, a, b)),
            Inst::Div(a, b) => Some((Operator::Div, a, b)),
            Inst::Shl(a, b) => Some((Operator::Shl, a, b)),
            Inst::Shr(a, b) => Some((Operator::Shr, a, b)),
            _ => None,
        }
    }
}

impl Clone for Inst {
    fn clone(&self) -> (copy: Inst)
        ensures
            copy == *self,
    {
        self.duplicate()
    }
}

/// The size of a machine: how many registers and how many RAM cells it has.
#[derive(Clone, Copy, Debug, PartialEq, Eq, Structural)]
pub struct InterpreterOptions {
    pub num_registers: u8,
    pub num_cachelines: usize,
}

/// Why a step of the machine failed. Each failure ends the run it occurs
/// in and nothing else; the caller decides what to do next.
#[derive(Debug, PartialEq, Eq)]
pub enum LpErr {
    /// The machine was not made ready, or its program has already ended.
    NotRunning,
    /// The program ran past its last instruction without a result.
    NoResult,
    /// An operand register of a binary instruction holds no value.
    UnknownRegister(Reg),
    /// The register that a `Result` or `Write` reads holds no value.
    EmptyRegister(Reg),
    /// The divisor register of a `Div` holds zero.
    DivisionByZero,
    /// A `Transfer` ran on a machine that was given no inputs.
    NoVariables,
    /// The named input is missing.
    UnknownVariable(String),
    /// The named input is the empty string.
    EmptyVariable(String),
    /// The named input (first) has a text (second) that is not a number.
    NotANumber(String, String),
    /// The RAM has no cell at this address.
    BadAddress(usize),
}

impl Clone for LpErr {
    fn clone(&self) -> (copy: LpErr)
        ensures
            copy == *self,
    {
        match self {
            LpErr::NotRunning => LpErr::NotRunning,
            LpErr::NoResult => LpErr::NoResult,
            LpErr::UnknownRegister(reg) => LpErr::UnknownRegister(*reg),
            LpErr::EmptyRegister(reg) => LpErr::EmptyRegister(*reg),
            LpErr::DivisionByZero => LpErr::DivisionByZero,
            LpErr::NoVariables => LpErr::NoVariables,
            LpErr::UnknownVariable(name) => LpErr::UnknownVariable(name.clone()),
            LpErr::EmptyVariable(name) => LpErr::EmptyVariable(name.clone()),
            LpErr::NotANumber(name, text) => LpErr::NotANumber(name.clone(), text.clone()),
            LpErr::BadAddress(addr) => LpErr::BadAddress(*addr),
        }
    }
}

/// Something worth telling the user that does not stop the run.
#[derive(Clone, Copy, Debug, PartialEq, Eq, Structural)]
pub enum Warning {
    /// A `Store` or `Transfer` replaced the value that the register held.
    Overwrite(Reg),
}

} // verus!

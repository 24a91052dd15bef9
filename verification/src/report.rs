//! Failures and warnings in words.

use vstd::prelude::*;
use vstd::string::StringExecFns;
use crate::text::{decimal, push_digits};
use crate::types::{LpErr, Warning};

verus! {

/// The message of a failure. It names the register, the variable or the
/// address that the failure is about.
pub open spec fn failure_text(e: LpErr) -> Seq<char> {
    match e {
        LpErr::NotRunning => "The interpreter was either not ready to run or finished execution"@,
        LpErr::NoResult => "no result found"@,
        LpErr::UnknownRegister(reg) => "no such reg `"@ + reg.name_text() + "`"@,
        LpErr::EmptyRegister(reg) => "register `"@ + reg.name_text() + "` is empty"@,
        LpErr::DivisionByZero => "division by zero"@,
        LpErr::NoVariables => "No variables loaded"@,
        LpErr::UnknownVariable(name) => "unknown variable `"@ + name@ + "`"@,
        LpErr::EmptyVariable(name) => "variable `"@ + name@ + "` is empty"@,
        LpErr::NotANumber(name, text) => "variable `"@ + name@ + "` is not a number: `"@ + text@
            + "`"@,
        LpErr::BadAddress(addr) => "requested RAM address "@ + decimal(addr as int)
            + " doesn't exist."@,
    }
}

/// The message of a warning.
pub open spec fn warning_text(w: Warning) -> Seq<char> {
    match w {
        Warning::Overwrite(reg) => "Warning: overwriting register `"@ + reg.name_text() + "`."@,
    }
}

impl LpErr {
    /// The failure in words.
    pub fn message(&self) -> (text: String)
        ensures
            text@ == failure_text(*self),
    {
        match self {
            LpErr::NotRunning => String::from_str(
                "The interpreter was either not ready to run or finished execution",
            ),
            LpErr::NoResult => String::from_str("no result found"),
            LpErr::UnknownRegister(reg) => {
                let mut text = String::from_str("no such reg `");
                text.append(reg.name().as_str());
                text.append("`");
                text
            },
            LpErr::EmptyRegister(reg) => {
                let mut text = String::from_str("register `");
                text.append(reg.name().as_str());
                text.append("` is empty");
                text
            },
            LpErr::DivisionByZero => String::from_str("division by zero"),
            LpErr::NoVariables => String::from_str("No variables loaded"),
            LpErr::UnknownVariable(name) => {
                let mut text = String::from_str("unknown variable `");
                text.append(name.as_str());
                text.append("`");
                text
            },
            LpErr::EmptyVariable(name) => {
                let mut text = String::from_str("variable `");
                text.append(name.as_str());
                text.append("` is empty");
                text
            },
            LpErr::NotANumber(name, value) => {
                let mut text = String::from_str("variable `");
                text.append(name.as_str());
                text.append("` is not a number: `");
                text.append(value.as_str());
                text.append("`");
                text
            },
            LpErr::BadAddress(addr) => {
                let mut text = String::from_str("requested RAM address ");
                push_digits(&mut text, *addr as u64);
                text.append(" doesn't exist.");
                text
            },
        }
    }
}

impl Warning {
    /// The warning in words.
    pub fn message(&self) -> (text: String)
        ensures
            text@ == warning_text(*self),
    {
        match self {
            Warning::Overwrite(reg) => {
                let mut text = String::from_str("Warning: overwriting register `");
                text.append(reg.name().as_str());
                text.append("`.");
                text
            },
        }
    }
}

} // verus!

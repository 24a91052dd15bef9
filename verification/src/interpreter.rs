//! The interpreter: a machine that runs a program one instruction at a
//! time and can be looked into between any two steps.

use vstd::prelude::*;
use vstd::string::StringExecFns;
use crate::machine::{
    binary_outcome, binary_text, input_value, instruction_text, zeros, Machine,
};
use crate::registers::RegisterStore;
use crate::text::{parse_number, push_decimal, push_digits};
use crate::types::{Inst, InterpreterOptions, LpErr, Operator, Reg, Warning};
use crate::variables::Variables;

pub use crate::machine::InterpreterState;

verus! {

/// An interpreter for the instruction set.
///
/// It is built in stages: made for a machine size, given a program and
/// inputs, then made ready. From then on it is stepped until the program
/// ends or a step fails. Registers and RAM can be read at any time.
#[derive(Debug)]
pub struct Interpreter {
    /// The register store.
    pub reg_store: RegisterStore,
    /// The RAM: slow storage for what does not fit the registers.
    pub ram: Vec<i32>,
    /// The program.
    instructions: Vec<Inst>,
    /// The position of the next instruction.
    program_counter: usize,
    /// The inputs by name.
    input_variables: Option<Variables>,
    /// Whether the machine is ready and its program has not ended.
    running: bool,
    /// The text of the instruction that ran last, where texts are recorded.
    str_repr: String,
    /// Whether texts are recorded.
    repr_enabled: bool,
    /// The warnings so far.
    warnings: Vec<Warning>,
}

impl View for Interpreter {
    type V = Machine;

    closed spec fn view(&self) -> Machine {
        Machine {
            regs: self.reg_store@,
            ram: self.ram@,
            program: self.instructions@,
            pc: self.program_counter as nat,
            inputs: match self.input_variables {
                Some(vars) => Some(vars@),
                None => None,
            },
            running: self.running,
            tracing: self.repr_enabled,
            trace: self.str_repr@,
            warnings: self.warnings@,
        }
    }
}

/// A vector of `cells` zeros.
fn zeroed(cells: usize) -> (ram: Vec<i32>)
    ensures
        ram@ == zeros(cells as nat),
{
    let mut ram: Vec<i32> = Vec::new();
    let mut i: usize = 0;
    while i < cells
        invariant
            i <= cells,
            ram@ == zeros(i as nat),
        decreases cells - i,
    {
        ram.push(0);
        i = i + 1;
    }
    ram
}

/// Reads and overwrites registers as a binary instruction does: the
/// second register receives the operator's value of the first and the
/// second. On a failure the registers stay as they are.
pub fn run_binop(a: Reg, b: Reg, op: Operator, reg_store: &mut RegisterStore) -> (r: Result<
    (),
    LpErr,
>)
    ensures
        match binary_outcome(op, a, b, old(reg_store)@) {
            Ok(regs) => r is Ok && final(reg_store)@ == regs,
            Err(e) => r == Err::<(), LpErr>(e) && final(reg_store)@ == old(reg_store)@,
        },
{
    let left = reg_store.get(a);
    let right = reg_store.get(b);
    if op == Operator::Div && right == Some(0) {
        return Err(LpErr::DivisionByZero);
    }
    match (left, right) {
        (Some(x), Some(y)) => {
            match op.apply(x, y) {
                Some(value) => {
                    reg_store.insert(b, value);
                    Ok(())
                },
                None => Err(LpErr::DivisionByZero),
            }
        },
        (None, _) => Err(LpErr::UnknownRegister(a)),
        (_, None) => Err(LpErr::UnknownRegister(b)),
    }
}

impl Interpreter {
    /// A new interpreter for a machine of the given size: no program, no
    /// inputs, every register empty, every RAM cell zero, not ready.
    pub fn with_config(hw: &InterpreterOptions) -> (vm: Interpreter)
        ensures
            vm@ == Machine::fresh(hw.num_cachelines as nat),
    {
        Interpreter {
            reg_store: RegisterStore::new(),
            ram: zeroed(hw.num_cachelines),
            instructions: Vec::new(),
            str_repr: String::new(),
            program_counter: 0,
            input_variables: None,
            running: false,
            repr_enabled: false,
            warnings: Vec::new(),
        }
    }

    /// Gives the interpreter its program. Where texts are recorded, the
    /// text of the instruction that is due is recorded at once.
    pub fn load_instructions(self, instructions: Vec<Inst>) -> (vm: Interpreter)
        ensures
            vm@ == (Machine { program: instructions@, ..self@ }).traced(),
    {
        let mut vm = self;
        vm.instructions = instructions;
        if vm.repr_enabled {
            vm.record();
        }
        vm
    }

    /// Gives the interpreter its inputs.
    pub fn with_variables(self, input_variables: Variables) -> (vm: Interpreter)
        ensures
            vm@ == (Machine { inputs: Some(input_variables@), ..self@ }),
    {
        let mut vm = self;
        vm.input_variables = Some(input_variables);
        vm
    }

    /// From now on the text of each instruction is recorded before it
    /// runs, beginning with the instruction that is due.
    pub fn with_tracing(self) -> (vm: Interpreter)
        ensures
            vm@ == (Machine { tracing: true, ..self@ }).traced(),
    {
        let mut vm = self;
        vm.repr_enabled = true;
        vm.record();
        vm
    }

    /// Tells the interpreter that it has all it needs: it can be stepped.
    pub fn ready(self) -> (vm: Interpreter)
        ensures
            vm@ == (Machine { running: true, ..self@ }),
    {
        let mut vm = self;
        vm.running = true;
        vm
    }

    /// Runs the program until it ends or a step fails.
    pub fn run_to_end(self) -> (r: Result<i32, LpErr>)
        ensures
            r == self@.run(),
    {
        let mut vm = self;
        loop
            invariant
                vm@.run() == self@.run(),
            decreases vm@.remaining(),
        {
            match vm.step() {
                Err(e) => {
                    return Err(e);
                },
                Ok(InterpreterState::Finished(value)) => {
                    return Ok(value);
                },
                Ok(InterpreterState::Continue) => {},
            }
        }
    }

    /// Whether the interpreter is ready and its program has not ended.
    pub fn is_running(&self) -> (b: bool)
        ensures
            b == self@.running,
    {
        self.running
    }

    /// Executes the instruction that is due.
    pub fn step(&mut self) -> (r: Result<InterpreterState, LpErr>)
        ensures
            (final(self)@, r) == old(self)@.step(),
    {
        if !self.running {
            return Err(LpErr::NotRunning);
        }
        if self.program_counter >= self.instructions.len() {
            return Err(LpErr::NoResult);
        }
        if self.repr_enabled {
            self.record();
        }
        match &self.instructions[self.program_counter] {
            Inst::Add(a, b) => match run_binop(*a, *b, Operator::Add, &mut self.reg_store) {
                Ok(()) => {},
                Err(e) => {
                    return Err(e);
                },
            },
            Inst::Sub(a, b) => match run_binop(*a, *b, Operator::Sub, &mut self.reg_store) {
                Ok(()) => {},
                Err(e) => {
                    return Err(e);
                },
            },
            Inst::Mul(a, b) => match run_binop(*a, *b, Operator::Mul, &mut self.reg_store) {
                Ok(()) => {},
                Err(e) => {
                    return Err(e);
                },
            },
            Inst::Div(a, b) => match run_binop(*a, *b, Operator::Div, &mut self.reg_store) {
                Ok(()) => {},
                Err(e) => {
                    return Err(e);
                },
            },
            Inst::Shl(a, b) => match run_binop(*a, *b, Operator::Shl, &mut self.reg_store) {
                Ok(()) => {},
                Err(e) => {
                    return Err(e);
                },
            },
            Inst::Shr(a, b) => match run_binop(*a, *b, Operator::Shr, &mut self.reg_store) {
                Ok(()) => {},
                Err(e) => {
                    return Err(e);
                },
            },
            Inst::Store(n, reg) => {
                if self.reg_store.insert(*reg, *n).is_some() {
                    self.warnings.push(Warning::Overwrite(*reg));
                }
            },
            Inst::Transfer(var, reg) => {
                let value = match read_input(&self.input_variables, var) {
                    Ok(value) => value,
                    Err(e) => {
                        return Err(e);
                    },
                };
                if self.reg_store.insert(*reg, value).is_some() {
                    self.warnings.push(Warning::Overwrite(*reg));
                }
            },
            Inst::Result(r) => {
                let value = self.reg_store.get(*r);
                self.program_counter = self.program_counter + 1;
                self.running = false;
                return match value {
                    Some(v) => Ok(InterpreterState::Finished(v)),
                    None => Err(LpErr::EmptyRegister(*r)),
                };
            },
            Inst::Write(r, addr) => {
                if *addr >= self.ram.len() {
                    return Err(LpErr::BadAddress(*addr));
                }
                match self.reg_store.get(*r) {
                    Some(value) => {
                        self.ram.set(*addr, value);
                    },
                    None => {
                        return Err(LpErr::EmptyRegister(*r));
                    },
                }
            },
            Inst::Load(addr, r) => {
                if *addr >= self.ram.len() {
                    return Err(LpErr::BadAddress(*addr));
                }
                let value = self.ram[*addr];
                self.reg_store.insert(*r, value);
            },
        }
        self.program_counter = self.program_counter + 1;
        Ok(InterpreterState::Continue)
    }

    /// Records the text of the instruction that is due, if it has one.
    fn record(&mut self)
        ensures
            final(self)@ == old(self)@.recorded(),
    {
        match self.cur_as_string() {
            Some(text) => {
                self.str_repr = text;
            },
            None => {},
        }
    }

    /// The text of the instruction that is due, with the values that the
    /// registers hold now. There is none where the program has no
    /// instruction left or the text needs the value of an empty register.
    pub fn cur_as_string(&self) -> (text: Option<String>)
        ensures
            match text {
                Some(t) => self@.pc < self@.program.len() && instruction_text(
                    self@.program[self@.pc as int],
                    self@.regs,
                ) == Some(t@),
                None => self@.pc >= self@.program.len() || instruction_text(
                    self@.program[self@.pc as int],
                    self@.regs,
                ) is None,
            },
    {
        if self.program_counter >= self.instructions.len() {
            return None;
        }
        match &self.instructions[self.program_counter] {
            Inst::Add(a, b) => self.display_binop(a, b, "+"),
            Inst::Sub(a, b) => self.display_binop(a, b, "-"),
            Inst::Mul(a, b) => self.display_binop(a, b, "*"),
            Inst::Div(a, b) => self.display_binop(a, b, "/"),
            Inst::Shl(a, b) => self.display_binop(a, b, "<<"),
            Inst::Shr(a, b) => self.display_binop(a, b, ">>"),
            Inst::Store(num, a) => {
                let mut text = String::new();
                push_decimal(&mut text, *num);
                text.append(" \u{27a1} [");
                text.append(a.name().as_str());
                text.append("]");
                Some(text)
            },
            Inst::Transfer(var, a) => {
                let mut text = var.clone();
                text.append(" \u{27a1} [");
                text.append(a.name().as_str());
                text.append("]");
                Some(text)
            },
            Inst::Result(a) => match self.reg_store.get(*a) {
                Some(value) => {
                    let mut text = String::from_str("= ");
                    push_decimal(&mut text, value);
                    Some(text)
                },
                None => None,
            },
            Inst::Write(reg, addr) => {
                let mut text = String::from_str("\u{2398} [");
                text.append(reg.name().as_str());
                text.append("] \u{27a1} [");
                push_digits(&mut text, *addr as u64);
                text.append("]");
                Some(text)
            },
            Inst::Load(addr, reg) => {
                let mut text = String::from_str("\u{2397} [");
                text.append(reg.name().as_str());
                text.append("] \u{2b05} [");
                push_digits(&mut text, *addr as u64);
                text.append("]");
                Some(text)
            },
        }
    }

    /// The text of a binary operation on the values of two registers,
    /// `None` where one of them is empty.
    pub fn display_binop(&self, a: &Reg, b: &Reg, op: &str) -> (text: Option<String>)
        ensures
            match text {
                Some(t) => self@.regs.contains_key(*a) && self@.regs.contains_key(*b) && t@
                    == binary_text(self@.regs[*a], op@, self@.regs[*b]),
                None => !(self@.regs.contains_key(*a) && self@.regs.contains_key(*b)),
            },
    {
        match (self.reg_store.get(*a), self.reg_store.get(*b)) {
            (Some(x), Some(y)) => {
                let mut text = String::new();
                push_decimal(&mut text, x);
                text.append(" ");
                text.append(op);
                text.append(" ");
                push_decimal(&mut text, y);
                Some(text)
            },
            _ => None,
        }
    }

    /// The text recorded last: empty where texts are not recorded.
    pub fn display_current(&self) -> (text: &str)
        ensures
            text@ == self@.trace,
    {
        self.str_repr.as_str()
    }

    /// The register store.
    pub fn registers(&self) -> (store: &RegisterStore)
        ensures
            store@ == self@.regs,
    {
        &self.reg_store
    }

    /// The RAM, cell by cell.
    pub fn memory(&self) -> (cells: &Vec<i32>)
        ensures
            cells@ == self@.ram,
    {
        &self.ram
    }

    /// The warnings so far, oldest first.
    pub fn warnings(&self) -> (log: &Vec<Warning>)
        ensures
            log@ == self@.warnings,
    {
        &self.warnings
    }

    /// Puts the machine back before the first instruction, with every
    /// register empty and every RAM cell zero.
    pub fn reset(&mut self)
        ensures
            final(self)@ == (Machine {
                pc: 0,
                ram: zeros(old(self)@.ram.len()),
                regs: Map::empty(),
                ..old(self)@
            }),
    {
        self.program_counter = 0;
        self.ram = zeroed(self.ram.len());
        self.reg_store.clear();
    }
}

/// Reads the input `name` as a number.
pub fn read_input(inputs: &Option<Variables>, name: &String) -> (r: Result<i32, LpErr>)
    ensures
        r == input_value(
            match *inputs {
                Some(vars) => Some(vars@),
                None => None,
            },
            *name,
        ),
{
    let vars = match inputs {
        Some(vars) => vars,
        None => {
            return Err(LpErr::NoVariables);
        },
    };
    let text = match vars.get(name) {
        Some(text) => text,
        None => {
            return Err(LpErr::UnknownVariable(name.clone()));
        },
    };
    if text.as_str().is_empty() {
        return Err(LpErr::EmptyVariable(name.clone()));
    }
    match parse_number(text.as_str()) {
        Some(value) => Ok(value),
        None => Err(LpErr::NotANumber(name.clone(), text.clone())),
    }
}

} // verus!

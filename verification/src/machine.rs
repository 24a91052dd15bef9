//! What the interpreter does, stated on plain mathematical values: the
//! state of a machine, the text of an instruction, and the effect of one
//! step and of a whole run.

use vstd::prelude::*;
use crate::arith::op_value;
use crate::text::{decimal, parse_i32};
use crate::types::{Inst, LpErr, Operator, Reg, Warning};

verus! {

/// What a successful step tells its caller.
#[derive(Clone, Copy, Debug, PartialEq, Eq, Structural)]
pub enum InterpreterState {
    /// The program goes on with the next instruction.
    Continue,
    /// The program has ended with this value.
    Finished(i32),
}

impl From<i32> for InterpreterState {
    fn from(value: i32) -> (state: InterpreterState) {
        InterpreterState::Finished(value)
    }
}

impl vstd::std_specs::convert::FromSpecImpl<i32> for InterpreterState {
    open spec fn obeys_from_spec() -> bool {
        true
    }

    open spec fn from_spec(value: i32) -> InterpreterState {
        InterpreterState::Finished(value)
    }
}

/// The state of a machine.
pub struct Machine {
    /// The registers that hold a value, each with its value.
    pub regs: Map<Reg, i32>,
    /// The RAM, cell by cell.
    pub ram: Seq<i32>,
    /// The program.
    pub program: Seq<Inst>,
    /// The position of the next instruction in the program.
    pub pc: nat,
    /// The inputs by name, `None` where none were attached.
    pub inputs: Option<Map<Seq<char>, String>>,
    /// Whether the machine is ready and its program has not ended.
    pub running: bool,
    /// Whether the text of each instruction is recorded before it runs.
    pub tracing: bool,
    /// The text recorded last.
    pub trace: Seq<char>,
    /// The warnings so far, oldest first.
    pub warnings: Seq<Warning>,
}

/// The sign of an operator.
pub open spec fn symbol(op: Operator) -> Seq<char> {
    match op {
        Operator::Add => "+"@,
        Operator::Sub => "-"@,
        Operator::Mul => "*"@,
        Operator::Div => "/"@,
        Operator::Shl => "<<"@,
        Operator::Shr => ">>"@,
    }
}

/// The text of a binary operation on two values.
pub open spec fn binary_text(a: i32, sign: Seq<char>, b: i32) -> Seq<char> {
    decimal(a as int) + " "@ + sign + " "@ + decimal(b as int)
}

/// The text of an instruction, with the values that the registers hold
/// before it runs. An instruction that reads the value of an empty register
/// for its text has none.
pub open spec fn instruction_text(inst: Inst, regs: Map<Reg, i32>) -> Option<Seq<char>> {
    match inst {
        Inst::Store(value, reg) => Some(
            decimal(value as int) + " \u{27a1} ["@ + reg.name_text() + "]"@,
        ),
        Inst::Transfer(name, reg) => Some(name@ + " \u{27a1} ["@ + reg.name_text() + "]"@),
        Inst::Result(reg) => if regs.contains_key(reg) {
            Some("= "@ + decimal(regs[reg] as int))
        } else {
            None
        },
        Inst::Write(reg, addr) => Some(
            "\u{2398} ["@ + reg.name_text() + "] \u{27a1} ["@ + decimal(addr as int) + "]"@,
        ),
        Inst::Load(addr, reg) => Some(
            "\u{2397} ["@ + reg.name_text() + "] \u{2b05} ["@ + decimal(addr as int) + "]"@,
        ),
        _ => {
            let (op, a, b) = inst.binary().unwrap();
            if regs.contains_key(a) && regs.contains_key(b) {
                Some(binary_text(regs[a], symbol(op), regs[b]))
            } else {
                None
            }
        },
    }
}

/// What a binary instruction makes of the registers: the new registers, in
/// which the second register holds the operator's value of what the first
/// and the second held, or the reason why it fails. A division by a
/// register that holds zero fails before anything else is looked at.
pub open spec fn binary_outcome(op: Operator, a: Reg, b: Reg, regs: Map<Reg, i32>) -> Result<
    Map<Reg, i32>,
    LpErr,
> {
    if op == Operator::Div && regs.contains_key(b) && regs[b] == 0 {
        Err(LpErr::DivisionByZero)
    } else if !regs.contains_key(a) {
        Err(LpErr::UnknownRegister(a))
    } else if !regs.contains_key(b) {
        Err(LpErr::UnknownRegister(b))
    } else {
        Ok(regs.insert(b, op_value(op, regs[a], regs[b])))
    }
}

/// The number that a `Transfer` of `name` reads from the inputs, or the
/// reason why it fails.
pub open spec fn input_value(inputs: Option<Map<Seq<char>, String>>, name: String) -> Result<
    i32,
    LpErr,
> {
    match inputs {
        None => Err(LpErr::NoVariables),
        Some(map) => if !map.contains_key(name@) {
            Err(LpErr::UnknownVariable(name))
        } else if map[name@]@.len() == 0 {
            Err(LpErr::EmptyVariable(name))
        } else {
            match parse_i32(map[name@]@) {
                Some(value) => Ok(value),
                None => Err(LpErr::NotANumber(name, map[name@])),
            }
        },
    }
}

/// A RAM of `cells` cells that are all zero.
pub open spec fn zeros(cells: nat) -> Seq<i32> {
    Seq::new(cells, |i: int| 0i32)
}

impl Machine {
    /// A new machine with `cells` RAM cells: no program, no inputs, every
    /// register empty, every cell zero, not ready, recording nothing.
    pub open spec fn fresh(cells: nat) -> Machine {
        Machine {
            regs: Map::empty(),
            ram: zeros(cells),
            program: Seq::empty(),
            pc: 0,
            inputs: None,
            running: false,
            tracing: false,
            trace: Seq::empty(),
            warnings: Seq::empty(),
        }
    }

    /// The machine after a successful step that is not the last: the next
    /// instruction is due.
    pub open spec fn advanced(self) -> Machine {
        Machine { pc: self.pc + 1, ..self }
    }

    /// The machine with a value put into a register by a `Store` or a
    /// `Transfer`: replacing a value is noted as a warning.
    pub open spec fn stored(self, reg: Reg, value: i32) -> Machine {
        Machine {
            regs: self.regs.insert(reg, value),
            warnings: if self.regs.contains_key(reg) {
                self.warnings.push(Warning::Overwrite(reg))
            } else {
                self.warnings
            },
            ..self
        }
    }

    /// The machine with the text of the instruction that is due as its
    /// recorded text. Where no instruction is due, or the one that is due
    /// has no text, the recorded text stays.
    pub open spec fn recorded(self) -> Machine {
        if self.pc < self.program.len() && instruction_text(
            self.program[self.pc as int],
            self.regs,
        ) is Some {
            Machine {
                trace: instruction_text(self.program[self.pc as int], self.regs).unwrap(),
                ..self
            }
        } else {
            self
        }
    }

    /// The machine after recording, if it records at all.
    pub open spec fn traced(self) -> Machine {
        if self.tracing {
            self.recorded()
        } else {
            self
        }
    }

    /// The effect of an instruction on a machine that is about to run it.
    ///
    /// A failure leaves the machine as it is, with one exception: a
    /// `Result` ends the program even where its register turns out to be
    /// empty.
    pub open spec fn execute(self, inst: Inst) -> (Machine, Result<InterpreterState, LpErr>) {
        match inst {
            Inst::Store(value, reg) => (
                self.stored(reg, value).advanced(),
                Ok(InterpreterState::Continue),
            ),
            Inst::Transfer(name, reg) => match input_value(self.inputs, name) {
                Ok(value) => (self.stored(reg, value).advanced(), Ok(InterpreterState::Continue)),
                Err(e) => (self, Err(e)),
            },
            Inst::Result(reg) => (
                Machine { running: false, ..self.advanced() },
                if self.regs.contains_key(reg) {
                    Ok(InterpreterState::Finished(self.regs[reg]))
                } else {
                    Err(LpErr::EmptyRegister(reg))
                },
            ),
            Inst::Write(reg, addr) => if addr >= self.ram.len() {
                (self, Err(LpErr::BadAddress(addr)))
            } else if !self.regs.contains_key(reg) {
                (self, Err(LpErr::EmptyRegister(reg)))
            } else {
                (
                    Machine { ram: self.ram.update(addr as int, self.regs[reg]), ..self }.advanced(),
                    Ok(InterpreterState::Continue),
                )
            },
            Inst::Load(addr, reg) => if addr >= self.ram.len() {
                (self, Err(LpErr::BadAddress(addr)))
            } else {
                (
                    Machine { regs: self.regs.insert(reg, self.ram[addr as int]), ..self }.advanced(),
                    Ok(InterpreterState::Continue),
                )
            },
            _ => {
                let (op, a, b) = inst.binary().unwrap();
                match binary_outcome(op, a, b, self.regs) {
                    Ok(regs) => (Machine { regs, ..self }.advanced(), Ok(InterpreterState::Continue)),
                    Err(e) => (self, Err(e)),
                }
            },
        }
    }

    /// One step: the machine afterwards and what the step returns.
    ///
    /// A machine that is not running, or whose program has no instruction
    /// left, refuses the step and stays as it is. Otherwise the text of the
    /// instruction is recorded, where the machine records, and the
    /// instruction is executed.
    pub open spec fn step(self) -> (Machine, Result<InterpreterState, LpErr>) {
        if !self.running {
            (self, Err(LpErr::NotRunning))
        } else if self.pc >= self.program.len() {
            (self, Err(LpErr::NoResult))
        } else {
            self.traced().execute(self.program[self.pc as int])
        }
    }

    /// The instructions that are still to come.
    pub open spec fn remaining(self) -> nat {
        if self.pc <= self.program.len() {
            (self.program.len() - self.pc) as nat
        } else {
            0
        }
    }

    /// A whole run: step after step until the program ends or a step
    /// fails.
    pub open spec fn run(self) -> Result<i32, LpErr>
        decreases self.remaining(),
    {
        let (next, outcome) = self.step();
        match outcome {
            Err(e) => Err(e),
            Ok(InterpreterState::Finished(value)) => Ok(value),
            Ok(InterpreterState::Continue) => next.run(),
        }
    }
}

impl Machine {
    /// Whether the machine is running and has an instruction left: the
    /// machines that do not refuse a step outright.
    pub open spec fn can_step(self) -> bool {
        self.running && self.pc < self.program.len()
    }

    /// The instruction that is due.
    pub open spec fn current(self) -> Inst {
        self.program[self.pc as int]
    }
}

/// A step that goes on leaves one instruction less to come.
pub proof fn lemma_step_advances(m: Machine)
    requires
        m.step().1 == Ok::<InterpreterState, LpErr>(InterpreterState::Continue),
    ensures
        m.step().0.remaining() < m.remaining(),
        m.step().0.pc == m.pc + 1,
        m.step().0.running,
{
}

/// No step changes the program, the inputs, the size of the RAM or
/// whether texts are recorded, and no step takes a warning back.
pub proof fn lemma_step_keeps_setup(m: Machine)
    ensures
        m.step().0.program == m.program,
        m.step().0.inputs == m.inputs,
        m.step().0.ram.len() == m.ram.len(),
        m.step().0.tracing == m.tracing,
        m.warnings.is_prefix_of(m.step().0.warnings),
{
}

/// A step that fails changes neither registers nor RAM.
pub proof fn lemma_failed_step_keeps_storage(m: Machine)
    requires
        m.step().1 is Err,
    ensures
        m.step().0.regs == m.regs,
        m.step().0.ram == m.ram,
{
}

/// A binary instruction on two registers that hold values, other than a
/// division by zero, succeeds. Afterwards its second register holds the
/// operator's value of what the first and the second held before, and
/// every other register holds what it held: the first too, unless it is
/// also the second.
pub proof fn lemma_binary_step(m: Machine, op: Operator, a: Reg, b: Reg)
    requires
        m.can_step(),
        m.current().binary() == Some((op, a, b)),
        m.regs.contains_key(a),
        m.regs.contains_key(b),
        !(op == Operator::Div && m.regs[b] == 0),
    ensures
        m.step().1 == Ok::<InterpreterState, LpErr>(InterpreterState::Continue),
        m.step().0.regs == m.regs.insert(b, op_value(op, m.regs[a], m.regs[b])),
        m.step().0.regs[b] == op_value(op, m.regs[a], m.regs[b]),
        a != b ==> m.step().0.regs[a] == m.regs[a],
        m.step().0.ram == m.ram,
{
}

/// A division by a register that holds zero fails as a division by zero
/// and leaves every register and the RAM as they were.
pub proof fn lemma_division_by_zero(m: Machine, a: Reg, b: Reg)
    requires
        m.can_step(),
        m.current() == Inst::Div(a, b),
        m.regs.contains_key(b),
        m.regs[b] == 0,
    ensures
        m.step().1 == Err::<InterpreterState, LpErr>(LpErr::DivisionByZero),
        m.step().0.regs == m.regs,
        m.step().0.ram == m.ram,
        m.step().0.pc == m.pc,
        m.step().0.running,
{
}

/// A `Write` or a `Load` at the address one past the last cell always
/// fails: on a running machine because the RAM has no such cell, whatever
/// the registers hold.
pub proof fn lemma_address_past_end(m: Machine, reg: Reg)
    requires
        m.pc < m.program.len(),
        m.ram.len() <= usize::MAX,
        m.current() == Inst::Write(reg, m.ram.len() as usize) || m.current() == Inst::Load(
            m.ram.len() as usize,
            reg,
        ),
    ensures
        m.step().1 is Err,
        m.running ==> m.step().1 == Err::<InterpreterState, LpErr>(
            LpErr::BadAddress(m.ram.len() as usize),
        ),
{
}

/// A `Load` from the last cell succeeds, and so does a `Write` to it from
/// a register that holds a value.
pub proof fn lemma_last_address(m: Machine, reg: Reg)
    requires
        m.can_step(),
        0 < m.ram.len() <= usize::MAX,
        m.current() == Inst::Load((m.ram.len() - 1) as usize, reg) || (m.current() == Inst::Write(
            reg,
            (m.ram.len() - 1) as usize,
        ) && m.regs.contains_key(reg)),
    ensures
        m.step().1 == Ok::<InterpreterState, LpErr>(InterpreterState::Continue),
        m.current() is Load ==> m.step().0.regs == m.regs.insert(reg, m.ram.last()),
        m.current() is Write ==> m.step().0.ram == m.ram.update(m.ram.len() - 1, m.regs[reg]),
{
}

/// Once a `Result` has run, the machine refuses every further step and
/// stays as it is.
pub proof fn lemma_no_step_after_result(m: Machine)
    requires
        m.can_step(),
        m.current() is Result,
    ensures
        !m.step().0.running,
        m.step().0.step() == (m.step().0, Err::<InterpreterState, LpErr>(LpErr::NotRunning)),
{
}

/// A step that ends the program is a `Result` on a register that holds
/// the value, and the step after it is refused.
pub proof fn lemma_finished_is_final(m: Machine, value: i32)
    requires
        m.step().1 == Ok::<InterpreterState, LpErr>(InterpreterState::Finished(value)),
    ensures
        m.can_step(),
        m.current() is Result,
        m.regs.contains_key(m.current()->Result_0),
        m.regs[m.current()->Result_0] == value,
        m.step().0.step().1 == Err::<InterpreterState, LpErr>(LpErr::NotRunning),
{
}

/// Whether two machines differ at most in what they record.
pub open spec fn same_but_trace(a: Machine, b: Machine) -> bool {
    &&& a.regs == b.regs
    &&& a.ram == b.ram
    &&& a.program == b.program
    &&& a.pc == b.pc
    &&& a.inputs == b.inputs
    &&& a.running == b.running
    &&& a.warnings == b.warnings
}

/// Recording has no effect on a step: two machines that differ at most in
/// what they record return the same and differ afterwards at most in what
/// they record.
pub proof fn lemma_recording_is_invisible(a: Machine, b: Machine)
    requires
        same_but_trace(a, b),
    ensures
        a.step().1 == b.step().1,
        same_but_trace(a.step().0, b.step().0),
{
}

/// Recording has no effect on a run.
pub proof fn lemma_recorded_run_is_the_same(a: Machine, b: Machine)
    requires
        same_but_trace(a, b),
    ensures
        a.run() == b.run(),
    decreases a.remaining(),
{
    lemma_recording_is_invisible(a, b);
    if a.step().1 == Ok::<InterpreterState, LpErr>(InterpreterState::Continue) {
        lemma_recorded_run_is_the_same(a.step().0, b.step().0);
    }
}

} // verus!

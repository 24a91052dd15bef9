//! What generated code owes the machine it was generated for, and what
//! the machine can promise in return.

use vstd::prelude::*;
use crate::eval::variables;
use crate::machine::{input_value, InterpreterState, Machine};
use crate::text::parse_i32;
use crate::types::{Expr, Inst, InterpreterOptions, LpErr, Reg};

verus! {

/// Whether an instruction names only registers and RAM cells that a
/// machine of the given size has.
pub open spec fn fits(inst: Inst, hw: InterpreterOptions) -> bool {
    match inst {
        Inst::Store(_, reg) => reg.0 < hw.num_registers,
        Inst::Transfer(_, reg) => reg.0 < hw.num_registers,
        Inst::Result(reg) => reg.0 < hw.num_registers,
        Inst::Write(reg, addr) => reg.0 < hw.num_registers && addr < hw.num_cachelines,
        Inst::Load(addr, reg) => reg.0 < hw.num_registers && addr < hw.num_cachelines,
        _ => {
            let (_, a, b) = inst.binary().unwrap();
            a.0 < hw.num_registers && b.0 < hw.num_registers
        },
    }
}

/// Whether a program is well formed for a machine of the given size: every
/// instruction fits the machine, and the program has exactly one `Result`,
/// which is its last instruction.
pub open spec fn well_formed(program: Seq<Inst>, hw: InterpreterOptions) -> bool {
    &&& program.len() > 0
    &&& program.last() is Result
    &&& forall|i: int| 0 <= i < program.len() - 1 ==> !(#[trigger] program[i] is Result)
    &&& forall|i: int| 0 <= i < program.len() ==> fits(#[trigger] program[i], hw)
}

/// Whether every register that holds a value is one that a machine of the
/// given size has.
pub open spec fn registers_within(regs: Map<Reg, i32>, hw: InterpreterOptions) -> bool {
    forall|reg: Reg| regs.contains_key(reg) ==> reg.0 < hw.num_registers
}

/// Whether an instruction fits a machine of the given size.
pub fn instruction_fits(inst: &Inst, hw: &InterpreterOptions) -> (ok: bool)
    ensures
        ok == fits(*inst, *hw),
{
    match inst {
        Inst::Add(a, b) => a.0 < hw.num_registers && b.0 < hw.num_registers,
        Inst::Sub(a, b) => a.0 < hw.num_registers && b.0 < hw.num_registers,
        Inst::Mul(a, b) => a.0 < hw.num_registers && b.0 < hw.num_registers,
        Inst::Div(a, b) => a.0 < hw.num_registers && b.0 < hw.num_registers,
        Inst::Shl(a, b) => a.0 < hw.num_registers && b.0 < hw.num_registers,
        Inst::Shr(a, b) => a.0 < hw.num_registers && b.0 < hw.num_registers,
        Inst::Store(_, reg) => reg.0 < hw.num_registers,
        Inst::Transfer(_, reg) => reg.0 < hw.num_registers,
        Inst::Result(reg) => reg.0 < hw.num_registers,
        Inst::Write(reg, addr) => reg.0 < hw.num_registers && *addr < hw.num_cachelines,
        Inst::Load(addr, reg) => reg.0 < hw.num_registers && *addr < hw.num_cachelines,
    }
}

/// Whether a program is well formed for a machine of the given size.
pub fn is_well_formed(program: &Vec<Inst>, hw: &InterpreterOptions) -> (ok: bool)
    ensures
        ok == well_formed(program@, *hw),
{
    let len = program.len();
    if len == 0 {
        return false;
    }
    let mut i: usize = 0;
    while i < len
        invariant
            i <= len,
            len == program.len(),
            forall|j: int| 0 <= j < i ==> fits(#[trigger] program[j], *hw),
            forall|j: int| 0 <= j < i && j < len - 1 ==> !(#[trigger] program[j] is Result),
            i == len ==> program[len - 1] is Result,
        decreases len - i,
    {
        if !instruction_fits(&program[i], hw) {
            return false;
        }
        let ends = match &program[i] {
            Inst::Result(_) => true,
            _ => false,
        };
        if ends != (i == len - 1) {
            return false;
        }
        i = i + 1;
    }
    true
}

/// On a machine of the size that its program is well formed for, a step
/// never misses the RAM and never puts a value into a register that the
/// machine does not have.
pub proof fn lemma_step_stays_within(m: Machine, hw: InterpreterOptions)
    requires
        well_formed(m.program, hw),
        registers_within(m.regs, hw),
        m.ram.len() == hw.num_cachelines,
    ensures
        registers_within(m.step().0.regs, hw),
        m.step().0.ram.len() == hw.num_cachelines,
        !(m.step().1 matches Err(LpErr::BadAddress(_))),
{
}

/// A step of a well-formed program that goes on has an instruction to go
/// on with.
pub proof fn lemma_step_finds_next(m: Machine, hw: InterpreterOptions)
    requires
        well_formed(m.program, hw),
        m.step().1 == Ok::<InterpreterState, LpErr>(InterpreterState::Continue),
    ensures
        m.step().0.can_step(),
{
}

/// A run of a well-formed program, begun on a machine of the right size
/// that is running and has an instruction left, reaches the `Result` or
/// fails on the way: it never runs past the end, is never refused and
/// never misses the RAM.
pub proof fn lemma_run_reaches_result(m: Machine, hw: InterpreterOptions)
    requires
        well_formed(m.program, hw),
        m.can_step(),
        m.ram.len() == hw.num_cachelines,
    ensures
        !(m.run() matches Err(LpErr::NoResult)),
        !(m.run() matches Err(LpErr::NotRunning)),
        !(m.run() matches Err(LpErr::BadAddress(_))),
    decreases m.remaining(),
{
    if m.step().1 == Ok::<InterpreterState, LpErr>(InterpreterState::Continue) {
        lemma_step_finds_next(m, hw);
        lemma_run_reaches_result(m.step().0, hw);
    }
}

/// Whether a program reads the input `name`: whether one of its
/// instructions is a `Transfer` of that name.
pub open spec fn reads(program: Seq<Inst>, name: Seq<char>) -> bool {
    exists|i: int| 0 <= i < program.len() && transfers(#[trigger] program[i], name)
}

/// Whether an instruction is a `Transfer` of the input `name`.
pub open spec fn transfers(inst: Inst, name: Seq<char>) -> bool {
    inst matches Inst::Transfer(read, _) && read@ == name
}

/// Whether a program reads the input `name`.
pub fn program_reads(program: &Vec<Inst>, name: &String) -> (found: bool)
    ensures
        found == reads(program@, name@),
{
    let mut i: usize = 0;
    while i < program.len()
        invariant
            i <= program.len(),
            forall|j: int| 0 <= j < i ==> !transfers(#[trigger] program[j], name@),
        decreases program.len() - i,
    {
        let here = match &program[i] {
            Inst::Transfer(read, _) => *read == *name,
            _ => false,
        };
        if here {
            return true;
        }
        i = i + 1;
    }
    false
}

/// Whether a list of names holds the given name.
pub open spec fn names(list: Seq<String>, name: Seq<char>) -> bool {
    exists|i: int| 0 <= i < list.len() && (#[trigger] list[i])@ == name
}

/// Whether a list of names holds exactly the inputs that a program reads.
pub open spec fn reads_exactly(program: Seq<Inst>, list: Seq<String>) -> bool {
    forall|name: Seq<char>| reads(program, name) <==> names(list, name)
}

/// Whether a list of names holds the given name.
pub fn list_names(list: &Vec<String>, name: &String) -> (found: bool)
    ensures
        found == names(list@, name@),
{
    let mut i: usize = 0;
    while i < list.len()
        invariant
            i <= list.len(),
            forall|j: int| 0 <= j < i ==> (#[trigger] list[j])@ != name@,
        decreases list.len() - i,
    {
        if list[i] == *name {
            return true;
        }
        i = i + 1;
    }
    false
}

/// Whether a list of names holds exactly the inputs that a program reads.
pub fn program_reads_exactly(program: &Vec<Inst>, list: &Vec<String>) -> (ok: bool)
    ensures
        ok == reads_exactly(program@, list@),
{
    let mut i: usize = 0;
    while i < list.len()
        invariant
            i <= list.len(),
            forall|j: int| 0 <= j < i ==> reads(program@, (#[trigger] list[j])@),
        decreases list.len() - i,
    {
        if !program_reads(program, &list[i]) {
            assert(names(list@, list[i as int]@));
            return false;
        }
        i = i + 1;
    }
    let mut k: usize = 0;
    while k < program.len()
        invariant
            k <= program.len(),
            forall|j: int| 0 <= j < list.len() ==> reads(program@, (#[trigger] list[j])@),
            forall|j: int, name: Seq<char>|
                0 <= j < k && #[trigger] transfers(program[j], name) ==> names(list@, name),
        decreases program.len() - k,
    {
        match &program[k] {
            Inst::Transfer(read, _) => {
                if !list_names(list, read) {
                    assert(transfers(program[k as int], read@));
                    assert(reads(program@, read@));
                    return false;
                }
            },
            _ => {},
        }
        k = k + 1;
    }
    true
}

/// Whether no input is read by two instructions of the program.
pub open spec fn reads_once(program: Seq<Inst>) -> bool {
    forall|i: int, j: int, name: Seq<char>|
        0 <= i < j < program.len() && #[trigger] transfers(program[i], name)
            && #[trigger] transfers(program[j], name) ==> false
}

/// Whether no input is read by two instructions of the program.
pub fn program_reads_once(program: &Vec<Inst>) -> (ok: bool)
    ensures
        ok == reads_once(program@),
{
    let mut j: usize = 0;
    while j < program.len()
        invariant
            j <= program.len(),
            forall|i: int, k: int, name: Seq<char>|
                0 <= i < k < j && #[trigger] transfers(program[i], name) && #[trigger] transfers(
                    program[k],
                    name,
                ) ==> false,
        decreases program.len() - j,
    {
        match &program[j] {
            Inst::Transfer(read, _) => {
                let mut i: usize = 0;
                while i < j
                    invariant
                        i <= j < program.len(),
                        program[j as int] matches Inst::Transfer(own, _) && own == read,
                        forall|h: int| 0 <= h < i ==> !transfers(#[trigger] program[h], read@),
                    decreases j - i,
                {
                    let twice = match &program[i] {
                        Inst::Transfer(other, _) => *other == *read,
                        _ => false,
                    };
                    if twice {
                        assert(transfers(program[i as int], read@));
                        assert(transfers(program[j as int], read@));
                        return false;
                    }
                    i = i + 1;
                }
            },
            _ => {},
        }
        j = j + 1;
    }
    true
}

/// Whether every variable of an expression is in a list of names.
pub fn variables_listed(e: &Expr, list: &Vec<String>) -> (ok: bool)
    ensures
        ok == (forall|name: Seq<char>| variables(*e).contains(name) ==> names(list@, name)),
    decreases *e,
{
    match e {
        Expr::Num(_) => true,
        Expr::Var(name) => list_names(list, name),
        Expr::UnaryOp(_, operand) => variables_listed(operand, list),
        Expr::BinaryOp(left, _, right) => {
            let in_left = variables_listed(left, list);
            let in_right = variables_listed(right, list);
            in_left && in_right
        },
    }
}

/// Whether every name of a list is a variable of an expression.
pub fn names_mentioned(list: &Vec<String>, e: &Expr) -> (ok: bool)
    ensures
        ok == (forall|name: Seq<char>| names(list@, name) ==> variables(*e).contains(name)),
{
    let mut i: usize = 0;
    while i < list.len()
        invariant
            i <= list.len(),
            forall|j: int| 0 <= j < i ==> variables(*e).contains((#[trigger] list[j])@),
        decreases list.len() - i,
    {
        if !e.mentions(&list[i]) {
            assert(names(list@, list[i as int]@));
            return false;
        }
        i = i + 1;
    }
    true
}

/// What a code generator owes: the program is well formed for the machine,
/// it reads each variable of the expression in exactly one instruction and
/// reads nothing else, and the list names exactly the variables.
pub open spec fn generated_for(
    program: Seq<Inst>,
    list: Seq<String>,
    e: Expr,
    hw: InterpreterOptions,
) -> bool {
    &&& well_formed(program, hw)
    &&& reads_once(program)
    &&& reads_exactly(program, list)
    &&& forall|name: Seq<char>| variables(e).contains(name) <==> names(list, name)
}

/// Whether a program and the list of its inputs are what a code generator
/// owes for an expression and a machine.
pub fn is_generated_for(
    program: &Vec<Inst>,
    list: &Vec<String>,
    e: &Expr,
    hw: &InterpreterOptions,
) -> (ok: bool)
    ensures
        ok == generated_for(program@, list@, *e, *hw),
{
    is_well_formed(program, hw) && program_reads_once(program) && program_reads_exactly(
        program,
        list,
    ) && variables_listed(e, list) && names_mentioned(list, e)
}

/// Whether the inputs have a number for every name that the program reads.
pub open spec fn inputs_cover(program: Seq<Inst>, inputs: Option<Map<Seq<char>, String>>) -> bool {
    forall|i: int|
        0 <= i < program.len() ==> (#[trigger] program[i] matches Inst::Transfer(name, _)
            ==> input_value(inputs, name) is Ok)
}

/// Whether a failure is one of those that an input can cause.
pub open spec fn is_input_failure(e: LpErr) -> bool {
    e is NoVariables || e is UnknownVariable || e is EmptyVariable || e is NotANumber
}

/// With a number for every name that the program reads, no run fails on
/// an input.
pub proof fn lemma_covered_inputs_suffice(m: Machine)
    requires
        inputs_cover(m.program, m.inputs),
    ensures
        m.run() matches Err(e) ==> !is_input_failure(e),
    decreases m.remaining(),
{
    if m.step().1 == Ok::<InterpreterState, LpErr>(InterpreterState::Continue) {
        lemma_covered_inputs_suffice(m.step().0);
    }
}

/// Whether the inputs give every variable of an expression a number.
pub open spec fn inputs_give(inputs: Map<Seq<char>, String>, e: Expr) -> bool {
    forall|name: Seq<char>| #[trigger]
        variables(e).contains(name) ==> inputs.contains_key(name) && parse_i32(inputs[name]@)
            is Some
}

/// Code that is what a code generator owes for an expression, run from
/// its start on a machine of the right size with a number for every
/// variable of the expression, ends with a value unless the data stop it:
/// the only failures left are a division by zero and the read of an empty
/// register.
pub proof fn lemma_generated_code_runs(
    m: Machine,
    list: Seq<String>,
    e: Expr,
    hw: InterpreterOptions,
    inputs: Map<Seq<char>, String>,
)
    requires
        generated_for(m.program, list, e, hw),
        m.can_step(),
        m.ram.len() == hw.num_cachelines,
        m.inputs == Some(inputs),
        inputs_give(inputs, e),
    ensures
        m.run() matches Err(failure) ==> failure is DivisionByZero || failure is UnknownRegister
            || failure is EmptyRegister,
{
    assert forall|i: int|
        0 <= i < m.program.len() && #[trigger] m.program[i] is Transfer implies input_value(
        m.inputs,
        m.program[i]->Transfer_0,
    ) is Ok by {
        let name = m.program[i]->Transfer_0;
        assert(transfers(m.program[i], name@));
        assert(reads(m.program, name@));
        assert(names(list, name@));
        assert(variables(e).contains(name@));
    }
    lemma_covered_inputs_suffice(m);
    lemma_run_reaches_result(m, hw);
}

} // verus!

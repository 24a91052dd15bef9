//! What a front end needs around the interpreter: a run to the end next to
//! a second machine for stepping through the same program, and how much of
//! the RAM is worth showing.

use vstd::prelude::*;
use crate::interpreter::Interpreter;
use crate::machine::{lemma_recorded_run_is_the_same, Machine};
use crate::types::{Inst, InterpreterOptions, LpErr};
use crate::variables::Variables;

verus! {

/// A machine with `cells` RAM cells at the start of a run: the program is
/// loaded, the inputs are attached and the machine is ready. A machine
/// that records has already recorded the text of its first instruction, if
/// that has one.
pub open spec fn started(
    cells: nat,
    program: Seq<Inst>,
    inputs: Map<Seq<char>, String>,
    tracing: bool,
) -> Machine {
    let loaded = Machine { program, inputs: Some(inputs), ..Machine::fresh(cells) };
    let set_up = if tracing {
        (Machine { tracing: true, ..loaded }).traced()
    } else {
        loaded
    };
    Machine { running: true, ..set_up }
}

/// A copy of a program.
pub fn copy_program(program: &Vec<Inst>) -> (copy: Vec<Inst>)
    ensures
        copy@ == program@,
{
    let mut copy: Vec<Inst> = Vec::new();
    let mut i: usize = 0;
    while i < program.len()
        invariant
            i <= program.len(),
            copy@ == program@.take(i as int),
        decreases program.len() - i,
    {
        copy.push(program[i].duplicate());
        i = i + 1;
    }
    assert(program@.take(i as int) == program@);
    copy
}

/// Makes an interpreter ready to run `program` on `inputs`.
pub fn start(hw: &InterpreterOptions, program: Vec<Inst>, inputs: Variables, tracing: bool) -> (vm:
    Interpreter)
    ensures
        vm@ == started(hw.num_cachelines as nat, program@, inputs@, tracing),
{
    let vm = Interpreter::with_config(hw).load_instructions(program).with_variables(inputs);
    if tracing {
        vm.with_tracing().ready()
    } else {
        vm.ready()
    }
}

/// Runs `program` on `inputs` to its end. Where the run succeeds, its
/// value comes with a second machine, independent of the first, that is
/// ready to step through the same program on the same inputs and records
/// what it does. Stepped to its end, it arrives at the same value.
pub fn run_with_replay(hw: &InterpreterOptions, program: &Vec<Inst>, inputs: &Variables) -> (r:
    Result<(i32, Interpreter), LpErr>)
    ensures
        match r {
            Ok((value, vm)) => {
                &&& started(hw.num_cachelines as nat, program@, inputs@, false).run() == Ok::<
                    i32,
                    LpErr,
                >(value)
                &&& vm@ == started(hw.num_cachelines as nat, program@, inputs@, true)
                &&& vm@.run() == Ok::<i32, LpErr>(value)
            },
            Err(e) => started(hw.num_cachelines as nat, program@, inputs@, false).run() == Err::<
                i32,
                LpErr,
            >(e),
        },
{
    let live = start(hw, copy_program(program), inputs.duplicate(), false);
    proof {
        lemma_recorded_run_is_the_same(
            started(hw.num_cachelines as nat, program@, inputs@, false),
            started(hw.num_cachelines as nat, program@, inputs@, true),
        );
    }
    match live.run_to_end() {
        Ok(value) => Ok((value, start(hw, copy_program(program), inputs.duplicate(), true))),
        Err(e) => Err(e),
    }
}

/// The index of the last cell that is not zero, zero where there is none.
pub open spec fn last_nonzero(ram: Seq<i32>) -> nat
    decreases ram.len(),
{
    if ram.len() == 0 {
        0
    } else if ram.last() != 0 {
        (ram.len() - 1) as nat
    } else {
        last_nonzero(ram.drop_last())
    }
}

/// How many cells of the RAM are worth showing: up to one beyond the last
/// cell that is not zero, at least four, and never more than there are.
pub open spec fn shown_cells(ram: Seq<i32>, size: nat) -> nat {
    let wanted = if last_nonzero(ram) + 1 > 4 {
        last_nonzero(ram) + 1
    } else {
        4
    };
    if wanted < size {
        wanted
    } else {
        size
    }
}

/// The number of RAM cells to show of a machine with `size` cells.
pub fn cells_to_show(ram: &Vec<i32>, size: usize) -> (n: usize)
    ensures
        n == shown_cells(ram@, size as nat),
{
    let mut i: usize = ram.len();
    assert(ram@.take(i as int) == ram@);
    while i > 0 && ram[i - 1] == 0
        invariant
            i <= ram.len(),
            last_nonzero(ram@) == last_nonzero(ram@.take(i as int)),
        decreases i,
    {
        assert(ram@.take(i as int).drop_last() == ram@.take(i - 1));
        i = i - 1;
    }
    let wanted: usize = if i > 4 {
        i
    } else {
        4
    };
    if wanted < size {
        wanted
    } else {
        size
    }
}

} // verus!

use regvm::interpreter::{read_input, run_binop, Interpreter};
use regvm::machine::InterpreterState;
use regvm::registers::RegisterStore;
use regvm::types::{Inst, InterpreterOptions, LpErr, Operator, Reg, Warning};
use regvm::variables::Variables;

const R0: Reg = Reg(0);
const R1: Reg = Reg(1);
const R2: Reg = Reg(2);

fn hw() -> InterpreterOptions {
    InterpreterOptions { num_registers: 4, num_cachelines: 8 }
}

fn machine(program: Vec<Inst>) -> Interpreter {
    Interpreter::with_config(&hw()).load_instructions(program).ready()
}

fn inputs(pairs: &[(&str, &str)]) -> Variables {
    let mut vars = Variables::new();
    for (name, value) in pairs {
        vars.insert(name.to_string(), value.to_string());
    }
    vars
}

fn transfer_program() -> Vec<Inst> {
    vec![Inst::Transfer("x".to_string(), R0), Inst::Result(R0)]
}

#[test]
fn sum_of_two_stores_is_eight() {
    let vm = machine(vec![
        Inst::Store(5, R0),
        Inst::Store(3, R1),
        Inst::Add(R0, R1),
        Inst::Result(R1),
    ]);
    assert_eq!(vm.run_to_end(), Ok(8));
}

#[test]
fn step_after_result_is_refused() {
    let mut vm = machine(vec![Inst::Store(1, R0), Inst::Result(R0)]);
    assert_eq!(vm.step(), Ok(InterpreterState::Continue));
    assert!(vm.is_running());
    assert_eq!(vm.step(), Ok(InterpreterState::Finished(1)));
    assert!(!vm.is_running());
    assert_eq!(vm.step(), Err(LpErr::NotRunning));
    assert_eq!(vm.step(), Err(LpErr::NotRunning));
    assert_eq!(vm.reg_store.get(R0), Some(1));
}

#[test]
fn machine_that_was_not_made_ready_refuses_to_step() {
    let mut vm = Interpreter::with_config(&hw()).load_instructions(vec![Inst::Store(1, R0)]);
    assert!(!vm.is_running());
    assert_eq!(vm.step(), Err(LpErr::NotRunning));
    assert_eq!(vm.reg_store.get(R0), None);
    assert_eq!(vm.run_to_end(), Err(LpErr::NotRunning));
}

#[test]
fn program_without_result_runs_out() {
    let mut vm = machine(vec![Inst::Store(1, R0)]);
    assert_eq!(vm.step(), Ok(InterpreterState::Continue));
    assert_eq!(vm.step(), Err(LpErr::NoResult));
    assert!(vm.is_running());
    assert_eq!(machine(vec![]).run_to_end(), Err(LpErr::NoResult));
    assert_eq!(machine(vec![Inst::Store(1, R0)]).run_to_end(), Err(LpErr::NoResult));
}

#[test]
fn transfer_reads_a_number() {
    let vm = machine(transfer_program()).with_variables(inputs(&[("x", "7")]));
    assert_eq!(vm.run_to_end(), Ok(7));
    let vm = machine(transfer_program()).with_variables(inputs(&[("x", "-12")]));
    assert_eq!(vm.run_to_end(), Ok(-12));
}

#[test]
fn transfer_of_an_empty_text_fails() {
    let vm = machine(transfer_program()).with_variables(inputs(&[("x", "")]));
    assert_eq!(vm.run_to_end(), Err(LpErr::EmptyVariable("x".to_string())));
}

#[test]
fn transfer_of_a_word_fails() {
    let vm = machine(transfer_program()).with_variables(inputs(&[("x", "abc")]));
    assert_eq!(
        vm.run_to_end(),
        Err(LpErr::NotANumber("x".to_string(), "abc".to_string()))
    );
}

#[test]
fn transfer_of_a_missing_variable_fails() {
    let vm = machine(transfer_program()).with_variables(inputs(&[]));
    assert_eq!(vm.run_to_end(), Err(LpErr::UnknownVariable("x".to_string())));
    let vm = machine(transfer_program()).with_variables(inputs(&[("y", "1")]));
    assert_eq!(vm.run_to_end(), Err(LpErr::UnknownVariable("x".to_string())));
}

#[test]
fn transfer_without_inputs_fails() {
    let vm = machine(transfer_program());
    assert_eq!(vm.run_to_end(), Err(LpErr::NoVariables));
}

#[test]
fn failed_transfer_leaves_the_machine_alone() {
    let mut vm = machine(transfer_program()).with_variables(inputs(&[("x", "1x")]));
    assert!(vm.step().is_err());
    assert!(vm.is_running());
    assert_eq!(vm.reg_store.get(R0), None);
    assert_eq!(vm.step(), Err(LpErr::NotANumber("x".to_string(), "1x".to_string())));
}

#[test]
fn later_input_replaces_earlier_one() {
    let vm = machine(transfer_program()).with_variables(inputs(&[("x", "1"), ("x", "2")]));
    assert_eq!(vm.run_to_end(), Ok(2));
}

#[test]
fn read_input_tells_the_failures_apart() {
    let name = "n".to_string();
    assert_eq!(read_input(&None, &name), Err(LpErr::NoVariables));
    assert_eq!(
        read_input(&Some(inputs(&[])), &name),
        Err(LpErr::UnknownVariable(name.clone()))
    );
    assert_eq!(
        read_input(&Some(inputs(&[("n", "")])), &name),
        Err(LpErr::EmptyVariable(name.clone()))
    );
    assert_eq!(
        read_input(&Some(inputs(&[("n", " 4")])), &name),
        Err(LpErr::NotANumber(name.clone(), " 4".to_string()))
    );
    assert_eq!(read_input(&Some(inputs(&[("n", "+4")])), &name), Ok(4));
}

fn binary(inst: Inst, a: i32, b: i32) -> Result<(Option<i32>, Option<i32>), LpErr> {
    let mut vm = machine(vec![Inst::Store(a, R0), Inst::Store(b, R1), inst]);
    vm.step()?;
    vm.step()?;
    vm.step()?;
    Ok((vm.reg_store.get(R0), vm.reg_store.get(R1)))
}

#[test]
fn binary_instruction_writes_its_second_register() {
    assert_eq!(binary(Inst::Add(R0, R1), 5, 3), Ok((Some(5), Some(8))));
    assert_eq!(binary(Inst::Sub(R0, R1), 5, 3), Ok((Some(5), Some(2))));
    assert_eq!(binary(Inst::Sub(R0, R1), 3, 5), Ok((Some(3), Some(-2))));
    assert_eq!(binary(Inst::Mul(R0, R1), 5, 3), Ok((Some(5), Some(15))));
    assert_eq!(binary(Inst::Div(R0, R1), 17, 5), Ok((Some(17), Some(3))));
    assert_eq!(binary(Inst::Div(R0, R1), -17, 5), Ok((Some(-17), Some(-3))));
    assert_eq!(binary(Inst::Shl(R0, R1), 5, 3), Ok((Some(5), Some(40))));
    assert_eq!(binary(Inst::Shr(R0, R1), 40, 3), Ok((Some(40), Some(5))));
}

#[test]
fn binary_instruction_wraps() {
    assert_eq!(binary(Inst::Add(R0, R1), i32::MAX, 1), Ok((Some(i32::MAX), Some(i32::MIN))));
    assert_eq!(binary(Inst::Sub(R0, R1), i32::MIN, 1), Ok((Some(i32::MIN), Some(i32::MAX))));
    assert_eq!(binary(Inst::Mul(R0, R1), 65536, 65536), Ok((Some(65536), Some(0))));
    assert_eq!(binary(Inst::Div(R0, R1), i32::MIN, -1), Ok((Some(i32::MIN), Some(i32::MIN))));
}

#[test]
fn binary_instruction_on_one_register() {
    let mut vm = machine(vec![Inst::Store(21, R0), Inst::Add(R0, R0), Inst::Result(R0)]);
    assert_eq!(vm.step(), Ok(InterpreterState::Continue));
    assert_eq!(vm.step(), Ok(InterpreterState::Continue));
    assert_eq!(vm.reg_store.get(R0), Some(42));
    assert_eq!(vm.run_to_end(), Ok(42));
}

#[test]
fn division_by_zero_fails_and_changes_nothing() {
    let mut vm = machine(vec![Inst::Store(9, R0), Inst::Store(0, R1), Inst::Div(R0, R1)]);
    assert_eq!(vm.step(), Ok(InterpreterState::Continue));
    assert_eq!(vm.step(), Ok(InterpreterState::Continue));
    assert_eq!(vm.step(), Err(LpErr::DivisionByZero));
    assert_eq!(vm.reg_store.get(R0), Some(9));
    assert_eq!(vm.reg_store.get(R1), Some(0));
    assert!(vm.is_running());
    assert_eq!(vm.step(), Err(LpErr::DivisionByZero));
}

#[test]
fn division_by_zero_comes_before_the_empty_dividend() {
    let mut vm = machine(vec![Inst::Store(0, R1), Inst::Div(R0, R1)]);
    assert_eq!(vm.step(), Ok(InterpreterState::Continue));
    assert_eq!(vm.step(), Err(LpErr::DivisionByZero));
}

#[test]
fn zero_dividend_is_no_failure() {
    assert_eq!(binary(Inst::Div(R0, R1), 0, 7), Ok((Some(0), Some(0))));
}

#[test]
fn empty_operand_is_named() {
    let mut vm = machine(vec![Inst::Store(1, R1), Inst::Add(R0, R1)]);
    assert_eq!(vm.step(), Ok(InterpreterState::Continue));
    assert_eq!(vm.step(), Err(LpErr::UnknownRegister(R0)));
    assert_eq!(vm.reg_store.get(R1), Some(1));
    let mut vm = machine(vec![Inst::Store(1, R0), Inst::Mul(R0, R1)]);
    assert_eq!(vm.step(), Ok(InterpreterState::Continue));
    assert_eq!(vm.step(), Err(LpErr::UnknownRegister(R1)));
    let mut vm = machine(vec![Inst::Shl(R2, R1)]);
    assert_eq!(vm.step(), Err(LpErr::UnknownRegister(R2)));
}

#[test]
fn run_binop_reports_what_step_reports() {
    let mut store = RegisterStore::new();
    assert_eq!(run_binop(R0, R1, Operator::Add, &mut store), Err(LpErr::UnknownRegister(R0)));
    store.insert(R0, 6);
    assert_eq!(run_binop(R0, R1, Operator::Add, &mut store), Err(LpErr::UnknownRegister(R1)));
    store.insert(R1, 0);
    assert_eq!(run_binop(R0, R1, Operator::Div, &mut store), Err(LpErr::DivisionByZero));
    assert_eq!(store.get(R1), Some(0));
    store.insert(R1, 4);
    assert_eq!(run_binop(R0, R1, Operator::Sub, &mut store), Ok(()));
    assert_eq!(store.get(R0), Some(6));
    assert_eq!(store.get(R1), Some(2));
}

#[test]
fn write_and_load_at_the_edge_of_the_ram() {
    let size = hw().num_cachelines;
    let mut vm = machine(vec![
        Inst::Store(11, R0),
        Inst::Write(R0, size - 1),
        Inst::Load(size - 1, R1),
        Inst::Write(R0, size),
    ]);
    assert_eq!(vm.step(), Ok(InterpreterState::Continue));
    assert_eq!(vm.step(), Ok(InterpreterState::Continue));
    assert_eq!(vm.ram[size - 1], 11);
    assert_eq!(vm.step(), Ok(InterpreterState::Continue));
    assert_eq!(vm.reg_store.get(R1), Some(11));
    assert_eq!(vm.step(), Err(LpErr::BadAddress(size)));
    assert_eq!(vm.ram.len(), size);
    let mut vm = machine(vec![Inst::Load(size, R0)]);
    assert_eq!(vm.step(), Err(LpErr::BadAddress(size)));
    assert_eq!(vm.reg_store.get(R0), None);
}

#[test]
fn machine_without_ram_has_no_address() {
    let hw = InterpreterOptions { num_registers: 2, num_cachelines: 0 };
    let mut vm = Interpreter::with_config(&hw).load_instructions(vec![Inst::Load(0, R0)]).ready();
    assert!(vm.ram.is_empty());
    assert_eq!(vm.step(), Err(LpErr::BadAddress(0)));
}

#[test]
fn bad_address_comes_before_the_empty_register() {
    let mut vm = machine(vec![Inst::Write(R0, 99)]);
    assert_eq!(vm.step(), Err(LpErr::BadAddress(99)));
}

#[test]
fn write_from_an_empty_register_fails() {
    let mut vm = machine(vec![Inst::Write(R0, 0)]);
    assert_eq!(vm.step(), Err(LpErr::EmptyRegister(R0)));
    assert_eq!(vm.ram, vec![0; 8]);
}

#[test]
fn load_of_a_fresh_cell_is_zero() {
    let vm = machine(vec![Inst::Load(3, R0), Inst::Result(R0)]);
    assert_eq!(vm.run_to_end(), Ok(0));
}

#[test]
fn result_of_an_empty_register_ends_the_run() {
    let mut vm = machine(vec![Inst::Result(R0)]);
    assert_eq!(vm.step(), Err(LpErr::EmptyRegister(R0)));
    assert!(!vm.is_running());
    assert_eq!(vm.step(), Err(LpErr::NotRunning));
}

#[test]
fn overwriting_is_a_warning() {
    let mut vm = machine(vec![
        Inst::Store(1, R0),
        Inst::Store(2, R0),
        Inst::Transfer("x".to_string(), R0),
        Inst::Load(0, R0),
        Inst::Add(R0, R0),
        Inst::Store(3, R1),
        Inst::Result(R0),
    ])
    .with_variables(inputs(&[("x", "5")]));
    assert_eq!(vm.step(), Ok(InterpreterState::Continue));
    assert!(vm.warnings().is_empty());
    assert_eq!(vm.step(), Ok(InterpreterState::Continue));
    assert_eq!(vm.warnings(), &vec![Warning::Overwrite(R0)]);
    assert_eq!(vm.reg_store.get(R0), Some(2));
    assert_eq!(vm.step(), Ok(InterpreterState::Continue));
    assert_eq!(vm.warnings(), &vec![Warning::Overwrite(R0), Warning::Overwrite(R0)]);
    assert_eq!(vm.reg_store.get(R0), Some(5));
    assert_eq!(vm.step(), Ok(InterpreterState::Continue));
    assert_eq!(vm.step(), Ok(InterpreterState::Continue));
    assert_eq!(vm.step(), Ok(InterpreterState::Continue));
    assert_eq!(vm.warnings().len(), 2);
    assert_eq!(vm.run_to_end(), Ok(0));
}

#[test]
fn empty_register_is_not_zero() {
    let mut store = RegisterStore::new();
    assert_eq!(store.get(R0), None);
    assert!(!store.contains(R0));
    assert_eq!(store.insert(R0, 0), None);
    assert_eq!(store.get(R0), Some(0));
    assert!(store.contains(R0));
    assert_eq!(store.insert(R0, 4), Some(0));
    assert_eq!(store.get(R1), None);
    store.clear();
    assert_eq!(store.get(R0), None);
}

#[test]
fn new_machine_is_empty_and_zeroed() {
    let vm = Interpreter::with_config(&hw());
    assert_eq!(vm.ram, vec![0; 8]);
    assert_eq!(vm.memory(), &vec![0; 8]);
    assert_eq!(vm.registers().get(R0), None);
    assert!(!vm.is_running());
    assert_eq!(vm.display_current(), "");
    assert!(vm.warnings().is_empty());
    assert_eq!(vm.cur_as_string(), None);
}

#[test]
fn reset_clears_storage_and_rewinds() {
    let mut vm = machine(vec![Inst::Store(4, R0), Inst::Write(R0, 2), Inst::Result(R0)]);
    assert_eq!(vm.step(), Ok(InterpreterState::Continue));
    assert_eq!(vm.step(), Ok(InterpreterState::Continue));
    assert_eq!(vm.ram[2], 4);
    vm.reset();
    assert_eq!(vm.ram, vec![0; 8]);
    assert_eq!(vm.reg_store.get(R0), None);
    assert!(vm.is_running());
    assert_eq!(vm.run_to_end(), Ok(4));
}

#[test]
fn finished_carries_the_value() {
    assert_eq!(InterpreterState::from(3), InterpreterState::Finished(3));
    let state: InterpreterState = 9.into();
    assert_eq!(state, InterpreterState::Finished(9));
}

#[test]
fn two_machines_share_nothing() {
    let program = vec![Inst::Store(2, R0), Inst::Result(R0)];
    let mut first = machine(program.clone());
    let second = machine(program);
    assert_eq!(first.step(), Ok(InterpreterState::Continue));
    assert_eq!(second.reg_store.get(R0), None);
    assert_eq!(second.run_to_end(), Ok(2));
    assert_eq!(first.run_to_end(), Ok(2));
}

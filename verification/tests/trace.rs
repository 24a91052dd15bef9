use regvm::interpreter::Interpreter;
use regvm::machine::InterpreterState;
use regvm::types::{Inst, InterpreterOptions, LpErr, Reg, Warning};
use regvm::variables::Variables;

const R0: Reg = Reg(0);
const R1: Reg = Reg(1);

fn traced(program: Vec<Inst>) -> Interpreter {
    let hw = InterpreterOptions { num_registers: 4, num_cachelines: 16 };
    let mut vars = Variables::new();
    vars.insert("x".to_string(), "7".to_string());
    Interpreter::with_config(&hw)
        .load_instructions(program)
        .with_variables(vars)
        .with_tracing()
        .ready()
}

#[test]
fn trace_shows_operands_before_the_operation() {
    let mut vm = traced(vec![
        Inst::Store(5, R0),
        Inst::Store(-3, R1),
        Inst::Sub(R0, R1),
        Inst::Result(R1),
    ]);
    assert_eq!(vm.display_current(), "5 \u{27a1} [r0]");
    assert_eq!(vm.step(), Ok(InterpreterState::Continue));
    assert_eq!(vm.display_current(), "5 \u{27a1} [r0]");
    assert_eq!(vm.cur_as_string(), Some("-3 \u{27a1} [r1]".to_string()));
    assert_eq!(vm.step(), Ok(InterpreterState::Continue));
    assert_eq!(vm.display_current(), "-3 \u{27a1} [r1]");
    assert_eq!(vm.step(), Ok(InterpreterState::Continue));
    assert_eq!(vm.display_current(), "5 - -3");
    assert_eq!(vm.reg_store.get(R1), Some(8));
    assert_eq!(vm.step(), Ok(InterpreterState::Finished(8)));
    assert_eq!(vm.display_current(), "= 8");
    assert_eq!(vm.cur_as_string(), None);
}

#[test]
fn every_instruction_has_its_text() {
    let texts = [
        (Inst::Add(R0, R1), "6 + 2"),
        (Inst::Sub(R0, R1), "6 - 2"),
        (Inst::Mul(R0, R1), "6 * 2"),
        (Inst::Div(R0, R1), "6 / 2"),
        (Inst::Shl(R0, R1), "6 << 2"),
        (Inst::Shr(R0, R1), "6 >> 2"),
        (Inst::Store(i32::MIN, Reg(12)), "-2147483648 \u{27a1} [r12]"),
        (Inst::Transfer("x".to_string(), Reg(255)), "x \u{27a1} [r255]"),
        (Inst::Result(R1), "= 2"),
        (Inst::Write(R0, 10), "\u{2398} [r0] \u{27a1} [10]"),
        (Inst::Load(0, R1), "\u{2397} [r1] \u{2b05} [0]"),
    ];
    for (inst, text) in texts {
        let mut vm = traced(vec![Inst::Store(6, R0), Inst::Store(2, R1), inst]);
        assert_eq!(vm.step(), Ok(InterpreterState::Continue));
        assert_eq!(vm.step(), Ok(InterpreterState::Continue));
        assert_eq!(vm.cur_as_string(), Some(text.to_string()));
        assert!(vm.step().is_ok());
        assert_eq!(vm.display_current(), text);
    }
}

#[test]
fn display_binop_needs_both_values() {
    let mut vm = traced(vec![Inst::Store(6, R0), Inst::Add(R0, R1)]);
    assert_eq!(vm.display_binop(&R0, &R1, "+"), None);
    assert_eq!(vm.step(), Ok(InterpreterState::Continue));
    assert_eq!(vm.display_binop(&R0, &R1, "+"), None);
    assert_eq!(vm.display_binop(&R0, &R0, "+"), Some("6 + 6".to_string()));
    assert_eq!(vm.display_binop(&R0, &R0, "mod"), Some("6 mod 6".to_string()));
}

#[test]
fn instruction_without_text_keeps_the_last_one() {
    let mut vm = traced(vec![Inst::Store(6, R0), Inst::Add(R0, R1)]);
    assert_eq!(vm.step(), Ok(InterpreterState::Continue));
    assert_eq!(vm.cur_as_string(), None);
    assert_eq!(vm.step(), Err(LpErr::UnknownRegister(R1)));
    assert_eq!(vm.display_current(), "6 \u{27a1} [r0]");
}

#[test]
fn failing_instruction_is_shown() {
    let mut vm = traced(vec![Inst::Store(6, R0), Inst::Write(R0, 16)]);
    assert_eq!(vm.step(), Ok(InterpreterState::Continue));
    assert_eq!(vm.step(), Err(LpErr::BadAddress(16)));
    assert_eq!(vm.display_current(), "\u{2398} [r0] \u{27a1} [16]");
}

#[test]
fn refused_step_records_nothing() {
    let hw = InterpreterOptions { num_registers: 4, num_cachelines: 16 };
    let mut vm = Interpreter::with_config(&hw).with_tracing().load_instructions(vec![
        Inst::Store(1, R0),
        Inst::Store(2, R0),
    ]);
    assert_eq!(vm.display_current(), "1 \u{27a1} [r0]");
    assert_eq!(vm.step(), Err(LpErr::NotRunning));
    let mut vm = vm.ready();
    assert_eq!(vm.step(), Ok(InterpreterState::Continue));
    assert_eq!(vm.step(), Ok(InterpreterState::Continue));
    assert_eq!(vm.display_current(), "2 \u{27a1} [r0]");
    assert_eq!(vm.step(), Err(LpErr::NoResult));
    assert_eq!(vm.display_current(), "2 \u{27a1} [r0]");
    assert_eq!(vm.warnings(), &vec![Warning::Overwrite(R0)]);
}

#[test]
fn tracing_before_loading_records_nothing_yet() {
    let hw = InterpreterOptions { num_registers: 4, num_cachelines: 16 };
    let vm = Interpreter::with_config(&hw).with_tracing();
    assert_eq!(vm.display_current(), "");
}

#[test]
fn machine_that_does_not_trace_records_nothing() {
    let hw = InterpreterOptions { num_registers: 4, num_cachelines: 16 };
    let mut vm = Interpreter::with_config(&hw)
        .load_instructions(vec![Inst::Store(1, R0), Inst::Result(R0)])
        .ready();
    assert_eq!(vm.step(), Ok(InterpreterState::Continue));
    assert_eq!(vm.display_current(), "");
    assert_eq!(vm.cur_as_string(), Some("= 1".to_string()));
}

#[test]
fn register_names() {
    assert_eq!(Reg(0).name(), "r0");
    assert_eq!(Reg(9).name(), "r9");
    assert_eq!(Reg(10).name(), "r10");
    assert_eq!(Reg(255).name(), "r255");
    assert_eq!(Reg(7).index(), 7);
}

#[test]
fn failures_in_words() {
    assert_eq!(
        LpErr::NotRunning.message(),
        "The interpreter was either not ready to run or finished execution"
    );
    assert_eq!(LpErr::NoResult.message(), "no result found");
    assert_eq!(LpErr::UnknownRegister(Reg(3)).message(), "no such reg `r3`");
    assert_eq!(LpErr::EmptyRegister(Reg(14)).message(), "register `r14` is empty");
    assert_eq!(LpErr::DivisionByZero.message(), "division by zero");
    assert_eq!(LpErr::NoVariables.message(), "No variables loaded");
    assert_eq!(LpErr::UnknownVariable("x".to_string()).message(), "unknown variable `x`");
    assert_eq!(LpErr::EmptyVariable("y".to_string()).message(), "variable `y` is empty");
    assert_eq!(
        LpErr::NotANumber("z".to_string(), "abc".to_string()).message(),
        "variable `z` is not a number: `abc`"
    );
    assert_eq!(
        LpErr::BadAddress(4096).message(),
        "requested RAM address 4096 doesn't exist."
    );
    assert_eq!(
        LpErr::BadAddress(usize::MAX).message(),
        format!("requested RAM address {} doesn't exist.", usize::MAX)
    );
    assert_eq!(
        Warning::Overwrite(Reg(1)).message(),
        "Warning: overwriting register `r1`."
    );
}

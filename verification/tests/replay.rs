use regvm::machine::InterpreterState;
use regvm::replay::{cells_to_show, copy_program, run_with_replay, start};
use regvm::types::{Inst, InterpreterOptions, LpErr, Reg};
use regvm::variables::Variables;

const R0: Reg = Reg(0);
const R1: Reg = Reg(1);

fn hw() -> InterpreterOptions {
    InterpreterOptions { num_registers: 2, num_cachelines: 6 }
}

fn program() -> Vec<Inst> {
    vec![
        Inst::Transfer("x".to_string(), R0),
        Inst::Store(2, R1),
        Inst::Mul(R0, R1),
        Inst::Write(R1, 5),
        Inst::Result(R1),
    ]
}

fn inputs(x: &str) -> Variables {
    let mut vars = Variables::new();
    vars.insert("x".to_string(), x.to_string());
    vars
}

#[test]
fn run_comes_with_a_fresh_machine_to_replay() {
    let (value, mut vm) = run_with_replay(&hw(), &program(), &inputs("21")).unwrap();
    assert_eq!(value, 42);
    assert!(vm.is_running());
    assert_eq!(vm.ram, vec![0; 6]);
    assert_eq!(vm.reg_store.get(R0), None);
    assert_eq!(vm.display_current(), "x \u{27a1} [r0]");
    let mut texts = Vec::new();
    loop {
        let state = vm.step().unwrap();
        texts.push(vm.display_current().to_string());
        if let InterpreterState::Finished(v) = state {
            assert_eq!(v, 42);
            break;
        }
    }
    assert_eq!(
        texts,
        vec![
            "x \u{27a1} [r0]",
            "2 \u{27a1} [r1]",
            "21 * 2",
            "\u{2398} [r1] \u{27a1} [5]",
            "= 42",
        ]
    );
    assert_eq!(vm.ram[5], 42);
}

#[test]
fn failed_run_has_no_replay() {
    assert_eq!(
        run_with_replay(&hw(), &program(), &inputs("")).err(),
        Some(LpErr::EmptyVariable("x".to_string()))
    );
    assert_eq!(
        run_with_replay(&hw(), &program(), &Variables::new()).err(),
        Some(LpErr::UnknownVariable("x".to_string()))
    );
    let small = InterpreterOptions { num_registers: 2, num_cachelines: 5 };
    assert_eq!(
        run_with_replay(&small, &program(), &inputs("1")).err(),
        Some(LpErr::BadAddress(5))
    );
    assert_eq!(run_with_replay(&hw(), &vec![], &inputs("1")).err(), Some(LpErr::NoResult));
}

#[test]
fn started_machine_is_ready() {
    let vm = start(&hw(), program(), inputs("4"), false);
    assert!(vm.is_running());
    assert_eq!(vm.display_current(), "");
    assert_eq!(vm.run_to_end(), Ok(8));
    let vm = start(&hw(), program(), inputs("4"), true);
    assert_eq!(vm.display_current(), "x \u{27a1} [r0]");
    assert_eq!(vm.run_to_end(), Ok(8));
}

#[test]
fn program_copy_is_equal() {
    assert_eq!(copy_program(&program()), program());
    assert_eq!(copy_program(&vec![]), vec![]);
    for inst in program() {
        assert_eq!(inst.duplicate(), inst);
        assert_eq!(inst.clone(), inst);
    }
}

#[test]
fn variables_copy_is_equal() {
    let vars = inputs("5");
    let copy = vars.clone();
    assert_eq!(copy.get(&"x".to_string()), Some(&"5".to_string()));
    assert_eq!(copy.get(&"y".to_string()), None);
    assert!(copy.contains_key(&"x".to_string()));
    assert!(!vars.duplicate().contains_key(&"".to_string()));
}

#[test]
fn shown_cells_of_the_ram() {
    assert_eq!(cells_to_show(&vec![0; 16], 16), 4);
    assert_eq!(cells_to_show(&vec![0; 3], 3), 3);
    assert_eq!(cells_to_show(&vec![], 0), 0);
    assert_eq!(cells_to_show(&vec![], 16), 4);
    let mut ram = vec![0; 16];
    ram[0] = 1;
    assert_eq!(cells_to_show(&ram, 16), 4);
    ram[3] = 1;
    assert_eq!(cells_to_show(&ram, 16), 4);
    ram[4] = -1;
    assert_eq!(cells_to_show(&ram, 16), 5);
    ram[9] = 7;
    assert_eq!(cells_to_show(&ram, 16), 10);
    ram[15] = 7;
    assert_eq!(cells_to_show(&ram, 16), 16);
    assert_eq!(cells_to_show(&ram, 8), 8);
}

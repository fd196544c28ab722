use auxtools::value::Register;
use auxtools::vm::{provide, run, ExecState, HostRequest, RunEvent, VM};

const FUEL: u64 = 10_000;

fn reg(tag: u8, value: u32) -> Register {
    Register { tag, value }
}

#[test]
fn run_literal_return() {
    // LoadImmediate(r0, tag 0, 7); Return(r0)
    let program = vec![0x01, 0, 0, 7, 0, 0, 0, 0x15, 0];
    let mut vm = VM::new();
    vm.add_program(1, program);
    assert_eq!(vm.run_program(1, vec![], FUEL), Some(reg(0, 7)));
}

#[test]
fn run_add_arguments() {
    // LoadArgument(0, r0); LoadArgument(1, r1); Add(r0, r1, r2); Return(r2)
    let program = vec![0x02, 0, 0, 0x02, 1, 1, 0x07, 0, 1, 2, 0x15, 2];
    let mut vm = VM::new();
    vm.add_program(2, program);
    assert_eq!(
        vm.run_program(2, vec![reg(0, 3), reg(0, 4)], FUEL),
        Some(reg(0, 7))
    );
}

// A program with two divergent returns, reachable only through one side of
// a JumpFalse on argument 0:
//   0: LoadArgument(0, r0)        [0x02, 0, 0]
//   3: JumpFalse(r0, 18)          [0x12, 0, 18, 0, 0, 0]
//   9: LoadImmediate(r1, 0, 111)  [0x01, 1, 0, 111, 0, 0, 0]
//  16: Return(r1)                 [0x15, 1]
//  18: LoadImmediate(r1, 0, 222)  [0x01, 1, 0, 222, 0, 0, 0]
//  25: Return(r1)                 [0x15, 1]
fn branch_program() -> Vec<u8> {
    vec![
        0x02, 0, 0, 0x12, 0, 18, 0, 0, 0, 0x01, 1, 0, 111, 0, 0, 0, 0x15, 1, 0x01, 1, 0, 222, 0,
        0, 0, 0x15, 1,
    ]
}

#[test]
fn jump_false_takes_branch_on_falsy() {
    let mut vm = VM::new();
    vm.add_program(3, branch_program());
    assert_eq!(vm.run_program(3, vec![reg(0, 0)], FUEL), Some(reg(0, 222)));
}

#[test]
fn jump_false_falls_through_on_truthy() {
    let mut vm = VM::new();
    vm.add_program(3, branch_program());
    assert_eq!(vm.run_program(3, vec![reg(0, 1)], FUEL), Some(reg(0, 111)));
}

#[test]
fn halt_yields_empty_value() {
    let mut vm = VM::new();
    vm.add_program(4, vec![0x00]);
    assert_eq!(vm.run_program(4, vec![], FUEL), Some(reg(0, 0)));
}

#[test]
fn empty_program_is_implicit_halt() {
    let mut vm = VM::new();
    vm.add_program(5, vec![]);
    assert_eq!(vm.run_program(5, vec![], FUEL), Some(reg(0, 0)));
}

#[test]
fn missing_program_yields_nothing() {
    let vm = VM::new();
    assert_eq!(vm.run_program(9, vec![], FUEL), None);
}

#[test]
fn infinite_loop_exhausts_fuel() {
    // Jump 0: loops forever.
    let mut vm = VM::new();
    vm.add_program(6, vec![0x10, 0, 0, 0, 0]);
    assert_eq!(vm.run_program(6, vec![], 100), None);
}

#[test]
fn add_program_overwrites_previous() {
    let mut vm = VM::new();
    vm.add_program(7, vec![0x01, 0, 0, 1, 0, 0, 0, 0x15, 0]);
    vm.add_program(7, vec![0x01, 0, 0, 2, 0, 0, 0, 0x15, 0]);
    assert_eq!(vm.run_program(7, vec![], FUEL), Some(reg(0, 2)));
}

#[test]
fn locals_persist_across_instructions() {
    // LoadImmediate(r0, 0, 5); StoreLocal(r0, local 3); LoadImmediate(r0, 0, 9);
    // LoadLocal(local 3, r1); Return(r1)
    let program = vec![
        0x01, 0, 0, 5, 0, 0, 0, 0x04, 0, 3, 0x01, 0, 0, 9, 0, 0, 0, 0x03, 3, 1, 0x15, 1,
    ];
    let mut vm = VM::new();
    vm.add_program(8, program);
    assert_eq!(vm.run_program(8, vec![], FUEL), Some(reg(0, 5)));
}

#[test]
fn missing_argument_reads_as_empty_value() {
    // LoadArgument(2, r0); Return(r0), called with no arguments at all.
    let mut vm = VM::new();
    vm.add_program(10, vec![0x02, 2, 0, 0x15, 0]);
    assert_eq!(vm.run_program(10, vec![], FUEL), Some(reg(0, 0)));
}

#[test]
fn division_by_zero_payload_yields_zero() {
    // LoadImmediate(r0, 0, 5); LoadImmediate(r1, 0, 0); Div(r0, r1, r2); Return(r2)
    let program = vec![
        0x01, 0, 0, 5, 0, 0, 0, 0x01, 1, 0, 0, 0, 0, 0, 0x0A, 0, 1, 2, 0x15, 2,
    ];
    let mut vm = VM::new();
    vm.add_program(11, program);
    assert_eq!(vm.run_program(11, vec![], FUEL), Some(reg(0, 0)));
}

#[test]
fn less_than_produces_boolean_value() {
    // LoadImmediate(r0, 0, 3); LoadImmediate(r1, 0, 4); LessThan(r0, r1, r2); Return(r2)
    let program = vec![
        0x01, 0, 0, 3, 0, 0, 0, 0x01, 1, 0, 4, 0, 0, 0, 0x0B, 0, 1, 2, 0x15, 2,
    ];
    let mut vm = VM::new();
    vm.add_program(12, program);
    assert_eq!(vm.run_program(12, vec![], FUEL), Some(reg(0, 1)));
}

#[test]
fn detached_call_is_answered_with_empty_value() {
    // LoadImmediate(r0, 0, 5); Push(r0); Call(name 7, r1); Return(r1)
    let program = vec![0x01, 0, 0, 5, 0, 0, 0, 0x13, 0, 0x14, 7, 0, 1, 0x15, 1];
    let mut vm = VM::new();
    vm.add_program(13, program);
    assert_eq!(vm.run_program(13, vec![], FUEL), Some(reg(0, 0)));
}

#[test]
fn interactive_call_drains_stack_and_routes_reply() {
    // LoadImmediate(r0, 0, 5); Push(r0); Call(name 7, r1); Return(r1)
    let program = vec![0x01, 0, 0, 5, 0, 0, 0, 0x13, 0, 0x14, 7, 0, 1, 0x15, 1];
    let mut state = ExecState::start(program, vec![]);
    match run(&mut state, FUEL) {
        RunEvent::Request(HostRequest::CallProc { name, args }) => {
            assert_eq!(name, 7);
            assert_eq!(args, vec![reg(0, 5)]);
        }
        _ => panic!("expected a procedure-call request"),
    }
    provide(&mut state, reg(0, 99));
    match run(&mut state, FUEL) {
        RunEvent::Done(r) => assert_eq!(r, reg(0, 99)),
        _ => panic!("expected completion"),
    }
}

#[test]
fn interactive_get_field_pauses_with_object() {
    // LoadImmediate(r0, 2, 44); GetField(r0, name 0x0102, r1); Return(r1)
    let program = vec![0x01, 0, 2, 44, 0, 0, 0, 0x05, 0, 0x02, 0x01, 1, 0x15, 1];
    let mut state = ExecState::start(program, vec![]);
    match run(&mut state, FUEL) {
        RunEvent::Request(HostRequest::GetField { obj, name }) => {
            assert_eq!(obj, reg(2, 44));
            assert_eq!(name, 0x0102);
        }
        _ => panic!("expected a field-read request"),
    }
    provide(&mut state, reg(0, 123));
    match run(&mut state, FUEL) {
        RunEvent::Done(r) => assert_eq!(r, reg(0, 123)),
        _ => panic!("expected completion"),
    }
}

#[test]
fn run_reports_out_of_fuel() {
    let mut state = ExecState::start(vec![0x10, 0, 0, 0, 0], vec![]);
    match run(&mut state, 50) {
        RunEvent::OutOfFuel => {}
        _ => panic!("expected fuel exhaustion"),
    }
}

#[test]
fn wrapping_arithmetic() {
    // LoadImmediate(r0, 0, u32::MAX); LoadImmediate(r1, 0, 2); Add(r0, r1, r2); Return(r2)
    let program = vec![
        0x01, 0, 0, 0xFF, 0xFF, 0xFF, 0xFF, 0x01, 1, 0, 2, 0, 0, 0, 0x07, 0, 1, 2, 0x15, 2,
    ];
    let mut vm = VM::new();
    vm.add_program(14, program);
    assert_eq!(vm.run_program(14, vec![], FUEL), Some(reg(0, 1)));
}

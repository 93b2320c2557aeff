use xvm::assembler::Assembler;
use xvm::vm::{Effect, Outcome, Stop, VM};

fn run_to_halt(vm: &mut VM) -> Vec<Outcome> {
    let mut seen = Vec::new();
    for _ in 0..10_000 {
        if vm.halted {
            break;
        }
        seen.push(vm.step());
    }
    assert!(vm.halted);
    seen
}

fn loaded(prg: Vec<i32>) -> VM {
    let mut vm = VM::new();
    vm.init(prg, None);
    vm
}

#[test]
fn movv_then_movr_copies_value() {
    let code = Assembler::new().assemble("MOVV R0 42\nMOVR R1 R0\nHALT");
    let mut vm = loaded(code);
    run_to_halt(&mut vm);
    assert_eq!(vm.regs[1], 42);
}

#[test]
fn add_program_halts_with_sum() {
    let mut vm = loaded(vec![11, 0, 5, 11, 1, 3, 20, 0, 1, 255]);
    let seen = run_to_halt(&mut vm);
    assert_eq!(vm.regs[0], 8);
    assert_eq!(vm.regs[1], 3);
    assert_eq!(vm.pc, 10);
    assert!(vm.halted);
    let last = seen.last().unwrap();
    assert_eq!(last.stop, Some(Stop::Halt));
    assert!(last.past_end);
}

#[test]
fn pop_on_empty_stack_gives_zero() {
    let mut vm = loaded(vec![31, 2, 255]);
    vm.regs[2] = 7;
    let out = vm.step();
    assert_eq!(vm.regs[2], 0);
    assert!(!vm.halted);
    assert_eq!(out.stop, None);
    assert_eq!(vm.pc, 2);
}

#[test]
fn unknown_first_opcode_halts_at_once() {
    let mut vm = loaded(vec![9999, 0, 1]);
    let before = vm.regs;
    let out = vm.step();
    assert!(vm.halted);
    assert_eq!(vm.regs, before);
    assert_eq!(out.stop, Some(Stop::UnknownOpcode(9999, 0)));
    assert_eq!(vm.get_current_instruction(), "UNKNOWN");
}

#[test]
fn call_then_ret_returns_after_call() {
    // 0: CALL 4; 2: HALT; 3: filler; 4: RET
    let mut vm = loaded(vec![42, 4, 255, 0, 50]);
    vm.step();
    assert_eq!(vm.pc, 4);
    assert_eq!(vm.stack, vec![2]);
    vm.step();
    assert_eq!(vm.pc, 2);
    assert!(vm.stack.is_empty());
    assert_eq!(vm.step().stop, Some(Stop::Halt));
}

#[test]
fn jl_taken_when_less() {
    let mut vm = loaded(vec![41, 0, 1, 6, 255, 255, 62, 255]);
    vm.regs[0] = 1;
    vm.regs[1] = 2;
    vm.step();
    assert_eq!(vm.pc, 6);
}

#[test]
fn jl_falls_through_when_not_less() {
    let mut vm = loaded(vec![41, 0, 1, 6, 255, 255, 62, 255]);
    vm.regs[0] = 2;
    vm.regs[1] = 2;
    vm.step();
    assert_eq!(vm.pc, 4);
}

#[test]
fn push_pop_and_jump() {
    let mut vm = loaded(vec![11, 3, 9, 30, 3, 31, 4, 40, 10, 0, 255]);
    run_to_halt(&mut vm);
    assert_eq!(vm.regs[4], 9);
    assert_eq!(vm.pc, 11);
}

#[test]
fn print_appends_decimal_text() {
    let mut vm = VM::new();
    vm.init(vec![11, 0, -12, 60, 0, 11, 0, 305, 60, 0, 255], Some("out:".to_string()));
    let seen = run_to_halt(&mut vm);
    assert_eq!(vm.txt_output, "out:-12305");
    assert_eq!(seen[1].effect, Effect::Print(-12));
    assert_eq!(seen[3].effect, Effect::Print(305));
}

#[test]
fn print_extremes() {
    let mut vm = loaded(vec![11, 0, i32::MIN, 60, 0, 11, 0, 0, 60, 0, 255]);
    run_to_halt(&mut vm);
    assert_eq!(vm.txt_output, "-21474836480");
}

#[test]
fn draw_clear_and_sleep_effects() {
    let mut vm = loaded(vec![11, 0, 3, 11, 1, 4, 11, 2, 300, 61, 0, 1, 2, 62, 70, 25, 255]);
    let seen = run_to_halt(&mut vm);
    assert_eq!(seen[3].effect, Effect::Draw(3, 4, 44));
    assert_eq!(seen[4].effect, Effect::Clear);
    assert_eq!(seen[5].effect, Effect::Sleep(25));
}

#[test]
fn sub_and_add_wrap() {
    let mut vm = loaded(vec![11, 0, i32::MIN, 11, 1, 1, 21, 0, 1, 11, 2, i32::MAX, 20, 2, 1, 255]);
    run_to_halt(&mut vm);
    assert_eq!(vm.regs[0], i32::MAX);
    assert_eq!(vm.regs[2], i32::MIN);
}

#[test]
fn bad_register_operand_halts() {
    let mut vm = loaded(vec![11, 12, 5, 255]);
    let out = vm.step();
    assert!(vm.halted);
    assert_eq!(out.stop, Some(Stop::BadOperand(0)));
    assert_eq!(vm.pc, 0);
}

#[test]
fn missing_operand_halts() {
    let mut vm = loaded(vec![11, 0]);
    let out = vm.step();
    assert!(vm.halted);
    assert_eq!(out.stop, Some(Stop::BadOperand(0)));
}

#[test]
fn negative_jump_lands_past_the_end() {
    let mut vm = loaded(vec![40, -1]);
    let out = vm.step();
    assert!(vm.halted);
    assert_eq!(out.stop, None);
    assert!(out.past_end);
    assert_eq!(vm.pc, -1i32 as usize);
}

#[test]
fn taken_jl_to_negative_address_lands_past_the_end() {
    let mut vm = loaded(vec![41, 0, 1, -8, 255]);
    vm.regs[1] = 1;
    let out = vm.step();
    assert!(vm.halted);
    assert!(out.past_end);
    assert_eq!(vm.pc, -8i32 as usize);
}

#[test]
fn call_to_negative_address_still_pushes() {
    let mut vm = loaded(vec![255, 42, -2]);
    vm.pc = 1;
    let out = vm.step();
    assert!(vm.halted);
    assert!(out.past_end);
    assert_eq!(out.stop, None);
    assert_eq!(vm.stack, vec![3]);
    assert_eq!(vm.pc, -2i32 as usize);
}

#[test]
fn ret_to_negative_value_lands_past_the_end() {
    let mut vm = loaded(vec![11, 0, -5, 30, 0, 50]);
    vm.step();
    vm.step();
    let out = vm.step();
    assert!(vm.halted);
    assert!(out.past_end);
    assert!(vm.stack.is_empty());
    assert_eq!(vm.pc, -5i32 as usize);
}

#[test]
fn ret_on_empty_stack_goes_to_zero() {
    let mut vm = loaded(vec![11, 0, 1, 21, 5, 0, 50]);
    // 0: MOVV R0 1; 3: SUB R5 R0; 6: RET -> 0 again
    vm.step();
    vm.step();
    vm.step();
    assert_eq!(vm.pc, 0);
    assert!(!vm.halted);
    assert_eq!(vm.regs[5], -1);
}

#[test]
fn running_off_the_end_halts() {
    let mut vm = loaded(vec![11, 0, 5]);
    let out = vm.step();
    assert!(out.past_end);
    assert_eq!(out.stop, None);
    assert!(vm.halted);
}

#[test]
fn empty_program_halts_on_first_step() {
    let mut vm = loaded(vec![]);
    let out = vm.step();
    assert!(out.past_end);
    assert!(vm.halted);
}

#[test]
fn step_after_halt_does_nothing() {
    let mut vm = loaded(vec![255, 11, 0, 1]);
    vm.step();
    assert!(vm.halted);
    let out = vm.step();
    assert_eq!(out.stop, Some(Stop::AlreadyHalted));
    assert_eq!(vm.pc, 1);
    assert_eq!(vm.regs[0], 0);
}

#[test]
fn init_resets_state() {
    let mut vm = loaded(vec![11, 0, 1, 30, 0, 255]);
    run_to_halt(&mut vm);
    vm.init(vec![62, 255], Some("x".to_string()));
    assert_eq!(vm.pc, 0);
    assert!(!vm.halted);
    assert!(vm.stack.is_empty());
    assert_eq!(vm.txt_output, "x");
    assert_eq!(vm.get_current_instruction(), "CLS");
}

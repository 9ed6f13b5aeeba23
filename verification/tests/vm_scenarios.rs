use brainfart::opcode::Opcode;
use brainfart::parser::parse;
use brainfart::program::Program;
use brainfart::{FaultKind, Vm};

fn program_of(source: &str) -> Program {
    let chars: Vec<char> = source.chars().collect();
    parse(&chars).expect("source spells a program")
}

#[test]
fn three_increments_write_three() {
    let mut vm = Vm::load(program_of("+++."));
    vm.run().expect("the program is balanced");
    assert_eq!(vm.take_output(), vec![3u8]);
    assert_eq!(vm.current_cell(), 3);
}

#[test]
fn loop_moves_value_one_cell_right() {
    let mut vm = Vm::load(program_of("+[>+<-]"));
    vm.run().expect("the program is balanced");
    assert_eq!(vm.cursor(), 0);
    assert_eq!(vm.read_cell(0), Some(0));
    assert_eq!(vm.read_cell(1), Some(1));
    assert!(!vm.is_halted());
}

#[test]
fn define_then_call_bound_and_unbound_slots() {
    let mut vm = Vm::load(program_of("+{@}"));
    vm.run().expect("the program is balanced");
    // The definition consumed the cell value 1 as the slot index.
    assert_eq!(vm.current_cell(), 0);

    // Calling slot 0, which nothing bound: the cell is cleared and nothing
    // else happens.
    vm.extend_program(program_of("@"));
    vm.run().expect("the program is balanced");
    assert_eq!(vm.current_cell(), 0);
    assert!(!vm.is_halted());

    // Calling slot 1 after re-setting the cell: the body runs (it calls the
    // unbound slot 0) and returns here.
    vm.extend_program(program_of("+@"));
    vm.run().expect("the program is balanced");
    assert_eq!(vm.current_cell(), 0);
    assert!(!vm.is_halted());
    assert_eq!(vm.pc(), 7);
}

#[test]
fn extending_a_session_keeps_the_tape() {
    let mut vm = Vm::load(program_of("+"));
    vm.run().expect("the program is balanced");
    assert_eq!(vm.current_cell(), 1);

    vm.extend_program(program_of("+"));
    vm.run().expect("the program is balanced");
    assert_eq!(vm.current_cell(), 2);
}

#[test]
fn moves_only_grow_zeroed_tape() {
    let mut vm = Vm::load(program_of("<<>>><>"));
    vm.run().expect("the program is balanced");
    let len = vm.tape_len();
    assert!(vm.cursor() < len);
    for i in 0..len {
        assert_eq!(vm.read_cell(i), Some(0));
    }
    assert_eq!(vm.read_cell(len), None);
}

#[test]
fn moving_left_at_the_edge_grows_the_front() {
    let mut vm = Vm::load(program_of("+<"));
    vm.run().expect("the program is balanced");
    // The old cell keeps its value, addressed one position further right.
    assert_eq!(vm.cursor(), 0);
    assert_eq!(vm.read_cell(0), Some(0));
    assert_eq!(vm.read_cell(1), Some(1));
}

#[test]
fn two_hundred_fifty_six_increments_round_trip() {
    let source: String = "+".repeat(256);
    let mut vm = Vm::load(program_of(&source));
    vm.run().expect("the program is balanced");
    assert_eq!(vm.current_cell(), 0);
}

#[test]
fn decrement_from_zero_wraps_to_255() {
    let mut vm = Vm::load(program_of("-"));
    vm.run().expect("the program is balanced");
    assert_eq!(vm.current_cell(), 255);
}

#[test]
fn loop_with_zero_guard_skips_its_body() {
    let mut vm = Vm::load(program_of("[+++]"));
    vm.run().expect("the program is balanced");
    assert_eq!(vm.current_cell(), 0);
    assert_eq!(vm.pc(), 5);
}

#[test]
fn calling_an_unbound_slot_clears_the_cell_and_goes_on() {
    let mut vm = Vm::load(program_of("+++@."));
    vm.run().expect("the program is balanced");
    // The call cleared the cell; the instruction after it still ran.
    assert_eq!(vm.current_cell(), 0);
    assert_eq!(vm.take_output(), vec![0u8]);
}

#[test]
fn top_level_return_halts_the_session() {
    let mut vm = Vm::load(program_of("+\\+"));
    vm.run().expect("the program is balanced");
    assert!(vm.is_halted());
    // The instruction after the return never ran, and never will: the
    // session is over even after an extension.
    assert_eq!(vm.current_cell(), 1);
    vm.extend_program(program_of("+"));
    vm.run().expect("the program is balanced");
    assert_eq!(vm.current_cell(), 1);
}

#[test]
fn read_consumes_input_and_exhaustion_yields_zero() {
    let mut vm = Vm::load(program_of(",.,."));
    vm.feed_input(vec![65]);
    vm.run().expect("the program is balanced");
    assert_eq!(vm.take_output(), vec![65, 0]);
    // Taking the output drained the sink.
    assert_eq!(vm.take_output(), Vec::<u8>::new());
}

#[test]
fn stepping_executes_one_instruction_at_a_time() {
    let mut vm = Vm::load(program_of("++"));
    vm.step().expect("the program is balanced");
    assert_eq!(vm.current_cell(), 1);
    assert_eq!(vm.pc(), 1);
    vm.step().expect("the program is balanced");
    assert_eq!(vm.current_cell(), 2);
    // Past the end a step is a no-op.
    vm.step().expect("a finished program steps no further");
    assert_eq!(vm.current_cell(), 2);
    assert_eq!(vm.pc(), 2);
}

#[test]
fn unmatched_while_is_a_fatal_error() {
    let mut program = Program::new();
    program.push(Opcode::While);
    let mut vm = Vm::load(program);
    let error = vm.run().expect_err("the scan must run off the end");
    assert_eq!(error.kind, FaultKind::UnmatchedWhile);
    assert_eq!(error.pc, 0);
}

#[test]
fn unmatched_until_is_a_fatal_error() {
    let mut program = Program::new();
    program.push(Opcode::Incr);
    program.push(Opcode::Until);
    let mut vm = Vm::load(program);
    let error = vm.run().expect_err("the scan must run off the front");
    assert_eq!(error.into_inner(), (FaultKind::UnmatchedUntil, 1));
}

#[test]
fn unmatched_def_is_a_fatal_error() {
    let mut program = Program::new();
    program.push(Opcode::Def);
    let mut vm = Vm::load(program);
    let error = vm.run().expect_err("the scan must run off the end");
    assert_eq!(error.kind, FaultKind::UnmatchedDef);
    assert_eq!(error.pc, 0);
    // The engine stands exactly as before the failed instruction and the
    // cell was not consumed.
    assert_eq!(vm.pc(), 0);
    assert_eq!(vm.current_cell(), 0);
}

#[test]
fn nested_loops_resolve_to_their_own_brackets() {
    // Each pass of the outer loop bumps the second cell, the inner loop
    // clears it again, and the two increments after it leave it at 2; the
    // backward jumps must find their own opening brackets through the
    // nesting for the counts to come out this way.
    let mut vm = Vm::load(program_of("++++[->+[-]++<]>"));
    vm.run().expect("the program is balanced");
    assert_eq!(vm.cursor(), 1);
    assert_eq!(vm.current_cell(), 2);
}

#[test]
fn definitions_fall_through_without_running_their_body() {
    // The body would write if it ran by falling through.
    let mut vm = Vm::load(program_of("+{.}"));
    vm.run().expect("the program is balanced");
    assert_eq!(vm.take_output(), Vec::<u8>::new());
    assert!(!vm.is_halted());
}

#[test]
fn early_return_leaves_the_rest_of_the_body_unrun() {
    // Slot 1 is bound to a body that increments once, returns, and would
    // write if the return did not cut it short.
    let mut vm = Vm::load(program_of("+{+\\.}+@"));
    vm.run().expect("the program is balanced");
    assert_eq!(vm.take_output(), Vec::<u8>::new());
    assert_eq!(vm.current_cell(), 1);
    assert!(!vm.is_halted());
}

#[test]
fn a_fresh_engine_has_one_zero_cell() {
    let vm = Vm::new();
    assert_eq!(vm.tape_len(), 1);
    assert_eq!(vm.cursor(), 0);
    assert_eq!(vm.current_cell(), 0);
    assert_eq!(vm.pc(), 0);
    assert!(!vm.is_halted());
}

#[test]
fn nested_definitions_skip_as_one_block() {
    // The definition's forward scan must treat the inner `{`/`}` pair as
    // one nested block; landing on the inner `}` instead would return to
    // the top level and halt the session.
    let mut vm = Vm::load(program_of("++{{\\}}+"));
    vm.run().expect("the program is balanced");
    assert!(!vm.is_halted());
    assert_eq!(vm.current_cell(), 1);
}

use tape_machine::{compile, execute, first_byte, Instruction, RuntimeError, State};

fn run(source: &str, input: &[u8], max_steps: u64) -> (Result<State, RuntimeError>, Vec<u8>) {
    let program = compile(source.to_string()).unwrap();
    let mut output = Vec::new();
    let result = execute(&program, input, &mut output, max_steps);
    (result, output)
}

#[test]
fn the_empty_program_is_a_no_op() {
    for max_steps in [0u64, 1, 1_000] {
        let mut output = vec![1u8, 2];
        let state = execute(&Vec::new(), &[5, 6], &mut output, max_steps).unwrap();
        assert_eq!(state.tape(), vec![0u8]);
        assert_eq!(state.data_pointer(), 0);
        assert_eq!(state.instruction_pointer(), 0);
        assert_eq!(output, vec![1u8, 2]);
    }
}

#[test]
fn a_program_of_comments_is_a_no_op() {
    let (result, output) = run("nothing to do here\n", &[1, 2, 3], 0);
    let state = result.unwrap();
    assert_eq!(state.tape(), vec![0u8]);
    assert_eq!(state.instruction_pointer(), 0);
    assert!(output.is_empty());
}

#[test]
fn input_is_read_byte_by_byte_in_order() {
    let (result, output) = run(",>,>,<<.>.>.", &[10, 20, 30, 40], 100);
    let state = result.unwrap();
    assert_eq!(state.tape(), vec![10u8, 20, 30]);
    assert_eq!(output, vec![10u8, 20, 30]);
}

#[test]
fn echo_until_a_zero_byte() {
    let (result, output) = run(",[.,]", b"tape\0rest", 1_000);
    let state = result.unwrap();
    assert_eq!(state.cell(), 0);
    assert_eq!(output, b"tape".to_vec());
}

#[test]
fn reading_behind_the_end_of_the_input_fails() {
    let (result, output) = run(",.,.,.", &[1, 2], 100);
    assert_eq!(result.err(), Some(RuntimeError::InputExhausted));
    assert_eq!(output, vec![1u8, 2]);
    let (result, output) = run(",", &[], 100);
    assert_eq!(result.err(), Some(RuntimeError::InputExhausted));
    assert!(output.is_empty());
}

#[test]
fn bytes_are_emitted_verbatim() {
    let (result, output) = run("-.-.+++.", &[], 100);
    assert!(result.is_ok());
    assert_eq!(output, vec![255u8, 254, 1]);
}

#[test]
fn output_is_appended_to_what_the_sink_holds() {
    let program = compile("+.+.".to_string()).unwrap();
    let mut output = vec![9u8, 8];
    execute(&program, &[], &mut output, 100).unwrap();
    assert_eq!(output, vec![9u8, 8, 1, 2]);
}

#[test]
fn a_loop_on_a_zero_cell_is_skipped() {
    let (result, output) = run("[+.]>+.", &[], 100);
    let state = result.unwrap();
    assert_eq!(state.tape(), vec![0u8, 1]);
    assert_eq!(output, vec![1u8]);
}

#[test]
fn a_loop_runs_until_the_cell_is_zero() {
    let (result, output) = run("+++[>++<-]>.", &[], 1_000);
    let state = result.unwrap();
    assert_eq!(state.tape(), vec![0u8, 6]);
    assert_eq!(output, vec![6u8]);
}

#[test]
fn a_finished_run_has_counted_its_steps() {
    let source = "+++[>++<-]>.";
    let needed = 3 + 1 + 3 * 6 + 2;
    let (result, _) = run(source, &[], needed);
    assert!(result.is_ok());
    let (result, output) = run(source, &[], needed - 1);
    assert_eq!(result.err(), Some(RuntimeError::StepLimitReached));
    assert!(output.is_empty());
}

#[test]
fn a_larger_budget_changes_nothing() {
    let (small, small_output) = run("++[>+++<-]>.", &[], 100);
    let (large, large_output) = run("++[>+++<-]>.", &[], u64::MAX);
    let (small, large) = (small.unwrap(), large.unwrap());
    assert_eq!(small.tape(), large.tape());
    assert_eq!(small.data_pointer(), large.data_pointer());
    assert_eq!(small.instruction_pointer(), large.instruction_pointer());
    assert_eq!(small_output, large_output);
}

#[test]
fn an_endless_loop_stops_at_the_step_limit() {
    let (result, output) = run("+.+.[]", &[], 10_000);
    assert_eq!(result.err(), Some(RuntimeError::StepLimitReached));
    assert_eq!(output, vec![1u8, 2]);
}

#[test]
fn a_zero_budget_stops_an_unfinished_program_at_once() {
    let (result, output) = run(".", &[], 0);
    assert_eq!(result.err(), Some(RuntimeError::StepLimitReached));
    assert!(output.is_empty());
}

#[test]
fn a_placeholder_bracket_stops_the_run() {
    let program = vec![Instruction::IncByte, Instruction::Output, Instruction::EmptyOpenBracket];
    let mut output = Vec::new();
    let result = execute(&program, &[], &mut output, 100);
    assert_eq!(result.err(), Some(RuntimeError::UnresolvedBracket));
    assert_eq!(output, vec![1u8]);
}

#[test]
fn a_jump_out_of_range_stops_the_run() {
    let program = vec![Instruction::OpenBracket { jump_location: usize::MAX }];
    let mut output = Vec::new();
    let result = execute(&program, &[], &mut output, 100);
    assert_eq!(result.err(), Some(RuntimeError::InstructionPointerOverflow));
}

#[test]
fn a_jump_behind_the_program_ends_the_run() {
    let program = vec![Instruction::OpenBracket { jump_location: 50 }, Instruction::IncByte];
    let mut output = Vec::new();
    let state = execute(&program, &[], &mut output, 100).unwrap();
    assert_eq!(state.instruction_pointer(), 51);
    assert_eq!(state.cell(), 0);
}

#[test]
fn the_tape_grows_backward() {
    let (result, _) = run("+<<+", &[], 100);
    let state = result.unwrap();
    assert_eq!(state.tape(), vec![1u8, 0, 1]);
    assert_eq!(state.data_pointer(), 0);
}

#[test]
fn wraparound_clears_a_cell_in_256_rounds() {
    let (result, _) = run("+[+]", &[], 10_000);
    let state = result.unwrap();
    assert_eq!(state.cell(), 0);
    assert_eq!(state.instruction_pointer(), 4);
}

#[test]
fn first_byte_of_a_line() {
    assert_eq!(first_byte("a"), Some(b'a'));
    assert_eq!(first_byte("hello"), Some(b'h'));
    assert_eq!(first_byte(" x"), Some(b' '));
    assert_eq!(first_byte("é"), Some(0xC3));
    assert_eq!(first_byte(""), None);
}

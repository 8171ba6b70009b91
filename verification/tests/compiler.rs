use tape_machine::{
    brackets_are_balanced, compile, match_brackets, Bytecode, CompileError, Instruction,
};

fn lexed(source: &str) -> Bytecode {
    source.chars().filter_map(tape_machine::parse_character).collect()
}

fn open(jump_location: usize) -> Instruction {
    Instruction::OpenBracket { jump_location }
}

fn close(jump_location: usize) -> Instruction {
    Instruction::CloseBracket { jump_location }
}

#[test]
fn balance_check_compares_the_two_counts() {
    assert!(brackets_are_balanced(&lexed("")));
    assert!(brackets_are_balanced(&lexed("+-<>.,")));
    assert!(brackets_are_balanced(&lexed("[]")));
    assert!(brackets_are_balanced(&lexed("[[][]]")));
    assert!(!brackets_are_balanced(&lexed("[")));
    assert!(!brackets_are_balanced(&lexed("]")));
    assert!(!brackets_are_balanced(&lexed("[[]")));
    assert!(!brackets_are_balanced(&lexed("[]]")));
}

#[test]
fn balance_check_is_not_a_nesting_check() {
    assert!(brackets_are_balanced(&lexed("][")));
    assert!(brackets_are_balanced(&lexed("]][[")));
    assert!(brackets_are_balanced(&lexed("[]][")));
}

#[test]
fn balance_check_counts_placeholders_only() {
    assert!(brackets_are_balanced(&vec![open(1), Instruction::IncByte]));
    assert!(!brackets_are_balanced(&vec![Instruction::EmptyOpenBracket, close(0)]));
}

#[test]
fn empty_sequence_resolves_to_itself() {
    assert_eq!(match_brackets(&Vec::new()), Ok(Vec::new()));
}

#[test]
fn adjacent_pair_points_at_each_other() {
    assert_eq!(match_brackets(&lexed("[]")), Ok(vec![open(1), close(0)]));
}

#[test]
fn nested_pairs_are_resolved_inside_out() {
    assert_eq!(
        match_brackets(&lexed("[[][]]")),
        Ok(vec![open(5), open(2), close(1), open(4), close(3), close(0)])
    );
}

#[test]
fn other_instructions_pass_through_resolution() {
    assert_eq!(
        match_brackets(&lexed("+[->,<.]-")),
        Ok(vec![
            Instruction::IncByte,
            open(7),
            Instruction::DecByte,
            Instruction::IncPointer,
            Instruction::Input,
            Instruction::DecPointer,
            Instruction::Output,
            close(1),
            Instruction::DecByte,
        ])
    );
}

#[test]
fn resolved_brackets_in_the_input_are_left_alone() {
    let input = vec![open(9), Instruction::EmptyOpenBracket, Instruction::EmptyCloseBracket, close(7)];
    assert_eq!(match_brackets(&input), Ok(vec![open(9), open(2), close(1), close(7)]));
}

#[test]
fn unequal_counts_are_unbalanced() {
    assert_eq!(match_brackets(&lexed("[")), Err(CompileError::UnbalancedBrackets));
    assert_eq!(match_brackets(&lexed("]")), Err(CompileError::UnbalancedBrackets));
    assert_eq!(match_brackets(&lexed("[[]")), Err(CompileError::UnbalancedBrackets));
    assert_eq!(match_brackets(&lexed("[]]")), Err(CompileError::UnbalancedBrackets));
    assert_eq!(match_brackets(&lexed("]]][")), Err(CompileError::UnbalancedBrackets));
}

#[test]
fn close_before_open_is_unmatched() {
    assert_eq!(match_brackets(&lexed("][")), Err(CompileError::UnmatchedCloseBracket));
    assert_eq!(match_brackets(&lexed("[]][")), Err(CompileError::UnmatchedCloseBracket));
    assert_eq!(match_brackets(&lexed("]][[")), Err(CompileError::UnmatchedCloseBracket));
    assert_eq!(match_brackets(&lexed("+]-[.")), Err(CompileError::UnmatchedCloseBracket));
}

#[test]
fn compile_lexes_and_resolves() {
    assert_eq!(
        compile("+[-]".to_string()),
        Ok(vec![Instruction::IncByte, open(3), Instruction::DecByte, close(1)])
    );
    assert_eq!(
        compile("><+-.,".to_string()),
        Ok(vec![
            Instruction::IncPointer,
            Instruction::DecPointer,
            Instruction::IncByte,
            Instruction::DecByte,
            Instruction::Output,
            Instruction::Input,
        ])
    );
}

#[test]
fn compile_ignores_every_other_character() {
    let plain = compile("+[-]".to_string());
    assert_eq!(compile(" + [ - ] ".to_string()), plain);
    assert_eq!(compile("set one\n+\nloop [ minus - ] end\n".to_string()), plain);
    assert_eq!(compile("+é[→-］]".to_string()), plain);
}

#[test]
fn comments_alone_compile_to_the_empty_program() {
    assert_eq!(compile(String::new()), Ok(Vec::new()));
    assert_eq!(compile(" \n\t".to_string()), Ok(Vec::new()));
    assert_eq!(compile("no commands here at all\n".to_string()), Ok(Vec::new()));
}

#[test]
fn compiled_length_is_the_count_of_command_characters() {
    let source = "++ a [ > b + < - ] c . , \n ";
    let commands = source.chars().filter(|c| "+-<>.,[]".contains(*c)).count();
    assert_eq!(commands, 10);
    assert_eq!(compile(source.to_string()).unwrap().len(), 10);
}

#[test]
fn compile_rejects_badly_nested_sources() {
    assert_eq!(compile("[".to_string()), Err(CompileError::UnbalancedBrackets));
    assert_eq!(compile("+]".to_string()), Err(CompileError::UnbalancedBrackets));
    assert_eq!(compile("a [ b [ c ] d".to_string()), Err(CompileError::UnbalancedBrackets));
    assert_eq!(compile("][".to_string()), Err(CompileError::UnmatchedCloseBracket));
    assert_eq!(compile("+[-]]+[".to_string()), Err(CompileError::UnmatchedCloseBracket));
}

#[test]
fn partners_point_at_each_other() {
    let source = "++++++++[>++++[>++>+++>+++>+<<<<-]>+>->+>>+[<]<-]>>.[[][[]]]";
    let program = compile(source.to_string()).unwrap();
    let mut brackets = 0;
    for (i, instruction) in program.iter().enumerate() {
        match *instruction {
            Instruction::OpenBracket { jump_location } => {
                assert!(i < jump_location);
                assert_eq!(program[jump_location], close(i));
                brackets += 1;
            }
            Instruction::CloseBracket { jump_location } => {
                assert!(jump_location < i);
                assert_eq!(program[jump_location], open(i));
                brackets += 1;
            }
            Instruction::EmptyOpenBracket | Instruction::EmptyCloseBracket => {
                panic!("placeholder left at {}", i)
            }
            _ => {}
        }
    }
    assert_eq!(brackets, 14);
}

#[test]
fn deep_nesting_is_resolved() {
    let depth = 2_000;
    let source = "[".repeat(depth) + &"]".repeat(depth);
    let program = compile(source).unwrap();
    assert_eq!(program.len(), 2 * depth);
    for i in 0..depth {
        assert_eq!(program[i], open(2 * depth - 1 - i));
        assert_eq!(program[2 * depth - 1 - i], close(i));
    }
}

#[test]
fn compile_errors_have_their_messages() {
    assert_eq!(CompileError::UnbalancedBrackets.message(), "Unbalanced brackets");
    assert_eq!(
        CompileError::UnmatchedCloseBracket.message(),
        "Close bracket without matching open bracket"
    );
}

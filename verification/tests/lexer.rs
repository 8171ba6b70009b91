use tape_machine::{parse_character, Instruction};

#[test]
fn every_command_symbol_has_its_instruction() {
    assert_eq!(parse_character('>'), Some(Instruction::IncPointer));
    assert_eq!(parse_character('<'), Some(Instruction::DecPointer));
    assert_eq!(parse_character('+'), Some(Instruction::IncByte));
    assert_eq!(parse_character('-'), Some(Instruction::DecByte));
    assert_eq!(parse_character('.'), Some(Instruction::Output));
    assert_eq!(parse_character(','), Some(Instruction::Input));
    assert_eq!(parse_character('['), Some(Instruction::EmptyOpenBracket));
    assert_eq!(parse_character(']'), Some(Instruction::EmptyCloseBracket));
}

#[test]
fn whitespace_and_letters_have_none() {
    for character in [' ', '\n', '\r', '\t', 'a', 'Z', '0', '9', '#', '!', '\0'] {
        assert_eq!(parse_character(character), None);
    }
}

#[test]
fn look_alike_symbols_have_none() {
    for character in ['(', ')', '{', '}', '=', '_', ';', ':', '*', '/', '\\', '|', '\'', '"'] {
        assert_eq!(parse_character(character), None);
    }
    for character in ['é', '→', '＋', '［', '］', '\u{10FFFF}'] {
        assert_eq!(parse_character(character), None);
    }
}

#[test]
fn exactly_eight_ascii_characters_are_commands() {
    let mut commands = String::new();
    for code in 0u8..=127 {
        let character = code as char;
        if parse_character(character).is_some() {
            commands.push(character);
        }
    }
    assert_eq!(commands, "+,-.<>[]");
}

#[test]
fn the_lexer_never_gives_a_resolved_bracket() {
    for code in 0u32..=0x2FFF {
        if let Some(character) = char::from_u32(code) {
            let instruction = parse_character(character);
            assert!(!matches!(
                instruction,
                Some(Instruction::OpenBracket { .. }) | Some(Instruction::CloseBracket { .. })
            ));
        }
    }
}

//! The instruction set and the lexer.

use vstd::prelude::*;

verus! {

/// One instruction of the tape machine.
///
/// The lexer produces the two placeholder brackets; bracket resolution
/// replaces each of them by the variant that carries the index of its
/// matching partner.
#[derive(Clone, Copy, Debug, PartialEq, Eq, Structural)]
pub enum Instruction {
    /// `>`: move the data pointer one cell forward.
    IncPointer,
    /// `<`: move the data pointer one cell backward.
    DecPointer,
    /// `+`: add one to the current cell, modulo 256.
    IncByte,
    /// `-`: subtract one from the current cell, modulo 256.
    DecByte,
    /// `.`: emit the current cell as one output byte.
    Output,
    /// `,`: store one input byte in the current cell.
    Input,
    /// `[` before resolution.
    EmptyOpenBracket,
    /// `]` before resolution.
    EmptyCloseBracket,
    /// `[` whose matching `]` stands at `jump_location`.
    OpenBracket { jump_location: usize },
    /// `]` whose matching `[` stands at `jump_location`.
    CloseBracket { jump_location: usize },
}

/// A sequence of instructions, indexed from zero.
pub type Bytecode = Vec<Instruction>;

/// The instruction that a source character stands for, if any.
pub open spec fn lex_char(character: char) -> Option<Instruction> {
    match character {
        '>' => Some(Instruction::IncPointer),
        '<' => Some(Instruction::DecPointer),
        '+' => Some(Instruction::IncByte),
        '-' => Some(Instruction::DecByte),
        '.' => Some(Instruction::Output),
        ',' => Some(Instruction::Input),
        '[' => Some(Instruction::EmptyOpenBracket),
        ']' => Some(Instruction::EmptyCloseBracket),
        _ => None,
    }
}

/// Maps one source character to its instruction; every character other than
/// the eight command symbols gives `None`.
pub fn parse_character(character: char) -> (instruction: Option<Instruction>)
    ensures
        instruction == lex_char(character),
{
    match character {
        '>' => Some(Instruction::IncPointer),
        '<' => Some(Instruction::DecPointer),
        '+' => Some(Instruction::IncByte),
        '-' => Some(Instruction::DecByte),
        '.' => Some(Instruction::Output),
        ',' => Some(Instruction::Input),
        '[' => Some(Instruction::EmptyOpenBracket),
        ']' => Some(Instruction::EmptyCloseBracket),
        _ => None,
    }
}

} // verus!

//! The two kinds of failure: one raised while compiling, one while running.

use vstd::prelude::*;

verus! {

/// Why a source text was not turned into a program.
///
/// Only bracket resolution can fail, and no instruction is executed once it
/// has.
#[derive(Clone, Copy, Debug, PartialEq, Eq, Structural)]
pub enum CompileError {
    /// The number of `[` differs from the number of `]`.
    UnbalancedBrackets,
    /// There are as many `[` as `]`, but some `]` stands where no `[` is
    /// open.
    UnmatchedCloseBracket,
}

impl CompileError {
    /// The human-readable reason of this error.
    pub open spec fn reason(self) -> Seq<char> {
        match self {
            CompileError::UnbalancedBrackets => "Unbalanced brackets"@,
            CompileError::UnmatchedCloseBracket => "Close bracket without matching open bracket"@,
        }
    }

    /// Returns the human-readable reason of this error.
    pub fn message(&self) -> (text: String)
        ensures
            text@ == self.reason(),
    {
        match self {
            CompileError::UnbalancedBrackets => "Unbalanced brackets".to_owned(),
            CompileError::UnmatchedCloseBracket => {
                "Close bracket without matching open bracket".to_owned()
            },
        }
    }
}

/// Why a run stopped before the program was finished.
///
/// The engine stops at the first error; the instruction that raised it has
/// had no effect.
#[derive(Clone, Copy, Debug, PartialEq, Eq, Structural)]
pub enum RuntimeError {
    /// The tape would have to grow beyond the largest representable length.
    OutOfMemory,
    /// An input instruction found the input source at its end.
    InputExhausted,
    /// A bracket that was never resolved reached the engine.
    UnresolvedBracket,
    /// The next instruction pointer would not be representable.
    InstructionPointerOverflow,
    /// The step budget given to a bounded run was used up.
    StepLimitReached,
}

impl RuntimeError {
    /// The human-readable reason of this error.
    pub open spec fn reason(self) -> Seq<char> {
        match self {
            RuntimeError::OutOfMemory => "Out of memory"@,
            RuntimeError::InputExhausted => "Error taking input"@,
            RuntimeError::UnresolvedBracket => "Unresolved bracket"@,
            RuntimeError::InstructionPointerOverflow => "Instruction pointer overflow"@,
            RuntimeError::StepLimitReached => "Step limit reached"@,
        }
    }

    /// Returns the human-readable reason of this error.
    pub fn message(&self) -> (text: String)
        ensures
            text@ == self.reason(),
    {
        match self {
            RuntimeError::OutOfMemory => "Out of memory".to_owned(),
            RuntimeError::InputExhausted => "Error taking input".to_owned(),
            RuntimeError::UnresolvedBracket => "Unresolved bracket".to_owned(),
            RuntimeError::InstructionPointerOverflow => "Instruction pointer overflow".to_owned(),
            RuntimeError::StepLimitReached => "Step limit reached".to_owned(),
        }
    }
}

} // verus!

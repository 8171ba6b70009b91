//! The machine state and the meaning of each instruction.
//!
//! The tape is growable at both ends: it starts as one zero cell and gains a
//! zero cell whenever the data pointer would leave it, so pointer motion
//! fails only when the tape cannot become longer.

use std::collections::VecDeque;
use vstd::prelude::*;
use crate::error::RuntimeError;
use crate::instruction::{Bytecode, Instruction};

verus! {

/// The mathematical state of the machine: the tape, the position of the
/// current cell on it, and the position of the next instruction.
pub struct Machine {
    pub tape: Seq<u8>,
    pub data_pointer: nat,
    pub instruction_pointer: nat,
}

impl Machine {
    /// The data pointer names a cell of the tape, and the tape and the
    /// instruction pointer are representable.
    pub open spec fn wf(self) -> bool {
        &&& self.data_pointer < self.tape.len()
        &&& self.tape.len() <= usize::MAX
        &&& self.instruction_pointer <= usize::MAX
    }

    /// The state in which every run starts: one zero cell, both pointers at
    /// zero.
    pub open spec fn initial() -> Machine {
        Machine { tape: seq![0u8], data_pointer: 0, instruction_pointer: 0 }
    }

    /// The value of the current cell.
    pub open spec fn cell(self) -> u8 {
        self.tape[self.data_pointer as int]
    }

    /// This state with `value` in the current cell.
    pub open spec fn with_cell(self, value: u8) -> Machine {
        Machine { tape: self.tape.update(self.data_pointer as int, value), ..self }
    }

    /// This state with the instruction pointer at `target`, which has to be
    /// representable.
    pub open spec fn goto(self, target: nat) -> Result<Machine, RuntimeError> {
        if target > usize::MAX {
            Err(RuntimeError::InstructionPointerOverflow)
        } else {
            Ok(Machine { instruction_pointer: target, ..self })
        }
    }

    /// This state with the instruction pointer at the following instruction.
    pub open spec fn advance(self) -> Result<Machine, RuntimeError> {
        self.goto(self.instruction_pointer + 1)
    }

    /// Meaning of `>`: the data pointer moves one cell forward; when it
    /// leaves the tape, one zero cell is appended, which fails when the tape
    /// has the largest representable length.
    pub open spec fn inc_pointer(self) -> Result<Machine, RuntimeError> {
        if self.data_pointer + 1 < self.tape.len() {
            Machine { data_pointer: self.data_pointer + 1, ..self }.advance()
        } else if self.tape.len() >= usize::MAX {
            Err(RuntimeError::OutOfMemory)
        } else {
            Machine {
                tape: self.tape.push(0u8),
                data_pointer: self.data_pointer + 1,
                ..self
            }.advance()
        }
    }

    /// Meaning of `<`: the data pointer moves one cell backward; at the
    /// first cell, one zero cell is put in front of the tape instead, which
    /// fails when the tape has the largest representable length.
    pub open spec fn dec_pointer(self) -> Result<Machine, RuntimeError> {
        if self.data_pointer > 0 {
            Machine { data_pointer: (self.data_pointer - 1) as nat, ..self }.advance()
        } else if self.tape.len() >= usize::MAX {
            Err(RuntimeError::OutOfMemory)
        } else {
            Machine { tape: seq![0u8] + self.tape, ..self }.advance()
        }
    }

    /// Meaning of `+`: the current cell grows by one, modulo 256.
    pub open spec fn inc_byte(self) -> Result<Machine, RuntimeError> {
        self.with_cell(((self.cell() + 1) % 256) as u8).advance()
    }

    /// Meaning of `-`: the current cell shrinks by one, modulo 256.
    pub open spec fn dec_byte(self) -> Result<Machine, RuntimeError> {
        self.with_cell(((self.cell() + 255) % 256) as u8).advance()
    }

    /// Meaning of `.`: the current cell is emitted, unchanged.
    pub open spec fn output(self) -> Result<(Machine, u8), RuntimeError> {
        match self.advance() {
            Ok(next) => Ok((next, self.cell())),
            Err(error) => Err(error),
        }
    }

    /// Meaning of `,`: the byte that the input source gave is stored in the
    /// current cell; the end of the input is an error.
    pub open spec fn input(self, byte: Option<u8>) -> Result<Machine, RuntimeError> {
        match byte {
            Some(value) => self.with_cell(value).advance(),
            None => Err(RuntimeError::InputExhausted),
        }
    }

    /// Meaning of `[` with its partner at `partner`: on a zero cell the
    /// loop is skipped, to the instruction behind the partner.
    pub open spec fn open_bracket(self, partner: nat) -> Result<Machine, RuntimeError> {
        if self.cell() == 0 {
            self.goto(partner + 1)
        } else {
            self.advance()
        }
    }

    /// Meaning of `]` with its partner at `partner`: on a nonzero cell the
    /// loop body is entered again, at the instruction behind the partner.
    pub open spec fn close_bracket(self, partner: nat) -> Result<Machine, RuntimeError> {
        if self.cell() != 0 {
            self.goto(partner + 1)
        } else {
            self.advance()
        }
    }

    /// The instruction that is executed next, or `None` where the instruction
    /// pointer has run past the end of `program`.
    pub open spec fn fetch(self, program: Seq<Instruction>) -> Option<Instruction> {
        if self.instruction_pointer < program.len() {
            Some(program[self.instruction_pointer as int])
        } else {
            None
        }
    }

    /// Meaning of any instruction: the next state and the byte emitted, if
    /// any. `input` is what the input source gives, should the instruction
    /// ask for a byte. A placeholder bracket cannot be executed.
    pub open spec fn step(self, instruction: Instruction, input: Option<u8>) -> Result<
        (Machine, Option<u8>),
        RuntimeError,
    > {
        match instruction {
            Instruction::IncPointer => silent(self.inc_pointer()),
            Instruction::DecPointer => silent(self.dec_pointer()),
            Instruction::IncByte => silent(self.inc_byte()),
            Instruction::DecByte => silent(self.dec_byte()),
            Instruction::Output => match self.output() {
                Ok((next, byte)) => Ok((next, Some(byte))),
                Err(error) => Err(error),
            },
            Instruction::Input => silent(self.input(input)),
            Instruction::EmptyOpenBracket => Err(RuntimeError::UnresolvedBracket),
            Instruction::EmptyCloseBracket => Err(RuntimeError::UnresolvedBracket),
            Instruction::OpenBracket { jump_location } => silent(
                self.open_bracket(jump_location as nat),
            ),
            Instruction::CloseBracket { jump_location } => silent(
                self.close_bracket(jump_location as nat),
            ),
        }
    }
}

/// A step that emits nothing.
pub open spec fn silent(next: Result<Machine, RuntimeError>) -> Result<
    (Machine, Option<u8>),
    RuntimeError,
> {
    match next {
        Ok(machine) => Ok((machine, None)),
        Err(error) => Err(error),
    }
}

/// The mathematical content of what an instruction returned.
pub open spec fn outcome(result: Result<State, RuntimeError>) -> Result<Machine, RuntimeError> {
    match result {
        Ok(state) => Ok(state@),
        Err(error) => Err(error),
    }
}

/// The mathematical content of what an instruction that may emit a byte
/// returned.
pub open spec fn emitting_outcome<T>(result: Result<(State, T), RuntimeError>) -> Result<
    (Machine, T),
    RuntimeError,
> {
    match result {
        Ok((state, emitted)) => Ok((state@, emitted)),
        Err(error) => Err(error),
    }
}

/// Cell arithmetic is modulo 256 in both directions: adding one to 255 gives
/// 0, subtracting one from 0 gives 255, and everywhere else the cell moves by
/// one. Nothing but the current cell and the instruction pointer changes.
pub proof fn cell_arithmetic_wraps(m: Machine)
    requires
        m.wf(),
    ensures
        m.inc_byte() matches Ok(next) ==> {
            &&& next.cell() == if m.cell() == 255 { 0 } else { m.cell() + 1 }
            &&& next.tape == m.tape.update(m.data_pointer as int, next.cell())
            &&& next.data_pointer == m.data_pointer
            &&& next.instruction_pointer == m.instruction_pointer + 1
        },
        m.dec_byte() matches Ok(next) ==> {
            &&& next.cell() == if m.cell() == 0 { 255 } else { m.cell() - 1 }
            &&& next.tape == m.tape.update(m.data_pointer as int, next.cell())
            &&& next.data_pointer == m.data_pointer
            &&& next.instruction_pointer == m.instruction_pointer + 1
        },
{
}

/// Subtracting one undoes adding one, and adding one undoes subtracting one,
/// whatever the cell holds.
pub proof fn inc_and_dec_cancel(m: Machine)
    requires
        m.wf(),
    ensures
        m.inc_byte() matches Ok(up) ==> (up.dec_byte() matches Ok(back) ==> back.tape == m.tape),
        m.dec_byte() matches Ok(down) ==> (down.inc_byte() matches Ok(back) ==> back.tape
            == m.tape),
{
}

/// An instruction that succeeds leaves the machine well formed: the data
/// pointer still names a cell. The tape never shrinks, and it grows by at
/// most one cell.
pub proof fn step_preserves_well_formedness(m: Machine, instruction: Instruction, input: Option<u8>)
    requires
        m.wf(),
    ensures
        m.step(instruction, input) matches Ok((next, _)) ==> {
            &&& next.wf()
            &&& m.tape.len() <= next.tape.len() <= m.tape.len() + 1
        },
{
}

/// Pointer motion fails only where the tape would have to grow beyond the
/// largest representable length; on any shorter tape both directions
/// succeed as far as the tape is concerned.
pub proof fn motion_fails_only_on_full_tape(m: Machine)
    requires
        m.wf(),
    ensures
        m.inc_pointer() == Err::<Machine, RuntimeError>(RuntimeError::OutOfMemory) <==> m.tape.len()
            == usize::MAX && m.data_pointer + 1 == m.tape.len(),
        m.dec_pointer() == Err::<Machine, RuntimeError>(RuntimeError::OutOfMemory) <==> m.tape.len()
            == usize::MAX && m.data_pointer == 0,
{
}

/// The state of one run: the tape, the data pointer and the instruction
/// pointer. The data pointer always names a cell of the tape.
pub struct State {
    memory: VecDeque<u8>,
    data_pointer: usize,
    instruction_pointer: usize,
}

impl View for State {
    type V = Machine;

    closed spec fn view(&self) -> Machine {
        Machine {
            tape: self.memory@,
            data_pointer: self.data_pointer as nat,
            instruction_pointer: self.instruction_pointer as nat,
        }
    }
}

/// Overwrites one cell of the tape by `VecDeque`'s `IndexMut::index_mut`:
/// the cell at `index` takes `value`, all other cells and the length stay as
/// they are. `index_mut` panics on an index outside the deque, which the
/// precondition rules out.
#[verifier::external_body]
fn write_cell(memory: &mut VecDeque<u8>, index: usize, value: u8)
    requires
        index < old(memory)@.len(),
    ensures
        final(memory)@ == old(memory)@.update(index as int, value),
{
    memory[index] = value;
}

impl State {
    #[verifier::type_invariant]
    spec fn pointer_on_tape(self) -> bool {
        self.data_pointer < self.memory@.len()
    }

    /// The invariant of the type, said of the view.
    proof fn lemma_view_wf(self)
        requires
            self.pointer_on_tape(),
        ensures
            self@.wf(),
    {
        assert(self.memory.len() == self.memory@.len());
    }

    /// The state in which every run starts.
    pub fn new() -> (state: State)
        ensures
            state@ == Machine::initial(),
    {
        let mut memory: VecDeque<u8> = VecDeque::new();
        memory.push_back(0u8);
        State { memory, data_pointer: 0, instruction_pointer: 0 }
    }

    /// Puts the instruction pointer at `target`.
    fn goto(self, target: usize) -> (next: State)
        ensures
            Ok::<Machine, RuntimeError>(next@) == self@.goto(target as nat),
    {
        proof {
            use_type_invariant(&self);
        }
        State {
            memory: self.memory,
            data_pointer: self.data_pointer,
            instruction_pointer: target,
        }
    }

    /// Puts the instruction pointer at the instruction behind `position`.
    fn goto_behind(self, position: usize) -> (result: Result<State, RuntimeError>)
        ensures
            outcome(result) == self@.goto(position as nat + 1),
    {
        if position == usize::MAX {
            Err(RuntimeError::InstructionPointerOverflow)
        } else {
            Ok(self.goto(position + 1))
        }
    }

    /// Puts the instruction pointer at the following instruction.
    fn advance(self) -> (result: Result<State, RuntimeError>)
        ensures
            outcome(result) == self@.advance(),
    {
        let position: usize = self.instruction_pointer;
        self.goto_behind(position)
    }

    /// Stores `value` in the current cell.
    fn with_cell(self, value: u8) -> (next: State)
        ensures
            next@ == self@.with_cell(value),
    {
        proof {
            use_type_invariant(&self);
        }
        let State { mut memory, data_pointer, instruction_pointer } = self;
        write_cell(&mut memory, data_pointer, value);
        State { memory, data_pointer, instruction_pointer }
    }

    /// Executes `>`: moves the data pointer one cell forward, appending a
    /// zero cell when it leaves the tape.
    pub fn inc_pointer(self) -> (result: Result<State, RuntimeError>)
        ensures
            outcome(result) == self@.inc_pointer(),
            self@.wf(),
    {
        proof {
            use_type_invariant(&self);
            self.lemma_view_wf();
        }
        let State { mut memory, data_pointer, instruction_pointer } = self;
        if data_pointer + 1 == memory.len() {
            if memory.len() == usize::MAX {
                return Err(RuntimeError::OutOfMemory);
            }
            memory.push_back(0u8);
        }
        State { memory, data_pointer: data_pointer + 1, instruction_pointer }.advance()
    }

    /// Executes `<`: moves the data pointer one cell backward, putting a
    /// zero cell in front of the tape when it stands at the first cell.
    pub fn dec_pointer(self) -> (result: Result<State, RuntimeError>)
        ensures
            outcome(result) == self@.dec_pointer(),
            self@.wf(),
    {
        proof {
            use_type_invariant(&self);
            self.lemma_view_wf();
        }
        let State { mut memory, data_pointer, instruction_pointer } = self;
        if data_pointer == 0 {
            if memory.len() == usize::MAX {
                return Err(RuntimeError::OutOfMemory);
            }
            memory.push_front(0u8);
            State { memory, data_pointer, instruction_pointer }.advance()
        } else {
            State { memory, data_pointer: data_pointer - 1, instruction_pointer }.advance()
        }
    }

    /// Executes `+`: adds one to the current cell; 255 becomes 0.
    pub fn inc_byte(self) -> (result: Result<State, RuntimeError>)
        ensures
            outcome(result) == self@.inc_byte(),
            self@.wf(),
    {
        proof {
            use_type_invariant(&self);
            self.lemma_view_wf();
        }
        let value: u8 = self.memory[self.data_pointer].wrapping_add(1);
        self.with_cell(value).advance()
    }

    /// Executes `-`: subtracts one from the current cell; 0 becomes 255.
    pub fn dec_byte(self) -> (result: Result<State, RuntimeError>)
        ensures
            outcome(result) == self@.dec_byte(),
            self@.wf(),
    {
        proof {
            use_type_invariant(&self);
            self.lemma_view_wf();
        }
        let value: u8 = self.memory[self.data_pointer].wrapping_sub(1);
        self.with_cell(value).advance()
    }

    /// Executes `.`: returns the current cell as the byte to emit.
    pub fn output(self) -> (result: Result<(State, u8), RuntimeError>)
        ensures
            emitting_outcome(result) == self@.output(),
            self@.wf(),
    {
        proof {
            use_type_invariant(&self);
            self.lemma_view_wf();
        }
        let byte: u8 = self.memory[self.data_pointer];
        match self.advance() {
            Ok(next) => Ok((next, byte)),
            Err(error) => Err(error),
        }
    }

    /// Executes `,`: stores the byte that the input source gave in the
    /// current cell. `None` says that the input is at its end, which is an
    /// error.
    pub fn input(self, byte: Option<u8>) -> (result: Result<State, RuntimeError>)
        ensures
            outcome(result) == self@.input(byte),
            self@.wf(),
    {
        proof {
            use_type_invariant(&self);
            self.lemma_view_wf();
        }
        match byte {
            Some(value) => self.with_cell(value).advance(),
            None => Err(RuntimeError::InputExhausted),
        }
    }

    /// Executes `[` whose partner stands at `jump_location`: on a zero cell
    /// continues behind the partner, otherwise with the loop body.
    pub fn open_bracket(self, jump_location: usize) -> (result: Result<State, RuntimeError>)
        ensures
            outcome(result) == self@.open_bracket(jump_location as nat),
            self@.wf(),
    {
        proof {
            use_type_invariant(&self);
            self.lemma_view_wf();
        }
        if self.memory[self.data_pointer] == 0 {
            self.goto_behind(jump_location)
        } else {
            self.advance()
        }
    }

    /// Executes `]` whose partner stands at `jump_location`: on a nonzero
    /// cell continues behind the partner, that is with the loop body again,
    /// otherwise behind the loop.
    pub fn close_bracket(self, jump_location: usize) -> (result: Result<State, RuntimeError>)
        ensures
            outcome(result) == self@.close_bracket(jump_location as nat),
            self@.wf(),
    {
        proof {
            use_type_invariant(&self);
            self.lemma_view_wf();
        }
        if self.memory[self.data_pointer] != 0 {
            self.goto_behind(jump_location)
        } else {
            self.advance()
        }
    }

    /// Executes one instruction, whichever it is, and returns the next state
    /// with the byte to emit, if the instruction emits one.
    ///
    /// `input` is what the input source gives: it is read by the input
    /// instruction alone, for which `None` says that the input is at its
    /// end. A placeholder bracket is refused.
    pub fn step(self, instruction: Instruction, input: Option<u8>) -> (result: Result<
        (State, Option<u8>),
        RuntimeError,
    >)
        ensures
            emitting_outcome(result) == self@.step(instruction, input),
            self@.wf(),
    {
        proof {
            use_type_invariant(&self);
            self.lemma_view_wf();
        }
        let moved = match instruction {
            Instruction::IncPointer => self.inc_pointer(),
            Instruction::DecPointer => self.dec_pointer(),
            Instruction::IncByte => self.inc_byte(),
            Instruction::DecByte => self.dec_byte(),
            Instruction::Output => {
                return match self.output() {
                    Ok((next, byte)) => Ok((next, Some(byte))),
                    Err(error) => Err(error),
                };
            },
            Instruction::Input => self.input(input),
            Instruction::EmptyOpenBracket => Err(RuntimeError::UnresolvedBracket),
            Instruction::EmptyCloseBracket => Err(RuntimeError::UnresolvedBracket),
            Instruction::OpenBracket { jump_location } => self.open_bracket(jump_location),
            Instruction::CloseBracket { jump_location } => self.close_bracket(jump_location),
        };
        match moved {
            Ok(next) => Ok((next, None)),
            Err(error) => Err(error),
        }
    }

    /// The instruction to execute next, or `None` once the instruction
    /// pointer has run past the end of `bytecode`, which ends the run.
    pub fn fetch(&self, bytecode: &Bytecode) -> (instruction: Option<Instruction>)
        ensures
            instruction == self@.fetch(bytecode@),
            self@.wf(),
    {
        proof {
            use_type_invariant(self);
            self.lemma_view_wf();
        }
        if self.instruction_pointer < bytecode.len() {
            Some(bytecode[self.instruction_pointer])
        } else {
            None
        }
    }

    /// The position of the current cell on the tape.
    pub fn data_pointer(&self) -> (position: usize)
        ensures
            position == self@.data_pointer,
            self@.wf(),
    {
        proof {
            use_type_invariant(self);
            self.lemma_view_wf();
        }
        self.data_pointer
    }

    /// The position of the instruction to execute next.
    pub fn instruction_pointer(&self) -> (position: usize)
        ensures
            position == self@.instruction_pointer,
            self@.wf(),
    {
        proof {
            use_type_invariant(self);
            self.lemma_view_wf();
        }
        self.instruction_pointer
    }

    /// The value of the current cell.
    pub fn cell(&self) -> (value: u8)
        ensures
            value == self@.cell(),
            self@.wf(),
    {
        proof {
            use_type_invariant(self);
            self.lemma_view_wf();
        }
        self.memory[self.data_pointer]
    }

    /// The number of cells that the tape has grown to.
    pub fn tape_len(&self) -> (length: usize)
        ensures
            length == self@.tape.len(),
            self@.wf(),
    {
        proof {
            use_type_invariant(self);
            self.lemma_view_wf();
        }
        self.memory.len()
    }

    /// A copy of the tape, first cell first.
    pub fn tape(&self) -> (cells: Vec<u8>)
        ensures
            cells@ == self@.tape,
            self@.wf(),
    {
        proof {
            use_type_invariant(self);
            self.lemma_view_wf();
        }
        let n: usize = self.memory.len();
        let mut cells: Vec<u8> = Vec::new();
        let mut i: usize = 0;
        while i < n
            invariant
                n == self.memory@.len(),
                i <= n,
                cells@ == self.memory@.take(i as int),
            decreases n - i,
        {
            cells.push(self.memory[i]);
            i += 1;
        }
        cells
    }
}

} // verus!

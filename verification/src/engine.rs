//! The execution engine: what a run of a program is, and a bounded run over
//! input that is known in advance.

use vstd::prelude::*;
use vstd::string::StringSliceAdditionalSpecFns;
use crate::error::RuntimeError;
use crate::instruction::{Bytecode, Instruction};
use crate::machine::{Machine, State};
use crate::nesting::is_program;

verus! {

/// What can be observed of a run at some point of it: the machine, how many
/// input bytes have been read, the bytes emitted so far, and the error that
/// stopped it, if one did.
pub struct Run {
    pub machine: Machine,
    pub consumed: nat,
    pub output: Seq<u8>,
    pub error: Option<RuntimeError>,
}

impl Run {
    /// The beginning of every run.
    pub open spec fn start() -> Run {
        Run { machine: Machine::initial(), consumed: 0, output: Seq::empty(), error: None }
    }

    /// The run is over: an error stopped it, or the instruction pointer has
    /// run past the end of the program.
    pub open spec fn finished(self, program: Seq<Instruction>) -> bool {
        self.error is Some || self.machine.fetch(program) is None
    }

    /// The byte that the input source gives next: the first of `input` that
    /// has not been read, or `None` at its end.
    pub open spec fn next_input(self, input: Seq<u8>) -> Option<u8> {
        if self.consumed < input.len() {
            Some(input[self.consumed as int])
        } else {
            None
        }
    }

    /// The run one instruction later. An instruction that fails leaves
    /// everything but the error as it was.
    pub open spec fn next(self, program: Seq<Instruction>, input: Seq<u8>) -> Run
        recommends
            !self.finished(program),
    {
        let instruction = program[self.machine.instruction_pointer as int];
        match self.machine.step(instruction, self.next_input(input)) {
            Ok((machine, emitted)) => Run {
                machine,
                consumed: if instruction == Instruction::Input {
                    self.consumed + 1
                } else {
                    self.consumed
                },
                output: match emitted {
                    Some(byte) => self.output.push(byte),
                    None => self.output,
                },
                error: None,
            },
            Err(error) => Run { error: Some(error), ..self },
        }
    }

    /// The run continued until it is over or `budget` instructions have been
    /// executed, whichever comes first. The budget running out while the
    /// program is not finished is itself an error.
    pub open spec fn run(self, program: Seq<Instruction>, input: Seq<u8>, budget: nat) -> Run
        decreases budget,
    {
        if self.finished(program) {
            self
        } else if budget == 0 {
            Run { error: Some(RuntimeError::StepLimitReached), ..self }
        } else {
            self.next(program, input).run(program, input, (budget - 1) as nat)
        }
    }
}

/// The byte that one line of input stands for: the first byte of the line,
/// or `None` for an empty line, which counts as the end of the input.
pub fn first_byte(line: &str) -> (byte: Option<u8>)
    ensures
        byte == if line.spec_bytes().len() > 0 {
            Some(line.spec_bytes()[0])
        } else {
            None
        },
{
    let bytes: &[u8] = line.as_bytes();
    if bytes.len() > 0 {
        Some(bytes[0])
    } else {
        None
    }
}

/// Runs `bytecode` from the initial state, reading from `input` and
/// appending every emitted byte to `output`, for at most `max_steps`
/// instructions.
///
/// Returns the final state when the instruction pointer has run past the end
/// of the program, and the error otherwise: the first one that an instruction
/// raised, or `StepLimitReached` when `max_steps` instructions did not finish
/// the program. The end of `input` is the end of the input: an input
/// instruction that finds nothing left fails with `InputExhausted`. Whatever
/// was emitted before an error stays in `output`.
pub fn execute(bytecode: &Bytecode, input: &[u8], output: &mut Vec<u8>, max_steps: u64) -> (result:
    Result<State, RuntimeError>)
    ensures
        ({
            let run = Run::start().run(bytecode@, input@, max_steps as nat);
            &&& final(output)@ == old(output)@ + run.output
            &&& match result {
                Ok(state) => run.error is None && state@ == run.machine && state@.fetch(
                    bytecode@,
                ) is None,
                Err(error) => run.error == Some(error),
            }
        }),
{
    let ghost mut current = Run::start();
    let mut state = State::new();
    let mut consumed: usize = 0;
    let mut steps: u64 = 0;
    loop
        invariant
            consumed <= input@.len(),
            steps <= max_steps,
            current.machine == state@,
            current.consumed == consumed,
            current.error is None,
            output@ == old(output)@ + current.output,
            Run::start().run(bytecode@, input@, max_steps as nat) == current.run(
                bytecode@,
                input@,
                (max_steps - steps) as nat,
            ),
        decreases max_steps - steps,
    {
        let instruction = match state.fetch(bytecode) {
            Some(instruction) => instruction,
            None => {
                return Ok(state);
            },
        };
        if steps == max_steps {
            return Err(RuntimeError::StepLimitReached);
        }
        let byte: Option<u8> = if consumed < input.len() {
            Some(input[consumed])
        } else {
            None
        };
        let ghost following = current.next(bytecode@, input@);
        assert(current.run(bytecode@, input@, (max_steps - steps) as nat) == following.run(
            bytecode@,
            input@,
            (max_steps - steps - 1) as nat,
        ));
        match state.step(instruction, byte) {
            Err(error) => {
                return Err(error);
            },
            Ok((next, emitted)) => {
                if instruction == Instruction::Input {
                    consumed += 1;
                }
                match emitted {
                    Some(byte) => {
                        output.push(byte);
                    },
                    None => {},
                }
                state = next;
                steps += 1;
                proof {
                    current = following;
                }
            },
        }
    }
}

/// A program without instructions runs as a no-op: nothing is read, nothing
/// is emitted, and the machine stays in its initial state, whatever the
/// input and the budget.
pub proof fn empty_program_is_noop(input: Seq<u8>, budget: nat)
    ensures
        Run::start().run(Seq::empty(), input, budget) == Run::start(),
{
}

/// Every bounded run ends in a state in which the run is over.
pub proof fn run_ends_finished(run: Run, program: Seq<Instruction>, input: Seq<u8>, budget: nat)
    ensures
        run.run(program, input, budget).finished(program),
    decreases budget,
{
    if !run.finished(program) && budget > 0 {
        run_ends_finished(run.next(program, input), program, input, (budget - 1) as nat);
    }
}

/// A run that ends within its budget does not depend on the budget: every
/// larger budget gives the same run.
pub proof fn larger_budget_changes_nothing(
    run: Run,
    program: Seq<Instruction>,
    input: Seq<u8>,
    budget: nat,
    larger: nat,
)
    requires
        budget <= larger,
        run.run(program, input, budget).error != Some(RuntimeError::StepLimitReached),
    ensures
        run.run(program, input, larger) == run.run(program, input, budget),
    decreases budget,
{
    if !run.finished(program) && budget > 0 {
        larger_budget_changes_nothing(
            run.next(program, input),
            program,
            input,
            (budget - 1) as nat,
            (larger - 1) as nat,
        );
    }
}

/// A run only ever adds to what has been emitted and read: the output at any
/// earlier point is a prefix of the output at the end, and no more bytes are
/// read than the input holds.
pub proof fn run_only_extends(run: Run, program: Seq<Instruction>, input: Seq<u8>, budget: nat)
    requires
        run.consumed <= input.len(),
    ensures
        run.output.is_prefix_of(run.run(program, input, budget).output),
        run.consumed <= run.run(program, input, budget).consumed <= input.len(),
    decreases budget,
{
    if !run.finished(program) && budget > 0 {
        run_only_extends(run.next(program, input), program, input, (budget - 1) as nat);
    }
}

/// On a resolved program the engine stays on the rails: the instruction
/// pointer never leaves the range up to the end of the program, the machine
/// stays well formed, and the only errors that can stop the run are a full
/// tape, the end of the input and the end of the budget.
pub proof fn program_runs_within_bounds(
    run: Run,
    program: Seq<Instruction>,
    input: Seq<u8>,
    budget: nat,
)
    requires
        is_program(program),
        program.len() <= usize::MAX,
        run.machine.wf(),
        run.machine.instruction_pointer <= program.len(),
        run.error is None,
    ensures
        ({
            let end = run.run(program, input, budget);
            &&& end.machine.wf()
            &&& end.machine.instruction_pointer <= program.len()
            &&& end.error != Some(RuntimeError::UnresolvedBracket)
            &&& end.error != Some(RuntimeError::InstructionPointerOverflow)
        }),
    decreases budget,
{
    if !run.finished(program) && budget > 0 {
        let following = run.next(program, input);
        if following.error is None {
            program_runs_within_bounds(following, program, input, (budget - 1) as nat);
        }
    }
}

} // verus!

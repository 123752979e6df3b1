//! Running a program on a tape of byte cells.
//!
//! The meaning of a program is given by [`step_spec`], which executes one
//! command, and [`run_spec`], which repeats it. [`Interpreter::step`] and
//! [`Interpreter::run`] compute exactly these.

use vstd::prelude::*;
use crate::command::Command;
use crate::program::{jump_table, Program};

verus! {

/// The classic number of memory cells.
pub const MEMORY_SIZE: usize = 30_000;

/// Why a run stopped before the program came to its end.
#[derive(Debug, Clone, Copy, PartialEq, Eq, Structural)]
pub enum ExecError {
    /// The command at `command_pointer` would have moved the memory pointer,
    /// which stood at `memory_pointer`, off the tape.
    OutOfBounds { command_pointer: usize, memory_pointer: usize },
    /// The allowance of steps was used up with the command at
    /// `command_pointer` still to be executed.
    StepLimit { command_pointer: usize },
}

/// What one step did.
#[derive(Debug, Clone, Copy, PartialEq, Eq)]
pub enum Step {
    /// The command pointer stood behind the last command: nothing was done.
    Halted,
    /// One command was executed. `command_pointer` is where the next one
    /// stands, and `output` the byte that the command printed, if it was a
    /// `PrintOutput`.
    Next { command_pointer: usize, output: Option<u8> },
}

/// The memory of an interpreter: the cells and the pointer to the current one.
pub struct Tape {
    pub memory: Seq<u8>,
    pub memory_pointer: int,
}

impl Tape {
    /// A tape of `MEMORY_SIZE` zeroed cells with the pointer on the first.
    pub open spec fn fresh() -> Tape {
        Tape { memory: Seq::new(MEMORY_SIZE as nat, |i: int| 0u8), memory_pointer: 0 }
    }

    /// The value of the current cell.
    pub open spec fn cell(self) -> u8 {
        self.memory[self.memory_pointer]
    }

    /// The tape with `value` in the current cell.
    pub open spec fn store(self, value: u8) -> Tape {
        Tape { memory: self.memory.update(self.memory_pointer, value), ..self }
    }

    /// The tape with the pointer moved to `memory_pointer`.
    pub open spec fn seek(self, memory_pointer: int) -> Tape {
        Tape { memory_pointer, ..self }
    }
}

/// `value + 1` modulo 256.
pub open spec fn increment(value: u8) -> u8 {
    ((value + 1) % 256) as u8
}

/// `value - 1` modulo 256.
pub open spec fn decrement(value: u8) -> u8 {
    ((value - 1) % 256) as u8
}

/// One step of execution: what the command at `command_pointer` makes of the
/// tape, and where execution goes on.
///
/// - `StepForward` and `StepBackward` move the memory pointer by one cell;
///   where that would leave the tape, the step fails and the tape stays as
///   it is.
/// - `Increment` and `Decrement` change the current cell by one, modulo 256.
/// - `PrintOutput` hands out the current cell.
/// - `ReadInput` stores `input` in the current cell, and 0 where the input
///   has come to its end.
/// - `BeginLoop` on a zero cell and `EndLoop` on a non-zero cell go to the
///   partner bracket.
///
/// After each of them execution goes on with the command behind the one
/// that it stands at.
pub open spec fn step_spec(
    commands: Seq<Command>,
    tape: Tape,
    command_pointer: usize,
    input: Option<u8>,
) -> (Tape, Result<Step, ExecError>) {
    let silent = Ok(Step::Next { command_pointer: (command_pointer + 1) as usize, output: None });
    let jump = Ok(
        Step::Next {
            command_pointer: (jump_table(commands)[command_pointer] + 1) as usize,
            output: None,
        },
    );
    let out_of_bounds = Err(
        ExecError::OutOfBounds { command_pointer, memory_pointer: tape.memory_pointer as usize },
    );
    if command_pointer >= commands.len() {
        (tape, Ok(Step::Halted))
    } else {
        match commands[command_pointer as int] {
            Command::StepForward => if tape.memory_pointer + 1 < tape.memory.len() {
                (tape.seek(tape.memory_pointer + 1), silent)
            } else {
                (tape, out_of_bounds)
            },
            Command::StepBackward => if tape.memory_pointer > 0 {
                (tape.seek(tape.memory_pointer - 1), silent)
            } else {
                (tape, out_of_bounds)
            },
            Command::Increment => (tape.store(increment(tape.cell())), silent),
            Command::Decrement => (tape.store(decrement(tape.cell())), silent),
            Command::PrintOutput => (
                tape,
                Ok(
                    Step::Next {
                        command_pointer: (command_pointer + 1) as usize,
                        output: Some(tape.cell()),
                    },
                ),
            ),
            Command::ReadInput => (
                tape.store(
                    match input {
                        Some(byte) => byte,
                        None => 0,
                    },
                ),
                silent,
            ),
            Command::BeginLoop => (
                tape,
                if tape.cell() == 0 {
                    jump
                } else {
                    silent
                },
            ),
            Command::EndLoop => (
                tape,
                if tape.cell() != 0 {
                    jump
                } else {
                    silent
                },
            ),
        }
    }
}

/// How far a run has come: the tape, the command to execute next, the number
/// of input bytes read and the bytes printed.
pub struct Run {
    pub tape: Tape,
    pub command_pointer: usize,
    pub consumed: int,
    pub output: Seq<u8>,
}

impl Run {
    /// The run that is about to execute the first command on `tape`, with
    /// nothing read yet and `output` printed before.
    pub open spec fn start(tape: Tape, output: Seq<u8>) -> Run {
        Run { tape, command_pointer: 0, consumed: 0, output }
    }

    /// The byte that the next `ReadInput` gets from `input`.
    pub open spec fn next_input(self, input: Seq<u8>) -> Option<u8> {
        if 0 <= self.consumed < input.len() {
            Some(input[self.consumed])
        } else {
            None
        }
    }

    /// The run after a step on `commands` that led to `tape`, goes on at
    /// `command_pointer` and printed `output`.
    pub open spec fn advance(
        self,
        commands: Seq<Command>,
        input: Seq<u8>,
        tape: Tape,
        command_pointer: usize,
        output: Option<u8>,
    ) -> Run {
        Run {
            tape,
            command_pointer,
            consumed: if commands[self.command_pointer as int] == Command::ReadInput
                && self.next_input(input) is Some {
                self.consumed + 1
            } else {
                self.consumed
            },
            output: match output {
                Some(byte) => self.output.push(byte),
                None => self.output,
            },
        }
    }
}

/// A run of at most `max_steps` steps: where it ends and how.
///
/// The run ends well when the command pointer has left the commands. It ends
/// with the error of the first step that fails, and with
/// `ExecError::StepLimit` where `max_steps` steps were not enough. In both
/// cases the run is given as it stood before the step that was not made.
pub open spec fn run_spec(commands: Seq<Command>, run: Run, input: Seq<u8>, max_steps: nat) -> (
    Run,
    Result<(), ExecError>,
)
    decreases max_steps,
{
    if run.command_pointer >= commands.len() {
        (run, Ok(()))
    } else if max_steps == 0 {
        (run, Err(ExecError::StepLimit { command_pointer: run.command_pointer }))
    } else {
        match step_spec(commands, run.tape, run.command_pointer, run.next_input(input)) {
            (tape, Ok(Step::Next { command_pointer, output })) => run_spec(
                commands,
                run.advance(commands, input, tape, command_pointer, output),
                input,
                (max_steps - 1) as nat,
            ),
            (_, Ok(Step::Halted)) => (run, Ok(())),
            (_, Err(error)) => (run, Err(error)),
        }
    }
}

/// Cell arithmetic wraps: `Increment` makes 0 of 255, and `Decrement` makes
/// 255 of 0.
pub proof fn lemma_cell_arithmetic_wraps(
    commands: Seq<Command>,
    tape: Tape,
    command_pointer: usize,
    input: Option<u8>,
)
    requires
        command_pointer < commands.len(),
        0 <= tape.memory_pointer < tape.memory.len(),
    ensures
        increment(255) == 0,
        decrement(0) == 255,
        commands[command_pointer as int] == Command::Increment && tape.cell() == 255 ==> step_spec(
            commands,
            tape,
            command_pointer,
            input,
        ).0.cell() == 0,
        commands[command_pointer as int] == Command::Decrement && tape.cell() == 0 ==> step_spec(
            commands,
            tape,
            command_pointer,
            input,
        ).0.cell() == 255,
{
}

/// A `StepBackward` with the memory pointer on the first cell fails and
/// leaves the tape as it is; so does a `StepForward` on the last cell.
pub proof fn lemma_step_off_tape_fails(
    commands: Seq<Command>,
    tape: Tape,
    command_pointer: usize,
    input: Option<u8>,
)
    requires
        command_pointer < commands.len(),
        0 <= tape.memory_pointer < tape.memory.len() <= usize::MAX,
    ensures
        commands[command_pointer as int] == Command::StepBackward && tape.memory_pointer == 0
            ==> step_spec(commands, tape, command_pointer, input) == (
            tape,
            Err::<Step, ExecError>(ExecError::OutOfBounds { command_pointer, memory_pointer: 0 }),
        ),
        commands[command_pointer as int] == Command::StepForward && tape.memory_pointer
            == tape.memory.len() - 1 ==> step_spec(commands, tape, command_pointer, input) == (
            tape,
            Err::<Step, ExecError>(
                ExecError::OutOfBounds {
                    command_pointer,
                    memory_pointer: (tape.memory.len() - 1) as usize,
                },
            ),
        ),
{
}

/// Running the program without commands ends well at once: the tape stays
/// as it is, nothing is read and nothing is printed.
pub proof fn lemma_empty_program_does_nothing(run: Run, input: Seq<u8>, max_steps: nat)
    ensures
        run_spec(Seq::empty(), run, input, max_steps) == (run, Ok::<(), ExecError>(())),
{
}

/// A Brainfuck program interpreter with its own mutable memory
pub struct Interpreter {
    memory: [u8; MEMORY_SIZE],
    memory_pointer: usize,
}

impl View for Interpreter {
    type V = Tape;

    closed spec fn view(&self) -> Tape {
        Tape { memory: self.memory@, memory_pointer: self.memory_pointer as int }
    }
}

impl Interpreter {
    /// The memory pointer always stands on a cell.
    #[verifier::type_invariant]
    spec fn valid(&self) -> bool {
        self.memory_pointer < MEMORY_SIZE
    }

    /// Initialises the interpreter with the classic 30 000 cells of memory
    pub fn new() -> (interpreter: Self)
        ensures
            interpreter@ == Tape::fresh(),
    {
        let interpreter = Self { memory: [0; MEMORY_SIZE], memory_pointer: 0 };
        assert(interpreter.memory@ =~= Tape::fresh().memory);
        interpreter
    }

    /// The position of the current cell.
    pub fn memory_pointer(&self) -> (memory_pointer: usize)
        ensures
            memory_pointer == self@.memory_pointer,
            memory_pointer < MEMORY_SIZE,
    {
        proof {
            use_type_invariant(self);
        }
        self.memory_pointer
    }

    /// The cells.
    pub fn memory(&self) -> (memory: &[u8; MEMORY_SIZE])
        ensures
            memory@ == self@.memory,
    {
        &self.memory
    }

    /// Executes the command at `command_pointer`, if there is one.
    ///
    /// `input` is the next byte of the input, or `None` at its end; it is only
    /// looked at by a `ReadInput`.
    pub fn step(&mut self, program: &Program, command_pointer: usize, input: Option<u8>) -> (result:
        Result<Step, ExecError>)
        ensures
            (final(self)@, result) == step_spec(
                program@.commands,
                old(self)@,
                command_pointer,
                input,
            ),
    {
        proof {
            use_type_invariant(&*self);
        }
        let commands = program.commands();
        if command_pointer >= commands.len() {
            return Ok(Step::Halted);
        }
        let mut next = command_pointer;
        let mut output: Option<u8> = None;
        match commands[command_pointer] {
            Command::StepForward => {
                if self.memory_pointer + 1 >= MEMORY_SIZE {
                    return Err(
                        ExecError::OutOfBounds {
                            command_pointer,
                            memory_pointer: self.memory_pointer,
                        },
                    );
                }
                self.memory_pointer += 1;
            },
            Command::StepBackward => {
                if self.memory_pointer == 0 {
                    return Err(
                        ExecError::OutOfBounds {
                            command_pointer,
                            memory_pointer: self.memory_pointer,
                        },
                    );
                }
                self.memory_pointer -= 1;
            },
            Command::Increment => {
                self.memory[self.memory_pointer] = self.memory[self.memory_pointer].wrapping_add(1);
            },
            Command::Decrement => {
                self.memory[self.memory_pointer] = self.memory[self.memory_pointer].wrapping_sub(1);
            },
            Command::PrintOutput => {
                output = Some(self.memory[self.memory_pointer]);
            },
            Command::ReadInput => {
                self.memory[self.memory_pointer] = match input {
                    Some(byte) => byte,
                    None => 0,
                };
            },
            Command::BeginLoop => {
                if self.memory[self.memory_pointer] == 0 {
                    next = Self::jump(program, command_pointer);
                }
            },
            Command::EndLoop => {
                if self.memory[self.memory_pointer] != 0 {
                    next = Self::jump(program, command_pointer);
                }
            },
        }
        Ok(Step::Next { command_pointer: next + 1, output })
    }

    /// Runs the given program from its first command, for at most `max_steps`
    /// steps.
    ///
    /// A `ReadInput` takes the next byte of `input`, and 0 once `input` is used
    /// up. What `PrintOutput` prints is appended to `output`.
    pub fn run(
        &mut self,
        program: &Program,
        input: &[u8],
        output: &mut Vec<u8>,
        max_steps: u64,
    ) -> (result: Result<(), ExecError>)
        ensures
            ({
                let start = Run::start(old(self)@, old(output)@);
                let (end, outcome) = run_spec(program@.commands, start, input@, max_steps as nat);
                &&& final(self)@ == end.tape
                &&& final(output)@ == end.output
                &&& result == outcome
            }),
    {
        let commands = program.commands();
        let ghost start = Run::start(self@, output@);
        let mut command_pointer: usize = 0;
        let mut consumed: usize = 0;
        let mut steps: u64 = 0;
        while command_pointer < commands.len() && steps < max_steps
            invariant
                commands@ == program@.commands,
                start == Run::start(old(self)@, old(output)@),
                consumed <= input.len(),
                steps <= max_steps,
                run_spec(commands@, start, input@, max_steps as nat) == run_spec(
                    commands@,
                    (Run {
                        tape: self@,
                        command_pointer,
                        consumed: consumed as int,
                        output: output@,
                    }),
                    input@,
                    (max_steps - steps) as nat,
                ),
            decreases max_steps - steps,
        {
            let reads = program.reads_input(command_pointer);
            let byte = if consumed < input.len() {
                Some(input[consumed])
            } else {
                None
            };
            match self.step(program, command_pointer, byte) {
                Ok(Step::Next { command_pointer: next, output: printed }) => {
                    if let Some(byte) = printed {
                        output.push(byte);
                    }
                    if reads && consumed < input.len() {
                        consumed += 1;
                    }
                    command_pointer = next;
                },
                Ok(Step::Halted) => {
                    return Ok(());
                },
                Err(error) => {
                    return Err(error);
                },
            }
            steps += 1;
        }
        if command_pointer < commands.len() {
            Err(ExecError::StepLimit { command_pointer })
        } else {
            Ok(())
        }
    }

    /// Looks up the partner of the bracket at `command_pointer`.
    fn jump(program: &Program, command_pointer: usize) -> (target: usize)
        requires
            command_pointer < program@.commands.len(),
            program@.commands[command_pointer as int].is_bracket(),
        ensures
            target == jump_table(program@.commands)[command_pointer],
            target < program@.commands.len(),
    {
        let commands = program.commands();
        let loop_map = program.loop_map();
        proof {
            crate::nesting::lemma_bracket_has_partner(commands@, command_pointer as int);
        }
        *loop_map.get(&command_pointer).unwrap()
    }
}

impl Default for Interpreter {
    fn default() -> (interpreter: Self)
        ensures
            interpreter@ == Tape::fresh(),
    {
        Interpreter::new()
    }
}

} // verus!

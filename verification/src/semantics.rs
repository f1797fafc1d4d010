//! The mathematical model of the language: the instruction set, the parsing
//! and rendering specifications, bracket balance, and a deterministic
//! small-step transition function over an abstract machine state.

use vstd::prelude::*;

verus! {

/// Number of cells on the data tape.
pub const TAPE_SIZE: usize = 32768;

/// The eight instructions of the language.  Immutable, payload-free.
#[derive(Clone, Copy, Debug, PartialEq, Eq, Structural)]
pub enum Instruction {
    IncrementCell,
    DecrementCell,
    MovePointerRight,
    MovePointerLeft,
    OutputByte,
    InputByte,
    LoopStart,
    LoopEnd,
}

/// The three ways an execution can fail.  All are terminal to the current
/// execution; none is retried internally.
#[derive(Clone, Copy, Debug, PartialEq, Eq, Structural)]
pub enum ExecutionError {
    /// The program's brackets do not nest properly; execution is refused
    /// before any instruction runs.
    UnbalancedProgram,
    /// A `LoopEnd` was executed with an empty loop-return stack.
    UnmatchedLoopEnd,
    /// An `InputByte` was executed with no input bytes left.
    InputExhausted,
}

/// The instruction, if any, that a source character denotes.  Characters
/// outside the eight-entry table denote nothing and are dropped by parsing.
pub open spec fn spec_to_instruction(c: char) -> Option<Instruction> {
    match c {
        '+' => Some(Instruction::IncrementCell),
        '-' => Some(Instruction::DecrementCell),
        '>' => Some(Instruction::MovePointerRight),
        '<' => Some(Instruction::MovePointerLeft),
        '.' => Some(Instruction::OutputByte),
        ',' => Some(Instruction::InputByte),
        '[' => Some(Instruction::LoopStart),
        ']' => Some(Instruction::LoopEnd),
        _ => None,
    }
}

/// The source character that renders an instruction.
pub open spec fn spec_render_char(i: Instruction) -> char {
    match i {
        Instruction::IncrementCell => '+',
        Instruction::DecrementCell => '-',
        Instruction::MovePointerRight => '>',
        Instruction::MovePointerLeft => '<',
        Instruction::OutputByte => '.',
        Instruction::InputByte => ',',
        Instruction::LoopStart => '[',
        Instruction::LoopEnd => ']',
    }
}

/// Parsing: scan the characters left to right, keep the instructions the
/// table gives, silently drop every other character.
pub open spec fn spec_parse(s: Seq<char>) -> Seq<Instruction>
    decreases s.len(),
{
    if s.len() == 0 {
        Seq::empty()
    } else {
        let rest = spec_parse(s.drop_last());
        match spec_to_instruction(s.last()) {
            Some(i) => rest.push(i),
            None => rest,
        }
    }
}

/// Rendering: the textual image of an instruction sequence, using only
/// token characters.
pub open spec fn spec_render(q: Seq<Instruction>) -> Seq<char> {
    q.map_values(|i: Instruction| spec_render_char(i))
}

/// +1 for `LoopStart`, -1 for `LoopEnd`, 0 for every other instruction.
pub open spec fn bracket_delta(i: Instruction) -> int {
    match i {
        Instruction::LoopStart => 1,
        Instruction::LoopEnd => -1,
        _ => 0,
    }
}

/// Net bracket nesting of the prefix `p[0..i]`.
pub open spec fn nesting(p: Seq<Instruction>, i: int) -> int
    decreases i,
{
    if i <= 0 {
        0
    } else {
        nesting(p, i - 1) + bracket_delta(p[i - 1])
    }
}

/// Bracket balance under the usual nesting rule: the running balance never
/// goes negative and ends at exactly zero.
pub open spec fn spec_balanced(p: Seq<Instruction>) -> bool {
    &&& nesting(p, p.len() as int) == 0
    &&& forall|i: int| 0 <= i <= p.len() ==> nesting(p, i) >= 0
}

/// Forward-skip matching: scanning from position `j` with the nesting
/// counter at `depth`, the position one past the bracket that brings the
/// counter to zero, or `None` if the scan runs off the end of the program.
pub open spec fn find_close(p: Seq<Instruction>, j: int, depth: int) -> Option<int>
    decreases p.len() - j,
{
    if j < 0 || j >= p.len() {
        None
    } else {
        let d = depth + bracket_delta(p[j]);
        if d == 0 {
            Some(j + 1)
        } else {
            find_close(p, j + 1, d)
        }
    }
}

/// The abstract machine state: the whole of what one execution owns,
/// together with the input bytes still unread and the output bytes emitted
/// so far.
#[verifier::ext_equal]
pub struct AbstractState {
    /// The data tape, `TAPE_SIZE` cells.
    pub tape: Seq<u8>,
    /// Index of the currently addressed cell.
    pub cell: int,
    /// Index of the next instruction to execute.
    pub ip: int,
    /// Stack of `LoopStart` positions to return to when a loop body closes.
    pub stack: Seq<int>,
    /// Input bytes not yet consumed.
    pub input: Seq<u8>,
    /// Output bytes emitted so far.
    pub output: Seq<u8>,
}

/// What one transition yields: either the machine keeps running in a new
/// state, or the execution stops, normally or with an error.  The stopped
/// state keeps the output already written.
#[verifier::ext_equal]
pub enum StepResult {
    Next(AbstractState),
    Stop(AbstractState, Result<(), ExecutionError>),
}

/// An 8-bit cell incremented with wraparound (255 becomes 0).
pub open spec fn wrap_inc(b: u8) -> u8 {
    if b == 255 {
        0
    } else {
        (b + 1) as u8
    }
}

/// An 8-bit cell decremented with wraparound (0 becomes 255).
pub open spec fn wrap_dec(b: u8) -> u8 {
    if b == 0 {
        255
    } else {
        (b - 1) as u8
    }
}

/// One transition of the machine.  Execution halts normally as soon as the
/// instruction pointer leaves the instruction sequence; otherwise the
/// instruction under the pointer fires.
pub open spec fn step(p: Seq<Instruction>, s: AbstractState) -> StepResult {
    if !(0 <= s.ip < p.len()) {
        StepResult::Stop(s, Ok(()))
    } else {
        match p[s.ip] {
            Instruction::IncrementCell => StepResult::Next(
                AbstractState {
                    tape: s.tape.update(s.cell, wrap_inc(s.tape[s.cell])),
                    ip: s.ip + 1,
                    ..s
                },
            ),
            Instruction::DecrementCell => StepResult::Next(
                AbstractState {
                    tape: s.tape.update(s.cell, wrap_dec(s.tape[s.cell])),
                    ip: s.ip + 1,
                    ..s
                },
            ),
            Instruction::MovePointerRight => StepResult::Next(
                AbstractState {
                    cell: if s.cell == TAPE_SIZE - 1 {
                        0
                    } else {
                        s.cell + 1
                    },
                    ip: s.ip + 1,
                    ..s
                },
            ),
            Instruction::MovePointerLeft => StepResult::Next(
                AbstractState {
                    cell: if s.cell == 0 {
                        TAPE_SIZE - 1
                    } else {
                        s.cell - 1
                    },
                    ip: s.ip + 1,
                    ..s
                },
            ),
            Instruction::OutputByte => StepResult::Next(
                AbstractState { output: s.output.push(s.tape[s.cell]), ip: s.ip + 1, ..s },
            ),
            Instruction::InputByte => if s.input.len() == 0 {
                StepResult::Stop(s, Err(ExecutionError::InputExhausted))
            } else {
                StepResult::Next(
                    AbstractState {
                        tape: s.tape.update(s.cell, s.input[0]),
                        input: s.input.skip(1),
                        ip: s.ip + 1,
                        ..s
                    },
                )
            },
            Instruction::LoopStart => if s.tape[s.cell] == 0 {
                match find_close(p, s.ip + 1, 1) {
                    Some(j) => StepResult::Next(AbstractState { ip: j, ..s }),
                    None => StepResult::Stop(s, Err(ExecutionError::UnbalancedProgram)),
                }
            } else {
                StepResult::Next(AbstractState { stack: s.stack.push(s.ip), ip: s.ip + 1, ..s })
            },
            Instruction::LoopEnd => if s.stack.len() == 0 {
                StepResult::Stop(s, Err(ExecutionError::UnmatchedLoopEnd))
            } else {
                StepResult::Next(
                    AbstractState { ip: s.stack.last(), stack: s.stack.drop_last(), ..s },
                )
            },
        }
    }
}

/// The machine after at most `fuel` transitions from `s`: `Stop` if it
/// stops within the budget, else `Next` with the state exactly `fuel`
/// transitions along.
pub open spec fn run(p: Seq<Instruction>, s: AbstractState, fuel: nat) -> StepResult
    decreases fuel,
{
    if fuel == 0 {
        StepResult::Next(s)
    } else {
        match step(p, s) {
            StepResult::Stop(f, res) => StepResult::Stop(f, res),
            StepResult::Next(s2) => run(p, s2, (fuel - 1) as nat),
        }
    }
}

/// Running one transition longer either takes one more step from where the
/// shorter run left off, or keeps the stop it already reached.
pub proof fn lemma_run_succ(p: Seq<Instruction>, s: AbstractState, fuel: nat)
    ensures
        run(p, s, fuel + 1) == (match run(p, s, fuel) {
            StepResult::Next(m) => step(p, m),
            StepResult::Stop(f, res) => StepResult::Stop(f, res),
        }),
    decreases fuel,
{
    if fuel == 0 {
        match step(p, s) {
            StepResult::Stop(f, res) => {},
            StepResult::Next(s2) => {
                assert(run(p, s2, 0) == StepResult::Next(s2));
            },
        }
    } else {
        match step(p, s) {
            StepResult::Stop(f, res) => {},
            StepResult::Next(s2) => {
                lemma_run_succ(p, s2, (fuel - 1) as nat);
            },
        }
    }
}

/// The freshly created machine: zeroed tape, both pointers at zero, empty
/// loop-return stack, nothing yet read or written.
pub open spec fn spec_init_state(input: Seq<u8>) -> AbstractState {
    AbstractState {
        tape: Seq::new(TAPE_SIZE as nat, |i: int| 0u8),
        cell: 0,
        ip: 0,
        stack: Seq::empty(),
        input: input,
        output: Seq::empty(),
    }
}

/// A short description of an execution error, for presentation by callers.
pub open spec fn spec_message(e: ExecutionError) -> Seq<char> {
    match e {
        ExecutionError::UnbalancedProgram => "imbalanced brackets"@,
        ExecutionError::UnmatchedLoopEnd => "unmatched loop end"@,
        ExecutionError::InputExhausted => "no more bytes in input"@,
    }
}

impl ExecutionError {
    /// The description `spec_message` gives, as a borrowed string.
    pub fn message(&self) -> (r: &'static str)
        ensures
            r@ == spec_message(*self),
    {
        match self {
            ExecutionError::UnbalancedProgram => "imbalanced brackets",
            ExecutionError::UnmatchedLoopEnd => "unmatched loop end",
            ExecutionError::InputExhausted => "no more bytes in input",
        }
    }
}

} // verus!

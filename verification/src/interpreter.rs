//! The executable engine: instruction decoding, the parser, the bracket
//! balance validator, forward-skip matching and the run loop, each proved
//! against the model in `crate::semantics`.

use vstd::pervasive::VecAdditionalExecFns;
use vstd::prelude::*;
use vstd::string::StrSliceExecFns;

use crate::semantics::find_close;
use crate::semantics::nesting;
use crate::semantics::run;
use crate::semantics::spec_balanced;
use crate::semantics::spec_init_state;
use crate::semantics::spec_parse;
use crate::semantics::spec_render;
use crate::semantics::spec_render_char;
use crate::semantics::spec_to_instruction;
use crate::semantics::step;
use crate::semantics::AbstractState;
use crate::semantics::ExecutionError;
use crate::semantics::Instruction;
use crate::semantics::StepResult;
use crate::semantics::TAPE_SIZE;

verus! {

/// The instruction a source character maps to, or `None` for any character
/// outside the eight-entry table.
pub fn to_instruction(ch: char) -> (r: Option<Instruction>)
    ensures
        r == spec_to_instruction(ch),
{
    match ch {
        '+' => Some(Instruction::IncrementCell),
        '-' => Some(Instruction::DecrementCell),
        '>' => Some(Instruction::MovePointerRight),
        '<' => Some(Instruction::MovePointerLeft),
        '.' => Some(Instruction::OutputByte),
        ',' => Some(Instruction::InputByte),
        '[' => Some(Instruction::LoopStart),
        ']' => Some(Instruction::LoopEnd),
        _ => None,
    }
}

/// The source character that renders an instruction.
pub fn render_char(i: Instruction) -> (r: char)
    ensures
        r == spec_render_char(i),
{
    match i {
        Instruction::IncrementCell => '+',
        Instruction::DecrementCell => '-',
        Instruction::MovePointerRight => '>',
        Instruction::MovePointerLeft => '<',
        Instruction::OutputByte => '.',
        Instruction::InputByte => ',',
        Instruction::LoopStart => '[',
        Instruction::LoopEnd => ']',
    }
}

/// An ordered, immutable sequence of instructions, produced once from
/// source text.  Its view is that sequence.
#[derive(Debug)]
pub struct Program {
    instructions: Vec<Instruction>,
}

impl View for Program {
    type V = Seq<Instruction>;

    closed spec fn view(&self) -> Seq<Instruction> {
        self.instructions@
    }
}

/// The machine state one execution owns: the data tape, the cell pointer,
/// the instruction pointer and the loop-return stack.  Created fresh per
/// execution; never shared.
pub struct ProgramState {
    /// The data tape, `TAPE_SIZE` unsigned 8-bit cells.
    pub tape: Vec<u8>,
    /// Index into `tape` of the currently addressed cell.
    pub cell_pointer: usize,
    /// Index into the program of the next instruction to execute.
    pub instruction_pointer: usize,
    /// Stack of `LoopStart` positions, pushed on loop entry, popped on close.
    pub loop_return_stack: Vec<usize>,
}

impl ProgramState {
    /// Well-formedness: the tape has its fixed size and the cell pointer
    /// addresses a cell.
    pub open spec fn wf(&self) -> bool {
        &&& self.tape@.len() == TAPE_SIZE
        &&& self.cell_pointer < TAPE_SIZE
    }

    /// A fresh machine state: zeroed tape, both pointers at zero, empty
    /// loop-return stack.
    pub fn new() -> (r: ProgramState)
        ensures
            r.wf(),
            r.tape@ == Seq::new(TAPE_SIZE as nat, |i: int| 0u8),
            r.cell_pointer == 0,
            r.instruction_pointer == 0,
            r.loop_return_stack@ == Seq::<usize>::empty(),
    {
        let mut tape: Vec<u8> = Vec::new();
        let mut i: usize = 0;
        while i < TAPE_SIZE
            invariant
                i <= TAPE_SIZE,
                tape@.len() == i,
                forall|j: int| 0 <= j < i ==> tape@[j] == 0u8,
            decreases TAPE_SIZE - i,
        {
            tape.push(0);
            i += 1;
        }
        proof {
            assert(tape@ =~= Seq::new(TAPE_SIZE as nat, |i: int| 0u8));
        }
        ProgramState { tape, cell_pointer: 0, instruction_pointer: 0, loop_return_stack: Vec::new() }
    }
}

/// The abstract state that a concrete machine state denotes, given the
/// whole input, how much of it is already consumed, and the output written
/// so far.
pub open spec fn abs_of(st: ProgramState, input: Seq<u8>, pos: int, out: Seq<u8>) -> AbstractState {
    AbstractState {
        tape: st.tape@,
        cell: st.cell_pointer as int,
        ip: st.instruction_pointer as int,
        stack: st.loop_return_stack@.map_values(|x: usize| x as int),
        input: input.skip(pos),
        output: out,
    }
}

/// Scan forward from the `LoopStart` at `start`, keeping a nesting counter
/// that starts at 1, until the counter reaches zero.  Returns how far the
/// instruction pointer must advance to land one past the matching
/// `LoopEnd`.  Balance guarantees the scan stays inside the program.
pub fn skip_from(instructions: &Vec<Instruction>, start: usize) -> (advance: usize)
    requires
        spec_balanced(instructions@),
        start < instructions@.len(),
        instructions@[start as int] == Instruction::LoopStart,
    ensures
        1 <= advance,
        start + advance <= instructions@.len(),
        find_close(instructions@, start + 1, 1) == Some((start + advance) as int),
{
    let ghost p = instructions@;
    let n: usize = instructions.len();
    let mut nest_level: usize = 1;
    let mut advance: usize = 1;
    proof {
        assert(nesting(p, start as int) >= 0);
        assert(nesting(p, start + 1) == nesting(p, start as int) + 1);
    }
    while nest_level > 0
        invariant
            p == instructions@,
            spec_balanced(p),
            n == p.len(),
            1 <= advance,
            start + advance <= n,
            nest_level <= advance,
            nest_level >= 1 ==> nest_level as int <= nesting(p, start + advance),
            nest_level >= 1 ==> find_close(p, start + advance, nest_level as int) == find_close(
                p,
                start + 1,
                1,
            ),
            nest_level == 0 ==> Some((start + advance) as int) == find_close(p, start + 1, 1),
        decreases p.len() - (start + advance),
    {
        proof {
            assert(nesting(p, p.len() as int) == 0);
            if start + advance == p.len() {
                assert(nesting(p, start + advance) == 0);
                assert(false);
            }
        }
        let j = start + advance;
        let instr = instructions[j];
        proof {
            assert(nesting(p, j + 1) == nesting(p, j as int) + crate::semantics::bracket_delta(
                p[j as int],
            ));
        }
        match instr {
            Instruction::LoopStart => {
                nest_level += 1;
            },
            Instruction::LoopEnd => {
                nest_level -= 1;
            },
            _ => {},
        }
        advance += 1;
    }
    advance
}

impl Program {
    /// Parse raw source text: map each character through the instruction
    /// table, dropping every character the table does not know.
    pub fn from_str(s: &str) -> (r: Program)
        ensures
            r@ == spec_parse(s@),
    {
        let mut instructions: Vec<Instruction> = Vec::new();
        let n: usize = s.unicode_len();
        let mut i: usize = 0;
        while i < n
            invariant
                i <= n,
                n as nat == s@.len(),
                instructions@ == spec_parse(s@.subrange(0, i as int)),
            decreases n - i,
        {
            let c = s.get_char(i);
            match to_instruction(c) {
                Some(instr) => instructions.push(instr),
                None => {},
            }
            proof {
                assert(s@.subrange(0, i + 1).drop_last() =~= s@.subrange(0, i as int));
                assert(s@.subrange(0, i + 1).last() == s@[i as int]);
            }
            i += 1;
        }
        proof {
            assert(s@.subrange(0, n as int) =~= s@);
        }
        Program { instructions }
    }

    /// The parsed instruction sequence.
    pub fn instructions(&self) -> (r: &Vec<Instruction>)
        ensures
            r@ == self@,
    {
        &self.instructions
    }

    /// The textual re-rendering of the instruction sequence, using only
    /// token characters.
    pub fn to_source(&self) -> (r: Vec<char>)
        ensures
            r@ == spec_render(self@),
    {
        let mut out: Vec<char> = Vec::new();
        let mut i: usize = 0;
        let n: usize = self.instructions.len();
        while i < n
            invariant
                i <= n,
                n == self@.len(),
                out@.len() == i,
                forall|j: int| 0 <= j < i ==> out@[j] == spec_render_char(self@[j]),
            decreases n - i,
        {
            out.push(render_char(self.instructions[i]));
            i += 1;
        }
        proof {
            assert(out@ =~= spec_render(self@));
        }
        out
    }

    /// Walk the instruction sequence with a nesting counter: `LoopStart`
    /// raises it, `LoopEnd` lowers it.  Balanced means the counter never
    /// goes negative and ends at exactly zero.
    pub fn is_balanced(&self) -> (r: bool)
        ensures
            r == spec_balanced(self@),
    {
        let mut nest_level: usize = 0;
        let mut i: usize = 0;
        let n: usize = self.instructions.len();
        while i < n
            invariant
                i <= n,
                n == self@.len(),
                nest_level <= i,
                nest_level as int == nesting(self@, i as int),
                forall|j: int| 0 <= j <= i ==> nesting(self@, j) >= 0,
            decreases n - i,
        {
            let instr = self.instructions[i];
            proof {
                assert(nesting(self@, i + 1) == nesting(self@, i as int)
                    + crate::semantics::bracket_delta(self@[i as int]));
            }
            match instr {
                Instruction::LoopStart => {
                    nest_level += 1;
                },
                Instruction::LoopEnd => {
                    if nest_level == 0 {
                        proof {
                            assert(nesting(self@, i + 1) < 0);
                        }
                        return false;
                    }
                    nest_level -= 1;
                },
                _ => {},
            }
            i += 1;
        }
        nest_level == 0
    }

    /// Run the program against `state`, reading input from `input[input_pos..]`
    /// and appending emitted bytes to `output`, for at most `max_steps`
    /// transitions of the model.
    ///
    /// An unbalanced program is refused outright: nothing is read, written
    /// or mutated, and `UnbalancedProgram` is reported.  Otherwise the
    /// return value `(r.0, r.1)` gives the new input position and either
    /// `Some(res)` — the machine stopped within the budget, exactly as some
    /// run of the model stops — or `None` — the machine state is exactly
    /// the model's state `max_steps` transitions along, and a further call
    /// resumes it.
    #[verifier::loop_isolation(false)]
    pub fn execute_from(
        &self,
        state: &mut ProgramState,
        input: &Vec<u8>,
        input_pos: usize,
        output: &mut Vec<u8>,
        max_steps: u64,
    ) -> (r: (usize, Option<Result<(), ExecutionError>>))
        requires
            old(state).wf(),
            input_pos <= input@.len(),
        ensures
            final(state).wf(),
            input_pos <= r.0 <= input@.len(),
            !spec_balanced(self@) ==> r.0 == input_pos && r.1 == Some(
                Err::<(), ExecutionError>(ExecutionError::UnbalancedProgram),
            ) && *final(state) == *old(state) && final(output)@ == old(output)@,
            spec_balanced(self@) ==> r.1 != Some(
                Err::<(), ExecutionError>(ExecutionError::UnbalancedProgram),
            ),
            spec_balanced(self@) ==> (match r.1 {
                Some(res) => exists|steps: nat|
                    steps <= max_steps && #[trigger] run(
                        self@,
                        abs_of(*old(state), input@, input_pos as int, old(output)@),
                        steps,
                    ) == StepResult::Stop(
                        abs_of(*final(state), input@, r.0 as int, final(output)@),
                        res,
                    ),
                None => run(
                    self@,
                    abs_of(*old(state), input@, input_pos as int, old(output)@),
                    max_steps as nat,
                ) == StepResult::Next(abs_of(*final(state), input@, r.0 as int, final(output)@)),
            }),
    {
        if !self.is_balanced() {
            return (input_pos, Some(Err(ExecutionError::UnbalancedProgram)));
        }
        let ghost p = self@;
        let ghost s0 = abs_of(*state, input@, input_pos as int, output@);
        let n: usize = self.instructions.len();
        let mut pos: usize = input_pos;
        let mut steps: u64 = 0;
        while steps < max_steps && state.instruction_pointer < n
            invariant
                p == self@,
                spec_balanced(p),
                n == p.len(),
                state.wf(),
                input_pos <= pos <= input@.len(),
                steps <= max_steps,
                run(p, s0, steps as nat) == StepResult::Next(
                    abs_of(*state, input@, pos as int, output@),
                ),
            decreases max_steps - steps,
        {
            let ghost cur = abs_of(*state, input@, pos as int, output@);
            proof {
                crate::semantics::lemma_run_succ(p, s0, steps as nat);
            }
            let ip = state.instruction_pointer;
            let instr = self.instructions[ip];
            match instr {
                Instruction::IncrementCell => {
                    let cp = state.cell_pointer;
                    let v = state.tape[cp];
                    let nv: u8 = if v == 255 {
                        0
                    } else {
                        v + 1
                    };
                    state.tape.set(cp, nv);
                    state.instruction_pointer = ip + 1;
                },
                Instruction::DecrementCell => {
                    let cp = state.cell_pointer;
                    let v = state.tape[cp];
                    let nv: u8 = if v == 0 {
                        255
                    } else {
                        v - 1
                    };
                    state.tape.set(cp, nv);
                    state.instruction_pointer = ip + 1;
                },
                Instruction::MovePointerRight => {
                    state.cell_pointer = if state.cell_pointer == TAPE_SIZE - 1 {
                        0
                    } else {
                        state.cell_pointer + 1
                    };
                    state.instruction_pointer = ip + 1;
                },
                Instruction::MovePointerLeft => {
                    state.cell_pointer = if state.cell_pointer == 0 {
                        TAPE_SIZE - 1
                    } else {
                        state.cell_pointer - 1
                    };
                    state.instruction_pointer = ip + 1;
                },
                Instruction::OutputByte => {
                    let cp = state.cell_pointer;
                    let b = state.tape[cp];
                    output.push(b);
                    state.instruction_pointer = ip + 1;
                },
                Instruction::InputByte => {
                    if pos >= input.len() {
                        proof {
                            assert(cur.input.len() == 0);
                            assert(run(p, s0, (steps + 1) as nat) == StepResult::Stop(
                                cur,
                                Err::<(), ExecutionError>(ExecutionError::InputExhausted),
                            ));
                        }
                        return (pos, Some(Err(ExecutionError::InputExhausted)));
                    }
                    let b = input[pos];
                    let cp = state.cell_pointer;
                    state.tape.set(cp, b);
                    pos = pos + 1;
                    state.instruction_pointer = ip + 1;
                    proof {
                        assert(input@.skip(pos - 1).skip(1) =~= input@.skip(pos as int));
                        assert(cur.input[0] == input@[pos - 1]);
                    }
                },
                Instruction::LoopStart => {
                    let cp = state.cell_pointer;
                    if state.tape[cp] == 0 {
                        let advance = skip_from(&self.instructions, ip);
                        state.instruction_pointer = ip + advance;
                    } else {
                        state.loop_return_stack.push(ip);
                        state.instruction_pointer = ip + 1;
                        proof {
                            assert(state.loop_return_stack@.map_values(|x: usize| x as int)
                                =~= cur.stack.push(ip as int));
                        }
                    }
                },
                Instruction::LoopEnd => {
                    let popped = state.loop_return_stack.pop();
                    match popped {
                        Some(loop_entry) => {
                            state.instruction_pointer = loop_entry;
                            proof {
                                assert(state.loop_return_stack@.map_values(|x: usize| x as int)
                                    =~= cur.stack.drop_last());
                                assert(loop_entry as int == cur.stack.last());
                            }
                        },
                        None => {
                            proof {
                                assert(cur.stack.len() == 0);
                                assert(run(p, s0, (steps + 1) as nat) == StepResult::Stop(
                                    cur,
                                    Err::<(), ExecutionError>(ExecutionError::UnmatchedLoopEnd),
                                ));
                            }
                            return (pos, Some(Err(ExecutionError::UnmatchedLoopEnd)));
                        },
                    }
                },
            }
            steps = steps + 1;
            proof {
                assert(step(p, cur) =~= StepResult::Next(
                    abs_of(*state, input@, pos as int, output@),
                ));
            }
        }
        if steps < max_steps {
            proof {
                let cur = abs_of(*state, input@, pos as int, output@);
                crate::semantics::lemma_run_succ(p, s0, steps as nat);
                assert(step(p, cur) == StepResult::Stop(cur, Ok::<(), ExecutionError>(())));
                assert(run(p, s0, (steps + 1) as nat) == StepResult::Stop(
                    cur,
                    Ok::<(), ExecutionError>(()),
                ));
            }
            (pos, Some(Ok(())))
        } else {
            (pos, None)
        }
    }

    /// Run the program to completion on a fresh, zeroed machine state,
    /// within a budget of `max_steps` transitions, consuming bytes from
    /// `input` and collecting emitted bytes.
    ///
    /// `r.0` is the output; `r.1` is `Some(Ok(()))` on normal completion,
    /// `Some(Err(..))` when the execution is refused or fails, and `None`
    /// when the program is still running after `max_steps` transitions.
    pub fn execute(&self, input: &Vec<u8>, max_steps: u64) -> (r: (
        Vec<u8>,
        Option<Result<(), ExecutionError>>,
    ))
        ensures
            !spec_balanced(self@) ==> r.0@ == Seq::<u8>::empty() && r.1 == Some(
                Err::<(), ExecutionError>(ExecutionError::UnbalancedProgram),
            ),
            spec_balanced(self@) ==> r.1 != Some(
                Err::<(), ExecutionError>(ExecutionError::UnbalancedProgram),
            ),
            spec_balanced(self@) ==> (match r.1 {
                Some(res) => exists|steps: nat|
                    steps <= max_steps && ((#[trigger] run(self@, spec_init_state(input@), steps))
                        matches StepResult::Stop(fin, fres) && fres == res && fin.output == r.0@),
                None => (run(self@, spec_init_state(input@), max_steps as nat)
                    matches StepResult::Next(fin) && fin.output == r.0@),
            }),
    {
        let mut state = ProgramState::new();
        let mut out: Vec<u8> = Vec::new();
        proof {
            assert(abs_of(state, input@, 0, out@) =~= spec_init_state(input@));
        }
        let (_, status) = self.execute_from(&mut state, input, 0, &mut out, max_steps);
        (out, status)
    }
}

} // verus!

//! General properties of the library, stated over the model in
//! `crate::semantics` and proved once, for every input.

use vstd::prelude::*;

use crate::semantics::bracket_delta;
use crate::semantics::find_close;
use crate::semantics::nesting;
use crate::semantics::run;
use crate::semantics::spec_balanced;
use crate::semantics::spec_init_state;
use crate::semantics::spec_parse;
use crate::semantics::spec_render;
use crate::semantics::spec_render_char;
use crate::semantics::spec_to_instruction;
use crate::semantics::step;
use crate::semantics::AbstractState;
use crate::semantics::ExecutionError;
use crate::semantics::Instruction;
use crate::semantics::StepResult;

verus! {

/// A source text made only of non-token characters parses to the empty
/// instruction sequence, and executing that sequence stops at once,
/// normally, with no output emitted and no state touched.
pub proof fn lemma_non_token_source_runs_empty(s: Seq<char>, input: Seq<u8>)
    requires
        forall|i: int| 0 <= i < s.len() ==> spec_to_instruction(#[trigger] s[i]) is None,
    ensures
        spec_parse(s) == Seq::<Instruction>::empty(),
        run(spec_parse(s), spec_init_state(input), 1) == StepResult::Stop(
            spec_init_state(input),
            Ok::<(), ExecutionError>(()),
        ),
        spec_init_state(input).output == Seq::<u8>::empty(),
    decreases s.len(),
{
    if s.len() > 0 {
        assert(spec_to_instruction(s.last()) is None);
        lemma_non_token_source_runs_empty(s.drop_last(), input);
    }
}

/// Rendering an instruction sequence and parsing it back yields the same
/// sequence: every rendered character is a token character that maps back
/// to the instruction it came from.
pub proof fn lemma_parse_of_render(q: Seq<Instruction>)
    ensures
        spec_parse(spec_render(q)) == q,
    decreases q.len(),
{
    if q.len() == 0 {
        assert(spec_render(q) =~= Seq::<char>::empty());
        assert(spec_parse(spec_render(q)) =~= q);
    } else {
        lemma_parse_of_render(q.drop_last());
        assert(spec_render(q).drop_last() =~= spec_render(q.drop_last()));
        assert(spec_render(q).last() == spec_render_char(q.last()));
        assert(spec_to_instruction(spec_render_char(q.last())) == Some(q.last()));
        assert(spec_parse(spec_render(q)) =~= q);
    }
}

/// The forward scan from position `j` at nesting depth `depth` finds a
/// close inside the program whenever enough closing brackets follow, that
/// is, whenever the net bracket count of `p[j..]` is `-depth` or lower.
pub proof fn lemma_find_close_in_bounds(p: Seq<Instruction>, j: int, depth: int)
    requires
        0 <= j <= p.len(),
        1 <= depth,
        depth + nesting(p, p.len() as int) - nesting(p, j) <= 0,
    ensures
        (find_close(p, j, depth) matches Some(r) && j < r <= p.len()),
    decreases p.len() - j,
{
    assert(j < p.len());
    assert(nesting(p, j + 1) == nesting(p, j) + bracket_delta(p[j]));
    let d = depth + bracket_delta(p[j]);
    if d != 0 {
        lemma_find_close_in_bounds(p, j + 1, d);
    }
}

/// In a balanced program, the forward skip out of any `LoopStart` is
/// guaranteed to find its matching `LoopEnd` inside the instruction
/// sequence: the model's skip never fails once balance has been checked.
pub proof fn lemma_balanced_loop_start_skips(p: Seq<Instruction>, ip: int)
    requires
        spec_balanced(p),
        0 <= ip < p.len(),
        p[ip] == Instruction::LoopStart,
    ensures
        (find_close(p, ip + 1, 1) matches Some(r) && ip + 1 < r <= p.len()),
{
    assert(nesting(p, ip) >= 0);
    assert(nesting(p, ip + 1) == nesting(p, ip) + 1);
    lemma_find_close_in_bounds(p, ip + 1, 1);
}

/// Parsing is idempotent under re-rendering: parsing the textual
/// re-rendering of what a source text parses to yields what the source
/// text parses to.
pub proof fn lemma_parse_render_roundtrip(s: Seq<char>)
    ensures
        spec_parse(spec_render(spec_parse(s))) == spec_parse(s),
{
    lemma_parse_of_render(spec_parse(s));
}

/// A successful forward scan lands where the nesting it set out with has
/// been consumed: the prefix nesting at the landing position is the one at
/// the start of the scan, less the starting depth.
pub proof fn lemma_find_close_nesting(p: Seq<Instruction>, a: int, depth: int)
    requires
        find_close(p, a, depth) is Some,
    ensures
        nesting(p, find_close(p, a, depth)->Some_0) == nesting(p, a) - depth,
    decreases p.len() - a,
{
    assert(0 <= a < p.len());
    assert(nesting(p, a + 1) == nesting(p, a) + bracket_delta(p[a]));
    let d = depth + bracket_delta(p[a]);
    if d != 0 {
        lemma_find_close_nesting(p, a + 1, d);
    }
}

/// The invariant that execution maintains over the loop-return stack of a
/// balanced program: every entry is a `LoopStart` inside the program, entry
/// `k` stands at prefix nesting `k`, and the instruction pointer stands at
/// prefix nesting equal to the stack's height.
pub open spec fn stack_consistent(p: Seq<Instruction>, s: AbstractState) -> bool {
    &&& 0 <= s.ip <= p.len()
    &&& nesting(p, s.ip) == s.stack.len()
    &&& forall|k: int|
        0 <= k < s.stack.len() ==> 0 <= #[trigger] s.stack[k] < p.len() && p[s.stack[k]]
            == Instruction::LoopStart && nesting(p, s.stack[k]) == k
}

/// One transition of a balanced program preserves the stack invariant, and
/// can stop only normally or for want of input: neither a loop-stack
/// underflow nor a failed forward skip can arise.
pub proof fn lemma_step_preserves_consistency(p: Seq<Instruction>, s: AbstractState)
    requires
        spec_balanced(p),
        stack_consistent(p, s),
    ensures
        (match step(p, s) {
            StepResult::Next(s2) => stack_consistent(p, s2),
            StepResult::Stop(_, res) => res == Ok::<(), ExecutionError>(()) || res == Err::<(), ExecutionError>(
                ExecutionError::InputExhausted,
            ),
        }),
{
    if 0 <= s.ip < p.len() {
        assert(nesting(p, s.ip + 1) == nesting(p, s.ip) + bracket_delta(p[s.ip]));
        match p[s.ip] {
            Instruction::LoopStart => {
                if s.tape[s.cell] == 0 {
                    lemma_balanced_loop_start_skips(p, s.ip);
                    let j = find_close(p, s.ip + 1, 1)->Some_0;
                    lemma_find_close_nesting(p, s.ip + 1, 1);
                    assert(nesting(p, j) == s.stack.len());
                }
            },
            Instruction::LoopEnd => {
                if s.stack.len() == 0 {
                    assert(nesting(p, s.ip + 1) == -1);
                    assert(false);
                } else {
                    assert(nesting(p, s.stack.last()) == s.stack.len() - 1);
                }
            },
            _ => {},
        }
    }
}

/// Over any number of transitions of a balanced program, the stack
/// invariant is kept, and the only stops are normal completion and
/// exhausted input.
pub proof fn lemma_run_keeps_consistency(p: Seq<Instruction>, s: AbstractState, fuel: nat)
    requires
        spec_balanced(p),
        stack_consistent(p, s),
    ensures
        (match run(p, s, fuel) {
            StepResult::Next(m) => stack_consistent(p, m),
            StepResult::Stop(_, res) => res == Ok::<(), ExecutionError>(()) || res == Err::<(), ExecutionError>(
                ExecutionError::InputExhausted,
            ),
        }),
    decreases fuel,
{
    lemma_step_preserves_consistency(p, s);
    if fuel > 0 {
        match step(p, s) {
            StepResult::Stop(f, res) => {},
            StepResult::Next(s2) => {
                lemma_run_keeps_consistency(p, s2, (fuel - 1) as nat);
            },
        }
    }
}

/// Once balance has gated execution, a loop-stack underflow is unreachable:
/// from a fresh machine state, a balanced program either completes
/// normally, or runs out of input — `UnmatchedLoopEnd` and
/// `UnbalancedProgram` are never reported.
pub proof fn lemma_balanced_fresh_run_cannot_underflow(
    p: Seq<Instruction>,
    input: Seq<u8>,
    fuel: nat,
)
    requires
        spec_balanced(p),
    ensures
        (match run(p, spec_init_state(input), fuel) {
            StepResult::Next(_) => true,
            StepResult::Stop(_, res) => res == Ok::<(), ExecutionError>(()) || res == Err::<(), ExecutionError>(
                ExecutionError::InputExhausted,
            ),
        }),
{
    assert(stack_consistent(p, spec_init_state(input)));
    lemma_run_keeps_consistency(p, spec_init_state(input), fuel);
}

/// Once the machine has stopped within some fuel budget, any larger budget
/// yields the very same stop.
pub proof fn lemma_stop_is_stable(p: Seq<Instruction>, s: AbstractState, n: nat, m: nat)
    requires
        n <= m,
        run(p, s, n) matches StepResult::Stop(_, _),
    ensures
        run(p, s, m) == run(p, s, n),
    decreases n,
{
    if n == 0 {
        assert(run(p, s, 0) == StepResult::Next(s));
    } else {
        match step(p, s) {
            StepResult::Stop(f, res) => {
                assert(run(p, s, m) == StepResult::Stop(f, res));
            },
            StepResult::Next(s2) => {
                lemma_stop_is_stable(p, s2, (n - 1) as nat, (m - 1) as nat);
            },
        }
    }
}

/// The machine is deterministic: whatever two fuel budgets both suffice to
/// see it stop, they see the same final state and the same result.
pub proof fn lemma_run_outcome_unique(p: Seq<Instruction>, s: AbstractState, n1: nat, n2: nat)
    requires
        run(p, s, n1) matches StepResult::Stop(_, _),
        run(p, s, n2) matches StepResult::Stop(_, _),
    ensures
        run(p, s, n1) == run(p, s, n2),
{
    if n1 <= n2 {
        lemma_stop_is_stable(p, s, n1, n2);
    } else {
        lemma_stop_is_stable(p, s, n2, n1);
    }
}

} // verus!

use brainfuck::interpreter::Program;
use brainfuck::interpreter::ProgramState;
use brainfuck::interpreter::{render_char, to_instruction};
use brainfuck::semantics::{ExecutionError, Instruction, TAPE_SIZE};

const PLENTY: u64 = 1_000_000;

#[test]
fn parse_drops_non_token_characters() {
    let program = Program::from_str("hello world!\n\t 12345 \u{e9}\u{4e16}");
    assert_eq!(program.instructions().len(), 0);
    let (output, status) = program.execute(&Vec::new(), PLENTY);
    assert_eq!(output, Vec::<u8>::new());
    assert_eq!(status, Some(Ok(())));
}

#[test]
fn parse_maps_each_token_character() {
    let program = Program::from_str("+-><.,[]");
    assert_eq!(
        program.instructions(),
        &vec![
            Instruction::IncrementCell,
            Instruction::DecrementCell,
            Instruction::MovePointerRight,
            Instruction::MovePointerLeft,
            Instruction::OutputByte,
            Instruction::InputByte,
            Instruction::LoopStart,
            Instruction::LoopEnd,
        ]
    );
}

#[test]
fn to_instruction_table() {
    assert_eq!(to_instruction('+'), Some(Instruction::IncrementCell));
    assert_eq!(to_instruction('-'), Some(Instruction::DecrementCell));
    assert_eq!(to_instruction('>'), Some(Instruction::MovePointerRight));
    assert_eq!(to_instruction('<'), Some(Instruction::MovePointerLeft));
    assert_eq!(to_instruction('.'), Some(Instruction::OutputByte));
    assert_eq!(to_instruction(','), Some(Instruction::InputByte));
    assert_eq!(to_instruction('['), Some(Instruction::LoopStart));
    assert_eq!(to_instruction(']'), Some(Instruction::LoopEnd));
    assert_eq!(to_instruction('x'), None);
    assert_eq!(to_instruction(' '), None);
    assert_eq!(to_instruction('0'), None);
}

#[test]
fn render_maps_back_to_the_same_instruction() {
    let all = [
        Instruction::IncrementCell,
        Instruction::DecrementCell,
        Instruction::MovePointerRight,
        Instruction::MovePointerLeft,
        Instruction::OutputByte,
        Instruction::InputByte,
        Instruction::LoopStart,
        Instruction::LoopEnd,
    ];
    for i in all {
        assert_eq!(to_instruction(render_char(i)), Some(i));
    }
}

#[test]
fn parse_render_reparse_identity() {
    let program = Program::from_str("a+b-c[d>e<f]g.h,i 123 \n[]");
    let rendering: String = program.to_source().into_iter().collect();
    assert_eq!(rendering, "+-[><].,[]");
    let reparsed = Program::from_str(&rendering);
    assert_eq!(program.instructions(), reparsed.instructions());
}

#[test]
fn balance_nested() {
    assert!(Program::from_str("[[]]").is_balanced());
}

#[test]
fn balance_unclosed_ends_nonzero() {
    assert!(!Program::from_str("[[]").is_balanced());
}

#[test]
fn balance_lone_close_goes_negative() {
    assert!(!Program::from_str("]").is_balanced());
}

#[test]
fn balance_extra_close_goes_negative() {
    assert!(!Program::from_str("[]]").is_balanced());
}

#[test]
fn balance_ignores_other_characters() {
    assert!(Program::from_str("+.,-><").is_balanced());
    assert!(Program::from_str("").is_balanced());
}

#[test]
fn cell_wraparound_after_256_increments() {
    let source = format!("{}.", "+".repeat(256));
    let program = Program::from_str(&source);
    let (output, status) = program.execute(&Vec::new(), PLENTY);
    assert_eq!(status, Some(Ok(())));
    assert_eq!(output, vec![0u8]);
}

#[test]
fn cell_wraparound_decrement_from_zero() {
    let program = Program::from_str("-.");
    let (output, status) = program.execute(&Vec::new(), PLENTY);
    assert_eq!(status, Some(Ok(())));
    assert_eq!(output, vec![255u8]);
}

#[test]
fn pointer_wraparound_after_full_sweep_right() {
    let source = ">".repeat(TAPE_SIZE);
    let program = Program::from_str(&source);
    let mut state = ProgramState::new();
    let mut output: Vec<u8> = Vec::new();
    let (consumed, status) = program.execute_from(&mut state, &Vec::new(), 0, &mut output, PLENTY);
    assert_eq!(status, Some(Ok(())));
    assert_eq!(consumed, 0);
    assert_eq!(state.cell_pointer, 0);
    assert_eq!(output, Vec::<u8>::new());
}

#[test]
fn pointer_wraparound_moving_left_from_zero() {
    let program = Program::from_str("<");
    let mut state = ProgramState::new();
    let mut output: Vec<u8> = Vec::new();
    let (_, status) = program.execute_from(&mut state, &Vec::new(), 0, &mut output, PLENTY);
    assert_eq!(status, Some(Ok(())));
    assert_eq!(state.cell_pointer, TAPE_SIZE - 1);
}

#[test]
fn emits_letter_a() {
    let source = format!("{}.", "+".repeat(65));
    let program = Program::from_str(&source);
    let (output, status) = program.execute(&Vec::new(), PLENTY);
    assert_eq!(status, Some(Ok(())));
    assert_eq!(output, b"A".to_vec());
}

#[test]
fn loop_moves_value_to_next_cell() {
    let program = Program::from_str("[->+<]");
    let mut state = ProgramState::new();
    state.tape[0] = 3;
    let mut output: Vec<u8> = Vec::new();
    let (_, status) = program.execute_from(&mut state, &Vec::new(), 0, &mut output, PLENTY);
    assert_eq!(status, Some(Ok(())));
    assert_eq!(state.tape[0], 0);
    assert_eq!(state.tape[1], 3);
    assert_eq!(state.cell_pointer, 0);
    assert_eq!(output, Vec::<u8>::new());
}

#[test]
fn loop_reentry_accumulates() {
    // Two passes through the loop body add two to the next cell each time.
    let program = Program::from_str("++[>++<-]>.");
    let (output, status) = program.execute(&Vec::new(), PLENTY);
    assert_eq!(status, Some(Ok(())));
    assert_eq!(output, vec![4u8]);
}

#[test]
fn forward_skip_on_zero_cell() {
    // The cell under the pointer is zero, so the whole loop body is skipped.
    let program = Program::from_str("[-].");
    let (output, status) = program.execute(&Vec::new(), PLENTY);
    assert_eq!(status, Some(Ok(())));
    assert_eq!(output, vec![0u8]);
}

#[test]
fn forward_skip_handles_nesting() {
    let program = Program::from_str("[[++].].");
    let (output, status) = program.execute(&Vec::new(), PLENTY);
    assert_eq!(status, Some(Ok(())));
    assert_eq!(output, vec![0u8]);
}

#[test]
fn input_exhausted_reported() {
    let program = Program::from_str(",");
    let (output, status) = program.execute(&Vec::new(), PLENTY);
    assert_eq!(status, Some(Err(ExecutionError::InputExhausted)));
    assert_eq!(output, Vec::<u8>::new());
}

#[test]
fn input_exhausted_halts_before_further_instructions() {
    // The output instruction after the failing read must never run.
    let program = Program::from_str(".,.");
    let (output, status) = program.execute(&Vec::new(), PLENTY);
    assert_eq!(status, Some(Err(ExecutionError::InputExhausted)));
    assert_eq!(output, vec![0u8]);
}

#[test]
fn input_bytes_consumed_in_order() {
    let program = Program::from_str(",.,.");
    let input: Vec<u8> = vec![7, 9];
    let mut state = ProgramState::new();
    let mut output: Vec<u8> = Vec::new();
    let (consumed, status) = program.execute_from(&mut state, &input, 0, &mut output, PLENTY);
    assert_eq!(status, Some(Ok(())));
    assert_eq!(consumed, 2);
    assert_eq!(output, vec![7, 9]);
}

#[test]
fn unbalanced_program_is_refused() {
    let program = Program::from_str("+.[");
    let (output, status) = program.execute(&Vec::new(), PLENTY);
    assert_eq!(status, Some(Err(ExecutionError::UnbalancedProgram)));
    assert_eq!(output, Vec::<u8>::new());
}

#[test]
fn unbalanced_program_touches_nothing() {
    let program = Program::from_str("+.[");
    let input: Vec<u8> = vec![42];
    let mut state = ProgramState::new();
    let mut output: Vec<u8> = Vec::new();
    let (consumed, status) = program.execute_from(&mut state, &input, 0, &mut output, PLENTY);
    assert_eq!(status, Some(Err(ExecutionError::UnbalancedProgram)));
    assert_eq!(consumed, 0);
    assert_eq!(output, Vec::<u8>::new());
    assert_eq!(state.tape[0], 0);
    assert_eq!(state.cell_pointer, 0);
    assert_eq!(state.instruction_pointer, 0);
    assert!(state.loop_return_stack.is_empty());
}

#[test]
fn unmatched_loop_end_reported_when_resumed_mid_loop() {
    // A balanced program, but the machine is started at the closing bracket
    // with an empty loop-return stack.
    let program = Program::from_str("[]");
    let mut state = ProgramState::new();
    state.instruction_pointer = 1;
    let mut output: Vec<u8> = Vec::new();
    let (_, status) = program.execute_from(&mut state, &Vec::new(), 0, &mut output, PLENTY);
    assert_eq!(status, Some(Err(ExecutionError::UnmatchedLoopEnd)));
}

#[test]
fn step_budget_pauses_and_resumes() {
    let program = Program::from_str("++.");
    let mut state = ProgramState::new();
    let mut output: Vec<u8> = Vec::new();
    let (_, status) = program.execute_from(&mut state, &Vec::new(), 0, &mut output, 1);
    assert_eq!(status, None);
    assert_eq!(state.tape[0], 1);
    let (_, status) = program.execute_from(&mut state, &Vec::new(), 0, &mut output, PLENTY);
    assert_eq!(status, Some(Ok(())));
    assert_eq!(output, vec![2u8]);
}

#[test]
fn zero_budget_runs_nothing() {
    let program = Program::from_str("+.");
    let (output, status) = program.execute(&Vec::new(), 0);
    assert_eq!(status, None);
    assert_eq!(output, Vec::<u8>::new());
}

#[test]
fn error_messages_name_each_failure() {
    assert_eq!(ExecutionError::UnbalancedProgram.message(), "imbalanced brackets");
    assert_eq!(ExecutionError::UnmatchedLoopEnd.message(), "unmatched loop end");
    assert_eq!(ExecutionError::InputExhausted.message(), "no more bytes in input");
}

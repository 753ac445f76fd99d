use brainfuck::lang::{Instruction, InterpError, Op};
use brainfuck::new;
use brainfuck::render::render_instructions;

const BUDGET: u64 = 1_000_000;

#[test]
fn prints_three() {
    let mut it = new("+++.".to_string());
    let out = it.run(Vec::new(), BUDGET).unwrap();
    assert_eq!(out, vec![3u8]);
}

#[test]
fn transfer_idiom_moves_cell() {
    let mut it = new("+[>+<-]".to_string());
    assert!(it.validate().is_ok());
    it.lex_code();
    it.build_instruction();
    let m = it.eval_instruction(Vec::new(), BUDGET).unwrap();
    assert_eq!(m.tape, vec![0u8, 1u8]);
    assert_eq!(m.cursor, 0);
    assert!(m.output.is_empty());
}

#[test]
fn unmatched_close_is_rejected() {
    let mut it = new("+]".to_string());
    assert_eq!(it.run(Vec::new(), BUDGET), Err(InterpError::UnbalancedLoop));
}

#[test]
fn unmatched_open_is_rejected() {
    let mut it = new("[+".to_string());
    assert_eq!(it.run(Vec::new(), BUDGET), Err(InterpError::UnbalancedLoop));
}

#[test]
fn early_close_rejected_even_if_rebalanced() {
    let it = new("][".to_string());
    assert_eq!(it.validate(), Err(InterpError::UnbalancedLoop));
    let ok = new("[]".to_string());
    assert!(ok.validate().is_ok());
}

#[test]
fn comments_only_runs_with_no_effects() {
    let mut it = new("hello world".to_string());
    let out = it.run(Vec::new(), BUDGET).unwrap();
    assert!(out.is_empty());
    assert!(it.ops.is_empty());
    assert!(it.inst.is_empty());
}

#[test]
fn getchar_on_empty_input_is_fatal() {
    let mut it = new(",.".to_string());
    assert_eq!(it.run(Vec::new(), BUDGET), Err(InterpError::InputExhausted));
}

#[test]
fn getchar_stores_next_input_byte() {
    let mut it = new(",.".to_string());
    let out = it.run(vec![65u8], BUDGET).unwrap();
    assert_eq!(out, vec![65u8]);
}

#[test]
fn increment_wraps_past_255() {
    let source = format!("{}.", "+".repeat(256));
    let mut it = new(source);
    let out = it.run(Vec::new(), BUDGET).unwrap();
    assert_eq!(out, vec![0u8]);
}

#[test]
fn decrement_wraps_past_zero() {
    let mut it = new("-.".to_string());
    let out = it.run(Vec::new(), BUDGET).unwrap();
    assert_eq!(out, vec![255u8]);
}

#[test]
fn shift_left_grows_tape_with_cursor_pinned() {
    let mut it = new("<<<".to_string());
    assert!(it.validate().is_ok());
    it.lex_code();
    it.build_instruction();
    let m = it.eval_instruction(Vec::new(), BUDGET).unwrap();
    assert_eq!(m.tape, vec![0u8, 0u8, 0u8, 0u8]);
    assert_eq!(m.cursor, 0);
}

#[test]
fn shift_right_grows_tape_with_cursor_following() {
    let mut it = new(">>>".to_string());
    assert!(it.validate().is_ok());
    it.lex_code();
    it.build_instruction();
    let m = it.eval_instruction(Vec::new(), BUDGET).unwrap();
    assert_eq!(m.tape, vec![0u8, 0u8, 0u8, 0u8]);
    assert_eq!(m.cursor, 3);
}

#[test]
fn endless_loop_hits_step_limit() {
    let mut it = new("+[]".to_string());
    assert_eq!(it.run(Vec::new(), 100), Err(InterpError::StepLimit));
}

#[test]
fn lexer_maps_all_eight_and_skips_comments() {
    let mut it = new("+x- <\n> . , [ ]!".to_string());
    it.lex_code();
    assert_eq!(
        it.ops,
        vec![
            Op::Increment,
            Op::Decrement,
            Op::ShiftLeft,
            Op::ShiftRight,
            Op::PrintChar,
            Op::GetChar,
            Op::LoopStart,
            Op::LoopEnd,
        ]
    );
}

#[test]
fn comment_insertion_leaves_lexer_output_unchanged() {
    let mut with_comment = new("+a[b-c]d".to_string());
    with_comment.lex_code();
    let mut bare = new("+[-]".to_string());
    bare.lex_code();
    assert_eq!(with_comment.ops, bare.ops);
}

#[test]
fn structurer_nests_loops() {
    let mut it = new("+[+[-]]".to_string());
    assert!(it.validate().is_ok());
    it.lex_code();
    it.build_instruction();
    assert_eq!(
        it.inst,
        vec![
            Instruction::Increment,
            Instruction::Loop(vec![
                Instruction::Increment,
                Instruction::Loop(vec![Instruction::Decrement]),
            ]),
        ]
    );
}

#[test]
fn op_names() {
    assert_eq!(Op::Increment.to_string(), "Increment");
    assert_eq!(Op::LoopEnd.to_string(), "LoopEnd");
}

#[test]
fn error_messages() {
    assert_eq!(InterpError::UnbalancedLoop.message(), "Invalid source.");
    assert_eq!(InterpError::InputExhausted.message(), "Input exhausted.");
    assert_eq!(InterpError::StepLimit.message(), "Step limit reached.");
}

#[test]
fn renders_indented_listing() {
    let mut it = new("+[>-]".to_string());
    assert!(it.validate().is_ok());
    it.lex_code();
    it.build_instruction();
    let listing = render_instructions(&it.inst);
    assert_eq!(listing, "Increment\nLoop:\n  ShiftRight\n  Decrement\n");
}

#[test]
fn hello_world_program() {
    let source = "++++++++[>++++[>++>+++>+++>+<<<<-]>+>+>->>+[<]<-]>>.>---.+++++++..+++.>>.<-.<.+++.------.--------.>>+.>++.";
    let mut it = new(source.to_string());
    let out = it.run(Vec::new(), BUDGET).unwrap();
    assert_eq!(out, b"Hello World!\n".to_vec());
}

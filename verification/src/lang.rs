//! The two instruction alphabets of the pipeline, and the errors a run can
//! end with.

use vstd::prelude::*;

verus! {

/// The lexical classification of one recognized source character.
/// Produced one-for-one by the lexer and consumed by the structurer.
#[derive(Clone, Copy, PartialEq, Eq, Structural, Debug)]
pub enum Op {
    Increment,
    Decrement,
    ShiftLeft,
    ShiftRight,
    PrintChar,
    GetChar,
    LoopStart,
    LoopEnd,
}

/// One node of the instruction tree. A `Loop` node owns the ordered
/// sequence of instructions between its brackets and re-runs it while the
/// cell at the cursor is nonzero.
#[derive(PartialEq, Eq, Debug)]
pub enum Instruction {
    Increment,
    Decrement,
    ShiftLeft,
    ShiftRight,
    PrintChar,
    GetChar,
    Loop(Vec<Instruction>),
}

/// Why a run stopped short of completing the instruction tree.
#[derive(Clone, Copy, PartialEq, Eq, Structural, Debug)]
pub enum InterpError {
    /// A loop-end with no matching open, or an unmatched loop-start at the
    /// end of the source. Found by the validator before anything executes.
    UnbalancedLoop,
    /// A read operation ran with no input byte left.
    InputExhausted,
    /// The step budget handed to the evaluator ran out before the program
    /// finished.
    StepLimit,
}

impl Op {
    /// The tag's name, for diagnostics.
    pub fn to_string(&self) -> (r: String)
        ensures
            r@ == match self {
                Op::Increment => "Increment"@,
                Op::Decrement => "Decrement"@,
                Op::ShiftLeft => "ShiftLeft"@,
                Op::ShiftRight => "ShiftRight"@,
                Op::PrintChar => "PrintChar"@,
                Op::GetChar => "GetChar"@,
                Op::LoopStart => "LoopStart"@,
                Op::LoopEnd => "LoopEnd"@,
            },
    {
        match self {
            Op::Increment => "Increment".to_owned(),
            Op::Decrement => "Decrement".to_owned(),
            Op::ShiftLeft => "ShiftLeft".to_owned(),
            Op::ShiftRight => "ShiftRight".to_owned(),
            Op::PrintChar => "PrintChar".to_owned(),
            Op::GetChar => "GetChar".to_owned(),
            Op::LoopStart => "LoopStart".to_owned(),
            Op::LoopEnd => "LoopEnd".to_owned(),
        }
    }
}

impl InterpError {
    /// The user-facing message for this error.
    pub fn message(&self) -> (r: String)
        ensures
            r@ == match self {
                InterpError::UnbalancedLoop => "Invalid source."@,
                InterpError::InputExhausted => "Input exhausted."@,
                InterpError::StepLimit => "Step limit reached."@,
            },
    {
        match self {
            InterpError::UnbalancedLoop => "Invalid source.".to_owned(),
            InterpError::InputExhausted => "Input exhausted.".to_owned(),
            InterpError::StepLimit => "Step limit reached.".to_owned(),
        }
    }
}

} // verus!

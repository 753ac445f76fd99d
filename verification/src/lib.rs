//! A tree-walking interpreter for the classic eight-operation tape language.
//!
//! The pipeline has three stages, run in order by [`Interpreter::run`]:
//! a lexer that maps recognized source characters to flat operation tags
//! (all other characters are comments), a structurer that nests the flat
//! tags into an instruction tree by resolving loop brackets, and an
//! evaluator that walks the tree against a growable tape of wrapping
//! eight-bit cells. A validator gates the pipeline: it rejects sources
//! whose loop brackets are not properly nested before anything else runs.

use vstd::prelude::*;

pub mod balance;
pub mod builder;
pub mod lang;
pub mod laws;
pub mod lexer;
pub mod machine;
pub mod render;

verus! {

use crate::balance::balanced;
use crate::balance::balanced_ops;
use crate::balance::lemma_balanced_ops_concat;
use crate::builder::flatten;
use crate::lang::Instruction;
use crate::lang::InterpError;
use crate::lang::Op;
use crate::lexer::lemma_lex_preserves_balance;
use crate::lexer::lex;
use crate::machine::eval_seq;
use crate::machine::init_state;
use crate::machine::Outcome;

/// The whole pipeline's state: the raw source, the flat operation tags the
/// lexer produced, and the instruction tree the structurer produced.
pub struct Interpreter {
    pub source: String,
    pub ops: Vec<Op>,
    pub inst: Vec<Instruction>,
}

/// Makes an interpreter for the given source, with no tags lexed and no
/// tree built yet.
pub fn new(s: String) -> (r: Interpreter)
    ensures
        r.source == s,
        r.ops@ == Seq::<Op>::empty(),
        r.inst@ == Seq::<Instruction>::empty(),
{
    Interpreter { source: s, ops: Vec::<Op>::new(), inst: Vec::<Instruction>::new() }
}

impl Interpreter {
    /// The whole pipeline: validate the source's bracket balance, lex it
    /// to flat tags, structure the tags into the instruction tree, and
    /// evaluate the tree from a fresh machine holding the given input,
    /// within the given step budget. Returns the output bytes the program
    /// emitted, or the error that ended the run.
    pub fn run(&mut self, input: Vec<u8>, budget: u64) -> (r: Result<Vec<u8>, InterpError>)
        requires
            balanced_ops(old(self).ops@),
        ensures
            !balanced(old(self).source@) ==> r == Err::<Vec<u8>, InterpError>(
                InterpError::UnbalancedLoop,
            ) && *final(self) == *old(self),
            balanced(old(self).source@) ==> {
                &&& final(self).source == old(self).source
                &&& final(self).ops@ == old(self).ops@ + lex(old(self).source@)
                &&& flatten(final(self).inst@) == final(self).ops@
                &&& match eval_seq(final(self).inst@, init_state(input@), budget as nat) {
                    Outcome::Done(st) => r is Ok && r->Ok_0@ == st.output,
                    Outcome::NoInput(_) => r == Err::<Vec<u8>, InterpError>(
                        InterpError::InputExhausted,
                    ),
                    Outcome::OutOfSteps(_) => r == Err::<Vec<u8>, InterpError>(
                        InterpError::StepLimit,
                    ),
                }
            },
    {
        match self.validate() {
            Ok(()) => (),
            Err(e) => {
                return Err(e);
            },
        }
        self.lex_code();
        proof {
            lemma_lex_preserves_balance(old(self).source@);
            lemma_balanced_ops_concat(old(self).ops@, lex(old(self).source@));
        }
        self.build_instruction();
        let m = match self.eval_instruction(input, budget) {
            Ok(m) => m,
            Err(e) => {
                return Err(e);
            },
        };
        Ok(m.output)
    }
}

} // verus!

//! The validator, which gates the pipeline on bracket balance, and the
//! lexer, which maps each recognized source character to an operation tag
//! and skips everything else as comment text.

use vstd::prelude::*;

verus! {

use crate::Interpreter;
use crate::balance::balanced;
use crate::balance::balanced_ops;
use crate::balance::char_delta;
use crate::balance::lemma_op_count_concat;
use crate::balance::nest_count;
use crate::balance::op_count;
use crate::balance::op_delta;
use crate::lang::InterpError;
use crate::lang::Op;
use vstd::string::StrSliceExecFns;

/// The fixed lexing table: which tag, if any, one source character
/// produces.
pub open spec fn char_to_op(c: char) -> Option<Op> {
    if c == '+' {
        Some(Op::Increment)
    } else if c == '-' {
        Some(Op::Decrement)
    } else if c == '<' {
        Some(Op::ShiftLeft)
    } else if c == '>' {
        Some(Op::ShiftRight)
    } else if c == '.' {
        Some(Op::PrintChar)
    } else if c == ',' {
        Some(Op::GetChar)
    } else if c == '[' {
        Some(Op::LoopStart)
    } else if c == ']' {
        Some(Op::LoopEnd)
    } else {
        None
    }
}

/// Whether a character is one of the eight recognized operations; every
/// other character is comment text.
pub open spec fn is_op_char(c: char) -> bool {
    char_to_op(c) is Some
}

/// What the lexer produces for a source: the tags of its recognized
/// characters, in order of appearance.
pub open spec fn lex(s: Seq<char>) -> Seq<Op>
    decreases s.len(),
{
    if s.len() == 0 {
        Seq::empty()
    } else {
        lex(s.drop_last()) + match char_to_op(s.last()) {
            Some(op) => seq![op],
            None => Seq::empty(),
        }
    }
}

/// Lexing distributes over concatenation.
pub proof fn lemma_lex_concat(a: Seq<char>, b: Seq<char>)
    ensures
        lex(a + b) == lex(a) + lex(b),
    decreases b.len(),
{
    if b.len() == 0 {
        assert(a + b =~= a);
        assert(lex(a) + lex(b) =~= lex(a));
    } else {
        lemma_lex_concat(a, b.drop_last());
        assert((a + b).drop_last() =~= a + b.drop_last());
        assert((a + b).last() == b.last());
        assert(lex(a + b) =~= lex(a) + lex(b));
    }
}

/// Comments are inert: inserting a character the lexer does not recognize,
/// anywhere in a source, leaves the lexer's output unchanged.
pub proof fn lemma_comment_insertion(s: Seq<char>, i: int, c: char)
    requires
        0 <= i <= s.len(),
        !is_op_char(c),
    ensures
        lex(s.insert(i, c)) == lex(s),
{
    let a = s.subrange(0, i);
    let b = s.subrange(i, s.len() as int);
    assert(s.insert(i, c) =~= a + seq![c] + b);
    assert(s =~= a + b);
    lemma_lex_concat(a + seq![c], b);
    lemma_lex_concat(a, seq![c]);
    lemma_lex_concat(a, b);
    assert(lex(seq![c]) =~= Seq::<Op>::empty()) by {
        assert(seq![c].len() == 1);
        assert(seq![c].last() == c);
        assert(seq![c].drop_last() =~= Seq::<char>::empty());
        assert(lex(Seq::<char>::empty()) =~= Seq::<Op>::empty());
    }
    assert(lex(a) + lex(seq![c]) =~= lex(a));
}

/// Lexing keeps the loop-balance counter: brackets map to bracket tags
/// one-for-one and comments contribute nothing.
pub proof fn lemma_lex_count(s: Seq<char>)
    ensures
        op_count(lex(s)) == nest_count(s),
    decreases s.len(),
{
    if s.len() != 0 {
        let tail = match char_to_op(s.last()) {
            Some(op) => seq![op],
            None => Seq::<Op>::empty(),
        };
        lemma_lex_count(s.drop_last());
        lemma_op_count_concat(lex(s.drop_last()), tail);
        match char_to_op(s.last()) {
            Some(op) => {
                assert(tail.len() == 1);
                assert(tail.last() == op);
                assert(tail.drop_last() =~= Seq::<Op>::empty());
                assert(op_count(Seq::<Op>::empty()) == 0);
                assert(op_count(tail) == op_delta(op));
                assert(op_delta(op) == char_delta(s.last()));
            },
            None => {
                assert(char_delta(s.last()) == 0);
            },
        }
    }
}

/// Every prefix of the lexer's output is the lexer's output for some
/// prefix of the source.
pub proof fn lemma_lex_prefix(s: Seq<char>, j: int)
    requires
        0 <= j <= lex(s).len(),
    ensures
        exists|i: int|
            0 <= i <= s.len() && lex(s).subrange(0, j) == lex(#[trigger] s.subrange(0, i)),
    decreases s.len(),
{
    if j == lex(s).len() {
        assert(lex(s).subrange(0, j) =~= lex(s));
        assert(s.subrange(0, s.len() as int) =~= s);
    } else {
        let s0 = s.drop_last();
        assert(s.len() > 0 && j < lex(s).len());
        if j <= lex(s0).len() {
            lemma_lex_prefix(s0, j);
            let i = choose|i: int|
                0 <= i <= s0.len() && lex(s0).subrange(0, j) == lex(#[trigger] s0.subrange(0, i));
            assert(s0.subrange(0, i) =~= s.subrange(0, i));
            assert(lex(s).subrange(0, j) =~= lex(s0).subrange(0, j));
        } else {
            assert(j == lex(s0).len() + 1 && lex(s).len() == j);
        }
    }
}

/// A source that passes the validator lexes to a balanced tag sequence,
/// so the structurer's stack discipline is safe.
pub proof fn lemma_lex_preserves_balance(s: Seq<char>)
    requires
        balanced(s),
    ensures
        balanced_ops(lex(s)),
{
    lemma_lex_count(s);
    assert forall|j: int| 0 <= j <= lex(s).len() implies op_count(
        #[trigger] lex(s).subrange(0, j),
    ) >= 0 by {
        lemma_lex_prefix(s, j);
        let i = choose|i: int|
            0 <= i <= s.len() && lex(s).subrange(0, j) == lex(#[trigger] s.subrange(0, i));
        lemma_lex_count(s.subrange(0, i));
    }
}

impl Interpreter {
    /// Scans the raw source once, keeping the loop-balance counter, and
    /// accepts exactly the sources whose brackets are properly nested and
    /// fully closed. Rejection is eager: a counter dip below zero fails
    /// the scan even if later characters would rebalance it.
    pub fn validate(&self) -> (r: Result<(), InterpError>)
        ensures
            r is Ok <==> balanced(self.source@),
            r is Err ==> r == Err::<(), InterpError>(InterpError::UnbalancedLoop),
    {
        let s = self.source.as_str();
        let n = s.unicode_len();
        let mut i: usize = 0;
        let mut count: usize = 0;
        while i < n
            invariant
                i <= n,
                n == s@.len(),
                s@ == self.source@,
                count <= i,
                count == nest_count(s@.subrange(0, i as int)),
                forall|j: int| 0 <= j <= i ==> nest_count(#[trigger] s@.subrange(0, j)) >= 0,
            decreases n - i,
        {
            let ghost prev = s@.subrange(0, i as int);
            proof {
                assert(s@.subrange(0, i + 1).drop_last() =~= prev);
                assert(s@.subrange(0, i + 1).last() == s@[i as int]);
            }
            let c = s.get_char(i);
            if c == '[' {
                count += 1;
            } else if c == ']' {
                if count == 0 {
                    proof {
                        crate::balance::lemma_early_close_rejects(s@, i + 1);
                    }
                    return Err(InterpError::UnbalancedLoop);
                }
                count -= 1;
            }
            i += 1;
        }
        proof {
            assert(s@.subrange(0, n as int) =~= s@);
        }
        if count != 0 {
            return Err(InterpError::UnbalancedLoop);
        }
        Ok(())
    }

    /// Maps each recognized source character to its tag, in order, and
    /// appends the tags to `self.ops`; unrecognized characters produce
    /// nothing.
    pub fn lex_code(&mut self)
        ensures
            final(self).ops@ == old(self).ops@ + lex(old(self).source@),
            final(self).source == old(self).source,
            final(self).inst == old(self).inst,
    {
        let s = self.source.as_str();
        let n = s.unicode_len();
        let mut i: usize = 0;
        while i < n
            invariant
                i <= n,
                n == s@.len(),
                s@ == self.source@,
                self.source == old(self).source,
                self.inst == old(self).inst,
                self.ops@ == old(self).ops@ + lex(s@.subrange(0, i as int)),
            decreases n - i,
        {
            let ghost prev = s@.subrange(0, i as int);
            proof {
                assert(s@.subrange(0, i + 1).drop_last() =~= prev);
                assert(s@.subrange(0, i + 1).last() == s@[i as int]);
            }
            let c = s.get_char(i);
            let op = if c == '+' {
                Some(Op::Increment)
            } else if c == '-' {
                Some(Op::Decrement)
            } else if c == '<' {
                Some(Op::ShiftLeft)
            } else if c == '>' {
                Some(Op::ShiftRight)
            } else if c == '.' {
                Some(Op::PrintChar)
            } else if c == ',' {
                Some(Op::GetChar)
            } else if c == '[' {
                Some(Op::LoopStart)
            } else if c == ']' {
                Some(Op::LoopEnd)
            } else {
                None
            };
            match op {
                Some(v) => self.ops.push(v),
                None => (),
            }
            proof {
                assert(self.ops@ =~= old(self).ops@ + lex(s@.subrange(0, i + 1)));
            }
            i += 1;
        }
        proof {
            assert(s@.subrange(0, n as int) =~= s@);
        }
    }
}

} // verus!

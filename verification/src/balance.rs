//! Bracket-balance arithmetic: the signed counter that the validator walks
//! over the source, the same counter over flat operation tags, and the
//! maximum excursion of that counter (the nesting depth).

use vstd::prelude::*;

verus! {

use crate::lang::Op;

/// How one source character moves the loop-balance counter.
pub open spec fn char_delta(c: char) -> int {
    if c == '[' {
        1
    } else if c == ']' {
        -1
    } else {
        0
    }
}

/// The loop-balance counter after scanning all of `s`.
pub open spec fn nest_count(s: Seq<char>) -> int
    decreases s.len(),
{
    if s.len() == 0 {
        0
    } else {
        nest_count(s.drop_last()) + char_delta(s.last())
    }
}

/// The standard bracket-matching law: the counter never dips below zero on
/// any prefix, and ends at zero.
pub open spec fn balanced(s: Seq<char>) -> bool {
    &&& nest_count(s) == 0
    &&& forall|i: int| 0 <= i <= s.len() ==> nest_count(#[trigger] s.subrange(0, i)) >= 0
}

/// The largest value the counter reaches on any prefix of `s`: the maximum
/// bracket nesting depth of the source.
pub open spec fn max_nest(s: Seq<char>) -> int
    decreases s.len(),
{
    if s.len() == 0 {
        0
    } else {
        let rest = max_nest(s.drop_last());
        if rest >= nest_count(s) {
            rest
        } else {
            nest_count(s)
        }
    }
}

/// How one operation tag moves the loop-balance counter.
pub open spec fn op_delta(op: Op) -> int {
    match op {
        Op::LoopStart => 1,
        Op::LoopEnd => -1,
        _ => 0,
    }
}

/// The loop-balance counter after scanning all of `s`.
pub open spec fn op_count(s: Seq<Op>) -> int
    decreases s.len(),
{
    if s.len() == 0 {
        0
    } else {
        op_count(s.drop_last()) + op_delta(s.last())
    }
}

/// The bracket-matching law over operation tags.
pub open spec fn balanced_ops(s: Seq<Op>) -> bool {
    &&& op_count(s) == 0
    &&& forall|i: int| 0 <= i <= s.len() ==> op_count(#[trigger] s.subrange(0, i)) >= 0
}

/// The maximum bracket nesting depth of a tag sequence.
pub open spec fn op_max_nest(s: Seq<Op>) -> int
    decreases s.len(),
{
    if s.len() == 0 {
        0
    } else {
        let rest = op_max_nest(s.drop_last());
        if rest >= op_count(s) {
            rest
        } else {
            op_count(s)
        }
    }
}

/// The counter over tags distributes over concatenation.
pub proof fn lemma_op_count_concat(a: Seq<Op>, b: Seq<Op>)
    ensures
        op_count(a + b) == op_count(a) + op_count(b),
    decreases b.len(),
{
    if b.len() == 0 {
        assert(a + b =~= a);
    } else {
        lemma_op_count_concat(a, b.drop_last());
        assert((a + b).drop_last() =~= a + b.drop_last());
        assert((a + b).last() == b.last());
    }
}

/// The nesting depth is at least the final counter value, and never
/// negative.
pub proof fn lemma_max_nest_bounds(s: Seq<char>)
    ensures
        max_nest(s) >= nest_count(s),
        max_nest(s) >= 0,
    decreases s.len(),
{
    if s.len() != 0 {
        lemma_max_nest_bounds(s.drop_last());
    }
}

/// The nesting depth over tags is at least the final counter value, and
/// never negative.
pub proof fn lemma_op_max_nest_bounds(s: Seq<Op>)
    ensures
        op_max_nest(s) >= op_count(s),
        op_max_nest(s) >= 0,
    decreases s.len(),
{
    if s.len() != 0 {
        lemma_op_max_nest_bounds(s.drop_last());
    }
}

/// A balanced sequence followed by a balanced sequence is balanced.
pub proof fn lemma_balanced_ops_concat(a: Seq<Op>, b: Seq<Op>)
    requires
        balanced_ops(a),
        balanced_ops(b),
    ensures
        balanced_ops(a + b),
{
    lemma_op_count_concat(a, b);
    assert forall|i: int| 0 <= i <= (a + b).len() implies op_count(
        #[trigger] (a + b).subrange(0, i),
    ) >= 0 by {
        if i <= a.len() {
            assert((a + b).subrange(0, i) =~= a.subrange(0, i));
        } else {
            let j = i - a.len();
            assert((a + b).subrange(0, i) =~= a + b.subrange(0, j));
            lemma_op_count_concat(a, b.subrange(0, j));
        }
    }
}

/// Once the counter has dipped below zero on some prefix, no later
/// characters can make the source balanced: the dip itself disqualifies
/// it. This is the eager-rejection half of the bracket-matching law.
pub proof fn lemma_early_close_rejects(s: Seq<char>, i: int)
    requires
        0 <= i <= s.len(),
        nest_count(s.subrange(0, i)) < 0,
    ensures
        !balanced(s),
{
}

} // verus!

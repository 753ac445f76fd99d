//! The laws the pipeline obeys across its stages: the lexer/structurer
//! round trip (leaf and depth counts carried from the source into the
//! tree), wrapping cell arithmetic, and tape growth under shifts.

use vstd::prelude::*;

verus! {

use crate::balance::max_nest;
use crate::balance::op_count;
use crate::balance::op_max_nest;
use crate::builder::depth;
use crate::builder::depth_instr;
use crate::builder::flatten;
use crate::builder::flatten_instr;
use crate::builder::leaf_count;
use crate::builder::leaf_count_instr;
use crate::lang::Instruction;
use crate::lang::Op;
use crate::lexer::char_to_op;
use crate::lexer::is_op_char;
use crate::lexer::lex;
use crate::machine::eval_instr;
use crate::machine::eval_seq;
use crate::machine::init_state;
use crate::machine::state_wf;
use crate::machine::wrap_inc;
use crate::machine::Outcome;
use crate::machine::State;
use vstd::arithmetic::div_mod::lemma_add_mod_noop_right;

/// How many of a source's characters are non-bracket operations: the
/// characters that become leaves of the instruction tree.
pub open spec fn ctrl_count(s: Seq<char>) -> nat
    decreases s.len(),
{
    if s.len() == 0 {
        0
    } else {
        ctrl_count(s.drop_last()) + if is_op_char(s.last()) && s.last() != '[' && s.last()
            != ']' {
            1nat
        } else {
            0nat
        }
    }
}

/// How many tags of a flat sequence are non-bracket operations.
pub open spec fn op_leaf_count(s: Seq<Op>) -> nat
    decreases s.len(),
{
    if s.len() == 0 {
        0
    } else {
        op_leaf_count(s.drop_last()) + if s.last() is LoopStart || s.last() is LoopEnd {
            0nat
        } else {
            1nat
        }
    }
}

/// The three measures of a one-tag sequence.
pub proof fn lemma_op_singleton(op: Op)
    ensures
        op_count(seq![op]) == crate::balance::op_delta(op),
        op_leaf_count(seq![op]) == if op is LoopStart || op is LoopEnd {
            0nat
        } else {
            1nat
        },
        op_max_nest(seq![op]) == if op is LoopStart {
            1int
        } else {
            0int
        },
{
    let s = seq![op];
    assert(s.len() == 1);
    assert(s.last() == op);
    assert(s.drop_last() =~= Seq::<Op>::empty());
    assert(op_count(Seq::<Op>::empty()) == 0);
    assert(op_leaf_count(Seq::<Op>::empty()) == 0);
    assert(op_max_nest(Seq::<Op>::empty()) == 0);
}

/// Non-bracket tag counting distributes over concatenation.
pub proof fn lemma_op_leaf_count_concat(a: Seq<Op>, b: Seq<Op>)
    ensures
        op_leaf_count(a + b) == op_leaf_count(a) + op_leaf_count(b),
    decreases b.len(),
{
    if b.len() == 0 {
        assert(a + b =~= a);
    } else {
        lemma_op_leaf_count_concat(a, b.drop_last());
        assert((a + b).drop_last() =~= a + b.drop_last());
        assert((a + b).last() == b.last());
    }
}

/// The nesting depth of a concatenation: the left part's depth, or the
/// counter after the left part plus the right part's depth, whichever is
/// larger.
pub proof fn lemma_op_max_nest_concat(a: Seq<Op>, b: Seq<Op>)
    ensures
        op_max_nest(a + b) == if op_max_nest(a) >= op_count(a) + op_max_nest(b) {
            op_max_nest(a)
        } else {
            op_count(a) + op_max_nest(b)
        },
    decreases b.len(),
{
    crate::balance::lemma_op_max_nest_bounds(a);
    if b.len() == 0 {
        assert(a + b =~= a);
        crate::balance::lemma_op_max_nest_bounds(b);
    } else {
        lemma_op_max_nest_concat(a, b.drop_last());
        assert((a + b).drop_last() =~= a + b.drop_last());
        assert((a + b).last() == b.last());
        crate::balance::lemma_op_count_concat(a, b);
        crate::balance::lemma_op_count_concat(a, b.drop_last());
    }
}

/// A flattened instruction is bracket-balanced, keeps its leaf count, and
/// its nesting depth is the instruction's depth.
pub proof fn lemma_flatten_instr_measures(i: Instruction)
    ensures
        op_count(flatten_instr(i)) == 0,
        op_leaf_count(flatten_instr(i)) == leaf_count_instr(i),
        op_max_nest(flatten_instr(i)) == depth_instr(i),
    decreases i,
{
    match i {
        Instruction::Loop(body) => {
            lemma_flatten_measures(body@);
            let ls = seq![Op::LoopStart];
            let le = seq![Op::LoopEnd];
            let f = flatten(body@);
            lemma_op_singleton(Op::LoopStart);
            lemma_op_singleton(Op::LoopEnd);
            crate::balance::lemma_op_count_concat(ls, f);
            crate::balance::lemma_op_count_concat(ls + f, le);
            lemma_op_leaf_count_concat(ls, f);
            lemma_op_leaf_count_concat(ls + f, le);
            lemma_op_max_nest_concat(ls, f);
            lemma_op_max_nest_concat(ls + f, le);
            crate::balance::lemma_op_max_nest_bounds(f);
            assert(flatten_instr(i) == ls + f + le);
        },
        _ => {
            lemma_op_singleton(crate::builder::leaf_tag(i));
        },
    }
}

/// A flattened tree is bracket-balanced, keeps its leaf count, and its
/// nesting depth is the tree's depth.
pub proof fn lemma_flatten_measures(s: Seq<Instruction>)
    ensures
        op_count(flatten(s)) == 0,
        op_leaf_count(flatten(s)) == leaf_count(s),
        op_max_nest(flatten(s)) == depth(s),
    decreases s,
{
    if s.len() == 0 {
        assert(flatten(s) =~= Seq::<Op>::empty());
    } else {
        lemma_flatten_instr_measures(s[0]);
        lemma_flatten_measures(s.drop_first());
        crate::balance::lemma_op_count_concat(flatten_instr(s[0]), flatten(s.drop_first()));
        lemma_op_leaf_count_concat(flatten_instr(s[0]), flatten(s.drop_first()));
        lemma_op_max_nest_concat(flatten_instr(s[0]), flatten(s.drop_first()));
        crate::balance::lemma_op_max_nest_bounds(flatten(s.drop_first()));
        crate::balance::lemma_op_max_nest_bounds(flatten_instr(s[0]));
    }
}

/// Lexing keeps the non-bracket operation count: comments drop out,
/// everything else maps one-for-one.
pub proof fn lemma_lex_leaf_count(s: Seq<char>)
    ensures
        op_leaf_count(lex(s)) == ctrl_count(s),
    decreases s.len(),
{
    if s.len() != 0 {
        lemma_lex_leaf_count(s.drop_last());
        let tail = match char_to_op(s.last()) {
            Some(op) => seq![op],
            None => Seq::<Op>::empty(),
        };
        lemma_op_leaf_count_concat(lex(s.drop_last()), tail);
        match char_to_op(s.last()) {
            Some(op) => lemma_op_singleton(op),
            None => {
                assert(lex(s) =~= lex(s.drop_last()));
            },
        }
    }
}

/// Lexing keeps the maximum bracket nesting depth.
pub proof fn lemma_lex_max_nest(s: Seq<char>)
    ensures
        op_max_nest(lex(s)) == max_nest(s),
    decreases s.len(),
{
    if s.len() != 0 {
        lemma_lex_max_nest(s.drop_last());
        crate::lexer::lemma_lex_count(s.drop_last());
        crate::balance::lemma_max_nest_bounds(s.drop_last());
        crate::balance::lemma_op_max_nest_bounds(lex(s.drop_last()));
        let tail = match char_to_op(s.last()) {
            Some(op) => seq![op],
            None => Seq::<Op>::empty(),
        };
        assert(lex(s) == lex(s.drop_last()) + tail);
        lemma_op_max_nest_concat(lex(s.drop_last()), tail);
        crate::balance::lemma_op_count_concat(lex(s.drop_last()), tail);
        match char_to_op(s.last()) {
            Some(op) => lemma_op_singleton(op),
            None => {
                assert(lex(s) =~= lex(s.drop_last()));
            },
        }
    }
}

/// The lexer/structurer round trip: a tree whose flattening is the lexer's
/// output for a source has exactly one leaf per non-bracket operation
/// character of the source, and its maximum nesting depth is the source's
/// maximum bracket nesting depth.
pub proof fn lemma_structure_round_trip(src: Seq<char>, t: Seq<Instruction>)
    requires
        flatten(t) == lex(src),
    ensures
        leaf_count(t) == ctrl_count(src),
        depth(t) == max_nest(src),
{
    lemma_flatten_measures(t);
    lemma_lex_leaf_count(src);
    lemma_lex_max_nest(src);
}

/// A sequence of `n` increment instructions.
pub open spec fn incs(n: nat) -> Seq<Instruction> {
    Seq::new(n, |j: int| Instruction::Increment)
}

/// A sequence of `n` left shifts.
pub open spec fn lefts(n: nat) -> Seq<Instruction> {
    Seq::new(n, |j: int| Instruction::ShiftLeft)
}

/// A sequence of `n` right shifts.
pub open spec fn rights(n: nat) -> Seq<Instruction> {
    Seq::new(n, |j: int| Instruction::ShiftRight)
}

/// A run of `n` zero cells.
pub open spec fn zeros(n: nat) -> Seq<u8> {
    Seq::new(n, |j: int| 0u8)
}

/// A cell after `n` single increments.
pub open spec fn byte_add(b: u8, n: nat) -> u8
    decreases n,
{
    if n == 0 {
        b
    } else {
        byte_add(wrap_inc(b), (n - 1) as nat)
    }
}

/// Repeated wrapping increments add modulo 256.
pub proof fn lemma_byte_add_mod(b: u8, n: nat)
    ensures
        byte_add(b, n) == ((b + n) % 256) as u8,
    decreases n,
{
    if n == 0 {
        vstd::arithmetic::div_mod::lemma_small_mod(b as nat, 256);
    } else {
        lemma_byte_add_mod(wrap_inc(b), (n - 1) as nat);
        assert(wrap_inc(b) == (b + 1) % 256) by {
            if b == 255 {
            } else {
                vstd::arithmetic::div_mod::lemma_small_mod((b + 1) as nat, 256);
            }
        }
        lemma_add_mod_noop_right(n - 1, b + 1, 256);
        assert((n - 1 + (b + 1) % 256) % 256 == (n - 1 + (b + 1)) % 256);
    }
}

/// Evaluating `n` increments bumps the cell at the cursor by `n`, wrapping
/// modulo 256, and changes nothing else.
pub proof fn lemma_incs_eval(n: nat, st: State, budget: nat)
    requires
        state_wf(st),
    ensures
        eval_seq(incs(n), st, budget) == Outcome::Done(
            State { tape: st.tape.update(st.cur, byte_add(st.tape[st.cur], n)), ..st },
        ),
    decreases n,
{
    if n == 0 {
        assert(st.tape.update(st.cur, st.tape[st.cur]) =~= st.tape);
        assert(State { tape: st.tape.update(st.cur, byte_add(st.tape[st.cur], 0)), ..st }
            =~= st);
    } else {
        let st1 = State { tape: st.tape.update(st.cur, wrap_inc(st.tape[st.cur])), ..st };
        assert(eval_instr(incs(n)[0], st, budget) == Outcome::Done(st1));
        lemma_incs_eval((n - 1) as nat, st1, budget);
        assert(incs(n).drop_first() =~= incs((n - 1) as nat));
        assert(st1.tape.update(st1.cur, byte_add(st1.tape[st1.cur], (n - 1) as nat))
            =~= st.tape.update(st.cur, byte_add(st.tape[st.cur], n)));
    }
}

/// Cell arithmetic wraps: 256 increments on a fresh (zero) cell return the
/// state unchanged, and one decrement on a fresh cell yields 255.
pub proof fn lemma_cell_wraps(st: State, budget: nat)
    requires
        state_wf(st),
        st.tape[st.cur] == 0,
    ensures
        eval_seq(incs(256), st, budget) == Outcome::Done(st),
        eval_instr(Instruction::Decrement, st, budget) == Outcome::Done(
            State { tape: st.tape.update(st.cur, 255u8), ..st },
        ),
{
    lemma_incs_eval(256, st, budget);
    lemma_byte_add_mod(0u8, 256);
    assert(byte_add(0u8, 256) == 0u8);
    assert(st.tape.update(st.cur, 0u8) =~= st.tape);
    assert(State { tape: st.tape.update(st.cur, byte_add(st.tape[st.cur], 256)), ..st } =~= st);
}

/// Left shifts from the left edge grow the tape by one fresh zero cell
/// each, with the cursor pinned at the new leftmost cell.
pub proof fn lemma_lefts_eval(n: nat, st: State, budget: nat)
    requires
        state_wf(st),
        st.cur == 0,
    ensures
        eval_seq(lefts(n), st, budget) == Outcome::Done(
            State { tape: zeros(n) + st.tape, ..st },
        ),
    decreases n,
{
    if n == 0 {
        assert(zeros(0) + st.tape =~= st.tape);
        assert(State { tape: zeros(0) + st.tape, ..st } =~= st);
    } else {
        let st1 = State { tape: seq![0u8] + st.tape, ..st };
        assert(eval_instr(lefts(n)[0], st, budget) == Outcome::Done(st1));
        lemma_lefts_eval((n - 1) as nat, st1, budget);
        assert(lefts(n).drop_first() =~= lefts((n - 1) as nat));
        assert(zeros((n - 1) as nat) + (seq![0u8] + st.tape) =~= zeros(n) + st.tape);
    }
}

/// Right shifts from the right edge grow the tape by one fresh zero cell
/// each, the cursor following onto each new cell.
pub proof fn lemma_rights_eval(n: nat, st: State, budget: nat)
    requires
        state_wf(st),
        st.cur == st.tape.len() - 1,
    ensures
        eval_seq(rights(n), st, budget) == Outcome::Done(
            State { tape: st.tape + zeros(n), cur: st.cur + n, ..st },
        ),
    decreases n,
{
    if n == 0 {
        assert(st.tape + zeros(0) =~= st.tape);
        assert(State { tape: st.tape + zeros(0), cur: st.cur + 0, ..st } =~= st);
    } else {
        let st1 = State { tape: st.tape.push(0u8), cur: st.cur + 1, ..st };
        assert(eval_instr(rights(n)[0], st, budget) == Outcome::Done(st1));
        lemma_rights_eval((n - 1) as nat, st1, budget);
        assert(rights(n).drop_first() =~= rights((n - 1) as nat));
        assert(st1.tape + zeros((n - 1) as nat) =~= st.tape + zeros(n));
        assert(State { tape: st1.tape + zeros((n - 1) as nat), cur: st1.cur + (n - 1), ..st1 }
            =~= State { tape: st.tape + zeros(n), cur: st.cur + n, ..st });
    }
}

/// Tape growth from the initial position: `k` left shifts leave a tape of
/// length `k + 1` with the cursor pinned at 0; `k` right shifts leave a
/// tape of length `k + 1` with the cursor at `k`.
pub proof fn lemma_tape_growth(k: nat, input: Seq<u8>, budget: nat)
    ensures
        eval_seq(lefts(k), init_state(input), budget) == Outcome::Done(
            State { tape: zeros(k + 1), cur: 0, input: input, output: Seq::empty() },
        ),
        eval_seq(rights(k), init_state(input), budget) == Outcome::Done(
            State { tape: zeros(k + 1), cur: k as int, input: input, output: Seq::empty() },
        ),
{
    let st = init_state(input);
    lemma_lefts_eval(k, st, budget);
    assert(zeros(k) + st.tape =~= zeros(k + 1));
    assert(State { tape: zeros(k) + st.tape, ..st } =~= State {
        tape: zeros(k + 1),
        cur: 0,
        input: input,
        output: Seq::empty(),
    });
    lemma_rights_eval(k, st, budget);
    assert(st.tape + zeros(k) =~= zeros(k + 1));
    assert(State { tape: st.tape + zeros(k), cur: st.cur + k, ..st } =~= State {
        tape: zeros(k + 1),
        cur: k as int,
        input: input,
        output: Seq::empty(),
    });
}

} // verus!

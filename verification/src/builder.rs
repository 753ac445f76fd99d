//! The structurer: one left-to-right pass over the flat tag sequence with
//! an explicit stack of in-progress sequences, nesting each bracket pair
//! into a `Loop` node. Its contract is a round trip: flattening the tree it
//! builds gives back exactly the tag sequence it consumed.

use vstd::prelude::*;

verus! {

use crate::Interpreter;
use crate::balance::balanced_ops;
use crate::balance::op_count;
use crate::lang::Instruction;
use crate::lang::Op;

/// The tag a leaf instruction came from.
pub open spec fn leaf_tag(i: Instruction) -> Op {
    match i {
        Instruction::Increment => Op::Increment,
        Instruction::Decrement => Op::Decrement,
        Instruction::ShiftLeft => Op::ShiftLeft,
        Instruction::ShiftRight => Op::ShiftRight,
        Instruction::PrintChar => Op::PrintChar,
        Instruction::GetChar => Op::GetChar,
        Instruction::Loop(_) => Op::LoopStart,
    }
}

/// The flat tag sequence an instruction unparses to: a leaf gives its own
/// tag, a loop gives its flattened body between a bracket pair.
pub open spec fn flatten_instr(i: Instruction) -> Seq<Op>
    decreases i,
{
    match i {
        Instruction::Loop(body) => seq![Op::LoopStart] + flatten(body@) + seq![Op::LoopEnd],
        _ => seq![leaf_tag(i)],
    }
}

/// The flat tag sequence an instruction sequence unparses to.
pub open spec fn flatten(s: Seq<Instruction>) -> Seq<Op>
    decreases s,
{
    if s.len() == 0 {
        Seq::empty()
    } else {
        flatten_instr(s[0]) + flatten(s.drop_first())
    }
}

/// The number of leaves in an instruction (loop nodes themselves not
/// counted, their leaves counted through).
pub open spec fn leaf_count_instr(i: Instruction) -> nat
    decreases i,
{
    match i {
        Instruction::Loop(body) => leaf_count(body@),
        _ => 1,
    }
}

/// The number of leaves in an instruction sequence.
pub open spec fn leaf_count(s: Seq<Instruction>) -> nat
    decreases s,
{
    if s.len() == 0 {
        0
    } else {
        leaf_count_instr(s[0]) + leaf_count(s.drop_first())
    }
}

/// The nesting depth of an instruction: zero for a leaf, one more than the
/// body's depth for a loop.
pub open spec fn depth_instr(i: Instruction) -> nat
    decreases i,
{
    match i {
        Instruction::Loop(body) => 1 + depth(body@),
        _ => 0,
    }
}

/// The maximum nesting depth over an instruction sequence.
pub open spec fn depth(s: Seq<Instruction>) -> nat
    decreases s,
{
    if s.len() == 0 {
        0
    } else {
        let h = depth_instr(s[0]);
        let rest = depth(s.drop_first());
        if h >= rest {
            h
        } else {
            rest
        }
    }
}

/// Flattening distributes over concatenation.
pub proof fn lemma_flatten_concat(a: Seq<Instruction>, b: Seq<Instruction>)
    ensures
        flatten(a + b) == flatten(a) + flatten(b),
    decreases a.len(),
{
    if a.len() == 0 {
        assert(a + b =~= b);
        assert(flatten(a) + flatten(b) =~= flatten(b));
    } else {
        lemma_flatten_concat(a.drop_first(), b);
        assert((a + b).drop_first() =~= a.drop_first() + b);
        assert((a + b)[0] == a[0]);
        assert(flatten(a + b) =~= flatten(a) + flatten(b));
    }
}

/// Appending one instruction appends its flattening.
pub proof fn lemma_flatten_push(s: Seq<Instruction>, i: Instruction)
    ensures
        flatten(s.push(i)) == flatten(s) + flatten_instr(i),
{
    assert(s.push(i) =~= s + seq![i]);
    lemma_flatten_concat(s, seq![i]);
    assert(seq![i].drop_first() =~= Seq::<Instruction>::empty());
    assert(flatten(Seq::<Instruction>::empty()) =~= Seq::<Op>::empty());
    assert(flatten(seq![i]) =~= flatten_instr(i) + Seq::<Op>::empty());
    assert(flatten_instr(i) + Seq::<Op>::empty() =~= flatten_instr(i));
}

/// What the stack of in-progress sequences stands for: the already-consumed
/// tags, read back by flattening each suspended sequence and re-opening the
/// bracket that suspended it.
pub open spec fn stack_flatten(q: Seq<Vec<Instruction>>) -> Seq<Op>
    decreases q.len(),
{
    if q.len() == 0 {
        Seq::empty()
    } else {
        stack_flatten(q.drop_last()) + flatten(q.last()@) + seq![Op::LoopStart]
    }
}

impl Interpreter {
    /// Builds the instruction tree from the flat tags in one pass: a
    /// non-bracket tag appends its leaf to the current sequence, a
    /// loop-start suspends the current sequence on the stack, and a
    /// loop-end pops it back and appends the finished body as one `Loop`
    /// node. Balance (guaranteed by the validator) keeps the stack safe.
    /// The tree is pinned down by the round trip: flattening it gives back
    /// the consumed tags exactly.
    pub fn build_instruction(&mut self)
        requires
            balanced_ops(old(self).ops@),
        ensures
            flatten(final(self).inst@) == old(self).ops@,
            final(self).ops == old(self).ops,
            final(self).source == old(self).source,
    {
        let ghost ops = self.ops@;
        let mut queue = Vec::<Vec<Instruction>>::new();
        let mut inst = Vec::<Instruction>::new();
        let n = self.ops.len();
        let mut idx: usize = 0;
        proof {
            assert(ops.subrange(0, 0) =~= Seq::<Op>::empty());
        }
        while idx < n
            invariant
                idx <= n,
                n == ops.len(),
                self.ops@ == ops,
                self == old(self),
                balanced_ops(ops),
                stack_flatten(queue@) + flatten(inst@) == ops.subrange(0, idx as int),
                queue@.len() == op_count(ops.subrange(0, idx as int)),
            decreases n - idx,
        {
            let ghost prev = ops.subrange(0, idx as int);
            let ghost q0 = queue@;
            let ghost inst0 = inst@;
            proof {
                assert(ops.subrange(0, idx + 1).drop_last() =~= prev);
                assert(ops.subrange(0, idx + 1).last() == ops[idx as int]);
            }
            let op = self.ops[idx];
            match op {
                Op::Increment => inst.push(Instruction::Increment),
                Op::Decrement => inst.push(Instruction::Decrement),
                Op::ShiftLeft => inst.push(Instruction::ShiftLeft),
                Op::ShiftRight => inst.push(Instruction::ShiftRight),
                Op::PrintChar => inst.push(Instruction::PrintChar),
                Op::GetChar => inst.push(Instruction::GetChar),
                Op::LoopStart => {
                    queue.push(inst);
                    inst = Vec::<Instruction>::new();
                    proof {
                        assert(queue@.drop_last() =~= q0);
                        assert(queue@.last()@ == inst0);
                        assert(flatten(inst@) =~= Seq::<Op>::empty());
                        assert(stack_flatten(queue@) + flatten(inst@) =~= ops.subrange(
                            0,
                            idx + 1,
                        ));
                    }
                },
                Op::LoopEnd => {
                    proof {
                        assert(op_count(ops.subrange(0, idx + 1)) >= 0);
                    }
                    let popped = queue.pop();
                    let mut v = match popped {
                        Some(v) => v,
                        None => {
                            proof {
                                assert(false);
                            }
                            Vec::<Instruction>::new()
                        },
                    };
                    let body = inst;
                    v.push(Instruction::Loop(body));
                    inst = v;
                    proof {
                        assert(queue@ == q0.drop_last());
                        assert(inst@ == q0.last()@.push(Instruction::Loop(body)));
                        lemma_flatten_push(q0.last()@, Instruction::Loop(body));
                        assert(stack_flatten(queue@) + flatten(inst@) =~= ops.subrange(
                            0,
                            idx + 1,
                        ));
                    }
                },
            }
            proof {
                match ops[idx as int] {
                    Op::Increment => lemma_flatten_push(inst0, Instruction::Increment),
                    Op::Decrement => lemma_flatten_push(inst0, Instruction::Decrement),
                    Op::ShiftLeft => lemma_flatten_push(inst0, Instruction::ShiftLeft),
                    Op::ShiftRight => lemma_flatten_push(inst0, Instruction::ShiftRight),
                    Op::PrintChar => lemma_flatten_push(inst0, Instruction::PrintChar),
                    Op::GetChar => lemma_flatten_push(inst0, Instruction::GetChar),
                    Op::LoopStart => (),
                    Op::LoopEnd => (),
                }
                assert(stack_flatten(queue@) + flatten(inst@) =~= ops.subrange(0, idx + 1));
            }
            idx += 1;
        }
        proof {
            assert(ops.subrange(0, n as int) =~= ops);
            assert(op_count(ops) == 0);
            assert(stack_flatten(queue@) =~= Seq::<Op>::empty());
            assert(flatten(inst@) =~= ops);
        }
        self.inst = inst;
    }
}

} // verus!

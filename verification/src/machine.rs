//! The evaluator: a depth-first walk of the instruction tree against a
//! growable tape of wrapping eight-bit cells, a cursor, an input byte
//! stream and an output byte stream. The walk is specified by a big-step
//! semantics with an explicit step budget, which bounds how often loop
//! bodies may re-enter; the budget stands in for the resource exhaustion
//! that an endless program would otherwise run into.

use vstd::prelude::*;

verus! {

use crate::Interpreter;
use crate::lang::Instruction;
use crate::lang::InterpError;

/// The mathematical state of one evaluation: the tape cells, the cursor,
/// the input bytes not yet consumed, and the output bytes emitted so far.
#[verifier::ext_equal]
pub ghost struct State {
    pub tape: Seq<u8>,
    pub cur: int,
    pub input: Seq<u8>,
    pub output: Seq<u8>,
}

/// The cursor always addresses a cell of the tape.
pub open spec fn state_wf(st: State) -> bool {
    0 <= st.cur < st.tape.len()
}

/// The state evaluation starts from: a single zero cell, the cursor on it,
/// the given input untouched and no output.
pub open spec fn init_state(input: Seq<u8>) -> State {
    State { tape: seq![0u8], cur: 0, input: input, output: Seq::empty() }
}

/// How one evaluation ends: completed, stopped on a read with no input
/// left, or stopped because the step budget ran out. Each case carries the
/// state at the stop.
#[verifier::ext_equal]
pub ghost enum Outcome {
    Done(State),
    NoInput(State),
    OutOfSteps(State),
}

/// One increment of a cell, wrapping past 255 to 0.
pub open spec fn wrap_inc(b: u8) -> u8 {
    if b == 255 {
        0
    } else {
        (b + 1) as u8
    }
}

/// One decrement of a cell, wrapping past 0 to 255.
pub open spec fn wrap_dec(b: u8) -> u8 {
    if b == 0 {
        255
    } else {
        (b - 1) as u8
    }
}

/// The big-step semantics of one instruction. Loops re-check the cell at
/// the cursor before every pass; each pass through a body spends one unit
/// of the step budget.
pub open spec fn eval_instr(i: Instruction, st: State, budget: nat) -> Outcome
    decreases budget, 0nat,
{
    match i {
        Instruction::Increment => Outcome::Done(
            State { tape: st.tape.update(st.cur, wrap_inc(st.tape[st.cur])), ..st },
        ),
        Instruction::Decrement => Outcome::Done(
            State { tape: st.tape.update(st.cur, wrap_dec(st.tape[st.cur])), ..st },
        ),
        Instruction::ShiftLeft => Outcome::Done(
            if st.cur == 0 {
                State { tape: seq![0u8] + st.tape, ..st }
            } else {
                State { cur: st.cur - 1, ..st }
            },
        ),
        Instruction::ShiftRight => Outcome::Done(
            if st.cur + 1 == st.tape.len() {
                State { tape: st.tape.push(0u8), cur: st.cur + 1, ..st }
            } else {
                State { cur: st.cur + 1, ..st }
            },
        ),
        Instruction::PrintChar => Outcome::Done(
            State { output: st.output.push(st.tape[st.cur]), ..st },
        ),
        Instruction::GetChar => if st.input.len() == 0 {
            Outcome::NoInput(st)
        } else {
            Outcome::Done(
                State {
                    tape: st.tape.update(st.cur, st.input[0]),
                    input: st.input.drop_first(),
                    ..st
                },
            )
        },
        Instruction::Loop(body) => {
            if st.tape[st.cur] == 0 {
                Outcome::Done(st)
            } else if budget == 0 {
                Outcome::OutOfSteps(st)
            } else {
                match eval_seq(body@, st, (budget - 1) as nat) {
                    Outcome::Done(st2) => eval_instr(i, st2, (budget - 1) as nat),
                    other => other,
                }
            }
        },
    }
}

/// The big-step semantics of an instruction sequence, left to right; the
/// first stop, if any, ends the run.
pub open spec fn eval_seq(s: Seq<Instruction>, st: State, budget: nat) -> Outcome
    decreases budget, s.len(),
{
    if s.len() == 0 {
        Outcome::Done(st)
    } else {
        match eval_instr(s[0], st, budget) {
            Outcome::Done(st2) => eval_seq(s.drop_first(), st2, budget),
            other => other,
        }
    }
}

/// The step budget is an artifact, not part of the semantics: an
/// evaluation of one instruction that does not run out of steps ends the
/// same way under any larger budget.
pub proof fn lemma_eval_instr_budget_monotone(i: Instruction, st: State, b1: nat, b2: nat)
    requires
        b1 <= b2,
        !(eval_instr(i, st, b1) is OutOfSteps),
    ensures
        eval_instr(i, st, b2) == eval_instr(i, st, b1),
    decreases b1, 0nat,
{
    match i {
        Instruction::Loop(body) => {
            if st.tape[st.cur] != 0 {
                match eval_seq(body@, st, (b1 - 1) as nat) {
                    Outcome::Done(st2) => {
                        lemma_eval_seq_budget_monotone(body@, st, (b1 - 1) as nat, (b2 - 1) as nat);
                        lemma_eval_instr_budget_monotone(i, st2, (b1 - 1) as nat, (b2 - 1) as nat);
                    },
                    Outcome::NoInput(_) => {
                        lemma_eval_seq_budget_monotone(body@, st, (b1 - 1) as nat, (b2 - 1) as nat);
                    },
                    Outcome::OutOfSteps(_) => {},
                }
            }
        },
        _ => {},
    }
}

/// The step budget is an artifact, not part of the semantics: an
/// evaluation of an instruction sequence that does not run out of steps
/// ends the same way under any larger budget.
pub proof fn lemma_eval_seq_budget_monotone(s: Seq<Instruction>, st: State, b1: nat, b2: nat)
    requires
        b1 <= b2,
        !(eval_seq(s, st, b1) is OutOfSteps),
    ensures
        eval_seq(s, st, b2) == eval_seq(s, st, b1),
    decreases b1, s.len(),
{
    if s.len() != 0 {
        match eval_instr(s[0], st, b1) {
            Outcome::Done(st2) => {
                lemma_eval_instr_budget_monotone(s[0], st, b1, b2);
                lemma_eval_seq_budget_monotone(s.drop_first(), st2, b1, b2);
            },
            Outcome::NoInput(_) => {
                lemma_eval_instr_budget_monotone(s[0], st, b1, b2);
            },
            Outcome::OutOfSteps(_) => {},
        }
    }
}

/// The running state of one evaluation: the tape, the cursor, the input
/// bytes (consumed from the front, marked by `pos`) and the output
/// collected so far.
pub struct Machine {
    pub tape: Vec<u8>,
    pub cursor: usize,
    pub input: Vec<u8>,
    pub pos: usize,
    pub output: Vec<u8>,
}

impl Machine {
    /// The cursor addresses a cell, and the consumed-input mark is within
    /// the input.
    pub open spec fn wf(&self) -> bool {
        &&& self.cursor < self.tape@.len()
        &&& self.pos <= self.input@.len()
    }

    /// The mathematical state this machine is in.
    pub open spec fn view(&self) -> State {
        State {
            tape: self.tape@,
            cur: self.cursor as int,
            input: self.input@.subrange(self.pos as int, self.input@.len() as int),
            output: self.output@,
        }
    }

    /// A fresh machine: one zero cell, cursor on it, the given input bytes
    /// ahead, no output yet.
    pub fn new(input: Vec<u8>) -> (r: Machine)
        ensures
            r.wf(),
            r.view() == init_state(input@),
    {
        let m = Machine { tape: vec![0u8], cursor: 0, input: input, pos: 0, output: Vec::new() };
        proof {
            assert(m.input@.subrange(0, m.input@.len() as int) =~= m.input@);
            assert(m.view() =~= init_state(m.input@));
        }
        m
    }
}

/// How an evaluation result of the executable walk lines up with the
/// big-step semantics: success means the semantics completed in this
/// machine state, and each error names the stop the semantics took.
pub open spec fn outcome_matches(o: Outcome, m: Machine, r: Result<(), InterpError>) -> bool {
    match r {
        Ok(()) => o == Outcome::Done(m.view()),
        Err(InterpError::InputExhausted) => o == Outcome::NoInput(m.view()),
        Err(InterpError::StepLimit) => o == Outcome::OutOfSteps(m.view()),
        Err(InterpError::UnbalancedLoop) => false,
    }
}

impl Interpreter {
    /// Walks one instruction sequence against the machine, exactly as the
    /// big-step semantics says: left to right, loops re-checked on the
    /// cell at the cursor, one budget unit per pass through a loop body.
    pub fn eval_liner(
        &self,
        inst: &Vec<Instruction>,
        m: &mut Machine,
        budget: u64,
    ) -> (r: Result<(), InterpError>)
        requires
            old(m).wf(),
        ensures
            final(m).wf(),
            outcome_matches(eval_seq(inst@, old(m).view(), budget as nat), *final(m), r),
        decreases budget,
    {
        let ghost st0 = m.view();
        let n = inst.len();
        let mut idx: usize = 0;
        proof {
            assert(inst@.subrange(0, n as int) =~= inst@);
        }
        while idx < n
            invariant
                idx <= n,
                n == inst@.len(),
                m.wf(),
                st0 == old(m).view(),
                eval_seq(inst@, st0, budget as nat) == eval_seq(
                    inst@.subrange(idx as int, n as int),
                    m.view(),
                    budget as nat,
                ),
            decreases n - idx,
        {
            let ghost st_pre = m.view();
            let ghost rest = inst@.subrange(idx as int, n as int);
            proof {
                assert(rest[0] == inst@[idx as int]);
                assert(rest.drop_first() =~= inst@.subrange(idx + 1, n as int));
            }
            match &inst[idx] {
                Instruction::Increment => {
                    let b = m.tape[m.cursor];
                    let nb = if b == 255 {
                        0
                    } else {
                        b + 1
                    };
                    m.tape[m.cursor] = nb;
                    proof {
                        assert(m.view() =~= State {
                            tape: st_pre.tape.update(st_pre.cur, wrap_inc(st_pre.tape[st_pre.cur])),
                            ..st_pre
                        });
                    }
                },
                Instruction::Decrement => {
                    let b = m.tape[m.cursor];
                    let nb = if b == 0 {
                        255
                    } else {
                        b - 1
                    };
                    m.tape[m.cursor] = nb;
                    proof {
                        assert(m.view() =~= State {
                            tape: st_pre.tape.update(st_pre.cur, wrap_dec(st_pre.tape[st_pre.cur])),
                            ..st_pre
                        });
                    }
                },
                Instruction::ShiftLeft => {
                    if m.cursor == 0 {
                        m.tape.insert(0, 0);
                        proof {
                            assert(m.view() =~= State { tape: seq![0u8] + st_pre.tape, ..st_pre });
                        }
                    } else {
                        m.cursor -= 1;
                        proof {
                            assert(m.view() =~= State { cur: st_pre.cur - 1, ..st_pre });
                        }
                    }
                },
                Instruction::ShiftRight => {
                    let tl = m.tape.len();
                    m.cursor += 1;
                    if m.cursor == tl {
                        m.tape.push(0);
                        proof {
                            assert(m.view() =~= State {
                                tape: st_pre.tape.push(0u8),
                                cur: st_pre.cur + 1,
                                ..st_pre
                            });
                        }
                    } else {
                        proof {
                            assert(m.view() =~= State { cur: st_pre.cur + 1, ..st_pre });
                        }
                    }
                },
                Instruction::PrintChar => {
                    let b = m.tape[m.cursor];
                    m.output.push(b);
                    proof {
                        assert(m.view() =~= State {
                            output: st_pre.output.push(st_pre.tape[st_pre.cur]),
                            ..st_pre
                        });
                    }
                },
                Instruction::GetChar => {
                    if m.pos == m.input.len() {
                        proof {
                            assert(st_pre.input.len() == 0);
                            assert(eval_instr(inst@[idx as int], st_pre, budget as nat)
                                == Outcome::NoInput(st_pre));
                            assert(eval_seq(rest, st_pre, budget as nat) == Outcome::NoInput(
                                st_pre,
                            ));
                        }
                        return Err(InterpError::InputExhausted);
                    }
                    let b = m.input[m.pos];
                    m.pos += 1;
                    m.tape[m.cursor] = b;
                    proof {
                        assert(st_pre.input[0] == b);
                        assert(m.view() =~= State {
                            tape: st_pre.tape.update(st_pre.cur, st_pre.input[0]),
                            input: st_pre.input.drop_first(),
                            ..st_pre
                        });
                    }
                },
                Instruction::Loop(child) => {
                    let ghost li = inst@[idx as int];
                    let mut left = budget;
                    while m.tape[m.cursor] != 0
                        invariant
                            m.wf(),
                            left <= budget,
                            idx < n,
                            n == inst@.len(),
                            st0 == old(m).view(),
                            li == inst@[idx as int],
                            li is Loop,
                            child@ == li->Loop_0@,
                            eval_seq(inst@, st0, budget as nat) == eval_seq(
                                inst@.subrange(idx as int, n as int),
                                st_pre,
                                budget as nat,
                            ),
                            eval_instr(li, st_pre, budget as nat) == eval_instr(
                                li,
                                m.view(),
                                left as nat,
                            ),
                        decreases left,
                    {
                        let ghost rest2 = inst@.subrange(idx as int, n as int);
                        proof {
                            assert(rest2[0] == li);
                        }
                        if left == 0 {
                            proof {
                                assert(eval_instr(li, m.view(), 0) == Outcome::OutOfSteps(
                                    m.view(),
                                ));
                                assert(eval_seq(rest2, st_pre, budget as nat)
                                    == Outcome::OutOfSteps(m.view()));
                            }
                            return Err(InterpError::StepLimit);
                        }
                        let ghost left_head: nat = left as nat;
                        left -= 1;
                        let ghost st_enter = m.view();
                        let r = self.eval_liner(child, m, left);
                        proof {
                            assert(eval_instr(li, st_enter, left_head) == match eval_seq(
                                child@,
                                st_enter,
                                left as nat,
                            ) {
                                Outcome::Done(st2) => eval_instr(li, st2, left as nat),
                                other => other,
                            });
                        }
                        match r {
                            Ok(()) => {},
                            Err(e) => {
                                proof {
                                    assert(eval_seq(rest2, st_pre, budget as nat) == eval_instr(
                                        li,
                                        st_pre,
                                        budget as nat,
                                    ));
                                }
                                return Err(e);
                            },
                        }
                    }
                    proof {
                        assert(eval_instr(li, m.view(), left as nat) == Outcome::Done(m.view()));
                    }
                },
            }
            idx += 1;
            proof {
                assert(eval_seq(inst@, st0, budget as nat) == eval_seq(
                    inst@.subrange(idx as int, n as int),
                    m.view(),
                    budget as nat,
                ));
            }
        }
        proof {
            assert(inst@.subrange(n as int, n as int) =~= Seq::<Instruction>::empty());
        }
        Ok(())
    }

    /// Evaluates the built instruction tree from a fresh machine holding
    /// the given input, within the given step budget, and returns the
    /// final machine. An error reports the stop the semantics took; the
    /// machine at that point is discarded, as a fatal stop ends the run.
    pub fn eval_instruction(&self, input: Vec<u8>, budget: u64) -> (r: Result<
        Machine,
        InterpError,
    >)
        ensures
            match r {
                Ok(m) => m.wf() && eval_seq(self.inst@, init_state(input@), budget as nat)
                    == Outcome::Done(m.view()),
                Err(InterpError::InputExhausted) => eval_seq(
                    self.inst@,
                    init_state(input@),
                    budget as nat,
                ) is NoInput,
                Err(InterpError::StepLimit) => eval_seq(
                    self.inst@,
                    init_state(input@),
                    budget as nat,
                ) is OutOfSteps,
                Err(InterpError::UnbalancedLoop) => false,
            },
    {
        let mut m = Machine::new(input);
        match self.eval_liner(&self.inst, &mut m, budget) {
            Ok(()) => Ok(m),
            Err(e) => Err(e),
        }
    }
}

} // verus!

//! Rendering the instruction tree as an indented listing, one line per
//! node, loop bodies indented two spaces under their `Loop:` line.

use vstd::prelude::*;

verus! {

use crate::lang::Instruction;
use vstd::string::StringExecFns;

/// The text one instruction renders to at a given indentation.
pub open spec fn render_instr(i: Instruction, ind: Seq<char>) -> Seq<char>
    decreases i,
{
    match i {
        Instruction::Increment => ind + "Increment\n"@,
        Instruction::Decrement => ind + "Decrement\n"@,
        Instruction::ShiftLeft => ind + "ShiftLeft\n"@,
        Instruction::ShiftRight => ind + "ShiftRight\n"@,
        Instruction::PrintChar => ind + "PrintChar\n"@,
        Instruction::GetChar => ind + "GetChar\n"@,
        Instruction::Loop(body) => ind + "Loop:\n"@ + render_seq(body@, ind + "  "@),
    }
}

/// The text an instruction sequence renders to, in order.
pub open spec fn render_seq(s: Seq<Instruction>, ind: Seq<char>) -> Seq<char>
    decreases s,
{
    if s.len() == 0 {
        Seq::empty()
    } else {
        render_instr(s[0], ind) + render_seq(s.drop_first(), ind)
    }
}

/// Renders an instruction tree as its indented listing.
pub fn render_instructions(v: &Vec<Instruction>) -> (r: String)
    ensures
        r@ == render_seq(v@, Seq::<char>::empty()),
{
    let mut out = String::new();
    let ind = String::new();
    render_into(v, &ind, &mut out);
    out
}

/// Appends the listing of `v` at indentation `ind` to `out`.
fn render_into(v: &Vec<Instruction>, ind: &String, out: &mut String)
    ensures
        final(out)@ == old(out)@ + render_seq(v@, ind@),
    decreases v@,
{
    let ghost out0 = out@;
    let n = v.len();
    let mut i: usize = 0;
    proof {
        assert(v@.subrange(0, n as int) =~= v@);
    }
    while i < n
        invariant
            i <= n,
            n == v@.len(),
            out0 == old(out)@,
            out0 + render_seq(v@, ind@) == out@ + render_seq(
                v@.subrange(i as int, n as int),
                ind@,
            ),
        decreases n - i,
    {
        let ghost rest = v@.subrange(i as int, n as int);
        let ghost pre = out@;
        proof {
            assert(rest[0] == v@[i as int]);
            assert(rest.drop_first() =~= v@.subrange(i + 1, n as int));
        }
        match &v[i] {
            Instruction::Increment => {
                out.append(ind.as_str());
                out.append("Increment\n");
                proof {
                    assert(out@ =~= pre + render_instr(v@[i as int], ind@));
                }
            },
            Instruction::Decrement => {
                out.append(ind.as_str());
                out.append("Decrement\n");
                proof {
                    assert(out@ =~= pre + render_instr(v@[i as int], ind@));
                }
            },
            Instruction::ShiftLeft => {
                out.append(ind.as_str());
                out.append("ShiftLeft\n");
                proof {
                    assert(out@ =~= pre + render_instr(v@[i as int], ind@));
                }
            },
            Instruction::ShiftRight => {
                out.append(ind.as_str());
                out.append("ShiftRight\n");
                proof {
                    assert(out@ =~= pre + render_instr(v@[i as int], ind@));
                }
            },
            Instruction::PrintChar => {
                out.append(ind.as_str());
                out.append("PrintChar\n");
                proof {
                    assert(out@ =~= pre + render_instr(v@[i as int], ind@));
                }
            },
            Instruction::GetChar => {
                out.append(ind.as_str());
                out.append("GetChar\n");
                proof {
                    assert(out@ =~= pre + render_instr(v@[i as int], ind@));
                }
            },
            Instruction::Loop(child) => {
                out.append(ind.as_str());
                out.append("Loop:\n");
                let mut deeper = ind.clone();
                deeper.append("  ");
                proof {
                    assert(decreases_to!(v@ => v@[i as int]));
                    assert(decreases_to!(v@[i as int] => child@));
                }
                render_into(child, &deeper, out);
                proof {
                    assert(out@ =~= pre + render_instr(v@[i as int], ind@));
                }
            },
        }
        i += 1;
        proof {
            assert(out@ + render_seq(v@.subrange(i as int, n as int), ind@) =~= pre + render_seq(
                rest,
                ind@,
            ));
        }
    }
    proof {
        assert(v@.subrange(n as int, n as int) =~= Seq::<Instruction>::empty());
        assert(out@ + render_seq(v@.subrange(n as int, n as int), ind@) =~= out@);
        assert(v@.subrange(0, n as int) =~= v@);
    }
}

} // verus!

//! What structured code does: that a loop tests its condition before each pass.
use vstd::prelude::*;
use crate::masm::emit;
use crate::masm::inst::Op;
use crate::masm::lowering::is_loop;
use crate::masm::machine;
use crate::span::SourceSpan;
use crate::types::Immediate;

verus! {

/// What an operation makes of the stack, if blocks are entered at most `most` times, one within or
/// after the other.
pub open spec fn acts(op: Op, f: Seq<int>, most: nat) -> Seq<int>
    decreases most, 0nat,
{
    match op {
        Op::Inst(_, inst) => machine::step(inst, f),
        Op::If { then_blk, else_blk, .. } => if most == 0 {
            f
        } else if f[0] != 0 {
            acts_all(then_blk.ops@, f.skip(1), (most - 1) as nat)
        } else {
            acts_all(else_blk.ops@, f.skip(1), (most - 1) as nat)
        },
        Op::While { body, .. } => if most == 0 {
            f
        } else if f[0] != 0 {
            acts(
                op,
                acts_all(body.ops@, f.skip(1), (most - 1) as nat),
                (most - 1) as nat,
            )
        } else {
            f.skip(1)
        },
        Op::Repeat { .. } => f,
    }
}

/// What operations make of the stack, one after the other.
pub open spec fn acts_all(ops: Seq<Op>, f: Seq<int>, most: nat) -> Seq<int>
    decreases most, ops.len(),
{
    if ops.len() == 0 {
        f
    } else {
        acts(ops.last(), acts_all(ops.drop_last(), f, most), most)
    }
}

proof fn acts_of_push(ops: Seq<Op>, op: Op, f: Seq<int>, most: nat)
    ensures
        acts_all(ops.push(op), f, most) == acts(op, acts_all(ops, f, most), most),
{
    assert(ops.push(op).drop_last() =~= ops);
}

/// A loop does nothing but take a zero from the stack. Otherwise it runs the region that computes the
/// condition. If the condition is zero, that is all; else it runs the body and starts over.
pub proof fn loops_test_before_each_pass(
    op: Op,
    before: Seq<Op>,
    after: Seq<Op>,
    span: SourceSpan,
    f: Seq<int>,
    most: nat,
)
    requires
        is_loop(op, before, after, span),
        f.len() > 0,
    ensures
        f[0] == 0 ==> acts(op, f, most + 2) == f.skip(1),
        f[0] == 1 ==> {
            let g = acts_all(before, f.skip(1), most + 1);
            acts(op, f, most + 2) == if g[0] == 0 {
                g.skip(1)
            } else {
                acts(op, seq![1int] + acts_all(after, g.skip(1), most), most + 1)
            }
        },
{
    if f[0] == 1 {
        let g = acts_all(before, f.skip(1), most + 1);
        match op {
            Op::While { body, .. } => {
                let last = body.ops@.last();
                assert(body.ops@ =~= before.push(last));
                acts_of_push(before, last, f.skip(1), most + 1);
                match last {
                    Op::If { then_blk, else_blk, .. } => {
                        let yes = emit::push_code(Immediate::I1(true));
                        let no = emit::push_code(Immediate::I1(false));
                        assert(yes.len() == 1 && no.len() == 1);
                        let one = Op::Inst(span, yes[0]);
                        let zero = Op::Inst(span, no[0]);
                        assert(then_blk.ops@ =~= after.push(one));
                        assert(else_blk.ops@ =~= Seq::<Op>::empty().push(zero));
                        acts_of_push(after, one, g.skip(1), most);
                        acts_of_push(Seq::empty(), zero, g.skip(1), most);
                        assert(machine::step(yes[0], acts_all(after, g.skip(1), most))
                            =~= seq![1int] + acts_all(after, g.skip(1), most));
                        assert(machine::step(no[0], g.skip(1)) =~= seq![0int] + g.skip(1));
                        assert((seq![0int] + g.skip(1)).skip(1) =~= g.skip(1));
                        let passed = acts_all(body.ops@, f.skip(1), most + 1);
                        assert(acts(op, f, most + 2) == acts(op, passed, most + 1));
                    },
                    _ => {},
                }
            },
            _ => {},
        }
    }
}

} // verus!

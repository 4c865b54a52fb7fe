//! Where control goes: that blocks, loops, conditionals and branches lead to where WebAssembly says,
//! with the values that it says.
use vstd::prelude::*;
use crate::types::{Immediate, ScalarType};
use crate::wasm::builder::Built;
use crate::wasm::control;
use crate::wasm::ir::{Conversion, Event, IrType, Value};
use crate::wasm::meaning::{
    self, case_for, comparisons, conversions, fits, keeps_values, next, only_defines, played,
    range_of, Flow, World,
};
use crate::wasm::operator::{BlockType, FuncEnv, Operator};
use crate::wasm::state::Trans;
use crate::wasm::translate;

verus! {

/// There are numbers for more values, blocks and steps, the values on the stack are defined, and so
/// are the blocks that the control structures lead to.
pub open spec fn settled(t: Trans) -> bool {
    &&& t.b.has_room(16)
    &&& forall|i: int| 0 <= i < t.stack.len() ==> (#[trigger] t.stack[i]).id < t.b.next
    &&& forall|i: int|
        0 <= i < t.control.len() ==> (#[trigger] t.control[i]).target().index < t.b.blocks.len()
            && t.control[i].after().index < t.b.blocks.len()
}

/// Where control is after the steps that an operator adds, if it was at `flow` before.
pub open spec fn flows(t: Trans, after: Trans, flow: Flow) -> Flow {
    played(after.b.log, t.b.log.len(), after.b.blocks, flow)
}

/// Values are defined one after the other, from `n` on.
pub open spec fn is_fresh(values: Seq<Value>, n: nat) -> bool {
    &&& n + values.len() <= u32::MAX
    &&& forall|i: int| 0 <= i < values.len() ==> (#[trigger] values[i]).id == n + i
}

/// Values that are given patterns have them.
pub proof fn given_patterns_are_had(w: World, values: Seq<Value>, xs: Seq<int>, n: nat)
    requires
        is_fresh(values, n),
        xs.len() == values.len(),
    ensures
        w.with_all(values, xs).all(values) == xs,
        only_defines(w, w.with_all(values, xs), n),
    decreases values.len(),
{
    if values.len() > 0 {
        let rest = values.drop_last();
        let ys = xs.drop_last();
        given_patterns_are_had(w, rest, ys, n);
        patterns_beyond_do_not_matter(w, rest, ys, xs);
        let before = w.with_all(rest, xs);
        let after = w.with_all(values, xs);
        assert forall|i: int| 0 <= i < values.len() implies after.all(values)[i] == xs[i] by {
            if i < rest.len() {
                assert(rest[i] == values[i]);
                assert(before.all(rest)[i] == ys[i]);
            }
        }
        assert(after.all(values) =~= xs);
    } else {
        assert(w.with_all(values, xs).all(values) =~= xs);
    }
}

proof fn patterns_beyond_do_not_matter(w: World, values: Seq<Value>, xs: Seq<int>, ys: Seq<int>)
    requires
        values.len() <= xs.len(),
        values.len() <= ys.len(),
        forall|i: int| 0 <= i < values.len() ==> xs[i] == ys[i],
    ensures
        w.with_all(values, xs) == w.with_all(values, ys),
    decreases values.len(),
{
    if values.len() > 0 {
        patterns_beyond_do_not_matter(w, values.drop_last(), xs, ys);
    }
}

/// The patterns of values that are defined already stay.
pub proof fn patterns_stay(w: World, after: World, values: Seq<Value>, n: nat)
    requires
        keeps_values(w, after, n),
        forall|i: int| 0 <= i < values.len() ==> (#[trigger] values[i]).id < n,
    ensures
        after.all(values) == w.all(values),
{
    assert(after.all(values) =~= w.all(values));
}

proof fn fresh_lists_are_fresh(b: Built, types: Seq<ScalarType>)
    requires
        b.next + types.len() <= u32::MAX,
    ensures
        is_fresh(b.fresh_list(types), b.next),
{
}

/// A branch leads to its label, with the values that the label takes.
pub proof fn branches_lead_to_their_label(env: &FuncEnv, t: Trans, w: World, depth: u32)
    requires
        control::can_branch(t, depth as int),
    ensures
        ({
            let (after, result) = translate::translated(
                env,
                Operator::Br { relative_depth: depth },
                t,
            );
            let label = t.frame(depth as int);
            let n = label.branch_values();
            &&& result is Ok
            &&& !after.reachable
            &&& after.stack == t.stack.take(t.stack.len() - n)
            &&& flows(t, after, Flow::Falls(w)) == (Flow::Goes {
                via: t.b.log.len(),
                block: label.target(),
                args: w.all(t.stack.skip(t.stack.len() - n)),
                world: w,
            })
        }),
{
    broadcast use meaning::group_played;

}

/// A branch with a condition leads to its label, with the values that the label takes, if and only
/// if the condition is not zero. Otherwise control goes on with the next operator. Either way the
/// condition is taken from the stack and the rest of the stack stays.
#[verifier::spinoff_prover]
#[verifier::rlimit(40)]
pub proof fn conditional_branches_are_taken_if_not_zero(
    env: &FuncEnv,
    t: Trans,
    w: World,
    depth: u32,
)
    requires
        settled(t),
        t.stack.len() >= 1,
        control::can_branch(t.popped(1), depth as int),
        range_of(t.peek(0).ty) == 0x1_0000_0000,
        fits(w, t.peek(0)),
    ensures
        ({
            let (after, result) = translate::translated(
                env,
                Operator::BrIf { relative_depth: depth },
                t,
            );
            let label = t.frame(depth as int);
            let rest = t.stack.drop_last();
            let end = flows(t, after, Flow::Falls(w));
            &&& result is Ok
            &&& after.stack == rest
            &&& after.reachable == t.reachable
            &&& if w.val(t.peek(0)) != 0 {
                end matches Flow::Goes { block, args, world, .. } && block == label.target()
                    && args == w.all(rest.skip(rest.len() - label.branch_values()))
                    && only_defines(w, world, t.b.next)
            } else {
                end matches Flow::Falls(done) && only_defines(w, done, t.b.next)
            }
        }),
{
    broadcast use meaning::group_played;

    let (after, _) = translate::translated(env, Operator::BrIf { relative_depth: depth }, t);
    let cond = t.peek(0);
    let label = t.frame(depth as int);
    let rest = t.stack.drop_last();
    assert(rest =~= t.popped(1).stack);
    let i32_ty = IrType::Scalar(ScalarType::I32);
    conversions(cond.ty, i32_ty, w.val(cond));
    let (b0, tested) = t.b.bitcast_unless(cond, i32_ty);
    let (b1, on) = b0.create_block(Seq::empty());
    let (b2, test) = control::tested(b1, tested);
    let from = t.b.log.len();
    let blocks = after.b.blocks;
    comparisons(i32_ty, w.val(cond), 0);
    assert(Immediate::I32(0).number() % range_of(i32_ty) == 0);
    let w1 = played(b2.log, from, blocks, Flow::Falls(w))->Falls_0;
    assert(played(b2.log, from, blocks, Flow::Falls(w)) is Falls);
    assert(w1.val(test) == meaning::truth(w.val(cond) != 0));
    assert(only_defines(w, w1, t.b.next));
    let args = rest.skip(rest.len() - label.branch_values());
    patterns_stay(w, w1, args, t.b.next);
    assert(args =~= t.popped(1).top(label.branch_values()));
    assert(blocks[on.index as int] =~= Seq::<Value>::empty());
    assert(label.target() != on);
    let b3 = b2.step(
        Event::CondBr {
            cond: test,
            then_dest: label.target(),
            then_args: args,
            else_dest: on,
            else_args: Seq::empty(),
        },
        0,
    );
    let split = played(b3.log, from, blocks, Flow::Falls(w));
    if w.val(cond) != 0 {
        assert(split == Flow::Goes {
            via: b2.log.len(),
            block: label.target(),
            args: w1.all(args),
            world: w1,
        });
    } else {
        assert(split == Flow::Goes {
            via: b2.log.len(),
            block: on,
            args: w1.all(Seq::empty()),
            world: w1,
        });
        assert(w1.with_all(blocks[on.index as int], w1.all(Seq::empty())) == w1);
    }
    let b4 = b3.step(Event::SealBlock { block: on }, 0);
    assert(played(b4.log, from, blocks, Flow::Falls(w)) == split);
    let b5 = b4.step(Event::SwitchToBlock { block: on }, 0);
    assert(after.b == b5);
}

proof fn table_cases_are_found(t: Trans, depths: Seq<u32>, args: Seq<Value>, x: int, k: int)
    requires
        0 <= k <= depths.len() <= u32::MAX,
        k <= x,
    ensures
        case_for(control::table_cases(t, depths, args), x, k) == (if x < depths.len() {
            Some(x)
        } else {
            None
        }),
    decreases depths.len() - k,
{
    let cases = control::table_cases(t, depths, args);
    if k < depths.len() {
        assert(cases[k].value == k);
        if k < x {
            table_cases_are_found(t, depths, args, x, k + 1);
        }
    }
}

/// A branch by a table leads to the label that the number on the stack counts to, or to the default
/// label if there is none. All labels of the table take equally many values.
#[verifier::spinoff_prover]
#[verifier::rlimit(40)]
pub proof fn table_branches_lead_to_the_label_that_is_counted_to(
    env: &FuncEnv,
    t: Trans,
    w: World,
    targets: Vec<u32>,
    default: u32,
)
    requires
        settled(t),
        control::can_branch_by_table(t, targets@, default),
        range_of(t.peek(0).ty) == 0x1_0000_0000,
        fits(w, t.peek(0)),
        forall|i: int|
            0 <= i < targets@.len() ==> t.frame(#[trigger] targets@[i] as int).branch_values()
                == t.frame(default as int).branch_values(),
    ensures
        ({
            let (after, result) = translate::translated(
                env,
                Operator::BrTable { targets, default },
                t,
            );
            let x = w.val(t.peek(0));
            let depth = if x < targets@.len() {
                targets@[x]
            } else {
                default
            };
            let label = t.frame(depth as int);
            let rest = t.stack.drop_last();
            &&& result is Ok
            &&& !after.reachable
            &&& flows(t, after, Flow::Falls(w)) matches Flow::Goes { block, args, world, .. }
                && block == label.target() && args == w.all(
                rest.skip(rest.len() - label.branch_values()),
            ) && only_defines(w, world, t.b.next)
        }),
{
    broadcast use meaning::group_played;

    let op = Operator::BrTable { targets, default };
    let (after, _) = translate::translated(env, op, t);
    let rest = t.stack.drop_last();
    assert(rest =~= t.popped(1).stack);
    let u32_ty = IrType::Scalar(ScalarType::U32);
    let selector = t.peek(0);
    let x = w.val(selector);
    conversions(selector.ty, u32_ty, x);
    assert(meaning::number(selector.ty, x) % 0x1_0000_0000 == x);
    least_depth_is_one_of_them(targets@, default);
    let n = t.frame(control::least_depth(targets@, default) as int).branch_values();
    assert(n == t.frame(default as int).branch_values());
    let args = rest.skip(rest.len() - n);
    assert(args =~= t.popped(1).top(n));
    table_cases_are_found(t, targets@, args, x, 0);
    let (b1, index) = if selector.ty == u32_ty {
        (t.b, selector)
    } else {
        t.b.convert(Conversion::Cast, selector, u32_ty)
    };
    let w1 = played(b1.log, t.b.log.len(), after.b.blocks, Flow::Falls(w))->Falls_0;
    assert(played(b1.log, t.b.log.len(), after.b.blocks, Flow::Falls(w)) is Falls);
    assert(w1.val(index) == x && only_defines(w, w1, t.b.next));
    patterns_stay(w, w1, args, t.b.next);
    if x < targets@.len() {
        assert(t.frame(targets@[x] as int).branch_values() == n);
    }
}

proof fn least_depth_is_one_of_them(depths: Seq<u32>, default: u32)
    ensures
        control::least_depth(depths, default) == default || exists|i: int|
            0 <= i < depths.len() && #[trigger] depths[i] == control::least_depth(depths, default),
    decreases depths.len(),
{
    if depths.len() > 0 {
        let rest = depths.drop_last();
        least_depth_is_one_of_them(rest, default);
        let least = control::least_depth(rest, default);
        if depths.last() < least {
            assert(depths[depths.len() - 1] == control::least_depth(depths, default));
        } else if least != default {
            let i = choose|i: int| 0 <= i < rest.len() && #[trigger] rest[i] == least;
            assert(depths[i] == least);
        }
    }
}

/// A block is entered with the stack as it is. Its label leads to code that nothing led to before,
/// which takes as many values as the block has results; the block starts below its parameters.
#[verifier::spinoff_prover]
#[verifier::rlimit(40)]
pub proof fn blocks_are_entered(env: &FuncEnv, t: Trans, w: World, ty: BlockType)
    requires
        settled(t),
        env.knows_block(ty),
        env.block_params(ty).len() <= t.stack.len() <= usize::MAX,
        env.block_results(ty).len() <= usize::MAX,
        t.b.has_room(env.block_results(ty).len()),
    ensures
        ({
            let (after, result) = translate::translated(env, Operator::Block { blockty: ty }, t);
            let label = after.control.last();
            &&& result is Ok
            &&& after.stack == t.stack
            &&& after.control.drop_last() == t.control
            &&& flows(t, after, Flow::Falls(w)) == Flow::Falls(w)
            &&& label.target() == label.after()
            &&& label.target().index == t.b.blocks.len()
            &&& label.branch_values() == label.result_count() == env.block_results(ty).len()
            &&& after.b.blocks[label.after().index as int].len() == env.block_results(ty).len()
            &&& label.base() == t.stack.len() - env.block_params(ty).len()
            &&& !label.is_left()
        }),
{
    broadcast use meaning::group_played;

    let (after, _) = translate::translated(env, Operator::Block { blockty: ty }, t);
    assert(after.control.drop_last() =~= t.control);
}

/// A loop is entered with its parameters on the stack. Whatever goes to its label, from inside or
/// from above, arrives at the same place, with the values that it brings on the stack.
#[verifier::spinoff_prover]
#[verifier::rlimit(40)]
pub proof fn loops_start_over_at_their_label(
    env: &FuncEnv,
    t: Trans,
    w: World,
    ty: BlockType,
    via: nat,
    given: Seq<int>,
)
    requires
        settled(t),
        env.knows_block(ty),
        env.block_params(ty).len() <= t.stack.len() <= usize::MAX,
        env.block_results(ty).len() <= usize::MAX,
        t.b.has_room(env.block_params(ty).len() + env.block_results(ty).len()),
        given.len() == env.block_params(ty).len(),
    ensures
        ({
            let (after, result) = translate::translated(env, Operator::Loop { blockty: ty }, t);
            let label = after.control.last();
            let n = env.block_params(ty).len();
            let below = t.stack.take(t.stack.len() - n);
            let again = flows(
                t,
                after,
                Flow::Goes { via, block: label.target(), args: given, world: w },
            );
            &&& result is Ok
            &&& after.control.drop_last() == t.control
            &&& after.stack.len() == t.stack.len()
            &&& after.stack.take(t.stack.len() - n) == below
            &&& flows(t, after, Flow::Falls(w)) matches Flow::Falls(done) && done.all(after.stack)
                == w.all(t.stack) && only_defines(w, done, t.b.next)
            &&& again matches Flow::Falls(done) && done.all(after.stack.skip(below.len() as int))
                == given && only_defines(w, done, t.b.next)
            &&& label.branch_values() == n
            &&& label.result_count() == env.block_results(ty).len()
            &&& label.base() == below.len()
            &&& label.after() != label.target()
            &&& after.b.blocks[label.after().index as int].len() == env.block_results(ty).len()
            &&& label.after().index >= t.b.blocks.len()
        }),
{
    broadcast use meaning::group_played;

    let (after, _) = translate::translated(env, Operator::Loop { blockty: ty }, t);
    let n = env.block_params(ty).len();
    let below = t.stack.take(t.stack.len() - n);
    let top = t.stack.skip(t.stack.len() - n);
    let from = t.b.log.len();
    let blocks = after.b.blocks;
    let (b1, head) = t.b.create_block(env.block_params(ty));
    let (b2, on) = b1.create_block(env.block_results(ty));
    let b3 = b2.step(Event::Br { dest: head, args: top }, 0);
    let params = b3.params(head);
    assert(params == t.b.fresh_list(env.block_params(ty)));
    assert(blocks[head.index as int] == params);
    fresh_lists_are_fresh(t.b, env.block_params(ty));
    assert(after.control.drop_last() =~= t.control);
    assert(after.stack.take(t.stack.len() - n) =~= below);
    assert(after.stack.skip(below.len() as int) =~= params);
    given_patterns_are_had(w, params, w.all(top), t.b.next);
    given_patterns_are_had(w, params, given, t.b.next);
    let first = w.with_all(params, w.all(top));
    assert(played(b2.log, from, blocks, Flow::Falls(w)) == Flow::Falls(w));
    assert(played(b3.log, from, blocks, Flow::Falls(w)) == Flow::Goes {
        via: b2.log.len(),
        block: head,
        args: w.all(top),
        world: w,
    });
    assert(flows(t, after, Flow::Falls(w)) == Flow::Falls(first));
    assert(first.all(after.stack) =~= w.all(t.stack)) by {
        assert forall|i: int| 0 <= i < t.stack.len() implies first.all(after.stack)[i] == w.all(
            t.stack,
        )[i] by {
            if i < below.len() {
                assert(after.stack[i] == t.stack[i]);
            } else {
                assert(after.stack[i] == params[i - below.len()]);
                assert(first.all(params)[i - below.len()] == w.all(top)[i - below.len()]);
            }
        }
    }
    let coming = Flow::Goes { via, block: head, args: given, world: w };
    assert(played(b2.log, from, blocks, coming) == coming);
    assert(played(b3.log, from, blocks, coming) == coming);
}

} // verus!

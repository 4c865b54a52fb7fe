//! Code that cannot be reached: that it does nothing, and where control comes back.
use vstd::prelude::*;
use crate::wasm::builder::Step;
use crate::wasm::control;
use crate::wasm::flow::{flows, given_patterns_are_had, is_fresh, settled};
use crate::wasm::ir::Event;
use crate::wasm::meaning::{self, only_defines, played, Flow, World};
use crate::wasm::operator::{FuncEnv, Operator};
use crate::wasm::state::{ControlStackFrame, ElseData, Trans};
use crate::wasm::translate;

verus! {

/// A branch, taken or not, is remembered, so that the code after the structure that it leaves counts
/// as reached. A branch to a loop does not leave it. Other structures are as before.
pub proof fn branches_are_remembered(env: &FuncEnv, t: Trans, depth: u32, conditional: bool)
    requires
        settled(t),
        conditional ==> t.stack.len() >= 1 && control::can_branch(t.popped(1), depth as int),
        !conditional ==> control::can_branch(t, depth as int),
    ensures
        ({
            let op = if conditional {
                Operator::BrIf { relative_depth: depth }
            } else {
                Operator::Br { relative_depth: depth }
            };
            let (after, _) = translate::translated(env, op, t);
            let label = t.frame(depth as int);
            let now = after.frame(depth as int);
            &&& after.control.len() == t.control.len()
            &&& label !is Loop ==> now.is_left()
            &&& now.target() == label.target() && now.after() == label.after() && now.base()
                == label.base() && now.branch_values() == label.branch_values()
                && now.result_count() == label.result_count()
            &&& forall|i: int|
                0 <= i < t.control.len() && i != t.control.len() - 1 - depth
                    ==> #[trigger] after.control[i] == t.control[i]
        }),
{
}

/// Control that is on its way, or nowhere, is where it was after an operator in code that cannot be
/// reached, unless the operator ends a structure or begins an `else`. The stack stays as it is.
pub proof fn what_cannot_be_reached_does_nothing(env: &FuncEnv, op: Operator, t: Trans, flow: Flow)
    requires
        settled(t),
        op !is End && op !is Else,
        flow !is Falls,
    ensures
        ({
            let (after, result) = translate::skipped(env, op, t);
            &&& after.stack == t.stack
            &&& after.reachable == t.reachable
            &&& flows(t, after, flow) == flow
            &&& result is Ok || op is If
        }),
{
    broadcast use meaning::group_played;

    let (after, _) = translate::skipped(env, op, t);
    match op {
        Operator::If { .. } => {
            let (b1, block) = t.b.create_detached_block();
            assert(played(b1.log, t.b.log.len(), after.b.blocks, flow) == flow);
        },
        _ => {},
    }
}

/// A structure that begins and ends in code that cannot be reached leaves everything as it was.
pub proof fn structures_that_cannot_be_reached_are_skipped(
    env: &FuncEnv,
    op: Operator,
    t: Trans,
    flow: Flow,
)
    requires
        settled(t),
        !t.reachable,
        t.stack.len() <= usize::MAX,
        op is Block || op is Loop || (op matches Operator::If { blockty } && env.knows_block(
            blockty,
        )),
        flow !is Falls,
        flow matches Flow::Goes { block, .. } ==> block.index < t.b.blocks.len(),
    ensures
        ({
            let inside = translate::skipped(env, op, t).0;
            let after = translate::skipped(env, Operator::End, inside).0;
            &&& inside.control.len() == t.control.len() + 1
            &&& after.control == t.control
            &&& after.stack == t.stack
            &&& !after.reachable
            &&& flows(t, after, flow) == flow
        }),
{
    what_cannot_be_reached_does_nothing(env, op, t, flow);
    let inside = translate::skipped(env, op, t).0;
    let after = translate::skipped(env, Operator::End, inside).0;
    let frame = inside.control.last();
    assert(!frame.is_left());
    assert(!translate::continues(frame));
    assert(after.control =~= t.control);
    assert(after.stack =~= t.stack);
    assert(after.b == inside.b);
}

/// The end of a structure, where it cannot be reached from above. If control leaves the structure by
/// a branch, or passes by the consequent of an `if`, the code after it can be reached: what is on its
/// way there arrives, with the values that it brings on the stack, above what was there when the
/// structure started. Otherwise that code cannot be reached.
pub proof fn ends_are_reached_by_branches(
    env: &FuncEnv,
    t: Trans,
    w: World,
    via: nat,
    given: Seq<int>,
    n: nat,
)
    requires
        settled(t),
        !t.reachable,
        t.control.len() > 0,
        0 <= t.control.last().base() <= t.stack.len(),
        is_fresh(t.b.blocks[t.control.last().after().index as int], n),
        given.len() == t.b.blocks[t.control.last().after().index as int].len(),
    ensures
        ({
            let (after, result) = translate::skipped(env, Operator::End, t);
            let frame = t.control.last();
            let passes = match frame {
                ControlStackFrame::If { head_is_reachable, consequent_ends_reachable, .. } =>
                    head_is_reachable && consequent_ends_reachable != Some(false),
                _ => false,
            };
            let left = Flow::Goes { via, block: frame.after(), args: given, world: w };
            &&& result is Ok
            &&& after.control == t.control.drop_last()
            &&& after.stack.take(frame.base()) == t.stack.take(frame.base())
            &&& after.reachable == (frame.is_left() || passes)
            &&& if after.reachable {
                flows(t, after, left) matches Flow::Falls(done) && done.all(
                    after.stack.skip(frame.base()),
                ) == given && only_defines(w, done, n)
            } else {
                flows(t, after, left) == left && after.stack.len() == frame.base()
            }
        }),
{
    broadcast use meaning::group_played;

    let (after, _) = translate::skipped(env, Operator::End, t);
    let frame = t.control.last();
    let base = frame.base();
    let on = frame.after();
    let params = t.b.blocks[on.index as int];
    let from = t.b.log.len();
    let blocks = after.b.blocks;
    let left = Flow::Goes { via, block: on, args: given, world: w };
    assert(after.stack.take(base) =~= t.stack.take(base));
    let b1 = match frame {
        ControlStackFrame::Loop { header, .. } => t.b.step(Event::SealBlock { block: header }, 0),
        _ => t.b,
    };
    assert(played(b1.log, from, blocks, left) == left);
    if translate::continues(frame) {
        assert(after.stack.skip(base) =~= params);
        given_patterns_are_had(w, params, given, n);
        let b2 = b1.step(Event::SwitchToBlock { block: on }, 0);
        assert(played(b2.log, from, blocks, left) == Flow::Falls(w.with_all(params, given)));
    }
}

/// An `else`, where the end of the consequent cannot be reached. If the head of the `if` can be
/// reached, what came from there because the condition was zero arrives in the `else`, with the stack
/// as it was at the head; otherwise the `else` cannot be reached either.
#[verifier::spinoff_prover]
#[verifier::rlimit(40)]
pub proof fn alternatives_are_entered_past_the_consequent(
    env: &FuncEnv,
    t: Trans,
    head: World,
    given: Seq<int>,
    via: nat,
    n: nat,
)
    requires
        settled(t),
        !t.reachable,
        n <= t.b.next,
        translate::ready_unreachable(env, Operator::Else, t),
        t.control.last() matches ControlStackFrame::If { else_data, blocktype, .. } && given.len()
            == env.block_params(blocktype).len() && match else_data {
            ElseData::NoElse { branch, placeholder } => placeholder.index < t.b.blocks.len(),
            ElseData::WithElse { else_block } => else_block.index < t.b.blocks.len() && is_fresh(
                t.b.blocks[else_block.index as int],
                n,
            ) && t.b.blocks[else_block.index as int].len() == given.len(),
        },
    ensures
        ({
            let (after, result) = translate::skipped(env, Operator::Else, t);
            let frame = t.control.last();
            &&& result is Ok
            &&& after.control.len() == t.control.len()
            &&& after.control.last().after() == frame.after()
            &&& after.control.last().is_left() == frame.is_left()
            &&& after.control.last() matches ControlStackFrame::If {
                consequent_ends_reachable,
                ..
            } && consequent_ends_reachable == Some(false)
            &&& match frame {
                ControlStackFrame::If {
                    else_data,
                    original_stack_size,
                    head_is_reachable,
                    ..
                } => {
                    let from_head = match else_data {
                        ElseData::NoElse { branch, placeholder } => Flow::Goes {
                            via: branch as nat,
                            block: placeholder,
                            args: given,
                            world: head,
                        },
                        ElseData::WithElse { else_block } => Flow::Goes {
                            via,
                            block: else_block,
                            args: given,
                            world: head,
                        },
                    };
                    &&& after.reachable == head_is_reachable
                    &&& head_is_reachable ==> after.stack == t.stack.take(
                        original_stack_size as int,
                    )
                    &&& head_is_reachable ==> (flows(t, after, from_head) matches Flow::Falls(done)
                        && only_defines(head, done, n))
                    &&& !head_is_reachable ==> flows(t, after, from_head) == from_head
                },
                _ => false,
            }
        }),
{
    broadcast use meaning::group_played;

    let (after, _) = translate::skipped(env, Operator::Else, t);
    let from = t.b.log.len();
    let blocks = after.b.blocks;
    match t.control.last() {
        ControlStackFrame::If { else_data, blocktype, head_is_reachable, .. } => {
            if head_is_reachable {
                match else_data {
                    ElseData::NoElse { branch, placeholder } => {
                        let params = env.block_params(blocktype);
                        let (b1, else_block) = t.b.create_block(params);
                        let led: Step = Event::ChangeJumpDestination {
                            branch,
                            from: placeholder,
                            to: else_block,
                        };
                        let b2 = b1.step(led, 0);
                        let b3 = b2.step(Event::SealBlock { block: else_block }, 0);
                        let b4 = b3.step(Event::SwitchToBlock { block: else_block }, 0);
                        assert(after.b == b4);
                        given_patterns_are_had(head, t.b.fresh_list(params), given, t.b.next);
                        assert(blocks[else_block.index as int] == t.b.fresh_list(params));
                        let coming = Flow::Goes {
                            via: branch as nat,
                            block: placeholder,
                            args: given,
                            world: head,
                        };
                        let led = Flow::Goes {
                            via: branch as nat,
                            block: else_block,
                            args: given,
                            world: head,
                        };
                        assert(played(b1.log, from, blocks, coming) == coming);
                        assert(played(b2.log, from, blocks, coming) == led);
                        assert(played(b3.log, from, blocks, coming) == led);
                    },
                    ElseData::WithElse { else_block } => {
                        given_patterns_are_had(head, t.b.blocks[else_block.index as int], given, n);
                    },
                }
            }
        },
        _ => {},
    }
}

} // verus!

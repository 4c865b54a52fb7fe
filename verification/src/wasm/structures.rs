//! Where conditionals, the ends of control structures, returns and calls lead.
use vstd::prelude::*;
use crate::types::{Immediate, ScalarType};
use crate::wasm::control;
use crate::wasm::flow::{
    self, flows, given_patterns_are_had, is_fresh, patterns_stay, settled,
};
use crate::wasm::builder::Step;
use crate::wasm::ir::{BlockId, Event, IrType, Value};
use crate::wasm::meaning::{
    self, comparisons, fits, only_defines, played, range_of, Call, Flow, World,
};
use crate::wasm::operator::{self, BlockType, CallTarget, FuncEnv, Operator};
use crate::wasm::state::{ControlStackFrame, ElseData, Trans};
use crate::wasm::translate;

verus! {

/// An `if` takes its condition from the stack. If it is not zero, control goes on in the consequent,
/// with the parameters on the stack. Otherwise it goes to where the `else` will be, or, as long as
/// there is none, to the code after the `if`, with the parameters.
#[verifier::spinoff_prover]
#[verifier::rlimit(40)]
pub proof fn conditionals_enter_the_consequent_if_not_zero(
    env: &FuncEnv,
    t: Trans,
    w: World,
    ty: BlockType,
)
    requires
        settled(t),
        env.knows_block(ty),
        env.block_params(ty).len() < t.stack.len() <= usize::MAX,
        env.block_results(ty).len() <= usize::MAX,
        t.b.has_room(env.block_params(ty).len() + env.block_results(ty).len() + 2),
        t.peek(0).ty == IrType::Scalar(ScalarType::I32),
        fits(w, t.peek(0)),
    ensures
        ({
            let (after, result) = translate::translated(env, Operator::If { blockty: ty }, t);
            let frame = after.control.last();
            let n = env.block_params(ty).len();
            let rest = t.stack.drop_last();
            let given = rest.skip(rest.len() - n);
            let end = flows(t, after, Flow::Falls(w));
            &&& result is Ok
            &&& after.control.drop_last() == t.control
            &&& after.stack == rest + given
            &&& frame.branch_values() == frame.result_count() == env.block_results(ty).len()
            &&& frame.target() == frame.after()
            &&& frame.after().index >= t.b.blocks.len()
            &&& after.b.blocks[frame.after().index as int].len() == env.block_results(ty).len()
            &&& frame.base() == rest.len() - n
            &&& !frame.is_left()
            &&& frame matches ControlStackFrame::If {
                head_is_reachable,
                consequent_ends_reachable,
                ..
            } && head_is_reachable == t.reachable && consequent_ends_reachable is None
            &&& if w.val(t.peek(0)) != 0 {
                end matches Flow::Falls(done) && only_defines(w, done, t.b.next)
            } else {
                end matches Flow::Goes { via, block, args, world } && only_defines(
                    w,
                    world,
                    t.b.next,
                ) && args == w.all(given) && match frame {
                    ControlStackFrame::If { else_data, .. } => match else_data {
                        ElseData::NoElse { branch, placeholder } => branch == via && placeholder
                            == block && block == frame.after(),
                        ElseData::WithElse { else_block } => else_block == block && block
                            != frame.after(),
                    },
                    _ => false,
                }
            }
        }),
{
    broadcast use meaning::group_played;

    let (after, _) = translate::translated(env, Operator::If { blockty: ty }, t);
    let params = env.block_params(ty);
    let results = env.block_results(ty);
    let n = params.len();
    let cond = t.peek(0);
    let rest = t.stack.drop_last();
    let given = rest.skip(rest.len() - n);
    assert(rest =~= t.popped(1).stack);
    assert(given =~= t.popped(1).top(n));
    assert(after.control.drop_last() =~= t.control);
    let from = t.b.log.len();
    let blocks = after.b.blocks;
    let i32_ty = IrType::Scalar(ScalarType::I32);
    comparisons(i32_ty, w.val(cond), 0);
    assert(Immediate::I32(0).number() % range_of(i32_ty) == 0);
    let (b1, test) = control::tested(t.b, cond);
    let (b2, on) = b1.create_block(Seq::empty());
    let (b3, destination) = b2.create_block(results);
    let start = Flow::Falls(w);
    let w1 = played(b1.log, from, blocks, start)->Falls_0;
    assert(played(b1.log, from, blocks, start) is Falls);
    assert(w1.val(test) == meaning::truth(w.val(cond) != 0));
    assert(only_defines(w, w1, t.b.next));
    assert(played(b3.log, from, blocks, start) == Flow::Falls(w1));
    patterns_stay(w, w1, given, t.b.next);
    assert(blocks[on.index as int] =~= Seq::<Value>::empty());
    let none = w1.all(Seq::<Value>::empty());
    assert(w1.with_all(blocks[on.index as int], none) == w1);
    let b4 = if params == results {
        let b4 = b3.step(
            Event::CondBr {
                cond: test,
                then_dest: on,
                then_args: Seq::empty(),
                else_dest: destination,
                else_args: given,
            },
            0,
        );
        let via = b3.log.len();
        assert(played(b4.log, from, blocks, start) == (if w.val(cond) != 0 {
            Flow::Goes { via, block: on, args: none, world: w1 }
        } else {
            Flow::Goes { via, block: destination, args: w1.all(given), world: w1 }
        }));
        b4
    } else {
        let (c1, else_block) = b3.create_block(params);
        assert(played(c1.log, from, blocks, start) == Flow::Falls(w1));
        let c2 = c1.step(
            Event::CondBr {
                cond: test,
                then_dest: on,
                then_args: Seq::empty(),
                else_dest: else_block,
                else_args: given,
            },
            0,
        );
        let via = c1.log.len();
        let split = played(c2.log, from, blocks, start);
        assert(split == (if w.val(cond) != 0 {
            Flow::Goes { via, block: on, args: none, world: w1 }
        } else {
            Flow::Goes { via, block: else_block, args: w1.all(given), world: w1 }
        }));
        let b4 = c2.step(Event::SealBlock { block: else_block }, 0);
        assert(played(b4.log, from, blocks, start) == split);
        b4
    };
    let split = played(b4.log, from, blocks, start);
    let b5 = b4.step(Event::SealBlock { block: on }, 0);
    assert(played(b5.log, from, blocks, start) == split);
    assert(after.b == b5.step(Event::SwitchToBlock { block: on }, 0));
}

/// What is known of an `if` that has no `else` yet: the code after it takes what its `else` would.
pub open spec fn is_conditional(env: &FuncEnv, frame: ControlStackFrame) -> bool {
    frame matches ControlStackFrame::If { else_data, num_return_values, blocktype, .. } && (
    else_data is NoElse ==> num_return_values == env.block_params(blocktype).len())
}

/// At an `else`, the consequent that ends there goes to the code after the `if` with its results.
/// What came from the head of the `if` because its condition was zero arrives in the `else`, and
/// what left the `if` by a branch stays on its way.
#[verifier::spinoff_prover]
#[verifier::rlimit(40)]
pub proof fn alternatives_are_entered_from_the_head(
    env: &FuncEnv,
    t: Trans,
    w: World,
    head: World,
    given: Seq<int>,
    via: nat,
    n: nat,
)
    requires
        settled(t),
        t.reachable,
        n <= t.b.next,
        control::can_enter_else(env, t),
        is_conditional(env, t.control.last()),
        t.control.last() matches ControlStackFrame::If {
            else_data,
            blocktype,
            destination,
            head_is_reachable,
            ..
        } && head_is_reachable && given.len() == env.block_params(blocktype).len() && match else_data {
            ElseData::NoElse { branch, placeholder } => placeholder == destination && branch != via
                && branch < t.b.log.len(),
            ElseData::WithElse { else_block } => else_block != destination && else_block.index
                < t.b.blocks.len() && n <= t.b.next && is_fresh(
                t.b.blocks[else_block.index as int],
                n,
            ) && t.b.blocks[else_block.index as int].len() == given.len(),
        },
    ensures
        ({
            let (after, result) = translate::translated(env, Operator::Else, t);
            let frame = t.control.last();
            let m = frame.result_count();
            let from_head = match frame {
                ControlStackFrame::If { else_data, .. } => match else_data {
                    ElseData::NoElse { branch, placeholder } => Flow::Goes {
                        via: branch as nat,
                        block: placeholder,
                        args: given,
                        world: head,
                    },
                    ElseData::WithElse { else_block } => Flow::Goes {
                        via,
                        block: else_block,
                        args: given,
                        world: head,
                    },
                },
                _ => Flow::Lost,
            };
            let left = Flow::Goes { via, block: frame.after(), args: given, world: head };
            &&& result is Ok
            &&& after.reachable
            &&& after.stack == t.stack.take(t.stack.len() - m)
            &&& after.control.len() == t.control.len()
            &&& after.control.last() matches ControlStackFrame::If {
                head_is_reachable,
                consequent_ends_reachable,
                ..
            } && head_is_reachable && consequent_ends_reachable == Some(true)
            &&& after.control.last().after() == frame.after()
            &&& after.control.last().is_left() == frame.is_left()
            &&& after.control.last().base() == frame.base()
            &&& flows(t, after, Flow::Falls(w)) matches Flow::Goes { block, args, world, .. }
                && block == frame.after() && args == w.all(t.stack.skip(t.stack.len() - m))
                && world == w
            &&& flows(t, after, from_head) matches Flow::Falls(done) && only_defines(head, done, n)
            &&& flows(t, after, left) == left
        }),
{
    broadcast use meaning::group_played;

    let (after, _) = translate::translated(env, Operator::Else, t);
    let frame = t.control.last();
    let m = frame.result_count();
    let from = t.b.log.len();
    let blocks = after.b.blocks;
    let top = t.stack.skip(t.stack.len() - m);
    assert(top =~= t.top(m));
    match frame {
        ControlStackFrame::If { else_data, destination, blocktype, .. } => match else_data {
            ElseData::NoElse { branch, placeholder } => {
                let params = env.block_params(blocktype);
                let (b1, else_block) = t.b.create_block(params);
                let b2 = b1.step(Event::Br { dest: destination, args: top }, 0);
                let b3 = b2.step(
                    Event::ChangeJumpDestination { branch, from: placeholder, to: else_block },
                    0,
                );
                let b4 = b3.step(Event::SealBlock { block: else_block }, 0);
                let b5 = b4.step(Event::SwitchToBlock { block: else_block }, 0);
                assert(after.b == b5);
                assert(else_block != destination);
                let going = Flow::Goes {
                    via: b1.log.len(),
                    block: destination,
                    args: w.all(top),
                    world: w,
                };
                let start = Flow::Falls(w);
                assert(played(b1.log, from, blocks, start) == start);
                assert(played(b2.log, from, blocks, start) == going);
                assert(played(b3.log, from, blocks, start) == going);
                assert(played(b4.log, from, blocks, start) == going);
                given_patterns_are_had(head, t.b.fresh_list(params), given, t.b.next);
                assert(blocks[else_block.index as int] == t.b.fresh_list(params));
                let coming = Flow::Goes {
                    via: branch as nat,
                    block: placeholder,
                    args: given,
                    world: head,
                };
                let led = Flow::Goes {
                    via: branch as nat,
                    block: else_block,
                    args: given,
                    world: head,
                };
                assert(played(b1.log, from, blocks, coming) == coming);
                assert(played(b2.log, from, blocks, coming) == coming);
                assert(played(b3.log, from, blocks, coming) == led);
                assert(played(b4.log, from, blocks, coming) == led);
                let left = Flow::Goes { via, block: destination, args: given, world: head };
                assert(played(b1.log, from, blocks, left) == left);
                assert(played(b2.log, from, blocks, left) == left);
                assert(played(b3.log, from, blocks, left) == left);
                assert(played(b4.log, from, blocks, left) == left);
            },
            ElseData::WithElse { else_block } => {
                let b1 = t.b.step(Event::Br { dest: destination, args: top }, 0);
                let b2 = b1.step(Event::SwitchToBlock { block: else_block }, 0);
                assert(after.b == b2);
                let start = Flow::Falls(w);
                assert(played(b1.log, from, blocks, start) == Flow::Goes {
                    via: t.b.log.len(),
                    block: destination,
                    args: w.all(top),
                    world: w,
                });
                given_patterns_are_had(head, t.b.blocks[else_block.index as int], given, n);
                let coming = Flow::Goes { via, block: else_block, args: given, world: head };
                assert(played(b1.log, from, blocks, coming) == coming);
                let left = Flow::Goes { via, block: destination, args: given, world: head };
                assert(played(b1.log, from, blocks, left) == left);
            },
        },
        _ => {},
    }
}

proof fn ends_are_arrived_at(
    env: &FuncEnv,
    t: Trans,
    w: World,
    via: nat,
    given: Seq<int>,
)
    requires
        control::can_end(t),
    ensures
        ({
            let after = translate::translated(env, Operator::End, t).0;
            let frame = t.control.last();
            let params = t.b.blocks[frame.after().index as int];
            &&& flows(t, after, Flow::Falls(w)) == Flow::Falls(
                w.with_all(params, w.all(t.top(frame.result_count()))),
            )
            &&& flows(
                t,
                after,
                Flow::Goes { via, block: frame.after(), args: given, world: w },
            ) == Flow::Falls(w.with_all(params, given))
        }),
{
    let (after, _) = translate::translated(env, Operator::End, t);
    assert(after == control::ended(t));
    let frame = t.control.last();
    let on = frame.after();
    let results = t.top(frame.result_count());
    let from = t.b.log.len();
    let blocks = after.b.blocks;
    let params = t.b.blocks[on.index as int];
    let l1 = t.b.log.push(Event::Br { dest: on, args: results });
    let l2 = l1.push(Event::SwitchToBlock { block: on });
    let l3 = l2.push(Event::SealBlock { block: on });
    ends_play(t.b.log, on, results, blocks, Flow::Falls(w));
    let coming = Flow::Goes { via, block: on, args: given, world: w };
    ends_play(t.b.log, on, results, blocks, coming);
    match frame {
        ControlStackFrame::Loop { header, .. } => {
            assert(after.b.log == l3.push(Event::SealBlock { block: header }));
            meaning::played_one_more(
                l3,
                Event::SealBlock { block: header },
                from,
                blocks,
                Flow::Falls(w),
            );
            meaning::played_one_more(l3, Event::SealBlock { block: header }, from, blocks, coming);
        },
        _ => {
            assert(after.b.log == l3);
        },
    }
}

proof fn ends_play(
    log: Seq<Step>,
    on: BlockId,
    results: Seq<Value>,
    blocks: Seq<Seq<Value>>,
    flow: Flow,
)
    ensures
        ({
            let l1 = log.push(Event::Br { dest: on, args: results });
            let l2 = l1.push(Event::SwitchToBlock { block: on });
            let l3 = l2.push(Event::SealBlock { block: on });
            let params = blocks[on.index as int];
            let end = played(l3, log.len(), blocks, flow);
            match flow {
                Flow::Falls(w) => end == Flow::Falls(w.with_all(params, w.all(results))),
                Flow::Goes { block, args, world, .. } => block == on ==> end == Flow::Falls(
                    world.with_all(params, args),
                ),
                _ => true,
            }
        }),
{
    let br: Step = Event::Br { dest: on, args: results };
    let switch: Step = Event::SwitchToBlock { block: on };
    let l1 = log.push(br);
    let l2 = l1.push(switch);
    meaning::played_one_more(log, br, log.len(), blocks, flow);
    meaning::played_one_more(l1, switch, log.len(), blocks, flow);
    meaning::played_one_more(l2, Event::SealBlock { block: on }, log.len(), blocks, flow);
}

/// The end of a structure: control that reaches it goes on with the results on the stack, above what
/// was there when the structure started. What goes to the label of a block or an `if` arrives here
/// too, with the values that it brings in place of the results.
pub proof fn structures_end_where_their_label_leads(
    env: &FuncEnv,
    t: Trans,
    w: World,
    via: nat,
    given: Seq<int>,
    n: nat,
)
    requires
        settled(t),
        control::can_end(t),
        t.control.last().result_count() == t.b.blocks[t.control.last().after().index as int].len(),
        is_fresh(t.b.blocks[t.control.last().after().index as int], n),
        given.len() == t.control.last().result_count(),
    ensures
        ({
            let (after, result) = translate::translated(env, Operator::End, t);
            let frame = t.control.last();
            let results = t.stack.skip(t.stack.len() - frame.result_count());
            let below = t.stack.take(frame.base());
            let reached = flows(t, after, Flow::Falls(w));
            let left = flows(
                t,
                after,
                Flow::Goes { via, block: frame.after(), args: given, world: w },
            );
            &&& result is Ok
            &&& after.control == t.control.drop_last()
            &&& after.reachable == t.reachable
            &&& after.stack.take(frame.base()) == below
            &&& after.stack.len() == frame.base() + frame.result_count()
            &&& reached matches Flow::Falls(done) && done.all(after.stack.skip(frame.base()))
                == w.all(results) && only_defines(w, done, n)
            &&& left matches Flow::Falls(done) && done.all(after.stack.skip(frame.base())) == given
                && only_defines(w, done, n)
        }),
{
    let (after, _) = translate::translated(env, Operator::End, t);
    let frame = t.control.last();
    let results = t.stack.skip(t.stack.len() - frame.result_count());
    assert(results =~= t.top(frame.result_count()));
    let params = t.b.blocks[frame.after().index as int];
    ends_are_arrived_at(env, t, w, via, given);
    given_patterns_are_had(w, params, w.all(results), n);
    given_patterns_are_had(w, params, given, n);
    assert(after.stack == t.stack.take(frame.base()) + params);
    assert(after.stack.take(frame.base()) =~= t.stack.take(frame.base()));
    assert(after.stack.skip(frame.base()) =~= params);
}

/// A return leaves the function with the value on top, if the function has a result.
pub proof fn returns_leave_the_function(env: &FuncEnv, t: Trans, w: World)
    requires
        t.control.len() > 0,
        t.control[0].result_count() <= 1,
        t.control[0].result_count() <= t.stack.len(),
    ensures
        ({
            let (after, result) = translate::translated(env, Operator::Return, t);
            &&& result is Ok
            &&& !after.reachable
            &&& flows(t, after, Flow::Falls(w)) == (Flow::Returns {
                value: if t.control[0].result_count() == 1 {
                    Some(w.val(t.stack.last()))
                } else {
                    None
                },
                world: w,
            })
        }),
{
    broadcast use meaning::group_played;

}

/// Code that cannot be reached fails when it is.
pub proof fn unreachable_code_fails(env: &FuncEnv, t: Trans, w: World)
    ensures
        ({
            let (after, result) = translate::translated(env, Operator::Unreachable, t);
            &&& result is Ok
            &&& !after.reachable
            &&& flows(t, after, Flow::Falls(w)) is Fails
        }),
{
    broadcast use meaning::group_played;

}

/// A call hands the arguments to the function in the order in which they are on the stack, and
/// leaves the results that it answers there, the last one on top.
#[verifier::spinoff_prover]
#[verifier::rlimit(40)]
pub proof fn calls_pass_arguments_and_results(env: &FuncEnv, t: Trans, w: World, index: u32)
    requires
        settled(t),
        control::can_call(env, t, index),
    ensures
        ({
            let (after, result) = translate::translated(
                env,
                Operator::Call { function_index: index },
                t,
            );
            let callable = env.functions@[index as int];
            let signature = env.signatures@[callable.signature as int];
            let n = signature.params@.len();
            let below = t.stack.take(t.stack.len() - n);
            let results = after.stack.skip(below.len() as int);
            let (name, callee) = match callable.target {
                CallTarget::Instruction { intrinsic } => (intrinsic, None),
                CallTarget::Intrinsic { intrinsic, callee } => (intrinsic, Some(callee)),
                CallTarget::Function { callee } => (callee, None),
            };
            let calls = w.calls.push(
                Call { name, callee, args: w.all(t.stack.skip(t.stack.len() - n)) },
            );
            let (answers, memory) = (w.host)(calls, w.memory);
            &&& result is Ok
            &&& after.stack.take(below.len() as int) == below
            &&& after.control == t.control && after.reachable == t.reachable
            &&& results.len() == signature.results@.len()
            &&& forall|i: int|
                0 <= i < results.len() ==> (#[trigger] results[i]).ty == IrType::Scalar(
                    operator::scalar_of(signature.results@[i])->0,
                )
            &&& flows(t, after, Flow::Falls(w)) matches Flow::Falls(done) && done.calls == calls
                && done.memory == memory && done.all(results) == Seq::new(
                results.len(),
                |i: int| answers(i),
            ) && only_defines(World { calls, memory, ..w }, done, t.b.next)
        }),
{
    broadcast use meaning::group_played;

    let (after, _) = translate::translated(env, Operator::Call { function_index: index }, t);
    let callable = env.functions@[index as int];
    let signature = env.signatures@[callable.signature as int];
    let n = signature.params@.len();
    let below = t.stack.take(t.stack.len() - n);
    let types = operator::scalars_of(signature.results@);
    let results = t.b.fresh_list(types);
    assert(after.stack.take(below.len() as int) =~= below);
    assert(after.stack.skip(below.len() as int) =~= results);
    assert(t.stack.skip(t.stack.len() - n) =~= t.top(n));
    let (name, callee) = match callable.target {
        CallTarget::Instruction { intrinsic } => (intrinsic, None),
        CallTarget::Intrinsic { intrinsic, callee } => (intrinsic, Some(callee)),
        CallTarget::Function { callee } => (callee, None),
    };
    let calls = w.calls.push(Call { name, callee, args: w.all(t.top(n)) });
    let (answers, memory) = (w.host)(calls, w.memory);
    let xs = Seq::new(results.len(), |i: int| answers(i));
    given_patterns_are_had(World { calls, memory, ..w }, results, xs, t.b.next);
}

} // verus!

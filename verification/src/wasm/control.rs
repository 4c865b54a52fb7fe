//! Control flow.
use vstd::prelude::*;
use crate::types::{Immediate, ScalarType};
use crate::wasm::builder::{Built, FunctionBuilder};
use crate::wasm::ir::{BinaryOp, BlockId, Conversion, Event, IrType, SwitchCase, Value};
use crate::wasm::operator::{self, BlockType, CallTarget, FuncEnv};
use crate::wasm::state::{ControlStackFrame, ElseData, FuncTranslationState, Trans};

verus! {

/// Why a function cannot be translated.
#[derive(Clone, Copy, PartialEq, Eq, Debug, Structural)]
pub enum WasmError {
    /// The operator cannot be translated.
    UnsupportedOperator,
    /// A type cannot be translated.
    UnsupportedType,
    /// Only a single memory can be used.
    MultipleMemories,
    /// Only a single value can be returned.
    MultipleValues,
}

/// The `i32` type.
pub open spec fn i32_ty() -> IrType {
    IrType::Scalar(ScalarType::I32)
}

/// The test that a condition is not zero.
pub open spec fn tested(b: Built, cond: Value) -> (Built, Value) {
    let (b1, zero) = b.imm(Immediate::I32(0));
    b1.binary(BinaryOp::Neq, cond, zero)
}

/// The state in a block.
pub open spec fn block_entered(env: &FuncEnv, t: Trans, ty: BlockType) -> Trans {
    let (b, next) = t.b.create_block(env.block_results(ty));
    let n = env.block_params(ty).len();
    Trans {
        b,
        control: t.control.push(
            ControlStackFrame::Block {
                destination: next,
                num_param_values: n as usize,
                num_return_values: env.block_results(ty).len() as usize,
                original_stack_size: (t.stack.len() - n) as usize,
                exit_is_branched_to: false,
            },
        ),
        ..t
    }
}

/// The state in a loop: control has branched to its head with its parameters, and finds them as
/// the parameters of the head.
pub open spec fn loop_entered(env: &FuncEnv, t: Trans, ty: BlockType) -> Trans {
    let n = env.block_params(ty).len();
    let (b1, head) = t.b.create_block(env.block_params(ty));
    let (b2, next) = b1.create_block(env.block_results(ty));
    let b3 = b2.step(Event::Br { dest: head, args: t.top(n) }, 0);
    Trans {
        b: b3.step(Event::SwitchToBlock { block: head }, 0),
        stack: t.popped(n).stack + b3.params(head),
        control: t.control.push(
            ControlStackFrame::Loop {
                destination: next,
                header: head,
                num_param_values: n as usize,
                num_return_values: env.block_results(ty).len() as usize,
                original_stack_size: (t.stack.len() - n) as usize,
            },
        ),
        ..t
    }
}

/// The state in the consequent of an `if`.
///
/// Where parameters and results agree there may be no `else`: then a condition that does not hold
/// leads to the code after the `if`, and the branch is noted. Otherwise a block for the `else` is
/// made at once.
pub open spec fn if_entered(env: &FuncEnv, t: Trans, ty: BlockType) -> Trans {
    let params = env.block_params(ty);
    let results = env.block_results(ty);
    let n = params.len();
    let t1 = t.popped(1);
    let (b1, cond) = tested(t.b, t.peek(0));
    let (b2, next) = b1.create_block(Seq::empty());
    let (b3, destination) = b2.create_block(results);
    let (b4, else_data) = if params == results {
        (
            b3.step(
                Event::CondBr {
                    cond,
                    then_dest: next,
                    then_args: Seq::empty(),
                    else_dest: destination,
                    else_args: t1.top(n),
                },
                0,
            ),
            ElseData::NoElse { branch: b3.log.len() as u32, placeholder: destination },
        )
    } else {
        let (c1, else_block) = b3.create_block(params);
        let c2 = c1.step(
            Event::CondBr {
                cond,
                then_dest: next,
                then_args: Seq::empty(),
                else_dest: else_block,
                else_args: t1.top(n),
            },
            0,
        );
        (c2.step(Event::SealBlock { block: else_block }, 0), ElseData::WithElse { else_block })
    };
    let b5 = b4.step(Event::SealBlock { block: next }, 0);
    Trans {
        b: b5.step(Event::SwitchToBlock { block: next }, 0),
        stack: t1.stack + t1.top(n),
        control: t.control.push(
            ControlStackFrame::If {
                destination,
                else_data,
                num_param_values: n as usize,
                num_return_values: results.len() as usize,
                original_stack_size: t1.stack.len() as usize,
                exit_is_branched_to: false,
                blocktype: ty,
                head_is_reachable: t.reachable,
                consequent_ends_reachable: None,
            },
        ),
        ..t
    }
}

/// The frame of an `if` whose consequent has ended.
pub open spec fn consequent_ended(frame: ControlStackFrame, reachable: bool) -> ControlStackFrame {
    match frame {
        ControlStackFrame::If {
            destination,
            else_data,
            num_param_values,
            num_return_values,
            original_stack_size,
            exit_is_branched_to,
            blocktype,
            head_is_reachable,
            ..
        } => ControlStackFrame::If {
            destination,
            else_data,
            num_param_values,
            num_return_values,
            original_stack_size,
            exit_is_branched_to,
            blocktype,
            head_is_reachable,
            consequent_ends_reachable: Some(reachable),
        },
        _ => frame,
    }
}

/// The state in the `else` of the innermost `if`, whose consequent ends where control is.
///
/// The consequent branches to the code after the `if` with its results. A block for the `else`
/// is made if there is none, and the branch at the head of the `if` is led to it. The parameters
/// of the `else` are on the stack already.
pub open spec fn else_entered(env: &FuncEnv, t: Trans) -> Trans {
    let last = t.control.len() - 1;
    let t1 = Trans {
        control: t.control.update(last, consequent_ended(t.control[last], t.reachable)),
        ..t
    };
    match t.control[last] {
        ControlStackFrame::If {
            destination,
            else_data,
            num_return_values,
            blocktype,
            head_is_reachable,
            ..
        } => if !head_is_reachable {
            t1
        } else {
            let params = env.block_params(blocktype);
            match else_data {
                ElseData::NoElse { branch, placeholder } => {
                    let (b1, else_block) = t.b.create_block(params);
                    let b2 = b1.step(
                        Event::Br { dest: destination, args: t.top(params.len()) },
                        0,
                    );
                    let b3 = b2.step(
                        Event::ChangeJumpDestination { branch, from: placeholder, to: else_block },
                        0,
                    );
                    let b4 = b3.step(Event::SealBlock { block: else_block }, 0);
                    Trans {
                        b: b4.step(Event::SwitchToBlock { block: else_block }, 0),
                        stack: t.popped(params.len()).stack,
                        reachable: true,
                        ..t1
                    }
                },
                ElseData::WithElse { else_block } => {
                    let b1 = t.b.step(
                        Event::Br { dest: destination, args: t.top(num_return_values as nat) },
                        0,
                    );
                    Trans {
                        b: b1.step(Event::SwitchToBlock { block: else_block }, 0),
                        stack: t.popped(num_return_values as nat).stack,
                        reachable: true,
                        ..t1
                    }
                },
            }
        },
        _ => t1,
    }
}

/// The state after the end of the innermost structure: control branches to the code after it with
/// its results, and finds them as the parameters of that code.
pub open spec fn ended(t: Trans) -> Trans {
    let frame = t.control.last();
    let next = frame.after();
    let b1 = t.b.step(Event::Br { dest: next, args: t.top(frame.result_count()) }, 0);
    let b2 = b1.step(Event::SwitchToBlock { block: next }, 0);
    let b3 = b2.step(Event::SealBlock { block: next }, 0);
    let b4 = match frame {
        ControlStackFrame::Loop { header, .. } => b3.step(Event::SealBlock { block: header }, 0),
        _ => b3,
    };
    Trans {
        b: b4,
        stack: t.stack.take(frame.base()) + t.b.params(next),
        control: t.control.drop_last(),
        ..t
    }
}

/// The state after a branch.
pub open spec fn branched(t: Trans, depth: int) -> Trans {
    let frame = t.frame(depth);
    let n = frame.branch_values();
    Trans {
        b: t.b.step(Event::Br { dest: frame.target(), args: t.top(n) }, 0),
        stack: t.popped(n).stack,
        reachable: false,
        ..t.leaves(depth)
    }
}

/// The state after a branch that is taken if a condition holds. The values of the branch stay.
pub open spec fn branched_if(t: Trans, depth: int) -> Trans {
    let frame = t.frame(depth);
    let (b0, cond) = t.b.bitcast_unless(t.peek(0), i32_ty());
    let t1 = t.popped(1);
    let (b1, next) = b0.create_block(Seq::empty());
    let (b2, test) = tested(b1, cond);
    let b3 = b2.step(
        Event::CondBr {
            cond: test,
            then_dest: frame.target(),
            then_args: t1.top(frame.branch_values()),
            else_dest: next,
            else_args: Seq::empty(),
        },
        0,
    );
    let b4 = b3.step(Event::SealBlock { block: next }, 0);
    Trans { b: b4.step(Event::SwitchToBlock { block: next }, 0), ..t1.leaves(depth) }
}

/// The state, with control leaving the structures at the first `n` of `depths` through branches.
pub open spec fn leaves_all(t: Trans, depths: Seq<u32>, n: nat) -> Trans
    decreases n,
{
    if n == 0 {
        t
    } else {
        leaves_all(t, depths, (n - 1) as nat).leaves(depths[n - 1] as int)
    }
}

/// The least of the depths of a table.
pub open spec fn least_depth(depths: Seq<u32>, default: u32) -> u32
    decreases depths.len(),
{
    if depths.len() == 0 {
        default
    } else {
        let least = least_depth(depths.drop_last(), default);
        if depths.last() < least {
            depths.last()
        } else {
            least
        }
    }
}

/// The cases of a table whose depths are `depths`: case `i` leads to the `i`th of them.
pub open spec fn table_cases(t: Trans, depths: Seq<u32>, args: Seq<Value>) -> Seq<
    SwitchCase<Seq<Value>>,
> {
    Seq::new(
        depths.len(),
        |i: int|
            SwitchCase {
                value: i as u32,
                successor: t.frame(depths[i] as int).target(),
                arguments: args,
            },
    )
}

/// The state after a branch by a table: case `i` leads to target `i`, and all branches take the
/// values of the one of least depth.
pub open spec fn branched_by_table(t: Trans, depths: Seq<u32>, default: u32) -> Trans {
    let n = t.frame(least_depth(depths, default) as int).branch_values();
    let selector = t.peek(0);
    let t1 = t.popped(1);
    let u32_ty = IrType::Scalar(ScalarType::U32);
    let (b1, index) = if selector.ty == u32_ty {
        (t.b, selector)
    } else {
        t.b.convert(Conversion::Cast, selector, u32_ty)
    };
    let args = t1.top(n);
    Trans {
        b: b1.step(
            Event::Switch {
                selector: index,
                cases: table_cases(t, depths, args),
                default_dest: t.frame(default as int).target(),
                default_args: args,
            },
            0,
        ),
        stack: t1.popped(n).stack,
        control: leaves_all(t.leaves(default as int), depths, depths.len()).control,
        reachable: false,
    }
}

/// The state after a return.
pub open spec fn returned(t: Trans) -> Trans {
    let n = t.control[0].result_count();
    Trans {
        b: t.b.step(Event::Ret { value: if n == 0 { None } else { Some(t.peek(0)) } }, 0),
        stack: t.popped(n).stack,
        reachable: false,
        ..t
    }
}

/// The state after a call: the arguments are taken from the stack and the results are left there.
pub open spec fn called(env: &FuncEnv, t: Trans, index: u32) -> Trans {
    let callable = env.functions@[index as int];
    let signature = env.signatures@[callable.signature as int];
    let n = signature.params@.len();
    let types = operator::scalars_of(signature.results@);
    let args = t.top(n);
    let results = t.b.fresh_list(types);
    let step = match callable.target {
        CallTarget::Instruction { intrinsic } => Event::Intrinsic {
            intrinsic,
            callee: None,
            args,
            results,
        },
        CallTarget::Intrinsic { intrinsic, callee } => Event::Intrinsic {
            intrinsic,
            callee: Some(callee),
            args,
            results,
        },
        CallTarget::Function { callee } => Event::Exec { callee, args, results },
    };
    Trans { b: t.b.step(step, types.len()), stack: t.popped(n).stack + results, ..t }
}

fn same_types(a: &Vec<ScalarType>, b: &Vec<ScalarType>) -> (same: bool)
    ensures
        same == (a@ == b@),
{
    if a.len() != b.len() {
        return false;
    }
    let mut i: usize = 0;
    while i < a.len()
        invariant
            i <= a@.len() == b@.len(),
            forall|j: int| 0 <= j < i ==> a@[j] == b@[j],
        decreases a@.len() - i,
    {
        if a[i] != b[i] {
            assert(a@[i as int] != b@[i as int]);
            return false;
        }
        i = i + 1;
    }
    assert(a@ == b@);
    true
}

/// Translates the start of a block.
pub fn translate_block(
    env: &FuncEnv,
    blockty: BlockType,
    builder: &mut FunctionBuilder,
    state: &mut FuncTranslationState,
) -> (result: Result<(), WasmError>)
    requires
        blockty matches BlockType::FuncType(i) ==> i < env.signatures@.len(),
        env.block_params(blockty).len() <= old(state).stack@.len(),
        old(builder)@.has_room(env.block_results(blockty).len()),
    ensures
        result == (if env.knows_block(blockty) {
            Ok::<(), WasmError>(())
        } else {
            Err(WasmError::UnsupportedType)
        }),
        final(state).with(&*final(builder)) == (if env.knows_block(blockty) {
            block_entered(env, old(state).with(&*old(builder)), blockty)
        } else {
            old(state).with(&*old(builder))
        }),
{
    match env.block_signature(blockty) {
        Some((params, results)) => {
            let ghost before = state.with(builder);
            let next = builder.create_block_with_params(results.as_slice());
            state.push_block(next, params.len(), results.len());
            assert(state.with(builder) =~= block_entered(env, before, blockty));
            Ok(())
        },
        None => Err(WasmError::UnsupportedType),
    }
}

/// Translates the start of a loop.
pub fn translate_loop(
    env: &FuncEnv,
    blockty: BlockType,
    builder: &mut FunctionBuilder,
    state: &mut FuncTranslationState,
) -> (result: Result<(), WasmError>)
    requires
        blockty matches BlockType::FuncType(i) ==> i < env.signatures@.len(),
        env.block_params(blockty).len() <= old(state).stack@.len(),
        old(builder)@.has_room(
            env.block_params(blockty).len() + env.block_results(blockty).len(),
        ),
    ensures
        result == (if env.knows_block(blockty) {
            Ok::<(), WasmError>(())
        } else {
            Err(WasmError::UnsupportedType)
        }),
        final(state).with(&*final(builder)) == (if env.knows_block(blockty) {
            loop_entered(env, old(state).with(&*old(builder)), blockty)
        } else {
            old(state).with(&*old(builder))
        }),
{
    match env.block_signature(blockty) {
        Some((params, results)) => {
            let ghost before = state.with(builder);
            let loop_body = builder.create_block_with_params(params.as_slice());
            let next = builder.create_block_with_params(results.as_slice());
            let args = state.peekn(params.len());
            builder.push(Event::Br { dest: loop_body, args });
            state.push_loop(loop_body, next, params.len(), results.len());
            state.popn(params.len());
            let loop_body_args = builder.block_params(loop_body);
            state.pushn(loop_body_args.as_slice());
            builder.push(Event::SwitchToBlock { block: loop_body });
            assert(state.with(builder) =~= loop_entered(env, before, blockty));
            Ok(())
        },
        None => Err(WasmError::UnsupportedType),
    }
}

/// Translates the start of an `if`.
pub fn translate_if(
    env: &FuncEnv,
    blockty: BlockType,
    state: &mut FuncTranslationState,
    builder: &mut FunctionBuilder,
) -> (result: Result<(), WasmError>)
    requires
        blockty matches BlockType::FuncType(i) ==> i < env.signatures@.len(),
        env.block_params(blockty).len() < old(state).stack@.len(),
        old(builder)@.has_room(
            env.block_params(blockty).len() + env.block_results(blockty).len() + 2,
        ),
    ensures
        result == (if env.knows_block(blockty) {
            Ok::<(), WasmError>(())
        } else {
            Err(WasmError::UnsupportedType)
        }),
        final(state).with(&*final(builder)) == (if env.knows_block(blockty) {
            if_entered(env, old(state).with(&*old(builder)), blockty)
        } else {
            old(state).with(&*old(builder))
        }),
{
    match env.block_signature(blockty) {
        Some((params, results)) => {
            let ghost before = state.with(builder);
            let cond = state.pop1();
            let imm = builder.imm(Immediate::I32(0));
            let cond_i1 = builder.binary(BinaryOp::Neq, cond, imm);
            let next_block = builder.create_block();
            let destination = builder.create_block_with_params(results.as_slice());
            let else_args = state.peekn(params.len());
            let else_data = if same_types(&params, &results) {
                let branch: u32 = builder.num_steps() as u32;
                builder.push(
                    Event::CondBr {
                        cond: cond_i1,
                        then_dest: next_block,
                        then_args: Vec::new(),
                        else_dest: destination,
                        else_args,
                    },
                );
                ElseData::NoElse { branch, placeholder: destination }
            } else {
                let else_block = builder.create_block_with_params(params.as_slice());
                builder.push(
                    Event::CondBr {
                        cond: cond_i1,
                        then_dest: next_block,
                        then_args: Vec::new(),
                        else_dest: else_block,
                        else_args,
                    },
                );
                builder.push(Event::SealBlock { block: else_block });
                ElseData::WithElse { else_block }
            };
            builder.push(Event::SealBlock { block: next_block });
            builder.push(Event::SwitchToBlock { block: next_block });
            state.push_if(destination, else_data, params.len(), results.len(), blockty);
            assert(state.with(builder) =~= if_entered(env, before, blockty));
            Ok(())
        },
        None => Err(WasmError::UnsupportedType),
    }
}

/// What the `else` of the innermost `if` needs of the state.
pub open spec fn can_enter_else(env: &FuncEnv, t: Trans) -> bool {
    &&& t.control.len() > 0
    &&& match t.control.last() {
        ControlStackFrame::If { else_data, num_return_values, blocktype, head_is_reachable, .. } => {
            &&& blocktype matches BlockType::FuncType(i) ==> i < env.signatures@.len()
            &&& env.knows_block(blocktype)
            &&& env.block_params(blocktype).len() <= t.stack.len()
            &&& num_return_values <= t.stack.len()
            &&& t.b.has_room(env.block_params(blocktype).len())
        },
        _ => false,
    }
}

/// Translates an `else` after a consequent whose end can be reached.
pub fn translate_else(
    env: &FuncEnv,
    state: &mut FuncTranslationState,
    builder: &mut FunctionBuilder,
)
    requires
        can_enter_else(env, old(state).with(&*old(builder))),
    ensures
        final(state).with(&*final(builder)) == else_entered(
            env,
            old(state).with(&*old(builder)),
        ),
{
    let ghost before = state.with(builder);
    let last: usize = state.control_stack.len() - 1;
    let frame = state.control_stack[last];
    if let ControlStackFrame::If {
        destination,
        else_data,
        num_param_values,
        num_return_values,
        original_stack_size,
        exit_is_branched_to,
        blocktype,
        head_is_reachable,
        consequent_ends_reachable: _,
    } = frame {
        let reachable = state.reachable;
        state.control_stack.set(
            last,
            ControlStackFrame::If {
                destination,
                else_data,
                num_param_values,
                num_return_values,
                original_stack_size,
                exit_is_branched_to,
                blocktype,
                head_is_reachable,
                consequent_ends_reachable: Some(reachable),
            },
        );
        if head_is_reachable {
            state.reachable = true;
            let else_block = match else_data {
                ElseData::NoElse { branch, placeholder } => {
                    if let Some((params, _)) = env.block_signature(blocktype) {
                        let else_block = builder.create_block_with_params(params.as_slice());
                        let args = state.peekn(params.len());
                        builder.push(Event::Br { dest: destination, args });
                        state.popn(params.len());
                        builder.push(
                            Event::ChangeJumpDestination {
                                branch,
                                from: placeholder,
                                to: else_block,
                            },
                        );
                        builder.push(Event::SealBlock { block: else_block });
                        else_block
                    } else {
                        placeholder
                    }
                },
                ElseData::WithElse { else_block } => {
                    let args = state.peekn(num_return_values);
                    builder.push(Event::Br { dest: destination, args });
                    state.popn(num_return_values);
                    else_block
                },
            };
            builder.push(Event::SwitchToBlock { block: else_block });
        }
    }
    assert(state.with(builder) =~= else_entered(env, before));
}

/// What the end of the innermost structure needs of the state.
pub open spec fn can_end(t: Trans) -> bool {
    &&& t.control.len() > 0
    &&& t.control.last().result_count() <= t.stack.len()
    &&& 0 <= t.control.last().base() <= t.stack.len()
    &&& t.control.last().after().index < t.b.blocks.len()
}

/// Translates the end of a structure.
pub fn translate_end(state: &mut FuncTranslationState, builder: &mut FunctionBuilder)
    requires
        can_end(old(state).with(&*old(builder))),
    ensures
        final(state).with(&*final(builder)) == ended(old(state).with(&*old(builder))),
{
    let ghost before = state.with(builder);
    let last: usize = state.control_stack.len() - 1;
    let frame = state.control_stack[last];
    state.control_stack.truncate(last);
    let next_block = frame.following_code();
    let return_args = state.peekn(frame.num_return_values());
    builder.push(Event::Br { dest: next_block, args: return_args });
    builder.push(Event::SwitchToBlock { block: next_block });
    builder.push(Event::SealBlock { block: next_block });
    if let ControlStackFrame::Loop { header, .. } = frame {
        builder.push(Event::SealBlock { block: header });
    }
    state.truncate_to_base(&frame);
    let next_block_args = builder.block_params(next_block);
    state.pushn(next_block_args.as_slice());
    assert(state.with(builder) =~= ended(before));
}

/// What a branch needs of the state.
pub open spec fn can_branch(t: Trans, depth: int) -> bool {
    &&& 0 <= depth < t.control.len()
    &&& t.frame(depth).branch_values() <= t.stack.len()
}

/// Translates a branch.
pub fn translate_br(
    state: &mut FuncTranslationState,
    relative_depth: u32,
    builder: &mut FunctionBuilder,
)
    requires
        can_branch(old(state).with(&*old(builder)), relative_depth as int),
    ensures
        final(state).with(&*final(builder)) == branched(
            old(state).with(&*old(builder)),
            relative_depth as int,
        ),
{
    let ghost before = state.with(builder);
    let i: usize = state.control_stack.len() - 1 - relative_depth as usize;
    let frame = state.control_stack[i];
    state.control_stack.set(i, frame.branched_to_exit());
    let return_count: usize = frame.num_branch_values();
    let args = state.peekn(return_count);
    builder.push(Event::Br { dest: frame.br_destination(), args });
    state.popn(return_count);
    state.reachable = false;
    assert(state.with(builder) =~= branched(before, relative_depth as int));
}

/// Translates a branch that is taken if a condition holds.
pub fn translate_br_if(
    relative_depth: u32,
    builder: &mut FunctionBuilder,
    state: &mut FuncTranslationState,
)
    requires
        old(state).stack@.len() >= 1,
        can_branch(old(state).with(&*old(builder)).popped(1), relative_depth as int),
        old(builder)@.has_room(4),
    ensures
        final(state).with(&*final(builder)) == branched_if(
            old(state).with(&*old(builder)),
            relative_depth as int,
        ),
{
    let ghost before = state.with(builder);
    let top = state.pop1();
    let cond = builder.bitcast_unless(top, IrType::Scalar(ScalarType::I32));
    let (br_destination, inputs) = translate_br_if_args(relative_depth, state);
    let next_block = builder.create_block();
    let imm = builder.imm(Immediate::I32(0));
    let cond_i1 = builder.binary(BinaryOp::Neq, cond, imm);
    builder.push(
        Event::CondBr {
            cond: cond_i1,
            then_dest: br_destination,
            then_args: inputs,
            else_dest: next_block,
            else_args: Vec::new(),
        },
    );
    builder.push(Event::SealBlock { block: next_block });
    builder.push(Event::SwitchToBlock { block: next_block });
    assert(state.with(builder) =~= branched_if(before, relative_depth as int));
}

/// Where a branch leads, and the values it takes. They stay on the stack.
pub fn translate_br_if_args(relative_depth: u32, state: &mut FuncTranslationState) -> (target: (
    BlockId,
    Vec<Value>,
))
    requires
        relative_depth < old(state).control_stack@.len(),
        old(state).control_stack@[old(state).control_stack@.len() - 1
            - relative_depth].branch_values() <= old(state).stack@.len(),
    ensures
        ({
            let i = old(state).control_stack@.len() - 1 - relative_depth;
            let frame = old(state).control_stack@[i];
            &&& target.0 == frame.target()
            &&& target.1@ == old(state).stack@.skip(
                old(state).stack@.len() - frame.branch_values(),
            )
            &&& final(state).control_stack@ == old(state).control_stack@.update(i, frame.left())
        }),
        final(state).stack == old(state).stack,
        final(state).reachable == old(state).reachable,
{
    let i: usize = state.control_stack.len() - 1 - relative_depth as usize;
    let frame = state.control_stack[i];
    state.control_stack.set(i, frame.branched_to_exit());
    let inputs = state.peekn(frame.num_branch_values());
    (frame.br_destination(), inputs)
}

/// What a branch by a table needs of the state.
pub open spec fn can_branch_by_table(t: Trans, targets: Seq<u32>, default: u32) -> bool {
    &&& t.stack.len() >= 1
    &&& targets.len() <= u32::MAX
    &&& default < t.control.len()
    &&& forall|i: int| 0 <= i < targets.len() ==> #[trigger] targets[i] < t.control.len()
    &&& t.frame(least_depth(targets, default) as int).branch_values() <= t.stack.len() - 1
    &&& t.b.has_room(1)
}

proof fn leaving_keeps_targets(t: Trans, depths: Seq<u32>, n: nat, depth: int)
    requires
        n <= depths.len(),
        forall|i: int| 0 <= i < depths.len() ==> #[trigger] depths[i] < t.control.len(),
        0 <= depth < t.control.len(),
    ensures
        leaves_all(t, depths, n).control.len() == t.control.len(),
        leaves_all(t, depths, n).stack == t.stack,
        leaves_all(t, depths, n).frame(depth).target() == t.frame(depth).target(),
    decreases n,
{
    if n > 0 {
        leaving_keeps_targets(t, depths, (n - 1) as nat, depth);
    }
}

pub(crate) fn min_depth_of(depths: &Vec<u32>, default: u32) -> (least: u32)
    ensures
        least == least_depth(depths@, default),
{
    let mut least: u32 = default;
    let mut i: usize = 0;
    while i < depths.len()
        invariant
            i <= depths@.len(),
            least == least_depth(depths@.take(i as int), default),
        decreases depths@.len() - i,
    {
        assert(depths@.take(i + 1).drop_last() =~= depths@.take(i as int));
        if depths[i] < least {
            least = depths[i];
        }
        i = i + 1;
    }
    assert(depths@.take(depths@.len() as int) =~= depths@);
    least
}

pub(crate) proof fn least_depth_is_in_reach(depths: Seq<u32>, default: u32, size: int)
    requires
        default < size,
        forall|i: int| 0 <= i < depths.len() ==> #[trigger] depths[i] < size,
    ensures
        least_depth(depths, default) < size,
    decreases depths.len(),
{
    if depths.len() > 0 {
        least_depth_is_in_reach(depths.drop_last(), default, size);
    }
}

/// Translates a branch by a table.
pub fn translate_br_table(
    depths: &Vec<u32>,
    default_depth: u32,
    state: &mut FuncTranslationState,
    builder: &mut FunctionBuilder,
)
    requires
        can_branch_by_table(old(state).with(&*old(builder)), depths@, default_depth),
    ensures
        final(state).with(&*final(builder)) == branched_by_table(
            old(state).with(&*old(builder)),
            depths@,
            default_depth,
        ),
{
    let ghost before = state.with(builder);
    proof {
        least_depth_is_in_reach(depths@, default_depth, before.control.len() as int);
    }
    let min_depth: u32 = min_depth_of(depths, default_depth);
    let size: usize = state.control_stack.len();
    let argc: usize = state.control_stack[size - 1 - min_depth as usize].num_branch_values();
    let default_index: usize = size - 1 - default_depth as usize;
    let default_frame = state.control_stack[default_index];
    state.control_stack.set(default_index, default_frame.branched_to_exit());
    let selector = state.pop1();
    let u32_ty = IrType::Scalar(ScalarType::U32);
    let selector = if selector.ty != u32_ty {
        builder.convert(Conversion::Cast, selector, u32_ty)
    } else {
        selector
    };
    let ghost t0 = before.leaves(default_depth as int);
    let ghost t1 = before.popped(1);
    let ghost args_seq = t1.top(argc as nat);
    let mut cases: Vec<SwitchCase<Vec<Value>>> = Vec::new();
    let mut k: usize = 0;
    while k < depths.len()
        invariant
            k <= depths@.len() <= u32::MAX,
            size == before.control.len(),
            t0 == before.leaves(default_depth as int),
            t1 == before.popped(1),
            default_depth < size,
            args_seq == t1.top(argc as nat),
            argc <= t1.stack.len(),
            forall|i: int| 0 <= i < depths@.len() ==> #[trigger] depths@[i] < size,
            state.stack@ == t1.stack,
            state.control_stack@ == leaves_all(t0, depths@, k as nat).control,
            state.control_stack@.len() == size,
            cases@.len() == k,
            forall|i: int|
                0 <= i < k ==> (#[trigger] cases@[i]).value == i && cases@[i].successor
                    == before.frame(depths@[i] as int).target() && cases@[i].arguments@ == args_seq,
        decreases depths@.len() - k,
    {
        let depth: u32 = depths[k];
        let i: usize = state.control_stack.len() - 1 - depth as usize;
        let frame = state.control_stack[i];
        proof {
            leaving_keeps_targets(t0, depths@, k as nat, depth as int);
            assert(t0.frame(depth as int).target() == before.frame(depth as int).target());
        }
        state.control_stack.set(i, frame.branched_to_exit());
        let args = state.peekn(argc);
        cases.push(SwitchCase { value: k as u32, successor: frame.br_destination(), arguments: args });
        k = k + 1;
    }
    let default_args = state.peekn(argc);
    state.popn(argc);
    let ghost shown = crate::wasm::builder::cases_view(cases@);
    assert(shown == table_cases(before, depths@, args_seq));
    builder.push(
        Event::Switch {
            selector,
            cases,
            default_dest: default_frame.br_destination(),
            default_args,
        },
    );
    state.reachable = false;
    assert(state.with(builder) =~= branched_by_table(before, depths@, default_depth));
}

/// Translates a return.
pub fn translate_return(state: &mut FuncTranslationState, builder: &mut FunctionBuilder) -> (result:
    Result<(), WasmError>)
    requires
        old(state).control_stack@.len() > 0,
        old(state).control_stack@[0].result_count() <= old(state).stack@.len(),
    ensures
        result == (if old(state).control_stack@[0].result_count() <= 1 {
            Ok::<(), WasmError>(())
        } else {
            Err(WasmError::MultipleValues)
        }),
        final(state).with(&*final(builder)) == (if old(state).control_stack@[0].result_count()
            <= 1 {
            returned(old(state).with(&*old(builder)))
        } else {
            old(state).with(&*old(builder))
        }),
{
    let ghost before = state.with(builder);
    let return_count: usize = state.control_stack[0].num_return_values();
    if return_count > 1 {
        return Err(WasmError::MultipleValues);
    }
    let value = if return_count == 0 {
        None
    } else {
        Some(state.peek1())
    };
    builder.push(Event::Ret { value });
    state.popn(return_count);
    state.reachable = false;
    assert(state.with(builder) =~= returned(before));
    Ok(())
}

/// What a call needs of the state.
pub open spec fn can_call(env: &FuncEnv, t: Trans, index: u32) -> bool {
    let callable = env.functions@[index as int];
    let signature = env.signatures@[callable.signature as int];
    &&& index < env.functions@.len()
    &&& callable.signature < env.signatures@.len()
    &&& operator::supported(signature.results@)
    &&& signature.params@.len() <= t.stack.len()
    &&& t.b.has_room(signature.results@.len())
}

/// Translates a call.
pub fn translate_call(
    env: &FuncEnv,
    state: &mut FuncTranslationState,
    builder: &mut FunctionBuilder,
    function_index: u32,
)
    requires
        can_call(env, old(state).with(&*old(builder)), function_index),
    ensures
        final(state).with(&*final(builder)) == called(
            env,
            old(state).with(&*old(builder)),
            function_index,
        ),
{
    let ghost before = state.with(builder);
    let callable = env.functions[function_index as usize];
    let signature = &env.signatures[callable.signature as usize];
    let arity: usize = signature.params.len();
    let args = state.peekn(arity);
    if let Some(types) = operator::ir_types(&signature.results) {
        let results = builder.values(types.as_slice());
        state.popn(arity);
        state.pushn(results.as_slice());
        match callable.target {
            CallTarget::Instruction { intrinsic } => builder.push(
                Event::Intrinsic { intrinsic, callee: None, args, results },
            ),
            CallTarget::Intrinsic { intrinsic, callee } => builder.push(
                Event::Intrinsic { intrinsic, callee: Some(callee), args, results },
            ),
            CallTarget::Function { callee } => builder.push(
                Event::Exec { callee, args, results },
            ),
        }
    }
    assert(state.with(builder) =~= called(env, before, function_index));
}

} // verus!

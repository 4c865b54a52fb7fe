//! Tests of what operators need of the state of a translation.
use vstd::prelude::*;
use crate::span::SourceSpan;
use crate::types::ScalarType;
use crate::wasm::builder::FunctionBuilder;
use crate::wasm::control::{self, min_depth_of};
use crate::wasm::function;
use crate::wasm::ir::{Event, IrType};
use crate::wasm::memory;
use crate::wasm::operator::{ir_types, BlockType, FuncEnv, MemArg, Operator, ValType};
use crate::wasm::recipe::{self, recipe, Core};
use crate::wasm::state::{ControlStackFrame, FuncTranslationState, Trans};
use crate::wasm::translate::{self, access, Access};

verus! {

/// The state in which an operator is translated: the position of the operator is noted first.
pub open spec fn placed(
    state: &FuncTranslationState,
    builder: &FunctionBuilder,
    span: SourceSpan,
) -> Trans {
    state.with(builder).does(Event::At(span))
}

/// Whether a value of the type can be used as an address.
fn is_addressable(ty: IrType) -> (b: bool)
    ensures
        b == memory::is_address(ty),
{
    matches!(
        ty,
        IrType::Scalar(ScalarType::U32) | IrType::Scalar(ScalarType::I32) | IrType::Ptr(_)
    )
}

/// Whether the `i`th value from the top of the stack is there and can be used as an address.
fn has_address(state: &FuncTranslationState, i: usize) -> (b: bool)
    ensures
        b == (i < state.stack@.len() && memory::is_address(
            state.stack@[state.stack@.len() - 1 - i].ty,
        )),
{
    i < state.stack.len() && is_addressable(state.stack[state.stack.len() - 1 - i].ty)
}

/// Whether an access finds what it needs.
fn is_access_ready(
    access: Access,
    memarg: MemArg,
    state: &FuncTranslationState,
    builder: &FunctionBuilder,
    span: SourceSpan,
) -> (b: bool)
    ensures
        b == translate::access_ready(placed(state, builder, span), access, memarg),
{
    memarg.align < 32 && match access {
        Access::Store { .. } => has_address(state, 1),
        Access::LoadZext { ty, .. } => has_address(state, 0) && IrType::Scalar(
            ty,
        ).is_unsigned_integer(),
        _ => has_address(state, 0),
    }
}

/// Whether one of the operators on variables, globals, constants and the value stack finds what it
/// needs.
fn is_value_ready(
    env: &FuncEnv,
    op: &Operator,
    state: &FuncTranslationState,
    builder: &FunctionBuilder,
    span: SourceSpan,
) -> (b: bool)
    ensures
        b == translate::value_ready(env, *op, placed(state, builder, span)),
{
    let height: usize = state.stack.len();
    match op {
        Operator::LocalGet { local_index } => (*local_index as usize) < env.variables.len(),
        Operator::LocalSet { local_index } => (*local_index as usize) < env.variables.len()
            && height >= 1,
        Operator::LocalTee { .. } => height >= 1,
        Operator::GlobalGet { global_index } => (*global_index as usize) < env.globals.len(),
        Operator::GlobalSet { global_index } => (*global_index as usize) < env.globals.len()
            && height >= 1,
        Operator::Drop => height >= 1,
        Operator::Select => height >= 3,
        Operator::TypedSelect { ty } => height >= 3 && matches!(
            *ty,
            ValType::F32 | ValType::I32 | ValType::I64
        ),
        Operator::I64Add128 | Operator::I64Sub128 => height >= 4,
        Operator::I64MulWideU | Operator::I64MulWideS => height >= 2,
        _ => true,
    }
}

/// Whether the signature of a block is there.
fn has_block_type(env: &FuncEnv, ty: BlockType) -> (b: bool)
    ensures
        b == (ty matches BlockType::FuncType(i) ==> i < env.signatures@.len()),
{
    match ty {
        BlockType::FuncType(i) => (i as usize) < env.signatures.len(),
        _ => true,
    }
}

/// How many parameters and results a block has.
fn block_counts(env: &FuncEnv, ty: BlockType) -> (counts: (usize, usize))
    requires
        ty matches BlockType::FuncType(i) ==> i < env.signatures@.len(),
    ensures
        counts.0 == env.block_params(ty).len(),
        counts.1 == env.block_results(ty).len(),
{
    match ty {
        BlockType::Empty => (0, 0),
        BlockType::Type(_) => (0, 1),
        BlockType::FuncType(i) => (
            env.signatures[i as usize].params.len(),
            env.signatures[i as usize].results.len(),
        ),
    }
}

/// Whether a structure of the given type can start: its parameters and `extra` values more are on
/// the stack.
fn can_start(
    env: &FuncEnv,
    ty: BlockType,
    extra: usize,
    state: &FuncTranslationState,
) -> (counts: Option<(usize, usize)>)
    ensures
        match counts {
            Some((params, results)) => {
                &&& ty matches BlockType::FuncType(i) ==> i < env.signatures@.len()
                &&& params == env.block_params(ty).len()
                &&& results == env.block_results(ty).len()
                &&& params + extra <= state.stack@.len()
            },
            None => !(ty matches BlockType::FuncType(i) ==> i < env.signatures@.len())
                || env.block_params(ty).len() + extra > state.stack@.len(),
        },
{
    if !has_block_type(env, ty) {
        return None;
    }
    let (params, results) = block_counts(env, ty);
    if extra <= state.stack.len() && params <= state.stack.len() - extra {
        Some((params, results))
    } else {
        None
    }
}

/// Whether the `else` of the innermost `if` finds what it needs.
fn is_else_ready(
    env: &FuncEnv,
    state: &FuncTranslationState,
    builder: &FunctionBuilder,
    span: SourceSpan,
) -> (b: bool)
    ensures
        b == control::can_enter_else(env, placed(state, builder, span)),
{
    if state.control_stack.len() == 0 {
        return false;
    }
    match state.control_stack[state.control_stack.len() - 1] {
        ControlStackFrame::If { num_return_values, blocktype, .. } => {
            if !has_block_type(env, blocktype) {
                return false;
            }
            let (params, _) = block_counts(env, blocktype);
            env.block_signature(blocktype).is_some() && params <= state.stack.len()
                && num_return_values <= state.stack.len() && builder.has_room_after_step(
                params as u128,
            )
        },
        _ => false,
    }
}

/// Whether the value stack reaches down to where the structure started, and the code after the
/// structure is there.
fn is_within(
    frame: &ControlStackFrame,
    state: &FuncTranslationState,
    builder: &FunctionBuilder,
) -> (b: bool)
    ensures
        b == (0 <= frame.base() <= state.stack@.len() && frame.after().index
            < builder@.blocks.len()),
{
    let starts = match frame {
        ControlStackFrame::If { original_stack_size, num_param_values, .. } => {
            *num_param_values <= *original_stack_size && *original_stack_size - *num_param_values
                <= state.stack.len()
        },
        ControlStackFrame::Block { original_stack_size, .. } => *original_stack_size
            <= state.stack.len(),
        ControlStackFrame::Loop { original_stack_size, .. } => *original_stack_size
            <= state.stack.len(),
    };
    starts && (frame.following_code().index as usize) < builder.num_blocks()
}

/// Whether a branch out of `depth` structures, with `extra` more values on the stack, finds what it
/// needs.
fn is_branch_ready(state: &FuncTranslationState, depth: u32, extra: usize) -> (b: bool)
    requires
        extra <= state.stack@.len(),
    ensures
        b == (depth < state.control_stack@.len()
            && state.control_stack@[state.control_stack@.len() - 1 - depth].branch_values()
            <= state.stack@.len() - extra),
{
    if depth as usize >= state.control_stack.len() {
        return false;
    }
    let i: usize = state.control_stack.len() - 1 - depth as usize;
    state.control_stack[i].num_branch_values() <= state.stack.len() - extra
}

/// Whether a branch by a table finds what it needs.
fn is_table_ready(
    targets: &Vec<u32>,
    default: u32,
    state: &FuncTranslationState,
    builder: &FunctionBuilder,
    span: SourceSpan,
) -> (b: bool)
    ensures
        b == control::can_branch_by_table(placed(state, builder, span), targets@, default),
{
    if state.stack.len() < 1 || targets.len() as u128 > u32::MAX as u128 || default as usize
        >= state.control_stack.len() {
        return false;
    }
    let mut i: usize = 0;
    while i < targets.len()
        invariant
            i <= targets@.len(),
            forall|j: int| 0 <= j < i ==> #[trigger] targets@[j] < state.control_stack@.len(),
        decreases targets@.len() - i,
    {
        if targets[i] as usize >= state.control_stack.len() {
            assert(targets@[i as int] >= state.control_stack@.len());
            return false;
        }
        i = i + 1;
    }
    let least = min_depth_of(targets, default);
    proof {
        control::least_depth_is_in_reach(
            targets@,
            default,
            state.control_stack@.len() as int,
        );
    }
    is_branch_ready(state, least, 1) && builder.has_room_after_step(1)
}

/// Whether a call finds what it needs.
fn is_call_ready(
    env: &FuncEnv,
    index: u32,
    state: &FuncTranslationState,
    builder: &FunctionBuilder,
    span: SourceSpan,
) -> (b: bool)
    ensures
        b == control::can_call(env, placed(state, builder, span), index),
{
    if index as usize >= env.functions.len() {
        return false;
    }
    let callable = env.functions[index as usize];
    if callable.signature as usize >= env.signatures.len() {
        return false;
    }
    let signature = &env.signatures[callable.signature as usize];
    ir_types(&signature.results).is_some() && signature.params.len() <= state.stack.len()
        && builder.has_room_after_step(signature.results.len() as u128)
}

/// Whether one of the operators that direct control finds what it needs.
fn is_control_ready(
    env: &FuncEnv,
    op: &Operator,
    state: &FuncTranslationState,
    builder: &FunctionBuilder,
    span: SourceSpan,
) -> (b: bool)
    ensures
        b == translate::control_ready(env, *op, placed(state, builder, span)),
{
    match op {
        Operator::Block { blockty } => match can_start(env, *blockty, 0, state) {
            Some((_, results)) => builder.has_room_after_step(results as u128),
            None => false,
        },
        Operator::Loop { blockty } => match can_start(env, *blockty, 0, state) {
            Some((params, results)) => builder.has_room_after_step(
                params as u128 + results as u128,
            ),
            None => false,
        },
        Operator::If { blockty } => match can_start(env, *blockty, 1, state) {
            Some((params, results)) => builder.has_room_after_step(
                params as u128 + results as u128 + 2,
            ),
            None => false,
        },
        Operator::Else => is_else_ready(env, state, builder, span),
        Operator::End => {
            if state.control_stack.len() == 0 {
                return false;
            }
            let frame = state.control_stack[state.control_stack.len() - 1];
            frame.num_return_values() <= state.stack.len() && is_within(&frame, state, builder)
        },
        Operator::Br { relative_depth } => is_branch_ready(state, *relative_depth, 0),
        Operator::BrIf { relative_depth } => state.stack.len() >= 1 && is_branch_ready(
            state,
            *relative_depth,
            1,
        ),
        Operator::BrTable { targets, default } => is_table_ready(
            targets,
            *default,
            state,
            builder,
            span,
        ),
        Operator::Return => state.control_stack.len() > 0
            && state.control_stack[0].num_return_values() <= state.stack.len(),
        Operator::Call { function_index } => is_call_ready(
            env,
            *function_index,
            state,
            builder,
            span,
        ),
        _ => true,
    }
}

/// Whether one of the operators that manage memory finds what it needs.
fn is_memory_ready(
    env: &FuncEnv,
    op: &Operator,
    state: &FuncTranslationState,
    builder: &FunctionBuilder,
    span: SourceSpan,
) -> (b: bool)
    ensures
        b == translate::memory_ready(env, *op, placed(state, builder, span)),
{
    match op {
        Operator::MemoryGrow => state.stack.len() >= 1,
        Operator::MemoryCopy { .. } => state.stack.len() >= 3 && has_address(state, 1)
            && has_address(state, 2),
        Operator::MemoryFill { .. } => state.stack.len() >= 3 && has_address(state, 2),
        _ => true,
    }
}

/// Whether an operator finds what it needs, where the code can be reached.
fn is_ready_reachable(
    env: &FuncEnv,
    op: &Operator,
    state: &FuncTranslationState,
    builder: &FunctionBuilder,
    span: SourceSpan,
) -> (b: bool)
    ensures
        b == translate::ready(env, *op, placed(state, builder, span)),
{
    let operands_there = match recipe(op) {
        Some(recipe) => match recipe.core {
            Core::Binary { .. } => state.stack.len() >= 2,
            _ => state.stack.len() >= 1,
        },
        None => true,
    };
    let address_there = match access(op) {
        Some((access, memarg)) => is_access_ready(access, memarg, state, builder, span),
        None => true,
    };
    builder.has_room_after_step(16) && operands_there && address_there && is_value_ready(
        env,
        op,
        state,
        builder,
        span,
    ) && is_control_ready(env, op, state, builder, span) && is_memory_ready(
        env,
        op,
        state,
        builder,
        span,
    )
}

/// Whether an operator finds what it needs, where the code cannot be reached.
fn is_ready_unreachable(
    env: &FuncEnv,
    op: &Operator,
    state: &FuncTranslationState,
    builder: &FunctionBuilder,
    span: SourceSpan,
) -> (b: bool)
    ensures
        b == translate::ready_unreachable(env, *op, placed(state, builder, span)),
{
    if !builder.has_room_after_step(16) {
        return false;
    }
    match op {
        Operator::If { blockty } => has_block_type(env, *blockty),
        Operator::Else => {
            if state.control_stack.len() == 0 {
                return false;
            }
            match state.control_stack[state.control_stack.len() - 1] {
                ControlStackFrame::If { original_stack_size, blocktype, .. } => {
                    if !has_block_type(env, blocktype) {
                        return false;
                    }
                    let (params, _) = block_counts(env, blocktype);
                    env.block_signature(blocktype).is_some() && original_stack_size
                        <= state.stack.len() && builder.has_room_after_step(params as u128)
                },
                _ => false,
            }
        },
        Operator::End => {
            if state.control_stack.len() == 0 {
                return false;
            }
            let frame = state.control_stack[state.control_stack.len() - 1];
            is_within(&frame, state, builder)
        },
        _ => true,
    }
}

/// Whether an operator at the given position finds what it needs.
pub fn is_ready(
    env: &FuncEnv,
    op: &Operator,
    state: &FuncTranslationState,
    builder: &FunctionBuilder,
    span: SourceSpan,
) -> (b: bool)
    ensures
        b == function::step_ready(env, *op, state.with(builder).does(Event::At(span))),
{
    if state.reachable {
        is_ready_reachable(env, op, state, builder, span)
    } else {
        is_ready_unreachable(env, op, state, builder, span)
    }
}

} // verus!

//! Translation of operators.
use vstd::prelude::*;
use crate::span::SourceSpan;
use crate::types::{Immediate, ScalarType};
use crate::wasm::builder::{Built, FunctionBuilder};
use crate::wasm::control::{
    self, translate_block, translate_br, translate_br_if, translate_br_table, translate_call,
    translate_else, translate_end, translate_if, translate_loop, translate_return, WasmError,
};
use crate::wasm::ir::{BinaryOp, Conversion, Event, IrType, Value};
use crate::wasm::memory::{
    self, translate_load, translate_load_sext, translate_load_zext, translate_memory_copy,
    translate_memory_fill, translate_mul_wide, translate_store, translate_wide,
};
use crate::wasm::operator::{BlockType, FuncEnv, MemArg, Operator, ValType};
use crate::wasm::recipe::{self, cook, recipe};
use crate::wasm::state::{ControlStackFrame, ElseData, FuncTranslationState, Trans};

verus! {

/// A value as it is assigned to a variable of type `expected`. An integer without a sign is
/// reinterpreted; any other type is cast.
pub open spec fn assignable(b: Built, value: Value, expected: ScalarType) -> (Built, Value) {
    let to = IrType::Scalar(expected);
    if value.ty == to {
        (b, value)
    } else if (expected == ScalarType::I32 && value.ty == IrType::Scalar(ScalarType::U32)) || (
    expected == ScalarType::I64 && value.ty == IrType::Scalar(ScalarType::U64)) {
        b.convert(Conversion::Bitcast, value, to)
    } else {
        b.convert(Conversion::Cast, value, to)
    }
}

/// The comparison and constant by which a condition is tested for a selection of type `ty`.
pub open spec fn select_test(ty: ValType) -> Option<(BinaryOp, Immediate)> {
    match ty {
        ValType::F32 => Some((BinaryOp::Gt, Immediate::Felt(0))),
        ValType::I32 => Some((BinaryOp::Neq, Immediate::I32(0))),
        ValType::I64 => Some((BinaryOp::Neq, Immediate::I64(0))),
        _ => None,
    }
}

/// The state after a selection: the first value if the test of the condition holds, else the
/// second.
pub open spec fn selected(t: Trans, test: (BinaryOp, Immediate)) -> Trans {
    let (b1, imm) = t.b.imm(test.1);
    let (b2, cond) = b1.binary(test.0, t.peek(0), imm);
    t.popped(3).gains(b2.select(cond, t.peek(2), t.peek(1)))
}

/// A memory access.
#[derive(Clone, Copy, PartialEq, Eq, Debug, Structural)]
pub enum Access {
    Load { ty: ScalarType },
    /// A load that extends the sign.
    LoadSext { ty: ScalarType, to: ScalarType },
    /// A load that extends with zeros.
    LoadZext { ty: ScalarType, to: ScalarType },
    Store { ty: ScalarType },
}

/// The access that a load or store makes.
pub open spec fn access_of(op: Operator) -> Option<(Access, MemArg)> {
    match op {
        Operator::I32Load8U { memarg } => Some((Access::LoadZext { ty: ScalarType::U8, to: ScalarType::U32 }, memarg)),
        Operator::I32Load16U { memarg } => Some((Access::LoadZext { ty: ScalarType::U16, to: ScalarType::U32 }, memarg)),
        Operator::I32Load8S { memarg } => Some((Access::LoadSext { ty: ScalarType::I8, to: ScalarType::I32 }, memarg)),
        Operator::I32Load16S { memarg } => Some((Access::LoadSext { ty: ScalarType::I16, to: ScalarType::I32 }, memarg)),
        Operator::I64Load8U { memarg } => Some((Access::LoadZext { ty: ScalarType::U8, to: ScalarType::U64 }, memarg)),
        Operator::I64Load16U { memarg } => Some((Access::LoadZext { ty: ScalarType::U16, to: ScalarType::U64 }, memarg)),
        Operator::I64Load8S { memarg } => Some((Access::LoadSext { ty: ScalarType::I8, to: ScalarType::I64 }, memarg)),
        Operator::I64Load16S { memarg } => Some((Access::LoadSext { ty: ScalarType::I16, to: ScalarType::I64 }, memarg)),
        Operator::I64Load32S { memarg } => Some((Access::LoadSext { ty: ScalarType::I32, to: ScalarType::I64 }, memarg)),
        Operator::I64Load32U { memarg } => Some((Access::LoadZext { ty: ScalarType::U32, to: ScalarType::U64 }, memarg)),
        Operator::I32Load { memarg } => Some((Access::Load { ty: ScalarType::I32 }, memarg)),
        Operator::I64Load { memarg } => Some((Access::Load { ty: ScalarType::I64 }, memarg)),
        Operator::F32Load { memarg } => Some((Access::Load { ty: ScalarType::Felt }, memarg)),
        Operator::I32Store { memarg } => Some((Access::Store { ty: ScalarType::I32 }, memarg)),
        Operator::I64Store { memarg } => Some((Access::Store { ty: ScalarType::I64 }, memarg)),
        Operator::F32Store { memarg } => Some((Access::Store { ty: ScalarType::Felt }, memarg)),
        Operator::I32Store8 { memarg } => Some((Access::Store { ty: ScalarType::U8 }, memarg)),
        Operator::I64Store8 { memarg } => Some((Access::Store { ty: ScalarType::U8 }, memarg)),
        Operator::I32Store16 { memarg } => Some((Access::Store { ty: ScalarType::U16 }, memarg)),
        Operator::I64Store16 { memarg } => Some((Access::Store { ty: ScalarType::U16 }, memarg)),
        Operator::I64Store32 { memarg } => Some((Access::Store { ty: ScalarType::U32 }, memarg)),
        _ => None,
    }
}

/// The access that a load or store makes.
pub fn access(op: &Operator) -> (access: Option<(Access, MemArg)>)
    ensures
        access == access_of(*op),
{
    match op {
        Operator::I32Load8U { memarg } => Some((Access::LoadZext { ty: ScalarType::U8, to: ScalarType::U32 }, *memarg)),
        Operator::I32Load16U { memarg } => Some((Access::LoadZext { ty: ScalarType::U16, to: ScalarType::U32 }, *memarg)),
        Operator::I32Load8S { memarg } => Some((Access::LoadSext { ty: ScalarType::I8, to: ScalarType::I32 }, *memarg)),
        Operator::I32Load16S { memarg } => Some((Access::LoadSext { ty: ScalarType::I16, to: ScalarType::I32 }, *memarg)),
        Operator::I64Load8U { memarg } => Some((Access::LoadZext { ty: ScalarType::U8, to: ScalarType::U64 }, *memarg)),
        Operator::I64Load16U { memarg } => Some((Access::LoadZext { ty: ScalarType::U16, to: ScalarType::U64 }, *memarg)),
        Operator::I64Load8S { memarg } => Some((Access::LoadSext { ty: ScalarType::I8, to: ScalarType::I64 }, *memarg)),
        Operator::I64Load16S { memarg } => Some((Access::LoadSext { ty: ScalarType::I16, to: ScalarType::I64 }, *memarg)),
        Operator::I64Load32S { memarg } => Some((Access::LoadSext { ty: ScalarType::I32, to: ScalarType::I64 }, *memarg)),
        Operator::I64Load32U { memarg } => Some((Access::LoadZext { ty: ScalarType::U32, to: ScalarType::U64 }, *memarg)),
        Operator::I32Load { memarg } => Some((Access::Load { ty: ScalarType::I32 }, *memarg)),
        Operator::I64Load { memarg } => Some((Access::Load { ty: ScalarType::I64 }, *memarg)),
        Operator::F32Load { memarg } => Some((Access::Load { ty: ScalarType::Felt }, *memarg)),
        Operator::I32Store { memarg } => Some((Access::Store { ty: ScalarType::I32 }, *memarg)),
        Operator::I64Store { memarg } => Some((Access::Store { ty: ScalarType::I64 }, *memarg)),
        Operator::F32Store { memarg } => Some((Access::Store { ty: ScalarType::Felt }, *memarg)),
        Operator::I32Store8 { memarg } => Some((Access::Store { ty: ScalarType::U8 }, *memarg)),
        Operator::I64Store8 { memarg } => Some((Access::Store { ty: ScalarType::U8 }, *memarg)),
        Operator::I32Store16 { memarg } => Some((Access::Store { ty: ScalarType::U16 }, *memarg)),
        Operator::I64Store16 { memarg } => Some((Access::Store { ty: ScalarType::U16 }, *memarg)),
        Operator::I64Store32 { memarg } => Some((Access::Store { ty: ScalarType::U32 }, *memarg)),
        _ => None,
    }
}

/// What an access makes of the state.
pub open spec fn accessed(t: Trans, access: Access, memarg: MemArg) -> Trans {
    match access {
        Access::Load { ty } => memory::loaded(t, ty, memarg),
        Access::LoadSext { ty, to } => memory::loaded_sext(t, ty, to, memarg),
        Access::LoadZext { ty, to } => memory::loaded_zext(t, ty, to, memarg),
        Access::Store { ty } => memory::stored(t, ty, memarg),
    }
}

/// What an access needs of the state: an address, and a value to store.
pub open spec fn access_ready(t: Trans, access: Access, memarg: MemArg) -> bool {
    &&& memarg.align < 32
    &&& match access {
        Access::Store { .. } => t.stack.len() >= 2 && memory::is_address(t.peek(1).ty),
        Access::LoadZext { ty, .. } => t.stack.len() >= 1 && memory::is_address(t.peek(0).ty)
            && IrType::Scalar(ty).is_unsigned(),
        _ => t.stack.len() >= 1 && memory::is_address(t.peek(0).ty),
    }
}

/// Translates an access.
pub fn translate_access(
    access: Access,
    memarg: MemArg,
    state: &mut FuncTranslationState,
    builder: &mut FunctionBuilder,
)
    requires
        access_ready(old(state).with(&*old(builder)), access, memarg),
        old(builder)@.has_room(16),
    ensures
        final(state).with(&*final(builder)) == accessed(
            old(state).with(&*old(builder)),
            access,
            memarg,
        ),
{
    match access {
        Access::Load { ty } => translate_load(ty, memarg, state, builder),
        Access::LoadSext { ty, to } => translate_load_sext(ty, to, memarg, state, builder),
        Access::LoadZext { ty, to } => translate_load_zext(ty, to, memarg, state, builder),
        Access::Store { ty } => translate_store(ty, memarg, state, builder),
    }
}

/// The operator is one of the operators on variables, globals, constants and the value stack.
pub open spec fn is_value_operator(op: Operator) -> bool {
    matches!(
        op,
        Operator::LocalGet { .. }
        | Operator::LocalSet { .. }
        | Operator::LocalTee { .. }
        | Operator::GlobalGet { .. }
        | Operator::GlobalSet { .. }
        | Operator::Drop
        | Operator::Select
        | Operator::TypedSelect { .. }
        | Operator::Nop
        | Operator::I32Const { .. }
        | Operator::I64Const { .. }
        | Operator::I64Add128
        | Operator::I64Sub128
        | Operator::I64MulWideU
        | Operator::I64MulWideS
    )
}

/// What one of the operators on variables, globals, constants and the value stack makes of the state.
pub open spec fn value_translated(env: &FuncEnv, op: Operator, t: Trans) -> (
    Trans,
    Result<(), WasmError>,
) {
    match op {
        Operator::LocalGet { local_index } => {
            let result = t.b.fresh(0, IrType::Scalar(env.variables@[local_index as int]));
            (
                t.gains((t.b.step(Event::UseVar { var: local_index, result }, 1), result)),
                Ok(()),
            )
        },
        Operator::LocalSet { local_index } => {
            let (b, value) = assignable(t.b, t.peek(0), env.variables@[local_index as int]);
            (
                Trans {
                    b: b.step(Event::DefVar { var: local_index, value }, 0),
                    ..t.popped(1)
                },
                Ok(()),
            )
        },
        Operator::LocalTee { local_index } => (
            t.does(Event::DefVar { var: local_index, value: t.peek(0) }),
            Ok(()),
        ),
        Operator::GlobalGet { global_index } => {
            let global = env.globals@[global_index as int];
            let result = t.b.fresh(0, IrType::Scalar(global.ty));
            (
                t.gains((t.b.step(Event::LoadGlobal { name: global.name, result }, 1), result)),
                Ok(()),
            )
        },
        Operator::GlobalSet { global_index } => (
            t.popped(1).does(
                Event::StoreGlobal {
                    name: env.globals@[global_index as int].name,
                    value: t.peek(0),
                },
            ),
            Ok(()),
        ),
        Operator::Drop => (t.popped(1), Ok(())),
        Operator::Select => (selected(t, (BinaryOp::Neq, Immediate::I32(0))), Ok(())),
        Operator::TypedSelect { ty } => (selected(t, select_test(ty)->0), Ok(())),
        Operator::Nop => (t, Ok(())),
        Operator::I32Const { value } => (t.gains(t.b.imm(Immediate::I32(value))), Ok(())),
        Operator::I64Const { value } => (t.gains(t.b.imm(Immediate::I64(value))), Ok(())),
        Operator::I64Add128 => (memory::wide(t, BinaryOp::AddWrapping), Ok(())),
        Operator::I64Sub128 => (memory::wide(t, BinaryOp::SubWrapping), Ok(())),
        Operator::I64MulWideU => (memory::mul_wide_u(t), Ok(())),
        Operator::I64MulWideS => (memory::mul_wide_s(t), Ok(())),
        _ => (t, Ok(())),
    }
}

/// What one of the operators on variables, globals, constants and the value stack needs of the state.
pub open spec fn value_ready(env: &FuncEnv, op: Operator, t: Trans) -> bool {
    match op {
        Operator::LocalGet { local_index } => local_index < env.variables@.len(),
        Operator::LocalSet { local_index } => local_index < env.variables@.len() && t.stack.len()
            >= 1,
        Operator::LocalTee { local_index } => t.stack.len() >= 1,
        Operator::GlobalGet { global_index } => global_index < env.globals@.len(),
        Operator::GlobalSet { global_index } => global_index < env.globals@.len() && t.stack.len()
            >= 1,
        Operator::Drop => t.stack.len() >= 1,
        Operator::Select => t.stack.len() >= 3,
        Operator::TypedSelect { ty } => t.stack.len() >= 3 && select_test(ty) is Some,
        Operator::I64Add128 | Operator::I64Sub128 => t.stack.len() >= 4,
        Operator::I64MulWideU | Operator::I64MulWideS => t.stack.len() >= 2,
        _ => true,
    }
}

/// The operator is one of the operators that direct control.
pub open spec fn is_control_operator(op: Operator) -> bool {
    matches!(
        op,
        Operator::Unreachable
        | Operator::Block { .. }
        | Operator::Loop { .. }
        | Operator::If { .. }
        | Operator::Else
        | Operator::End
        | Operator::Br { .. }
        | Operator::BrIf { .. }
        | Operator::BrTable { .. }
        | Operator::Return
        | Operator::Call { .. }
    )
}

/// What one of the operators that direct control makes of the state.
pub open spec fn control_translated(env: &FuncEnv, op: Operator, t: Trans) -> (
    Trans,
    Result<(), WasmError>,
) {
    match op {
        Operator::Unreachable => (
            Trans { reachable: false, ..t.does(Event::Unreachable) },
            Ok(()),
        ),
        Operator::Block { blockty } => if env.knows_block(blockty) {
            (control::block_entered(env, t, blockty), Ok(()))
        } else {
            (t, Err(WasmError::UnsupportedType))
        },
        Operator::Loop { blockty } => if env.knows_block(blockty) {
            (control::loop_entered(env, t, blockty), Ok(()))
        } else {
            (t, Err(WasmError::UnsupportedType))
        },
        Operator::If { blockty } => if env.knows_block(blockty) {
            (control::if_entered(env, t, blockty), Ok(()))
        } else {
            (t, Err(WasmError::UnsupportedType))
        },
        Operator::Else => (control::else_entered(env, t), Ok(())),
        Operator::End => (control::ended(t), Ok(())),
        Operator::Br { relative_depth } => (control::branched(t, relative_depth as int), Ok(())),
        Operator::BrIf { relative_depth } => (
            control::branched_if(t, relative_depth as int),
            Ok(()),
        ),
        Operator::BrTable { targets, default } => (
            control::branched_by_table(t, targets@, default),
            Ok(()),
        ),
        Operator::Return => if t.control[0].result_count() <= 1 {
            (control::returned(t), Ok(()))
        } else {
            (t, Err(WasmError::MultipleValues))
        },
        Operator::Call { function_index } => (control::called(env, t, function_index), Ok(())),
        _ => (t, Ok(())),
    }
}

/// What one of the operators that direct control needs of the state.
pub open spec fn control_ready(env: &FuncEnv, op: Operator, t: Trans) -> bool {
    match op {
        Operator::Block { blockty } => {
            &&& blockty matches BlockType::FuncType(i) ==> i < env.signatures@.len()
            &&& env.block_params(blockty).len() <= t.stack.len()
            &&& t.b.has_room(env.block_results(blockty).len())
        },
        Operator::Loop { blockty } => {
            &&& blockty matches BlockType::FuncType(i) ==> i < env.signatures@.len()
            &&& env.block_params(blockty).len() <= t.stack.len()
            &&& t.b.has_room(env.block_params(blockty).len() + env.block_results(blockty).len())
        },
        Operator::If { blockty } => {
            &&& blockty matches BlockType::FuncType(i) ==> i < env.signatures@.len()
            &&& env.block_params(blockty).len() < t.stack.len()
            &&& t.b.has_room(
                env.block_params(blockty).len() + env.block_results(blockty).len() + 2,
            )
        },
        Operator::Else => control::can_enter_else(env, t),
        Operator::End => control::can_end(t),
        Operator::Br { relative_depth } => control::can_branch(t, relative_depth as int),
        Operator::BrIf { relative_depth } => t.stack.len() >= 1 && control::can_branch(
            t.popped(1),
            relative_depth as int,
        ),
        Operator::BrTable { targets, default } => control::can_branch_by_table(
            t,
            targets@,
            default,
        ),
        Operator::Return => t.control.len() > 0 && t.control[0].result_count() <= t.stack.len(),
        Operator::Call { function_index } => control::can_call(env, t, function_index),
        _ => true,
    }
}

/// The operator is one of the operators that manage memory.
pub open spec fn is_memory_operator(op: Operator) -> bool {
    matches!(
        op,
        Operator::MemoryGrow
        | Operator::MemorySize
        | Operator::MemoryCopy { .. }
        | Operator::MemoryFill { .. }
    )
}

/// What one of the operators that manage memory makes of the state.
pub open spec fn memory_translated(env: &FuncEnv, op: Operator, t: Trans) -> (
    Trans,
    Result<(), WasmError>,
) {
    match op {
        Operator::MemoryGrow => {
            let (b1, pages) = t.b.bitcast_unless(t.peek(0), IrType::Scalar(ScalarType::U32));
            let result = b1.fresh(0, IrType::Scalar(ScalarType::U32));
            let b2 = b1.step(Event::MemGrow { pages, result }, 1);
            (
                t.popped(1).gains(
                    b2.convert(Conversion::Bitcast, result, IrType::Scalar(ScalarType::I32)),
                ),
                Ok(()),
            )
        },
        Operator::MemorySize => {
            let result = t.b.fresh(0, IrType::Scalar(ScalarType::U32));
            let b1 = t.b.step(Event::MemSize { result }, 1);
            (
                t.gains(
                    b1.convert(Conversion::Bitcast, result, IrType::Scalar(ScalarType::I32)),
                ),
                Ok(()),
            )
        },
        Operator::MemoryCopy { dst_mem, src_mem } => if src_mem == 0 && dst_mem == 0 {
            (memory::memory_copied(t), Ok(()))
        } else {
            (t, Err(WasmError::MultipleMemories))
        },
        Operator::MemoryFill { mem } => if mem == 0 {
            (memory::memory_filled(t), Ok(()))
        } else {
            (t, Err(WasmError::MultipleMemories))
        },
        _ => (t, Ok(())),
    }
}

/// What one of the operators that manage memory needs of the state.
pub open spec fn memory_ready(env: &FuncEnv, op: Operator, t: Trans) -> bool {
    match op {
        Operator::MemoryGrow => t.stack.len() >= 1,
        Operator::MemoryCopy { .. } => {
            &&& t.stack.len() >= 3
            &&& memory::is_address(t.peek(1).ty)
            &&& memory::is_address(t.peek(2).ty)
        },
        Operator::MemoryFill { .. } => t.stack.len() >= 3 && memory::is_address(t.peek(2).ty),
        _ => true,
    }
}

/// What an operator makes of the state, where the code can be reached.
pub open spec fn translated(env: &FuncEnv, op: Operator, t: Trans) -> (
    Trans,
    Result<(), WasmError>,
) {
    if let Some(recipe) = recipe::recipe_of(op) {
        (recipe::served(t, recipe), Ok(()))
    } else if let Some((access, memarg)) = access_of(op) {
        (accessed(t, access, memarg), Ok(()))
    } else if is_value_operator(op) {
        value_translated(env, op, t)
    } else if is_control_operator(op) {
        control_translated(env, op, t)
    } else if is_memory_operator(op) {
        memory_translated(env, op, t)
    } else {
        (t, Err(WasmError::UnsupportedOperator))
    }
}

/// What an operator needs of the state, where the code can be reached: that its operands are
/// there, with types it can work on, and that there are numbers for the values it defines.
pub open spec fn ready(env: &FuncEnv, op: Operator, t: Trans) -> bool {
    &&& t.b.has_room(16)
    &&& recipe::recipe_of(op) matches Some(recipe) ==> t.stack.len() >= recipe::arity(recipe.core)
    &&& access_of(op) matches Some((access, memarg)) ==> access_ready(t, access, memarg)
    &&& value_ready(env, op, t)
    &&& control_ready(env, op, t)
    &&& memory_ready(env, op, t)
}

/// Whether the code after a structure can be reached, where the end of the structure cannot.
pub open spec fn continues(frame: ControlStackFrame) -> bool {
    frame.is_left() || match frame {
        ControlStackFrame::If { head_is_reachable, consequent_ends_reachable, .. } =>
            head_is_reachable && (consequent_ends_reachable matches Some(end) ==> end),
        _ => false,
    }
}

/// The state after the end of the innermost structure, where that end cannot be reached.
pub open spec fn ended_unreachable(t: Trans) -> Trans {
    let frame = t.control.last();
    let next = frame.after();
    let b1 = match frame {
        ControlStackFrame::Loop { header, .. } => t.b.step(Event::SealBlock { block: header }, 0),
        _ => t.b,
    };
    let below = t.stack.take(frame.base());
    if continues(frame) {
        let b2 = b1.step(Event::SwitchToBlock { block: next }, 0);
        Trans {
            b: b2.step(Event::SealBlock { block: next }, 0),
            stack: below + t.b.params(next),
            control: t.control.drop_last(),
            reachable: true,
        }
    } else {
        Trans { b: b1, stack: below, control: t.control.drop_last(), ..t }
    }
}

/// The state in the `else` of the innermost `if`, where the end of its consequent cannot be
/// reached. If its head can, so can the `else`, which finds its parameters on the stack.
pub open spec fn else_entered_unreachable(env: &FuncEnv, t: Trans) -> Trans {
    let last = t.control.len() - 1;
    let t1 = Trans {
        control: t.control.update(last, control::consequent_ended(t.control[last], false)),
        ..t
    };
    match t.control[last] {
        ControlStackFrame::If {
            else_data,
            original_stack_size,
            blocktype,
            head_is_reachable,
            ..
        } => if !head_is_reachable {
            t1
        } else {
            let stack = t.stack.take(original_stack_size as int);
            match else_data {
                ElseData::NoElse { branch, placeholder } => {
                    let (b1, else_block) = t.b.create_block(env.block_params(blocktype));
                    let b2 = b1.step(
                        Event::ChangeJumpDestination { branch, from: placeholder, to: else_block },
                        0,
                    );
                    let b3 = b2.step(Event::SealBlock { block: else_block }, 0);
                    Trans {
                        b: b3.step(Event::SwitchToBlock { block: else_block }, 0),
                        stack,
                        reachable: true,
                        ..t1
                    }
                },
                ElseData::WithElse { else_block } => Trans {
                    b: t.b.step(Event::SwitchToBlock { block: else_block }, 0),
                    stack,
                    reachable: true,
                    ..t1
                },
            }
        },
        _ => t1,
    }
}

/// What an operator makes of the state, where the code cannot be reached. Only the start and end
/// of control structures matter.
pub open spec fn skipped(env: &FuncEnv, op: Operator, t: Trans) -> (Trans, Result<(), WasmError>) {
    match op {
        Operator::If { blockty } => if env.knows_block(blockty) {
            let (b1, block) = t.b.create_detached_block();
            (
                Trans {
                    b: b1.step(Event::Unreachable, 0),
                    control: t.control.push(
                        ControlStackFrame::If {
                            destination: block,
                            else_data: ElseData::NoElse {
                                branch: b1.log.len() as u32,
                                placeholder: block,
                            },
                            num_param_values: 0,
                            num_return_values: 0,
                            original_stack_size: t.stack.len() as usize,
                            exit_is_branched_to: false,
                            blocktype: blockty,
                            head_is_reachable: t.reachable,
                            consequent_ends_reachable: None,
                        },
                    ),
                    ..t
                },
                Ok(()),
            )
        } else {
            (t, Err(WasmError::UnsupportedType))
        },
        Operator::Loop { .. } | Operator::Block { .. } => {
            let (b, block) = t.b.create_detached_block();
            (
                Trans {
                    b,
                    control: t.control.push(
                        ControlStackFrame::Block {
                            destination: block,
                            num_param_values: 0,
                            num_return_values: 0,
                            original_stack_size: t.stack.len() as usize,
                            exit_is_branched_to: false,
                        },
                    ),
                    ..t
                },
                Ok(()),
            )
        },
        Operator::Else => (else_entered_unreachable(env, t), Ok(())),
        Operator::End => (ended_unreachable(t), Ok(())),
        _ => (t, Ok(())),
    }
}

/// What an operator needs of the state, where the code cannot be reached.
pub open spec fn ready_unreachable(env: &FuncEnv, op: Operator, t: Trans) -> bool {
    &&& t.b.has_room(16)
    &&& match op {
        Operator::If { blockty } => blockty matches BlockType::FuncType(i) ==> i
            < env.signatures@.len(),
        Operator::Else => {
            &&& t.control.len() > 0
            &&& match t.control.last() {
                ControlStackFrame::If { original_stack_size, blocktype, .. } => {
                    &&& blocktype matches BlockType::FuncType(i) ==> i < env.signatures@.len()
                    &&& env.knows_block(blocktype)
                    &&& original_stack_size <= t.stack.len()
                    &&& t.b.has_room(env.block_params(blocktype).len())
                },
                _ => false,
            }
        },
        Operator::End => {
            &&& t.control.len() > 0
            &&& 0 <= t.control.last().base() <= t.stack.len()
            &&& t.control.last().after().index < t.b.blocks.len()
        },
        _ => true,
    }
}

/// Translates an operator in code that cannot be reached.
pub fn translate_unreachable_operator(
    env: &FuncEnv,
    op: &Operator,
    builder: &mut FunctionBuilder,
    state: &mut FuncTranslationState,
) -> (result: Result<(), WasmError>)
    requires
        !old(state).reachable,
        ready_unreachable(env, *op, old(state).with(&*old(builder))),
    ensures
        (final(state).with(&*final(builder)), result) == skipped(
            env,
            *op,
            old(state).with(&*old(builder)),
        ),
{
    let ghost before = state.with(builder);
    match op {
        Operator::If { blockty } => {
            match env.block_signature(*blockty) {
                Some(_) => {},
                None => {
                    return Err(WasmError::UnsupportedType);
                },
            }
            let detached_block = builder.create_detached_block();
            let branch: u32 = builder.num_steps() as u32;
            builder.push(Event::Unreachable);
            state.push_if(
                detached_block,
                ElseData::NoElse { branch, placeholder: detached_block },
                0,
                0,
                *blockty,
            );
        },
        Operator::Loop { .. } | Operator::Block { .. } => {
            let detached_block = builder.create_detached_block();
            state.push_block(detached_block, 0, 0);
        },
        Operator::Else => {
            unreachable_else(env, builder, state);
        },
        Operator::End => {
            let last: usize = state.control_stack.len() - 1;
            let frame = state.control_stack[last];
            state.control_stack.truncate(last);
            state.truncate_to_base(&frame);
            let reachable_anyway = match frame {
                ControlStackFrame::Loop { header, .. } => {
                    builder.push(Event::SealBlock { block: header });
                    false
                },
                ControlStackFrame::If {
                    head_is_reachable,
                    consequent_ends_reachable: None,
                    ..
                } => head_is_reachable,
                ControlStackFrame::If {
                    head_is_reachable,
                    consequent_ends_reachable: Some(consequent_ends_reachable),
                    ..
                } => head_is_reachable && consequent_ends_reachable,
                _ => false,
            };
            if frame.exit_is_branched_to() || reachable_anyway {
                let next_block = frame.following_code();
                builder.push(Event::SwitchToBlock { block: next_block });
                builder.push(Event::SealBlock { block: next_block });
                let next_block_args = builder.block_params(next_block);
                state.pushn(next_block_args.as_slice());
                state.reachable = true;
            }
        },
        _ => {},
    }
    assert(state.with(builder) =~= skipped(env, *op, before).0);
    Ok(())
}

fn unreachable_else(env: &FuncEnv, builder: &mut FunctionBuilder, state: &mut FuncTranslationState)
    requires
        !old(state).reachable,
        ready_unreachable(env, Operator::Else, old(state).with(&*old(builder))),
    ensures
        final(state).with(&*final(builder)) == else_entered_unreachable(
            env,
            old(state).with(&*old(builder)),
        ),
{
    let ghost before = state.with(builder);
    let last: usize = state.control_stack.len() - 1;
    let frame = state.control_stack[last];
    if let ControlStackFrame::If {
        destination,
        else_data,
        num_param_values,
        num_return_values,
        original_stack_size,
        exit_is_branched_to,
        blocktype,
        head_is_reachable,
        consequent_ends_reachable: _,
    } = frame {
        state.control_stack.set(
            last,
            ControlStackFrame::If {
                destination,
                else_data,
                num_param_values,
                num_return_values,
                original_stack_size,
                exit_is_branched_to,
                blocktype,
                head_is_reachable,
                consequent_ends_reachable: Some(false),
            },
        );
        if head_is_reachable {
            state.reachable = true;
            let else_block = match else_data {
                ElseData::NoElse { branch, placeholder } => {
                    if let Some((params, _)) = env.block_signature(blocktype) {
                        let else_block = builder.create_block_with_params(params.as_slice());
                        builder.push(
                            Event::ChangeJumpDestination {
                                branch,
                                from: placeholder,
                                to: else_block,
                            },
                        );
                        builder.push(Event::SealBlock { block: else_block });
                        else_block
                    } else {
                        placeholder
                    }
                },
                ElseData::WithElse { else_block } => else_block,
            };
            state.stack.truncate(original_stack_size);
            builder.push(Event::SwitchToBlock { block: else_block });
        }
    }
    assert(state.with(builder) =~= else_entered_unreachable(env, before));
}

fn select(
    op: BinaryOp,
    imm: Immediate,
    state: &mut FuncTranslationState,
    builder: &mut FunctionBuilder,
)
    requires
        old(state).stack@.len() >= 3,
        old(builder)@.next + 3 <= u32::MAX,
    ensures
        final(state).with(&*final(builder)) == selected(
            old(state).with(&*old(builder)),
            (op, imm),
        ),
{
    let ghost before = state.with(builder);
    let (arg1, arg2, cond) = state.pop3();
    let zero = builder.imm(imm);
    let cond_i1 = builder.binary(op, cond, zero);
    let value = builder.select(cond_i1, arg1, arg2);
    state.push1(value);
    assert(state.with(builder) =~= selected(before, (op, imm)));
}

/// Translates one of the operators on variables, globals, constants and the value stack.
pub fn translate_value_operator(
    env: &FuncEnv,
    op: &Operator,
    builder: &mut FunctionBuilder,
    state: &mut FuncTranslationState,
) -> (result: Result<(), WasmError>)
    requires
        is_value_operator(*op),
        old(builder)@.has_room(16),
        value_ready(env, *op, old(state).with(&*old(builder))),
    ensures
        (final(state).with(&*final(builder)), result) == value_translated(
            env,
            *op,
            old(state).with(&*old(builder)),
        ),
{
    let ghost before = state.with(builder);
    match op {
        Operator::LocalGet { local_index } => {
            let value = builder.use_var(*local_index, env.variables[*local_index as usize]);
            state.push1(value);
        },
        Operator::LocalSet { local_index } => {
            let value = state.pop1();
            let expected: ScalarType = env.variables[*local_index as usize];
            let to = IrType::Scalar(expected);
            let value = if value.ty == to {
                value
            } else if (expected == ScalarType::I32 && value.ty == IrType::Scalar(ScalarType::U32))
                || (expected == ScalarType::I64 && value.ty == IrType::Scalar(ScalarType::U64)) {
                builder.convert(Conversion::Bitcast, value, to)
            } else {
                builder.convert(Conversion::Cast, value, to)
            };
            builder.push(Event::DefVar { var: *local_index, value });
        },
        Operator::LocalTee { local_index } => {
            let value = state.peek1();
            builder.push(Event::DefVar { var: *local_index, value });
        },
        Operator::GlobalGet { global_index } => {
            let global = env.globals[*global_index as usize];
            let value = builder.load_global(global.name, global.ty);
            state.push1(value);
        },
        Operator::GlobalSet { global_index } => {
            let global = env.globals[*global_index as usize];
            let value = state.pop1();
            builder.push(Event::StoreGlobal { name: global.name, value });
        },
        Operator::Drop => {
            let _ = state.pop1();
        },
        Operator::Select => {
            select(BinaryOp::Neq, Immediate::I32(0), state, builder);
        },
        Operator::TypedSelect { ty } => match ty {
            ValType::F32 => {
                select(BinaryOp::Gt, Immediate::Felt(0), state, builder);
            },
            ValType::I64 => {
                select(BinaryOp::Neq, Immediate::I64(0), state, builder);
            },
            _ => {
                select(BinaryOp::Neq, Immediate::I32(0), state, builder);
            },
        },
        Operator::Nop => {},
        Operator::I32Const { value } => {
            let value = builder.imm(Immediate::I32(*value));
            state.push1(value);
        },
        Operator::I64Const { value } => {
            let value = builder.imm(Immediate::I64(*value));
            state.push1(value);
        },
        Operator::I64Add128 => {
            translate_wide(BinaryOp::AddWrapping, state, builder);
        },
        Operator::I64Sub128 => {
            translate_wide(BinaryOp::SubWrapping, state, builder);
        },
        Operator::I64MulWideU => {
            translate_mul_wide(false, state, builder);
        },
        Operator::I64MulWideS => {
            translate_mul_wide(true, state, builder);
        },
        _ => {},
    }
    assert(state.with(builder) =~= value_translated(env, *op, before).0);
    Ok(())
}

fn is_value(op: &Operator) -> (b: bool)
    ensures
        b == is_value_operator(*op),
{
    matches!(
        op,
        Operator::LocalGet { .. }
        | Operator::LocalSet { .. }
        | Operator::LocalTee { .. }
        | Operator::GlobalGet { .. }
        | Operator::GlobalSet { .. }
        | Operator::Drop
        | Operator::Select
        | Operator::TypedSelect { .. }
        | Operator::Nop
        | Operator::I32Const { .. }
        | Operator::I64Const { .. }
        | Operator::I64Add128
        | Operator::I64Sub128
        | Operator::I64MulWideU
        | Operator::I64MulWideS
    )
}

/// Translates one of the operators that direct control.
pub fn translate_control_operator(
    env: &FuncEnv,
    op: &Operator,
    builder: &mut FunctionBuilder,
    state: &mut FuncTranslationState,
) -> (result: Result<(), WasmError>)
    requires
        is_control_operator(*op),
        old(builder)@.has_room(16),
        control_ready(env, *op, old(state).with(&*old(builder))),
    ensures
        (final(state).with(&*final(builder)), result) == control_translated(
            env,
            *op,
            old(state).with(&*old(builder)),
        ),
{
    let ghost before = state.with(builder);
    match op {
        Operator::Unreachable => {
            builder.push(Event::Unreachable);
            state.reachable = false;
        },
        Operator::Block { blockty } => {
            return translate_block(env, *blockty, builder, state);
        },
        Operator::Loop { blockty } => {
            return translate_loop(env, *blockty, builder, state);
        },
        Operator::If { blockty } => {
            return translate_if(env, *blockty, state, builder);
        },
        Operator::Else => {
            translate_else(env, state, builder);
        },
        Operator::End => {
            translate_end(state, builder);
        },
        Operator::Br { relative_depth } => {
            translate_br(state, *relative_depth, builder);
        },
        Operator::BrIf { relative_depth } => {
            translate_br_if(*relative_depth, builder, state);
        },
        Operator::BrTable { targets, default } => {
            translate_br_table(targets, *default, state, builder);
        },
        Operator::Return => {
            return translate_return(state, builder);
        },
        Operator::Call { function_index } => {
            translate_call(env, state, builder, *function_index);
        },
        _ => {},
    }
    assert(state.with(builder) =~= control_translated(env, *op, before).0);
    Ok(())
}

fn is_control(op: &Operator) -> (b: bool)
    ensures
        b == is_control_operator(*op),
{
    matches!(
        op,
        Operator::Unreachable
        | Operator::Block { .. }
        | Operator::Loop { .. }
        | Operator::If { .. }
        | Operator::Else
        | Operator::End
        | Operator::Br { .. }
        | Operator::BrIf { .. }
        | Operator::BrTable { .. }
        | Operator::Return
        | Operator::Call { .. }
    )
}

/// Translates one of the operators that manage memory.
pub fn translate_memory_operator(
    env: &FuncEnv,
    op: &Operator,
    builder: &mut FunctionBuilder,
    state: &mut FuncTranslationState,
) -> (result: Result<(), WasmError>)
    requires
        is_memory_operator(*op),
        old(builder)@.has_room(16),
        memory_ready(env, *op, old(state).with(&*old(builder))),
    ensures
        (final(state).with(&*final(builder)), result) == memory_translated(
            env,
            *op,
            old(state).with(&*old(builder)),
        ),
{
    let ghost before = state.with(builder);
    match op {
        Operator::MemoryGrow => {
            let top = state.pop1();
            let pages = builder.bitcast_unless(top, IrType::Scalar(ScalarType::U32));
            let result = builder.mem_grow(pages);
            let value = builder.convert(
                Conversion::Bitcast,
                result,
                IrType::Scalar(ScalarType::I32),
            );
            state.push1(value);
        },
        Operator::MemorySize => {
            let result = builder.mem_size();
            let value = builder.convert(
                Conversion::Bitcast,
                result,
                IrType::Scalar(ScalarType::I32),
            );
            state.push1(value);
        },
        Operator::MemoryCopy { dst_mem, src_mem } => {
            if *src_mem == 0 && *dst_mem == 0 {
                translate_memory_copy(state, builder);
            } else {
                return Err(WasmError::MultipleMemories);
            }
        },
        Operator::MemoryFill { mem } => {
            if *mem != 0 {
                return Err(WasmError::MultipleMemories);
            }
            translate_memory_fill(state, builder);
        },
        _ => {},
    }
    assert(state.with(builder) =~= memory_translated(env, *op, before).0);
    Ok(())
}

fn is_memory(op: &Operator) -> (b: bool)
    ensures
        b == is_memory_operator(*op),
{
    matches!(
        op,
        Operator::MemoryGrow
        | Operator::MemorySize
        | Operator::MemoryCopy { .. }
        | Operator::MemoryFill { .. }
    )
}

/// Translates an operator.
pub fn translate_operator(
    env: &FuncEnv,
    op: &Operator,
    builder: &mut FunctionBuilder,
    state: &mut FuncTranslationState,
    span: SourceSpan,
) -> (result: Result<(), WasmError>)
    requires
        ({
            let t = old(state).with(&*old(builder)).does(Event::At(span));
            if t.reachable {
                ready(env, *op, t)
            } else {
                ready_unreachable(env, *op, t)
            }
        }),
    ensures
        ({
            let t = old(state).with(&*old(builder)).does(Event::At(span));
            (final(state).with(&*final(builder)), result) == (if t.reachable {
                translated(env, *op, t)
            } else {
                skipped(env, *op, t)
            })
        }),
{
    builder.push(Event::At(span));
    if !state.reachable {
        return translate_unreachable_operator(env, op, builder, state);
    }
    if let Some(recipe) = recipe(op) {
        cook(recipe, state, builder);
        Ok(())
    } else if let Some((access, memarg)) = access(op) {
        translate_access(access, memarg, state, builder);
        Ok(())
    } else if is_value(op) {
        translate_value_operator(env, op, builder, state)
    } else if is_control(op) {
        translate_control_operator(env, op, builder, state)
    } else if is_memory(op) {
        translate_memory_operator(env, op, builder, state)
    } else {
        Err(WasmError::UnsupportedOperator)
    }
}

} // verus!

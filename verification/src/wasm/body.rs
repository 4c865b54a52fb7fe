//! The bytes of functions.
use vstd::prelude::*;
use wasmparser::{BinaryReader, BlockType as Type, Operator as Wasm, ValType as Val};
use crate::wasm::debug_info::LocalDecl;
use crate::wasm::operator::{BlockType, MemArg, Operator, OperatorView, ValType};

verus! {

/// An operator as `wasmparser` reads it.
#[verifier::external_type_specification]
#[verifier::external_body]
pub struct ExWasm<'a>(Wasm<'a>);

/// The operator that stands in the library for one of `wasmparser`: the one of the same name, with
/// the same operands, or [Operator::Other] if there is none.
pub uninterp spec fn meaning(op: Wasm) -> OperatorView;

/// The operator at the start of the bytes, and how many bytes it takes; none if there is no valid
/// one.
pub uninterp spec fn operator_at(bytes: Seq<u8>) -> Option<(OperatorView, usize)>;

/// The number at the start of the bytes, in the variable-length form of WebAssembly, and how many
/// bytes it takes; none if there is no valid one.
pub uninterp spec fn number_at(bytes: Seq<u8>) -> Option<(u32, usize)>;

/// The declaration of locals at the start of the bytes, if there is a valid one, and how many bytes
/// were read.
pub uninterp spec fn local_at(bytes: Seq<u8>) -> (Option<LocalDecl>, usize);

/// `wasmparser::BinaryReader::read_var_u32` reads a number from the start of the bytes. What it
/// reads depends on the bytes alone.
#[verifier::external_body]
fn read_number(bytes: &[u8]) -> (read: Option<(u32, usize)>)
    ensures
        read == number_at(bytes@),
        read matches Some((_, used)) ==> used <= bytes@.len(),
{
    let mut reader = BinaryReader::new(bytes, 0);
    match reader.read_var_u32() {
        Ok(number) => Some((number, reader.current_position())),
        Err(_) => None,
    }
}

/// `wasmparser::BinaryReader::read` reads the number and the type of a declaration of locals from
/// the start of the bytes, as `LocalsReader::read` does. What it reads, and how far it gets where
/// there is no declaration, depends on the bytes alone.
#[verifier::external_body]
fn read_local(bytes: &[u8]) -> (read: (Option<LocalDecl>, usize))
    ensures
        read == local_at(bytes@),
        read.1 <= bytes@.len(),
        read.0 is Some ==> read.1 > 0,
{
    let mut reader = BinaryReader::new(bytes, 0);
    let Ok(count) = reader.read::<u32>() else { return (None, reader.current_position()) };
    let ty = match reader.read::<Val>() {
        Ok(Val::I32) => ValType::I32,
        Ok(Val::I64) => ValType::I64,
        Ok(Val::F32) => ValType::F32,
        Ok(Val::F64) => ValType::F64,
        Ok(Val::V128) => ValType::V128,
        Ok(Val::Ref(_)) => ValType::Ref,
        Err(_) => return (None, reader.current_position()),
    };
    (Some(LocalDecl { count, ty }), reader.current_position())
}

/// `wasmparser::BinaryReader::read_operator` reads an operator from the start of the bytes. What it
/// reads depends on the bytes alone. It reads at least the opcode.
#[verifier::external_body]
fn read_operator<'a>(bytes: &'a [u8]) -> (read: Option<(Wasm<'a>, usize)>)
    ensures
        match read {
            Some((op, used)) => operator_at(bytes@) == Some((meaning(op), used)) && 0 < used
                <= bytes@.len(),
            None => operator_at(bytes@) is None,
        },
{
    let mut reader = BinaryReader::new(bytes, 0);
    match reader.read_operator() {
        Ok(op) => Some((op, reader.current_position())),
        Err(_) => None,
    }
}

/// The operator is one of those that need nothing but the value stack and the control stack.
pub open spec fn is_simple(op: OperatorView) -> bool {
    op matches OperatorView::Plain(op) && matches!(
        op,
        Operator::Drop
        | Operator::Select
        | Operator::Unreachable
        | Operator::Nop
        | Operator::Else
        | Operator::End
        | Operator::Return
    )
}

/// An operator of `wasmparser` that is one of those that need nothing but the value stack and the
/// control stack, as the library writes it.
#[verifier::external_body]
fn simple(op: &Wasm) -> (found: Option<Operator>)
    ensures
        match found {
            Some(found) => is_simple(found@) && meaning(*op) == found@,
            None => !is_simple(meaning(*op)),
        },
{
    Some(match op {
        Wasm::Drop => Operator::Drop, Wasm::Select => Operator::Select,
        Wasm::Unreachable => Operator::Unreachable, Wasm::Nop => Operator::Nop,
        Wasm::Else => Operator::Else, Wasm::End => Operator::End,
        Wasm::Return => Operator::Return,
        _ => return None,
    })
}

/// The operator is one of the numeric operators with one operand.
pub open spec fn is_unary(op: OperatorView) -> bool {
    op matches OperatorView::Plain(op) && matches!(
        op,
        Operator::I32Clz
        | Operator::I64Clz
        | Operator::I32Ctz
        | Operator::I64Ctz
        | Operator::I32Popcnt
        | Operator::I64Popcnt
        | Operator::I32Extend8S
        | Operator::I32Extend16S
        | Operator::I64ExtendI32S
        | Operator::I64ExtendI32U
        | Operator::I32WrapI64
        | Operator::F32ReinterpretI32
        | Operator::I32Eqz
        | Operator::I64Eqz
    )
}

/// An operator of `wasmparser` that is one of the numeric operators with one operand, as the
/// library writes it.
#[verifier::external_body]
fn unary(op: &Wasm) -> (found: Option<Operator>)
    ensures
        match found {
            Some(found) => is_unary(found@) && meaning(*op) == found@,
            None => !is_unary(meaning(*op)),
        },
{
    Some(match op {
        Wasm::I32Clz => Operator::I32Clz, Wasm::I64Clz => Operator::I64Clz,
        Wasm::I32Ctz => Operator::I32Ctz, Wasm::I64Ctz => Operator::I64Ctz,
        Wasm::I32Popcnt => Operator::I32Popcnt, Wasm::I64Popcnt => Operator::I64Popcnt,
        Wasm::I32Extend8S => Operator::I32Extend8S, Wasm::I32Extend16S => Operator::I32Extend16S,
        Wasm::I64ExtendI32S => Operator::I64ExtendI32S, Wasm::I64ExtendI32U => Operator::I64ExtendI32U,
        Wasm::I32WrapI64 => Operator::I32WrapI64, Wasm::F32ReinterpretI32 => Operator::F32ReinterpretI32,
        Wasm::I32Eqz => Operator::I32Eqz, Wasm::I64Eqz => Operator::I64Eqz,
        _ => return None,
    })
}

/// The operator is one of the comparisons of narrow integers.
pub open spec fn is_comparison_32(op: OperatorView) -> bool {
    op matches OperatorView::Plain(op) && matches!(
        op,
        Operator::I32LtU
        | Operator::I32LtS
        | Operator::I32LeU
        | Operator::I32LeS
        | Operator::I32GtU
        | Operator::I32GtS
        | Operator::I32GeU
        | Operator::I32GeS
        | Operator::I32Eq
        | Operator::I32Ne
    )
}

/// An operator of `wasmparser` that is one of the comparisons of narrow integers, as the library
/// writes it.
#[verifier::external_body]
fn comparison_32(op: &Wasm) -> (found: Option<Operator>)
    ensures
        match found {
            Some(found) => is_comparison_32(found@) && meaning(*op) == found@,
            None => !is_comparison_32(meaning(*op)),
        },
{
    Some(match op {
        Wasm::I32LtU => Operator::I32LtU, Wasm::I32LtS => Operator::I32LtS,
        Wasm::I32LeU => Operator::I32LeU, Wasm::I32LeS => Operator::I32LeS,
        Wasm::I32GtU => Operator::I32GtU, Wasm::I32GtS => Operator::I32GtS,
        Wasm::I32GeU => Operator::I32GeU, Wasm::I32GeS => Operator::I32GeS,
        Wasm::I32Eq => Operator::I32Eq, Wasm::I32Ne => Operator::I32Ne,
        _ => return None,
    })
}

/// The operator is one of the comparisons of wide integers.
pub open spec fn is_comparison_64(op: OperatorView) -> bool {
    op matches OperatorView::Plain(op) && matches!(
        op,
        Operator::I64LtU
        | Operator::I64LtS
        | Operator::I64LeU
        | Operator::I64LeS
        | Operator::I64GtU
        | Operator::I64GtS
        | Operator::I64GeU
        | Operator::I64GeS
        | Operator::I64Eq
        | Operator::I64Ne
    )
}

/// An operator of `wasmparser` that is one of the comparisons of wide integers, as the library
/// writes it.
#[verifier::external_body]
fn comparison_64(op: &Wasm) -> (found: Option<Operator>)
    ensures
        match found {
            Some(found) => is_comparison_64(found@) && meaning(*op) == found@,
            None => !is_comparison_64(meaning(*op)),
        },
{
    Some(match op {
        Wasm::I64LtU => Operator::I64LtU, Wasm::I64LtS => Operator::I64LtS,
        Wasm::I64LeU => Operator::I64LeU, Wasm::I64LeS => Operator::I64LeS,
        Wasm::I64GtU => Operator::I64GtU, Wasm::I64GtS => Operator::I64GtS,
        Wasm::I64GeU => Operator::I64GeU, Wasm::I64GeS => Operator::I64GeS,
        Wasm::I64Eq => Operator::I64Eq, Wasm::I64Ne => Operator::I64Ne,
        _ => return None,
    })
}

/// The operator is one of the operators on bits.
pub open spec fn is_bitwise(op: OperatorView) -> bool {
    op matches OperatorView::Plain(op) && matches!(
        op,
        Operator::I32And
        | Operator::I64And
        | Operator::I32Or
        | Operator::I64Or
        | Operator::I32Xor
        | Operator::I64Xor
        | Operator::I32Shl
        | Operator::I64Shl
        | Operator::I32ShrU
        | Operator::I64ShrU
        | Operator::I32ShrS
        | Operator::I64ShrS
        | Operator::I32Rotl
        | Operator::I64Rotl
        | Operator::I32Rotr
        | Operator::I64Rotr
    )
}

/// An operator of `wasmparser` that is one of the operators on bits, as the library writes it.
#[verifier::external_body]
fn bitwise(op: &Wasm) -> (found: Option<Operator>)
    ensures
        match found {
            Some(found) => is_bitwise(found@) && meaning(*op) == found@,
            None => !is_bitwise(meaning(*op)),
        },
{
    Some(match op {
        Wasm::I32And => Operator::I32And, Wasm::I64And => Operator::I64And,
        Wasm::I32Or => Operator::I32Or, Wasm::I64Or => Operator::I64Or,
        Wasm::I32Xor => Operator::I32Xor, Wasm::I64Xor => Operator::I64Xor,
        Wasm::I32Shl => Operator::I32Shl, Wasm::I64Shl => Operator::I64Shl,
        Wasm::I32ShrU => Operator::I32ShrU, Wasm::I64ShrU => Operator::I64ShrU,
        Wasm::I32ShrS => Operator::I32ShrS, Wasm::I64ShrS => Operator::I64ShrS,
        Wasm::I32Rotl => Operator::I32Rotl, Wasm::I64Rotl => Operator::I64Rotl,
        Wasm::I32Rotr => Operator::I32Rotr, Wasm::I64Rotr => Operator::I64Rotr,
        _ => return None,
    })
}

/// The operator is one of the operators of arithmetic.
pub open spec fn is_arithmetic(op: OperatorView) -> bool {
    op matches OperatorView::Plain(op) && matches!(
        op,
        Operator::I32Add
        | Operator::I64Add
        | Operator::I64Add128
        | Operator::I32Sub
        | Operator::I64Sub
        | Operator::I64Sub128
        | Operator::I32Mul
        | Operator::I64Mul
        | Operator::I64MulWideU
        | Operator::I64MulWideS
        | Operator::I32DivS
        | Operator::I64DivS
        | Operator::I32DivU
        | Operator::I64DivU
        | Operator::I32RemU
        | Operator::I64RemU
        | Operator::I32RemS
        | Operator::I64RemS
    )
}

/// An operator of `wasmparser` that is one of the operators of arithmetic, as the library writes
/// it.
#[verifier::external_body]
fn arithmetic(op: &Wasm) -> (found: Option<Operator>)
    ensures
        match found {
            Some(found) => is_arithmetic(found@) && meaning(*op) == found@,
            None => !is_arithmetic(meaning(*op)),
        },
{
    Some(match op {
        Wasm::I32Add => Operator::I32Add, Wasm::I64Add => Operator::I64Add,
        Wasm::I64Add128 => Operator::I64Add128, Wasm::I32Sub => Operator::I32Sub,
        Wasm::I64Sub => Operator::I64Sub, Wasm::I64Sub128 => Operator::I64Sub128,
        Wasm::I32Mul => Operator::I32Mul, Wasm::I64Mul => Operator::I64Mul,
        Wasm::I64MulWideU => Operator::I64MulWideU, Wasm::I64MulWideS => Operator::I64MulWideS,
        Wasm::I32DivS => Operator::I32DivS, Wasm::I64DivS => Operator::I64DivS,
        Wasm::I32DivU => Operator::I32DivU, Wasm::I64DivU => Operator::I64DivU,
        Wasm::I32RemU => Operator::I32RemU, Wasm::I64RemU => Operator::I64RemU,
        Wasm::I32RemS => Operator::I32RemS, Wasm::I64RemS => Operator::I64RemS,
        _ => return None,
    })
}

/// The operator is one of the loads of narrow values.
pub open spec fn is_load_32(op: OperatorView) -> bool {
    op matches OperatorView::Plain(op) && matches!(
        op,
        Operator::I32Load8U { .. }
        | Operator::I32Load16U { .. }
        | Operator::I32Load8S { .. }
        | Operator::I32Load16S { .. }
        | Operator::I32Load { .. }
        | Operator::F32Load { .. }
    )
}

/// An operator of `wasmparser` that is one of the loads of narrow values, as the library writes it.
#[verifier::external_body]
fn load_32(op: &Wasm) -> (found: Option<Operator>)
    ensures
        match found {
            Some(found) => is_load_32(found@) && meaning(*op) == found@,
            None => !is_load_32(meaning(*op)),
        },
{
    let arg = match op {
        Wasm::I32Load8U { memarg } | Wasm::I32Load16U { memarg } | Wasm::I32Load8S { memarg }
        | Wasm::I32Load16S { memarg } | Wasm::I32Load { memarg } | Wasm::F32Load { memarg } => memarg,
        _ => return None,
    };
    let memarg = MemArg { align: arg.align, offset: arg.offset };
    Some(match op {
        Wasm::I32Load8U { .. } => Operator::I32Load8U { memarg }, Wasm::I32Load16U { .. } => Operator::I32Load16U { memarg },
        Wasm::I32Load8S { .. } => Operator::I32Load8S { memarg }, Wasm::I32Load16S { .. } => Operator::I32Load16S { memarg },
        Wasm::I32Load { .. } => Operator::I32Load { memarg }, Wasm::F32Load { .. } => Operator::F32Load { memarg },
        _ => return None,
    })
}

/// The operator is one of the loads of wide integers.
pub open spec fn is_load_64(op: OperatorView) -> bool {
    op matches OperatorView::Plain(op) && matches!(
        op,
        Operator::I64Load8U { .. }
        | Operator::I64Load16U { .. }
        | Operator::I64Load8S { .. }
        | Operator::I64Load16S { .. }
        | Operator::I64Load32S { .. }
        | Operator::I64Load32U { .. }
        | Operator::I64Load { .. }
    )
}

/// An operator of `wasmparser` that is one of the loads of wide integers, as the library writes it.
#[verifier::external_body]
fn load_64(op: &Wasm) -> (found: Option<Operator>)
    ensures
        match found {
            Some(found) => is_load_64(found@) && meaning(*op) == found@,
            None => !is_load_64(meaning(*op)),
        },
{
    let arg = match op {
        Wasm::I64Load8U { memarg } | Wasm::I64Load16U { memarg } | Wasm::I64Load8S { memarg }
        | Wasm::I64Load16S { memarg } | Wasm::I64Load32S { memarg } | Wasm::I64Load32U { memarg }
        | Wasm::I64Load { memarg } => memarg,
        _ => return None,
    };
    let memarg = MemArg { align: arg.align, offset: arg.offset };
    Some(match op {
        Wasm::I64Load8U { .. } => Operator::I64Load8U { memarg }, Wasm::I64Load16U { .. } => Operator::I64Load16U { memarg },
        Wasm::I64Load8S { .. } => Operator::I64Load8S { memarg }, Wasm::I64Load16S { .. } => Operator::I64Load16S { memarg },
        Wasm::I64Load32S { .. } => Operator::I64Load32S { memarg }, Wasm::I64Load32U { .. } => Operator::I64Load32U { memarg },
        Wasm::I64Load { .. } => Operator::I64Load { memarg },
        _ => return None,
    })
}

/// The operator is one of the stores of narrow values.
pub open spec fn is_store_32(op: OperatorView) -> bool {
    op matches OperatorView::Plain(op) && matches!(
        op,
        Operator::I32Store { .. }
        | Operator::F32Store { .. }
        | Operator::I32Store8 { .. }
        | Operator::I32Store16 { .. }
    )
}

/// An operator of `wasmparser` that is one of the stores of narrow values, as the library writes
/// it.
#[verifier::external_body]
fn store_32(op: &Wasm) -> (found: Option<Operator>)
    ensures
        match found {
            Some(found) => is_store_32(found@) && meaning(*op) == found@,
            None => !is_store_32(meaning(*op)),
        },
{
    let arg = match op {
        Wasm::I32Store { memarg } | Wasm::F32Store { memarg } | Wasm::I32Store8 { memarg }
        | Wasm::I32Store16 { memarg } => memarg,
        _ => return None,
    };
    let memarg = MemArg { align: arg.align, offset: arg.offset };
    Some(match op {
        Wasm::I32Store { .. } => Operator::I32Store { memarg },
        Wasm::F32Store { .. } => Operator::F32Store { memarg },
        Wasm::I32Store8 { .. } => Operator::I32Store8 { memarg },
        Wasm::I32Store16 { .. } => Operator::I32Store16 { memarg },
        _ => return None,
    })
}

/// The operator is one of the stores of wide integers.
pub open spec fn is_store_64(op: OperatorView) -> bool {
    op matches OperatorView::Plain(op) && matches!(
        op,
        Operator::I64Store { .. }
        | Operator::I64Store8 { .. }
        | Operator::I64Store16 { .. }
        | Operator::I64Store32 { .. }
    )
}

/// An operator of `wasmparser` that is one of the stores of wide integers, as the library writes
/// it.
#[verifier::external_body]
fn store_64(op: &Wasm) -> (found: Option<Operator>)
    ensures
        match found {
            Some(found) => is_store_64(found@) && meaning(*op) == found@,
            None => !is_store_64(meaning(*op)),
        },
{
    let arg = match op {
        Wasm::I64Store { memarg } | Wasm::I64Store8 { memarg } | Wasm::I64Store16 { memarg }
        | Wasm::I64Store32 { memarg } => memarg,
        _ => return None,
    };
    let memarg = MemArg { align: arg.align, offset: arg.offset };
    Some(match op {
        Wasm::I64Store { .. } => Operator::I64Store { memarg },
        Wasm::I64Store8 { .. } => Operator::I64Store8 { memarg },
        Wasm::I64Store16 { .. } => Operator::I64Store16 { memarg },
        Wasm::I64Store32 { .. } => Operator::I64Store32 { memarg },
        _ => return None,
    })
}

/// The operator is one of those on variables.
pub open spec fn is_variable(op: OperatorView) -> bool {
    op matches OperatorView::Plain(op) && matches!(
        op,
        Operator::LocalGet { .. }
        | Operator::LocalSet { .. }
        | Operator::LocalTee { .. }
        | Operator::GlobalGet { .. }
        | Operator::GlobalSet { .. }
        | Operator::I32Const { .. }
        | Operator::I64Const { .. }
    )
}

/// An operator of `wasmparser` that is one of those on variables, or a constant, as the library
/// writes it.
#[verifier::external_body]
fn variable(op: &Wasm) -> (found: Option<Operator>)
    ensures
        match found {
            Some(found) => is_variable(found@) && meaning(*op) == found@,
            None => !is_variable(meaning(*op)),
        },
{
    Some(match *op {
        Wasm::LocalGet { local_index } => Operator::LocalGet { local_index },
        Wasm::LocalSet { local_index } => Operator::LocalSet { local_index },
        Wasm::LocalTee { local_index } => Operator::LocalTee { local_index },
        Wasm::GlobalGet { global_index } => Operator::GlobalGet { global_index },
        Wasm::GlobalSet { global_index } => Operator::GlobalSet { global_index },
        Wasm::I32Const { value } => Operator::I32Const { value },
        Wasm::I64Const { value } => Operator::I64Const { value },
        _ => return None,
    })
}

/// The operator branches, calls, or manages memory.
pub open spec fn is_transfer(op: OperatorView) -> bool {
    op matches OperatorView::Plain(op) && matches!(
        op,
        Operator::Br { .. }
        | Operator::BrIf { .. }
        | Operator::Call { .. }
        | Operator::MemoryGrow
        | Operator::MemorySize
        | Operator::MemoryCopy { .. }
        | Operator::MemoryFill { .. }
    )
}

/// An operator of `wasmparser` that branches, calls, or manages memory, as the library writes it.
#[verifier::external_body]
fn transfer(op: &Wasm) -> (found: Option<Operator>)
    ensures
        match found {
            Some(found) => is_transfer(found@) && meaning(*op) == found@,
            None => !is_transfer(meaning(*op)),
        },
{
    Some(match *op {
        Wasm::Br { relative_depth } => Operator::Br { relative_depth },
        Wasm::BrIf { relative_depth } => Operator::BrIf { relative_depth },
        Wasm::Call { function_index } => Operator::Call { function_index },
        Wasm::MemoryGrow { .. } => Operator::MemoryGrow,
        Wasm::MemorySize { .. } => Operator::MemorySize,
        Wasm::MemoryCopy { dst_mem, src_mem } => Operator::MemoryCopy { dst_mem, src_mem },
        Wasm::MemoryFill { mem } => Operator::MemoryFill { mem },
        _ => return None,
    })
}

/// The operator starts a control structure.
pub open spec fn is_structure(op: OperatorView) -> bool {
    op matches OperatorView::Plain(op) && matches!(
        op,
        Operator::Block { .. } | Operator::Loop { .. } | Operator::If { .. }
    )
}

/// An operator of `wasmparser` that starts a control structure, as the library writes it.
#[verifier::external_body]
fn structure(op: &Wasm) -> (found: Option<Operator>)
    ensures
        match found {
            Some(found) => is_structure(found@) && meaning(*op) == found@,
            None => !is_structure(meaning(*op)),
        },
{
    let (Wasm::Block { blockty: ty } | Wasm::Loop { blockty: ty } | Wasm::If { blockty: ty }) = op
        else { return None };
    let blockty = match *ty {
        Type::Empty => BlockType::Empty, Type::FuncType(index) => BlockType::FuncType(index),
        Type::Type(ty) => BlockType::Type(match ty {
            Val::I32 => ValType::I32, Val::I64 => ValType::I64,
            Val::F32 => ValType::F32, Val::F64 => ValType::F64,
            Val::V128 => ValType::V128, Val::Ref(_) => ValType::Ref,
        }),
    };
    Some(match op {
        Wasm::Block { .. } => Operator::Block { blockty },
        Wasm::Loop { .. } => Operator::Loop { blockty }, _ => Operator::If { blockty },
    })
}

/// The operator selects one of two values of a given type.
pub open spec fn is_typed_select(op: OperatorView) -> bool {
    op matches OperatorView::Plain(op) && op is TypedSelect
}

/// An operator of `wasmparser` that selects one of two values of a given type, as the library
/// writes it.
#[verifier::external_body]
fn typed_select(op: &Wasm) -> (found: Option<Operator>)
    ensures
        match found {
            Some(found) => is_typed_select(found@) && meaning(*op) == found@,
            None => !is_typed_select(meaning(*op)),
        },
{
    let Wasm::TypedSelect { ty } = op else { return None };
    let ty = match ty {
        Val::I32 => ValType::I32,
        Val::I64 => ValType::I64,
        Val::F32 => ValType::F32,
        Val::F64 => ValType::F64,
        Val::V128 => ValType::V128,
        Val::Ref(_) => ValType::Ref,
    };
    Some(Operator::TypedSelect { ty })
}

/// The operator branches by a table.
pub open spec fn is_table(op: OperatorView) -> bool {
    match op {
        OperatorView::Table { .. } => true,
        OperatorView::Plain(op) => op is BrTable,
    }
}

/// An operator of `wasmparser` that branches by a table, as the library writes it.
/// `BrTable::targets` reads the targets again; each was read before, as the operator was.
#[verifier::external_body]
fn table(op: &Wasm) -> (found: Option<Operator>)
    ensures
        match found {
            Some(found) => is_table(found@) && meaning(*op) == found@,
            None => !is_table(meaning(*op)),
        },
{
    let Wasm::BrTable { targets } = op else { return None };
    let default = targets.default();
    let targets = targets.targets().collect::<Result<Vec<u32>, _>>().expect("read before");
    Some(Operator::BrTable { targets, default })
}

/// An operator of `wasmparser`, as the library writes it.
fn operator_of(op: &Wasm) -> (found: Operator)
    ensures
        found@ == meaning(*op),
{
    if let Some(found) = variable(op) {
        return found;
    }
    if let Some(found) = simple(op) {
        return found;
    }
    if let Some(found) = arithmetic(op) {
        return found;
    }
    if let Some(found) = bitwise(op) {
        return found;
    }
    if let Some(found) = comparison_32(op) {
        return found;
    }
    if let Some(found) = comparison_64(op) {
        return found;
    }
    if let Some(found) = unary(op) {
        return found;
    }
    if let Some(found) = load_32(op) {
        return found;
    }
    if let Some(found) = load_64(op) {
        return found;
    }
    if let Some(found) = store_32(op) {
        return found;
    }
    if let Some(found) = store_64(op) {
        return found;
    }
    if let Some(found) = transfer(op) {
        return found;
    }
    if let Some(found) = structure(op) {
        return found;
    }
    if let Some(found) = table(op) {
        return found;
    }
    if let Some(found) = typed_select(op) {
        return found;
    }
    Operator::Other
}

/// The next `count` declarations of locals; those that cannot be read are none.
pub open spec fn locals_from(bytes: Seq<u8>, count: nat) -> Seq<Option<LocalDecl>>
    decreases count,
{
    if count == 0 {
        Seq::empty()
    } else {
        let (decl, used) = local_at(bytes);
        seq![decl] + locals_from(bytes.skip(used as int), (count - 1) as nat)
    }
}

/// The declarations of locals at the start of the body of a function, whose number comes first;
/// those that cannot be read are none.
pub open spec fn locals_in(body: Seq<u8>) -> Seq<Option<LocalDecl>> {
    match number_at(body) {
        Some((count, used)) => locals_from(body.skip(used as int), count as nat),
        None => Seq::empty(),
    }
}

/// The declarations among the first `n` that can be read.
pub open spec fn readable(decls: Seq<Option<LocalDecl>>, n: int) -> Seq<LocalDecl>
    decreases n,
{
    if n <= 0 {
        Seq::empty()
    } else {
        match decls[n - 1] {
            Some(decl) => readable(decls, n - 1).push(decl),
            None => readable(decls, n - 1),
        }
    }
}

/// The declarations of locals of the body of a function that can be read.
pub open spec fn readable_in(body: Seq<u8>) -> Seq<LocalDecl> {
    readable(locals_in(body), locals_in(body).len() as int)
}

proof fn readable_from_the_front(decls: Seq<Option<LocalDecl>>, n: int)
    requires
        0 < n <= decls.len(),
    ensures
        readable(decls, n) == (match decls[0] {
            Some(decl) => seq![decl],
            None => Seq::empty(),
        }) + readable(decls.skip(1), n - 1),
    decreases n,
{
    reveal_with_fuel(readable, 2);
    if n > 1 {
        readable_from_the_front(decls, n - 1);
        assert(decls.skip(1)[n - 2] == decls[n - 1]);
    }
    assert(readable(decls, n) =~= (match decls[0] {
        Some(decl) => seq![decl],
        None => Seq::empty(),
    }) + readable(decls.skip(1), n - 1));
}

proof fn locals_are_counted(bytes: Seq<u8>, count: nat)
    ensures
        locals_from(bytes, count).len() == count,
    decreases count,
{
    if count > 0 {
        locals_are_counted(bytes.skip(local_at(bytes).1 as int), (count - 1) as nat);
    }
}

/// Reads the declarations of locals at the start of the body of a function. Those that cannot be
/// read are left out.
pub fn readable_locals(body: &[u8]) -> (decls: Vec<LocalDecl>)
    ensures
        decls@ == readable_in(body@),
{
    let mut decls: Vec<LocalDecl> = Vec::new();
    let (count, used) = match read_number(body) {
        None => return decls,
        Some(read) => read,
    };
    let mut at: usize = used;
    let mut left: u32 = count;
    let ghost all = readable_in(body@);
    proof {
        locals_are_counted(body@.skip(used as int), count as nat);
        assert(decls@ + readable(
            locals_from(body@.skip(at as int), left as nat),
            left as int,
        ) =~= all);
    }
    while left > 0
        invariant
            at <= body@.len(),
            decls@ + readable(locals_from(body@.skip(at as int), left as nat), left as int) == all,
        decreases left,
    {
        let ghost rest = body@.skip(at as int);
        let ghost before = decls@;
        let bytes = vstd::slice::slice_subrange(body, at, body.len());
        assert(bytes@ == rest);
        let (decl, used) = read_local(bytes);
        proof {
            let list = locals_from(rest, left as nat);
            locals_are_counted(rest, left as nat);
            readable_from_the_front(list, left as int);
            assert(list.skip(1) =~= locals_from(rest.skip(used as int), (left - 1) as nat));
            assert(rest.skip(used as int) =~= body@.skip(at + used));
        }
        at = at + used;
        left = left - 1;
        if let Some(decl) = decl {
            decls.push(decl);
            assert(before + (seq![decl] + readable(
                locals_from(body@.skip(at as int), left as nat),
                left as int,
            )) =~= decls@ + readable(locals_from(body@.skip(at as int), left as nat), left as int));
        } else {
            assert(before + (Seq::<LocalDecl>::empty() + readable(
                locals_from(body@.skip(at as int), left as nat),
                left as int,
            )) =~= decls@ + readable(locals_from(body@.skip(at as int), left as nat), left as int));
        }
    }
    assert(decls@ + Seq::<LocalDecl>::empty() =~= decls@);
    decls
}

/// The body of a function cannot be read.
#[derive(Clone, Copy, PartialEq, Eq, Debug, Structural)]
pub struct UnreadableBody {}

/// The next `count` declarations of locals, all of which can be read, and what follows them; none
/// if one cannot.
pub open spec fn all_locals_from(bytes: Seq<u8>, count: nat) -> Option<(Seq<LocalDecl>, Seq<u8>)>
    decreases count,
{
    if count == 0 {
        Some((Seq::empty(), bytes))
    } else {
        match local_at(bytes) {
            (None, _) => None,
            (Some(decl), used) => match all_locals_from(
                bytes.skip(used as int),
                (count - 1) as nat,
            ) {
                None => None,
                Some((decls, rest)) => Some((seq![decl] + decls, rest)),
            },
        }
    }
}

/// The declarations of locals of the body of a function, and the bytes of its operators; none if a
/// declaration cannot be read.
pub open spec fn all_locals_in(body: Seq<u8>) -> Option<(Seq<LocalDecl>, Seq<u8>)> {
    match number_at(body) {
        Some((count, used)) => all_locals_from(body.skip(used as int), count as nat),
        None => None,
    }
}

/// The operators in the bytes, each with where it starts if the first one starts at `start`; none
/// if one cannot be read.
pub open spec fn operators_from(bytes: Seq<u8>, start: int) -> Option<Seq<(OperatorView, int)>>
    decreases bytes.len(),
{
    if bytes.len() == 0 {
        Some(Seq::empty())
    } else {
        match operator_at(bytes) {
            None => None,
            Some((op, used)) => if 0 < used <= bytes.len() {
                match operators_from(bytes.skip(used as int), start + used) {
                    None => None,
                    Some(rest) => Some(seq![(op, start)] + rest),
                }
            } else {
                None
            },
        }
    }
}

/// The operators of the body of a function, each with where in the body it starts; none if the
/// declarations before them, or one of them, cannot be read.
pub open spec fn operators_in(body: Seq<u8>) -> Option<Seq<(OperatorView, int)>> {
    match all_locals_in(body) {
        Some((_, rest)) => operators_from(rest, body.len() - rest.len()),
        None => None,
    }
}

/// Operators, each with where it starts.
pub open spec fn placed(ops: Seq<(Operator, usize)>) -> Seq<(OperatorView, int)> {
    ops.map_values(|op: (Operator, usize)| (op.0@, op.1 as int))
}

/// Reads the declarations of locals at the start of the body of a function, all of which must be
/// readable, and says where its operators start.
pub fn read_local_decls(body: &[u8]) -> (read: Result<(Vec<LocalDecl>, usize), UnreadableBody>)
    ensures
        match read {
            Ok((decls, start)) => start <= body@.len() && all_locals_in(body@) == Some(
                (decls@, body@.skip(start as int)),
            ),
            Err(_) => all_locals_in(body@) is None,
        },
{
    let (count, used) = match read_number(body) {
        None => return Err(UnreadableBody {  }),
        Some(read) => read,
    };
    let mut decls: Vec<LocalDecl> = Vec::new();
    let mut at: usize = used;
    let mut left: u32 = count;
    let ghost all = all_locals_in(body@);
    proof {
        if let Some((list, rest)) = all {
            assert(Seq::<LocalDecl>::empty() + list =~= list);
        }
    }
    while left > 0
        invariant
            at <= body@.len(),
            all == all_locals_in(body@),
            match all_locals_from(body@.skip(at as int), left as nat) {
                None => all is None,
                Some((list, rest)) => all == Some((decls@ + list, rest)),
            },
        decreases left,
    {
        let ghost rest = body@.skip(at as int);
        let ghost before = decls@;
        let bytes = vstd::slice::slice_subrange(body, at, body.len());
        assert(bytes@ == rest);
        match read_local(bytes) {
            (None, _) => return Err(UnreadableBody {  }),
            (Some(decl), used) => {
                assert(rest.skip(used as int) =~= body@.skip(at + used));
                decls.push(decl);
                at = at + used;
                left = left - 1;
                proof {
                    if let Some((list, _)) = all_locals_from(body@.skip(at as int), left as nat) {
                        assert(before + (seq![decl] + list) =~= decls@ + list);
                    }
                }
            },
        }
    }
    assert(decls@ + Seq::<LocalDecl>::empty() =~= decls@);
    Ok((decls, at))
}

/// Reads the operators of the body of a function, each with where in the body it starts.
pub fn read_operators(body: &[u8]) -> (ops: Result<Vec<(Operator, usize)>, UnreadableBody>)
    ensures
        match ops {
            Ok(ops) => operators_in(body@) == Some(placed(ops@)),
            Err(_) => operators_in(body@) is None,
        },
{
    let (_, start) = read_local_decls(body)?;
    let mut ops: Vec<(Operator, usize)> = Vec::new();
    let mut at: usize = start;
    let ghost all = operators_in(body@);
    proof {
        if let Some(list) = all {
            assert(placed(ops@) + list =~= list);
        }
    }
    while at < body.len()
        invariant
            at <= body@.len(),
            all == operators_in(body@),
            match operators_from(body@.skip(at as int), at as int) {
                None => all is None,
                Some(list) => all == Some(placed(ops@) + list),
            },
        decreases body@.len() - at,
    {
        let ghost rest = body@.skip(at as int);
        let ghost before = ops@;
        let bytes = vstd::slice::slice_subrange(body, at, body.len());
        assert(bytes@ == rest);
        match read_operator(bytes) {
            None => return Err(UnreadableBody {  }),
            Some((op, used)) => {
                assert(rest.skip(used as int) =~= body@.skip(at + used));
                let op = operator_of(&op);
                let ghost one = (op@, at as int);
                ops.push((op, at));
                at = at + used;
                proof {
                    assert(placed(ops@) =~= placed(before).push(one));
                    if let Some(list) = operators_from(body@.skip(at as int), at as int) {
                        assert(placed(before) + (seq![one] + list) =~= placed(ops@) + list);
                    }
                }
            },
        }
    }
    assert(body@.skip(at as int).len() == 0);
    assert(placed(ops@) + Seq::<(OperatorView, int)>::empty() =~= placed(ops@));
    Ok(ops)
}

} // verus!

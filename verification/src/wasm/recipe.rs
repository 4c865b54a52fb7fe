//! The instructions that numeric operators become.
use vstd::prelude::*;
use crate::types::{Immediate, ScalarType};
use crate::wasm::builder::{Built, FunctionBuilder};
use crate::wasm::ir::{BinaryOp, Conversion, IrType, UnaryOp, Value};
use crate::wasm::operator::Operator;
use crate::wasm::state::{FuncTranslationState, Trans};

verus! {

/// What is done with an operand before it is used.
#[derive(Clone, Copy, PartialEq, Eq, Debug, Structural)]
pub enum Prep {
    Keep,
    Bitcast(ScalarType),
    /// A bitcast, unless the operand has the type.
    BitcastUnless(ScalarType),
    Cast(ScalarType),
    /// A bitcast to the type of the first operand, unless the operand has that type.
    LikeFirst,
}

/// What computes the result.
#[derive(Clone, Copy, PartialEq, Eq, Debug, Structural)]
#[allow(inconsistent_fields)]
pub enum Core {
    /// The operand itself.
    One { arg: Prep },
    Unary { op: UnaryOp },
    Binary { op: BinaryOp, first: Prep, second: Prep },
    /// An operation on the operand and a constant.
    WithConst { op: BinaryOp, imm: Immediate },
}

/// The instructions of a numeric operator: what computes the result, and the conversions that
/// follow.
#[derive(Clone, Copy, Debug)]
pub struct Recipe {
    pub core: Core,
    pub first: Option<(Conversion, ScalarType)>,
    pub second: Option<(Conversion, ScalarType)>,
    pub third: Option<(Conversion, ScalarType)>,
}

/// The recipe of a numeric operator.
///
/// Values keep the types of WebAssembly, which have a sign. An operator without a sign works on
/// bitcasts of its operands, and its result is cast back. A comparison gives a truth value, which
/// is widened to 32 bits. The count of a shift or rotation of 64 bits has 64 bits, and is cast.
pub open spec fn recipe_of(op: Operator) -> Option<Recipe> {
    match op {
        Operator::I32Clz | Operator::I64Clz => Some(
            Recipe {
                core: Core::Unary { op: UnaryOp::Clz },
                first: Some((Conversion::Bitcast, ScalarType::I32)),
                second: None,
                third: None,
            },
        ),
        Operator::I32Ctz | Operator::I64Ctz => Some(
            Recipe {
                core: Core::Unary { op: UnaryOp::Ctz },
                first: Some((Conversion::Bitcast, ScalarType::I32)),
                second: None,
                third: None,
            },
        ),
        Operator::I32Popcnt | Operator::I64Popcnt => Some(
            Recipe {
                core: Core::Unary { op: UnaryOp::Popcnt },
                first: Some((Conversion::Bitcast, ScalarType::I32)),
                second: None,
                third: None,
            },
        ),
        Operator::I32Extend8S | Operator::I32Extend16S => Some(
            Recipe {
                core: Core::One { arg: Prep::Keep },
                first: Some((Conversion::Sext, ScalarType::I32)),
                second: None,
                third: None,
            },
        ),
        Operator::I64ExtendI32S => Some(
            Recipe {
                core: Core::One { arg: Prep::Keep },
                first: Some((Conversion::Sext, ScalarType::I64)),
                second: None,
                third: None,
            },
        ),
        Operator::I64ExtendI32U => Some(
            Recipe {
                core: Core::One { arg: Prep::Keep },
                first: Some((Conversion::Bitcast, ScalarType::U32)),
                second: Some((Conversion::Zext, ScalarType::U64)),
                third: Some((Conversion::Bitcast, ScalarType::I64)),
            },
        ),
        Operator::I32WrapI64 => Some(
            Recipe {
                core: Core::One { arg: Prep::Keep },
                first: Some((Conversion::Trunc, ScalarType::I32)),
                second: None,
                third: None,
            },
        ),
        Operator::F32ReinterpretI32 => Some(
            Recipe {
                core: Core::One { arg: Prep::BitcastUnless(ScalarType::Felt) },
                first: None,
                second: None,
                third: None,
            },
        ),
        Operator::I32Add | Operator::I64Add => Some(
            Recipe {
                core: Core::Binary { op: BinaryOp::AddWrapping, first: Prep::Keep, second: Prep::LikeFirst },
                first: None,
                second: None,
                third: None,
            },
        ),
        Operator::I32And | Operator::I64And => Some(
            Recipe {
                core: Core::Binary { op: BinaryOp::Band, first: Prep::Keep, second: Prep::Keep },
                first: None,
                second: None,
                third: None,
            },
        ),
        Operator::I32Or | Operator::I64Or => Some(
            Recipe {
                core: Core::Binary { op: BinaryOp::Bor, first: Prep::Keep, second: Prep::Keep },
                first: None,
                second: None,
                third: None,
            },
        ),
        Operator::I32Xor | Operator::I64Xor => Some(
            Recipe {
                core: Core::Binary { op: BinaryOp::Bxor, first: Prep::Keep, second: Prep::Keep },
                first: None,
                second: None,
                third: None,
            },
        ),
        Operator::I32Shl => Some(
            Recipe {
                core: Core::Binary { op: BinaryOp::Shl, first: Prep::Keep, second: Prep::Bitcast(ScalarType::U32) },
                first: None,
                second: None,
                third: None,
            },
        ),
        Operator::I64Shl => Some(
            Recipe {
                core: Core::Binary { op: BinaryOp::Shl, first: Prep::Keep, second: Prep::Cast(ScalarType::U32) },
                first: None,
                second: None,
                third: None,
            },
        ),
        Operator::I32ShrU => Some(
            Recipe {
                core: Core::Binary { op: BinaryOp::Shr, first: Prep::BitcastUnless(ScalarType::U32), second: Prep::BitcastUnless(ScalarType::U32) },
                first: Some((Conversion::Bitcast, ScalarType::I32)),
                second: None,
                third: None,
            },
        ),
        Operator::I64ShrU => Some(
            Recipe {
                core: Core::Binary { op: BinaryOp::Shr, first: Prep::Bitcast(ScalarType::U64), second: Prep::Cast(ScalarType::U32) },
                first: Some((Conversion::Bitcast, ScalarType::I64)),
                second: None,
                third: None,
            },
        ),
        Operator::I32ShrS => Some(
            Recipe {
                core: Core::Binary { op: BinaryOp::Shr, first: Prep::Keep, second: Prep::Bitcast(ScalarType::U32) },
                first: None,
                second: None,
                third: None,
            },
        ),
        Operator::I64ShrS => Some(
            Recipe {
                core: Core::Binary { op: BinaryOp::Shr, first: Prep::Keep, second: Prep::Cast(ScalarType::U32) },
                first: None,
                second: None,
                third: None,
            },
        ),
        Operator::I32Rotl => Some(
            Recipe {
                core: Core::Binary { op: BinaryOp::Rotl, first: Prep::Keep, second: Prep::Bitcast(ScalarType::U32) },
                first: None,
                second: None,
                third: None,
            },
        ),
        Operator::I64Rotl => Some(
            Recipe {
                core: Core::Binary { op: BinaryOp::Rotl, first: Prep::Keep, second: Prep::Cast(ScalarType::U32) },
                first: None,
                second: None,
                third: None,
            },
        ),
        Operator::I32Rotr => Some(
            Recipe {
                core: Core::Binary { op: BinaryOp::Rotr, first: Prep::Keep, second: Prep::Bitcast(ScalarType::U32) },
                first: None,
                second: None,
                third: None,
            },
        ),
        Operator::I64Rotr => Some(
            Recipe {
                core: Core::Binary { op: BinaryOp::Rotr, first: Prep::Keep, second: Prep::Cast(ScalarType::U32) },
                first: None,
                second: None,
                third: None,
            },
        ),
        Operator::I32Sub | Operator::I64Sub => Some(
            Recipe {
                core: Core::Binary { op: BinaryOp::SubWrapping, first: Prep::Keep, second: Prep::Keep },
                first: None,
                second: None,
                third: None,
            },
        ),
        Operator::I32Mul | Operator::I64Mul => Some(
            Recipe {
                core: Core::Binary { op: BinaryOp::MulWrapping, first: Prep::Keep, second: Prep::Keep },
                first: None,
                second: None,
                third: None,
            },
        ),
        Operator::I32DivS | Operator::I64DivS => Some(
            Recipe {
                core: Core::Binary { op: BinaryOp::Div, first: Prep::Keep, second: Prep::Keep },
                first: None,
                second: None,
                third: None,
            },
        ),
        Operator::I32RemS | Operator::I64RemS => Some(
            Recipe {
                core: Core::Binary { op: BinaryOp::Mod, first: Prep::Keep, second: Prep::Keep },
                first: None,
                second: None,
                third: None,
            },
        ),
        Operator::I32DivU => Some(
            Recipe {
                core: Core::Binary { op: BinaryOp::Div, first: Prep::BitcastUnless(ScalarType::U32), second: Prep::BitcastUnless(ScalarType::U32) },
                first: Some((Conversion::Bitcast, ScalarType::I32)),
                second: None,
                third: None,
            },
        ),
        Operator::I64DivU => Some(
            Recipe {
                core: Core::Binary { op: BinaryOp::Div, first: Prep::BitcastUnless(ScalarType::U64), second: Prep::BitcastUnless(ScalarType::U64) },
                first: Some((Conversion::Bitcast, ScalarType::I64)),
                second: None,
                third: None,
            },
        ),
        Operator::I32RemU => Some(
            Recipe {
                core: Core::Binary { op: BinaryOp::Mod, first: Prep::BitcastUnless(ScalarType::U32), second: Prep::BitcastUnless(ScalarType::U32) },
                first: Some((Conversion::Bitcast, ScalarType::I32)),
                second: None,
                third: None,
            },
        ),
        Operator::I64RemU => Some(
            Recipe {
                core: Core::Binary { op: BinaryOp::Mod, first: Prep::BitcastUnless(ScalarType::U64), second: Prep::BitcastUnless(ScalarType::U64) },
                first: Some((Conversion::Bitcast, ScalarType::I64)),
                second: None,
                third: None,
            },
        ),
        Operator::I32LtU => Some(
            Recipe {
                core: Core::Binary { op: BinaryOp::Lt, first: Prep::BitcastUnless(ScalarType::U32), second: Prep::BitcastUnless(ScalarType::U32) },
                first: Some((Conversion::Zext, ScalarType::U32)),
                second: Some((Conversion::Bitcast, ScalarType::I32)),
                third: None,
            },
        ),
        Operator::I64LtU => Some(
            Recipe {
                core: Core::Binary { op: BinaryOp::Lt, first: Prep::BitcastUnless(ScalarType::U64), second: Prep::BitcastUnless(ScalarType::U64) },
                first: Some((Conversion::Zext, ScalarType::U32)),
                second: Some((Conversion::Bitcast, ScalarType::I32)),
                third: None,
            },
        ),
        Operator::I32LtS | Operator::I64LtS => Some(
            Recipe {
                core: Core::Binary { op: BinaryOp::Lt, first: Prep::Keep, second: Prep::Keep },
                first: Some((Conversion::Zext, ScalarType::U32)),
                second: Some((Conversion::Bitcast, ScalarType::I32)),
                third: None,
            },
        ),
        Operator::I32LeU => Some(
            Recipe {
                core: Core::Binary { op: BinaryOp::Lte, first: Prep::BitcastUnless(ScalarType::U32), second: Prep::BitcastUnless(ScalarType::U32) },
                first: Some((Conversion::Zext, ScalarType::U32)),
                second: Some((Conversion::Bitcast, ScalarType::I32)),
                third: None,
            },
        ),
        Operator::I64LeU => Some(
            Recipe {
                core: Core::Binary { op: BinaryOp::Lte, first: Prep::BitcastUnless(ScalarType::U64), second: Prep::BitcastUnless(ScalarType::U64) },
                first: Some((Conversion::Zext, ScalarType::U32)),
                second: Some((Conversion::Bitcast, ScalarType::I32)),
                third: None,
            },
        ),
        Operator::I32LeS | Operator::I64LeS => Some(
            Recipe {
                core: Core::Binary { op: BinaryOp::Lte, first: Prep::Keep, second: Prep::Keep },
                first: Some((Conversion::Zext, ScalarType::U32)),
                second: Some((Conversion::Bitcast, ScalarType::I32)),
                third: None,
            },
        ),
        Operator::I32GtU => Some(
            Recipe {
                core: Core::Binary { op: BinaryOp::Gt, first: Prep::BitcastUnless(ScalarType::U32), second: Prep::BitcastUnless(ScalarType::U32) },
                first: Some((Conversion::Zext, ScalarType::U32)),
                second: Some((Conversion::Bitcast, ScalarType::I32)),
                third: None,
            },
        ),
        Operator::I64GtU => Some(
            Recipe {
                core: Core::Binary { op: BinaryOp::Gt, first: Prep::BitcastUnless(ScalarType::U64), second: Prep::BitcastUnless(ScalarType::U64) },
                first: Some((Conversion::Zext, ScalarType::U32)),
                second: Some((Conversion::Bitcast, ScalarType::I32)),
                third: None,
            },
        ),
        Operator::I32GtS | Operator::I64GtS => Some(
            Recipe {
                core: Core::Binary { op: BinaryOp::Gt, first: Prep::Keep, second: Prep::Keep },
                first: Some((Conversion::Zext, ScalarType::U32)),
                second: Some((Conversion::Bitcast, ScalarType::I32)),
                third: None,
            },
        ),
        Operator::I32GeU => Some(
            Recipe {
                core: Core::Binary { op: BinaryOp::Gte, first: Prep::BitcastUnless(ScalarType::U32), second: Prep::BitcastUnless(ScalarType::U32) },
                first: Some((Conversion::Zext, ScalarType::U32)),
                second: Some((Conversion::Bitcast, ScalarType::I32)),
                third: None,
            },
        ),
        Operator::I64GeU => Some(
            Recipe {
                core: Core::Binary { op: BinaryOp::Gte, first: Prep::BitcastUnless(ScalarType::U64), second: Prep::BitcastUnless(ScalarType::U64) },
                first: Some((Conversion::Zext, ScalarType::U32)),
                second: Some((Conversion::Bitcast, ScalarType::I32)),
                third: None,
            },
        ),
        Operator::I32GeS | Operator::I64GeS => Some(
            Recipe {
                core: Core::Binary { op: BinaryOp::Gte, first: Prep::Keep, second: Prep::Keep },
                first: Some((Conversion::Zext, ScalarType::U32)),
                second: Some((Conversion::Bitcast, ScalarType::I32)),
                third: None,
            },
        ),
        Operator::I32Eqz => Some(
            Recipe {
                core: Core::WithConst { op: BinaryOp::Eq, imm: Immediate::I32(0) },
                first: Some((Conversion::Zext, ScalarType::U32)),
                second: Some((Conversion::Bitcast, ScalarType::I32)),
                third: None,
            },
        ),
        Operator::I64Eqz => Some(
            Recipe {
                core: Core::WithConst { op: BinaryOp::Eq, imm: Immediate::I64(0) },
                first: Some((Conversion::Zext, ScalarType::U32)),
                second: Some((Conversion::Bitcast, ScalarType::I32)),
                third: None,
            },
        ),
        Operator::I32Eq | Operator::I64Eq => Some(
            Recipe {
                core: Core::Binary { op: BinaryOp::Eq, first: Prep::Keep, second: Prep::Keep },
                first: Some((Conversion::Zext, ScalarType::U32)),
                second: Some((Conversion::Bitcast, ScalarType::I32)),
                third: None,
            },
        ),
        Operator::I32Ne | Operator::I64Ne => Some(
            Recipe {
                core: Core::Binary { op: BinaryOp::Neq, first: Prep::Keep, second: Prep::Keep },
                first: Some((Conversion::Zext, ScalarType::U32)),
                second: Some((Conversion::Bitcast, ScalarType::I32)),
                third: None,
            },
        ),
        _ => None,
    }
}

/// The recipe of a numeric operator.
pub fn recipe(op: &Operator) -> (recipe: Option<Recipe>)
    ensures
        recipe == recipe_of(*op),
{
    match op {
        Operator::I32Clz | Operator::I64Clz => Some(
            Recipe {
                core: Core::Unary { op: UnaryOp::Clz },
                first: Some((Conversion::Bitcast, ScalarType::I32)),
                second: None,
                third: None,
            },
        ),
        Operator::I32Ctz | Operator::I64Ctz => Some(
            Recipe {
                core: Core::Unary { op: UnaryOp::Ctz },
                first: Some((Conversion::Bitcast, ScalarType::I32)),
                second: None,
                third: None,
            },
        ),
        Operator::I32Popcnt | Operator::I64Popcnt => Some(
            Recipe {
                core: Core::Unary { op: UnaryOp::Popcnt },
                first: Some((Conversion::Bitcast, ScalarType::I32)),
                second: None,
                third: None,
            },
        ),
        Operator::I32Extend8S | Operator::I32Extend16S => Some(
            Recipe {
                core: Core::One { arg: Prep::Keep },
                first: Some((Conversion::Sext, ScalarType::I32)),
                second: None,
                third: None,
            },
        ),
        Operator::I64ExtendI32S => Some(
            Recipe {
                core: Core::One { arg: Prep::Keep },
                first: Some((Conversion::Sext, ScalarType::I64)),
                second: None,
                third: None,
            },
        ),
        Operator::I64ExtendI32U => Some(
            Recipe {
                core: Core::One { arg: Prep::Keep },
                first: Some((Conversion::Bitcast, ScalarType::U32)),
                second: Some((Conversion::Zext, ScalarType::U64)),
                third: Some((Conversion::Bitcast, ScalarType::I64)),
            },
        ),
        Operator::I32WrapI64 => Some(
            Recipe {
                core: Core::One { arg: Prep::Keep },
                first: Some((Conversion::Trunc, ScalarType::I32)),
                second: None,
                third: None,
            },
        ),
        Operator::F32ReinterpretI32 => Some(
            Recipe {
                core: Core::One { arg: Prep::BitcastUnless(ScalarType::Felt) },
                first: None,
                second: None,
                third: None,
            },
        ),
        Operator::I32Add | Operator::I64Add => Some(
            Recipe {
                core: Core::Binary { op: BinaryOp::AddWrapping, first: Prep::Keep, second: Prep::LikeFirst },
                first: None,
                second: None,
                third: None,
            },
        ),
        Operator::I32And | Operator::I64And => Some(
            Recipe {
                core: Core::Binary { op: BinaryOp::Band, first: Prep::Keep, second: Prep::Keep },
                first: None,
                second: None,
                third: None,
            },
        ),
        Operator::I32Or | Operator::I64Or => Some(
            Recipe {
                core: Core::Binary { op: BinaryOp::Bor, first: Prep::Keep, second: Prep::Keep },
                first: None,
                second: None,
                third: None,
            },
        ),
        Operator::I32Xor | Operator::I64Xor => Some(
            Recipe {
                core: Core::Binary { op: BinaryOp::Bxor, first: Prep::Keep, second: Prep::Keep },
                first: None,
                second: None,
                third: None,
            },
        ),
        Operator::I32Shl => Some(
            Recipe {
                core: Core::Binary { op: BinaryOp::Shl, first: Prep::Keep, second: Prep::Bitcast(ScalarType::U32) },
                first: None,
                second: None,
                third: None,
            },
        ),
        Operator::I64Shl => Some(
            Recipe {
                core: Core::Binary { op: BinaryOp::Shl, first: Prep::Keep, second: Prep::Cast(ScalarType::U32) },
                first: None,
                second: None,
                third: None,
            },
        ),
        Operator::I32ShrU => Some(
            Recipe {
                core: Core::Binary { op: BinaryOp::Shr, first: Prep::BitcastUnless(ScalarType::U32), second: Prep::BitcastUnless(ScalarType::U32) },
                first: Some((Conversion::Bitcast, ScalarType::I32)),
                second: None,
                third: None,
            },
        ),
        Operator::I64ShrU => Some(
            Recipe {
                core: Core::Binary { op: BinaryOp::Shr, first: Prep::Bitcast(ScalarType::U64), second: Prep::Cast(ScalarType::U32) },
                first: Some((Conversion::Bitcast, ScalarType::I64)),
                second: None,
                third: None,
            },
        ),
        Operator::I32ShrS => Some(
            Recipe {
                core: Core::Binary { op: BinaryOp::Shr, first: Prep::Keep, second: Prep::Bitcast(ScalarType::U32) },
                first: None,
                second: None,
                third: None,
            },
        ),
        Operator::I64ShrS => Some(
            Recipe {
                core: Core::Binary { op: BinaryOp::Shr, first: Prep::Keep, second: Prep::Cast(ScalarType::U32) },
                first: None,
                second: None,
                third: None,
            },
        ),
        Operator::I32Rotl => Some(
            Recipe {
                core: Core::Binary { op: BinaryOp::Rotl, first: Prep::Keep, second: Prep::Bitcast(ScalarType::U32) },
                first: None,
                second: None,
                third: None,
            },
        ),
        Operator::I64Rotl => Some(
            Recipe {
                core: Core::Binary { op: BinaryOp::Rotl, first: Prep::Keep, second: Prep::Cast(ScalarType::U32) },
                first: None,
                second: None,
                third: None,
            },
        ),
        Operator::I32Rotr => Some(
            Recipe {
                core: Core::Binary { op: BinaryOp::Rotr, first: Prep::Keep, second: Prep::Bitcast(ScalarType::U32) },
                first: None,
                second: None,
                third: None,
            },
        ),
        Operator::I64Rotr => Some(
            Recipe {
                core: Core::Binary { op: BinaryOp::Rotr, first: Prep::Keep, second: Prep::Cast(ScalarType::U32) },
                first: None,
                second: None,
                third: None,
            },
        ),
        Operator::I32Sub | Operator::I64Sub => Some(
            Recipe {
                core: Core::Binary { op: BinaryOp::SubWrapping, first: Prep::Keep, second: Prep::Keep },
                first: None,
                second: None,
                third: None,
            },
        ),
        Operator::I32Mul | Operator::I64Mul => Some(
            Recipe {
                core: Core::Binary { op: BinaryOp::MulWrapping, first: Prep::Keep, second: Prep::Keep },
                first: None,
                second: None,
                third: None,
            },
        ),
        Operator::I32DivS | Operator::I64DivS => Some(
            Recipe {
                core: Core::Binary { op: BinaryOp::Div, first: Prep::Keep, second: Prep::Keep },
                first: None,
                second: None,
                third: None,
            },
        ),
        Operator::I32RemS | Operator::I64RemS => Some(
            Recipe {
                core: Core::Binary { op: BinaryOp::Mod, first: Prep::Keep, second: Prep::Keep },
                first: None,
                second: None,
                third: None,
            },
        ),
        Operator::I32DivU => Some(
            Recipe {
                core: Core::Binary { op: BinaryOp::Div, first: Prep::BitcastUnless(ScalarType::U32), second: Prep::BitcastUnless(ScalarType::U32) },
                first: Some((Conversion::Bitcast, ScalarType::I32)),
                second: None,
                third: None,
            },
        ),
        Operator::I64DivU => Some(
            Recipe {
                core: Core::Binary { op: BinaryOp::Div, first: Prep::BitcastUnless(ScalarType::U64), second: Prep::BitcastUnless(ScalarType::U64) },
                first: Some((Conversion::Bitcast, ScalarType::I64)),
                second: None,
                third: None,
            },
        ),
        Operator::I32RemU => Some(
            Recipe {
                core: Core::Binary { op: BinaryOp::Mod, first: Prep::BitcastUnless(ScalarType::U32), second: Prep::BitcastUnless(ScalarType::U32) },
                first: Some((Conversion::Bitcast, ScalarType::I32)),
                second: None,
                third: None,
            },
        ),
        Operator::I64RemU => Some(
            Recipe {
                core: Core::Binary { op: BinaryOp::Mod, first: Prep::BitcastUnless(ScalarType::U64), second: Prep::BitcastUnless(ScalarType::U64) },
                first: Some((Conversion::Bitcast, ScalarType::I64)),
                second: None,
                third: None,
            },
        ),
        Operator::I32LtU => Some(
            Recipe {
                core: Core::Binary { op: BinaryOp::Lt, first: Prep::BitcastUnless(ScalarType::U32), second: Prep::BitcastUnless(ScalarType::U32) },
                first: Some((Conversion::Zext, ScalarType::U32)),
                second: Some((Conversion::Bitcast, ScalarType::I32)),
                third: None,
            },
        ),
        Operator::I64LtU => Some(
            Recipe {
                core: Core::Binary { op: BinaryOp::Lt, first: Prep::BitcastUnless(ScalarType::U64), second: Prep::BitcastUnless(ScalarType::U64) },
                first: Some((Conversion::Zext, ScalarType::U32)),
                second: Some((Conversion::Bitcast, ScalarType::I32)),
                third: None,
            },
        ),
        Operator::I32LtS | Operator::I64LtS => Some(
            Recipe {
                core: Core::Binary { op: BinaryOp::Lt, first: Prep::Keep, second: Prep::Keep },
                first: Some((Conversion::Zext, ScalarType::U32)),
                second: Some((Conversion::Bitcast, ScalarType::I32)),
                third: None,
            },
        ),
        Operator::I32LeU => Some(
            Recipe {
                core: Core::Binary { op: BinaryOp::Lte, first: Prep::BitcastUnless(ScalarType::U32), second: Prep::BitcastUnless(ScalarType::U32) },
                first: Some((Conversion::Zext, ScalarType::U32)),
                second: Some((Conversion::Bitcast, ScalarType::I32)),
                third: None,
            },
        ),
        Operator::I64LeU => Some(
            Recipe {
                core: Core::Binary { op: BinaryOp::Lte, first: Prep::BitcastUnless(ScalarType::U64), second: Prep::BitcastUnless(ScalarType::U64) },
                first: Some((Conversion::Zext, ScalarType::U32)),
                second: Some((Conversion::Bitcast, ScalarType::I32)),
                third: None,
            },
        ),
        Operator::I32LeS | Operator::I64LeS => Some(
            Recipe {
                core: Core::Binary { op: BinaryOp::Lte, first: Prep::Keep, second: Prep::Keep },
                first: Some((Conversion::Zext, ScalarType::U32)),
                second: Some((Conversion::Bitcast, ScalarType::I32)),
                third: None,
            },
        ),
        Operator::I32GtU => Some(
            Recipe {
                core: Core::Binary { op: BinaryOp::Gt, first: Prep::BitcastUnless(ScalarType::U32), second: Prep::BitcastUnless(ScalarType::U32) },
                first: Some((Conversion::Zext, ScalarType::U32)),
                second: Some((Conversion::Bitcast, ScalarType::I32)),
                third: None,
            },
        ),
        Operator::I64GtU => Some(
            Recipe {
                core: Core::Binary { op: BinaryOp::Gt, first: Prep::BitcastUnless(ScalarType::U64), second: Prep::BitcastUnless(ScalarType::U64) },
                first: Some((Conversion::Zext, ScalarType::U32)),
                second: Some((Conversion::Bitcast, ScalarType::I32)),
                third: None,
            },
        ),
        Operator::I32GtS | Operator::I64GtS => Some(
            Recipe {
                core: Core::Binary { op: BinaryOp::Gt, first: Prep::Keep, second: Prep::Keep },
                first: Some((Conversion::Zext, ScalarType::U32)),
                second: Some((Conversion::Bitcast, ScalarType::I32)),
                third: None,
            },
        ),
        Operator::I32GeU => Some(
            Recipe {
                core: Core::Binary { op: BinaryOp::Gte, first: Prep::BitcastUnless(ScalarType::U32), second: Prep::BitcastUnless(ScalarType::U32) },
                first: Some((Conversion::Zext, ScalarType::U32)),
                second: Some((Conversion::Bitcast, ScalarType::I32)),
                third: None,
            },
        ),
        Operator::I64GeU => Some(
            Recipe {
                core: Core::Binary { op: BinaryOp::Gte, first: Prep::BitcastUnless(ScalarType::U64), second: Prep::BitcastUnless(ScalarType::U64) },
                first: Some((Conversion::Zext, ScalarType::U32)),
                second: Some((Conversion::Bitcast, ScalarType::I32)),
                third: None,
            },
        ),
        Operator::I32GeS | Operator::I64GeS => Some(
            Recipe {
                core: Core::Binary { op: BinaryOp::Gte, first: Prep::Keep, second: Prep::Keep },
                first: Some((Conversion::Zext, ScalarType::U32)),
                second: Some((Conversion::Bitcast, ScalarType::I32)),
                third: None,
            },
        ),
        Operator::I32Eqz => Some(
            Recipe {
                core: Core::WithConst { op: BinaryOp::Eq, imm: Immediate::I32(0) },
                first: Some((Conversion::Zext, ScalarType::U32)),
                second: Some((Conversion::Bitcast, ScalarType::I32)),
                third: None,
            },
        ),
        Operator::I64Eqz => Some(
            Recipe {
                core: Core::WithConst { op: BinaryOp::Eq, imm: Immediate::I64(0) },
                first: Some((Conversion::Zext, ScalarType::U32)),
                second: Some((Conversion::Bitcast, ScalarType::I32)),
                third: None,
            },
        ),
        Operator::I32Eq | Operator::I64Eq => Some(
            Recipe {
                core: Core::Binary { op: BinaryOp::Eq, first: Prep::Keep, second: Prep::Keep },
                first: Some((Conversion::Zext, ScalarType::U32)),
                second: Some((Conversion::Bitcast, ScalarType::I32)),
                third: None,
            },
        ),
        Operator::I32Ne | Operator::I64Ne => Some(
            Recipe {
                core: Core::Binary { op: BinaryOp::Neq, first: Prep::Keep, second: Prep::Keep },
                first: Some((Conversion::Zext, ScalarType::U32)),
                second: Some((Conversion::Bitcast, ScalarType::I32)),
                third: None,
            },
        ),
        _ => None,
    }
}

/// How many operands the recipe takes.
pub open spec fn arity(core: Core) -> nat {
    match core {
        Core::Binary { .. } => 2,
        _ => 1,
    }
}

/// An operand, made ready for use.
pub open spec fn prepared(b: Built, prep: Prep, value: Value, first: IrType) -> (Built, Value) {
    match prep {
        Prep::Keep => (b, value),
        Prep::Bitcast(ty) => b.convert(Conversion::Bitcast, value, IrType::Scalar(ty)),
        Prep::BitcastUnless(ty) => b.bitcast_unless(value, IrType::Scalar(ty)),
        Prep::Cast(ty) => b.convert(Conversion::Cast, value, IrType::Scalar(ty)),
        Prep::LikeFirst => b.bitcast_unless(value, first),
    }
}

/// A value after a conversion, if there is one.
pub open spec fn converted(
    built: (Built, Value),
    conversion: Option<(Conversion, ScalarType)>,
) -> (Built, Value) {
    match conversion {
        Some((op, ty)) => built.0.convert(op, built.1, IrType::Scalar(ty)),
        None => built,
    }
}

/// What computes the result of a recipe, given its operands.
pub open spec fn computed(b: Built, core: Core, x: Value, y: Value) -> (Built, Value) {
    match core {
        Core::One { arg } => prepared(b, arg, x, x.ty),
        Core::Unary { op } => b.unary(op, x),
        Core::Binary { op, first, second } => {
            let (b1, lhs) = prepared(b, first, x, x.ty);
            let (b2, rhs) = prepared(b1, second, y, x.ty);
            b2.binary(op, lhs, rhs)
        },
        Core::WithConst { op, imm } => {
            let (b1, zero) = b.imm(imm);
            b1.binary(op, x, zero)
        },
    }
}

/// The instructions of a recipe, given its operands.
pub open spec fn cooked(b: Built, recipe: Recipe, x: Value, y: Value) -> (Built, Value) {
    converted(
        converted(converted(computed(b, recipe.core, x, y), recipe.first), recipe.second),
        recipe.third,
    )
}

/// What a numeric operator makes of the state: it takes its operands from the value stack and
/// leaves its result there.
pub open spec fn served(t: Trans, recipe: Recipe) -> Trans {
    let n = arity(recipe.core);
    let x = t.peek(n - 1);
    let y = t.peek(0);
    t.popped(n).gains(cooked(t.b, recipe, x, y))
}

fn prepare(builder: &mut FunctionBuilder, prep: Prep, value: Value, first: IrType) -> (ready: Value)
    requires
        old(builder)@.next < u32::MAX,
    ensures
        (final(builder)@, ready) == prepared(old(builder)@, prep, value, first),
        final(builder)@.next <= old(builder)@.next + 1,
{
    match prep {
        Prep::Keep => value,
        Prep::Bitcast(ty) => builder.convert(Conversion::Bitcast, value, IrType::Scalar(ty)),
        Prep::BitcastUnless(ty) => builder.bitcast_unless(value, IrType::Scalar(ty)),
        Prep::Cast(ty) => builder.convert(Conversion::Cast, value, IrType::Scalar(ty)),
        Prep::LikeFirst => builder.bitcast_unless(value, first),
    }
}

fn convert_next(
    builder: &mut FunctionBuilder,
    value: Value,
    conversion: Option<(Conversion, ScalarType)>,
) -> (result: Value)
    requires
        old(builder)@.next < u32::MAX,
    ensures
        (final(builder)@, result) == converted((old(builder)@, value), conversion),
        final(builder)@.next <= old(builder)@.next + 1,
{
    match conversion {
        Some((op, ty)) => builder.convert(op, value, IrType::Scalar(ty)),
        None => value,
    }
}

/// Translates a numeric operator by its recipe.
pub fn cook(recipe: Recipe, state: &mut FuncTranslationState, builder: &mut FunctionBuilder)
    requires
        old(state).stack@.len() >= arity(recipe.core),
        old(builder)@.next + 8 <= u32::MAX,
    ensures
        final(state).with(&*final(builder)) == served(old(state).with(&*old(builder)), recipe),
{
    let ghost before = state.with(builder);
    let computed = match recipe.core {
        Core::One { arg } => {
            let x = state.pop1();
            prepare(builder, arg, x, x.ty)
        },
        Core::Unary { op } => {
            let x = state.pop1();
            builder.unary(op, x)
        },
        Core::Binary { op, first, second } => {
            let (x, y) = state.pop2();
            let lhs = prepare(builder, first, x, x.ty);
            let rhs = prepare(builder, second, y, x.ty);
            builder.binary(op, lhs, rhs)
        },
        Core::WithConst { op, imm } => {
            let x = state.pop1();
            let constant = builder.imm(imm);
            builder.binary(op, x, constant)
        },
    };
    let first = convert_next(builder, computed, recipe.first);
    let second = convert_next(builder, first, recipe.second);
    let third = convert_next(builder, second, recipe.third);
    state.push1(third);
    assert(state.with(builder) =~= served(before, recipe));
}

} // verus!

//! The instructions that WebAssembly is translated to.
use vstd::prelude::*;
use crate::span::SourceSpan;
use crate::symbol::Symbol;
use crate::types::{Immediate, ScalarType};

verus! {

/// The type of a value.
#[derive(Clone, Copy, PartialEq, Eq, Debug, Hash, Structural)]
pub enum IrType {
    Scalar(ScalarType),
    /// A pointer to a value of the given type.
    Ptr(ScalarType),
}

impl IrType {
    /// How many bits a value of the type takes.
    pub open spec fn bits(self) -> nat {
        match self {
            IrType::Ptr(_) => 32,
            IrType::Scalar(ty) => match ty {
                ScalarType::I1 => 1,
                ScalarType::I8 | ScalarType::U8 => 8,
                ScalarType::I16 | ScalarType::U16 => 16,
                ScalarType::I32 | ScalarType::U32 | ScalarType::Ptr | ScalarType::Felt => 32,
                ScalarType::I64 | ScalarType::U64 => 64,
                ScalarType::I128 | ScalarType::U128 => 128,
            },
        }
    }

    /// How many bits a value of the type takes.
    pub fn size_in_bits(&self) -> (n: u32)
        ensures
            n == self.bits(),
    {
        match self {
            IrType::Ptr(_) => 32,
            IrType::Scalar(ty) => match ty {
                ScalarType::I1 => 1,
                ScalarType::I8 | ScalarType::U8 => 8,
                ScalarType::I16 | ScalarType::U16 => 16,
                ScalarType::I32 | ScalarType::U32 | ScalarType::Ptr | ScalarType::Felt => 32,
                ScalarType::I64 | ScalarType::U64 => 64,
                ScalarType::I128 | ScalarType::U128 => 128,
            },
        }
    }

    /// The type of the same size without a sign, if this is an integer type with a sign.
    pub open spec fn unsigned(self) -> Option<IrType> {
        match self {
            IrType::Scalar(ScalarType::I8) => Some(IrType::Scalar(ScalarType::U8)),
            IrType::Scalar(ScalarType::I16) => Some(IrType::Scalar(ScalarType::U16)),
            IrType::Scalar(ScalarType::I32) => Some(IrType::Scalar(ScalarType::U32)),
            IrType::Scalar(ScalarType::I64) => Some(IrType::Scalar(ScalarType::U64)),
            IrType::Scalar(ScalarType::I128) => Some(IrType::Scalar(ScalarType::U128)),
            _ => None,
        }
    }

    /// The type of the same size without a sign, if this is an integer type with a sign.
    pub fn as_unsigned(&self) -> (ty: Option<IrType>)
        ensures
            ty == self.unsigned(),
    {
        match self {
            IrType::Scalar(ScalarType::I8) => Some(IrType::Scalar(ScalarType::U8)),
            IrType::Scalar(ScalarType::I16) => Some(IrType::Scalar(ScalarType::U16)),
            IrType::Scalar(ScalarType::I32) => Some(IrType::Scalar(ScalarType::U32)),
            IrType::Scalar(ScalarType::I64) => Some(IrType::Scalar(ScalarType::U64)),
            IrType::Scalar(ScalarType::I128) => Some(IrType::Scalar(ScalarType::U128)),
            _ => None,
        }
    }

    /// The type is an integer type without a sign.
    pub open spec fn is_unsigned(self) -> bool {
        matches!(
            self,
            IrType::Scalar(ScalarType::U8) | IrType::Scalar(ScalarType::U16)
            | IrType::Scalar(ScalarType::U32) | IrType::Scalar(ScalarType::U64)
            | IrType::Scalar(ScalarType::U128)
        )
    }

    /// Whether the type is an integer type without a sign.
    pub fn is_unsigned_integer(&self) -> (b: bool)
        ensures
            b == self.is_unsigned(),
    {
        matches!(
            self,
            IrType::Scalar(ScalarType::U8) | IrType::Scalar(ScalarType::U16)
            | IrType::Scalar(ScalarType::U32) | IrType::Scalar(ScalarType::U64)
            | IrType::Scalar(ScalarType::U128)
        )
    }
}

/// A value, which is defined once.
#[derive(Clone, Copy, PartialEq, Eq, Debug, Hash, Structural)]
pub struct Value {
    pub id: u32,
    pub ty: IrType,
}

/// A block of instructions.
#[derive(Clone, Copy, PartialEq, Eq, Debug, Hash, Structural)]
pub struct BlockId {
    pub index: u32,
}

/// Operations on one value.
#[derive(Clone, Copy, PartialEq, Eq, Debug, Hash, Structural)]
pub enum UnaryOp {
    Clz,
    Ctz,
    Popcnt,
}

/// Operations on two values.
#[derive(Clone, Copy, PartialEq, Eq, Debug, Hash, Structural)]
pub enum BinaryOp {
    Add,
    AddWrapping,
    SubWrapping,
    MulWrapping,
    Div,
    Mod,
    Band,
    Bor,
    Bxor,
    Shl,
    Shr,
    Rotl,
    Rotr,
    Eq,
    Neq,
    Lt,
    Lte,
    Gt,
    Gte,
}

impl BinaryOp {
    /// The operation compares its operands.
    pub open spec fn compares(self) -> bool {
        matches!(
            self,
            BinaryOp::Eq | BinaryOp::Neq | BinaryOp::Lt | BinaryOp::Lte | BinaryOp::Gt
            | BinaryOp::Gte
        )
    }

    /// The type of the result: a truth value for a comparison, else that of the left operand.
    pub open spec fn result_of(self, lhs: IrType) -> IrType {
        if self.compares() {
            IrType::Scalar(ScalarType::I1)
        } else {
            lhs
        }
    }

    /// The type of the result, where the left operand has type `lhs`.
    pub fn result_type(&self, lhs: IrType) -> (ty: IrType)
        ensures
            ty == self.result_of(lhs),
    {
        match self {
            BinaryOp::Eq | BinaryOp::Neq | BinaryOp::Lt | BinaryOp::Lte | BinaryOp::Gt
            | BinaryOp::Gte => IrType::Scalar(ScalarType::I1),
            _ => lhs,
        }
    }
}

/// Conversions between types.
#[derive(Clone, Copy, PartialEq, Eq, Debug, Hash, Structural)]
pub enum Conversion {
    Bitcast,
    Cast,
    Zext,
    Sext,
    Trunc,
    PtrToInt,
    IntToPtr,
}

/// One step of the construction of a function. `L` is the type of lists of values, and `C` that of
/// the cases of a switch.
#[derive(PartialEq, Eq, Debug)]
#[allow(inconsistent_fields)]
pub enum Event<L, C> {
    /// What follows stems from the code at the given position.
    At(SourceSpan),
    Const { imm: Immediate, result: Value },
    Unary { op: UnaryOp, arg: Value, result: Value },
    Binary { op: BinaryOp, lhs: Value, rhs: Value, result: Value },
    Convert { op: Conversion, arg: Value, result: Value },
    Select { cond: Value, first: Value, second: Value, result: Value },
    Join { hi: Value, lo: Value, result: Value },
    Split { arg: Value, hi: Value, lo: Value },
    UseVar { var: u32, result: Value },
    DefVar { var: u32, value: Value },
    LoadGlobal { name: Symbol, result: Value },
    StoreGlobal { name: Symbol, value: Value },
    Load { addr: Value, result: Value },
    Store { addr: Value, value: Value },
    MemGrow { pages: Value, result: Value },
    MemSize { result: Value },
    MemCpy { src: Value, dst: Value, count: Value },
    MemSet { dst: Value, count: Value, value: Value },
    /// Fails as a misaligned access unless the value is zero.
    AssertAligned { value: Value },
    Exec { callee: Symbol, args: L, results: L },
    Intrinsic { intrinsic: Symbol, callee: Option<Symbol>, args: L, results: L },
    Unreachable,
    Ret { value: Option<Value> },
    Br { dest: BlockId, args: L },
    CondBr { cond: Value, then_dest: BlockId, then_args: L, else_dest: BlockId, else_args: L },
    Switch { selector: Value, cases: C, default_dest: BlockId, default_args: L },
    CreateBlock { block: BlockId, params: L },
    CreateDetachedBlock { block: BlockId },
    SwitchToBlock { block: BlockId },
    SealBlock { block: BlockId },
    /// The step `branch` no longer leads to `from`, but to `to`.
    ChangeJumpDestination { branch: u32, from: BlockId, to: BlockId },
}

/// A case of a switch.
#[derive(PartialEq, Eq, Debug)]
pub struct SwitchCase<L> {
    pub value: u32,
    pub successor: BlockId,
    pub arguments: L,
}

} // verus!

//! WebAssembly operators and types.
use vstd::prelude::*;
use crate::hir::types::Type;
use crate::symbol::Symbol;
use crate::types::ScalarType;

verus! {

/// The types of WebAssembly values.
#[derive(Clone, Copy, PartialEq, Eq, Debug, Hash, Structural)]
pub enum ValType {
    I32,
    I64,
    F32,
    F64,
    V128,
    Ref,
}

/// The type that values of type `ty` are translated to, where there is one. A 32-bit float stands
/// for a field element.
pub open spec fn scalar_of(ty: ValType) -> Option<ScalarType> {
    match ty {
        ValType::I32 => Some(ScalarType::I32),
        ValType::I64 => Some(ScalarType::I64),
        ValType::F32 => Some(ScalarType::Felt),
        _ => None,
    }
}

/// The type that values of type `ty` are translated to, where there is one.
pub fn ir_type(ty: ValType) -> (scalar: Option<ScalarType>)
    ensures
        scalar == scalar_of(ty),
{
    match ty {
        ValType::I32 => Some(ScalarType::I32),
        ValType::I64 => Some(ScalarType::I64),
        ValType::F32 => Some(ScalarType::Felt),
        _ => None,
    }
}

/// The type of a variable that holds values of type `ty`, where there is one.
pub open spec fn type_of(ty: ValType) -> Option<Type> {
    match ty {
        ValType::I32 => Some(Type::I32),
        ValType::I64 => Some(Type::I64),
        ValType::F32 => Some(Type::Felt),
        _ => None,
    }
}

/// The type of a variable that holds values of type `ty`, where there is one.
pub fn value_type(ty: ValType) -> (value: Option<Type>)
    ensures
        value == type_of(ty),
{
    match ty {
        ValType::I32 => Some(Type::I32),
        ValType::I64 => Some(Type::I64),
        ValType::F32 => Some(Type::Felt),
        _ => None,
    }
}

/// Every type of the list can be translated.
pub open spec fn supported(types: Seq<ValType>) -> bool {
    forall|i: int| 0 <= i < types.len() ==> scalar_of(#[trigger] types[i]) is Some
}

/// The types that the types of the list are translated to.
pub open spec fn scalars_of(types: Seq<ValType>) -> Seq<ScalarType> {
    Seq::new(types.len(), |i: int| scalar_of(types[i])->0)
}

/// The types that the types of the list are translated to, where all can be.
pub fn ir_types(types: &Vec<ValType>) -> (scalars: Option<Vec<ScalarType>>)
    ensures
        scalars is Some <==> supported(types@),
        scalars matches Some(list) ==> list@ == scalars_of(types@),
{
    let mut scalars: Vec<ScalarType> = Vec::new();
    let mut i: usize = 0;
    while i < types.len()
        invariant
            i <= types@.len(),
            scalars@.len() == i,
            forall|j: int| 0 <= j < i ==> scalar_of(#[trigger] types@[j]) is Some,
            forall|j: int| 0 <= j < i ==> scalars@[j] == scalars_of(types@)[j],
        decreases types@.len() - i,
    {
        match ir_type(types[i]) {
            Some(scalar) => scalars.push(scalar),
            None => {
                assert(scalar_of(types@[i as int]) is None);
                return None;
            },
        }
        i = i + 1;
    }
    assert(scalars@ == scalars_of(types@));
    Some(scalars)
}

/// The signature of a function or block.
pub struct Signature {
    pub params: Vec<ValType>,
    pub results: Vec<ValType>,
}

/// The type of a block: nothing, one result, or a signature of the module.
#[derive(Clone, Copy, PartialEq, Eq, Debug, Hash, Structural)]
pub enum BlockType {
    Empty,
    Type(ValType),
    FuncType(u32),
}

/// How the address of a memory access is formed.
#[derive(Clone, Copy, PartialEq, Eq, Debug, Hash, Structural)]
pub struct MemArg {
    /// The alignment that is promised, as a power of two.
    pub align: u8,
    /// What is added to the address.
    pub offset: u64,
}

/// What a call leads to.
#[derive(Clone, Copy, PartialEq, Eq, Debug, Hash, Structural)]
pub enum CallTarget {
    /// An intrinsic that becomes instructions.
    Instruction { intrinsic: Symbol },
    /// An intrinsic that is implemented by a function.
    Intrinsic { intrinsic: Symbol, callee: Symbol },
    /// A function.
    Function { callee: Symbol },
}

/// A function that can be called.
#[derive(Clone, Copy, PartialEq, Eq, Debug, Hash, Structural)]
pub struct Callable {
    pub target: CallTarget,
    /// Its signature, as an index into those of the module.
    pub signature: u32,
}

/// A global variable.
#[derive(Clone, Copy, PartialEq, Eq, Debug, Hash, Structural)]
pub struct Global {
    pub name: Symbol,
    pub ty: ScalarType,
}

/// What the translation of a function knows of its surroundings.
pub struct FuncEnv {
    /// The types of the local variables, parameters first.
    pub variables: Vec<ScalarType>,
    pub globals: Vec<Global>,
    pub functions: Vec<Callable>,
    pub signatures: Vec<Signature>,
}

impl FuncEnv {
    /// The signature of a block can be translated.
    pub open spec fn knows_block(&self, ty: BlockType) -> bool {
        match ty {
            BlockType::Empty => true,
            BlockType::Type(ty) => scalar_of(ty) is Some,
            BlockType::FuncType(i) => supported(self.signatures@[i as int].params@) && supported(
                self.signatures@[i as int].results@,
            ),
        }
    }

    /// The types of the parameters of a block.
    pub open spec fn block_params(&self, ty: BlockType) -> Seq<ScalarType> {
        match ty {
            BlockType::FuncType(i) => scalars_of(self.signatures@[i as int].params@),
            _ => Seq::empty(),
        }
    }

    /// The types of the results of a block.
    pub open spec fn block_results(&self, ty: BlockType) -> Seq<ScalarType> {
        match ty {
            BlockType::Empty => Seq::empty(),
            BlockType::Type(ty) => seq![scalar_of(ty)->0],
            BlockType::FuncType(i) => scalars_of(self.signatures@[i as int].results@),
        }
    }

    /// The parameters and results of a block, if they can be translated.
    pub fn block_signature(&self, ty: BlockType) -> (types: Option<
        (Vec<ScalarType>, Vec<ScalarType>),
    >)
        requires
            ty matches BlockType::FuncType(i) ==> i < self.signatures@.len(),
        ensures
            types is Some <==> self.knows_block(ty),
            types matches Some((params, results)) ==> params@ == self.block_params(ty)
                && results@ == self.block_results(ty),
    {
        match ty {
            BlockType::Empty => Some((Vec::new(), Vec::new())),
            BlockType::Type(ty) => match ir_type(ty) {
                Some(scalar) => {
                    let mut results: Vec<ScalarType> = Vec::new();
                    results.push(scalar);
                    assert(results@ == seq![scalar]);
                    Some((Vec::new(), results))
                },
                None => None,
            },
            BlockType::FuncType(i) => {
                let signature = &self.signatures[i as usize];
                match ir_types(&signature.params) {
                    Some(params) => match ir_types(&signature.results) {
                        Some(results) => Some((params, results)),
                        None => None,
                    },
                    None => None,
                }
            },
        }
    }
}

/// An operator.
#[derive(PartialEq, Eq, Debug)]
#[allow(inconsistent_fields)]
pub enum Operator {
    LocalGet { local_index: u32 },
    LocalSet { local_index: u32 },
    LocalTee { local_index: u32 },
    GlobalGet { global_index: u32 },
    GlobalSet { global_index: u32 },
    Drop,
    Select,
    TypedSelect { ty: ValType },
    Unreachable,
    Nop,
    Block { blockty: BlockType },
    Loop { blockty: BlockType },
    If { blockty: BlockType },
    Else,
    End,
    Br { relative_depth: u32 },
    BrIf { relative_depth: u32 },
    BrTable { targets: Vec<u32>, default: u32 },
    Return,
    Call { function_index: u32 },
    MemoryGrow,
    MemorySize,
    MemoryCopy { dst_mem: u32, src_mem: u32 },
    MemoryFill { mem: u32 },
    I32Load8U { memarg: MemArg },
    I32Load16U { memarg: MemArg },
    I32Load8S { memarg: MemArg },
    I32Load16S { memarg: MemArg },
    I64Load8U { memarg: MemArg },
    I64Load16U { memarg: MemArg },
    I64Load8S { memarg: MemArg },
    I64Load16S { memarg: MemArg },
    I64Load32S { memarg: MemArg },
    I64Load32U { memarg: MemArg },
    I32Load { memarg: MemArg },
    I64Load { memarg: MemArg },
    F32Load { memarg: MemArg },
    I32Store { memarg: MemArg },
    I64Store { memarg: MemArg },
    F32Store { memarg: MemArg },
    I32Store8 { memarg: MemArg },
    I64Store8 { memarg: MemArg },
    I32Store16 { memarg: MemArg },
    I64Store16 { memarg: MemArg },
    I64Store32 { memarg: MemArg },
    I32Const { value: i32 },
    I64Const { value: i64 },
    I32Clz,
    I64Clz,
    I32Ctz,
    I64Ctz,
    I32Popcnt,
    I64Popcnt,
    I32Extend8S,
    I32Extend16S,
    I64ExtendI32S,
    I64ExtendI32U,
    I32WrapI64,
    F32ReinterpretI32,
    I32Add,
    I64Add,
    I64Add128,
    I32And,
    I64And,
    I32Or,
    I64Or,
    I32Xor,
    I64Xor,
    I32Shl,
    I64Shl,
    I32ShrU,
    I64ShrU,
    I32ShrS,
    I64ShrS,
    I32Rotl,
    I64Rotl,
    I32Rotr,
    I64Rotr,
    I32Sub,
    I64Sub,
    I64Sub128,
    I32Mul,
    I64Mul,
    I64MulWideU,
    I64MulWideS,
    I32DivS,
    I64DivS,
    I32DivU,
    I64DivU,
    I32RemU,
    I64RemU,
    I32RemS,
    I64RemS,
    I32LtU,
    I64LtU,
    I32LtS,
    I64LtS,
    I32LeU,
    I64LeU,
    I32LeS,
    I64LeS,
    I32GtU,
    I64GtU,
    I32GtS,
    I64GtS,
    I32GeU,
    I64GeU,
    I32GeS,
    I64GeS,
    I32Eqz,
    I64Eqz,
    I32Eq,
    I64Eq,
    I32Ne,
    I64Ne,
    /// An operator that cannot be translated.
    Other,
}

/// An operator, with its table as a sequence.
pub ghost enum OperatorView {
    /// A branch by a table
    Table { targets: Seq<u32>, default: u32 },
    Plain(Operator),
}

impl View for Operator {
    type V = OperatorView;

    open spec fn view(&self) -> OperatorView {
        match *self {
            Operator::BrTable { targets, default } => OperatorView::Table {
                targets: targets@,
                default,
            },
            _ => OperatorView::Plain(*self),
        }
    }
}

} // verus!

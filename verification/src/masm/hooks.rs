//! The operations that can be lowered to Miden Assembly.
use vstd::prelude::*;

verus! {

/// A dialect: a family of operations.
#[derive(Clone, Copy, PartialEq, Eq, Debug, Hash, Structural)]
pub enum Dialect {
    Builtin,
    Arith,
    ControlFlow,
    Scf,
    UndefinedBehavior,
    Hir,
}

/// The operations of the `builtin` dialect that can be lowered.
#[derive(Clone, Copy, PartialEq, Eq, Debug, Hash, Structural)]
pub enum BuiltinOp {
    Ret,
    RetImm,
    GlobalSymbol,
    DbgValue,
    DbgDeclare,
}

/// The operations of the `arith` dialect that can be lowered.
#[derive(Clone, Copy, PartialEq, Eq, Debug, Hash, Structural)]
pub enum ArithOp {
    Constant,
    Add,
    AddOverflowing,
    Sub,
    SubOverflowing,
    Mul,
    MulOverflowing,
    Exp,
    Div,
    Sdiv,
    Mod,
    Smod,
    Divmod,
    Sdivmod,
    And,
    Or,
    Xor,
    Band,
    Bor,
    Bxor,
    Shl,
    Shr,
    Ashr,
    Rotl,
    Rotr,
    Eq,
    Neq,
    Gt,
    Gte,
    Lt,
    Lte,
    Min,
    Max,
    Trunc,
    Zext,
    Sext,
    Incr,
    Neg,
    Inv,
    Ilog2,
    Pow2,
    Not,
    Bnot,
    IsOdd,
    Popcnt,
    Clz,
    Ctz,
    Clo,
    Cto,
    Join,
    Split,
}

/// The operations of the `cf` dialect that can be lowered.
#[derive(Clone, Copy, PartialEq, Eq, Debug, Hash, Structural)]
pub enum ControlFlowOp {
    Select,
    CondBr,
}

/// The operations of the `scf` dialect that can be lowered.
#[derive(Clone, Copy, PartialEq, Eq, Debug, Hash, Structural)]
pub enum ScfOp {
    If,
    While,
    IndexSwitch,
    Condition,
    Yield,
}

/// The operations of the `ub` dialect that can be lowered.
#[derive(Clone, Copy, PartialEq, Eq, Debug, Hash, Structural)]
pub enum UndefinedBehaviorOp {
    Unreachable,
    Poison,
}

/// The operations of the `hir` dialect that can be lowered.
#[derive(Clone, Copy, PartialEq, Eq, Debug, Hash, Structural)]
pub enum HirOp {
    Assert,
    Assertz,
    AssertEq,
    PtrToInt,
    IntToPtr,
    Cast,
    Bitcast,
    Exec,
    Call,
    Store,
    StoreLocal,
    Load,
    LoadLocal,
    MemGrow,
    MemSize,
    MemSet,
    MemCpy,
    Breakpoint,
}

/// An operation that can be lowered.
#[derive(Clone, Copy, PartialEq, Eq, Debug, Hash, Structural)]
pub enum LoweredOp {
    Builtin(BuiltinOp),
    Arith(ArithOp),
    ControlFlow(ControlFlowOp),
    Scf(ScfOp),
    UndefinedBehavior(UndefinedBehaviorOp),
    Hir(HirOp),
}

impl LoweredOp {
    /// The dialect that the operation is of.
    pub open spec fn family(self) -> Dialect {
        match self {
            LoweredOp::Builtin(_) => Dialect::Builtin,
            LoweredOp::Arith(_) => Dialect::Arith,
            LoweredOp::ControlFlow(_) => Dialect::ControlFlow,
            LoweredOp::Scf(_) => Dialect::Scf,
            LoweredOp::UndefinedBehavior(_) => Dialect::UndefinedBehavior,
            LoweredOp::Hir(_) => Dialect::Hir,
        }
    }

    /// The dialect that the operation is of.
    pub fn dialect(&self) -> (dialect: Dialect)
        ensures
            dialect == self.family(),
    {
        match self {
            LoweredOp::Builtin(_) => Dialect::Builtin,
            LoweredOp::Arith(_) => Dialect::Arith,
            LoweredOp::ControlFlow(_) => Dialect::ControlFlow,
            LoweredOp::Scf(_) => Dialect::Scf,
            LoweredOp::UndefinedBehavior(_) => Dialect::UndefinedBehavior,
            LoweredOp::Hir(_) => Dialect::Hir,
        }
    }
}

/// The lowered operations of the `builtin` dialect, in the order of registration.
pub open spec fn builtin_ops() -> Seq<LoweredOp> {
    seq![
        LoweredOp::Builtin(BuiltinOp::Ret),
        LoweredOp::Builtin(BuiltinOp::RetImm),
        LoweredOp::Builtin(BuiltinOp::GlobalSymbol),
        LoweredOp::Builtin(BuiltinOp::DbgValue),
        LoweredOp::Builtin(BuiltinOp::DbgDeclare),
    ]
}

/// The lowered operations of the `arith` dialect, in the order of registration.
pub open spec fn arith_ops() -> Seq<LoweredOp> {
    seq![
        LoweredOp::Arith(ArithOp::Constant),
        LoweredOp::Arith(ArithOp::Add),
        LoweredOp::Arith(ArithOp::AddOverflowing),
        LoweredOp::Arith(ArithOp::Sub),
        LoweredOp::Arith(ArithOp::SubOverflowing),
        LoweredOp::Arith(ArithOp::Mul),
        LoweredOp::Arith(ArithOp::MulOverflowing),
        LoweredOp::Arith(ArithOp::Exp),
        LoweredOp::Arith(ArithOp::Div),
        LoweredOp::Arith(ArithOp::Sdiv),
        LoweredOp::Arith(ArithOp::Mod),
        LoweredOp::Arith(ArithOp::Smod),
        LoweredOp::Arith(ArithOp::Divmod),
        LoweredOp::Arith(ArithOp::Sdivmod),
        LoweredOp::Arith(ArithOp::And),
        LoweredOp::Arith(ArithOp::Or),
        LoweredOp::Arith(ArithOp::Xor),
        LoweredOp::Arith(ArithOp::Band),
        LoweredOp::Arith(ArithOp::Bor),
        LoweredOp::Arith(ArithOp::Bxor),
        LoweredOp::Arith(ArithOp::Shl),
        LoweredOp::Arith(ArithOp::Shr),
        LoweredOp::Arith(ArithOp::Ashr),
        LoweredOp::Arith(ArithOp::Rotl),
        LoweredOp::Arith(ArithOp::Rotr),
        LoweredOp::Arith(ArithOp::Eq),
        LoweredOp::Arith(ArithOp::Neq),
        LoweredOp::Arith(ArithOp::Gt),
        LoweredOp::Arith(ArithOp::Gte),
        LoweredOp::Arith(ArithOp::Lt),
        LoweredOp::Arith(ArithOp::Lte),
        LoweredOp::Arith(ArithOp::Min),
        LoweredOp::Arith(ArithOp::Max),
        LoweredOp::Arith(ArithOp::Trunc),
        LoweredOp::Arith(ArithOp::Zext),
        LoweredOp::Arith(ArithOp::Sext),
        LoweredOp::Arith(ArithOp::Incr),
        LoweredOp::Arith(ArithOp::Neg),
        LoweredOp::Arith(ArithOp::Inv),
        LoweredOp::Arith(ArithOp::Ilog2),
        LoweredOp::Arith(ArithOp::Pow2),
        LoweredOp::Arith(ArithOp::Not),
        LoweredOp::Arith(ArithOp::Bnot),
        LoweredOp::Arith(ArithOp::IsOdd),
        LoweredOp::Arith(ArithOp::Popcnt),
        LoweredOp::Arith(ArithOp::Clz),
        LoweredOp::Arith(ArithOp::Ctz),
        LoweredOp::Arith(ArithOp::Clo),
        LoweredOp::Arith(ArithOp::Cto),
        LoweredOp::Arith(ArithOp::Join),
        LoweredOp::Arith(ArithOp::Split),
    ]
}

/// The lowered operations of the `cf` dialect, in the order of registration.
pub open spec fn cf_ops() -> Seq<LoweredOp> {
    seq![
        LoweredOp::ControlFlow(ControlFlowOp::Select),
        LoweredOp::ControlFlow(ControlFlowOp::CondBr),
    ]
}

/// The lowered operations of the `scf` dialect, in the order of registration.
pub open spec fn scf_ops() -> Seq<LoweredOp> {
    seq![
        LoweredOp::Scf(ScfOp::If),
        LoweredOp::Scf(ScfOp::While),
        LoweredOp::Scf(ScfOp::IndexSwitch),
        LoweredOp::Scf(ScfOp::Condition),
        LoweredOp::Scf(ScfOp::Yield),
    ]
}

/// The lowered operations of the `ub` dialect, in the order of registration.
pub open spec fn ub_ops() -> Seq<LoweredOp> {
    seq![
        LoweredOp::UndefinedBehavior(UndefinedBehaviorOp::Unreachable),
        LoweredOp::UndefinedBehavior(UndefinedBehaviorOp::Poison),
    ]
}

/// The lowered operations of the `hir` dialect, in the order of registration.
pub open spec fn hir_ops() -> Seq<LoweredOp> {
    seq![
        LoweredOp::Hir(HirOp::Assert),
        LoweredOp::Hir(HirOp::Assertz),
        LoweredOp::Hir(HirOp::AssertEq),
        LoweredOp::Hir(HirOp::PtrToInt),
        LoweredOp::Hir(HirOp::IntToPtr),
        LoweredOp::Hir(HirOp::Cast),
        LoweredOp::Hir(HirOp::Bitcast),
        LoweredOp::Hir(HirOp::Exec),
        LoweredOp::Hir(HirOp::Call),
        LoweredOp::Hir(HirOp::Store),
        LoweredOp::Hir(HirOp::StoreLocal),
        LoweredOp::Hir(HirOp::Load),
        LoweredOp::Hir(HirOp::LoadLocal),
        LoweredOp::Hir(HirOp::MemGrow),
        LoweredOp::Hir(HirOp::MemSize),
        LoweredOp::Hir(HirOp::MemSet),
        LoweredOp::Hir(HirOp::MemCpy),
        LoweredOp::Hir(HirOp::Breakpoint),
    ]
}

/// The operations that are lowered, by dialect. The hook of a dialect registers its operations when
/// the dialect is loaded.
pub struct DialectHook {
    pub dialect: Dialect,
    pub operations: Vec<LoweredOp>,
}

/// The operations of a dialect that are lowered.
pub open spec fn lowered_ops(dialect: Dialect) -> Seq<LoweredOp> {
    match dialect {
        Dialect::Builtin => builtin_ops(),
        Dialect::Arith => arith_ops(),
        Dialect::ControlFlow => cf_ops(),
        Dialect::Scf => scf_ops(),
        Dialect::UndefinedBehavior => ub_ops(),
        Dialect::Hir => hir_ops(),
    }
}

/// The dialects that have a hook, in the order of registration.
pub open spec fn hooked() -> Seq<Dialect> {
    seq![
        Dialect::Builtin,
        Dialect::Arith,
        Dialect::ControlFlow,
        Dialect::Scf,
        Dialect::UndefinedBehavior,
        Dialect::Hir,
    ]
}

fn hook_builtin() -> (hook: DialectHook)
    ensures
        hook.dialect == Dialect::Builtin,
        hook.operations@ == builtin_ops(),
{
    let operations = vec![
        LoweredOp::Builtin(BuiltinOp::Ret),
        LoweredOp::Builtin(BuiltinOp::RetImm),
        LoweredOp::Builtin(BuiltinOp::GlobalSymbol),
        LoweredOp::Builtin(BuiltinOp::DbgValue),
        LoweredOp::Builtin(BuiltinOp::DbgDeclare),
    ];
    assert(operations@ =~= builtin_ops());
    DialectHook { dialect: Dialect::Builtin, operations }
}

fn hook_arith() -> (hook: DialectHook)
    ensures
        hook.dialect == Dialect::Arith,
        hook.operations@ == arith_ops(),
{
    let operations = vec![
        LoweredOp::Arith(ArithOp::Constant),
        LoweredOp::Arith(ArithOp::Add),
        LoweredOp::Arith(ArithOp::AddOverflowing),
        LoweredOp::Arith(ArithOp::Sub),
        LoweredOp::Arith(ArithOp::SubOverflowing),
        LoweredOp::Arith(ArithOp::Mul),
        LoweredOp::Arith(ArithOp::MulOverflowing),
        LoweredOp::Arith(ArithOp::Exp),
        LoweredOp::Arith(ArithOp::Div),
        LoweredOp::Arith(ArithOp::Sdiv),
        LoweredOp::Arith(ArithOp::Mod),
        LoweredOp::Arith(ArithOp::Smod),
        LoweredOp::Arith(ArithOp::Divmod),
        LoweredOp::Arith(ArithOp::Sdivmod),
        LoweredOp::Arith(ArithOp::And),
        LoweredOp::Arith(ArithOp::Or),
        LoweredOp::Arith(ArithOp::Xor),
        LoweredOp::Arith(ArithOp::Band),
        LoweredOp::Arith(ArithOp::Bor),
        LoweredOp::Arith(ArithOp::Bxor),
        LoweredOp::Arith(ArithOp::Shl),
        LoweredOp::Arith(ArithOp::Shr),
        LoweredOp::Arith(ArithOp::Ashr),
        LoweredOp::Arith(ArithOp::Rotl),
        LoweredOp::Arith(ArithOp::Rotr),
        LoweredOp::Arith(ArithOp::Eq),
        LoweredOp::Arith(ArithOp::Neq),
        LoweredOp::Arith(ArithOp::Gt),
        LoweredOp::Arith(ArithOp::Gte),
        LoweredOp::Arith(ArithOp::Lt),
        LoweredOp::Arith(ArithOp::Lte),
        LoweredOp::Arith(ArithOp::Min),
        LoweredOp::Arith(ArithOp::Max),
        LoweredOp::Arith(ArithOp::Trunc),
        LoweredOp::Arith(ArithOp::Zext),
        LoweredOp::Arith(ArithOp::Sext),
        LoweredOp::Arith(ArithOp::Incr),
        LoweredOp::Arith(ArithOp::Neg),
        LoweredOp::Arith(ArithOp::Inv),
        LoweredOp::Arith(ArithOp::Ilog2),
        LoweredOp::Arith(ArithOp::Pow2),
        LoweredOp::Arith(ArithOp::Not),
        LoweredOp::Arith(ArithOp::Bnot),
        LoweredOp::Arith(ArithOp::IsOdd),
        LoweredOp::Arith(ArithOp::Popcnt),
        LoweredOp::Arith(ArithOp::Clz),
        LoweredOp::Arith(ArithOp::Ctz),
        LoweredOp::Arith(ArithOp::Clo),
        LoweredOp::Arith(ArithOp::Cto),
        LoweredOp::Arith(ArithOp::Join),
        LoweredOp::Arith(ArithOp::Split),
    ];
    assert(operations@ =~= arith_ops());
    DialectHook { dialect: Dialect::Arith, operations }
}

fn hook_cf() -> (hook: DialectHook)
    ensures
        hook.dialect == Dialect::ControlFlow,
        hook.operations@ == cf_ops(),
{
    let operations = vec![
        LoweredOp::ControlFlow(ControlFlowOp::Select),
        LoweredOp::ControlFlow(ControlFlowOp::CondBr),
    ];
    assert(operations@ =~= cf_ops());
    DialectHook { dialect: Dialect::ControlFlow, operations }
}

fn hook_scf() -> (hook: DialectHook)
    ensures
        hook.dialect == Dialect::Scf,
        hook.operations@ == scf_ops(),
{
    let operations = vec![
        LoweredOp::Scf(ScfOp::If),
        LoweredOp::Scf(ScfOp::While),
        LoweredOp::Scf(ScfOp::IndexSwitch),
        LoweredOp::Scf(ScfOp::Condition),
        LoweredOp::Scf(ScfOp::Yield),
    ];
    assert(operations@ =~= scf_ops());
    DialectHook { dialect: Dialect::Scf, operations }
}

fn hook_ub() -> (hook: DialectHook)
    ensures
        hook.dialect == Dialect::UndefinedBehavior,
        hook.operations@ == ub_ops(),
{
    let operations = vec![
        LoweredOp::UndefinedBehavior(UndefinedBehaviorOp::Unreachable),
        LoweredOp::UndefinedBehavior(UndefinedBehaviorOp::Poison),
    ];
    assert(operations@ =~= ub_ops());
    DialectHook { dialect: Dialect::UndefinedBehavior, operations }
}

fn hook_hir() -> (hook: DialectHook)
    ensures
        hook.dialect == Dialect::Hir,
        hook.operations@ == hir_ops(),
{
    let operations = vec![
        LoweredOp::Hir(HirOp::Assert),
        LoweredOp::Hir(HirOp::Assertz),
        LoweredOp::Hir(HirOp::AssertEq),
        LoweredOp::Hir(HirOp::PtrToInt),
        LoweredOp::Hir(HirOp::IntToPtr),
        LoweredOp::Hir(HirOp::Cast),
        LoweredOp::Hir(HirOp::Bitcast),
        LoweredOp::Hir(HirOp::Exec),
        LoweredOp::Hir(HirOp::Call),
        LoweredOp::Hir(HirOp::Store),
        LoweredOp::Hir(HirOp::StoreLocal),
        LoweredOp::Hir(HirOp::Load),
        LoweredOp::Hir(HirOp::LoadLocal),
        LoweredOp::Hir(HirOp::MemGrow),
        LoweredOp::Hir(HirOp::MemSize),
        LoweredOp::Hir(HirOp::MemSet),
        LoweredOp::Hir(HirOp::MemCpy),
        LoweredOp::Hir(HirOp::Breakpoint),
    ];
    assert(operations@ =~= hir_ops());
    DialectHook { dialect: Dialect::Hir, operations }
}

/// Adds the hooks that register how operations are lowered, one for each dialect.
pub fn register_dialect_hooks(context: &mut Vec<DialectHook>)
    ensures
        final(context)@.len() == old(context)@.len() + hooked().len(),
        forall|i: int|
            0 <= i < old(context)@.len() ==> #[trigger] final(context)@[i] == old(context)@[i],
        forall|i: int|
            0 <= i < hooked().len() ==> {
                let hook = #[trigger] final(context)@[old(context)@.len() + i];
                &&& hook.dialect == hooked()[i]
                &&& hook.operations@ == lowered_ops(hooked()[i])
            },
{
    context.push(hook_builtin());
    context.push(hook_arith());
    context.push(hook_cf());
    context.push(hook_scf());
    context.push(hook_ub());
    context.push(hook_hir());
}

/// Every operation that can be lowered is registered with its own dialect, and once.
pub proof fn every_operation_is_registered(op: LoweredOp)
    ensures
        hooked().contains(op.family()),
        lowered_ops(op.family()).contains(op),
        forall|i: int, j: int|
            0 <= i < j < lowered_ops(op.family()).len() ==> lowered_ops(op.family())[i]
                != lowered_ops(op.family())[j],
        forall|dialect: Dialect|
            #[trigger] lowered_ops(dialect).contains(op) ==> dialect == op.family(),
{
    assert(hooked()[0] == Dialect::Builtin);
    assert(hooked()[1] == Dialect::Arith);
    assert(hooked()[2] == Dialect::ControlFlow);
    assert(hooked()[3] == Dialect::Scf);
    assert(hooked()[4] == Dialect::UndefinedBehavior);
    assert(hooked()[5] == Dialect::Hir);
    match op {
        LoweredOp::Builtin(inner) => {
            let all = builtin_ops();
            match inner {
                BuiltinOp::Ret => {
                    assert(all[0] == op);
                },
                BuiltinOp::RetImm => {
                    assert(all[1] == op);
                },
                BuiltinOp::GlobalSymbol => {
                    assert(all[2] == op);
                },
                BuiltinOp::DbgValue => {
                    assert(all[3] == op);
                },
                BuiltinOp::DbgDeclare => {
                    assert(all[4] == op);
                },
            }
        },
        LoweredOp::Arith(inner) => {
            let all = arith_ops();
            match inner {
                ArithOp::Constant => {
                    assert(all[0] == op);
                },
                ArithOp::Add => {
                    assert(all[1] == op);
                },
                ArithOp::AddOverflowing => {
                    assert(all[2] == op);
                },
                ArithOp::Sub => {
                    assert(all[3] == op);
                },
                ArithOp::SubOverflowing => {
                    assert(all[4] == op);
                },
                ArithOp::Mul => {
                    assert(all[5] == op);
                },
                ArithOp::MulOverflowing => {
                    assert(all[6] == op);
                },
                ArithOp::Exp => {
                    assert(all[7] == op);
                },
                ArithOp::Div => {
                    assert(all[8] == op);
                },
                ArithOp::Sdiv => {
                    assert(all[9] == op);
                },
                ArithOp::Mod => {
                    assert(all[10] == op);
                },
                ArithOp::Smod => {
                    assert(all[11] == op);
                },
                ArithOp::Divmod => {
                    assert(all[12] == op);
                },
                ArithOp::Sdivmod => {
                    assert(all[13] == op);
                },
                ArithOp::And => {
                    assert(all[14] == op);
                },
                ArithOp::Or => {
                    assert(all[15] == op);
                },
                ArithOp::Xor => {
                    assert(all[16] == op);
                },
                ArithOp::Band => {
                    assert(all[17] == op);
                },
                ArithOp::Bor => {
                    assert(all[18] == op);
                },
                ArithOp::Bxor => {
                    assert(all[19] == op);
                },
                ArithOp::Shl => {
                    assert(all[20] == op);
                },
                ArithOp::Shr => {
                    assert(all[21] == op);
                },
                ArithOp::Ashr => {
                    assert(all[22] == op);
                },
                ArithOp::Rotl => {
                    assert(all[23] == op);
                },
                ArithOp::Rotr => {
                    assert(all[24] == op);
                },
                ArithOp::Eq => {
                    assert(all[25] == op);
                },
                ArithOp::Neq => {
                    assert(all[26] == op);
                },
                ArithOp::Gt => {
                    assert(all[27] == op);
                },
                ArithOp::Gte => {
                    assert(all[28] == op);
                },
                ArithOp::Lt => {
                    assert(all[29] == op);
                },
                ArithOp::Lte => {
                    assert(all[30] == op);
                },
                ArithOp::Min => {
                    assert(all[31] == op);
                },
                ArithOp::Max => {
                    assert(all[32] == op);
                },
                ArithOp::Trunc => {
                    assert(all[33] == op);
                },
                ArithOp::Zext => {
                    assert(all[34] == op);
                },
                ArithOp::Sext => {
                    assert(all[35] == op);
                },
                ArithOp::Incr => {
                    assert(all[36] == op);
                },
                ArithOp::Neg => {
                    assert(all[37] == op);
                },
                ArithOp::Inv => {
                    assert(all[38] == op);
                },
                ArithOp::Ilog2 => {
                    assert(all[39] == op);
                },
                ArithOp::Pow2 => {
                    assert(all[40] == op);
                },
                ArithOp::Not => {
                    assert(all[41] == op);
                },
                ArithOp::Bnot => {
                    assert(all[42] == op);
                },
                ArithOp::IsOdd => {
                    assert(all[43] == op);
                },
                ArithOp::Popcnt => {
                    assert(all[44] == op);
                },
                ArithOp::Clz => {
                    assert(all[45] == op);
                },
                ArithOp::Ctz => {
                    assert(all[46] == op);
                },
                ArithOp::Clo => {
                    assert(all[47] == op);
                },
                ArithOp::Cto => {
                    assert(all[48] == op);
                },
                ArithOp::Join => {
                    assert(all[49] == op);
                },
                ArithOp::Split => {
                    assert(all[50] == op);
                },
            }
        },
        LoweredOp::ControlFlow(inner) => {
            let all = cf_ops();
            match inner {
                ControlFlowOp::Select => {
                    assert(all[0] == op);
                },
                ControlFlowOp::CondBr => {
                    assert(all[1] == op);
                },
            }
        },
        LoweredOp::Scf(inner) => {
            let all = scf_ops();
            match inner {
                ScfOp::If => {
                    assert(all[0] == op);
                },
                ScfOp::While => {
                    assert(all[1] == op);
                },
                ScfOp::IndexSwitch => {
                    assert(all[2] == op);
                },
                ScfOp::Condition => {
                    assert(all[3] == op);
                },
                ScfOp::Yield => {
                    assert(all[4] == op);
                },
            }
        },
        LoweredOp::UndefinedBehavior(inner) => {
            let all = ub_ops();
            match inner {
                UndefinedBehaviorOp::Unreachable => {
                    assert(all[0] == op);
                },
                UndefinedBehaviorOp::Poison => {
                    assert(all[1] == op);
                },
            }
        },
        LoweredOp::Hir(inner) => {
            let all = hir_ops();
            match inner {
                HirOp::Assert => {
                    assert(all[0] == op);
                },
                HirOp::Assertz => {
                    assert(all[1] == op);
                },
                HirOp::AssertEq => {
                    assert(all[2] == op);
                },
                HirOp::PtrToInt => {
                    assert(all[3] == op);
                },
                HirOp::IntToPtr => {
                    assert(all[4] == op);
                },
                HirOp::Cast => {
                    assert(all[5] == op);
                },
                HirOp::Bitcast => {
                    assert(all[6] == op);
                },
                HirOp::Exec => {
                    assert(all[7] == op);
                },
                HirOp::Call => {
                    assert(all[8] == op);
                },
                HirOp::Store => {
                    assert(all[9] == op);
                },
                HirOp::StoreLocal => {
                    assert(all[10] == op);
                },
                HirOp::Load => {
                    assert(all[11] == op);
                },
                HirOp::LoadLocal => {
                    assert(all[12] == op);
                },
                HirOp::MemGrow => {
                    assert(all[13] == op);
                },
                HirOp::MemSize => {
                    assert(all[14] == op);
                },
                HirOp::MemSet => {
                    assert(all[15] == op);
                },
                HirOp::MemCpy => {
                    assert(all[16] == op);
                },
                HirOp::Breakpoint => {
                    assert(all[17] == op);
                },
            }
        },
    }
    assert forall|dialect: Dialect| #[trigger] lowered_ops(dialect).contains(op) implies dialect
        == op.family() by {
        let i = choose|i: int| 0 <= i < lowered_ops(dialect).len() && lowered_ops(dialect)[i] == op;
        assert(lowered_ops(dialect)[i].family() == dialect);
    }
    no_operation_twice(op.family());
}

proof fn no_operation_twice(dialect: Dialect)
    ensures
        forall|i: int, j: int|
            0 <= i < j < lowered_ops(dialect).len() ==> lowered_ops(dialect)[i] != lowered_ops(
                dialect,
            )[j],
{
    let all = lowered_ops(dialect);
    assert forall|i: int| 0 <= i < all.len() implies position(#[trigger] all[i]) == i by {
    }
    assert forall|i: int, j: int| 0 <= i < j < all.len() implies all[i] != all[j] by {
        assert(position(all[i]) == i);
        assert(position(all[j]) == j);
    }
}

/// Where an operation stands among those of its dialect.
spec fn position(op: LoweredOp) -> int {
    match op {
        LoweredOp::Builtin(inner) => match inner {
            BuiltinOp::Ret => 0,
            BuiltinOp::RetImm => 1,
            BuiltinOp::GlobalSymbol => 2,
            BuiltinOp::DbgValue => 3,
            BuiltinOp::DbgDeclare => 4,
        },
        LoweredOp::Arith(inner) => match inner {
            ArithOp::Constant => 0,
            ArithOp::Add => 1,
            ArithOp::AddOverflowing => 2,
            ArithOp::Sub => 3,
            ArithOp::SubOverflowing => 4,
            ArithOp::Mul => 5,
            ArithOp::MulOverflowing => 6,
            ArithOp::Exp => 7,
            ArithOp::Div => 8,
            ArithOp::Sdiv => 9,
            ArithOp::Mod => 10,
            ArithOp::Smod => 11,
            ArithOp::Divmod => 12,
            ArithOp::Sdivmod => 13,
            ArithOp::And => 14,
            ArithOp::Or => 15,
            ArithOp::Xor => 16,
            ArithOp::Band => 17,
            ArithOp::Bor => 18,
            ArithOp::Bxor => 19,
            ArithOp::Shl => 20,
            ArithOp::Shr => 21,
            ArithOp::Ashr => 22,
            ArithOp::Rotl => 23,
            ArithOp::Rotr => 24,
            ArithOp::Eq => 25,
            ArithOp::Neq => 26,
            ArithOp::Gt => 27,
            ArithOp::Gte => 28,
            ArithOp::Lt => 29,
            ArithOp::Lte => 30,
            ArithOp::Min => 31,
            ArithOp::Max => 32,
            ArithOp::Trunc => 33,
            ArithOp::Zext => 34,
            ArithOp::Sext => 35,
            ArithOp::Incr => 36,
            ArithOp::Neg => 37,
            ArithOp::Inv => 38,
            ArithOp::Ilog2 => 39,
            ArithOp::Pow2 => 40,
            ArithOp::Not => 41,
            ArithOp::Bnot => 42,
            ArithOp::IsOdd => 43,
            ArithOp::Popcnt => 44,
            ArithOp::Clz => 45,
            ArithOp::Ctz => 46,
            ArithOp::Clo => 47,
            ArithOp::Cto => 48,
            ArithOp::Join => 49,
            ArithOp::Split => 50,
        },
        LoweredOp::ControlFlow(inner) => match inner {
            ControlFlowOp::Select => 0,
            ControlFlowOp::CondBr => 1,
        },
        LoweredOp::Scf(inner) => match inner {
            ScfOp::If => 0,
            ScfOp::While => 1,
            ScfOp::IndexSwitch => 2,
            ScfOp::Condition => 3,
            ScfOp::Yield => 4,
        },
        LoweredOp::UndefinedBehavior(inner) => match inner {
            UndefinedBehaviorOp::Unreachable => 0,
            UndefinedBehaviorOp::Poison => 1,
        },
        LoweredOp::Hir(inner) => match inner {
            HirOp::Assert => 0,
            HirOp::Assertz => 1,
            HirOp::AssertEq => 2,
            HirOp::PtrToInt => 3,
            HirOp::IntToPtr => 4,
            HirOp::Cast => 5,
            HirOp::Bitcast => 6,
            HirOp::Exec => 7,
            HirOp::Call => 8,
            HirOp::Store => 9,
            HirOp::StoreLocal => 10,
            HirOp::Load => 11,
            HirOp::LoadLocal => 12,
            HirOp::MemGrow => 13,
            HirOp::MemSize => 14,
            HirOp::MemSet => 15,
            HirOp::MemCpy => 16,
            HirOp::Breakpoint => 17,
        },
    }
}

} // verus!

//! The instructions of Miden Assembly.
use vstd::prelude::*;
use crate::span::SourceSpan;
use crate::symbol::Symbol;

verus! {

/// How a procedure is invoked.
#[derive(Clone, Copy, PartialEq, Eq, Debug, Hash, Structural)]
pub enum InvokeKind {
    Exec,
    Call,
    SysCall,
}

/// The procedure that an invocation names: one of the same module, or one given by its path.
#[derive(Clone, Copy, PartialEq, Eq, Debug, Hash, Structural)]
pub enum InvocationTarget {
    Symbol(Symbol),
    Path(Symbol),
}

/// A procedure that some code invokes, and how.
#[derive(Clone, Copy, PartialEq, Eq, Debug, Hash, Structural)]
pub struct Invoke {
    pub kind: InvokeKind,
    pub target: InvocationTarget,
}

/// Events that a debugger can observe.
#[derive(Clone, Copy, PartialEq, Eq, Debug, Hash, Structural)]
pub enum TraceEvent {
    FrameStart,
    FrameEnd,
}

/// The operand of a `push`.
#[derive(Clone, Copy, PartialEq, Eq, Debug, Hash, Structural)]
pub enum PushValue {
    U8(u8),
    U16(u16),
    U32(u32),
    Felt(u64),
}

/// Where the value of a variable is while a program runs.
#[derive(Clone, Copy, PartialEq, Eq, Debug, Hash, Structural)]
pub enum DebugVarLocation {
    /// At the given position of the operand stack
    Stack(u8),
    /// In the given local
    Local(u16),
    /// The value is a constant
    Const(u64),
    /// Nothing is known
    Expression,
}

/// A position in a source file.
#[derive(Clone, Copy, PartialEq, Eq, Debug, Hash, Structural)]
pub struct FilePosition {
    pub file: Symbol,
    pub line: u32,
    pub column: u32,
}

/// What a debugger can know of a variable.
#[derive(Clone, Copy, PartialEq, Eq, Debug, Hash, Structural)]
pub struct DebugVarInfo {
    pub name: Symbol,
    pub location: DebugVarLocation,
    /// The number of the parameter that the variable is, counted from one
    pub arg_index: Option<u32>,
    pub position: Option<FilePosition>,
}

/// A primitive instruction.
#[derive(Clone, Copy, PartialEq, Eq, Debug, Hash, Structural)]
pub enum Instruction {
    Nop,
    Drop,
    DropW,
    Push(PushValue),
    Dup0,
    Dup1,
    Dup2,
    Dup3,
    Dup4,
    Dup5,
    Dup6,
    Dup7,
    Dup8,
    Dup9,
    Dup10,
    Dup11,
    Dup12,
    Dup13,
    Dup14,
    Dup15,
    Swap1,
    Swap2,
    Swap3,
    Swap4,
    Swap5,
    Swap6,
    Swap7,
    Swap8,
    Swap9,
    Swap10,
    Swap11,
    Swap12,
    Swap13,
    Swap14,
    Swap15,
    SwapW1,
    SwapW2,
    SwapW3,
    MovUp2,
    MovUp3,
    MovUp4,
    MovUp5,
    MovUp6,
    MovUp7,
    MovUp8,
    MovUp9,
    MovUp10,
    MovUp11,
    MovUp12,
    MovUp13,
    MovUp14,
    MovUp15,
    MovUpW2,
    MovUpW3,
    MovDn2,
    MovDn3,
    MovDn4,
    MovDn5,
    MovDn6,
    MovDn7,
    MovDn8,
    MovDn9,
    MovDn10,
    MovDn11,
    MovDn12,
    MovDn13,
    MovDn14,
    MovDn15,
    MovDnW2,
    MovDnW3,
    Exec(InvocationTarget),
    Call(InvocationTarget),
    SysCall(InvocationTarget),
    Trace(TraceEvent),
    /// Pushes the elements of a word, one after the other, so that the last is on top
    PushWord(u64, u64, u64, u64),
    /// Pushes elements of the advice stack
    AdvPush(u8),
    /// Copies the value that the advice map has for the word on top to the advice stack
    AdvPushMapVal,
    /// Subtracts a constant
    SubImm(u64),
    Gt,
    Assert,
    Breakpoint,
    DebugVar(DebugVarInfo),
}

/// An operation of a block of code.
#[derive(PartialEq, Eq, Debug)]
pub enum Op {
    Inst(SourceSpan, Instruction),
    If { span: SourceSpan, then_blk: Block, else_blk: Block },
    While { span: SourceSpan, body: Block },
    Repeat { span: SourceSpan, count: u32, body: Block },
}

/// A block of code.
#[derive(PartialEq, Eq, Debug)]
pub struct Block {
    pub span: SourceSpan,
    pub ops: Vec<Op>,
}

/// The invocation that `inst` performs, if it performs one.
pub open spec fn invocation(inst: Instruction) -> Option<Invoke> {
    match inst {
        Instruction::Exec(target) => Some(Invoke { kind: InvokeKind::Exec, target }),
        Instruction::Call(target) => Some(Invoke { kind: InvokeKind::Call, target }),
        Instruction::SysCall(target) => Some(Invoke { kind: InvokeKind::SysCall, target }),
        _ => None,
    }
}

/// The operations of a straight line of instructions, all at `span`.
pub open spec fn line(span: SourceSpan, insts: Seq<Instruction>) -> Seq<Op> {
    insts.map_values(|inst: Instruction| Op::Inst(span, inst))
}

/// `n` times the same instruction.
pub open spec fn times(n: nat, inst: Instruction) -> Seq<Instruction> {
    Seq::new(n, |i: int| inst)
}

/// The instruction that copies the element at `offset` to the top.
pub open spec fn dup_at(offset: int) -> Instruction {
    if offset == 0 {
        Instruction::Dup0
    } else if offset == 1 {
        Instruction::Dup1
    } else if offset == 2 {
        Instruction::Dup2
    } else if offset == 3 {
        Instruction::Dup3
    } else if offset == 4 {
        Instruction::Dup4
    } else if offset == 5 {
        Instruction::Dup5
    } else if offset == 6 {
        Instruction::Dup6
    } else if offset == 7 {
        Instruction::Dup7
    } else if offset == 8 {
        Instruction::Dup8
    } else if offset == 9 {
        Instruction::Dup9
    } else if offset == 10 {
        Instruction::Dup10
    } else if offset == 11 {
        Instruction::Dup11
    } else if offset == 12 {
        Instruction::Dup12
    } else if offset == 13 {
        Instruction::Dup13
    } else if offset == 14 {
        Instruction::Dup14
    } else {
        Instruction::Dup15
    }
}

/// The instruction that copies the element at `offset` to the top.
pub fn dup_from_offset(offset: usize) -> (inst: Instruction)
    requires
        0 <= offset <= 15,
    ensures
        inst == dup_at(offset as int),
{
    match offset {
        0 => Instruction::Dup0,
        1 => Instruction::Dup1,
        2 => Instruction::Dup2,
        3 => Instruction::Dup3,
        4 => Instruction::Dup4,
        5 => Instruction::Dup5,
        6 => Instruction::Dup6,
        7 => Instruction::Dup7,
        8 => Instruction::Dup8,
        9 => Instruction::Dup9,
        10 => Instruction::Dup10,
        11 => Instruction::Dup11,
        12 => Instruction::Dup12,
        13 => Instruction::Dup13,
        14 => Instruction::Dup14,
        _ => Instruction::Dup15,
    }
}

/// The instruction that swaps the top element with the one at `offset`.
pub open spec fn swap_at(offset: int) -> Instruction {
    if offset == 1 {
        Instruction::Swap1
    } else if offset == 2 {
        Instruction::Swap2
    } else if offset == 3 {
        Instruction::Swap3
    } else if offset == 4 {
        Instruction::Swap4
    } else if offset == 5 {
        Instruction::Swap5
    } else if offset == 6 {
        Instruction::Swap6
    } else if offset == 7 {
        Instruction::Swap7
    } else if offset == 8 {
        Instruction::Swap8
    } else if offset == 9 {
        Instruction::Swap9
    } else if offset == 10 {
        Instruction::Swap10
    } else if offset == 11 {
        Instruction::Swap11
    } else if offset == 12 {
        Instruction::Swap12
    } else if offset == 13 {
        Instruction::Swap13
    } else if offset == 14 {
        Instruction::Swap14
    } else {
        Instruction::Swap15
    }
}

/// The instruction that swaps the top element with the one at `offset`.
pub fn swap_from_offset(offset: usize) -> (inst: Instruction)
    requires
        1 <= offset <= 15,
    ensures
        inst == swap_at(offset as int),
{
    match offset {
        1 => Instruction::Swap1,
        2 => Instruction::Swap2,
        3 => Instruction::Swap3,
        4 => Instruction::Swap4,
        5 => Instruction::Swap5,
        6 => Instruction::Swap6,
        7 => Instruction::Swap7,
        8 => Instruction::Swap8,
        9 => Instruction::Swap9,
        10 => Instruction::Swap10,
        11 => Instruction::Swap11,
        12 => Instruction::Swap12,
        13 => Instruction::Swap13,
        14 => Instruction::Swap14,
        _ => Instruction::Swap15,
    }
}

/// The instruction that swaps the top word with the one at `offset`.
pub open spec fn swapw_at(offset: int) -> Instruction {
    if offset == 1 {
        Instruction::SwapW1
    } else if offset == 2 {
        Instruction::SwapW2
    } else {
        Instruction::SwapW3
    }
}

/// The instruction that swaps the top word with the one at `offset`.
pub fn swapw_from_offset(offset: usize) -> (inst: Instruction)
    requires
        1 <= offset <= 3,
    ensures
        inst == swapw_at(offset as int),
{
    match offset {
        1 => Instruction::SwapW1,
        2 => Instruction::SwapW2,
        _ => Instruction::SwapW3,
    }
}

/// The instruction that moves the element at `offset` to the top.
pub open spec fn movup_at(offset: int) -> Instruction {
    if offset == 2 {
        Instruction::MovUp2
    } else if offset == 3 {
        Instruction::MovUp3
    } else if offset == 4 {
        Instruction::MovUp4
    } else if offset == 5 {
        Instruction::MovUp5
    } else if offset == 6 {
        Instruction::MovUp6
    } else if offset == 7 {
        Instruction::MovUp7
    } else if offset == 8 {
        Instruction::MovUp8
    } else if offset == 9 {
        Instruction::MovUp9
    } else if offset == 10 {
        Instruction::MovUp10
    } else if offset == 11 {
        Instruction::MovUp11
    } else if offset == 12 {
        Instruction::MovUp12
    } else if offset == 13 {
        Instruction::MovUp13
    } else if offset == 14 {
        Instruction::MovUp14
    } else {
        Instruction::MovUp15
    }
}

/// The instruction that moves the element at `offset` to the top.
pub fn movup_from_offset(offset: usize) -> (inst: Instruction)
    requires
        2 <= offset <= 15,
    ensures
        inst == movup_at(offset as int),
{
    match offset {
        2 => Instruction::MovUp2,
        3 => Instruction::MovUp3,
        4 => Instruction::MovUp4,
        5 => Instruction::MovUp5,
        6 => Instruction::MovUp6,
        7 => Instruction::MovUp7,
        8 => Instruction::MovUp8,
        9 => Instruction::MovUp9,
        10 => Instruction::MovUp10,
        11 => Instruction::MovUp11,
        12 => Instruction::MovUp12,
        13 => Instruction::MovUp13,
        14 => Instruction::MovUp14,
        _ => Instruction::MovUp15,
    }
}

/// The instruction that moves the top element to `offset`.
pub open spec fn movdn_at(offset: int) -> Instruction {
    if offset == 2 {
        Instruction::MovDn2
    } else if offset == 3 {
        Instruction::MovDn3
    } else if offset == 4 {
        Instruction::MovDn4
    } else if offset == 5 {
        Instruction::MovDn5
    } else if offset == 6 {
        Instruction::MovDn6
    } else if offset == 7 {
        Instruction::MovDn7
    } else if offset == 8 {
        Instruction::MovDn8
    } else if offset == 9 {
        Instruction::MovDn9
    } else if offset == 10 {
        Instruction::MovDn10
    } else if offset == 11 {
        Instruction::MovDn11
    } else if offset == 12 {
        Instruction::MovDn12
    } else if offset == 13 {
        Instruction::MovDn13
    } else if offset == 14 {
        Instruction::MovDn14
    } else {
        Instruction::MovDn15
    }
}

/// The instruction that moves the top element to `offset`.
pub fn movdn_from_offset(offset: usize) -> (inst: Instruction)
    requires
        2 <= offset <= 15,
    ensures
        inst == movdn_at(offset as int),
{
    match offset {
        2 => Instruction::MovDn2,
        3 => Instruction::MovDn3,
        4 => Instruction::MovDn4,
        5 => Instruction::MovDn5,
        6 => Instruction::MovDn6,
        7 => Instruction::MovDn7,
        8 => Instruction::MovDn8,
        9 => Instruction::MovDn9,
        10 => Instruction::MovDn10,
        11 => Instruction::MovDn11,
        12 => Instruction::MovDn12,
        13 => Instruction::MovDn13,
        14 => Instruction::MovDn14,
        _ => Instruction::MovDn15,
    }
}

/// The instruction that moves the word at `offset` to the top.
pub open spec fn movupw_at(offset: int) -> Instruction {
    if offset == 2 {
        Instruction::MovUpW2
    } else {
        Instruction::MovUpW3
    }
}

/// The instruction that moves the word at `offset` to the top.
pub fn movupw_from_offset(offset: usize) -> (inst: Instruction)
    requires
        2 <= offset <= 3,
    ensures
        inst == movupw_at(offset as int),
{
    match offset {
        2 => Instruction::MovUpW2,
        _ => Instruction::MovUpW3,
    }
}

/// The instruction that moves the top word to `offset`.
pub open spec fn movdnw_at(offset: int) -> Instruction {
    if offset == 2 {
        Instruction::MovDnW2
    } else {
        Instruction::MovDnW3
    }
}

/// The instruction that moves the top word to `offset`.
pub fn movdnw_from_offset(offset: usize) -> (inst: Instruction)
    requires
        2 <= offset <= 3,
    ensures
        inst == movdnw_at(offset as int),
{
    match offset {
        2 => Instruction::MovDnW2,
        _ => Instruction::MovDnW3,
    }
}

} // verus!

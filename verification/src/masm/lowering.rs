//! The code of single operations.
use vstd::prelude::*;
use crate::hir::debug_attrs::{DIExpressionAttr, DIExpressionOp, DILocalVariableAttr};
use crate::hir::library_path;
use crate::hir::path::SymbolPath;
use crate::masm::emit::{self, OpEmitter};
use crate::masm::inst::{
    self, Block, DebugVarInfo, DebugVarLocation, FilePosition, Instruction, InvocationTarget, Op,
    PushValue,
};
use crate::masm::stack::{self, Operand, OperandStack, ValueRef};
use crate::sorting;
use crate::span::SourceSpan;
use crate::symbol::Interner;
use crate::types::{Immediate, ScalarType};

verus! {

/// `s` with its upper operands made the given values.
pub open spec fn renamed(s: Seq<Operand>, values: Seq<ValueRef>) -> Seq<Operand> {
    Seq::new(
        s.len(),
        |i: int|
            if i < values.len() {
                Operand::Value(values[i])
            } else {
                s[i]
            },
    )
}

/// Makes the upper operands of the stack the given values.
pub fn rename_all(stack: &mut OperandStack, values: &Vec<ValueRef>)
    requires
        values@.len() <= old(stack)@.len(),
    ensures
        final(stack)@ == renamed(old(stack)@, values@),
{
    let mut i: usize = 0;
    assert(stack@ =~= renamed(old(stack)@, values@.take(0)));
    while i < values.len()
        invariant
            i <= values@.len() <= old(stack)@.len(),
            stack@ == renamed(old(stack)@, values@.take(i as int)),
        decreases values@.len() - i,
    {
        stack.rename(i, values[i]);
        i = i + 1;
        assert(stack@ =~= renamed(old(stack)@, values@.take(i as int)));
    }
    assert(values@.take(values@.len() as int) == values@);
}

/// A copy of the stack.
pub fn copy_of(stack: &OperandStack) -> (copy: OperandStack)
    ensures
        copy@ == stack@,
{
    let mut copy = OperandStack::new();
    let mut i: usize = stack.len();
    assert(copy@ =~= stack@.skip(i as int));
    while i > 0
        invariant
            i <= stack@.len(),
            copy@ == stack@.skip(i as int),
        decreases i,
    {
        i = i - 1;
        copy.push(stack.get(i));
        assert(copy@ =~= stack@.skip(i as int));
    }
    assert(stack@.skip(0) == stack@);
    copy
}

/// Whether two stacks hold the same operands.
pub fn same_operands(a: &OperandStack, b: &OperandStack) -> (same: bool)
    ensures
        same == (a@ == b@),
{
    if a.len() != b.len() {
        return false;
    }
    let mut i: usize = 0;
    while i < a.len()
        invariant
            i <= a@.len(),
            a@.len() == b@.len(),
            forall|j: int| 0 <= j < i ==> a@[j] == b@[j],
        decreases a@.len() - i,
    {
        if a.get(i) != b.get(i) {
            return false;
        }
        i = i + 1;
    }
    assert(a@ =~= b@);
    true
}

/// Why an operation cannot be lowered.
#[derive(Clone, Copy, PartialEq, Eq, Debug, Structural)]
pub enum LoweringError {
    /// The constant is of a type whose constants cannot be pushed yet
    UnsupportedImmediate,
    /// The callee is not known
    UnresolvedCallee,
    /// The symbol that is called cannot be called
    NotCallable,
    /// The path of the callee is not valid
    InvalidPath,
    /// The symbol is not known in the module
    UnresolvedSymbol,
    /// The symbol is not a global variable
    NotAGlobal,
    /// The address of the symbol with its offset is no address
    InvalidOffset,
    /// A value of the body of a loop is on the stack after the loop
    EscapingValue,
    /// The body of a loop does not leave the stack as it found it
    UnbalancedLoop,
}

/// Whether an operand is to be kept on the stack where an instruction consumes it.
#[derive(Clone, Copy, PartialEq, Eq, Debug, Structural)]
pub enum Constraint {
    /// The operand is used later
    Copy,
    /// The operand is not used later
    Move,
}

/// How operands are put in place.
#[derive(Clone, Copy, PartialEq, Eq, Debug, Structural)]
pub struct SolverOptions {
    /// Whether the order of the operands matters
    pub strict: bool,
}

/// A list with its first two items exchanged.
pub open spec fn exchanged<T>(list: Seq<T>) -> Seq<T> {
    list.update(0, list[1]).update(1, list[0])
}

/// Prepares the operands of an operation for being put in place, in the order in which the machine
/// expects them: a binary operation has its right operand on top. How they are put in place; none
/// if there are no operands.
pub fn schedule_operands(
    args: &mut Vec<ValueRef>,
    constraints: &mut Vec<Constraint>,
    is_binary: bool,
    is_commutative: bool,
) -> (options: Option<SolverOptions>)
    requires
        old(args)@.len() == old(constraints)@.len(),
        is_binary && old(args)@.len() > 0 ==> old(args)@.len() >= 2,
    ensures
        options == if old(args)@.len() == 0 {
            None
        } else {
            Some(SolverOptions { strict: !is_commutative })
        },
        final(args)@ == if is_binary && old(args)@.len() > 0 {
            exchanged(old(args)@)
        } else {
            old(args)@
        },
        final(constraints)@ == if is_binary && old(args)@.len() > 0 {
            exchanged(old(constraints)@)
        } else {
            old(constraints)@
        },
{
    if args.len() == 0 {
        return None;
    }
    if is_binary {
        let first = args[0];
        let second = args[1];
        args.set(0, second);
        args.set(1, first);
        let first = constraints[0];
        let second = constraints[1];
        constraints.set(0, second);
        constraints.set(1, first);
    }
    Some(SolverOptions { strict: !is_commutative })
}

/// Returns: all but the results of the function is dropped.
pub fn emit_ret(emitter: &mut OpEmitter, argc: usize, span: SourceSpan)
    requires
        old(emitter).wf(),
        emit::can_truncate(old(emitter).operands(), argc as int),
    ensures
        final(emitter).wf(),
        final(emitter).calls() == old(emitter).calls(),
        final(emitter).operands() == old(emitter).operands().take(argc as int),
        final(emitter).code() == old(emitter).code() + inst::line(
            span,
            emit::truncate_code(old(emitter).operands(), argc as int),
        ),
        *final(final(emitter).stack) == *final(old(emitter).stack),
        *final(final(emitter).invoked) == *final(old(emitter).invoked),
        *final(final(emitter).current_block) == *final(old(emitter).current_block),
{
    emitter.truncate_stack(argc, span);
}

/// Returns a constant: all that is on the stack is dropped first.
pub fn emit_ret_imm(emitter: &mut OpEmitter, value: Immediate, span: SourceSpan)
    requires
        old(emitter).wf(),
        stack::felts(old(emitter).operands()) <= usize::MAX,
    ensures
        final(emitter).wf(),
        final(emitter).calls() == old(emitter).calls(),
        final(emitter).operands() == seq![Operand::Const(value)],
        final(emitter).code() == old(emitter).code() + inst::line(
            span,
            emit::truncate_code(old(emitter).operands(), 0),
        ) + inst::line(span, emit::push_code(value)),
        *final(final(emitter).stack) == *final(old(emitter).stack),
        *final(final(emitter).invoked) == *final(old(emitter).invoked),
        *final(final(emitter).current_block) == *final(old(emitter).current_block),
{
    emitter.truncate_stack(0, span);
    emitter.literal(value, span);
    assert(emitter.operands() =~= seq![Operand::Const(value)]);
}

/// Pushes a constant, which is the value `result`.
pub fn emit_constant(emitter: &mut OpEmitter, value: Immediate, result: ValueRef, span: SourceSpan)
    requires
        old(emitter).wf(),
    ensures
        final(emitter).wf(),
        final(emitter).calls() == old(emitter).calls(),
        final(emitter).operands() == seq![Operand::Value(result)] + old(emitter).operands(),
        final(emitter).code() == old(emitter).code() + inst::line(span, emit::push_code(value)),
        *final(final(emitter).stack) == *final(old(emitter).stack),
        *final(final(emitter).invoked) == *final(old(emitter).invoked),
        *final(final(emitter).current_block) == *final(old(emitter).current_block),
{
    emitter.literal(value, span);
    emitter.stack.rename(0, result);
    assert(emitter.operands() =~= seq![Operand::Value(result)] + old(emitter).operands());
}

/// What stands for a value that results from undefined behavior.
#[derive(Clone, Copy, PartialEq, Eq, Debug, Structural)]
pub enum PoisonValue {
    Immediate(Immediate),
    /// A value of a type whose constants cannot be pushed yet
    U256,
    F64,
}

/// Pushes a value that results from undefined behavior.
pub fn emit_poison(
    emitter: &mut OpEmitter,
    value: PoisonValue,
    result: ValueRef,
    span: SourceSpan,
) -> (done: Result<(), LoweringError>)
    requires
        old(emitter).wf(),
    ensures
        final(emitter).wf(),
        final(emitter).calls() == old(emitter).calls(),
        match value {
            PoisonValue::Immediate(imm) => {
                &&& done is Ok
                &&& final(emitter).operands() == seq![Operand::Value(result)] + old(
                    emitter,
                ).operands()
                &&& final(emitter).code() == old(emitter).code() + inst::line(
                    span,
                    emit::push_code(imm),
                )
            },
            _ => {
                &&& done == Err::<(), _>(LoweringError::UnsupportedImmediate)
                &&& final(emitter).operands() == old(emitter).operands()
                &&& final(emitter).code() == old(emitter).code()
            },
        },
        *final(final(emitter).stack) == *final(old(emitter).stack),
        *final(final(emitter).invoked) == *final(old(emitter).invoked),
        *final(final(emitter).current_block) == *final(old(emitter).current_block),
{
    match value {
        PoisonValue::Immediate(imm) => {
            emit_constant(emitter, imm, result, span);
            Ok(())
        },
        _ => Err(LoweringError::UnsupportedImmediate),
    }
}

/// What fails when it is executed.
pub open spec fn trap_code() -> Seq<Instruction> {
    seq![Instruction::Push(PushValue::U32(0)), Instruction::Assert]
}

/// Fails, since this is not to be reached.
pub fn emit_unreachable(emitter: &mut OpEmitter, span: SourceSpan)
    requires
        old(emitter).wf(),
    ensures
        final(emitter).wf(),
        final(emitter).calls() == old(emitter).calls(),
        final(emitter).operands() == old(emitter).operands(),
        final(emitter).code() == old(emitter).code() + inst::line(span, trap_code()),
        *final(final(emitter).stack) == *final(old(emitter).stack),
        *final(final(emitter).invoked) == *final(old(emitter).invoked),
        *final(final(emitter).current_block) == *final(old(emitter).current_block),
{
    emitter.emit_push(PushValue::U32(0), span);
    emitter.emit(Instruction::Assert, span);
    assert(emitter.code() =~= old(emitter).code() + inst::line(span, trap_code()));
}

/// Stops a debugger.
pub fn emit_breakpoint(emitter: &mut OpEmitter, span: SourceSpan)
    requires
        old(emitter).wf(),
    ensures
        final(emitter).wf(),
        final(emitter).calls() == old(emitter).calls(),
        final(emitter).operands() == old(emitter).operands(),
        final(emitter).code() == old(emitter).code().push(Op::Inst(span, Instruction::Breakpoint)),
        *final(final(emitter).stack) == *final(old(emitter).stack),
        *final(final(emitter).invoked) == *final(old(emitter).invoked),
        *final(final(emitter).current_block) == *final(old(emitter).current_block),
{
    emitter.emit(Instruction::Breakpoint, span);
}

/// Makes a pointer the integer `result`, which takes no code.
pub fn emit_ptr_to_int(emitter: &mut OpEmitter, ty: ScalarType, result: ValueRef)
    requires
        old(emitter).wf(),
        old(emitter).operands().len() > 0,
    ensures
        final(emitter).wf(),
        final(emitter).calls() == old(emitter).calls(),
        final(emitter).operands() == old(emitter).operands().update(0, Operand::Value(result)),
        final(emitter).code() == old(emitter).code(),
        *final(final(emitter).stack) == *final(old(emitter).stack),
        *final(final(emitter).invoked) == *final(old(emitter).invoked),
        *final(final(emitter).current_block) == *final(old(emitter).current_block),
{
    let _ = emitter.pop();
    emitter.push(Operand::Typed(ty));
    emitter.stack.rename(0, result);
    assert(emitter.operands() =~= old(emitter).operands().update(0, Operand::Value(result)));
}

/// Makes two operands the halves of `result`, which takes no code.
pub fn emit_join(emitter: &mut OpEmitter, result: ValueRef)
    requires
        old(emitter).wf(),
        old(emitter).operands().len() >= 2,
    ensures
        final(emitter).wf(),
        final(emitter).calls() == old(emitter).calls(),
        final(emitter).operands() == seq![Operand::Value(result)] + old(emitter).operands().skip(2),
        final(emitter).code() == old(emitter).code(),
        *final(final(emitter).stack) == *final(old(emitter).stack),
        *final(final(emitter).invoked) == *final(old(emitter).invoked),
        *final(final(emitter).current_block) == *final(old(emitter).current_block),
{
    let _ = emitter.pop();
    let _ = emitter.pop();
    emitter.push(Operand::Value(result));
    assert(emitter.operands() =~= seq![Operand::Value(result)] + old(emitter).operands().skip(2));
}

/// Makes an operand its two halves, the high one on top, which takes no code.
pub fn emit_split(emitter: &mut OpEmitter, high: ValueRef, low: ValueRef)
    requires
        old(emitter).wf(),
        old(emitter).operands().len() >= 1,
    ensures
        final(emitter).wf(),
        final(emitter).calls() == old(emitter).calls(),
        final(emitter).operands() == seq![Operand::Value(high), Operand::Value(low)] + old(
            emitter,
        ).operands().skip(1),
        final(emitter).code() == old(emitter).code(),
        *final(final(emitter).stack) == *final(old(emitter).stack),
        *final(final(emitter).invoked) == *final(old(emitter).invoked),
        *final(final(emitter).current_block) == *final(old(emitter).current_block),
{
    let _ = emitter.pop();
    emitter.push(Operand::Value(low));
    emitter.push(Operand::Value(high));
    assert(emitter.operands() =~= seq![Operand::Value(high), Operand::Value(low)] + old(
        emitter,
    ).operands().skip(1));
}

/// Halves that are joined again leave the stack as it was, but for the name of the whole.
pub proof fn split_then_join(s: Seq<Operand>, high: ValueRef, low: ValueRef, whole: ValueRef)
    requires
        s.len() >= 1,
    ensures
        seq![Operand::Value(whole)] + (seq![Operand::Value(high), Operand::Value(low)] + s.skip(
            1,
        )).skip(2) == s.update(0, Operand::Value(whole)),
{
    assert(seq![Operand::Value(whole)] + (seq![Operand::Value(high), Operand::Value(low)] + s.skip(
        1,
    )).skip(2) =~= s.update(0, Operand::Value(whole)));
}

/// What a symbol is found to be.
#[derive(Clone, Copy, PartialEq, Eq, Debug, Structural)]
pub enum ResolvedSymbol {
    Unresolved,
    /// Something other than a global variable
    Other,
    /// A global variable at the given address
    Global(u32),
}

/// Pushes the address of a global variable, with an offset.
pub fn emit_global_symbol(
    emitter: &mut OpEmitter,
    symbol: ResolvedSymbol,
    offset: i32,
    result: ValueRef,
    span: SourceSpan,
) -> (done: Result<(), LoweringError>)
    requires
        old(emitter).wf(),
    ensures
        final(emitter).wf(),
        final(emitter).calls() == old(emitter).calls(),
        done is Err ==> final(emitter).operands() == old(emitter).operands() && final(
            emitter).code() == old(emitter).code(),
        match symbol {
            ResolvedSymbol::Unresolved => done == Err::<(), _>(LoweringError::UnresolvedSymbol),
            ResolvedSymbol::Other => done == Err::<(), _>(LoweringError::NotAGlobal),
            ResolvedSymbol::Global(addr) => if 0 <= addr + offset <= u32::MAX {
                &&& done is Ok
                &&& final(emitter).operands() == seq![Operand::Value(result)] + old(
                    emitter,
                ).operands()
                &&& final(emitter).code() == old(emitter).code() + inst::line(
                    span,
                    emit::push_code(Immediate::U32((addr + offset) as u32)),
                )
            } else {
                done == Err::<(), _>(LoweringError::InvalidOffset)
            },
        },
        *final(final(emitter).stack) == *final(old(emitter).stack),
        *final(final(emitter).invoked) == *final(old(emitter).invoked),
        *final(final(emitter).current_block) == *final(old(emitter).current_block),
{
    match symbol {
        ResolvedSymbol::Unresolved => Err(LoweringError::UnresolvedSymbol),
        ResolvedSymbol::Other => Err(LoweringError::NotAGlobal),
        ResolvedSymbol::Global(addr) => {
            let sum: i64 = addr as i64 + offset as i64;
            if sum < 0 || sum > 0xffff_ffff {
                return Err(LoweringError::InvalidOffset);
            }
            emit_constant(emitter, Immediate::U32(sum as u32), result, span);
            Ok(())
        },
    }
}

/// The symbol that a call names.
pub struct Callee {
    pub path: SymbolPath,
    pub callable: bool,
}

/// The procedure that a call invokes, by its absolute path. The names that the paths have are
/// interned.
pub fn resolve_callee(callee: &Option<Callee>, interner: &mut Interner) -> (target: Result<
    InvocationTarget,
    LoweringError,
>)
    requires
        old(interner).wf(),
        old(interner)@.len() < u32::MAX,
        callee matches Some(callee) ==> callee.path.path@.len() > 0 && callee.path.known(
            old(interner),
        ),
    ensures
        final(interner).wf(),
        final(interner).extends(old(interner)),
        final(interner)@.len() <= old(interner)@.len() + 1,
        match callee {
            None => target == Err::<InvocationTarget, _>(LoweringError::UnresolvedCallee),
            Some(callee) => {
                let source = library_path::library_text(&callee.path, old(interner));
                if !callee.callable {
                    target == Err::<InvocationTarget, _>(LoweringError::NotCallable)
                } else if source.len() > 0 && library_path::canonical_path(source) is None {
                    target == Err::<InvocationTarget, _>(LoweringError::InvalidPath)
                } else {
                    &&& target matches Ok(InvocationTarget::Path(path))
                    &&& final(interner).knows(path)
                    &&& final(interner).text(path) == library_path::library_path_of(
                        &callee.path,
                        old(interner),
                    )
                }
            },
        },
{
    match callee {
        None => Err(LoweringError::UnresolvedCallee),
        Some(callee) => {
            if !callee.callable {
                return Err(LoweringError::NotCallable);
            }
            match callee.path.try_to_library_path(&*interner) {
                None => Err(LoweringError::InvalidPath),
                Some(path) => Ok(InvocationTarget::Path(interner.intern(path.as_str()))),
            }
        },
    }
}

/// Where a value is while a program runs: the position of the uppermost operand that holds it.
pub open spec fn stack_location(s: Seq<Operand>, value: ValueRef) -> DebugVarLocation {
    let held = Operand::Value(value);
    if s.contains(held) {
        DebugVarLocation::Stack(s.index_of_first(held)->0 as u8)
    } else {
        DebugVarLocation::Expression
    }
}

/// Where a variable is while a program runs. The first operation of the expression says where, if
/// it names a place or a constant; else the variable is where its value is on the stack.
pub open spec fn variable_location(
    s: Seq<Operand>,
    expression: Seq<DIExpressionOp>,
    value: ValueRef,
) -> DebugVarLocation {
    if expression.len() == 0 {
        stack_location(s, value)
    } else {
        match expression[0] {
            DIExpressionOp::WasmStack(offset) => DebugVarLocation::Stack(offset as u8),
            DIExpressionOp::WasmLocal(index) => DebugVarLocation::Local(index as u16),
            DIExpressionOp::ConstU64(value) => DebugVarLocation::Const(value),
            DIExpressionOp::ConstS64(value) => DebugVarLocation::Const(value as u64),
            _ => stack_location(s, value),
        }
    }
}

/// What a debugger can know of a variable at the given location. Parameters are counted from one,
/// and columns too.
pub open spec fn variable_info(
    variable: DILocalVariableAttr,
    location: DebugVarLocation,
) -> DebugVarInfo {
    DebugVarInfo {
        name: variable.name,
        location,
        arg_index: match variable.arg_index {
            Some(index) => Some((index + 1) as u32),
            None => None,
        },
        position: if variable.line == 0 {
            None
        } else {
            Some(
                FilePosition {
                    file: variable.file,
                    line: variable.line,
                    column: match variable.column {
                        Some(column) => if column == 0 {
                            1
                        } else {
                            column
                        },
                        None => 1,
                    },
                },
            )
        },
    }
}

fn location_on_stack(stack: &OperandStack, value: ValueRef) -> (location: DebugVarLocation)
    ensures
        location == stack_location(stack@, value),
{
    match stack.find(&value) {
        Some(i) => {
            assert(stack@.index_of_first(Operand::Value(value)) == Some(i as int)) by {
                stack@.index_of_first_ensures(Operand::Value(value));
            }
            DebugVarLocation::Stack(
                #[verifier::truncate]
                (i as u8),
            )
        },
        None => DebugVarLocation::Expression,
    }
}

fn info_of(variable: &DILocalVariableAttr, location: DebugVarLocation) -> (info: DebugVarInfo)
    requires
        variable.arg_index matches Some(index) ==> index < u32::MAX,
    ensures
        info == variable_info(*variable, location),
{
    let arg_index = match variable.arg_index {
        Some(index) => Some(index + 1),
        None => None,
    };
    let position = if variable.line == 0 {
        None
    } else {
        let column: u32 = match variable.column {
            Some(column) => if column == 0 {
                1
            } else {
                column
            },
            None => 1,
        };
        Some(FilePosition { file: variable.file, line: variable.line, column })
    };
    DebugVarInfo { name: variable.name, location, arg_index, position }
}

/// Says where a variable is from here on.
pub fn emit_dbg_value(
    emitter: &mut OpEmitter,
    value: ValueRef,
    variable: &DILocalVariableAttr,
    expression: &DIExpressionAttr,
    span: SourceSpan,
)
    requires
        old(emitter).wf(),
        variable.arg_index matches Some(index) ==> index < u32::MAX,
    ensures
        final(emitter).wf(),
        final(emitter).calls() == old(emitter).calls(),
        final(emitter).operands() == old(emitter).operands(),
        final(emitter).code() == old(emitter).code().push(
            Op::Inst(
                span,
                Instruction::DebugVar(
                    variable_info(
                        *variable,
                        variable_location(
                            old(emitter).operands(),
                            expression.operations@,
                            value,
                        ),
                    ),
                ),
            ),
        ),
        *final(final(emitter).stack) == *final(old(emitter).stack),
        *final(final(emitter).invoked) == *final(old(emitter).invoked),
        *final(final(emitter).current_block) == *final(old(emitter).current_block),
{
    let location = if expression.operations.len() == 0 {
        location_on_stack(emitter.stack(), value)
    } else {
        match expression.operations[0] {
            DIExpressionOp::WasmStack(offset) => DebugVarLocation::Stack(
                #[verifier::truncate]
                (offset as u8),
            ),
            DIExpressionOp::WasmLocal(index) => DebugVarLocation::Local(
                #[verifier::truncate]
                (index as u16),
            ),
            DIExpressionOp::ConstU64(value) => DebugVarLocation::Const(value),
            DIExpressionOp::ConstS64(value) => DebugVarLocation::Const(
                #[verifier::truncate]
                (value as u64),
            ),
            _ => location_on_stack(emitter.stack(), value),
        }
    };
    emitter.emit(Instruction::DebugVar(info_of(variable, location)), span);
}

/// Says where a variable is, of which the address is given.
pub fn emit_dbg_declare(
    emitter: &mut OpEmitter,
    address: ValueRef,
    variable: &DILocalVariableAttr,
    span: SourceSpan,
)
    requires
        old(emitter).wf(),
        variable.arg_index matches Some(index) ==> index < u32::MAX,
    ensures
        final(emitter).wf(),
        final(emitter).calls() == old(emitter).calls(),
        final(emitter).operands() == old(emitter).operands(),
        final(emitter).code() == old(emitter).code().push(
            Op::Inst(
                span,
                Instruction::DebugVar(
                    variable_info(*variable, stack_location(old(emitter).operands(), address)),
                ),
            ),
        ),
        *final(final(emitter).stack) == *final(old(emitter).stack),
        *final(final(emitter).invoked) == *final(old(emitter).invoked),
        *final(final(emitter).current_block) == *final(old(emitter).current_block),
{
    let location = location_on_stack(emitter.stack(), address);
    emitter.emit(Instruction::DebugVar(info_of(variable, location)), span);
}

/// Takes the condition of an `if` off the emulated stack; the instruction itself consumes it.
pub fn pop_condition(emitter: &mut OpEmitter, condition: ValueRef)
    requires
        old(emitter).wf(),
        old(emitter).operands().len() > 0,
        old(emitter).operands()[0] == Operand::Value(condition),
    ensures
        final(emitter).wf(),
        final(emitter).calls() == old(emitter).calls(),
        final(emitter).operands() == old(emitter).operands().drop_first(),
        final(emitter).code() == old(emitter).code(),
        *final(final(emitter).stack) == *final(old(emitter).stack),
        *final(final(emitter).invoked) == *final(old(emitter).invoked),
        *final(final(emitter).current_block) == *final(old(emitter).current_block),
{
    let _ = emitter.pop();
}

/// The values that are defined where a loop begins and ends.
pub struct WhileShape {
    /// The arguments of the region that computes the condition
    pub before_args: Vec<ValueRef>,
    /// The arguments of the body
    pub after_args: Vec<ValueRef>,
    pub results: Vec<ValueRef>,
}

/// The code of a region, and the stack that it leaves.
pub struct EmittedRegion {
    pub ops: Vec<Op>,
    pub stack: OperandStack,
}

/// The stack on entry to the region that computes the condition of a loop.
pub open spec fn loop_entry(s: Seq<Operand>, shape: WhileShape) -> Seq<Operand> {
    renamed(s, shape.before_args@)
}

/// The stack on exit from a loop.
pub open spec fn loop_exit(before: Seq<Operand>, shape: WhileShape) -> Seq<Operand> {
    renamed(before.drop_first(), shape.results@)
}

/// The operand holds a result of the loop, or a value that was on the stack before the loop.
pub open spec fn survives(operand: Operand, input: Seq<Operand>, shape: WhileShape) -> bool {
    operand matches Operand::Value(value) && (shape.results@.contains(value) || input.contains(
        operand,
    ))
}

/// Every operand on the stack after the loop is defined there.
pub open spec fn nothing_escapes(
    exit: Seq<Operand>,
    input: Seq<Operand>,
    shape: WhileShape,
) -> bool {
    forall|i: int| 0 <= i < exit.len() ==> survives(#[trigger] exit[i], input, shape)
}

/// The regions of the loop fit its shape.
pub open spec fn regions_fit(
    input: Seq<Operand>,
    shape: WhileShape,
    before: Seq<Operand>,
    after: Seq<Operand>,
) -> bool {
    &&& shape.before_args@.len() <= input.len()
    &&& shape.after_args@.len() == shape.results@.len()
    &&& before.len() >= 1 + shape.results@.len()
    &&& after.len() >= shape.before_args@.len()
}

/// The loop of the region `before`, which computes the condition, and the region `after`, its
/// body: `while.true <before> if.true <after> push.1 else push.0 end end`.
pub open spec fn is_loop(op: Op, before: Seq<Op>, after: Seq<Op>, span: SourceSpan) -> bool {
    &&& op matches Op::While { span: at, body }
    &&& at == span
    &&& body.span == span
    &&& body.ops@.len() == before.len() + 1
    &&& body.ops@.take(before.len() as int) == before
    &&& body.ops@.last() matches Op::If { span: at, then_blk, else_blk }
    &&& at == span
    &&& then_blk.span == span
    &&& then_blk.ops@ == after + inst::line(span, emit::push_code(Immediate::I1(true)))
    &&& else_blk.span == span
    &&& else_blk.ops@ == inst::line(span, emit::push_code(Immediate::I1(false)))
}

/// Whether the operand holds a result of the loop, or a value that was on the stack before.
fn operand_survives(operand: Operand, input: &OperandStack, shape: &WhileShape) -> (b: bool)
    ensures
        b == survives(operand, input@, *shape),
{
    match operand {
        Operand::Value(value) => {
            let mut i: usize = 0;
            while i < shape.results.len()
                invariant
                    i <= shape.results@.len(),
                    operand == Operand::Value(value),
                    forall|j: int| 0 <= j < i ==> shape.results@[j] != value,
                decreases shape.results@.len() - i,
            {
                if shape.results[i] == value {
                    assert(shape.results@[i as int] == value);
                    return true;
                }
                i = i + 1;
            }
            input.find(&value).is_some()
        },
        _ => false,
    }
}

fn all_survive(exit: &OperandStack, input: &OperandStack, shape: &WhileShape) -> (b: bool)
    ensures
        b == nothing_escapes(exit@, input@, *shape),
{
    let mut i: usize = 0;
    while i < exit.len()
        invariant
            i <= exit@.len(),
            forall|j: int| 0 <= j < i ==> survives(#[trigger] exit@[j], input@, *shape),
        decreases exit@.len() - i,
    {
        if !operand_survives(exit.get(i), input, shape) {
            assert(!survives(exit@[i as int], input@, *shape));
            return false;
        }
        i = i + 1;
    }
    true
}

fn bool_code(value: bool, span: SourceSpan) -> (op: Op)
    ensures
        seq![op] == inst::line(span, emit::push_code(Immediate::I1(value))),
{
    let op = Op::Inst(
        span,
        Instruction::Push(
            PushValue::U8(
                if value {
                    1
                } else {
                    0
                },
            ),
        ),
    );
    assert(seq![op] =~= inst::line(span, emit::push_code(Immediate::I1(value))));
    op
}

/// Emits a loop of which the regions have been emitted: `before` on the stack that
/// `loop_entry` describes, `after` on the one that `body_entry` describes.
///
/// On exit from the loop no operand may hold a value that is defined within it, and the body must
/// leave the stack as the region that computes the condition expects it.
pub fn emit_while(
    emitter: &mut OpEmitter,
    shape: &WhileShape,
    before: EmittedRegion,
    after: EmittedRegion,
    span: SourceSpan,
) -> (done: Result<(), LoweringError>)
    requires
        old(emitter).wf(),
        regions_fit(old(emitter).operands(), *shape, before.stack@, after.stack@),
    ensures
        final(emitter).wf(),
        final(emitter).calls() == old(emitter).calls(),
        ({
            let input = old(emitter).operands();
            let exit = loop_exit(before.stack@, *shape);
            if !nothing_escapes(exit, input, *shape) {
                &&& done == Err::<(), _>(LoweringError::EscapingValue)
                &&& final(emitter).operands() == input
                &&& final(emitter).code() == old(emitter).code()
            } else if renamed(after.stack@, shape.before_args@) != loop_entry(input, *shape) {
                &&& done == Err::<(), _>(LoweringError::UnbalancedLoop)
                &&& final(emitter).operands() == input
                &&& final(emitter).code() == old(emitter).code()
            } else {
                &&& done is Ok
                &&& final(emitter).operands() == exit
                &&& final(emitter).code().len() == old(emitter).code().len() + 2
                &&& final(emitter).code().drop_last() == old(
                    emitter,
                ).code().push(Op::Inst(span, Instruction::Push(PushValue::U8(1))))
                &&& is_loop(final(emitter).code().last(), before.ops@, after.ops@, span)
            }
        }),
        *final(final(emitter).stack) == *final(old(emitter).stack),
        *final(final(emitter).invoked) == *final(old(emitter).invoked),
        *final(final(emitter).current_block) == *final(old(emitter).current_block),
{
    let mut before_stack = copy_of(emitter.stack());
    rename_all(&mut before_stack, &shape.before_args);
    let mut exit = before.stack;
    let _ = exit.pop();
    rename_all(&mut exit, &shape.results);
    if !all_survive(&exit, emitter.stack(), shape) {
        return Err(LoweringError::EscapingValue);
    }
    let mut again = after.stack;
    rename_all(&mut again, &shape.before_args);
    if !same_operands(&before_stack, &again) {
        return Err(LoweringError::UnbalancedLoop);
    }
    let ghost after_ops = after.ops@;
    let mut then_ops = after.ops;
    then_ops.push(bool_code(true, span));
    assert(then_ops@ =~= after_ops + inst::line(span, emit::push_code(Immediate::I1(true))));
    let mut else_ops: Vec<Op> = Vec::new();
    else_ops.push(bool_code(false, span));
    assert(else_ops@ =~= inst::line(span, emit::push_code(Immediate::I1(false))));
    let ghost before_ops = before.ops@;
    let mut body = before.ops;
    body.push(
        Op::If {
            span,
            then_blk: Block { span, ops: then_ops },
            else_blk: Block { span, ops: else_ops },
        },
    );
    assert(body@.take(before_ops.len() as int) =~= before_ops);
    *emitter.stack = exit;
    emitter.current_block.push(Op::Inst(span, Instruction::Push(PushValue::U8(1))));
    let ghost middle = emitter.code();
    emitter.current_block.push(Op::While { span, body: Block { span, ops: body } });
    assert(emitter.code().drop_last() =~= middle);
    Ok(())
}

/// What remains of a switch to emit: the cases below and above a midpoint.
pub struct SwitchPlan {
    pub below: Vec<u32>,
    pub above: Vec<u32>,
    pub midpoint: u32,
    pub num_cases: usize,
}

/// How many of the first `n` cases are less than `midpoint`.
pub open spec fn cases_below(cases: Seq<u32>, midpoint: int, n: int) -> nat
    decreases n,
{
    if n <= 0 {
        0
    } else {
        cases_below(cases, midpoint, n - 1) + (if cases[n - 1] < midpoint {
            1nat
        } else {
            0nat
        })
    }
}

/// The number halfway between the least and the greatest case.
pub open spec fn midpoint_of(sorted: Seq<u32>) -> int {
    (sorted[0] + sorted.last()) / 2
}

/// How many of the sorted cases are searched below the midpoint: an even number, unless there are
/// no more cases.
pub open spec fn partition_point(sorted: Seq<u32>) -> int {
    let n = cases_below(sorted, midpoint_of(sorted), sorted.len() as int);
    let even = n + n % 2;
    if even <= sorted.len() {
        even as int
    } else {
        sorted.len() as int
    }
}

proof fn cases_below_come_first(sorted: Seq<u32>, midpoint: int, n: int)
    requires
        0 <= n <= sorted.len(),
        forall|i: int, j: int| 0 <= i < j < sorted.len() ==> sorted[i] <= sorted[j],
    ensures
        cases_below(sorted, midpoint, n) <= n,
        forall|i: int| 0 <= i < n ==> (sorted[i] < midpoint <==> i < cases_below(sorted, midpoint, n)),
    decreases n,
{
    if n > 0 {
        cases_below_come_first(sorted, midpoint, n - 1);
        if sorted[n - 1] < midpoint {
            assert forall|i: int| 0 <= i < n - 1 implies sorted[i] < midpoint by {
                assert(sorted[i] <= sorted[n - 1]);
            }
        }
    }
}

/// Every case below the midpoint is in the lower part; a case of the upper part is not below it.
pub proof fn partition_separates(cases: Seq<u32>, i: int)
    requires
        0 <= i < cases.len(),
        sorting::ascending(cases)[i] < midpoint_of(sorting::ascending(cases)),
    ensures
        i < partition_point(sorting::ascending(cases)),
{
    sorting::ascending_keeps_items(cases);
    let sorted = sorting::ascending(cases);
    cases_below_come_first(sorted, midpoint_of(sorted), sorted.len() as int);
}

/// How a switch is searched for the case that is selected. A single case is not searched for;
/// several are sorted and divided at their midpoint.
pub fn plan_switch(cases: &Vec<u32>) -> (plan: SwitchPlan)
    requires
        cases@.len() > 0,
    ensures
        plan.num_cases == cases@.len(),
        ({
            let sorted = sorting::ascending(cases@);
            if cases@.len() == 1 {
                &&& plan.below@.len() == 0
                &&& plan.above@ == cases@
                &&& plan.midpoint == 0
            } else {
                &&& plan.below@ == sorted.take(partition_point(sorted))
                &&& plan.above@ == sorted.skip(partition_point(sorted))
                &&& plan.midpoint == midpoint_of(sorted)
            }
        }),
{
    let sorted = sorting::sort(cases);
    let n: usize = sorted.len();
    proof {
        sorting::ascending_keeps_items(cases@);
    }
    if n == 1 {
        assert(cases@.contains(sorting::ascending(cases@)[0]));
        assert(sorted@ =~= cases@);
        return SwitchPlan { below: Vec::new(), above: sorted, midpoint: 0, num_cases: 1 };
    }
    let midpoint: u32 = ((sorted[0] as u64 + sorted[n - 1] as u64) / 2) as u32;
    let mut count: usize = 0;
    let mut i: usize = 0;
    while i < n
        invariant
            i <= n == sorted@.len(),
            count <= i,
            count == cases_below(sorted@, midpoint as int, i as int),
        decreases n - i,
    {
        if sorted[i] < midpoint {
            count = count + 1;
        }
        i = i + 1;
    }
    let point: usize = if count % 2 == 0 {
        count
    } else if count < n {
        count + 1
    } else {
        n
    };
    let mut below: Vec<u32> = Vec::new();
    let mut above: Vec<u32> = Vec::new();
    let mut k: usize = 0;
    assert(below@ =~= sorted@.take(0));
    while k < n
        invariant
            k <= n == sorted@.len(),
            point <= n,
            below@ == sorted@.take(if k < point {
                k as int
            } else {
                point as int
            }),
            above@ == (if k < point {
                Seq::empty()
            } else {
                sorted@.subrange(point as int, k as int)
            }),
        decreases n - k,
    {
        if k < point {
            below.push(sorted[k]);
            assert(below@ =~= sorted@.take(k + 1));
        } else {
            above.push(sorted[k]);
            assert(above@ =~= sorted@.subrange(point as int, k + 1));
        }
        k = k + 1;
    }
    assert(sorted@.subrange(point as int, n as int) =~= sorted@.skip(point as int));
    SwitchPlan { below, above, midpoint, num_cases: n }
}

/// The operand stack allows the condition of a branch to be put on top.
pub open spec fn can_schedule(s: Seq<Operand>, condition: ValueRef, constraint: Constraint) -> bool {
    let held = Operand::Value(condition);
    let at = s.index_of_first(held)->0;
    &&& s.contains(held)
    &&& constraint is Copy ==> emit::can_dup(s, at)
    &&& constraint is Move && at == 1 ==> emit::can_swap(s, 1)
    &&& constraint is Move && at > 1 ==> emit::can_movup(s, at)
}

/// The code that puts the condition of a branch on top.
pub open spec fn schedule_code(
    s: Seq<Operand>,
    condition: ValueRef,
    constraint: Constraint,
) -> Seq<Instruction> {
    let at = s.index_of_first(Operand::Value(condition))->0;
    match constraint {
        Constraint::Copy => emit::dup_code(s, at),
        Constraint::Move => if at == 0 {
            Seq::empty()
        } else if at == 1 {
            emit::swap_code(s, 1)
        } else {
            emit::movup_code(s, at)
        },
    }
}

/// `s` with the condition of a branch on top.
pub open spec fn scheduled(
    s: Seq<Operand>,
    condition: ValueRef,
    constraint: Constraint,
) -> Seq<Operand> {
    let at = s.index_of_first(Operand::Value(condition))->0;
    match constraint {
        Constraint::Copy => stack::duplicated(s, at),
        Constraint::Move => stack::moved_up(s, at),
    }
}

/// Puts the condition of a branch on top of the stack: a copy of it if it is used later.
pub fn schedule_condition(
    emitter: &mut OpEmitter,
    condition: ValueRef,
    constraint: Constraint,
    span: SourceSpan,
)
    requires
        old(emitter).wf(),
        can_schedule(old(emitter).operands(), condition, constraint),
    ensures
        final(emitter).wf(),
        final(emitter).calls() == old(emitter).calls(),
        final(emitter).operands() == scheduled(old(emitter).operands(), condition, constraint),
        final(emitter).operands()[0] == Operand::Value(condition),
        final(emitter).code() == old(emitter).code() + inst::line(
            span,
            schedule_code(old(emitter).operands(), condition, constraint),
        ),
        *final(final(emitter).stack) == *final(old(emitter).stack),
        *final(final(emitter).invoked) == *final(old(emitter).invoked),
        *final(final(emitter).current_block) == *final(old(emitter).current_block),
{
    let ghost s = emitter.operands();
    let found = emitter.stack().find(&condition);
    let index: usize = match found {
        Some(index) => index,
        None => 0,
    };
    assert(s.index_of_first(Operand::Value(condition)) == Some(index as int)) by {
        s.index_of_first_ensures(Operand::Value(condition));
    }
    match constraint {
        Constraint::Copy => {
            emitter.dup(index as u8, span);
        },
        Constraint::Move => {
            if index == 0 {
                assert(stack::moved_up(s, 0) =~= s);
                assert(inst::line(span, schedule_code(s, condition, constraint)) =~= Seq::empty());
            } else if index == 1 {
                emitter.swap(1, span);
                assert(stack::swapped(s, 1) =~= stack::moved_up(s, 1));
            } else {
                emitter.movup(index as u8, span);
            }
        },
    }
    assert(emitter.code() =~= old(emitter).code() + inst::line(
        span,
        schedule_code(s, condition, constraint),
    ));
}

/// Emits a choice between two exits, of which the code has been emitted. The condition stays on
/// the emulated stack if it is used later.
pub fn emit_cond_br(
    emitter: &mut OpEmitter,
    condition_is_live: bool,
    then_blk: Block,
    else_blk: Block,
    span: SourceSpan,
)
    requires
        old(emitter).wf(),
        old(emitter).operands().len() > 0,
    ensures
        final(emitter).wf(),
        final(emitter).calls() == old(emitter).calls(),
        final(emitter).operands() == if condition_is_live {
            old(emitter).operands()
        } else {
            old(emitter).operands().drop_first()
        },
        final(emitter).code() == old(emitter).code().push(Op::If { span, then_blk, else_blk }),
        *final(final(emitter).stack) == *final(old(emitter).stack),
        *final(final(emitter).invoked) == *final(old(emitter).invoked),
        *final(final(emitter).current_block) == *final(old(emitter).current_block),
{
    if !condition_is_live {
        let _ = emitter.pop();
    }
    emitter.current_block.push(Op::If { span, then_blk, else_blk });
}

} // verus!

//! The builtin dialect.
use vstd::prelude::*;
use crate::hir::attributes::{AttributeSet, AttributeValue};
use crate::hir::debug_attrs::{DIExpressionAttr, DILocalVariableAttr};
use crate::hir::operation::{Block, Operation, OperationKind, OperationName, ValueId};
use crate::hir::types::Type;
use crate::span::SourceSpan;
use crate::symbol::{Interner, Symbol};

verus! {

/// The namespace of the dialect.
pub const NAMESPACE: &'static str = "builtin";

/// The operations of the dialect.
pub open spec fn operation_names() -> Seq<Seq<char>> {
    seq![
        "world"@,
        "component"@,
        "module"@,
        "function"@,
        "global_variable"@,
        "global_symbol"@,
        "segment"@,
        "unrealized_conversion_cast"@,
        "ret"@,
        "ret_imm"@,
        "dbg_value"@,
        "dbg_declare"@,
    ]
}

/// The texts of symbols.
pub open spec fn texts_of(symbols: Seq<Symbol>, interner: &Interner) -> Seq<Seq<char>> {
    symbols.map_values(|s: Symbol| interner.text(s))
}

/// The dialect and the operations that are registered in it.
pub struct BuiltinDialect {
    pub namespace: Symbol,
    pub registered: Vec<Symbol>,
}

fn register(registered: &mut Vec<Symbol>, name: &str, interner: &mut Interner)
    requires
        old(interner).wf(),
        old(interner)@.len() < u32::MAX,
        forall|i: int|
            0 <= i < old(registered)@.len() ==> old(interner).knows(#[trigger] old(registered)@[i]),
    ensures
        final(interner).wf(),
        final(interner).extends(old(interner)),
        final(interner)@.len() <= old(interner)@.len() + 1,
        final(registered)@.len() == old(registered)@.len() + 1,
        forall|i: int|
            0 <= i < final(registered)@.len() ==> final(interner).knows(
                #[trigger] final(registered)@[i],
            ),
        texts_of(final(registered)@, final(interner)) == texts_of(
            old(registered)@,
            old(interner),
        ).push(name@),
{
    let symbol = interner.intern(name);
    registered.push(symbol);
    proof {
        let before = texts_of(old(registered)@, old(interner)).push(name@);
        let after = texts_of(registered@, interner);
        assert forall|i: int| 0 <= i < before.len() implies before[i] == after[i] by {
            if i < old(registered)@.len() {
                let s = old(registered)@[i];
                assert(old(interner).knows(s));
                assert(registered@[i] == s);
                assert(interner@[s.index as int] == old(interner)@[s.index as int]);
            }
        }
        assert(before =~= after);
    }
}

impl BuiltinDialect {
    /// The dialect, with its operations registered.
    pub fn new(interner: &mut Interner) -> (dialect: BuiltinDialect)
        requires
            old(interner).wf(),
            old(interner)@.len() + 16 < u32::MAX,
        ensures
            final(interner).wf(),
            final(interner).extends(old(interner)),
            final(interner)@.len() <= old(interner)@.len() + 13,
            final(interner).knows(dialect.namespace),
            final(interner).text(dialect.namespace) == NAMESPACE@,
            texts_of(dialect.registered@, final(interner)) == operation_names(),
    {
        let namespace = interner.intern(NAMESPACE);
        let ghost first = *interner;
        let registered = Self::register_operations(interner);
        assert(interner@[namespace.index as int] == first@[namespace.index as int]);
        BuiltinDialect { namespace, registered }
    }

    /// Registers the operations of the dialect.
    pub fn register_operations(interner: &mut Interner) -> (registered: Vec<Symbol>)
        requires
            old(interner).wf(),
            old(interner)@.len() + 12 < u32::MAX,
        ensures
            final(interner).wf(),
            final(interner).extends(old(interner)),
            final(interner)@.len() <= old(interner)@.len() + 12,
            texts_of(registered@, final(interner)) == operation_names(),
    {
        let mut ops: Vec<Symbol> = Vec::new();
        register(&mut ops, "world", interner);
        register(&mut ops, "component", interner);
        register(&mut ops, "module", interner);
        register(&mut ops, "function", interner);
        register(&mut ops, "global_variable", interner);
        register(&mut ops, "global_symbol", interner);
        register(&mut ops, "segment", interner);
        register(&mut ops, "unrealized_conversion_cast", interner);
        register(&mut ops, "ret", interner);
        register(&mut ops, "ret_imm", interner);
        register(&mut ops, "dbg_value", interner);
        register(&mut ops, "dbg_declare", interner);
        assert(texts_of(ops@, interner) =~= operation_names());
        ops
    }

    /// How many operations are registered.
    pub fn num_registered(&self) -> (n: usize)
        ensures
            n == self.registered@.len(),
    {
        self.registered.len()
    }

    /// The operation that makes a constant; the dialect has none.
    pub fn materialize_constant(&self, attr: &AttributeValue, ty: &Type) -> (op: Option<
        Operation,
    >)
        ensures
            op is None,
    {
        None
    }
}

/// Records the value of a variable.
pub struct DbgValue {
    pub value: ValueId,
    pub variable: DILocalVariableAttr,
    pub expression: DIExpressionAttr,
}

/// Records where a variable is stored.
pub struct DbgDeclare {
    pub address: ValueId,
    pub variable: DILocalVariableAttr,
}

/// The names that the operations for debug information use.
#[derive(Clone, Copy, PartialEq, Eq, Debug, Structural)]
pub struct DebugNames {
    pub dialect: Symbol,
    pub dbg_value: Symbol,
    pub dbg_declare: Symbol,
    pub variable: Symbol,
    pub expression: Symbol,
}

impl DebugNames {
    /// The names are known, and stand for what they are called.
    pub open spec fn known(self, interner: &Interner) -> bool {
        &&& interner.knows(self.dialect) && interner.text(self.dialect) == NAMESPACE@
        &&& interner.knows(self.dbg_value) && interner.text(self.dbg_value) == "dbg_value"@
        &&& interner.knows(self.dbg_declare) && interner.text(self.dbg_declare) == "dbg_declare"@
        &&& interner.knows(self.variable) && interner.text(self.variable) == "variable"@
        &&& interner.knows(self.expression) && interner.text(self.expression) == "expression"@
    }

    /// The names, from a table.
    pub fn intern(interner: &mut Interner) -> (names: DebugNames)
        requires
            old(interner).wf(),
            old(interner)@.len() + 5 < u32::MAX,
        ensures
            final(interner).wf(),
            final(interner).extends(old(interner)),
            final(interner)@.len() <= old(interner)@.len() + 5,
            names.known(final(interner)),
    {
        let dialect = interner.intern(NAMESPACE);
        let dbg_value = interner.intern("dbg_value");
        let dbg_declare = interner.intern("dbg_declare");
        let variable = interner.intern("variable");
        let expression = interner.intern("expression");
        DebugNames { dialect, dbg_value, dbg_declare, variable, expression }
    }
}

/// Appends operations to the end of a block.
pub struct BlockBuilder<'a> {
    pub block: &'a mut Block,
    pub names: DebugNames,
}

/// `op` records the value of a variable.
pub open spec fn is_dbg_value(
    op: Operation,
    names: DebugNames,
    value: ValueId,
    variable: DILocalVariableAttr,
    span: SourceSpan,
) -> bool {
    &&& op.name == (OperationName { dialect: names.dialect, opcode: names.dbg_value })
    &&& op.kind is Plain
    &&& op.operands@ == seq![value]
    &&& op.results@.len() == 0
    &&& op.attrs.wf()
    &&& op.attrs.map().dom() == set![names.variable, names.expression]
    &&& !op.attrs.map()[names.variable].intrinsic
    &&& op.attrs.map()[names.variable].value == Some(AttributeValue::LocalVariable(variable))
    &&& !op.attrs.map()[names.expression].intrinsic
    &&& op.attrs.map()[names.expression].value matches Some(AttributeValue::Expression(e))
        && e.operations@.len() == 0
    &&& op.span == span
}

/// `op` records where a variable is stored.
pub open spec fn is_dbg_declare(
    op: Operation,
    names: DebugNames,
    address: ValueId,
    variable: DILocalVariableAttr,
    span: SourceSpan,
) -> bool {
    &&& op.name == (OperationName { dialect: names.dialect, opcode: names.dbg_declare })
    &&& op.kind is Plain
    &&& op.operands@ == seq![address]
    &&& op.results@.len() == 0
    &&& op.attrs.wf()
    &&& op.attrs.map().dom() == set![names.variable]
    &&& !op.attrs.map()[names.variable].intrinsic
    &&& op.attrs.map()[names.variable].value == Some(AttributeValue::LocalVariable(variable))
    &&& op.span == span
}

impl<'a> BlockBuilder<'a> {
    /// Records the value of a variable.
    pub fn dbg_value(&mut self, value: ValueId, variable: DILocalVariableAttr, span: SourceSpan) -> (op:
        DbgValue)
        requires
            old(self).names.variable != old(self).names.expression,
        ensures
            op.value == value,
            op.variable == variable,
            op.expression.operations@.len() == 0,
            final(self).names == old(self).names,
            *final(final(self).block) == *final(old(self).block),
            final(self).block.id == old(self).block.id,
            final(self).block.arguments == old(self).block.arguments,
            final(self).block.body@.drop_last() == old(self).block.body@,
            final(self).block.body@.len() == old(self).block.body@.len() + 1,
            is_dbg_value(
                final(self).block.body@.last(),
                old(self).names,
                value,
                variable,
                span,
            ),
    {
        let mut attrs = AttributeSet::new();
        let described = variable.duplicate();
        attrs.insert(self.names.variable, Some(AttributeValue::LocalVariable(described)));
        attrs.insert(
            self.names.expression,
            Some(AttributeValue::Expression(DIExpressionAttr::new())),
        );
        let mut operands: Vec<ValueId> = Vec::new();
        operands.push(value);
        let op = Operation {
            name: OperationName { dialect: self.names.dialect, opcode: self.names.dbg_value },
            kind: OperationKind::Plain,
            operands,
            results: Vec::new(),
            attrs,
            span,
        };
        assert(op.attrs.map().dom() =~= set![self.names.variable, self.names.expression]);
        self.block.body.push(op);
        assert(self.block.body@.drop_last() == old(self).block.body@);
        DbgValue { value, variable, expression: DIExpressionAttr::new() }
    }

    /// Records where a variable is stored.
    pub fn dbg_declare(&mut self, address: ValueId, variable: DILocalVariableAttr, span: SourceSpan) -> (
    op: DbgDeclare)
        ensures
            op.address == address,
            op.variable == variable,
            final(self).names == old(self).names,
            *final(final(self).block) == *final(old(self).block),
            final(self).block.id == old(self).block.id,
            final(self).block.arguments == old(self).block.arguments,
            final(self).block.body@.drop_last() == old(self).block.body@,
            final(self).block.body@.len() == old(self).block.body@.len() + 1,
            is_dbg_declare(
                final(self).block.body@.last(),
                old(self).names,
                address,
                variable,
                span,
            ),
    {
        let mut attrs = AttributeSet::new();
        let described = variable.duplicate();
        attrs.insert(self.names.variable, Some(AttributeValue::LocalVariable(described)));
        let mut operands: Vec<ValueId> = Vec::new();
        operands.push(address);
        let op = Operation {
            name: OperationName { dialect: self.names.dialect, opcode: self.names.dbg_declare },
            kind: OperationKind::Plain,
            operands,
            results: Vec::new(),
            attrs,
            span,
        };
        assert(op.attrs.map().dom() =~= set![self.names.variable]);
        self.block.body.push(op);
        assert(self.block.body@.drop_last() == old(self).block.body@);
        DbgDeclare { address, variable }
    }
}

} // verus!

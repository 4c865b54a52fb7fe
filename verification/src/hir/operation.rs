//! Operations and blocks.
use vstd::prelude::*;
use vstd::string::*;
use crate::hir::attributes::{AttributeSet, AttributeValue};
use crate::hir::types::Type;
use crate::span::SourceSpan;
use crate::symbol::{Interner, Symbol};
use crate::text::{self, push_decimal};

verus! {

/// A value, by its number.
#[derive(Clone, Copy, PartialEq, Eq, Debug, Hash, Structural)]
pub struct ValueId {
    pub index: u32,
}

/// A block, by its number.
#[derive(Clone, Copy, PartialEq, Eq, Debug, Hash, Structural)]
pub struct BlockId {
    pub index: u32,
}

impl ValueId {
    /// The value as text: its number after `v`.
    pub open spec fn shown(self) -> Seq<char> {
        "v"@ + text::decimal(self.index as nat)
    }

    /// The value as text.
    pub fn show(&self) -> (out: String)
        ensures
            out@ == self.shown(),
    {
        let mut out = String::new();
        out.append("v");
        push_decimal(&mut out, self.index as u64);
        assert(out@ == self.shown());
        out
    }
}

impl BlockId {
    /// The block as text: its number after `^block`.
    pub open spec fn shown(self) -> Seq<char> {
        "^block"@ + text::decimal(self.index as nat)
    }

    /// The block as text.
    pub fn show(&self) -> (out: String)
        ensures
            out@ == self.shown(),
    {
        let mut out = String::new();
        out.append("^block");
        push_decimal(&mut out, self.index as u64);
        assert(out@ == self.shown());
        out
    }
}

/// The name of an operation, and the dialect that it belongs to.
#[derive(Clone, Copy, PartialEq, Eq, Debug, Hash, Structural)]
pub struct OperationName {
    pub dialect: Symbol,
    pub opcode: Symbol,
}

impl OperationName {
    /// The symbols of the name are known.
    pub open spec fn known(self, interner: &Interner) -> bool {
        interner.knows(self.dialect) && interner.knows(self.opcode)
    }

    /// The name as text: the dialect and the name with a dot between them.
    pub open spec fn shown(self, interner: &Interner) -> Seq<char> {
        interner.text(self.dialect) + "."@ + interner.text(self.opcode)
    }

    /// The name as text.
    pub fn show(&self, interner: &Interner) -> (out: String)
        requires
            self.known(interner),
        ensures
            out@ == self.shown(interner),
    {
        let mut out = String::new();
        out.append(interner.as_str(self.dialect));
        out.append(".");
        out.append(interner.as_str(self.opcode));
        assert(out@ == self.shown(interner));
        out
    }
}

/// A value that an operation defines, or that a block takes.
#[derive(PartialEq, Eq, Debug, Hash)]
pub struct TypedValue {
    pub id: ValueId,
    pub ty: Type,
}

/// A block that control may pass to, with the values that it takes. Those that the branch itself
/// produces come before those that are passed on to it.
pub struct Successor {
    pub block: BlockId,
    /// How many values the branch produces for the block
    pub produced: usize,
    /// The values that are passed on; one that is none is not linked
    pub operands: Vec<Option<ValueId>>,
}

/// What kind of operation this is, as far as it is printed differently.
pub enum OperationKind {
    /// A constant of the given value
    Constant(AttributeValue),
    /// A branch to the given blocks
    Branch(Vec<Successor>),
    Plain,
}

/// An operation.
pub struct Operation {
    pub name: OperationName,
    pub kind: OperationKind,
    /// The operands; of a branch those that are not passed to a block
    pub operands: Vec<ValueId>,
    pub results: Vec<TypedValue>,
    pub attrs: AttributeSet,
    pub span: SourceSpan,
}

/// A block of operations.
pub struct Block {
    pub id: BlockId,
    pub arguments: Vec<TypedValue>,
    pub body: Vec<Operation>,
}

impl Block {
    /// A block without operations that takes values of the given types, whose numbers start at
    /// `first`.
    pub fn with_params(id: BlockId, types: &Vec<Type>, first: u32) -> (block: Block)
        requires
            first + types@.len() <= u32::MAX,
        ensures
            block.id == id,
            block.body@.len() == 0,
            block.arguments@.len() == types@.len(),
            forall|i: int|
                0 <= i < types@.len() ==> #[trigger] block.arguments@[i] == (TypedValue {
                    id: ValueId { index: (first + i) as u32 },
                    ty: types@[i],
                }),
    {
        let mut arguments: Vec<TypedValue> = Vec::new();
        let mut i: usize = 0;
        while i < types.len()
            invariant
                i <= types@.len(),
                first + types@.len() <= u32::MAX,
                arguments@.len() == i,
                forall|j: int|
                    0 <= j < i ==> #[trigger] arguments@[j] == (TypedValue {
                        id: ValueId { index: (first + j) as u32 },
                        ty: types@[j],
                    }),
            decreases types@.len() - i,
        {
            arguments.push(
                TypedValue { id: ValueId { index: first + i as u32 }, ty: types[i].duplicate() },
            );
            i = i + 1;
        }
        Block { id, arguments, body: Vec::new() }
    }

    /// The last operation, if there is one.
    pub fn back(&self) -> (op: Option<&Operation>)
        ensures
            match op {
                Some(op) => self.body@.len() > 0 && *op == self.body@.last(),
                None => self.body@.len() == 0,
            },
    {
        let n = self.body.len();
        if n > 0 {
            Some(&self.body[n - 1])
        } else {
            None
        }
    }
}

} // verus!

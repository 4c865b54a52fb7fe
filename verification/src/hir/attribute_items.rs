//! Values that attributes hold in lists, sets and dictionaries.
use vstd::prelude::*;
use vstd::string::*;
use crate::hir::attributes::Rendered;
use crate::hir::sorted::{Duplicate, OrderedKey};
use crate::hir::types::Type;
use crate::symbol::{Interner, Symbol};
use crate::text::{self, push_decimal, push_signed};
use crate::types::Immediate;

verus! {

/// A number that is not zero.
#[derive(Clone, Copy, PartialEq, Eq, Debug, Hash, Structural)]
pub struct NonZeroU32 {
    value: u32,
}

impl NonZeroU32 {
    #[verifier::type_invariant]
    spec fn inv(self) -> bool {
        self.value != 0
    }

    /// The number.
    pub closed spec fn number(self) -> u32 {
        self.value
    }

    /// The number, unless it is zero.
    pub fn new(value: u32) -> (number: Option<Self>)
        ensures
            match number {
                Some(number) => value != 0 && number.number() == value,
                None => value == 0,
            },
    {
        if value == 0 {
            None
        } else {
            Some(NonZeroU32 { value })
        }
    }

    /// The number.
    pub fn get(&self) -> (value: u32)
        ensures
            value == self.number(),
            value != 0,
    {
        proof {
            use_type_invariant(*self);
        }
        self.value
    }
}

impl Rendered for NonZeroU32 {
    open spec fn knowable(&self, interner: &Interner) -> bool {
        true
    }

    open spec fn shown(&self, interner: &Interner) -> Seq<char> {
        text::decimal(self.number() as nat)
    }

    fn show(&self, interner: &Interner) -> (out: String) {
        let mut out = String::new();
        push_decimal(&mut out, self.get() as u64);
        assert(out@ == text::decimal(self.number() as nat));
        out
    }
}

impl Rendered for usize {
    open spec fn knowable(&self, interner: &Interner) -> bool {
        true
    }

    open spec fn shown(&self, interner: &Interner) -> Seq<char> {
        text::decimal(*self as nat)
    }

    fn show(&self, interner: &Interner) -> (out: String) {
        let mut out = String::new();
        push_decimal(&mut out, *self as u64);
        assert(out@ == text::decimal(*self as nat));
        out
    }
}

impl Rendered for isize {
    open spec fn knowable(&self, interner: &Interner) -> bool {
        true
    }

    open spec fn shown(&self, interner: &Interner) -> Seq<char> {
        text::signed(*self as int)
    }

    fn show(&self, interner: &Interner) -> (out: String) {
        let mut out = String::new();
        push_signed(&mut out, *self as i64);
        assert(out@ == text::signed(*self as int));
        out
    }
}

impl Rendered for Type {
    open spec fn knowable(&self, interner: &Interner) -> bool {
        true
    }

    open spec fn shown(&self, interner: &Interner) -> Seq<char> {
        self.rendered()
    }

    fn show(&self, interner: &Interner) -> (out: String) {
        self.render()
    }
}

/// A value in a list, or of an entry of a dictionary.
#[derive(PartialEq, Eq, Debug, Hash)]
pub enum AttributeItem {
    Bool(bool),
    U8(u8),
    I8(i8),
    U16(u16),
    I16(i16),
    U32(u32),
    I32(i32),
    U64(u64),
    I64(i64),
    Usize(usize),
    Isize(isize),
    NonZeroU32(NonZeroU32),
    Symbol(Symbol),
    Immediate(Immediate),
    Type(Type),
}

impl Duplicate for AttributeItem {
    fn duplicate(&self) -> (copy: Self) {
        match self {
            AttributeItem::Bool(inner) => AttributeItem::Bool(*inner),
            AttributeItem::U8(inner) => AttributeItem::U8(*inner),
            AttributeItem::I8(inner) => AttributeItem::I8(*inner),
            AttributeItem::U16(inner) => AttributeItem::U16(*inner),
            AttributeItem::I16(inner) => AttributeItem::I16(*inner),
            AttributeItem::U32(inner) => AttributeItem::U32(*inner),
            AttributeItem::I32(inner) => AttributeItem::I32(*inner),
            AttributeItem::U64(inner) => AttributeItem::U64(*inner),
            AttributeItem::I64(inner) => AttributeItem::I64(*inner),
            AttributeItem::Usize(inner) => AttributeItem::Usize(*inner),
            AttributeItem::Isize(inner) => AttributeItem::Isize(*inner),
            AttributeItem::NonZeroU32(inner) => AttributeItem::NonZeroU32(*inner),
            AttributeItem::Symbol(inner) => AttributeItem::Symbol(*inner),
            AttributeItem::Immediate(inner) => AttributeItem::Immediate(*inner),
            AttributeItem::Type(inner) => AttributeItem::Type(inner.duplicate()),
        }
    }
}

impl AttributeItem {
    /// Whether the two values are the same.
    pub fn is_same(&self, other: &Self) -> (b: bool)
        ensures
            b == (*self == *other),
    {
        match (self, other) {
            (AttributeItem::Bool(a), AttributeItem::Bool(b)) => *a == *b,
            (AttributeItem::U8(a), AttributeItem::U8(b)) => *a == *b,
            (AttributeItem::I8(a), AttributeItem::I8(b)) => *a == *b,
            (AttributeItem::U16(a), AttributeItem::U16(b)) => *a == *b,
            (AttributeItem::I16(a), AttributeItem::I16(b)) => *a == *b,
            (AttributeItem::U32(a), AttributeItem::U32(b)) => *a == *b,
            (AttributeItem::I32(a), AttributeItem::I32(b)) => *a == *b,
            (AttributeItem::U64(a), AttributeItem::U64(b)) => *a == *b,
            (AttributeItem::I64(a), AttributeItem::I64(b)) => *a == *b,
            (AttributeItem::Usize(a), AttributeItem::Usize(b)) => *a == *b,
            (AttributeItem::Isize(a), AttributeItem::Isize(b)) => *a == *b,
            (AttributeItem::NonZeroU32(a), AttributeItem::NonZeroU32(b)) => *a == *b,
            (AttributeItem::Symbol(a), AttributeItem::Symbol(b)) => *a == *b,
            (AttributeItem::Immediate(a), AttributeItem::Immediate(b)) => *a == *b,
            (AttributeItem::Type(a), AttributeItem::Type(b)) => a.is_same(b),
            _ => false,
        }
    }
}

impl Rendered for AttributeItem {
    open spec fn knowable(&self, interner: &Interner) -> bool {
        match self {
            AttributeItem::Bool(inner) => inner.knowable(interner),
            AttributeItem::U8(inner) => inner.knowable(interner),
            AttributeItem::I8(inner) => inner.knowable(interner),
            AttributeItem::U16(inner) => inner.knowable(interner),
            AttributeItem::I16(inner) => inner.knowable(interner),
            AttributeItem::U32(inner) => inner.knowable(interner),
            AttributeItem::I32(inner) => inner.knowable(interner),
            AttributeItem::U64(inner) => inner.knowable(interner),
            AttributeItem::I64(inner) => inner.knowable(interner),
            AttributeItem::Usize(inner) => inner.knowable(interner),
            AttributeItem::Isize(inner) => inner.knowable(interner),
            AttributeItem::NonZeroU32(inner) => inner.knowable(interner),
            AttributeItem::Symbol(inner) => inner.knowable(interner),
            AttributeItem::Immediate(inner) => inner.knowable(interner),
            AttributeItem::Type(inner) => inner.knowable(interner),
        }
    }

    open spec fn shown(&self, interner: &Interner) -> Seq<char> {
        match self {
            AttributeItem::Bool(inner) => inner.shown(interner),
            AttributeItem::U8(inner) => inner.shown(interner),
            AttributeItem::I8(inner) => inner.shown(interner),
            AttributeItem::U16(inner) => inner.shown(interner),
            AttributeItem::I16(inner) => inner.shown(interner),
            AttributeItem::U32(inner) => inner.shown(interner),
            AttributeItem::I32(inner) => inner.shown(interner),
            AttributeItem::U64(inner) => inner.shown(interner),
            AttributeItem::I64(inner) => inner.shown(interner),
            AttributeItem::Usize(inner) => inner.shown(interner),
            AttributeItem::Isize(inner) => inner.shown(interner),
            AttributeItem::NonZeroU32(inner) => inner.shown(interner),
            AttributeItem::Symbol(inner) => inner.shown(interner),
            AttributeItem::Immediate(inner) => inner.shown(interner),
            AttributeItem::Type(inner) => inner.shown(interner),
        }
    }

    fn show(&self, interner: &Interner) -> (out: String) {
        match self {
            AttributeItem::Bool(inner) => inner.show(interner),
            AttributeItem::U8(inner) => inner.show(interner),
            AttributeItem::I8(inner) => inner.show(interner),
            AttributeItem::U16(inner) => inner.show(interner),
            AttributeItem::I16(inner) => inner.show(interner),
            AttributeItem::U32(inner) => inner.show(interner),
            AttributeItem::I32(inner) => inner.show(interner),
            AttributeItem::U64(inner) => inner.show(interner),
            AttributeItem::I64(inner) => inner.show(interner),
            AttributeItem::Usize(inner) => inner.show(interner),
            AttributeItem::Isize(inner) => inner.show(interner),
            AttributeItem::NonZeroU32(inner) => inner.show(interner),
            AttributeItem::Symbol(inner) => inner.show(interner),
            AttributeItem::Immediate(inner) => inner.show(interner),
            AttributeItem::Type(inner) => inner.show(interner),
        }
    }
}

/// A value in a set, or the key of an entry of a dictionary.
#[derive(Clone, Copy, PartialEq, Eq, Debug, Hash, Structural)]
pub enum AttributeKey {
    Bool(bool),
    Unsigned(u64),
    Signed(i64),
    Symbol(Symbol),
}

/// Keys of one kind are in the order of their values.
impl OrderedKey for AttributeKey {
    open spec fn rank(self) -> int {
        match self {
            AttributeKey::Bool(b) => if b {
                1
            } else {
                0
            },
            AttributeKey::Unsigned(n) => 0x1_0000_0000_0000_0000 + n,
            AttributeKey::Signed(n) => 0x3_0000_0000_0000_0000 + n,
            AttributeKey::Symbol(symbol) => 0x4_0000_0000_0000_0000 + symbol.index,
        }
    }

    proof fn ranks_are_keys(a: Self, b: Self) {
    }

    fn precedes(&self, other: &Self) -> (b: bool) {
        match (self, other) {
            (AttributeKey::Bool(a), AttributeKey::Bool(b)) => !*a && *b,
            (AttributeKey::Bool(_), _) => true,
            (_, AttributeKey::Bool(_)) => false,
            (AttributeKey::Unsigned(a), AttributeKey::Unsigned(b)) => *a < *b,
            (AttributeKey::Unsigned(_), _) => true,
            (_, AttributeKey::Unsigned(_)) => false,
            (AttributeKey::Signed(a), AttributeKey::Signed(b)) => *a < *b,
            (AttributeKey::Signed(_), _) => true,
            (_, AttributeKey::Signed(_)) => false,
            (AttributeKey::Symbol(a), AttributeKey::Symbol(b)) => a.index < b.index,
        }
    }
}

impl Rendered for AttributeKey {
    open spec fn knowable(&self, interner: &Interner) -> bool {
        match self {
            AttributeKey::Symbol(symbol) => symbol.knowable(interner),
            _ => true,
        }
    }

    open spec fn shown(&self, interner: &Interner) -> Seq<char> {
        match self {
            AttributeKey::Bool(b) => b.shown(interner),
            AttributeKey::Unsigned(n) => n.shown(interner),
            AttributeKey::Signed(n) => n.shown(interner),
            AttributeKey::Symbol(symbol) => symbol.shown(interner),
        }
    }

    fn show(&self, interner: &Interner) -> (out: String) {
        match self {
            AttributeKey::Bool(b) => b.show(interner),
            AttributeKey::Unsigned(n) => n.show(interner),
            AttributeKey::Signed(n) => n.show(interner),
            AttributeKey::Symbol(symbol) => symbol.show(interner),
        }
    }
}

} // verus!

//! Attributes of operations.
use vstd::prelude::*;
use vstd::std_specs::cmp::PartialEqSpec;
use vstd::string::*;
use crate::hir::attribute_items::{AttributeItem, AttributeKey, NonZeroU32};
use crate::hir::debug_attrs::{
    DICompileUnitAttr, DIExpressionAttr, DILocalVariableAttr, DISubprogramAttr,
};
use crate::hir::sorted::{self, Duplicate, OrderedKey, SortedMap};
use crate::hir::types::Type;
use crate::symbol::{Interner, Symbol};
use crate::text::{self, push_decimal, push_signed};
use crate::types::Immediate;

verus! {

/// A value that can be shown as text.
pub trait Rendered {
    /// The symbols of the value are known.
    spec fn knowable(&self, interner: &Interner) -> bool;

    /// The value as text.
    spec fn shown(&self, interner: &Interner) -> Seq<char>;

    /// The value as text.
    fn show(&self, interner: &Interner) -> (out: String)
        requires
            self.knowable(interner),
        ensures
            out@ == self.shown(interner),
    ;
}

impl Rendered for bool {
    open spec fn knowable(&self, interner: &Interner) -> bool {
        true
    }

    open spec fn shown(&self, interner: &Interner) -> Seq<char> {
        if *self {
            "true"@
        } else {
            "false"@
        }
    }

    fn show(&self, interner: &Interner) -> (out: String) {
        if *self {
            "true".to_owned()
        } else {
            "false".to_owned()
        }
    }
}

impl Rendered for u8 {
    open spec fn knowable(&self, interner: &Interner) -> bool {
        true
    }

    open spec fn shown(&self, interner: &Interner) -> Seq<char> {
        text::decimal(*self as nat)
    }

    fn show(&self, interner: &Interner) -> (out: String) {
        let mut out = String::new();
        push_decimal(&mut out, *self as u64);
        assert(out@ == text::decimal(*self as nat));
        out
    }
}

impl Rendered for i8 {
    open spec fn knowable(&self, interner: &Interner) -> bool {
        true
    }

    open spec fn shown(&self, interner: &Interner) -> Seq<char> {
        text::signed(*self as int)
    }

    fn show(&self, interner: &Interner) -> (out: String) {
        let mut out = String::new();
        push_signed(&mut out, *self as i64);
        assert(out@ == text::signed(*self as int));
        out
    }
}

impl Rendered for u16 {
    open spec fn knowable(&self, interner: &Interner) -> bool {
        true
    }

    open spec fn shown(&self, interner: &Interner) -> Seq<char> {
        text::decimal(*self as nat)
    }

    fn show(&self, interner: &Interner) -> (out: String) {
        let mut out = String::new();
        push_decimal(&mut out, *self as u64);
        assert(out@ == text::decimal(*self as nat));
        out
    }
}

impl Rendered for i16 {
    open spec fn knowable(&self, interner: &Interner) -> bool {
        true
    }

    open spec fn shown(&self, interner: &Interner) -> Seq<char> {
        text::signed(*self as int)
    }

    fn show(&self, interner: &Interner) -> (out: String) {
        let mut out = String::new();
        push_signed(&mut out, *self as i64);
        assert(out@ == text::signed(*self as int));
        out
    }
}

impl Rendered for u32 {
    open spec fn knowable(&self, interner: &Interner) -> bool {
        true
    }

    open spec fn shown(&self, interner: &Interner) -> Seq<char> {
        text::decimal(*self as nat)
    }

    fn show(&self, interner: &Interner) -> (out: String) {
        let mut out = String::new();
        push_decimal(&mut out, *self as u64);
        assert(out@ == text::decimal(*self as nat));
        out
    }
}

impl Rendered for i32 {
    open spec fn knowable(&self, interner: &Interner) -> bool {
        true
    }

    open spec fn shown(&self, interner: &Interner) -> Seq<char> {
        text::signed(*self as int)
    }

    fn show(&self, interner: &Interner) -> (out: String) {
        let mut out = String::new();
        push_signed(&mut out, *self as i64);
        assert(out@ == text::signed(*self as int));
        out
    }
}

impl Rendered for u64 {
    open spec fn knowable(&self, interner: &Interner) -> bool {
        true
    }

    open spec fn shown(&self, interner: &Interner) -> Seq<char> {
        text::decimal(*self as nat)
    }

    fn show(&self, interner: &Interner) -> (out: String) {
        let mut out = String::new();
        push_decimal(&mut out, *self as u64);
        assert(out@ == text::decimal(*self as nat));
        out
    }
}

impl Rendered for i64 {
    open spec fn knowable(&self, interner: &Interner) -> bool {
        true
    }

    open spec fn shown(&self, interner: &Interner) -> Seq<char> {
        text::signed(*self as int)
    }

    fn show(&self, interner: &Interner) -> (out: String) {
        let mut out = String::new();
        push_signed(&mut out, *self as i64);
        assert(out@ == text::signed(*self as int));
        out
    }
}

impl Rendered for Symbol {
    open spec fn knowable(&self, interner: &Interner) -> bool {
        interner.knows(*self)
    }

    open spec fn shown(&self, interner: &Interner) -> Seq<char> {
        interner.text(*self)
    }

    fn show(&self, interner: &Interner) -> (out: String) {
        interner.as_str(*self).to_owned()
    }
}

/// A constant as text; truth values are words, and numbers are in decimal notation.
pub open spec fn constant_text(imm: Immediate) -> Seq<char> {
    match imm {
        Immediate::I1(b) => if b {
            "true"@
        } else {
            "false"@
        },
        Immediate::U8(n) => text::decimal(n as nat),
        Immediate::I8(n) => text::signed(n as int),
        Immediate::U16(n) => text::decimal(n as nat),
        Immediate::I16(n) => text::signed(n as int),
        Immediate::U32(n) => text::decimal(n as nat),
        Immediate::I32(n) => text::signed(n as int),
        Immediate::U64(n) => text::decimal(n as nat),
        Immediate::I64(n) => text::signed(n as int),
        Immediate::U128(n) => text::decimal(n as nat),
        Immediate::I128(n) => text::signed(n as int),
        Immediate::Felt(n) => text::decimal(n as nat),
    }
}

impl Rendered for Immediate {
    open spec fn knowable(&self, interner: &Interner) -> bool {
        true
    }

    open spec fn shown(&self, interner: &Interner) -> Seq<char> {
        constant_text(*self)
    }

    fn show(&self, interner: &Interner) -> (out: String) {
        let mut out = String::new();
        match self {
            Immediate::I1(b) => out.append(if *b {
                "true"
            } else {
                "false"
            }),
            Immediate::U8(n) => push_decimal(&mut out, *n as u64),
            Immediate::I8(n) => push_signed(&mut out, *n as i64),
            Immediate::U16(n) => push_decimal(&mut out, *n as u64),
            Immediate::I16(n) => push_signed(&mut out, *n as i64),
            Immediate::U32(n) => push_decimal(&mut out, *n as u64),
            Immediate::I32(n) => push_signed(&mut out, *n as i64),
            Immediate::U64(n) => push_decimal(&mut out, *n),
            Immediate::I64(n) => push_signed(&mut out, *n),
            Immediate::U128(n) => text::push_wide(&mut out, *n),
            Immediate::I128(n) => text::push_wide_signed(&mut out, *n),
            Immediate::Felt(n) => push_decimal(&mut out, *n),
        }
        assert(out@ == constant_text(*self));
        out
    }
}

impl Rendered for DICompileUnitAttr {
    open spec fn knowable(&self, interner: &Interner) -> bool {
        (*self).known(interner)
    }

    open spec fn shown(&self, interner: &Interner) -> Seq<char> {
        (*self).rendered(interner)
    }

    fn show(&self, interner: &Interner) -> (out: String) {
        self.render(interner)
    }
}

impl Rendered for DISubprogramAttr {
    open spec fn knowable(&self, interner: &Interner) -> bool {
        (*self).known(interner)
    }

    open spec fn shown(&self, interner: &Interner) -> Seq<char> {
        (*self).rendered(interner)
    }

    fn show(&self, interner: &Interner) -> (out: String) {
        self.render(interner)
    }
}

impl Rendered for DILocalVariableAttr {
    open spec fn knowable(&self, interner: &Interner) -> bool {
        (*self).known(interner)
    }

    open spec fn shown(&self, interner: &Interner) -> Seq<char> {
        (*self).rendered(interner)
    }

    fn show(&self, interner: &Interner) -> (out: String) {
        self.render(interner)
    }
}

impl Rendered for DIExpressionAttr {
    open spec fn knowable(&self, interner: &Interner) -> bool {
        self.known(interner)
    }

    open spec fn shown(&self, interner: &Interner) -> Seq<char> {
        self.rendered(interner)
    }

    fn show(&self, interner: &Interner) -> (out: String) {
        self.render(interner)
    }
}

/// The value of an attribute.
#[derive(Debug)]
pub enum AttributeValue {
    Bool(bool),
    U8(u8),
    I8(i8),
    U16(u16),
    I16(i16),
    U32(u32),
    I32(i32),
    U64(u64),
    I64(i64),
    Usize(usize),
    Isize(isize),
    NonZeroU32(NonZeroU32),
    Symbol(Symbol),
    Immediate(Immediate),
    Type(Type),
    CompileUnit(DICompileUnitAttr),
    Subprogram(DISubprogramAttr),
    LocalVariable(DILocalVariableAttr),
    Expression(DIExpressionAttr),
    Array(ArrayAttr<AttributeItem>),
    Keys(SetAttr<AttributeKey>),
    Dict(DictAttr<AttributeKey, AttributeItem>),
}

/// A type of values that attributes can have.
pub trait AttributeType: Sized {
    /// The value as a value of an attribute.
    spec fn wrapped(self) -> AttributeValue;

    /// The value of an attribute, if it has this type.
    spec fn unwrapped(value: AttributeValue) -> Option<Self>;

    /// A value of this type is what its wrapping holds, and nothing else holds it.
    proof fn wraps(value: AttributeValue)
        ensures
            Self::unwrapped(value) matches Some(inner) ==> inner.wrapped() == value,
    ;

    /// The value as a value of an attribute.
    fn wrap(self) -> (value: AttributeValue)
        ensures
            value == self.wrapped(),
            Self::unwrapped(value) == Some(self),
    ;

    /// The value of an attribute, if it has this type.
    fn unwrap_ref(value: &AttributeValue) -> (inner: Option<&Self>)
        ensures
            match inner {
                Some(inner) => Self::unwrapped(*value) == Some(*inner),
                None => Self::unwrapped(*value) is None,
            },
    ;

    /// The value of an attribute, or the attribute's value if it has another type.
    fn unwrap_value(value: AttributeValue) -> (inner: Result<Self, AttributeValue>)
        ensures
            match inner {
                Ok(inner) => Self::unwrapped(value) == Some(inner),
                Err(same) => Self::unwrapped(value) is None && same == value,
            },
    ;

    /// The value of an attribute, if it has this type, to be changed.
    fn unwrap_mut(value: &mut AttributeValue) -> (inner: Option<&mut Self>)
        ensures
            match inner {
                Some(inner) => Self::unwrapped(*old(value)) == Some(*inner) && *final(value)
                    == (*final(inner)).wrapped(),
                None => Self::unwrapped(*old(value)) is None && *final(value) == *old(value),
            },
    ;
}

impl AttributeType for bool {
    open spec fn wrapped(self) -> AttributeValue {
        AttributeValue::Bool(self)
    }

    open spec fn unwrapped(value: AttributeValue) -> Option<Self> {
        match value {
            AttributeValue::Bool(inner) => Some(inner),
            _ => None,
        }
    }

    proof fn wraps(value: AttributeValue) {
    }

    fn wrap(self) -> (value: AttributeValue) {
        AttributeValue::Bool(self)
    }

    fn unwrap_ref(value: &AttributeValue) -> (inner: Option<&Self>) {
        match value {
            AttributeValue::Bool(inner) => Some(inner),
            _ => None,
        }
    }

    fn unwrap_value(value: AttributeValue) -> (inner: Result<Self, AttributeValue>) {
        match value {
            AttributeValue::Bool(inner) => Ok(inner),
            other => Err(other),
        }
    }

    fn unwrap_mut(value: &mut AttributeValue) -> (inner: Option<&mut Self>) {
        match value {
            AttributeValue::Bool(inner) => Some(inner),
            _ => None,
        }
    }
}

impl AttributeType for u8 {
    open spec fn wrapped(self) -> AttributeValue {
        AttributeValue::U8(self)
    }

    open spec fn unwrapped(value: AttributeValue) -> Option<Self> {
        match value {
            AttributeValue::U8(inner) => Some(inner),
            _ => None,
        }
    }

    proof fn wraps(value: AttributeValue) {
    }

    fn wrap(self) -> (value: AttributeValue) {
        AttributeValue::U8(self)
    }

    fn unwrap_ref(value: &AttributeValue) -> (inner: Option<&Self>) {
        match value {
            AttributeValue::U8(inner) => Some(inner),
            _ => None,
        }
    }

    fn unwrap_value(value: AttributeValue) -> (inner: Result<Self, AttributeValue>) {
        match value {
            AttributeValue::U8(inner) => Ok(inner),
            other => Err(other),
        }
    }

    fn unwrap_mut(value: &mut AttributeValue) -> (inner: Option<&mut Self>) {
        match value {
            AttributeValue::U8(inner) => Some(inner),
            _ => None,
        }
    }
}

impl AttributeType for i8 {
    open spec fn wrapped(self) -> AttributeValue {
        AttributeValue::I8(self)
    }

    open spec fn unwrapped(value: AttributeValue) -> Option<Self> {
        match value {
            AttributeValue::I8(inner) => Some(inner),
            _ => None,
        }
    }

    proof fn wraps(value: AttributeValue) {
    }

    fn wrap(self) -> (value: AttributeValue) {
        AttributeValue::I8(self)
    }

    fn unwrap_ref(value: &AttributeValue) -> (inner: Option<&Self>) {
        match value {
            AttributeValue::I8(inner) => Some(inner),
            _ => None,
        }
    }

    fn unwrap_value(value: AttributeValue) -> (inner: Result<Self, AttributeValue>) {
        match value {
            AttributeValue::I8(inner) => Ok(inner),
            other => Err(other),
        }
    }

    fn unwrap_mut(value: &mut AttributeValue) -> (inner: Option<&mut Self>) {
        match value {
            AttributeValue::I8(inner) => Some(inner),
            _ => None,
        }
    }
}

impl AttributeType for u16 {
    open spec fn wrapped(self) -> AttributeValue {
        AttributeValue::U16(self)
    }

    open spec fn unwrapped(value: AttributeValue) -> Option<Self> {
        match value {
            AttributeValue::U16(inner) => Some(inner),
            _ => None,
        }
    }

    proof fn wraps(value: AttributeValue) {
    }

    fn wrap(self) -> (value: AttributeValue) {
        AttributeValue::U16(self)
    }

    fn unwrap_ref(value: &AttributeValue) -> (inner: Option<&Self>) {
        match value {
            AttributeValue::U16(inner) => Some(inner),
            _ => None,
        }
    }

    fn unwrap_value(value: AttributeValue) -> (inner: Result<Self, AttributeValue>) {
        match value {
            AttributeValue::U16(inner) => Ok(inner),
            other => Err(other),
        }
    }

    fn unwrap_mut(value: &mut AttributeValue) -> (inner: Option<&mut Self>) {
        match value {
            AttributeValue::U16(inner) => Some(inner),
            _ => None,
        }
    }
}

impl AttributeType for i16 {
    open spec fn wrapped(self) -> AttributeValue {
        AttributeValue::I16(self)
    }

    open spec fn unwrapped(value: AttributeValue) -> Option<Self> {
        match value {
            AttributeValue::I16(inner) => Some(inner),
            _ => None,
        }
    }

    proof fn wraps(value: AttributeValue) {
    }

    fn wrap(self) -> (value: AttributeValue) {
        AttributeValue::I16(self)
    }

    fn unwrap_ref(value: &AttributeValue) -> (inner: Option<&Self>) {
        match value {
            AttributeValue::I16(inner) => Some(inner),
            _ => None,
        }
    }

    fn unwrap_value(value: AttributeValue) -> (inner: Result<Self, AttributeValue>) {
        match value {
            AttributeValue::I16(inner) => Ok(inner),
            other => Err(other),
        }
    }

    fn unwrap_mut(value: &mut AttributeValue) -> (inner: Option<&mut Self>) {
        match value {
            AttributeValue::I16(inner) => Some(inner),
            _ => None,
        }
    }
}

impl AttributeType for u32 {
    open spec fn wrapped(self) -> AttributeValue {
        AttributeValue::U32(self)
    }

    open spec fn unwrapped(value: AttributeValue) -> Option<Self> {
        match value {
            AttributeValue::U32(inner) => Some(inner),
            _ => None,
        }
    }

    proof fn wraps(value: AttributeValue) {
    }

    fn wrap(self) -> (value: AttributeValue) {
        AttributeValue::U32(self)
    }

    fn unwrap_ref(value: &AttributeValue) -> (inner: Option<&Self>) {
        match value {
            AttributeValue::U32(inner) => Some(inner),
            _ => None,
        }
    }

    fn unwrap_value(value: AttributeValue) -> (inner: Result<Self, AttributeValue>) {
        match value {
            AttributeValue::U32(inner) => Ok(inner),
            other => Err(other),
        }
    }

    fn unwrap_mut(value: &mut AttributeValue) -> (inner: Option<&mut Self>) {
        match value {
            AttributeValue::U32(inner) => Some(inner),
            _ => None,
        }
    }
}

impl AttributeType for i32 {
    open spec fn wrapped(self) -> AttributeValue {
        AttributeValue::I32(self)
    }

    open spec fn unwrapped(value: AttributeValue) -> Option<Self> {
        match value {
            AttributeValue::I32(inner) => Some(inner),
            _ => None,
        }
    }

    proof fn wraps(value: AttributeValue) {
    }

    fn wrap(self) -> (value: AttributeValue) {
        AttributeValue::I32(self)
    }

    fn unwrap_ref(value: &AttributeValue) -> (inner: Option<&Self>) {
        match value {
            AttributeValue::I32(inner) => Some(inner),
            _ => None,
        }
    }

    fn unwrap_value(value: AttributeValue) -> (inner: Result<Self, AttributeValue>) {
        match value {
            AttributeValue::I32(inner) => Ok(inner),
            other => Err(other),
        }
    }

    fn unwrap_mut(value: &mut AttributeValue) -> (inner: Option<&mut Self>) {
        match value {
            AttributeValue::I32(inner) => Some(inner),
            _ => None,
        }
    }
}

impl AttributeType for u64 {
    open spec fn wrapped(self) -> AttributeValue {
        AttributeValue::U64(self)
    }

    open spec fn unwrapped(value: AttributeValue) -> Option<Self> {
        match value {
            AttributeValue::U64(inner) => Some(inner),
            _ => None,
        }
    }

    proof fn wraps(value: AttributeValue) {
    }

    fn wrap(self) -> (value: AttributeValue) {
        AttributeValue::U64(self)
    }

    fn unwrap_ref(value: &AttributeValue) -> (inner: Option<&Self>) {
        match value {
            AttributeValue::U64(inner) => Some(inner),
            _ => None,
        }
    }

    fn unwrap_value(value: AttributeValue) -> (inner: Result<Self, AttributeValue>) {
        match value {
            AttributeValue::U64(inner) => Ok(inner),
            other => Err(other),
        }
    }

    fn unwrap_mut(value: &mut AttributeValue) -> (inner: Option<&mut Self>) {
        match value {
            AttributeValue::U64(inner) => Some(inner),
            _ => None,
        }
    }
}

impl AttributeType for i64 {
    open spec fn wrapped(self) -> AttributeValue {
        AttributeValue::I64(self)
    }

    open spec fn unwrapped(value: AttributeValue) -> Option<Self> {
        match value {
            AttributeValue::I64(inner) => Some(inner),
            _ => None,
        }
    }

    proof fn wraps(value: AttributeValue) {
    }

    fn wrap(self) -> (value: AttributeValue) {
        AttributeValue::I64(self)
    }

    fn unwrap_ref(value: &AttributeValue) -> (inner: Option<&Self>) {
        match value {
            AttributeValue::I64(inner) => Some(inner),
            _ => None,
        }
    }

    fn unwrap_value(value: AttributeValue) -> (inner: Result<Self, AttributeValue>) {
        match value {
            AttributeValue::I64(inner) => Ok(inner),
            other => Err(other),
        }
    }

    fn unwrap_mut(value: &mut AttributeValue) -> (inner: Option<&mut Self>) {
        match value {
            AttributeValue::I64(inner) => Some(inner),
            _ => None,
        }
    }
}

impl AttributeType for Symbol {
    open spec fn wrapped(self) -> AttributeValue {
        AttributeValue::Symbol(self)
    }

    open spec fn unwrapped(value: AttributeValue) -> Option<Self> {
        match value {
            AttributeValue::Symbol(inner) => Some(inner),
            _ => None,
        }
    }

    proof fn wraps(value: AttributeValue) {
    }

    fn wrap(self) -> (value: AttributeValue) {
        AttributeValue::Symbol(self)
    }

    fn unwrap_ref(value: &AttributeValue) -> (inner: Option<&Self>) {
        match value {
            AttributeValue::Symbol(inner) => Some(inner),
            _ => None,
        }
    }

    fn unwrap_value(value: AttributeValue) -> (inner: Result<Self, AttributeValue>) {
        match value {
            AttributeValue::Symbol(inner) => Ok(inner),
            other => Err(other),
        }
    }

    fn unwrap_mut(value: &mut AttributeValue) -> (inner: Option<&mut Self>) {
        match value {
            AttributeValue::Symbol(inner) => Some(inner),
            _ => None,
        }
    }
}

impl AttributeType for Immediate {
    open spec fn wrapped(self) -> AttributeValue {
        AttributeValue::Immediate(self)
    }

    open spec fn unwrapped(value: AttributeValue) -> Option<Self> {
        match value {
            AttributeValue::Immediate(inner) => Some(inner),
            _ => None,
        }
    }

    proof fn wraps(value: AttributeValue) {
    }

    fn wrap(self) -> (value: AttributeValue) {
        AttributeValue::Immediate(self)
    }

    fn unwrap_ref(value: &AttributeValue) -> (inner: Option<&Self>) {
        match value {
            AttributeValue::Immediate(inner) => Some(inner),
            _ => None,
        }
    }

    fn unwrap_value(value: AttributeValue) -> (inner: Result<Self, AttributeValue>) {
        match value {
            AttributeValue::Immediate(inner) => Ok(inner),
            other => Err(other),
        }
    }

    fn unwrap_mut(value: &mut AttributeValue) -> (inner: Option<&mut Self>) {
        match value {
            AttributeValue::Immediate(inner) => Some(inner),
            _ => None,
        }
    }
}

impl AttributeType for Type {
    open spec fn wrapped(self) -> AttributeValue {
        AttributeValue::Type(self)
    }

    open spec fn unwrapped(value: AttributeValue) -> Option<Self> {
        match value {
            AttributeValue::Type(inner) => Some(inner),
            _ => None,
        }
    }

    proof fn wraps(value: AttributeValue) {
    }

    fn wrap(self) -> (value: AttributeValue) {
        AttributeValue::Type(self)
    }

    fn unwrap_ref(value: &AttributeValue) -> (inner: Option<&Self>) {
        match value {
            AttributeValue::Type(inner) => Some(inner),
            _ => None,
        }
    }

    fn unwrap_value(value: AttributeValue) -> (inner: Result<Self, AttributeValue>) {
        match value {
            AttributeValue::Type(inner) => Ok(inner),
            other => Err(other),
        }
    }

    fn unwrap_mut(value: &mut AttributeValue) -> (inner: Option<&mut Self>) {
        match value {
            AttributeValue::Type(inner) => Some(inner),
            _ => None,
        }
    }
}

impl AttributeType for DICompileUnitAttr {
    open spec fn wrapped(self) -> AttributeValue {
        AttributeValue::CompileUnit(self)
    }

    open spec fn unwrapped(value: AttributeValue) -> Option<Self> {
        match value {
            AttributeValue::CompileUnit(inner) => Some(inner),
            _ => None,
        }
    }

    proof fn wraps(value: AttributeValue) {
    }

    fn wrap(self) -> (value: AttributeValue) {
        AttributeValue::CompileUnit(self)
    }

    fn unwrap_ref(value: &AttributeValue) -> (inner: Option<&Self>) {
        match value {
            AttributeValue::CompileUnit(inner) => Some(inner),
            _ => None,
        }
    }

    fn unwrap_value(value: AttributeValue) -> (inner: Result<Self, AttributeValue>) {
        match value {
            AttributeValue::CompileUnit(inner) => Ok(inner),
            other => Err(other),
        }
    }

    fn unwrap_mut(value: &mut AttributeValue) -> (inner: Option<&mut Self>) {
        match value {
            AttributeValue::CompileUnit(inner) => Some(inner),
            _ => None,
        }
    }
}

impl AttributeType for DISubprogramAttr {
    open spec fn wrapped(self) -> AttributeValue {
        AttributeValue::Subprogram(self)
    }

    open spec fn unwrapped(value: AttributeValue) -> Option<Self> {
        match value {
            AttributeValue::Subprogram(inner) => Some(inner),
            _ => None,
        }
    }

    proof fn wraps(value: AttributeValue) {
    }

    fn wrap(self) -> (value: AttributeValue) {
        AttributeValue::Subprogram(self)
    }

    fn unwrap_ref(value: &AttributeValue) -> (inner: Option<&Self>) {
        match value {
            AttributeValue::Subprogram(inner) => Some(inner),
            _ => None,
        }
    }

    fn unwrap_value(value: AttributeValue) -> (inner: Result<Self, AttributeValue>) {
        match value {
            AttributeValue::Subprogram(inner) => Ok(inner),
            other => Err(other),
        }
    }

    fn unwrap_mut(value: &mut AttributeValue) -> (inner: Option<&mut Self>) {
        match value {
            AttributeValue::Subprogram(inner) => Some(inner),
            _ => None,
        }
    }
}

impl AttributeType for DILocalVariableAttr {
    open spec fn wrapped(self) -> AttributeValue {
        AttributeValue::LocalVariable(self)
    }

    open spec fn unwrapped(value: AttributeValue) -> Option<Self> {
        match value {
            AttributeValue::LocalVariable(inner) => Some(inner),
            _ => None,
        }
    }

    proof fn wraps(value: AttributeValue) {
    }

    fn wrap(self) -> (value: AttributeValue) {
        AttributeValue::LocalVariable(self)
    }

    fn unwrap_ref(value: &AttributeValue) -> (inner: Option<&Self>) {
        match value {
            AttributeValue::LocalVariable(inner) => Some(inner),
            _ => None,
        }
    }

    fn unwrap_value(value: AttributeValue) -> (inner: Result<Self, AttributeValue>) {
        match value {
            AttributeValue::LocalVariable(inner) => Ok(inner),
            other => Err(other),
        }
    }

    fn unwrap_mut(value: &mut AttributeValue) -> (inner: Option<&mut Self>) {
        match value {
            AttributeValue::LocalVariable(inner) => Some(inner),
            _ => None,
        }
    }
}

impl AttributeType for DIExpressionAttr {
    open spec fn wrapped(self) -> AttributeValue {
        AttributeValue::Expression(self)
    }

    open spec fn unwrapped(value: AttributeValue) -> Option<Self> {
        match value {
            AttributeValue::Expression(inner) => Some(inner),
            _ => None,
        }
    }

    proof fn wraps(value: AttributeValue) {
    }

    fn wrap(self) -> (value: AttributeValue) {
        AttributeValue::Expression(self)
    }

    fn unwrap_ref(value: &AttributeValue) -> (inner: Option<&Self>) {
        match value {
            AttributeValue::Expression(inner) => Some(inner),
            _ => None,
        }
    }

    fn unwrap_value(value: AttributeValue) -> (inner: Result<Self, AttributeValue>) {
        match value {
            AttributeValue::Expression(inner) => Ok(inner),
            other => Err(other),
        }
    }

    fn unwrap_mut(value: &mut AttributeValue) -> (inner: Option<&mut Self>) {
        match value {
            AttributeValue::Expression(inner) => Some(inner),
            _ => None,
        }
    }
}

impl AttributeType for usize {
    open spec fn wrapped(self) -> AttributeValue {
        AttributeValue::Usize(self)
    }

    open spec fn unwrapped(value: AttributeValue) -> Option<Self> {
        match value {
            AttributeValue::Usize(inner) => Some(inner),
            _ => None,
        }
    }

    proof fn wraps(value: AttributeValue) {
    }

    fn wrap(self) -> (value: AttributeValue) {
        AttributeValue::Usize(self)
    }

    fn unwrap_ref(value: &AttributeValue) -> (inner: Option<&Self>) {
        match value {
            AttributeValue::Usize(inner) => Some(inner),
            _ => None,
        }
    }

    fn unwrap_value(value: AttributeValue) -> (inner: Result<Self, AttributeValue>) {
        match value {
            AttributeValue::Usize(inner) => Ok(inner),
            other => Err(other),
        }
    }

    fn unwrap_mut(value: &mut AttributeValue) -> (inner: Option<&mut Self>) {
        match value {
            AttributeValue::Usize(inner) => Some(inner),
            _ => None,
        }
    }
}

impl AttributeType for isize {
    open spec fn wrapped(self) -> AttributeValue {
        AttributeValue::Isize(self)
    }

    open spec fn unwrapped(value: AttributeValue) -> Option<Self> {
        match value {
            AttributeValue::Isize(inner) => Some(inner),
            _ => None,
        }
    }

    proof fn wraps(value: AttributeValue) {
    }

    fn wrap(self) -> (value: AttributeValue) {
        AttributeValue::Isize(self)
    }

    fn unwrap_ref(value: &AttributeValue) -> (inner: Option<&Self>) {
        match value {
            AttributeValue::Isize(inner) => Some(inner),
            _ => None,
        }
    }

    fn unwrap_value(value: AttributeValue) -> (inner: Result<Self, AttributeValue>) {
        match value {
            AttributeValue::Isize(inner) => Ok(inner),
            other => Err(other),
        }
    }

    fn unwrap_mut(value: &mut AttributeValue) -> (inner: Option<&mut Self>) {
        match value {
            AttributeValue::Isize(inner) => Some(inner),
            _ => None,
        }
    }
}

impl AttributeType for NonZeroU32 {
    open spec fn wrapped(self) -> AttributeValue {
        AttributeValue::NonZeroU32(self)
    }

    open spec fn unwrapped(value: AttributeValue) -> Option<Self> {
        match value {
            AttributeValue::NonZeroU32(inner) => Some(inner),
            _ => None,
        }
    }

    proof fn wraps(value: AttributeValue) {
    }

    fn wrap(self) -> (value: AttributeValue) {
        AttributeValue::NonZeroU32(self)
    }

    fn unwrap_ref(value: &AttributeValue) -> (inner: Option<&Self>) {
        match value {
            AttributeValue::NonZeroU32(inner) => Some(inner),
            _ => None,
        }
    }

    fn unwrap_value(value: AttributeValue) -> (inner: Result<Self, AttributeValue>) {
        match value {
            AttributeValue::NonZeroU32(inner) => Ok(inner),
            other => Err(other),
        }
    }

    fn unwrap_mut(value: &mut AttributeValue) -> (inner: Option<&mut Self>) {
        match value {
            AttributeValue::NonZeroU32(inner) => Some(inner),
            _ => None,
        }
    }
}

impl AttributeType for ArrayAttr<AttributeItem> {
    open spec fn wrapped(self) -> AttributeValue {
        AttributeValue::Array(self)
    }

    open spec fn unwrapped(value: AttributeValue) -> Option<Self> {
        match value {
            AttributeValue::Array(inner) => Some(inner),
            _ => None,
        }
    }

    proof fn wraps(value: AttributeValue) {
    }

    fn wrap(self) -> (value: AttributeValue) {
        AttributeValue::Array(self)
    }

    fn unwrap_ref(value: &AttributeValue) -> (inner: Option<&Self>) {
        match value {
            AttributeValue::Array(inner) => Some(inner),
            _ => None,
        }
    }

    fn unwrap_value(value: AttributeValue) -> (inner: Result<Self, AttributeValue>) {
        match value {
            AttributeValue::Array(inner) => Ok(inner),
            other => Err(other),
        }
    }

    fn unwrap_mut(value: &mut AttributeValue) -> (inner: Option<&mut Self>) {
        match value {
            AttributeValue::Array(inner) => Some(inner),
            _ => None,
        }
    }
}

impl AttributeType for SetAttr<AttributeKey> {
    open spec fn wrapped(self) -> AttributeValue {
        AttributeValue::Keys(self)
    }

    open spec fn unwrapped(value: AttributeValue) -> Option<Self> {
        match value {
            AttributeValue::Keys(inner) => Some(inner),
            _ => None,
        }
    }

    proof fn wraps(value: AttributeValue) {
    }

    fn wrap(self) -> (value: AttributeValue) {
        AttributeValue::Keys(self)
    }

    fn unwrap_ref(value: &AttributeValue) -> (inner: Option<&Self>) {
        match value {
            AttributeValue::Keys(inner) => Some(inner),
            _ => None,
        }
    }

    fn unwrap_value(value: AttributeValue) -> (inner: Result<Self, AttributeValue>) {
        match value {
            AttributeValue::Keys(inner) => Ok(inner),
            other => Err(other),
        }
    }

    fn unwrap_mut(value: &mut AttributeValue) -> (inner: Option<&mut Self>) {
        match value {
            AttributeValue::Keys(inner) => Some(inner),
            _ => None,
        }
    }
}

impl AttributeType for DictAttr<AttributeKey, AttributeItem> {
    open spec fn wrapped(self) -> AttributeValue {
        AttributeValue::Dict(self)
    }

    open spec fn unwrapped(value: AttributeValue) -> Option<Self> {
        match value {
            AttributeValue::Dict(inner) => Some(inner),
            _ => None,
        }
    }

    proof fn wraps(value: AttributeValue) {
    }

    fn wrap(self) -> (value: AttributeValue) {
        AttributeValue::Dict(self)
    }

    fn unwrap_ref(value: &AttributeValue) -> (inner: Option<&Self>) {
        match value {
            AttributeValue::Dict(inner) => Some(inner),
            _ => None,
        }
    }

    fn unwrap_value(value: AttributeValue) -> (inner: Result<Self, AttributeValue>) {
        match value {
            AttributeValue::Dict(inner) => Ok(inner),
            other => Err(other),
        }
    }

    fn unwrap_mut(value: &mut AttributeValue) -> (inner: Option<&mut Self>) {
        match value {
            AttributeValue::Dict(inner) => Some(inner),
            _ => None,
        }
    }
}

impl AttributeValue {
    /// The symbols of the value are known.
    pub open spec fn knowable(&self, interner: &Interner) -> bool {
        match self {
            AttributeValue::Bool(inner) => inner.knowable(interner),
            AttributeValue::U8(inner) => inner.knowable(interner),
            AttributeValue::I8(inner) => inner.knowable(interner),
            AttributeValue::U16(inner) => inner.knowable(interner),
            AttributeValue::I16(inner) => inner.knowable(interner),
            AttributeValue::U32(inner) => inner.knowable(interner),
            AttributeValue::I32(inner) => inner.knowable(interner),
            AttributeValue::U64(inner) => inner.knowable(interner),
            AttributeValue::I64(inner) => inner.knowable(interner),
            AttributeValue::Usize(inner) => inner.knowable(interner),
            AttributeValue::Isize(inner) => inner.knowable(interner),
            AttributeValue::NonZeroU32(inner) => inner.knowable(interner),
            AttributeValue::Symbol(inner) => inner.knowable(interner),
            AttributeValue::Immediate(inner) => inner.knowable(interner),
            AttributeValue::Type(inner) => inner.knowable(interner),
            AttributeValue::CompileUnit(inner) => inner.knowable(interner),
            AttributeValue::Subprogram(inner) => inner.knowable(interner),
            AttributeValue::LocalVariable(inner) => inner.knowable(interner),
            AttributeValue::Expression(inner) => inner.knowable(interner),
            AttributeValue::Array(inner) => inner.all_knowable(interner),
            AttributeValue::Keys(inner) => inner.all_knowable(interner),
            AttributeValue::Dict(inner) => inner.all_knowable(interner),
        }
    }

    /// The value as text.
    pub open spec fn shown(&self, interner: &Interner) -> Seq<char> {
        match self {
            AttributeValue::Bool(inner) => inner.shown(interner),
            AttributeValue::U8(inner) => inner.shown(interner),
            AttributeValue::I8(inner) => inner.shown(interner),
            AttributeValue::U16(inner) => inner.shown(interner),
            AttributeValue::I16(inner) => inner.shown(interner),
            AttributeValue::U32(inner) => inner.shown(interner),
            AttributeValue::I32(inner) => inner.shown(interner),
            AttributeValue::U64(inner) => inner.shown(interner),
            AttributeValue::I64(inner) => inner.shown(interner),
            AttributeValue::Usize(inner) => inner.shown(interner),
            AttributeValue::Isize(inner) => inner.shown(interner),
            AttributeValue::NonZeroU32(inner) => inner.shown(interner),
            AttributeValue::Symbol(inner) => inner.shown(interner),
            AttributeValue::Immediate(inner) => inner.shown(interner),
            AttributeValue::Type(inner) => inner.shown(interner),
            AttributeValue::CompileUnit(inner) => inner.shown(interner),
            AttributeValue::Subprogram(inner) => inner.shown(interner),
            AttributeValue::LocalVariable(inner) => inner.shown(interner),
            AttributeValue::Expression(inner) => inner.shown(interner),
            AttributeValue::Array(inner) => inner.rendered(interner),
            AttributeValue::Keys(inner) => inner.rendered(interner),
            AttributeValue::Dict(inner) => inner.rendered(interner),
        }
    }

    /// The value as text.
    pub fn show(&self, interner: &Interner) -> (out: String)
        requires
            self.knowable(interner),
        ensures
            out@ == self.shown(interner),
    {
        match self {
            AttributeValue::Bool(inner) => inner.show(interner),
            AttributeValue::U8(inner) => inner.show(interner),
            AttributeValue::I8(inner) => inner.show(interner),
            AttributeValue::U16(inner) => inner.show(interner),
            AttributeValue::I16(inner) => inner.show(interner),
            AttributeValue::U32(inner) => inner.show(interner),
            AttributeValue::I32(inner) => inner.show(interner),
            AttributeValue::U64(inner) => inner.show(interner),
            AttributeValue::I64(inner) => inner.show(interner),
            AttributeValue::Usize(inner) => inner.show(interner),
            AttributeValue::Isize(inner) => inner.show(interner),
            AttributeValue::NonZeroU32(inner) => inner.show(interner),
            AttributeValue::Symbol(inner) => inner.show(interner),
            AttributeValue::Immediate(inner) => inner.show(interner),
            AttributeValue::Type(inner) => inner.show(interner),
            AttributeValue::CompileUnit(inner) => inner.show(interner),
            AttributeValue::Subprogram(inner) => inner.show(interner),
            AttributeValue::LocalVariable(inner) => inner.show(interner),
            AttributeValue::Expression(inner) => inner.show(interner),
            AttributeValue::Array(inner) => inner.render(interner),
            AttributeValue::Keys(inner) => inner.render(interner),
            AttributeValue::Dict(inner) => inner.render(interner),
        }
    }

    /// The two values are the same.
    pub open spec fn same(self, other: AttributeValue) -> bool {
        match (self, other) {
            (AttributeValue::Expression(a), AttributeValue::Expression(b)) => a.operations@
                == b.operations@,
            (AttributeValue::Array(a), AttributeValue::Array(b)) => a@ == b@,
            (AttributeValue::Keys(a), AttributeValue::Keys(b)) => a@ == b@,
            (AttributeValue::Dict(a), AttributeValue::Dict(b)) => a@ == b@,
            _ => self == other,
        }
    }

    /// Whether the two values are the same.
    pub fn is_same(&self, other: &AttributeValue) -> (b: bool)
        ensures
            b == (*self).same(*other),
    {
        match (self, other) {
            (AttributeValue::Expression(a), AttributeValue::Expression(b)) => a.is_same(b),
            (AttributeValue::Bool(a), AttributeValue::Bool(b)) => *a == *b,
            (AttributeValue::U8(a), AttributeValue::U8(b)) => *a == *b,
            (AttributeValue::I8(a), AttributeValue::I8(b)) => *a == *b,
            (AttributeValue::U16(a), AttributeValue::U16(b)) => *a == *b,
            (AttributeValue::I16(a), AttributeValue::I16(b)) => *a == *b,
            (AttributeValue::U32(a), AttributeValue::U32(b)) => *a == *b,
            (AttributeValue::I32(a), AttributeValue::I32(b)) => *a == *b,
            (AttributeValue::U64(a), AttributeValue::U64(b)) => *a == *b,
            (AttributeValue::I64(a), AttributeValue::I64(b)) => *a == *b,
            (AttributeValue::Usize(a), AttributeValue::Usize(b)) => *a == *b,
            (AttributeValue::Isize(a), AttributeValue::Isize(b)) => *a == *b,
            (AttributeValue::NonZeroU32(a), AttributeValue::NonZeroU32(b)) => *a == *b,
            (AttributeValue::Symbol(a), AttributeValue::Symbol(b)) => *a == *b,
            (AttributeValue::Immediate(a), AttributeValue::Immediate(b)) => *a == *b,
            (AttributeValue::Type(a), AttributeValue::Type(b)) => a.is_same(b),
            (AttributeValue::CompileUnit(a), AttributeValue::CompileUnit(b)) => *a == *b,
            (AttributeValue::Subprogram(a), AttributeValue::Subprogram(b)) => *a == *b,
            (AttributeValue::LocalVariable(a), AttributeValue::LocalVariable(b)) => a.is_same(b),
            (AttributeValue::Array(a), AttributeValue::Array(b)) => a.is_same(b),
            (AttributeValue::Keys(a), AttributeValue::Keys(b)) => a.is_same(b),
            (AttributeValue::Dict(a), AttributeValue::Dict(b)) => a.is_same(b),
            _ => false,
        }
    }

    /// A copy of the value.
    pub fn clone_value(&self) -> (copy: AttributeValue)
        ensures
            copy.same(*self),
    {
        match self {
            AttributeValue::Bool(inner) => AttributeValue::Bool(*inner),
            AttributeValue::U8(inner) => AttributeValue::U8(*inner),
            AttributeValue::I8(inner) => AttributeValue::I8(*inner),
            AttributeValue::U16(inner) => AttributeValue::U16(*inner),
            AttributeValue::I16(inner) => AttributeValue::I16(*inner),
            AttributeValue::U32(inner) => AttributeValue::U32(*inner),
            AttributeValue::I32(inner) => AttributeValue::I32(*inner),
            AttributeValue::U64(inner) => AttributeValue::U64(*inner),
            AttributeValue::I64(inner) => AttributeValue::I64(*inner),
            AttributeValue::Usize(inner) => AttributeValue::Usize(*inner),
            AttributeValue::Isize(inner) => AttributeValue::Isize(*inner),
            AttributeValue::NonZeroU32(inner) => AttributeValue::NonZeroU32(*inner),
            AttributeValue::Symbol(inner) => AttributeValue::Symbol(*inner),
            AttributeValue::Immediate(inner) => AttributeValue::Immediate(*inner),
            AttributeValue::Type(inner) => AttributeValue::Type(inner.duplicate()),
            AttributeValue::CompileUnit(inner) => AttributeValue::CompileUnit(*inner),
            AttributeValue::Subprogram(inner) => AttributeValue::Subprogram(*inner),
            AttributeValue::LocalVariable(inner) => AttributeValue::LocalVariable(inner.duplicate()),
            AttributeValue::Expression(inner) => AttributeValue::Expression(inner.duplicate()),
            AttributeValue::Array(inner) => AttributeValue::Array(inner.duplicate()),
            AttributeValue::Keys(inner) => AttributeValue::Keys(inner.duplicate()),
            AttributeValue::Dict(inner) => AttributeValue::Dict(inner.duplicate()),
        }
    }

    /// Whether the value has the given type.
    pub fn is<T: AttributeType>(&self) -> (b: bool)
        ensures
            b == (T::unwrapped(*self) is Some),
    {
        T::unwrap_ref(self).is_some()
    }

    /// The value, if it has the given type.
    pub fn downcast_ref<T: AttributeType>(&self) -> (inner: Option<&T>)
        ensures
            match inner {
                Some(inner) => T::unwrapped(*self) == Some(*inner),
                None => T::unwrapped(*self) is None,
            },
    {
        T::unwrap_ref(self)
    }

    /// The value, or the attribute's value if it has another type.
    pub fn downcast<T: AttributeType>(self) -> (inner: Result<T, AttributeValue>)
        ensures
            match inner {
                Ok(inner) => T::unwrapped(self) == Some(inner),
                Err(same) => T::unwrapped(self) is None && same == self,
            },
    {
        T::unwrap_value(self)
    }

    /// The value, if it has the given type, to be changed.
    pub fn downcast_mut<T: AttributeType>(&mut self) -> (inner: Option<&mut T>)
        ensures
            match inner {
                Some(inner) => T::unwrapped(*old(self)) == Some(*inner) && *final(self) == (*final(inner)).wrapped(),
                None => T::unwrapped(*old(self)) is None && *final(self) == *old(self),
            },
    {
        T::unwrap_mut(self)
    }

    /// The value as a truth value: of a constant whether it is not zero.
    pub fn as_bool(&self) -> (b: Option<bool>)
        ensures
            b == match *self {
                AttributeValue::Immediate(imm) => Some(imm.number() != 0),
                AttributeValue::Bool(b) => Some(b),
                _ => None,
            },
    {
        match self {
            AttributeValue::Immediate(imm) => Some(imm.is_not_zero()),
            AttributeValue::Bool(b) => Some(*b),
            _ => None,
        }
    }

    /// The value as a number of 32 bits: of a constant its value, if it fits.
    pub fn as_u32(&self) -> (n: Option<u32>)
        ensures
            n == match *self {
                AttributeValue::Immediate(imm) => if 0 <= imm.number() <= u32::MAX {
                    Some(imm.number() as u32)
                } else {
                    None
                },
                AttributeValue::U32(n) => Some(n),
                _ => None,
            },
    {
        match self {
            AttributeValue::Immediate(imm) => imm.as_u32(),
            AttributeValue::U32(n) => Some(*n),
            _ => None,
        }
    }

    /// The value as a constant.
    pub fn as_immediate(&self) -> (imm: Option<Immediate>)
        ensures
            imm == match *self {
                AttributeValue::Immediate(imm) => Some(imm),
                _ => None,
            },
    {
        match self {
            AttributeValue::Immediate(imm) => Some(*imm),
            _ => None,
        }
    }
}

/// Data that is associated with a name.
#[derive(Debug)]
pub struct Attribute {
    pub name: Symbol,
    pub value: Option<AttributeValue>,
    /// Whether the attribute is a property of the operation itself
    pub intrinsic: bool,
}

/// Two values are both not there, or the same.
pub open spec fn same_values(a: Option<AttributeValue>, b: Option<AttributeValue>) -> bool {
    match (a, b) {
        (Some(a), Some(b)) => a.same(b),
        (None, None) => true,
        _ => false,
    }
}

fn are_same_values(a: &Option<AttributeValue>, b: &Option<AttributeValue>) -> (same: bool)
    ensures
        same == same_values(*a, *b),
{
    match (a, b) {
        (Some(a), Some(b)) => a.is_same(b),
        (None, None) => true,
        _ => false,
    }
}

fn copy_value(value: &Option<AttributeValue>) -> (copy: Option<AttributeValue>)
    ensures
        same_values(copy, *value),
{
    match value {
        Some(value) => Some(value.clone_value()),
        None => None,
    }
}

impl Attribute {
    /// An attribute of the given name and value.
    pub fn new(name: Symbol, value: Option<AttributeValue>) -> (attr: Attribute)
        ensures
            attr == (Attribute { name, value, intrinsic: false }),
    {
        Attribute { name, value, intrinsic: false }
    }

    /// An attribute that is a property of the operation itself.
    pub fn intrinsic(name: Symbol, value: Option<AttributeValue>) -> (attr: Attribute)
        ensures
            attr == (Attribute { name, value, intrinsic: true }),
    {
        Attribute { name, value, intrinsic: true }
    }

    /// The value, if there is one.
    pub fn value(&self) -> (value: Option<&AttributeValue>)
        ensures
            match value {
                Some(value) => self.value == Some(*value),
                None => self.value is None,
            },
    {
        match &self.value {
            Some(value) => Some(value),
            None => None,
        }
    }

    /// The value, if there is one of the given type.
    pub fn value_as<V: AttributeType>(&self) -> (value: Option<&V>)
        ensures
            match value {
                Some(value) => self.value matches Some(v) && V::unwrapped(v) == Some(*value),
                None => self.value matches Some(v) ==> V::unwrapped(v) is None,
            },
    {
        match &self.value {
            Some(value) => value.downcast_ref::<V>(),
            None => None,
        }
    }

    /// A copy of the attribute.
    pub fn duplicate(&self) -> (copy: Attribute)
        ensures
            copy.name == self.name,
            same_values(copy.value, self.value),
            copy.intrinsic == self.intrinsic,
    {
        Attribute { name: self.name, value: copy_value(&self.value), intrinsic: self.intrinsic }
    }
}

/// The attribute that asks for a function to be inlined, given the symbol of its name.
pub fn inline_marker(inline: Symbol) -> (attr: Attribute)
    ensures
        attr == (Attribute { name: inline, value: None, intrinsic: false }),
{
    Attribute { name: inline, value: None, intrinsic: false }
}

/// What an attribute holds besides its name.
#[derive(Debug)]
pub struct AttributeData {
    pub value: Option<AttributeValue>,
    pub intrinsic: bool,
}

/// Attributes, of which no two have the same name. They are kept in the order of their names.
pub struct AttributeSet {
    attrs: SortedMap<Symbol, AttributeData, false>,
}

impl View for AttributeSet {
    type V = Seq<(Symbol, AttributeData)>;

    closed spec fn view(&self) -> Seq<(Symbol, AttributeData)> {
        self.attrs@
    }
}

impl AttributeSet {
    /// The names are in order.
    pub open spec fn wf(&self) -> bool {
        sorted::in_order(self@, false)
    }

    /// The attributes by their names.
    pub open spec fn map(&self) -> Map<Symbol, AttributeData> {
        sorted::map_of(self@)
    }

    /// The value of the named attribute, if it has one.
    pub open spec fn value_at(&self, name: Symbol) -> Option<AttributeValue> {
        if self.map().dom().contains(name) {
            self.map()[name].value
        } else {
            None
        }
    }

    /// No attributes.
    pub fn new() -> (attrs: AttributeSet)
        ensures
            attrs.wf(),
            attrs@ == Seq::<(Symbol, AttributeData)>::empty(),
    {
        AttributeSet { attrs: SortedMap::new() }
    }

    /// How many attributes there are.
    pub fn len(&self) -> (len: usize)
        ensures
            len == self@.len(),
    {
        self.attrs.len()
    }

    /// The attribute at the given place.
    pub fn at(&self, index: usize) -> (attr: (Symbol, &AttributeData))
        requires
            index < self@.len(),
        ensures
            attr.0 == self@[index as int].0,
            *attr.1 == self@[index as int].1,
    {
        self.attrs.at(index)
    }

    /// Adds an attribute, or gives the one of the same name the value.
    pub fn insert(&mut self, name: Symbol, value: Option<AttributeValue>)
        requires
            old(self).wf(),
        ensures
            final(self).wf(),
            final(self).map() == old(self).map().insert(
                name,
                AttributeData {
                    value,
                    intrinsic: old(self).map().dom().contains(name) && old(self).map()[name].intrinsic,
                },
            ),
    {
        self.set(Attribute { name, value, intrinsic: false });
    }

    /// Adds an attribute. If there is one of the same name, it gets the value, and stays
    /// intrinsic or not as it was.
    pub fn set(&mut self, attr: Attribute)
        requires
            old(self).wf(),
        ensures
            final(self).wf(),
            final(self).map() == old(self).map().insert(
                attr.name,
                AttributeData {
                    value: attr.value,
                    intrinsic: if old(self).map().dom().contains(attr.name) {
                        old(self).map()[attr.name].intrinsic
                    } else {
                        attr.intrinsic
                    },
                },
            ),
    {
        let intrinsic = match self.attrs.find(attr.name) {
            Some(at) => self.attrs.at(at).1.intrinsic,
            None => attr.intrinsic,
        };
        let _ = self.attrs.insert(attr.name, AttributeData { value: attr.value, intrinsic });
    }

    /// Marks the named attribute as intrinsic, if it is there.
    pub fn mark_intrinsic(&mut self, name: Symbol)
        requires
            old(self).wf(),
        ensures
            final(self).wf(),
            final(self).map() == if old(self).map().dom().contains(name) {
                old(self).map().insert(
                    name,
                    AttributeData { value: old(self).map()[name].value, intrinsic: true },
                )
            } else {
                old(self).map()
            },
    {
        if let Some(at) = self.attrs.find(name) {
            let data = self.attrs.value_mut(at);
            data.intrinsic = true;
        }
    }

    /// Takes the named attribute out, if it is there.
    pub fn remove(&mut self, name: Symbol)
        requires
            old(self).wf(),
        ensures
            final(self).wf(),
            final(self).map() == old(self).map().remove(name),
    {
        let _ = self.attrs.remove(name);
    }

    /// Whether the named attribute is there.
    pub fn has(&self, name: Symbol) -> (b: bool)
        requires
            self.wf(),
        ensures
            b == self.map().dom().contains(name),
    {
        self.attrs.find(name).is_some()
    }

    /// The value of the named attribute.
    pub fn get_any(&self, name: Symbol) -> (value: Option<&AttributeValue>)
        requires
            self.wf(),
        ensures
            match value {
                Some(value) => self.value_at(name) == Some(*value),
                None => self.value_at(name) is None,
            },
    {
        match self.attrs.find(name) {
            Some(at) => match &self.attrs.at(at).1.value {
                Some(value) => Some(value),
                None => None,
            },
            None => None,
        }
    }

    /// The value of the named attribute, to be changed.
    pub fn get_any_mut(&mut self, name: Symbol) -> (value: Option<&mut AttributeValue>)
        requires
            old(self).wf(),
        ensures
            final(self).wf(),
            match value {
                Some(value) => {
                    &&& old(self).value_at(name) == Some(*value)
                    &&& final(self).map() == old(self).map().insert(
                        name,
                        AttributeData {
                            value: Some(*final(value)),
                            intrinsic: old(self).map()[name].intrinsic,
                        },
                    )
                },
                None => old(self).value_at(name) is None && final(self).map() == old(self).map(),
            },
    {
        match self.attrs.find(name) {
            Some(at) => {
                if self.attrs.at(at).1.value.is_none() {
                    return None;
                }
                let data = self.attrs.value_mut(at);
                match &mut data.value {
                    Some(value) => Some(value),
                    None => None,
                }
            },
            None => None,
        }
    }

    /// The value of the named attribute, if it has the given type.
    pub fn get<V: AttributeType>(&self, name: Symbol) -> (value: Option<&V>)
        requires
            self.wf(),
        ensures
            match value {
                Some(value) => self.value_at(name) matches Some(v) && V::unwrapped(v) == Some(*value),
                None => self.value_at(name) matches Some(v) ==> V::unwrapped(v) is None,
            },
    {
        match self.get_any(name) {
            Some(value) => value.downcast_ref::<V>(),
            None => None,
        }
    }

    /// The value of the named attribute, if it has the given type, to be changed.
    pub fn get_mut<V: AttributeType>(&mut self, name: Symbol) -> (value: Option<&mut V>)
        requires
            old(self).wf(),
        ensures
            final(self).wf(),
            match value {
                Some(value) => {
                    &&& old(self).value_at(name) matches Some(v) && V::unwrapped(v) == Some(*value)
                    &&& final(self).map() == old(self).map().insert(
                        name,
                        AttributeData {
                            value: Some((*final(value)).wrapped()),
                            intrinsic: old(self).map()[name].intrinsic,
                        },
                    )
                },
                None => {
                    &&& old(self).value_at(name) matches Some(v) ==> V::unwrapped(v) is None
                    &&& final(self).map() == old(self).map()
                },
            },
    {
        if let Some(value) = self.get_any(name) {
            if !value.is::<V>() {
                return None;
            }
        }
        match self.get_any_mut(name) {
            Some(value) => value.downcast_mut::<V>(),
            None => None,
        }
    }

    /// The attributes, in the order of their names.
    pub fn iter(&self) -> (attrs: Vec<Attribute>)
        ensures
            attrs@.len() == self@.len(),
            forall|i: int|
                0 <= i < attrs@.len() ==> {
                    &&& (#[trigger] attrs@[i]).name == self@[i].0
                    &&& same_values(attrs@[i].value, self@[i].1.value)
                    &&& attrs@[i].intrinsic == self@[i].1.intrinsic
                },
    {
        let mut attrs: Vec<Attribute> = Vec::new();
        let mut i: usize = 0;
        while i < self.attrs.len()
            invariant
                i <= self@.len(),
                self@ == self.attrs@,
                attrs@.len() == i,
                forall|i: int|
                    0 <= i < attrs@.len() ==> {
                        &&& (#[trigger] attrs@[i]).name == self@[i].0
                        &&& same_values(attrs@[i].value, self@[i].1.value)
                        &&& attrs@[i].intrinsic == self@[i].1.intrinsic
                    },
            decreases self@.len() - i,
        {
            let (name, data) = self.attrs.at(i);
            attrs.push(
                Attribute { name, value: copy_value(&data.value), intrinsic: data.intrinsic },
            );
            i = i + 1;
        }
        attrs
    }

    /// The attributes of a list; of those with the same name the last one counts.
    pub fn from_iter(list: Vec<Attribute>) -> (attrs: AttributeSet)
        ensures
            attrs.wf(),
            attrs.map() == last_of_each(list@),
    {
        let mut list = list;
        let ghost all = list@;
        let mut attrs = SortedMap::<Symbol, AttributeData, false>::new();
        assert(sorted::map_of(attrs@) =~= Map::<Symbol, AttributeData>::empty());
        assert(all.skip(0) == all);
        let mut count: usize = list.len();
        assert(all.take(all.len() as int) == all);
        while count > 0
            invariant
                count == list@.len() <= all.len(),
                list@ == all.take(count as int),
                attrs.wf(),
                sorted::map_of(attrs@) == last_of_each(all.skip(count as int)),
            decreases count,
        {
            let ghost rest = all.skip(count as int);
            let attr = list.pop().unwrap();
            count = count - 1;
            assert(attr == all[count as int]);
            assert(all.take(count + 1).drop_last() == all.take(count as int));
            if attrs.find(attr.name).is_none() {
                let _ = attrs.insert(
                    attr.name,
                    AttributeData { value: attr.value, intrinsic: attr.intrinsic },
                );
            }
            proof {
                assert(all.skip(count as int) == seq![attr] + rest);
                earlier_ones_do_not_count(attr, rest);
            }
        }
        assert(all.skip(0) == all);
        AttributeSet { attrs }
    }

    /// The two sets have attributes of the same names with the same values.
    pub open spec fn same(&self, other: &AttributeSet) -> bool {
        &&& self.map().dom() == other.map().dom()
        &&& forall|name: Symbol| #[trigger]
            self.map().dom().contains(name) ==> same_values(
                self.map()[name].value,
                other.map()[name].value,
            )
    }

    /// Whether the two sets have attributes of the same names with the same values.
    pub fn eq(&self, other: &AttributeSet) -> (b: bool)
        requires
            self.wf(),
            other.wf(),
        ensures
            b == self.same(other),
    {
        if self.attrs.len() != other.attrs.len() {
            proof {
                if self.same(other) {
                    same_names_same_length(self@, other@);
                }
            }
            return false;
        }
        let mut i: usize = 0;
        while i < self.attrs.len()
            invariant
                self.wf(),
                other.wf(),
                self@.len() == other@.len(),
                i <= self@.len(),
                self@ == self.attrs@,
                other@ == other.attrs@,
                forall|j: int|
                    0 <= j < i ==> other.map().dom().contains((#[trigger] self@[j]).0)
                        && same_values(self@[j].1.value, other.map()[self@[j].0].value),
            decreases self@.len() - i,
        {
            let (name, data) = self.attrs.at(i);
            proof {
                sorted::entry_is_held(self@, false, i as int);
            }
            match other.attrs.find(name) {
                None => {
                    return false;
                },
                Some(at) => {
                    if !are_same_values(&data.value, &other.attrs.at(at).1.value) {
                        return false;
                    }
                },
            }
            i = i + 1;
        }
        proof {
            assert forall|name: Symbol| #[trigger] self.map().dom().contains(name) implies other.map().dom().contains(
            name) && same_values(self.map()[name].value, other.map()[name].value) by {
                let j = choose|j: int| 0 <= j < self@.len() && (#[trigger] self@[j]).0 == name;
                sorted::entry_is_held(self@, false, j);
            }
            contained_names_are_all(self@, other@);
            assert(self.map().dom() =~= other.map().dom());
        }
        true
    }
}

/// The attributes of a list, of those with the same name the last one.
pub open spec fn last_of_each(list: Seq<Attribute>) -> Map<Symbol, AttributeData>
    decreases list.len(),
{
    if list.len() == 0 {
        Map::empty()
    } else {
        last_of_each(list.drop_last()).insert(
            list.last().name,
            AttributeData { value: list.last().value, intrinsic: list.last().intrinsic },
        )
    }
}

proof fn earlier_ones_do_not_count(attr: Attribute, rest: Seq<Attribute>)
    ensures
        last_of_each(seq![attr] + rest) == if last_of_each(rest).dom().contains(attr.name) {
            last_of_each(rest)
        } else {
            last_of_each(rest).insert(
                attr.name,
                AttributeData { value: attr.value, intrinsic: attr.intrinsic },
            )
        },
    decreases rest.len(),
{
    let all = seq![attr] + rest;
    if rest.len() == 0 {
        assert(all == seq![attr]);
        assert(all.drop_last() == Seq::<Attribute>::empty());
        assert(last_of_each(all.drop_last()) == Map::<Symbol, AttributeData>::empty());
    } else {
        earlier_ones_do_not_count(attr, rest.drop_last());
        assert(all.drop_last() == seq![attr] + rest.drop_last());
        assert(all.last() == rest.last());
        assert(last_of_each(all) =~= if last_of_each(rest).dom().contains(attr.name) {
            last_of_each(rest)
        } else {
            last_of_each(rest).insert(
                attr.name,
                AttributeData { value: attr.value, intrinsic: attr.intrinsic },
            )
        });
    }
}

/// The names of a list of attributes.
pub open spec fn names(list: Seq<(Symbol, AttributeData)>) -> Seq<Symbol> {
    list.map_values(|entry: (Symbol, AttributeData)| entry.0)
}

proof fn names_are_distinct(list: Seq<(Symbol, AttributeData)>)
    requires
        sorted::in_order(list, false),
    ensures
        names(list).no_duplicates(),
        names(list).to_set() == sorted::map_of(list).dom(),
        names(list).to_set().finite(),
        names(list).to_set().len() == list.len(),
{
    let all = names(list);
    assert forall|i: int, j: int| 0 <= i < all.len() && 0 <= j < all.len() && i != j implies all[i]
        != all[j] by {
        if i < j {
            assert(sorted::before(list[i].0, list[j].0, false));
        } else {
            assert(sorted::before(list[j].0, list[i].0, false));
        }
    }
    all.unique_seq_to_set();
    assert forall|name: Symbol| all.to_set().contains(name) implies #[trigger] sorted::map_of(
        list,
    ).dom().contains(name) by {
        let i = choose|i: int| 0 <= i < all.len() && all[i] == name;
        assert(list[i].0 == name);
    }
    assert forall|name: Symbol| #[trigger] sorted::map_of(list).dom().contains(
        name,
    ) implies all.to_set().contains(name) by {
        let i = choose|i: int| 0 <= i < list.len() && (#[trigger] list[i]).0 == name;
        assert(all[i] == name);
    }
    assert(all.to_set() =~= sorted::map_of(list).dom());
}

proof fn same_names_same_length(
    a: Seq<(Symbol, AttributeData)>,
    b: Seq<(Symbol, AttributeData)>,
)
    requires
        sorted::in_order(a, false),
        sorted::in_order(b, false),
        sorted::map_of(a).dom() == sorted::map_of(b).dom(),
    ensures
        a.len() == b.len(),
{
    names_are_distinct(a);
    names_are_distinct(b);
}

proof fn contained_names_are_all(
    a: Seq<(Symbol, AttributeData)>,
    b: Seq<(Symbol, AttributeData)>,
)
    requires
        sorted::in_order(a, false),
        sorted::in_order(b, false),
        a.len() == b.len(),
        forall|name: Symbol| #[trigger]
            sorted::map_of(a).dom().contains(name) ==> sorted::map_of(b).dom().contains(name),
    ensures
        sorted::map_of(a).dom() == sorted::map_of(b).dom(),
{
    names_are_distinct(a);
    names_are_distinct(b);
    let x = names(a).to_set();
    let y = names(b).to_set();
    assert(x.subset_of(y));
    vstd::set_lib::lemma_subset_equality(x, y);
}

/// What a set attribute holds is what it was set to last, and setting it changes no other.
pub proof fn set_attributes_are_read_back(
    before: Map<Symbol, AttributeData>,
    after: Map<Symbol, AttributeData>,
    name: Symbol,
    data: AttributeData,
    other: Symbol,
)
    requires
        after == before.insert(name, data),
        other != name,
    ensures
        after[name] == data,
        after.dom().contains(other) == before.dom().contains(other),
        after[other] == before[other],
        after.remove(name) == before.remove(name),
{
    assert(after.remove(name) =~= before.remove(name));
}

/// A list of values.
#[derive(Debug)]
pub struct ArrayAttr<T> {
    values: Vec<T>,
}

impl<T> View for ArrayAttr<T> {
    type V = Seq<T>;

    closed spec fn view(&self) -> Seq<T> {
        self.values@
    }
}

impl<T> ArrayAttr<T> {
    /// No values.
    pub fn new() -> (array: Self)
        ensures
            array@ == Seq::<T>::empty(),
    {
        ArrayAttr { values: Vec::new() }
    }

    /// The given values.
    pub fn from_iter(values: Vec<T>) -> (array: Self)
        ensures
            array@ == values@,
    {
        ArrayAttr { values }
    }

    /// Whether there are no values.
    pub fn is_empty(&self) -> (b: bool)
        ensures
            b == (self@.len() == 0),
    {
        self.values.len() == 0
    }

    /// How many values there are.
    pub fn len(&self) -> (len: usize)
        ensures
            len == self@.len(),
    {
        self.values.len()
    }

    /// The values.
    pub fn iter(&self) -> (values: &Vec<T>)
        ensures
            values@ == self@,
    {
        &self.values
    }

    /// Appends a value.
    pub fn push(&mut self, value: T)
        ensures
            final(self)@ == old(self)@.push(value),
    {
        self.values.push(value);
    }

    /// Takes the value at the given place out.
    pub fn remove(&mut self, index: usize) -> (value: T)
        requires
            index < old(self)@.len(),
        ensures
            value == old(self)@[index as int],
            final(self)@ == old(self)@.remove(index as int),
    {
        self.values.remove(index)
    }
}

impl<T: Eq> ArrayAttr<T> {
    /// Whether a value is there that is equal to the given one, by the equality of the type.
    pub fn contains(&self, value: &T) -> (b: bool)
        ensures
            T::obeys_eq_spec() ==> b == exists|i: int|
                0 <= i < self@.len() && (#[trigger] self@[i]).eq_spec(value),
    {
        let mut i: usize = 0;
        while i < self.values.len()
            invariant
                i <= self.values@.len(),
                self@ == self.values@,
                T::obeys_eq_spec() ==> forall|j: int|
                    0 <= j < i ==> !(#[trigger] self@[j]).eq_spec(value),
            decreases self.values@.len() - i,
        {
            if self.values[i] == *value {
                return true;
            }
            i = i + 1;
        }
        false
    }
}

/// The texts of values.
pub open spec fn shown_all<T: Rendered>(values: Seq<T>, interner: &Interner) -> Seq<Seq<char>> {
    values.map_values(|value: T| value.shown(interner))
}

impl<T: Rendered> ArrayAttr<T> {
    /// The symbols of the values are known.
    pub open spec fn all_knowable(&self, interner: &Interner) -> bool {
        forall|i: int| 0 <= i < self@.len() ==> (#[trigger] self@[i]).knowable(interner)
    }

    /// The values as text, in square brackets.
    pub open spec fn rendered(&self, interner: &Interner) -> Seq<char> {
        "["@ + text::joined(shown_all(self@, interner), ", "@) + "]"@
    }

    /// The values as text, in square brackets.
    pub fn render(&self, interner: &Interner) -> (out: String)
        requires
            self.all_knowable(interner),
        ensures
            out@ == self.rendered(interner),
    {
        let mut parts: Vec<String> = Vec::new();
        let ghost all = shown_all(self@, interner);
        let mut i: usize = 0;
        assert(text::texts(parts@) == all.take(0));
        while i < self.values.len()
            invariant
                i <= self.values@.len(),
                self@ == self.values@,
                forall|i: int| 0 <= i < self@.len() ==> (#[trigger] self@[i]).knowable(interner),
                all == shown_all(self@, interner),
                text::texts(parts@) == all.take(i as int),
            decreases self.values@.len() - i,
        {
            let ghost before = parts@;
            assert(self@[i as int].knowable(interner));
            let part = self.values[i].show(interner);
            parts.push(part);
            assert(part@ == all[i as int]);
            assert(text::texts(parts@) == text::texts(before).push(part@));
            assert(all.take(i + 1) == all.take(i as int).push(all[i as int]));
            i = i + 1;
        }
        assert(all.take(all.len() as int) == all);
        let mut out = String::new();
        out.append("[");
        out.append(text::join(&parts, ", ").as_str());
        out.append("]");
        assert(out@ == "["@ + text::joined(all, ", "@) + "]"@);
        out
    }
}

impl ArrayAttr<AttributeItem> {
    /// Whether two lists hold the same values.
    pub fn is_same(&self, other: &Self) -> (same: bool)
        ensures
            same == (self@ == other@),
    {
        if self.values.len() != other.values.len() {
            return false;
        }
        let mut i: usize = 0;
        while i < self.values.len()
            invariant
                i <= self.values@.len(),
                self.values@.len() == other.values@.len(),
                self@ == self.values@,
                other@ == other.values@,
                forall|j: int| 0 <= j < i ==> self@[j] == other@[j],
            decreases self.values@.len() - i,
        {
            if !self.values[i].is_same(&other.values[i]) {
                assert(self@[i as int] != other@[i as int]);
                return false;
            }
            i = i + 1;
        }
        assert(self@ =~= other@);
        true
    }
}

impl<T: Duplicate> ArrayAttr<T> {
    /// A list of the same values.
    pub fn duplicate(&self) -> (copy: Self)
        ensures
            copy@ == self@,
    {
        let mut values: Vec<T> = Vec::new();
        let mut i: usize = 0;
        while i < self.values.len()
            invariant
                i <= self.values@.len(),
                values@ == self.values@.take(i as int),
            decreases self.values@.len() - i,
        {
            values.push(self.values[i].duplicate());
            i = i + 1;
            assert(values@ =~= self.values@.take(i as int));
        }
        assert(values@ =~= self.values@);
        ArrayAttr { values }
    }
}

impl<T> Default for ArrayAttr<T> {
    fn default() -> (array: Self)
        ensures
            array@ == Seq::<T>::empty(),
    {
        Self::new()
    }
}

/// Values, of which no two are the same. They are kept in descending order.
#[derive(Debug)]
pub struct SetAttr<K: OrderedKey> {
    values: SortedMap<K, (), true>,
}

impl<K: OrderedKey> View for SetAttr<K> {
    type V = Seq<(K, ())>;

    closed spec fn view(&self) -> Seq<(K, ())> {
        self.values@
    }
}

impl<K: OrderedKey> SetAttr<K> {
    /// The values are in descending order.
    pub open spec fn wf(&self) -> bool {
        sorted::in_order(self@, true)
    }

    /// The values.
    pub open spec fn set_view(&self) -> Set<K> {
        sorted::map_of(self@).dom()
    }

    /// No values.
    pub fn new() -> (values: Self)
        ensures
            values.wf(),
            values@ == Seq::<(K, ())>::empty(),
    {
        SetAttr { values: SortedMap::new() }
    }

    /// Adds a value, and says whether it was not there.
    pub fn insert(&mut self, key: K) -> (added: bool)
        requires
            old(self).wf(),
        ensures
            final(self).wf(),
            final(self).set_view() == old(self).set_view().insert(key),
            added == !old(self).set_view().contains(key),
    {
        self.values.insert(key, ())
    }

    /// Whether the value is there.
    pub fn contains(&self, key: &K) -> (b: bool)
        requires
            self.wf(),
        ensures
            b == self.set_view().contains(*key),
    {
        self.values.find(*key).is_some()
    }

    /// The values, in descending order.
    pub fn iter(&self) -> (values: Vec<K>)
        ensures
            values@ == self@.map_values(|entry: (K, ())| entry.0),
    {
        let ghost all = self@.map_values(|entry: (K, ())| entry.0);
        let mut values: Vec<K> = Vec::new();
        let mut i: usize = 0;
        while i < self.values.len()
            invariant
                i <= self@.len(),
                self@ == self.values@,
                all == self@.map_values(|entry: (K, ())| entry.0),
                values@ == all.take(i as int),
            decreases self@.len() - i,
        {
            values.push(self.values.at(i).0);
            assert(all.take(i + 1) == all.take(i as int).push(all[i as int]));
            i = i + 1;
        }
        assert(all.take(all.len() as int) == all);
        values
    }

    /// Takes a value out, if it is there.
    pub fn remove(&mut self, key: &K) -> (removed: Option<K>)
        requires
            old(self).wf(),
        ensures
            final(self).wf(),
            final(self).set_view() == old(self).set_view().remove(*key),
            removed == if old(self).set_view().contains(*key) {
                Some(*key)
            } else {
                None
            },
    {
        match self.values.remove(*key) {
            Some(_) => Some(*key),
            None => None,
        }
    }
}

impl<K: OrderedKey + Rendered> SetAttr<K> {
    /// The symbols of the values are known.
    pub open spec fn all_knowable(&self, interner: &Interner) -> bool {
        forall|i: int| 0 <= i < self@.len() ==> (#[trigger] self@[i]).0.knowable(interner)
    }

    /// The values as text, in braces.
    pub open spec fn rendered(&self, interner: &Interner) -> Seq<char> {
        "{"@ + text::joined(
            self@.map_values(|entry: (K, ())| entry.0.shown(interner)),
            ", "@,
        ) + "}"@
    }

    /// The values as text, in braces.
    pub fn render(&self, interner: &Interner) -> (out: String)
        requires
            self.all_knowable(interner),
        ensures
            out@ == self.rendered(interner),
    {
        let mut parts: Vec<String> = Vec::new();
        let ghost all = self@.map_values(|entry: (K, ())| entry.0.shown(interner));
        let mut i: usize = 0;
        assert(text::texts(parts@) == all.take(0));
        while i < self.values.len()
            invariant
                i <= self@.len(),
                self@ == self.values@,
                forall|i: int| 0 <= i < self@.len() ==> (#[trigger] self@[i]).0.knowable(interner),
                all == self@.map_values(|entry: (K, ())| entry.0.shown(interner)),
                text::texts(parts@) == all.take(i as int),
            decreases self@.len() - i,
        {
            let ghost before = parts@;
            assert(self@[i as int].0.knowable(interner));
            let part = self.values.at(i).0.show(interner);
            parts.push(part);
            assert(part@ == all[i as int]);
            assert(text::texts(parts@) == text::texts(before).push(part@));
            assert(all.take(i + 1) == all.take(i as int).push(all[i as int]));
            i = i + 1;
        }
        assert(all.take(all.len() as int) == all);
        let mut out = String::new();
        out.append("{");
        out.append(text::join(&parts, ", ").as_str());
        out.append("}");
        assert(out@ == "{"@ + text::joined(all, ", "@) + "}"@);
        out
    }
}

impl SetAttr<AttributeKey> {
    /// Whether two sets hold the same.
    pub fn is_same(&self, other: &Self) -> (same: bool)
        ensures
            same == (self@ == other@),
    {
        if self.values.len() != other.values.len() {
            return false;
        }
        let mut i: usize = 0;
        while i < self.values.len()
            invariant
                i <= self@.len(),
                self@ == self.values@,
                other@ == other.values@,
                self@.len() == other@.len(),
                forall|j: int| 0 <= j < i ==> self@[j] == other@[j],
            decreases self@.len() - i,
        {
            let a = self.values.at(i);
            let b = other.values.at(i);
            if a.0 != b.0 {
                assert(self@[i as int] != other@[i as int]);
                return false;
            }
            i = i + 1;
        }
        assert(self@ =~= other@);
        true
    }

    /// A set of the same values.
    pub fn duplicate(&self) -> (copy: Self)
        ensures
            copy@ == self@,
    {
        SetAttr { values: self.values.duplicate() }
    }
}

impl<K: OrderedKey> Default for SetAttr<K> {
    fn default() -> (values: Self)
        ensures
            values.wf(),
            values@ == Seq::<(K, ())>::empty(),
    {
        Self::new()
    }
}

/// Values with keys, of which no two are the same. They are kept in the descending order of the
/// keys.
#[derive(Debug)]
pub struct DictAttr<K: OrderedKey, V> {
    values: SortedMap<K, V, true>,
}

impl<K: OrderedKey, V> View for DictAttr<K, V> {
    type V = Seq<(K, V)>;

    closed spec fn view(&self) -> Seq<(K, V)> {
        self.values@
    }
}

impl<K: OrderedKey, V> DictAttr<K, V> {
    /// The keys are in descending order.
    pub open spec fn wf(&self) -> bool {
        sorted::in_order(self@, true)
    }

    /// The values by their keys.
    pub open spec fn map(&self) -> Map<K, V> {
        sorted::map_of(self@)
    }

    /// No values.
    pub fn new() -> (dict: Self)
        ensures
            dict.wf(),
            dict@ == Seq::<(K, V)>::empty(),
    {
        DictAttr { values: SortedMap::new() }
    }

    /// Adds a value, or replaces the one with the same key.
    pub fn insert(&mut self, key: K, value: V)
        requires
            old(self).wf(),
        ensures
            final(self).wf(),
            final(self).map() == old(self).map().insert(key, value),
    {
        let _ = self.values.insert(key, value);
    }

    /// Whether there is a value with the given key.
    pub fn contains_key(&self, key: &K) -> (b: bool)
        requires
            self.wf(),
        ensures
            b == self.map().dom().contains(*key),
    {
        self.values.find(*key).is_some()
    }

    /// The value with the given key.
    pub fn get(&self, key: &K) -> (value: Option<&V>)
        requires
            self.wf(),
        ensures
            match value {
                Some(value) => self.map().dom().contains(*key) && *value == self.map()[*key],
                None => !self.map().dom().contains(*key),
            },
    {
        match self.values.find(*key) {
            Some(at) => Some(self.values.at(at).1),
            None => None,
        }
    }

    /// Takes the value with the given key out.
    pub fn remove(&mut self, key: &K) -> (value: Option<V>)
        requires
            old(self).wf(),
        ensures
            final(self).wf(),
            final(self).map() == old(self).map().remove(*key),
            match value {
                Some(value) => old(self).map().dom().contains(*key) && value == old(self).map()[*key],
                None => !old(self).map().dom().contains(*key),
            },
    {
        self.values.remove(*key)
    }

    /// The keys, in descending order.
    pub fn iter(&self) -> (entries: Vec<(K, &V)>)
        ensures
            entries@.len() == self@.len(),
            forall|i: int|
                0 <= i < self@.len() ==> (#[trigger] entries@[i]).0 == self@[i].0
                    && *entries@[i].1 == self@[i].1,
    {
        let mut entries: Vec<(K, &V)> = Vec::new();
        let mut i: usize = 0;
        while i < self.values.len()
            invariant
                i <= self@.len(),
                self@ == self.values@,
                entries@.len() == i,
                forall|j: int|
                    0 <= j < i ==> (#[trigger] entries@[j]).0 == self@[j].0 && *entries@[j].1
                        == self@[j].1,
            decreases self@.len() - i,
        {
            entries.push(self.values.at(i));
            i = i + 1;
        }
        entries
    }
}

impl<K: OrderedKey + Rendered, V: Rendered> DictAttr<K, V> {
    /// The symbols of the keys and the values are known.
    pub open spec fn all_knowable(&self, interner: &Interner) -> bool {
        forall|i: int|
            0 <= i < self@.len() ==> (#[trigger] self@[i]).0.knowable(interner)
                && self@[i].1.knowable(interner)
    }

    /// The entries as text, in braces.
    pub open spec fn rendered(&self, interner: &Interner) -> Seq<char> {
        "{"@ + text::joined(
            self@.map_values(
                |entry: (K, V)| entry.0.shown(interner) + " = "@ + entry.1.shown(interner),
            ),
            ", "@,
        ) + "}"@
    }

    /// The entries as text, in braces.
    pub fn render(&self, interner: &Interner) -> (out: String)
        requires
            self.all_knowable(interner),
        ensures
            out@ == self.rendered(interner),
    {
        let mut parts: Vec<String> = Vec::new();
        let ghost all = self@.map_values(
            |entry: (K, V)| entry.0.shown(interner) + " = "@ + entry.1.shown(interner),
        );
        let mut i: usize = 0;
        assert(text::texts(parts@) == all.take(0));
        while i < self.values.len()
            invariant
                i <= self@.len(),
                self@ == self.values@,
                forall|i: int|
                    0 <= i < self@.len() ==> (#[trigger] self@[i]).0.knowable(interner)
                        && self@[i].1.knowable(interner),
                all == self@.map_values(
                    |entry: (K, V)| entry.0.shown(interner) + " = "@ + entry.1.shown(interner),
                ),
                text::texts(parts@) == all.take(i as int),
            decreases self@.len() - i,
        {
            let ghost before = parts@;
            assert(self@[i as int].0.knowable(interner));
            let (key, value) = self.values.at(i);
            let mut part = key.show(interner);
            part.append(" = ");
            part.append(value.show(interner).as_str());
            parts.push(part);
            assert(part@ == all[i as int]);
            assert(text::texts(parts@) == text::texts(before).push(part@));
            assert(all.take(i + 1) == all.take(i as int).push(all[i as int]));
            i = i + 1;
        }
        assert(all.take(all.len() as int) == all);
        let mut out = String::new();
        out.append("{");
        out.append(text::join(&parts, ", ").as_str());
        out.append("}");
        assert(out@ == "{"@ + text::joined(all, ", "@) + "}"@);
        out
    }
}

impl DictAttr<AttributeKey, AttributeItem> {
    /// Whether two dictionaries hold the same.
    pub fn is_same(&self, other: &Self) -> (same: bool)
        ensures
            same == (self@ == other@),
    {
        if self.values.len() != other.values.len() {
            return false;
        }
        let mut i: usize = 0;
        while i < self.values.len()
            invariant
                i <= self@.len(),
                self@ == self.values@,
                other@ == other.values@,
                self@.len() == other@.len(),
                forall|j: int| 0 <= j < i ==> self@[j] == other@[j],
            decreases self@.len() - i,
        {
            let a = self.values.at(i);
            let b = other.values.at(i);
            if a.0 != b.0 || !a.1.is_same(b.1) {
                assert(self@[i as int] != other@[i as int]);
                return false;
            }
            i = i + 1;
        }
        assert(self@ =~= other@);
        true
    }

    /// A dictionary of the same entries.
    pub fn duplicate(&self) -> (copy: Self)
        ensures
            copy@ == self@,
    {
        DictAttr { values: self.values.deep_copy() }
    }
}

impl<K: OrderedKey, V> Default for DictAttr<K, V> {
    fn default() -> (dict: Self)
        ensures
            dict.wf(),
            dict@ == Seq::<(K, V)>::empty(),
    {
        Self::new()
    }
}

} // verus!

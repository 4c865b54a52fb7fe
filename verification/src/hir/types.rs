//! Types of values, and their text.
use vstd::prelude::*;
use vstd::string::*;
use crate::text::{self, push_decimal};

verus! {

/// What the address of a pointer counts.
#[derive(Clone, Copy, PartialEq, Eq, Debug, Hash, Structural)]
pub enum AddressSpace {
    Byte,
    Element,
}

impl AddressSpace {
    /// The name of the address space.
    pub open spec fn label(self) -> Seq<char> {
        match self {
            AddressSpace::Byte => "byte"@,
            AddressSpace::Element => "element"@,
        }
    }

    /// The name of the address space.
    pub fn name(&self) -> (name: &'static str)
        ensures
            name@ == self.label(),
    {
        match self {
            AddressSpace::Byte => "byte",
            AddressSpace::Element => "element",
        }
    }
}

/// How a function is called.
#[derive(Clone, Copy, PartialEq, Eq, Debug, Hash, Structural)]
pub enum CallConv {
    Fast,
    SystemV,
    Wasm,
    /// An export of a component
    CanonLift,
    CanonLower,
    Kernel,
}

impl CallConv {
    /// The name of the convention.
    pub open spec fn label(self) -> Seq<char> {
        match self {
            CallConv::Fast => "fast"@,
            CallConv::SystemV => "C"@,
            CallConv::Wasm => "wasm"@,
            CallConv::CanonLift => "canon-lift"@,
            CallConv::CanonLower => "canon-lower"@,
            CallConv::Kernel => "kernel"@,
        }
    }

    /// The name of the convention.
    pub fn name(&self) -> (name: &'static str)
        ensures
            name@ == self.label(),
    {
        match self {
            CallConv::Fast => "fast",
            CallConv::SystemV => "C",
            CallConv::Wasm => "wasm",
            CallConv::CanonLift => "canon-lift",
            CallConv::CanonLower => "canon-lower",
            CallConv::Kernel => "kernel",
        }
    }
}

/// How the fields of a struct are laid out.
#[derive(Clone, Copy, PartialEq, Eq, Debug, Hash, Structural)]
pub enum TypeRepr {
    Default,
    /// At least the given alignment, which is not zero
    Align(u16),
    /// At most the given alignment for the fields, which is not zero
    Packed(u16),
    /// As the only field that is not empty
    Transparent,
    BigEndian,
}

impl TypeRepr {
    /// The layout after `struct`; nothing for the default.
    pub open spec fn shown(self) -> Seq<char> {
        match self {
            TypeRepr::Default => Seq::empty(),
            TypeRepr::Align(n) => "#[repr(align("@ + text::decimal(n as nat) + "))] "@,
            TypeRepr::Packed(n) => "#[repr(packed("@ + text::decimal(n as nat) + "))] "@,
            TypeRepr::Transparent => "#[repr(transparent)] "@,
            TypeRepr::BigEndian => "#[repr(big-endian)] "@,
        }
    }

    fn show_on(&self, out: &mut String)
        ensures
            final(out)@ == old(out)@ + self.shown(),
    {
        match self {
            TypeRepr::Default => {},
            TypeRepr::Align(n) => {
                out.append("#[repr(align(");
                push_decimal(out, *n as u64);
                out.append("))] ");
            },
            TypeRepr::Packed(n) => {
                out.append("#[repr(packed(");
                push_decimal(out, *n as u64);
                out.append("))] ");
            },
            TypeRepr::Transparent => out.append("#[repr(transparent)] "),
            TypeRepr::BigEndian => out.append("#[repr(big-endian)] "),
        }
        assert(out@ =~= old(out)@ + self.shown());
    }
}

/// The type of a value.
#[derive(PartialEq, Eq, Debug, Hash)]
pub enum Type {
    Unknown,
    /// The type of what never returns
    Never,
    I1,
    I8,
    U8,
    I16,
    U16,
    I32,
    U32,
    I64,
    U64,
    I128,
    U128,
    U256,
    F64,
    Felt,
    Ptr { space: AddressSpace, pointee: Box<Type> },
    Struct { repr: TypeRepr, fields: TypeList },
    Array { element: Box<Type>, len: usize },
    /// A list whose length is not known
    List(Box<Type>),
    Function { cc: CallConv, params: TypeList, results: TypeList },
}

/// Types, one after the other.
#[derive(PartialEq, Eq, Debug, Hash)]
pub enum TypeList {
    Nil,
    Cons(Box<Type>, Box<TypeList>),
}

impl View for TypeList {
    type V = Seq<Type>;

    open spec fn view(&self) -> Seq<Type>
        decreases self,
    {
        match self {
            TypeList::Nil => Seq::empty(),
            TypeList::Cons(first, rest) => seq![**first] + (**rest).view(),
        }
    }
}

impl TypeList {
    /// The given types.
    pub fn of(types: Vec<Type>) -> (list: Self)
        ensures
            list@ == types@,
    {
        let ghost all = types@;
        let mut types = types;
        let mut list = TypeList::Nil;
        assert(types@ + list@ =~= all);
        while types.len() > 0
            invariant
                types@ + list@ == all,
            decreases types@.len(),
        {
            let ghost before = types@;
            let ghost behind = list@;
            if let Some(last) = types.pop() {
                list = TypeList::Cons(Box::new(last), Box::new(list));
                assert(list@ == seq![last] + behind);
                assert(types@ + list@ =~= before + behind);
            }
        }
        assert(list@ =~= all);
        list
    }

    /// The types with commas between them.
    pub open spec fn rendered(self) -> Seq<char>
        decreases self,
    {
        match self {
            TypeList::Nil => Seq::empty(),
            TypeList::Cons(first, rest) => match *rest {
                TypeList::Nil => first.rendered(),
                _ => first.rendered() + ", "@ + rest.rendered(),
            },
        }
    }

    fn show_on(&self, out: &mut String)
        ensures
            final(out)@ == old(out)@ + self.rendered(),
        decreases self,
    {
        if let TypeList::Cons(first, rest) = self {
            first.show_on(out);
            if let TypeList::Cons(_, _) = **rest {
                out.append(", ");
                rest.show_on(out);
            }
        }
        assert(out@ =~= old(out)@ + self.rendered());
    }

    /// A list of the same types.
    pub fn duplicate(&self) -> (copy: Self)
        ensures
            copy == *self,
        decreases self,
    {
        match self {
            TypeList::Nil => TypeList::Nil,
            TypeList::Cons(first, rest) => TypeList::Cons(
                Box::new(first.duplicate()),
                Box::new(rest.duplicate()),
            ),
        }
    }

    /// Whether the two lists are the same.
    pub fn is_same(&self, other: &Self) -> (b: bool)
        ensures
            b == (*self == *other),
        decreases self,
    {
        match (self, other) {
            (TypeList::Nil, TypeList::Nil) => true,
            (TypeList::Cons(a, c), TypeList::Cons(b, d)) => a.is_same(b) && c.is_same(d),
            _ => false,
        }
    }
}

impl Type {
    /// The type as text, on one line. How a struct that is wider than a page is broken into lines is
    /// left to who lays out the page.
    pub open spec fn rendered(self) -> Seq<char>
        decreases self,
    {
        match self {
            Type::Unknown => "?"@,
            Type::Never => "!"@,
            Type::I1 => "i1"@,
            Type::I8 => "i8"@,
            Type::U8 => "u8"@,
            Type::I16 => "i16"@,
            Type::U16 => "u16"@,
            Type::I32 => "i32"@,
            Type::U32 => "u32"@,
            Type::I64 => "i64"@,
            Type::U64 => "u64"@,
            Type::I128 => "i128"@,
            Type::U128 => "u128"@,
            Type::U256 => "u256"@,
            Type::F64 => "f64"@,
            Type::Felt => "felt"@,
            Type::Ptr { space, pointee } => "ptr<"@ + space.label() + ", "@ + pointee.rendered()
                + ">"@,
            Type::Struct { repr, fields } => "struct "@ + repr.shown() + "{"@ + fields.rendered()
                + "}"@,
            Type::Array { element, len } => "["@ + element.rendered() + "; "@ + text::decimal(
                len as nat,
            ) + "]"@,
            Type::List(element) => "list<"@ + element.rendered() + ">"@,
            Type::Function { cc, params, results } => "extern \""@ + cc.label() + "\" fn("@
                + params.rendered() + ")"@ + (match results {
                TypeList::Nil => Seq::empty(),
                _ => " -> "@ + results.rendered(),
            }),
        }
    }

    fn show_on(&self, out: &mut String)
        ensures
            final(out)@ == old(out)@ + self.rendered(),
        decreases self,
    {
        match self {
            Type::Unknown => out.append("?"),
            Type::Never => out.append("!"),
            Type::I1 => out.append("i1"),
            Type::I8 => out.append("i8"),
            Type::U8 => out.append("u8"),
            Type::I16 => out.append("i16"),
            Type::U16 => out.append("u16"),
            Type::I32 => out.append("i32"),
            Type::U32 => out.append("u32"),
            Type::I64 => out.append("i64"),
            Type::U64 => out.append("u64"),
            Type::I128 => out.append("i128"),
            Type::U128 => out.append("u128"),
            Type::U256 => out.append("u256"),
            Type::F64 => out.append("f64"),
            Type::Felt => out.append("felt"),
            Type::Ptr { space, pointee } => {
                out.append("ptr<");
                out.append(space.name());
                out.append(", ");
                pointee.show_on(out);
                out.append(">");
            },
            Type::Struct { repr, fields } => {
                out.append("struct ");
                repr.show_on(out);
                out.append("{");
                fields.show_on(out);
                out.append("}");
            },
            Type::Array { element, len } => {
                out.append("[");
                element.show_on(out);
                out.append("; ");
                push_decimal(out, *len as u64);
                out.append("]");
            },
            Type::List(element) => {
                out.append("list<");
                element.show_on(out);
                out.append(">");
            },
            Type::Function { cc, params, results } => {
                out.append("extern \"");
                out.append(cc.name());
                out.append("\" fn(");
                params.show_on(out);
                out.append(")");
                if let TypeList::Cons(_, _) = results {
                    out.append(" -> ");
                    results.show_on(out);
                }
            },
        }
        assert(out@ =~= old(out)@ + self.rendered());
    }

    /// The type as text.
    pub fn render(&self) -> (out: String)
        ensures
            out@ == self.rendered(),
    {
        let mut out = String::new();
        self.show_on(&mut out);
        assert(out@ =~= self.rendered());
        out
    }

    /// The same type.
    pub fn duplicate(&self) -> (copy: Self)
        ensures
            copy == *self,
        decreases self,
    {
        match self {
            Type::Unknown => Type::Unknown,
            Type::Never => Type::Never,
            Type::I1 => Type::I1,
            Type::I8 => Type::I8,
            Type::U8 => Type::U8,
            Type::I16 => Type::I16,
            Type::U16 => Type::U16,
            Type::I32 => Type::I32,
            Type::U32 => Type::U32,
            Type::I64 => Type::I64,
            Type::U64 => Type::U64,
            Type::I128 => Type::I128,
            Type::U128 => Type::U128,
            Type::U256 => Type::U256,
            Type::F64 => Type::F64,
            Type::Felt => Type::Felt,
            Type::Ptr { space, pointee } => Type::Ptr {
                space: *space,
                pointee: Box::new(pointee.duplicate()),
            },
            Type::Struct { repr, fields } => Type::Struct {
                repr: *repr,
                fields: fields.duplicate(),
            },
            Type::Array { element, len } => Type::Array {
                element: Box::new(element.duplicate()),
                len: *len,
            },
            Type::List(element) => Type::List(Box::new(element.duplicate())),
            Type::Function { cc, params, results } => Type::Function {
                cc: *cc,
                params: params.duplicate(),
                results: results.duplicate(),
            },
        }
    }

    /// Whether the two types are the same.
    pub fn is_same(&self, other: &Self) -> (b: bool)
        ensures
            b == (*self == *other),
        decreases self,
    {
        match (self, other) {
            (Type::Unknown, Type::Unknown) => true,
            (Type::Never, Type::Never) => true,
            (Type::I1, Type::I1) => true,
            (Type::I8, Type::I8) => true,
            (Type::U8, Type::U8) => true,
            (Type::I16, Type::I16) => true,
            (Type::U16, Type::U16) => true,
            (Type::I32, Type::I32) => true,
            (Type::U32, Type::U32) => true,
            (Type::I64, Type::I64) => true,
            (Type::U64, Type::U64) => true,
            (Type::I128, Type::I128) => true,
            (Type::U128, Type::U128) => true,
            (Type::U256, Type::U256) => true,
            (Type::F64, Type::F64) => true,
            (Type::Felt, Type::Felt) => true,
            (
                Type::Ptr { space: a, pointee: c },
                Type::Ptr { space: b, pointee: d },
            ) => *a == *b && c.is_same(d),
            (
                Type::Struct { repr: a, fields: c },
                Type::Struct { repr: b, fields: d },
            ) => *a == *b && c.is_same(d),
            (
                Type::Array { element: a, len: c },
                Type::Array { element: b, len: d },
            ) => *c == *d && a.is_same(b),
            (Type::List(a), Type::List(b)) => a.is_same(b),
            (
                Type::Function { cc: a, params: c, results: e },
                Type::Function { cc: b, params: d, results: f },
            ) => *a == *b && c.is_same(d) && e.is_same(f),
            _ => false,
        }
    }
}

impl Clone for Type {
    fn clone(&self) -> (copy: Self)
        ensures
            copy == *self,
    {
        self.duplicate()
    }
}

} // verus!

//! The types in the debug information of a package.
use vstd::prelude::*;
use vstd::string::*;
use crate::text::{self, chars_of, holds_at, push_decimal, same_text};

verus! {

/// Types that debuggers know.
#[derive(Clone, Copy, PartialEq, Eq, Debug, Structural)]
pub enum DebugPrimitiveType {
    Void,
    Bool,
    I8,
    U8,
    I16,
    U16,
    I32,
    U32,
    I64,
    U64,
    I128,
    U128,
    F32,
    F64,
    Felt,
    Word,
}

impl DebugPrimitiveType {
    /// How many bytes a value takes.
    pub open spec fn bytes(self) -> u32 {
        match self {
            DebugPrimitiveType::Void => 0,
            DebugPrimitiveType::Bool | DebugPrimitiveType::I8 | DebugPrimitiveType::U8 => 1,
            DebugPrimitiveType::I16 | DebugPrimitiveType::U16 => 2,
            DebugPrimitiveType::I32 | DebugPrimitiveType::U32 | DebugPrimitiveType::F32 => 4,
            DebugPrimitiveType::I64 | DebugPrimitiveType::U64 | DebugPrimitiveType::F64
            | DebugPrimitiveType::Felt => 8,
            DebugPrimitiveType::I128 | DebugPrimitiveType::U128 => 16,
            DebugPrimitiveType::Word => 32,
        }
    }

    /// How many bytes a value takes.
    pub fn size_in_bytes(&self) -> (n: u32)
        ensures
            n == self.bytes(),
    {
        match self {
            DebugPrimitiveType::Void => 0,
            DebugPrimitiveType::Bool | DebugPrimitiveType::I8 | DebugPrimitiveType::U8 => 1,
            DebugPrimitiveType::I16 | DebugPrimitiveType::U16 => 2,
            DebugPrimitiveType::I32 | DebugPrimitiveType::U32 | DebugPrimitiveType::F32 => 4,
            DebugPrimitiveType::I64 | DebugPrimitiveType::U64 | DebugPrimitiveType::F64
            | DebugPrimitiveType::Felt => 8,
            DebugPrimitiveType::I128 | DebugPrimitiveType::U128 => 16,
            DebugPrimitiveType::Word => 32,
        }
    }
}

/// A type of the intermediate representation, with what a debugger is told of it: the names, the
/// offsets and the sizes that its layout gives.
pub enum Type {
    Unknown,
    Never,
    I1,
    I8,
    U8,
    I16,
    U16,
    I32,
    U32,
    I64,
    U64,
    I128,
    U128,
    U256,
    F64,
    Felt,
    Ptr(Box<Type>),
    Array(Box<Type>, u32),
    Struct { name: Option<String>, fields: Vec<StructField>, size: u32 },
    Function { params: Vec<Type>, results: Vec<Type> },
    List,
    Enum,
}

/// A field of a struct.
pub struct StructField {
    pub name: Option<String>,
    pub ty: Type,
    pub offset: u32,
}

/// A field of a struct, with the places of its name and its type in their tables.
#[derive(Clone, Copy, PartialEq, Eq, Debug, Structural)]
pub struct DebugField {
    pub name: usize,
    pub ty: usize,
    pub offset: u32,
}

/// A type, with the places of other types in their table.
pub enum DebugType {
    Primitive(DebugPrimitiveType),
    Pointer(usize),
    Array(usize, u32),
    Struct { name: usize, size: u32, fields: Vec<DebugField> },
    Function { result: Option<usize>, params: Vec<usize> },
    Unknown,
}

/// A type, with the places of other types in their table.
pub ghost enum DebugTypeView {
    Primitive(DebugPrimitiveType),
    Pointer(usize),
    Array(usize, u32),
    Struct { name: usize, size: u32, fields: Seq<DebugField> },
    Function { result: Option<usize>, params: Seq<usize> },
    Unknown,
}

/// What a type is.
pub open spec fn type_view(ty: DebugType) -> DebugTypeView {
    match ty {
        DebugType::Primitive(ty) => DebugTypeView::Primitive(ty),
        DebugType::Pointer(at) => DebugTypeView::Pointer(at),
        DebugType::Array(at, count) => DebugTypeView::Array(at, count),
        DebugType::Struct { name, size, fields } => DebugTypeView::Struct {
            name,
            size,
            fields: fields@,
        },
        DebugType::Function { result, params } => DebugTypeView::Function {
            result,
            params: params@,
        },
        DebugType::Unknown => DebugTypeView::Unknown,
    }
}

/// The tables of names and types.
pub ghost struct Tables {
    pub strings: Seq<Seq<char>>,
    pub types: Seq<DebugTypeView>,
    /// The places of the types that are not added again
    pub registered: Seq<usize>,
}

/// Where a name is, from `from` on.
pub open spec fn string_from(strings: Seq<Seq<char>>, s: Seq<char>, from: int) -> Option<int>
    decreases strings.len() - from,
{
    if from < 0 || from >= strings.len() {
        None
    } else if strings[from] == s {
        Some(from)
    } else {
        string_from(strings, s, from + 1)
    }
}

/// The names with one more, unless it is there.
pub open spec fn strings_with(strings: Seq<Seq<char>>, s: Seq<char>) -> Seq<Seq<char>> {
    if string_from(strings, s, 0) is Some {
        strings
    } else {
        strings.push(s)
    }
}

/// Where a name is once it is added.
pub open spec fn string_place(strings: Seq<Seq<char>>, s: Seq<char>) -> usize {
    match string_from(strings, s, 0) {
        Some(at) => at as usize,
        None => strings.len() as usize,
    }
}

/// The tables with one more name.
pub open spec fn with_string(tables: Tables, s: Seq<char>) -> Tables {
    Tables { strings: strings_with(tables.strings, s), ..tables }
}

/// Where a type is that is not added again, among those registered from `from` on.
pub open spec fn registered_from(tables: Tables, ty: DebugTypeView, from: int) -> Option<usize>
    decreases tables.registered.len() - from,
{
    if from < 0 || from >= tables.registered.len() {
        None
    } else if tables.types[tables.registered[from] as int] == ty {
        Some(tables.registered[from])
    } else {
        registered_from(tables, ty, from + 1)
    }
}

/// The tables with a type that is not added again, and its place.
pub open spec fn registered(tables: Tables, ty: DebugTypeView) -> (Tables, usize) {
    match registered_from(tables, ty, 0) {
        Some(at) => (tables, at),
        None => (
            Tables {
                types: tables.types.push(ty),
                registered: tables.registered.push(tables.types.len() as usize),
                ..tables
            },
            tables.types.len() as usize,
        ),
    }
}

/// A name that was added is there.
pub proof fn strings_are_added_once(strings: Seq<Seq<char>>, s: Seq<char>)
    requires
        strings.len() <= usize::MAX,
    ensures
        strings_with(strings_with(strings, s), s) == strings_with(strings, s),
        string_place(strings_with(strings, s), s) == string_place(strings, s),
        string_place(strings, s) < strings_with(strings, s).len(),
        strings_with(strings, s)[string_place(strings, s) as int] == s,
{
    string_is_found(strings, s, 0);
    if string_from(strings, s, 0) is None {
        assert(strings.push(s)[strings.len() as int] == s);
        pushed_string_is_found(strings, s, 0);
    }
}

proof fn string_is_found(strings: Seq<Seq<char>>, s: Seq<char>, from: int)
    requires
        0 <= from <= strings.len(),
    ensures
        match string_from(strings, s, from) {
            Some(at) => from <= at < strings.len() && strings[at] == s,
            None => forall|i: int| from <= i < strings.len() ==> strings[i] != s,
        },
    decreases strings.len() - from,
{
    if from < strings.len() && strings[from] != s {
        string_is_found(strings, s, from + 1);
    }
}

proof fn pushed_string_is_found(strings: Seq<Seq<char>>, s: Seq<char>, from: int)
    requires
        0 <= from <= strings.len(),
        forall|i: int| from <= i < strings.len() ==> strings[i] != s,
    ensures
        string_from(strings.push(s), s, from) == Some(strings.len() as int),
    decreases strings.len() - from,
{
    if from < strings.len() {
        assert(strings.push(s)[from] == strings[from]);
        pushed_string_is_found(strings, s, from + 1);
    } else {
        assert(strings.push(s)[from] == s);
    }
}

/// A type that was registered is not added again: it keeps its place.
pub proof fn types_are_registered_once(tables: Tables, ty: DebugTypeView)
    requires
        tables.types.len() <= usize::MAX,
        forall|i: int|
            0 <= i < tables.registered.len() ==> #[trigger] tables.registered[i]
                < tables.types.len(),
    ensures
        registered(registered(tables, ty).0, ty) == registered(tables, ty),
        registered(tables, ty).1 < registered(tables, ty).0.types.len(),
        registered(tables, ty).0.types[registered(tables, ty).1 as int] == ty,
{
    type_is_found(tables, ty, 0);
    if registered_from(tables, ty, 0) is None {
        pushed_type_is_found(tables, ty, 0);
    }
}

proof fn type_is_found(tables: Tables, ty: DebugTypeView, from: int)
    requires
        0 <= from <= tables.registered.len(),
        forall|i: int|
            0 <= i < tables.registered.len() ==> #[trigger] tables.registered[i]
                < tables.types.len(),
    ensures
        match registered_from(tables, ty, from) {
            Some(at) => at < tables.types.len() && tables.types[at as int] == ty,
            None => forall|i: int|
                from <= i < tables.registered.len()
                    ==> tables.types[#[trigger] tables.registered[i] as int] != ty,
        },
    decreases tables.registered.len() - from,
{
    if from < tables.registered.len() && tables.types[tables.registered[from] as int] != ty {
        type_is_found(tables, ty, from + 1);
    }
}

proof fn pushed_type_is_found(tables: Tables, ty: DebugTypeView, from: int)
    requires
        tables.types.len() <= usize::MAX,
        0 <= from <= tables.registered.len(),
        forall|i: int|
            0 <= i < tables.registered.len() ==> #[trigger] tables.registered[i]
                < tables.types.len(),
        forall|i: int|
            from <= i < tables.registered.len()
                ==> tables.types[#[trigger] tables.registered[i] as int] != ty,
    ensures
        registered_from(
            Tables {
                types: tables.types.push(ty),
                registered: tables.registered.push(tables.types.len() as usize),
                ..tables
            },
            ty,
            from,
        ) == Some(tables.types.len() as usize),
    decreases tables.registered.len() - from,
{
    let after = Tables {
        types: tables.types.push(ty),
        registered: tables.registered.push(tables.types.len() as usize),
        ..tables
    };
    if from < tables.registered.len() {
        assert(after.registered[from] == tables.registered[from]);
        assert(after.types[after.registered[from] as int]
            == tables.types[tables.registered[from] as int]);
        pushed_type_is_found(tables, ty, from + 1);
    } else {
        assert(after.registered[from] == tables.types.len());
        assert(after.types[tables.types.len() as int] == ty);
    }
}

/// The sum, or the greatest number if it is larger.
pub open spec fn capped_sum(a: int, b: int) -> u32 {
    if a + b > u32::MAX {
        u32::MAX
    } else {
        (a + b) as u32
    }
}

/// The product, or the greatest number if it is larger.
pub open spec fn capped_product(a: int, b: int) -> u32 {
    if a * b > u32::MAX {
        u32::MAX
    } else {
        (a * b) as u32
    }
}

/// How many bytes a value of the type at the given place takes. Types refer to those before them.
pub open spec fn size_at(types: Seq<DebugTypeView>, at: int) -> u32
    decreases at,
{
    if at < 0 || at >= types.len() {
        0
    } else {
        match types[at] {
            DebugTypeView::Primitive(ty) => ty.bytes(),
            DebugTypeView::Pointer(_) => 4,
            DebugTypeView::Array(element, count) => if element < at {
                capped_product(count as int, size_at(types, element as int) as int)
            } else {
                0
            },
            DebugTypeView::Struct { size, .. } => size,
            DebugTypeView::Function { .. } => 4,
            DebugTypeView::Unknown => 0,
        }
    }
}

/// How many bytes the first `n` fields reach over.
pub open spec fn fields_size(types: Seq<DebugTypeView>, fields: Seq<DebugField>, n: int) -> u32
    decreases n,
{
    if n <= 0 {
        0
    } else {
        let rest = fields_size(types, fields, n - 1);
        let end = capped_sum(
            fields[n - 1].offset as int,
            size_at(types, fields[n - 1].ty as int) as int,
        );
        if end > rest {
            end
        } else {
            rest
        }
    }
}

/// The text ends with another.
pub open spec fn ends_with(s: Seq<char>, suffix: Seq<char>) -> bool {
    text::occurs_at(s, suffix, s.len() - suffix.len())
}

/// The type has the given name, in whichever package.
pub open spec fn is_called(name: Seq<char>, short: Seq<char>) -> bool {
    name == short || ends_with(name, "/"@ + short) || ends_with(name, "::"@ + short)
}

/// The name of a struct, or what stands for it.
pub open spec fn struct_label(name: Option<String>) -> Seq<char> {
    match name {
        Some(name) => name@,
        None => "<anonymous>"@,
    }
}

/// The name of a field, or what stands for it.
pub open spec fn field_label(name: Option<String>, index: int) -> Seq<char> {
    match name {
        Some(name) => name@,
        None => "field"@ + text::decimal(index as nat),
    }
}

/// The tables with a type, and its place.
pub open spec fn with_type(tables: Tables, ty: Type) -> (Tables, usize)
    decreases ty, 1int,
{
    let (tables, ty) = described(tables, ty);
    registered(tables, ty)
}

/// What a type is in the debug information, and the tables with the types that it refers to.
pub open spec fn described(tables: Tables, ty: Type) -> (Tables, DebugTypeView)
    decreases ty, 0int,
{
    match ty {
        Type::Unknown | Type::U256 | Type::List | Type::Enum => (tables, DebugTypeView::Unknown),
        Type::Never => (tables, DebugTypeView::Primitive(DebugPrimitiveType::Void)),
        Type::I1 => (tables, DebugTypeView::Primitive(DebugPrimitiveType::Bool)),
        Type::I8 => (tables, DebugTypeView::Primitive(DebugPrimitiveType::I8)),
        Type::U8 => (tables, DebugTypeView::Primitive(DebugPrimitiveType::U8)),
        Type::I16 => (tables, DebugTypeView::Primitive(DebugPrimitiveType::I16)),
        Type::U16 => (tables, DebugTypeView::Primitive(DebugPrimitiveType::U16)),
        Type::I32 => (tables, DebugTypeView::Primitive(DebugPrimitiveType::I32)),
        Type::U32 => (tables, DebugTypeView::Primitive(DebugPrimitiveType::U32)),
        Type::I64 => (tables, DebugTypeView::Primitive(DebugPrimitiveType::I64)),
        Type::U64 => (tables, DebugTypeView::Primitive(DebugPrimitiveType::U64)),
        Type::I128 => (tables, DebugTypeView::Primitive(DebugPrimitiveType::I128)),
        Type::U128 => (tables, DebugTypeView::Primitive(DebugPrimitiveType::U128)),
        Type::F64 => (tables, DebugTypeView::Primitive(DebugPrimitiveType::F64)),
        Type::Felt => (tables, DebugTypeView::Primitive(DebugPrimitiveType::Felt)),
        Type::Ptr(pointee) => {
            let (tables, at) = with_type(tables, *pointee);
            (tables, DebugTypeView::Pointer(at))
        },
        Type::Array(element, count) => {
            let (tables, at) = with_type(tables, *element);
            (tables, DebugTypeView::Array(at, count))
        },
        Type::Struct { name, fields, size } => {
            if name matches Some(name) && is_called(name@, "felt"@) {
                (tables, DebugTypeView::Primitive(DebugPrimitiveType::Felt))
            } else if name matches Some(name) && is_called(name@, "word"@) {
                (tables, DebugTypeView::Primitive(DebugPrimitiveType::Word))
            } else {
                let label = struct_label(name);
                let at = string_place(tables.strings, label);
                let (tables, done, _) = with_fields(
                    with_string(tables, label),
                    fields,
                    fields@.len() as int,
                    name is Some,
                );
                (
                    tables,
                    DebugTypeView::Struct {
                        name: at,
                        size: if name is Some {
                            fields_size(tables.types, done, done.len() as int)
                        } else {
                            size
                        },
                        fields: done,
                    },
                )
            }
        },
        Type::Function { params, results } => {
            let (tables, result) = if results@.len() == 0 {
                (tables, None)
            } else if results@.len() == 1 {
                let (tables, at) = with_type(tables, results@[0]);
                (tables, Some(at))
            } else {
                let name = string_place(tables.strings, "return"@);
                let (tables, fields, _) = with_items(
                    with_string(tables, "return"@),
                    results,
                    results@.len() as int,
                );
                let (tables, at) = with_struct(tables, name, fields);
                (tables, Some(at))
            };
            let (tables, params) = with_types(tables, params, params@.len() as int);
            (tables, DebugTypeView::Function { result, params })
        },
    }
}

/// The tables with a struct of the given fields, which is added in any case, and its place.
pub open spec fn with_struct(tables: Tables, name: usize, fields: Seq<DebugField>) -> (
    Tables,
    usize,
) {
    let ty = DebugTypeView::Struct {
        name,
        size: fields_size(tables.types, fields, fields.len() as int),
        fields,
    };
    (Tables { types: tables.types.push(ty), ..tables }, tables.types.len() as usize)
}

/// The tables with the names and types of the first `n` fields, these fields, and where they end.
/// The fields of a struct that has a name follow each other without gaps.
pub open spec fn with_fields(
    tables: Tables,
    fields: Vec<StructField>,
    n: int,
    is_named: bool,
) -> (Tables, Seq<DebugField>, u32)
    decreases fields, n,
{
    if n <= 0 || n > fields@.len() {
        (tables, Seq::empty(), 0)
    } else {
        let (tables, done, next) = with_fields(tables, fields, n - 1, is_named);
        let label = field_label(fields@[n - 1].name, n - 1);
        let name = string_place(tables.strings, label);
        let (tables, ty) = with_type(with_string(tables, label), fields@[n - 1].ty);
        let offset = if is_named {
            next
        } else {
            fields@[n - 1].offset
        };
        let next = if is_named {
            capped_sum(next as int, size_at(tables.types, ty as int) as int)
        } else {
            next
        };
        (tables, done.push(DebugField { name, ty, offset }), next)
    }
}

/// The tables with the first `n` items of a tuple, the fields for them, and where they end.
pub open spec fn with_items(tables: Tables, items: Vec<Type>, n: int) -> (
    Tables,
    Seq<DebugField>,
    u32,
)
    decreases items, n,
{
    if n <= 0 || n > items@.len() {
        (tables, Seq::empty(), 0)
    } else {
        let (tables, done, next) = with_items(tables, items, n - 1);
        let label = field_label(None, n - 1);
        let name = string_place(tables.strings, label);
        let (tables, ty) = with_type(with_string(tables, label), items@[n - 1]);
        (
            tables,
            done.push(DebugField { name, ty, offset: next }),
            capped_sum(next as int, size_at(tables.types, ty as int) as int),
        )
    }
}

/// The tables with the first `n` types, and their places.
pub open spec fn with_types(tables: Tables, types: Vec<Type>, n: int) -> (Tables, Seq<usize>)
    decreases types, n,
{
    if n <= 0 || n > types@.len() {
        (tables, Seq::empty())
    } else {
        let (tables, done) = with_types(tables, types, n - 1);
        let (tables, at) = with_type(tables, types@[n - 1]);
        (tables, done.push(at))
    }
}

/// Every type that the type refers to is before the given place.
pub open spec fn refers_below(ty: DebugTypeView, at: int) -> bool {
    match ty {
        DebugTypeView::Primitive(_) | DebugTypeView::Unknown => true,
        DebugTypeView::Pointer(to) => to < at,
        DebugTypeView::Array(to, _) => to < at,
        DebugTypeView::Struct { fields, .. } => forall|i: int|
            0 <= i < fields.len() ==> (#[trigger] fields[i]).ty < at,
        DebugTypeView::Function { result, params } => {
            &&& result matches Some(to) ==> to < at
            &&& forall|i: int| 0 <= i < params.len() ==> #[trigger] params[i] < at
        },
    }
}

/// The tables of names and types.
pub struct DebugTypesSection {
    pub strings: Vec<String>,
    pub types: Vec<DebugType>,
    /// The places of the types that are not added again
    pub registered: Vec<usize>,
}

/// Adds a name to a table, unless it is there.
pub fn add_string(strings: &mut Vec<String>, s: &str) -> (at: usize)
    ensures
        text::texts(final(strings)@) == strings_with(text::texts(old(strings)@), s@),
        at == string_place(text::texts(old(strings)@), s@),
        at < final(strings)@.len(),
{
    let ghost before = text::texts(strings@);
    let mut i: usize = 0;
    while i < strings.len()
        invariant
            i <= strings@.len(),
            strings@ == old(strings)@,
            before == text::texts(old(strings)@),
            string_from(before, s@, 0) == string_from(before, s@, i as int),
        decreases strings@.len() - i,
    {
        if same_text(strings[i].as_str(), s) {
            return i;
        }
        i = i + 1;
    }
    strings.push(s.to_owned());
    assert(text::texts(strings@) =~= before.push(s@));
    i
}

fn same_type(a: &DebugType, b: &DebugType) -> (same: bool)
    ensures
        same == (type_view(*a) == type_view(*b)),
{
    match (a, b) {
        (DebugType::Primitive(a), DebugType::Primitive(b)) => *a == *b,
        (DebugType::Pointer(a), DebugType::Pointer(b)) => *a == *b,
        (DebugType::Array(a, m), DebugType::Array(b, n)) => *a == *b && *m == *n,
        (
            DebugType::Struct { name: a, size: m, fields: x },
            DebugType::Struct { name: b, size: n, fields: y },
        ) => *a == *b && *m == *n && same_fields(x, y),
        (
            DebugType::Function { result: a, params: x },
            DebugType::Function { result: b, params: y },
        ) => {
            let same = match (a, b) {
                (Some(a), Some(b)) => *a == *b,
                (None, None) => true,
                _ => false,
            };
            same && same_places(x, y)
        },
        (DebugType::Unknown, DebugType::Unknown) => true,
        _ => false,
    }
}

fn same_fields(a: &Vec<DebugField>, b: &Vec<DebugField>) -> (same: bool)
    ensures
        same == (a@ == b@),
{
    if a.len() != b.len() {
        return false;
    }
    let mut i: usize = 0;
    while i < a.len()
        invariant
            i <= a@.len() == b@.len(),
            forall|j: int| 0 <= j < i ==> a@[j] == b@[j],
        decreases a@.len() - i,
    {
        if a[i] != b[i] {
            return false;
        }
        i = i + 1;
    }
    assert(a@ =~= b@);
    true
}

fn same_places(a: &Vec<usize>, b: &Vec<usize>) -> (same: bool)
    ensures
        same == (a@ == b@),
{
    if a.len() != b.len() {
        return false;
    }
    let mut i: usize = 0;
    while i < a.len()
        invariant
            i <= a@.len() == b@.len(),
            forall|j: int| 0 <= j < i ==> a@[j] == b@[j],
        decreases a@.len() - i,
    {
        if a[i] != b[i] {
            return false;
        }
        i = i + 1;
    }
    assert(a@ =~= b@);
    true
}

fn name_ends_with(name: &str, suffix: &str) -> (b: bool)
    ensures
        b == ends_with(name@, suffix@),
{
    let s = chars_of(name);
    let p = chars_of(suffix);
    if p.len() > s.len() {
        return false;
    }
    let at: usize = s.len() - p.len();
    holds_at(&s, &p, at)
}

/// Whether a type of a component is a field element.
pub fn is_component_felt_type_name(name: &str) -> (b: bool)
    ensures
        b == is_called(name@, "felt"@),
{
    proof {
        reveal_strlit("felt");
        reveal_strlit("/felt");
        reveal_strlit("::felt");
        reveal_strlit("/");
        reveal_strlit("::");
        assert("/felt"@ =~= "/"@ + "felt"@);
        assert("::felt"@ =~= "::"@ + "felt"@);
    }
    same_text(name, "felt") || name_ends_with(name, "/felt") || name_ends_with(name, "::felt")
}

/// Whether a type of a component is a word.
pub fn is_component_word_type_name(name: &str) -> (b: bool)
    ensures
        b == is_called(name@, "word"@),
{
    proof {
        reveal_strlit("word");
        reveal_strlit("/word");
        reveal_strlit("::word");
        reveal_strlit("/");
        reveal_strlit("::");
        assert("/word"@ =~= "/"@ + "word"@);
        assert("::word"@ =~= "::"@ + "word"@);
    }
    same_text(name, "word") || name_ends_with(name, "/word") || name_ends_with(name, "::word")
}

fn show_field(name: &Option<String>, index: usize) -> (out: String)
    ensures
        out@ == field_label(*name, index as int),
{
    match name {
        Some(name) => name.as_str().to_owned(),
        None => {
            let mut out = "field".to_owned();
            push_decimal(&mut out, index as u64);
            out
        },
    }
}

fn add_capped(a: u32, b: u32) -> (sum: u32)
    ensures
        sum == capped_sum(a as int, b as int),
{
    a.saturating_add(b)
}

fn multiply_capped(a: u32, b: u32) -> (product: u32)
    ensures
        product == capped_product(a as int, b as int),
{
    assert(0 <= a * b <= 0xffff_ffff * 0xffff_ffff) by (nonlinear_arith)
        requires
            0 <= a <= 0xffff_ffff,
            0 <= b <= 0xffff_ffff,
    ;
    let product: u64 = a as u64 * b as u64;
    if product > 0xffff_ffff {
        u32::MAX
    } else {
        product as u32
    }
}

impl DebugTypesSection {
    /// What the tables hold.
    pub open spec fn tables(&self) -> Tables {
        Tables {
            strings: text::texts(self.strings@),
            types: self.types@.map_values(|ty: DebugType| type_view(ty)),
            registered: self.registered@,
        }
    }

    /// Types refer to those before them, and registered places are places of types.
    pub open spec fn wf(&self) -> bool {
        &&& forall|i: int|
            0 <= i < self.types@.len() ==> refers_below(#[trigger] type_view(self.types@[i]), i)
        &&& forall|i: int|
            0 <= i < self.registered@.len() ==> #[trigger] self.registered@[i] < self.types@.len()
    }

    /// Tables that hold nothing.
    pub fn new() -> (section: Self)
        ensures
            section.wf(),
            section.tables() == (Tables {
                strings: Seq::empty(),
                types: Seq::empty(),
                registered: Seq::empty(),
            }),
    {
        let section = DebugTypesSection {
            strings: Vec::new(),
            types: Vec::new(),
            registered: Vec::new(),
        };
        assert(section.tables().strings =~= Seq::empty());
        assert(section.tables().types =~= Seq::empty());
        assert(section.tables().registered =~= Seq::empty());
        section
    }

    /// Whether there are no types.
    pub fn is_empty(&self) -> (b: bool)
        ensures
            b == (self.tables().types.len() == 0),
    {
        self.types.len() == 0
    }

    fn put_string(&mut self, s: &str) -> (at: usize)
        requires
            old(self).wf(),
        ensures
            final(self).wf(),
            final(self).tables() == with_string(old(self).tables(), s@),
            at == string_place(old(self).tables().strings, s@),
            final(self).types@ == old(self).types@,
    {
        add_string(&mut self.strings, s)
    }

    fn push_type(&mut self, ty: DebugType) -> (at: usize)
        requires
            old(self).wf(),
            refers_below(type_view(ty), old(self).types@.len() as int),
        ensures
            final(self).wf(),
            final(self).types@ == old(self).types@.push(ty),
            final(self).strings == old(self).strings,
            final(self).registered == old(self).registered,
            final(self).tables() == (Tables {
                types: old(self).tables().types.push(type_view(ty)),
                ..old(self).tables()
            }),
            at == old(self).types@.len(),
    {
        let at: usize = self.types.len();
        self.types.push(ty);
        assert(self.tables().types =~= old(self).tables().types.push(type_view(ty)));
        assert forall|i: int| 0 <= i < self.types@.len() implies refers_below(
            #[trigger] type_view(self.types@[i]),
            i,
        ) by {
            if i < at {
                assert(self.types@[i] == old(self).types@[i]);
            }
        }
        at
    }

    fn register(&mut self, ty: DebugType) -> (at: usize)
        requires
            old(self).wf(),
            refers_below(type_view(ty), old(self).types@.len() as int),
        ensures
            final(self).wf(),
            (final(self).tables(), at) == registered(old(self).tables(), type_view(ty)),
            at < final(self).types@.len(),
            old(self).types@.len() <= final(self).types@.len(),
    {
        let ghost tables = self.tables();
        let ghost view = type_view(ty);
        let mut i: usize = 0;
        while i < self.registered.len()
            invariant
                i <= self.registered@.len(),
                *self == *old(self),
                self.wf(),
                tables == self.tables(),
                view == type_view(ty),
                registered_from(tables, view, 0) == registered_from(tables, view, i as int),
            decreases self.registered@.len() - i,
        {
            let at: usize = self.registered[i];
            assert(at < self.types@.len());
            assert(tables.types[at as int] == type_view(self.types@[at as int]));
            if same_type(&self.types[at], &ty) {
                return at;
            }
            i = i + 1;
        }
        let at = self.push_type(ty);
        self.registered.push(at);
        assert(self.tables().registered =~= tables.registered.push(at));
        at
    }

    /// Adds a type that debuggers know, unless it is there.
    pub fn add_primitive_type(&mut self, ty: DebugPrimitiveType) -> (at: usize)
        requires
            old(self).wf(),
        ensures
            final(self).wf(),
            (final(self).tables(), at) == registered(
                old(self).tables(),
                DebugTypeView::Primitive(ty),
            ),
            at < final(self).types@.len(),
    {
        self.register(DebugType::Primitive(ty))
    }

    /// How many bytes a value of the type at the given place takes.
    pub fn debug_type_size(&self, at: usize) -> (n: u32)
        requires
            self.wf(),
            at < self.types@.len(),
        ensures
            n == size_at(self.tables().types, at as int),
        decreases at,
    {
        assert(refers_below(type_view(self.types@[at as int]), at as int));
        assert(self.tables().types[at as int] == type_view(self.types@[at as int]));
        match &self.types[at] {
            DebugType::Primitive(ty) => ty.size_in_bytes(),
            DebugType::Pointer(_) => 4,
            DebugType::Array(element, count) => multiply_capped(*count, self.debug_type_size(*element)),
            DebugType::Struct { size, .. } => *size,
            DebugType::Function { .. } => 4,
            DebugType::Unknown => 0,
        }
    }

    fn reach(&self, fields: &Vec<DebugField>) -> (n: u32)
        requires
            self.wf(),
            forall|i: int|
                0 <= i < fields@.len() ==> (#[trigger] fields@[i]).ty < self.types@.len(),
        ensures
            n == fields_size(self.tables().types, fields@, fields@.len() as int),
    {
        let mut n: u32 = 0;
        let mut i: usize = 0;
        while i < fields.len()
            invariant
                i <= fields@.len(),
                self.wf(),
                forall|i: int|
                    0 <= i < fields@.len() ==> (#[trigger] fields@[i]).ty < self.types@.len(),
                n == fields_size(self.tables().types, fields@, i as int),
            decreases fields@.len() - i,
        {
            let field = fields[i];
            assert(fields@[i as int].ty < self.types@.len());
            let end: u32 = add_capped(field.offset, self.debug_type_size(field.ty));
            if end > n {
                n = end;
            }
            i = i + 1;
        }
        n
    }

    /// Adds a type, unless it is there, and the types that it refers to.
    pub fn add_type(&mut self, ty: &Type) -> (at: usize)
        requires
            old(self).wf(),
        ensures
            final(self).wf(),
            (final(self).tables(), at) == with_type(old(self).tables(), *ty),
            at < final(self).types@.len(),
            old(self).types@.len() <= final(self).types@.len(),
        decreases ty, 1usize,
    {
        let described = self.hir_type_to_debug_type(ty);
        self.register(described)
    }

    fn hir_type_to_debug_type(&mut self, ty: &Type) -> (info: DebugType)
        requires
            old(self).wf(),
        ensures
            final(self).wf(),
            (final(self).tables(), type_view(info)) == described(old(self).tables(), *ty),
            refers_below(type_view(info), final(self).types@.len() as int),
            old(self).types@.len() <= final(self).types@.len(),
        decreases ty, 0usize,
    {
        match ty {
            Type::Unknown | Type::U256 | Type::List | Type::Enum => DebugType::Unknown,
            Type::Never => DebugType::Primitive(DebugPrimitiveType::Void),
            Type::I1 => DebugType::Primitive(DebugPrimitiveType::Bool),
            Type::I8 => DebugType::Primitive(DebugPrimitiveType::I8),
            Type::U8 => DebugType::Primitive(DebugPrimitiveType::U8),
            Type::I16 => DebugType::Primitive(DebugPrimitiveType::I16),
            Type::U16 => DebugType::Primitive(DebugPrimitiveType::U16),
            Type::I32 => DebugType::Primitive(DebugPrimitiveType::I32),
            Type::U32 => DebugType::Primitive(DebugPrimitiveType::U32),
            Type::I64 => DebugType::Primitive(DebugPrimitiveType::I64),
            Type::U64 => DebugType::Primitive(DebugPrimitiveType::U64),
            Type::I128 => DebugType::Primitive(DebugPrimitiveType::I128),
            Type::U128 => DebugType::Primitive(DebugPrimitiveType::U128),
            Type::F64 => DebugType::Primitive(DebugPrimitiveType::F64),
            Type::Felt => DebugType::Primitive(DebugPrimitiveType::Felt),
            Type::Ptr(pointee) => DebugType::Pointer(self.add_type(pointee)),
            Type::Array(element, count) => DebugType::Array(self.add_type(element), *count),
            Type::Struct { name, fields, size } => {
                if let Some(name) = name {
                    if is_component_felt_type_name(name.as_str()) {
                        return DebugType::Primitive(DebugPrimitiveType::Felt);
                    }
                    if is_component_word_type_name(name.as_str()) {
                        return DebugType::Primitive(DebugPrimitiveType::Word);
                    }
                }
                let at = match name {
                    Some(name) => self.put_string(name.as_str()),
                    None => self.put_string("<anonymous>"),
                };
                let mut done: Vec<DebugField> = Vec::new();
                let len: usize = fields.len();
                let _ = self.add_fields(fields, len, name.is_some(), &mut done);
                let size = if name.is_some() {
                    self.reach(&done)
                } else {
                    *size
                };
                DebugType::Struct { name: at, size, fields: done }
            },
            Type::Function { params, results } => {
                let result = if results.len() == 0 {
                    None
                } else if results.len() == 1 {
                    Some(self.add_type(&results[0]))
                } else {
                    let name = self.put_string("return");
                    let mut fields: Vec<DebugField> = Vec::new();
                    let len: usize = results.len();
                    let _ = self.add_items(results, len, &mut fields);
                    let size = self.reach(&fields);
                    Some(self.push_type(DebugType::Struct { name, size, fields }))
                };
                let mut places: Vec<usize> = Vec::new();
                let len: usize = params.len();
                self.add_types(params, len, &mut places);
                DebugType::Function { result, params: places }
            },
        }
    }

    fn add_fields(
        &mut self,
        fields: &Vec<StructField>,
        n: usize,
        is_named: bool,
        done: &mut Vec<DebugField>,
    ) -> (next: u32)
        requires
            old(self).wf(),
            n <= fields@.len(),
            old(done)@.len() == 0,
        ensures
            final(self).wf(),
            (final(self).tables(), final(done)@, next) == with_fields(
                old(self).tables(),
                *fields,
                n as int,
                is_named,
            ),
            forall|i: int|
                0 <= i < final(done)@.len() ==> (#[trigger] final(done)@[i]).ty
                    < final(self).types@.len(),
            old(self).types@.len() <= final(self).types@.len(),
        decreases fields, n,
    {
        if n == 0 {
            assert(done@ =~= Seq::empty());
            return 0;
        }
        let next: u32 = self.add_fields(fields, n - 1, is_named, done);
        let field = &fields[n - 1];
        let label = show_field(&field.name, n - 1);
        let name = self.put_string(label.as_str());
        let ty = self.add_type(&field.ty);
        let offset: u32 = if is_named {
            next
        } else {
            field.offset
        };
        let next: u32 = if is_named {
            add_capped(next, self.debug_type_size(ty))
        } else {
            next
        };
        done.push(DebugField { name, ty, offset });
        next
    }

    fn add_items(&mut self, items: &Vec<Type>, n: usize, done: &mut Vec<DebugField>) -> (next: u32)
        requires
            old(self).wf(),
            n <= items@.len(),
            old(done)@.len() == 0,
        ensures
            final(self).wf(),
            (final(self).tables(), final(done)@, next) == with_items(
                old(self).tables(),
                *items,
                n as int,
            ),
            forall|i: int|
                0 <= i < final(done)@.len() ==> (#[trigger] final(done)@[i]).ty
                    < final(self).types@.len(),
            old(self).types@.len() <= final(self).types@.len(),
        decreases items, n,
    {
        if n == 0 {
            assert(done@ =~= Seq::empty());
            return 0;
        }
        let next: u32 = self.add_items(items, n - 1, done);
        let label = show_field(&None, n - 1);
        let name = self.put_string(label.as_str());
        let ty = self.add_type(&items[n - 1]);
        done.push(DebugField { name, ty, offset: next });
        add_capped(next, self.debug_type_size(ty))
    }

    fn add_types(&mut self, types: &Vec<Type>, n: usize, done: &mut Vec<usize>)
        requires
            old(self).wf(),
            n <= types@.len(),
            old(done)@.len() == 0,
        ensures
            final(self).wf(),
            (final(self).tables(), final(done)@) == with_types(
                old(self).tables(),
                *types,
                n as int,
            ),
            forall|i: int|
                0 <= i < final(done)@.len() ==> #[trigger] final(done)@[i]
                    < final(self).types@.len(),
            old(self).types@.len() <= final(self).types@.len(),
        decreases types, n,
    {
        if n == 0 {
            assert(done@ =~= Seq::empty());
            return;
        }
        self.add_types(types, n - 1, done);
        let at = self.add_type(&types[n - 1]);
        done.push(at);
    }
}

} // verus!

//! Operations as text.
//!
//! ```text
//! <result>, .. = <dialect>.<name> <operand>, .. : <type>, .. #[<attribute>] .. <region> ..;
//! ```
use vstd::prelude::*;
use vstd::string::*;
use crate::hir::attributes::{Attribute, AttributeData, AttributeValue};
use crate::hir::operation::{Operation, OperationKind, Successor, TypedValue, ValueId};
use crate::span::{is_synthetic, SourceSpan};
use crate::symbol::{Interner, Symbol};
use crate::text::{self, push_decimal};

verus! {

/// What is printed of an operation.
#[derive(Clone, Copy, PartialEq, Eq, Debug, Structural)]
pub struct OpPrintingFlags {
    pub print_entry_block_headers: bool,
    pub print_intrinsic_attributes: bool,
    pub print_source_locations: bool,
}

impl Default for OpPrintingFlags {
    fn default() -> (flags: Self)
        ensures
            flags == (OpPrintingFlags {
                print_entry_block_headers: true,
                print_intrinsic_attributes: false,
                print_source_locations: false,
            }),
    {
        OpPrintingFlags {
            print_entry_block_headers: true,
            print_intrinsic_attributes: false,
            print_source_locations: false,
        }
    }
}

/// The first `n` parts one after the other, with `separator` before every part that something
/// precedes.
pub open spec fn folded(parts: Seq<Seq<char>>, separator: Seq<char>, n: int) -> Seq<char>
    decreases n,
{
    if n <= 0 {
        Seq::empty()
    } else {
        let before = folded(parts, separator, n - 1);
        if before.len() == 0 {
            parts[n - 1]
        } else {
            before + separator + parts[n - 1]
        }
    }
}

fn append_part(out: &mut String, separator: &str, part: &str)
    ensures
        final(out)@ == if old(out)@.len() == 0 {
            part@
        } else {
            old(out)@ + separator@ + part@
        },
{
    if out.as_str().unicode_len() > 0 {
        out.append(separator);
    }
    out.append(part);
    assert(out@ == if old(out)@.len() == 0 {
        part@
    } else {
        old(out)@ + separator@ + part@
    });
}

/// The texts of values.
pub open spec fn value_texts(values: Seq<ValueId>) -> Seq<Seq<char>> {
    values.map_values(|v: ValueId| v.shown())
}

/// Values, with commas between them.
pub open spec fn values_shown(values: Seq<ValueId>) -> Seq<char> {
    folded(value_texts(values), ", "@, values.len() as int)
}

fn show_values(values: &Vec<ValueId>) -> (out: String)
    ensures
        out@ == values_shown(values@),
{
    let mut out = String::new();
    let mut i: usize = 0;
    while i < values.len()
        invariant
            i <= values@.len(),
            out@ == folded(value_texts(values@), ", "@, i as int),
        decreases values@.len() - i,
    {
        append_part(&mut out, ", ", values[i].show().as_str());
        i = i + 1;
    }
    out
}

/// The numbers of typed values.
pub open spec fn ids_of(values: Seq<TypedValue>) -> Seq<ValueId> {
    values.map_values(|v: TypedValue| v.id)
}

/// The results of an operation, and an equals sign if there are any.
pub open spec fn results_shown(op: &Operation) -> Seq<char> {
    let values = values_shown(ids_of(op.results@));
    if values.len() == 0 {
        values
    } else {
        values + " = "@
    }
}

/// The results of an operation, and an equals sign if there are any.
pub fn render_operation_results(op: &Operation) -> (out: String)
    ensures
        out@ == results_shown(op),
{
    let ghost ids = ids_of(op.results@);
    let mut out = String::new();
    let mut i: usize = 0;
    while i < op.results.len()
        invariant
            i <= op.results@.len(),
            ids == ids_of(op.results@),
            out@ == folded(value_texts(ids), ", "@, i as int),
        decreases op.results@.len() - i,
    {
        append_part(&mut out, ", ", op.results[i].id.show().as_str());
        i = i + 1;
    }
    if out.as_str().unicode_len() > 0 {
        out.append(" = ");
    }
    out
}

/// The operands of an operation.
pub fn render_operation_operands(op: &Operation) -> (out: String)
    ensures
        out@ == values_shown(op.operands@),
{
    show_values(&op.operands)
}

/// The names of the types of values.
pub open spec fn type_texts(values: Seq<TypedValue>) -> Seq<Seq<char>> {
    values.map_values(|v: TypedValue| v.ty.rendered())
}

/// The types of the results of an operation after a colon, if there are any.
pub open spec fn result_types_shown(op: &Operation) -> Seq<char> {
    let types = folded(type_texts(op.results@), ", "@, op.results@.len() as int);
    if types.len() == 0 {
        types
    } else {
        " : "@ + types
    }
}

/// The types of the results of an operation after a colon, if there are any.
pub fn render_operation_result_types(op: &Operation) -> (out: String)
    ensures
        out@ == result_types_shown(op),
{
    let mut types = String::new();
    let mut i: usize = 0;
    while i < op.results.len()
        invariant
            i <= op.results@.len(),
            types@ == folded(type_texts(op.results@), ", "@, i as int),
        decreases op.results@.len() - i,
    {
        append_part(&mut types, ", ", op.results[i].ty.render().as_str());
        i = i + 1;
    }
    if types.as_str().unicode_len() == 0 {
        types
    } else {
        let mut out = String::new();
        out.append(" : ");
        out.append(types.as_str());
        assert(out@ == " : "@ + types@);
        out
    }
}

/// The regions of an operation, given as text, and a semicolon.
pub open spec fn regions_shown(regions: Seq<String>) -> Seq<char> {
    " "@ + folded(text::texts(regions), " "@, regions.len() as int) + ";"@
}

/// The regions of an operation, given as text, and a semicolon.
pub fn render_regions(regions: &Vec<String>) -> (out: String)
    ensures
        out@ == regions_shown(regions@),
{
    let mut body = String::new();
    let mut i: usize = 0;
    while i < regions.len()
        invariant
            i <= regions@.len(),
            body@ == folded(text::texts(regions@), " "@, i as int),
        decreases regions@.len() - i,
    {
        assert(text::texts(regions@)[i as int] == regions@[i as int]@);
        append_part(&mut body, " ", regions[i].as_str());
        i = i + 1;
    }
    let mut out = String::new();
    out.append(" ");
    out.append(body.as_str());
    out.append(";");
    assert(out@ == regions_shown(regions@));
    out
}

/// A position in a source file.
pub struct FileLineCol {
    pub uri: String,
    pub line: u32,
    pub column: u32,
}

/// Where an operation stems from: that it was made up, or the position if the file is known.
pub open spec fn location_shown(span: SourceSpan, location: Option<FileLineCol>) -> Seq<char> {
    if span == SourceSpan::synthetic_span() {
        " #loc(synthetic)"@
    } else if span.source_id == crate::span::UNKNOWN_SOURCE {
        Seq::empty()
    } else {
        match location {
            Some(location) => " #loc(\""@ + location.uri@ + "\":"@ + text::decimal(
                location.line as nat,
            ) + ":"@ + text::decimal(location.column as nat) + ")"@,
            None => Seq::empty(),
        }
    }
}

/// Where an operation stems from.
pub fn render_source_location(span: SourceSpan, location: &Option<FileLineCol>) -> (out: String)
    ensures
        out@ == location_shown(span, *location),
{
    let mut out = String::new();
    if is_synthetic(&span) {
        out.append(" #loc(synthetic)");
    } else if !span.is_unknown() {
        if let Some(location) = location {
            out.append(" #loc(\"");
            out.append(location.uri.as_str());
            out.append("\":");
            push_decimal(&mut out, location.line as u64);
            out.append(":");
            push_decimal(&mut out, location.column as u64);
            out.append(")");
        }
    }
    assert(out@ == location_shown(span, *location));
    out
}

/// An attribute as text.
pub open spec fn attribute_shown(
    name: Symbol,
    value: Option<AttributeValue>,
    interner: &Interner,
) -> Seq<char> {
    match value {
        Some(value) => "#["@ + interner.text(name) + " = "@ + value.shown(interner) + "]"@,
        None => "#["@ + interner.text(name) + "]"@,
    }
}

/// The symbols of an attribute are known.
pub open spec fn attribute_known(
    name: Symbol,
    value: Option<AttributeValue>,
    interner: &Interner,
) -> bool {
    interner.knows(name) && (value matches Some(value) ==> value.knowable(interner))
}

fn show_attribute(name: Symbol, value: &Option<AttributeValue>, interner: &Interner) -> (out: String)
    requires
        attribute_known(name, *value, interner),
    ensures
        out@ == attribute_shown(name, *value, interner),
{
    let mut out = String::new();
    out.append("#[");
    out.append(interner.as_str(name));
    if let Some(value) = value {
        out.append(" = ");
        out.append(value.show(interner).as_str());
    }
    out.append("]");
    assert(out@ == attribute_shown(name, *value, interner));
    out
}

impl Attribute {
    /// The attribute as text.
    pub fn print(&self, interner: &Interner) -> (out: String)
        requires
            attribute_known(self.name, self.value, interner),
        ensures
            out@ == attribute_shown(self.name, self.value, interner),
    {
        show_attribute(self.name, &self.value, interner)
    }
}

/// What an operation folds to: a constant, or another value.
pub enum OpFoldResult {
    Attribute(AttributeValue),
    Value(ValueId),
}

impl OpFoldResult {
    /// The symbols of the result are known.
    pub open spec fn known(&self, interner: &Interner) -> bool {
        self matches OpFoldResult::Attribute(attr) ==> attr.knowable(interner)
    }

    /// The result as text.
    pub open spec fn shown(&self, interner: &Interner) -> Seq<char> {
        match self {
            OpFoldResult::Attribute(attr) => attr.shown(interner),
            OpFoldResult::Value(value) => value.shown(),
        }
    }

    /// The result as text.
    pub fn print(&self, interner: &Interner) -> (out: String)
        requires
            self.known(interner),
        ensures
            out@ == self.shown(interner),
    {
        match self {
            OpFoldResult::Attribute(attr) => attr.show(interner),
            OpFoldResult::Value(value) => value.show(),
        }
    }
}

/// The first `n` results one after the other, with a comma before the first.
pub open spec fn fold_results_shown(results: Seq<OpFoldResult>, n: int, interner: &Interner) -> Seq<
    char,
>
    decreases n,
{
    if n <= 0 {
        Seq::empty()
    } else {
        fold_results_shown(results, n - 1, interner) + (if n == 1 {
            ", "@
        } else {
            Seq::empty()
        }) + results[n - 1].shown(interner)
    }
}

/// The results one after the other, with a comma before the first.
pub fn print_fold_results(results: &Vec<OpFoldResult>, interner: &Interner) -> (out: String)
    requires
        forall|i: int| 0 <= i < results@.len() ==> (#[trigger] results@[i]).known(interner),
    ensures
        out@ == fold_results_shown(results@, results@.len() as int, interner),
{
    let mut out = String::new();
    let mut i: usize = 0;
    while i < results.len()
        invariant
            i <= results@.len(),
            forall|i: int| 0 <= i < results@.len() ==> (#[trigger] results@[i]).known(interner),
            out@ == fold_results_shown(results@, i as int, interner),
        decreases results@.len() - i,
    {
        let ghost before = out@;
        assert(results@[i as int].known(interner));
        if i == 0 {
            out.append(", ");
        }
        let part = results[i].print(interner);
        out.append(part.as_str());
        assert(out@ == before + (if i == 0 {
            ", "@
        } else {
            Seq::empty()
        }) + part@);
        i = i + 1;
    }
    out
}

/// A value that is passed to a block, as text.
pub open spec fn passed_shown(value: Option<ValueId>) -> Seq<char> {
    match value {
        Some(value) => value.shown(),
        None => "<unlinked>"@,
    }
}

/// The first `n` values that are passed to a block, with commas between them.
pub open spec fn passed_list(values: Seq<Option<ValueId>>, n: int) -> Seq<char>
    decreases n,
{
    if n <= 0 {
        Seq::empty()
    } else {
        passed_list(values, n - 1) + (if n > 1 {
            ", "@
        } else {
            Seq::empty()
        }) + passed_shown(values[n - 1])
    }
}

/// A block that control may pass to, and in brackets, if it takes any values, those that are passed
/// on to it.
pub open spec fn successor_shown(successor: Successor) -> Seq<char> {
    if successor.produced == 0 && successor.operands@.len() == 0 {
        successor.block.shown()
    } else {
        successor.block.shown() + "("@ + passed_list(
            successor.operands@,
            successor.operands@.len() as int,
        ) + ")"@
    }
}

fn show_successor(successor: &Successor) -> (out: String)
    ensures
        out@ == successor_shown(*successor),
{
    let mut out = successor.block.show();
    if successor.produced > 0 || successor.operands.len() > 0 {
        out.append("(");
        let ghost head = out@;
        let mut i: usize = 0;
        assert(out@ == head + passed_list(successor.operands@, 0));
        while i < successor.operands.len()
            invariant
                i <= successor.operands@.len(),
                out@ == head + passed_list(successor.operands@, i as int),
            decreases successor.operands@.len() - i,
        {
            if i > 0 {
                out.append(", ");
            }
            match &successor.operands[i] {
                Some(value) => out.append(value.show().as_str()),
                None => out.append("<unlinked>"),
            }
            i = i + 1;
            assert(out@ == head + passed_list(successor.operands@, i as int));
        }
        out.append(")");
        assert(out@ == successor_shown(*successor));
    }
    out
}

/// The first `n` blocks that control may pass to, with commas between them.
pub open spec fn successors_shown(successors: Seq<Successor>, n: int) -> Seq<char>
    decreases n,
{
    if n <= 0 {
        Seq::empty()
    } else {
        successors_shown(successors, n - 1) + (if n > 1 {
            ", "@
        } else {
            Seq::empty()
        }) + successor_shown(successors[n - 1])
    }
}

fn show_successors(successors: &Vec<Successor>) -> (out: String)
    ensures
        out@ == successors_shown(successors@, successors@.len() as int),
{
    let mut out = String::new();
    let mut i: usize = 0;
    while i < successors.len()
        invariant
            i <= successors@.len(),
            out@ == successors_shown(successors@, i as int),
        decreases successors@.len() - i,
    {
        let ghost before = out@;
        if i > 0 {
            out.append(", ");
        }
        let part = show_successor(&successors[i]);
        out.append(part.as_str());
        assert(out@ == before + (if i > 0 {
            ", "@
        } else {
            Seq::empty()
        }) + part@);
        i = i + 1;
    }
    out
}

/// What an operation works on: the value of a constant, the operands and blocks of a branch, or
/// the operands.
pub open spec fn arguments_shown(op: &Operation, interner: &Interner) -> Seq<char> {
    match op.kind {
        OperationKind::Constant(value) => value.shown(interner),
        OperationKind::Branch(successors) => (if op.operands@.len() == 0 {
            Seq::empty()
        } else {
            values_shown(op.operands@) + " "@
        }) + successors_shown(successors@, successors@.len() as int),
        OperationKind::Plain => values_shown(op.operands@),
    }
}

fn show_arguments(op: &Operation, interner: &Interner) -> (out: String)
    requires
        op.kind matches OperationKind::Constant(value) ==> value.knowable(interner),
    ensures
        out@ == arguments_shown(op, interner),
{
    match &op.kind {
        OperationKind::Constant(value) => value.show(interner),
        OperationKind::Branch(successors) => {
            let mut out = String::new();
            if op.operands.len() > 0 {
                out.append(show_values(&op.operands).as_str());
                out.append(" ");
            }
            out.append(show_successors(successors).as_str());
            assert(out@ == arguments_shown(op, interner));
            out
        },
        OperationKind::Plain => show_values(&op.operands),
    }
}

/// The first `n` attributes, with spaces between them. Those that are properties of the operation
/// itself are left out, unless they are asked for.
pub open spec fn attributes_shown(
    attrs: Seq<(Symbol, AttributeData)>,
    flags: OpPrintingFlags,
    n: int,
    interner: &Interner,
) -> Seq<char>
    decreases n,
{
    if n <= 0 {
        Seq::empty()
    } else {
        let before = attributes_shown(attrs, flags, n - 1, interner);
        let (name, data) = attrs[n - 1];
        if !flags.print_intrinsic_attributes && data.intrinsic {
            before
        } else if before.len() == 0 {
            attribute_shown(name, data.value, interner)
        } else {
            before + " "@ + attribute_shown(name, data.value, interner)
        }
    }
}

/// The symbols of an operation are known.
pub open spec fn operation_known(op: &Operation, interner: &Interner) -> bool {
    &&& op.name.known(interner)
    &&& op.kind matches OperationKind::Constant(value) ==> value.knowable(interner)
    &&& forall|i: int|
        0 <= i < op.attrs@.len() ==> attribute_known(
            (#[trigger] op.attrs@[i]).0,
            op.attrs@[i].1.value,
            interner,
        )
}

fn show_attributes(op: &Operation, flags: &OpPrintingFlags, interner: &Interner) -> (out: String)
    requires
        operation_known(op, interner),
    ensures
        out@ == attributes_shown(op.attrs@, *flags, op.attrs@.len() as int, interner),
{
    let mut out = String::new();
    let mut i: usize = 0;
    while i < op.attrs.len()
        invariant
            i <= op.attrs@.len(),
            operation_known(op, interner),
            out@ == attributes_shown(op.attrs@, *flags, i as int, interner),
        decreases op.attrs@.len() - i,
    {
        let (name, data) = op.attrs.at(i);
        assert(attribute_known(op.attrs@[i as int].0, op.attrs@[i as int].1.value, interner));
        if flags.print_intrinsic_attributes || !data.intrinsic {
            append_part(&mut out, " ", show_attribute(name, &data.value, interner).as_str());
        }
        i = i + 1;
    }
    out
}

/// An operation as text, given where it stems from and its regions as text.
pub open spec fn operation_shown(
    op: &Operation,
    flags: OpPrintingFlags,
    location: Option<FileLineCol>,
    regions: Seq<String>,
    interner: &Interner,
) -> Seq<char> {
    let attrs = attributes_shown(op.attrs@, flags, op.attrs@.len() as int, interner);
    results_shown(op) + op.name.shown(interner) + " "@ + arguments_shown(op, interner)
        + result_types_shown(op) + (if attrs.len() == 0 {
        Seq::empty()
    } else {
        " "@ + attrs
    }) + (if flags.print_source_locations {
        location_shown(op.span, location)
    } else {
        Seq::empty()
    }) + (if regions.len() > 0 {
        regions_shown(regions)
    } else {
        ";"@
    })
}

/// Prints an operation.
pub struct OperationPrinter<'a> {
    pub op: &'a Operation,
    pub flags: &'a OpPrintingFlags,
    /// Where the operation stems from, if the file is known
    pub location: &'a Option<FileLineCol>,
    /// The regions of the operation, as text
    pub regions: &'a Vec<String>,
    pub interner: &'a Interner,
}

impl<'a> OperationPrinter<'a> {
    /// The operation as text.
    pub fn render(&self) -> (out: String)
        requires
            operation_known(self.op, self.interner),
        ensures
            out@ == operation_shown(
                self.op,
                *self.flags,
                *self.location,
                self.regions@,
                self.interner,
            ),
    {
        let mut out = render_operation_results(self.op);
        out.append(self.op.name.show(self.interner).as_str());
        out.append(" ");
        out.append(show_arguments(self.op, self.interner).as_str());
        out.append(render_operation_result_types(self.op).as_str());
        let attrs = show_attributes(self.op, self.flags, self.interner);
        if attrs.as_str().unicode_len() > 0 {
            out.append(" ");
            out.append(attrs.as_str());
        }
        if self.flags.print_source_locations {
            out.append(render_source_location(self.op.span, self.location).as_str());
        }
        if self.regions.len() > 0 {
            out.append(render_regions(self.regions).as_str());
        } else {
            out.append(";");
        }
        assert(out@ =~= operation_shown(
            self.op,
            *self.flags,
            *self.location,
            self.regions@,
            self.interner,
        ));
        out
    }
}

impl Operation {
    /// The operation as text.
    pub fn print(
        &self,
        flags: &OpPrintingFlags,
        location: &Option<FileLineCol>,
        regions: &Vec<String>,
        interner: &Interner,
    ) -> (out: String)
        requires
            operation_known(self, interner),
        ensures
            out@ == operation_shown(self, *flags, *location, regions@, interner),
    {
        OperationPrinter { op: self, flags, location, regions, interner }.render()
    }
}

} // verus!

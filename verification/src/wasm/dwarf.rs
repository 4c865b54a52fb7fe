//! What the debug information of a WebAssembly module says about variables.
use vstd::prelude::*;
use gimli::{Encoding, EndianSlice, Format, LittleEndian, Operation};
use crate::hir::debug_attrs::DIExpressionOp;
use crate::symbol::Interner;
use crate::text::same_text;

verus! {

/// Where a variable is.
#[derive(Clone, Copy, PartialEq, Eq, Debug, Structural)]
pub enum VariableStorage {
    Local(u32),
    Global(u32),
    Stack(u32),
    ConstU64(u64),
    Unsupported,
}

impl VariableStorage {
    /// The local that the variable is in, if it is in one.
    pub open spec fn local(self) -> Option<u32> {
        match self {
            VariableStorage::Local(index) => Some(index),
            _ => None,
        }
    }

    /// The local that the variable is in, if it is in one.
    pub fn as_local(&self) -> (local: Option<u32>)
        ensures
            local == self.local(),
    {
        match self {
            VariableStorage::Local(index) => Some(*index),
            _ => None,
        }
    }

    /// The operation of an expression that says the same.
    pub open spec fn says(self, op: DIExpressionOp, interner: &Interner) -> bool {
        match self {
            VariableStorage::Local(index) => op == DIExpressionOp::WasmLocal(index),
            VariableStorage::Global(index) => op == DIExpressionOp::WasmGlobal(index),
            VariableStorage::Stack(index) => op == DIExpressionOp::WasmStack(index),
            VariableStorage::ConstU64(value) => op == DIExpressionOp::ConstU64(value),
            VariableStorage::Unsupported => op matches DIExpressionOp::Unsupported(name)
                && interner.knows(name) && interner.text(name) == "unsupported"@,
        }
    }

    /// The operation of an expression that says the same.
    pub fn to_expression_op(&self, interner: &mut Interner) -> (op: DIExpressionOp)
        requires
            old(interner).wf(),
            old(interner)@.len() < u32::MAX,
        ensures
            final(interner).wf(),
            final(interner).extends(old(interner)),
            final(interner)@.len() <= old(interner)@.len() + 1,
            self.says(op, final(interner)),
    {
        match self {
            VariableStorage::Local(index) => DIExpressionOp::WasmLocal(*index),
            VariableStorage::Global(index) => DIExpressionOp::WasmGlobal(*index),
            VariableStorage::Stack(index) => DIExpressionOp::WasmStack(*index),
            VariableStorage::ConstU64(value) => DIExpressionOp::ConstU64(*value),
            VariableStorage::Unsupported => {
                let name = interner.intern("unsupported");
                DIExpressionOp::Unsupported(name)
            },
        }
    }
}

/// Where a variable is while a range of the code runs.
#[derive(Clone, Copy, PartialEq, Eq, Debug, Structural)]
pub struct LocationDescriptor {
    /// Where the range starts, from the start of the code section
    pub start: u64,
    /// Where the range ends; none if it lasts until the end of the function
    pub end: Option<u64>,
    pub storage: VariableStorage,
}

/// An operation of a DWARF expression.
#[derive(Clone, Copy, PartialEq, Eq, Debug, Structural)]
pub enum DwarfOp {
    WasmLocal(u32),
    WasmGlobal(u32),
    WasmStack(u32),
    UnsignedConstant(u64),
    Other,
}

/// How the values of a compilation unit are encoded.
#[derive(Clone, Copy, PartialEq, Eq, Debug, Structural)]
pub struct UnitEncoding {
    pub dwarf64: bool,
    pub version: u16,
    pub address_size: u8,
}

/// What `gimli` makes of the bytes of an expression: the first operation, and how many bytes
/// follow it. None if there is no valid operation.
pub uninterp spec fn operation_at(
    bytes: Seq<u8>,
    dwarf64: bool,
    version: u16,
    address_size: u8,
) -> Option<(DwarfOp, usize)>;

/// The number that bytes hold in the variable-length form of DWARF: seven bits of each byte, the
/// low ones first, up to a byte whose high bit is clear.
pub open spec fn uleb128(bytes: Seq<u8>) -> nat
    decreases bytes.len(),
{
    if bytes.len() == 0 {
        0
    } else if bytes[0] < 128 {
        bytes[0] as nat
    } else {
        (bytes[0] - 128) as nat + 128 * uleb128(bytes.skip(1))
    }
}

/// The opcode of the operation that composes a value of pieces.
pub const PIECE: u8 = 0x93;

/// The size of the piece at the start of the bytes, if there is one, can be counted in bits.
pub open spec fn piece_fits(bytes: Seq<u8>) -> bool {
    bytes.len() > 0 && bytes[0] == PIECE ==> uleb128(bytes.skip(1)) < 0x2000_0000_0000_0000
}

proof fn more_digits_are_more(bytes: Seq<u8>, n: int)
    requires
        0 <= n <= bytes.len(),
        forall|i: int| 0 <= i < n ==> (#[trigger] bytes[i]) >= 128,
    ensures
        uleb128(bytes.skip(n)) <= uleb128(bytes),
    decreases n,
{
    if n > 0 {
        let rest = bytes.skip(1);
        assert forall|i: int| 0 <= i < n - 1 implies (#[trigger] rest[i]) >= 128 by {
            assert(rest[i] == bytes[i + 1]);
        }
        more_digits_are_more(rest, n - 1);
        assert(rest.skip(n - 1) =~= bytes.skip(n));
        assert(bytes[0] >= 128);
    } else {
        assert(bytes.skip(0) =~= bytes);
    }
}

/// Whether the size of the piece at the start of the bytes can be counted in bits.
fn is_piece_small(bytes: &[u8]) -> (b: bool)
    ensures
        b == piece_fits(bytes@),
{
    if bytes.len() == 0 || bytes[0] != PIECE {
        return true;
    }
    let ghost digits = bytes@.skip(1);
    let mut end: usize = 1;
    while end < bytes.len() && bytes[end] >= 128
        invariant
            1 <= end <= bytes@.len(),
            digits == bytes@.skip(1),
            forall|i: int| 0 <= i < end - 1 ==> (#[trigger] digits[i]) >= 128,
        decreases bytes@.len() - end,
    {
        assert(digits[end - 1] == bytes@[end as int]);
        end = end + 1;
    }
    let mut value: u64 = if end < bytes.len() {
        bytes[end] as u64
    } else {
        0
    };
    let mut at: usize = end;
    assert(digits.skip(at - 1).len() > 0 ==> digits.skip(at - 1)[0] == bytes@[at as int]);
    while at > 1
        invariant
            1 <= at <= end <= bytes@.len(),
            bytes@[0] == PIECE,
            digits == bytes@.skip(1),
            forall|i: int| 0 <= i < end - 1 ==> (#[trigger] digits[i]) >= 128,
            value == uleb128(digits.skip(at - 1)),
            value < 0x2000_0000_0000_0000,
        decreases at,
    {
        let ghost above = digits.skip(at - 1);
        let ghost here = digits.skip(at - 2);
        assert(here.skip(1) =~= above);
        assert(here[0] == digits[at - 2]);
        assert(bytes@[at - 1] == digits[at - 2]);
        let digit: u64 = (bytes[at - 1] - 128) as u64;
        if value >= 0x40_0000_0000_0000 {
            proof {
                more_digits_are_more(digits, at - 2);
                assert(here[0] >= 128);
                assert(uleb128(here) == (here[0] - 128) as nat + 128 * uleb128(here.skip(1)));
            }
            return false;
        }
        value = digit + 128 * value;
        at = at - 1;
    }
    assert(digits.skip(0) =~= digits);
    true
}

/// `gimli::read::Operation::parse` reads one operation from the start of the bytes. What it
/// reads depends on the bytes and the encoding alone. It reads at least the opcode, so that less
/// is left. It counts the size of a piece in bits, and the product must not overflow.
#[verifier::external_body]
fn parse_operation(bytes: &[u8], encoding: UnitEncoding) -> (op: Option<(DwarfOp, usize)>)
    requires
        piece_fits(bytes@),
    ensures
        op == operation_at(bytes@, encoding.dwarf64, encoding.version, encoding.address_size),
        op matches Some((_, left)) ==> left < bytes@.len(),
{
    let mut input = EndianSlice::new(bytes, LittleEndian);
    let format = if encoding.dwarf64 { Format::Dwarf64 } else { Format::Dwarf32 };
    let (version, address_size) = (encoding.version, encoding.address_size);
    let op = match Operation::parse(&mut input, Encoding { format, version, address_size }) {
        Ok(Operation::WasmLocal { index }) => DwarfOp::WasmLocal(index),
        Ok(Operation::WasmGlobal { index }) => DwarfOp::WasmGlobal(index),
        Ok(Operation::WasmStack { index }) => DwarfOp::WasmStack(index),
        Ok(Operation::UnsignedConstant { value }) => DwarfOp::UnsignedConstant(value),
        Ok(_) => DwarfOp::Other,
        Err(_) => return None,
    };
    Some((op, input.len()))
}

/// The storage that an operation names.
pub open spec fn named_storage(op: DwarfOp) -> Option<VariableStorage> {
    match op {
        DwarfOp::WasmLocal(index) => Some(VariableStorage::Local(index)),
        DwarfOp::WasmGlobal(index) => Some(VariableStorage::Global(index)),
        DwarfOp::WasmStack(index) => Some(VariableStorage::Stack(index)),
        DwarfOp::UnsignedConstant(value) => Some(VariableStorage::ConstU64(value)),
        DwarfOp::Other => None,
    }
}

/// The storage that the last of the operations that name one names.
pub open spec fn last_named(ops: Seq<DwarfOp>) -> Option<VariableStorage>
    decreases ops.len(),
{
    if ops.len() == 0 {
        None
    } else if named_storage(ops.last()) is Some {
        named_storage(ops.last())
    } else {
        last_named(ops.drop_last())
    }
}

/// The storage that the last of the operations that name one names.
pub fn last_storage(ops: &Vec<DwarfOp>) -> (storage: Option<VariableStorage>)
    ensures
        storage == last_named(ops@),
{
    let mut i: usize = ops.len();
    assert(ops@.take(ops@.len() as int) == ops@);
    while i > 0
        invariant
            i <= ops@.len(),
            last_named(ops@) == last_named(ops@.take(i as int)),
        decreases i,
    {
        i = i - 1;
        assert(ops@.take(i + 1).drop_last() == ops@.take(i as int));
        assert(ops@.take(i + 1).last() == ops@[i as int]);
        match ops[i] {
            DwarfOp::WasmLocal(index) => return Some(VariableStorage::Local(index)),
            DwarfOp::WasmGlobal(index) => return Some(VariableStorage::Global(index)),
            DwarfOp::WasmStack(index) => return Some(VariableStorage::Stack(index)),
            DwarfOp::UnsignedConstant(value) => return Some(VariableStorage::ConstU64(value)),
            DwarfOp::Other => {},
        }
    }
    None
}

/// The debug information cannot be read.
#[derive(Clone, Copy, PartialEq, Eq, Debug, Structural)]
pub struct DwarfError {}

/// The operations of an expression; none if it cannot be read, or if the size of a piece cannot be
/// counted in bits.
pub open spec fn operations_of(bytes: Seq<u8>, encoding: UnitEncoding) -> Option<Seq<DwarfOp>>
    decreases bytes.len(),
{
    if bytes.len() == 0 {
        Some(Seq::empty())
    } else if !piece_fits(bytes) {
        None
    } else {
        match operation_at(bytes, encoding.dwarf64, encoding.version, encoding.address_size) {
            None => None,
            Some((op, left)) => if left < bytes.len() {
                match operations_of(bytes.skip(bytes.len() - left), encoding) {
                    None => None,
                    Some(rest) => Some(seq![op] + rest),
                }
            } else {
                None
            },
        }
    }
}

/// The operations of an expression.
pub fn read_operations(bytes: &[u8], encoding: UnitEncoding) -> (ops: Result<Vec<DwarfOp>, DwarfError>)
    ensures
        match ops {
            Ok(ops) => operations_of(bytes@, encoding) == Some(ops@),
            Err(_) => operations_of(bytes@, encoding) is None,
        },
{
    let mut ops: Vec<DwarfOp> = Vec::new();
    let mut at: usize = 0;
    let ghost all = operations_of(bytes@, encoding);
    assert(bytes@.skip(0) == bytes@);
    while at < bytes.len()
        invariant
            at <= bytes@.len(),
            all == operations_of(bytes@, encoding),
            match operations_of(bytes@.skip(at as int), encoding) {
                Some(rest) => all == Some(ops@ + rest),
                None => all is None,
            },
        decreases bytes@.len() - at,
    {
        let ghost rest_bytes = bytes@.skip(at as int);
        let rest = vstd::slice::slice_subrange(bytes, at, bytes.len());
        assert(rest@ == rest_bytes);
        if !is_piece_small(rest) {
            return Err(DwarfError {  });
        }
        match parse_operation(rest, encoding) {
            None => return Err(DwarfError {  }),
            Some((op, left)) => {
                let ghost before = ops@;
                let n: usize = bytes.len();
                assert(rest_bytes.skip(rest_bytes.len() - left) == bytes@.skip(n - left));
                ops.push(op);
                at = n - left;
                proof {
                    if let Some(tail) = operations_of(bytes@.skip(at as int), encoding) {
                        assert(before + (seq![op] + tail) == ops@ + tail);
                    }
                }
            },
        }
    }
    assert(bytes@.skip(at as int).len() == 0);
    assert(ops@ + Seq::<DwarfOp>::empty() == ops@);
    Ok(ops)
}

/// Where an expression says that a variable is; an error if it cannot be read.
pub open spec fn storage_in(bytes: Seq<u8>, encoding: UnitEncoding) -> Result<
    Option<VariableStorage>,
    DwarfError,
> {
    match operations_of(bytes, encoding) {
        Some(ops) => Ok(last_named(ops)),
        None => Err(DwarfError {  }),
    }
}

/// Where an expression says that a variable is.
pub fn decode_storage_from_expression(bytes: &[u8], encoding: UnitEncoding) -> (storage: Result<
    Option<VariableStorage>,
    DwarfError,
>)
    ensures
        storage == storage_in(bytes@, encoding),
{
    match read_operations(bytes, encoding) {
        Ok(ops) => Ok(last_storage(&ops)),
        Err(_) => Err(DwarfError {  }),
    }
}

/// The value of an address attribute.
#[derive(Clone, Copy, PartialEq, Eq, Debug, Structural)]
pub enum PcValue {
    Addr(u64),
    Udata(u64),
    Other,
}

/// An entry of a location list.
pub struct ListEntry {
    pub begin: u64,
    pub end: u64,
    pub expression: Vec<u8>,
}

/// A location list, as it reads if offsets in it count from `base`.
pub struct LocationList {
    pub base: u64,
    /// The entries; none if the list cannot be read
    pub entries: Option<Vec<ListEntry>>,
}

/// The value of a location attribute.
pub enum LocationValue {
    Expression(Vec<u8>),
    /// A location list, as it reads for each of the subprograms around the variable
    Lists(Vec<LocationList>),
    Other,
}

/// An attribute of an entry of the debug information.
pub enum Attr {
    Name(String),
    LinkageName(String),
    LowPc(PcValue),
    HighPc(PcValue),
    Location(LocationValue),
    DeclLine(u64),
    DeclColumn(u64),
    Other,
}

/// The kinds of entries of the debug information.
#[derive(Clone, Copy, PartialEq, Eq, Debug, Structural)]
pub enum Tag {
    Subprogram,
    FormalParameter,
    Variable,
    Other,
}

/// An entry of the debug information, with those below it.
pub struct Node {
    pub tag: Tag,
    pub attrs: Vec<Attr>,
    /// Whether the attributes could be read to the end
    pub attrs_complete: bool,
    pub children: Vec<Node>,
    /// Whether the entries below could be read to the end
    pub children_complete: bool,
}

/// What is known of a variable that is in a local.
pub struct DwarfLocalData {
    pub name: Option<String>,
    pub locations: Vec<LocationDescriptor>,
    pub decl_line: Option<u32>,
    pub decl_column: Option<u32>,
}

/// What is known of a variable that is in a local.
#[verifier::ext_equal]
pub ghost struct LocalData {
    pub name: Option<Seq<char>>,
    pub locations: Seq<LocationDescriptor>,
    pub decl_line: Option<u32>,
    pub decl_column: Option<u32>,
}

impl View for DwarfLocalData {
    type V = LocalData;

    open spec fn view(&self) -> LocalData {
        LocalData {
            name: match self.name {
                Some(name) => Some(name@),
                None => None,
            },
            locations: self.locations@,
            decl_line: self.decl_line,
            decl_column: self.decl_column,
        }
    }
}

/// The last name among attributes.
pub open spec fn name_in(attrs: Seq<Attr>) -> Option<Seq<char>>
    decreases attrs.len(),
{
    if attrs.len() == 0 {
        None
    } else {
        match attrs.last() {
            Attr::Name(name) => Some(name@),
            _ => name_in(attrs.drop_last()),
        }
    }
}

/// The place of the last location among attributes.
pub open spec fn location_in(attrs: Seq<Attr>) -> Option<int>
    decreases attrs.len(),
{
    if attrs.len() == 0 {
        None
    } else if attrs.last() is Location {
        Some(attrs.len() - 1)
    } else {
        location_in(attrs.drop_last())
    }
}

/// The last line among attributes.
pub open spec fn line_in(attrs: Seq<Attr>) -> Option<u32>
    decreases attrs.len(),
{
    if attrs.len() == 0 {
        None
    } else {
        match attrs.last() {
            Attr::DeclLine(line) => Some(line as u32),
            _ => line_in(attrs.drop_last()),
        }
    }
}

/// The last column among attributes.
pub open spec fn column_in(attrs: Seq<Attr>) -> Option<u32>
    decreases attrs.len(),
{
    if attrs.len() == 0 {
        None
    } else {
        match attrs.last() {
            Attr::DeclColumn(column) => Some(column as u32),
            _ => column_in(attrs.drop_last()),
        }
    }
}

/// The ranges of a location list in which the variable is in a local; an error if an expression
/// cannot be read.
pub open spec fn local_ranges(entries: Seq<ListEntry>, encoding: UnitEncoding) -> Result<
    Seq<LocationDescriptor>,
    DwarfError,
>
    decreases entries.len(),
{
    if entries.len() == 0 {
        Ok(Seq::empty())
    } else {
        match local_ranges(entries.drop_last(), encoding) {
            Err(e) => Err(e),
            Ok(before) => {
                let entry = entries.last();
                match storage_in(entry.expression@, encoding) {
                    Err(e) => Err(e),
                    Ok(Some(VariableStorage::Local(index))) => Ok(
                        before.push(
                            LocationDescriptor {
                                start: entry.begin,
                                end: Some(entry.end),
                                storage: VariableStorage::Local(index),
                            },
                        ),
                    ),
                    Ok(_) => Ok(before),
                }
            },
        }
    }
}

/// The entries of a location list, as it reads for a subprogram whose code starts at `base`; none if
/// it cannot be read.
pub open spec fn entries_for(lists: Seq<LocationList>, base: u64) -> Option<Seq<ListEntry>>
    decreases lists.len(),
{
    if lists.len() == 0 {
        None
    } else if lists.last().base == base {
        match lists.last().entries {
            Some(entries) => Some(entries@),
            None => None,
        }
    } else {
        entries_for(lists.drop_last(), base)
    }
}

fn find_entries(lists: &Vec<LocationList>, base: u64) -> (found: Option<&Vec<ListEntry>>)
    ensures
        match found {
            Some(entries) => entries_for(lists@, base) == Some(entries@),
            None => entries_for(lists@, base) is None,
        },
{
    let mut i: usize = lists.len();
    assert(lists@.take(lists@.len() as int) =~= lists@);
    while i > 0
        invariant
            i <= lists@.len(),
            entries_for(lists@, base) == entries_for(lists@.take(i as int), base),
        decreases i,
    {
        i = i - 1;
        assert(lists@.take(i + 1).drop_last() =~= lists@.take(i as int));
        assert(lists@.take(i + 1).last() == lists@[i as int]);
        if lists[i].base == base {
            return match &lists[i].entries {
                Some(entries) => Some(entries),
                None => None,
            };
        }
    }
    None
}

/// Where an attribute says that a variable is; none if that is in no local.
pub open spec fn ranges_of(
    value: LocationValue,
    encoding: UnitEncoding,
    low_pc: u64,
    high_pc: Option<u64>,
) -> Result<Seq<LocationDescriptor>, DwarfError> {
    match value {
        LocationValue::Expression(bytes) => match storage_in(bytes@, encoding) {
            Err(e) => Err(e),
            Ok(Some(VariableStorage::Local(index))) => Ok(
                seq![
                    LocationDescriptor {
                        start: low_pc,
                        end: high_pc,
                        storage: VariableStorage::Local(index),
                    },
                ],
            ),
            Ok(_) => Ok(Seq::empty()),
        },
        LocationValue::Lists(lists) => match entries_for(lists@, low_pc) {
            Some(entries) => local_ranges(entries, encoding),
            None => Err(DwarfError {  }),
        },
        LocationValue::Other => Ok(Seq::empty()),
    }
}

/// What an entry says of a variable, and the local that it is first in. None if the entry says
/// nowhere that the variable is in a local.
pub open spec fn variable_in(
    attrs: Seq<Attr>,
    complete: bool,
    encoding: UnitEncoding,
    low_pc: u64,
    high_pc: Option<u64>,
) -> Result<Option<(u32, LocalData)>, DwarfError> {
    if !complete {
        Err(DwarfError {  })
    } else {
        match location_in(attrs) {
            None => Ok(None),
            Some(at) => match ranges_of(attrs[at]->Location_0, encoding, low_pc, high_pc) {
                Err(e) => Err(e),
                Ok(ranges) => if ranges.len() == 0 {
                    Ok(None)
                } else {
                    Ok(
                        Some(
                            (
                                ranges[0].storage->Local_0,
                                LocalData {
                                    name: name_in(attrs),
                                    locations: ranges,
                                    decl_line: line_in(attrs),
                                    decl_column: column_in(attrs),
                                },
                            ),
                        ),
                    )
                },
            },
        }
    }
}

fn decode_list(entries: &Vec<ListEntry>, encoding: UnitEncoding) -> (ranges: Result<
    Vec<LocationDescriptor>,
    DwarfError,
>)
    ensures
        match ranges {
            Ok(ranges) => local_ranges(entries@, encoding) == Ok::<
                Seq<LocationDescriptor>,
                DwarfError,
            >(ranges@),
            Err(e) => local_ranges(entries@, encoding) == Err::<
                Seq<LocationDescriptor>,
                DwarfError,
            >(e),
        },
{
    let mut ranges: Vec<LocationDescriptor> = Vec::new();
    let mut i: usize = 0;
    while i < entries.len()
        invariant
            i <= entries@.len(),
            local_ranges(entries@.take(i as int), encoding) == Ok::<
                Seq<LocationDescriptor>,
                DwarfError,
            >(ranges@),
        decreases entries@.len() - i,
    {
        let entry = &entries[i];
        assert(entries@.take(i + 1).drop_last() == entries@.take(i as int));
        assert(entries@.take(i + 1).last() == entries@[i as int]);
        match decode_storage_from_expression(entry.expression.as_slice(), encoding) {
            Err(e) => {
                proof {
                    list_errors_stay(entries@, encoding, i + 1);
                }
                return Err(e);
            },
            Ok(Some(VariableStorage::Local(index))) => {
                ranges.push(
                    LocationDescriptor {
                        start: entry.begin,
                        end: Some(entry.end),
                        storage: VariableStorage::Local(index),
                    },
                );
            },
            Ok(_) => {},
        }
        i = i + 1;
    }
    assert(entries@.take(entries@.len() as int) == entries@);
    Ok(ranges)
}

proof fn list_errors_stay(entries: Seq<ListEntry>, encoding: UnitEncoding, n: int)
    requires
        0 <= n <= entries.len(),
        local_ranges(entries.take(n), encoding) is Err,
    ensures
        local_ranges(entries, encoding) == Err::<Seq<LocationDescriptor>, DwarfError>(
            DwarfError {  },
        ),
    decreases entries.len() - n,
{
    if n < entries.len() {
        assert(entries.take(n + 1).drop_last() == entries.take(n));
        list_errors_stay(entries, encoding, n + 1);
    } else {
        assert(entries.take(n) == entries);
    }
}

proof fn ranges_are_in_locals(entries: Seq<ListEntry>, encoding: UnitEncoding)
    ensures
        local_ranges(entries, encoding) matches Ok(ranges) ==> forall|i: int|
            0 <= i < ranges.len() ==> (#[trigger] ranges[i]).storage is Local,
    decreases entries.len(),
{
    if entries.len() > 0 {
        ranges_are_in_locals(entries.drop_last(), encoding);
    }
}

/// Every location that is kept for a variable is a local.
pub proof fn kept_locations_are_locals(
    attrs: Seq<Attr>,
    complete: bool,
    encoding: UnitEncoding,
    low_pc: u64,
    high_pc: Option<u64>,
)
    ensures
        variable_in(attrs, complete, encoding, low_pc, high_pc) matches Ok(Some((index, data))) ==> {
            &&& data.locations.len() > 0
            &&& data.locations[0].storage == VariableStorage::Local(index)
            &&& forall|i: int|
                0 <= i < data.locations.len() ==> (#[trigger] data.locations[i]).storage is Local
        },
{
    if let Some(at) = location_in(attrs) {
        if let LocationValue::Lists(lists) = attrs[at]->Location_0 {
            if let Some(entries) = entries_for(lists@, low_pc) {
                ranges_are_in_locals(entries, encoding);
            }
        }
    }
}

proof fn location_is_one(attrs: Seq<Attr>)
    ensures
        location_in(attrs) matches Some(at) ==> 0 <= at < attrs.len() && attrs[at] is Location,
    decreases attrs.len(),
{
    if attrs.len() > 0 {
        location_is_one(attrs.drop_last());
    }
}

/// What an entry says of a variable, and the local that it is first in.
pub fn decode_variable_entry(
    node: &Node,
    encoding: UnitEncoding,
    low_pc: u64,
    high_pc: Option<u64>,
) -> (data: Result<Option<(u32, DwarfLocalData)>, DwarfError>)
    ensures
        match data {
            Ok(Some((index, data))) => variable_in(
                node.attrs@,
                node.attrs_complete,
                encoding,
                low_pc,
                high_pc,
            ) == Ok::<Option<(u32, LocalData)>, DwarfError>(Some((index, data@))),
            Ok(None) => variable_in(node.attrs@, node.attrs_complete, encoding, low_pc, high_pc)
                == Ok::<Option<(u32, LocalData)>, DwarfError>(None),
            Err(e) => variable_in(node.attrs@, node.attrs_complete, encoding, low_pc, high_pc)
                == Err::<Option<(u32, LocalData)>, DwarfError>(e),
        },
{
    if !node.attrs_complete {
        return Err(DwarfError {  });
    }
    let attrs = &node.attrs;
    let mut name: Option<String> = None;
    let mut location: Option<usize> = None;
    let mut decl_line: Option<u32> = None;
    let mut decl_column: Option<u32> = None;
    let mut i: usize = 0;
    while i < attrs.len()
        invariant
            i <= attrs@.len(),
            match name {
                Some(name) => name_in(attrs@.take(i as int)) == Some(name@),
                None => name_in(attrs@.take(i as int)) is None,
            },
            match location {
                Some(at) => location_in(attrs@.take(i as int)) == Some(at as int) && at < i,
                None => location_in(attrs@.take(i as int)) is None,
            },
            decl_line == line_in(attrs@.take(i as int)),
            decl_column == column_in(attrs@.take(i as int)),
        decreases attrs@.len() - i,
    {
        assert(attrs@.take(i + 1).drop_last() == attrs@.take(i as int));
        assert(attrs@.take(i + 1).last() == attrs@[i as int]);
        match &attrs[i] {
            Attr::Name(text) => {
                name = Some(text.as_str().to_owned());
            },
            Attr::Location(_) => {
                location = Some(i);
            },
            Attr::DeclLine(line) => {
                decl_line = Some(*line as u32);
            },
            Attr::DeclColumn(column) => {
                decl_column = Some(*column as u32);
            },
            _ => {},
        }
        i = i + 1;
    }
    assert(attrs@.take(attrs@.len() as int) == attrs@);
    let at = match location {
        None => return Ok(None),
        Some(at) => at,
    };
    proof {
        location_is_one(attrs@);
        kept_locations_are_locals(attrs@, true, encoding, low_pc, high_pc);
    }
    let mut locations: Vec<LocationDescriptor> = Vec::new();
    match &attrs[at] {
        Attr::Location(LocationValue::Expression(bytes)) => {
            match decode_storage_from_expression(bytes.as_slice(), encoding) {
                Err(e) => return Err(e),
                Ok(Some(VariableStorage::Local(index))) => {
                    let storage = VariableStorage::Local(index);
                    locations.push(LocationDescriptor { start: low_pc, end: high_pc, storage });
                },
                Ok(_) => return Ok(None),
            }
        },
        Attr::Location(LocationValue::Lists(lists)) => {
            let entries = match find_entries(lists, low_pc) {
                None => return Err(DwarfError {  }),
                Some(entries) => entries,
            };
            match decode_list(entries, encoding) {
                Err(e) => return Err(e),
                Ok(ranges) => {
                    locations = ranges;
                },
            }
        },
        _ => return Ok(None),
    }
    assert(ranges_of(attrs@[at as int]->Location_0, encoding, low_pc, high_pc) == Ok::<
        Seq<LocationDescriptor>,
        DwarfError,
    >(locations@));
    if locations.len() == 0 {
        return Ok(None);
    }
    match locations[0].storage.as_local() {
        Some(index) => {
            let data = DwarfLocalData { name, locations, decl_line, decl_column };
            Ok(Some((index, data)))
        },
        None => Ok(None),
    }
}

/// The first linkage name among attributes.
pub open spec fn linkage_name_in(attrs: Seq<Attr>) -> Option<Seq<char>>
    decreases attrs.len(),
{
    if attrs.len() == 0 {
        None
    } else {
        match linkage_name_in(attrs.drop_last()) {
            Some(name) => Some(name),
            None => match attrs.last() {
                Attr::LinkageName(name) => Some(name@),
                _ => None,
            },
        }
    }
}

/// The name of a subprogram: its name, or else its linkage name.
pub open spec fn subprogram_name(attrs: Seq<Attr>) -> Option<Seq<char>> {
    match name_in(attrs) {
        Some(name) => Some(name),
        None => linkage_name_in(attrs),
    }
}

/// Where a subprogram starts and ends. A size counts from the start, if that came before it.
pub open spec fn pcs_in(attrs: Seq<Attr>) -> (Option<u64>, Option<u64>)
    decreases attrs.len(),
{
    if attrs.len() == 0 {
        (None, None)
    } else {
        let (low, high) = pcs_in(attrs.drop_last());
        match attrs.last() {
            Attr::LowPc(PcValue::Addr(addr)) => (Some(addr), high),
            Attr::LowPc(PcValue::Udata(value)) => (Some(value), high),
            Attr::HighPc(PcValue::Addr(addr)) => (low, Some(addr)),
            Attr::HighPc(PcValue::Udata(size)) => match low {
                Some(base) => (low, Some(saturating_sum(base, size))),
                None => (low, high),
            },
            _ => (low, high),
        }
    }
}

/// The sum of two numbers, or the greatest number if it is greater.
pub open spec fn saturating_sum(a: u64, b: u64) -> u64 {
    if a + b > u64::MAX {
        u64::MAX
    } else {
        (a + b) as u64
    }
}

/// The last function of the given name.
pub open spec fn function_named(functions: Seq<String>, name: Seq<char>) -> Option<u32>
    decreases functions.len(),
{
    if functions.len() == 0 {
        None
    } else if functions.last()@ == name {
        Some((functions.len() - 1) as u32)
    } else {
        function_named(functions.drop_last(), name)
    }
}

/// Where the body of a function is in the file.
#[derive(Clone, Copy, PartialEq, Eq, Debug, Structural)]
pub struct BodyOffset {
    pub function: u32,
    pub offset: u64,
}

/// The distance from `base`, or zero.
pub open spec fn distance(offset: u64, base: u64) -> u64 {
    if offset >= base {
        (offset - base) as u64
    } else {
        0
    }
}

/// The last function whose body starts at the given distance from the start of the code section.
pub open spec fn function_starting_at(bodies: Seq<BodyOffset>, code_section: u64, start: u64) -> Option<
    u32,
>
    decreases bodies.len(),
{
    if bodies.len() == 0 {
        None
    } else if distance(bodies.last().offset, code_section) == start {
        Some(bodies.last().function)
    } else {
        function_starting_at(bodies.drop_last(), code_section, start)
    }
}

/// The functions of a module.
pub struct FunctionTable {
    /// The names of the functions, by their index
    pub names: Vec<String>,
    /// Where the bodies of the defined functions are
    pub bodies: Vec<BodyOffset>,
    /// Where the code section is
    pub code_section_offset: u64,
}

impl FunctionTable {
    /// The function that a subprogram stands for, where it starts, and where it ends. A function
    /// is found by its name, or else by where it starts.
    pub open spec fn target(&self, attrs: Seq<Attr>) -> Option<(u32, u64, Option<u64>)> {
        let (low, high) = pcs_in(attrs);
        let by_name = match subprogram_name(attrs) {
            Some(name) => function_named(self.names@, name),
            None => None,
        };
        match by_name {
            Some(function) => Some(
                (
                    function,
                    match low {
                        Some(base) => base,
                        None => 0,
                    },
                    high,
                ),
            ),
            None => match low {
                Some(base) => match function_starting_at(
                    self.bodies@,
                    self.code_section_offset,
                    base,
                ) {
                    Some(function) => Some((function, base, high)),
                    None => None,
                },
                None => None,
            },
        }
    }

    fn find_named(&self, name: &str) -> (function: Option<u32>)
        requires
            self.names@.len() <= u32::MAX,
        ensures
            function == function_named(self.names@, name@),
    {
        let mut i: usize = self.names.len();
        assert(self.names@.take(self.names@.len() as int) == self.names@);
        while i > 0
            invariant
                i <= self.names@.len() <= u32::MAX,
                function_named(self.names@, name@) == function_named(
                    self.names@.take(i as int),
                    name@,
                ),
            decreases i,
        {
            i = i - 1;
            assert(self.names@.take(i + 1).drop_last() == self.names@.take(i as int));
            if same_text(self.names[i].as_str(), name) {
                return Some(i as u32);
            }
        }
        None
    }

    fn find_starting_at(&self, start: u64) -> (function: Option<u32>)
        ensures
            function == function_starting_at(self.bodies@, self.code_section_offset, start),
    {
        let mut i: usize = self.bodies.len();
        assert(self.bodies@.take(self.bodies@.len() as int) == self.bodies@);
        while i > 0
            invariant
                i <= self.bodies@.len(),
                function_starting_at(self.bodies@, self.code_section_offset, start)
                    == function_starting_at(
                    self.bodies@.take(i as int),
                    self.code_section_offset,
                    start,
                ),
            decreases i,
        {
            i = i - 1;
            assert(self.bodies@.take(i + 1).drop_last() == self.bodies@.take(i as int));
            let body = self.bodies[i];
            if body.offset.saturating_sub(self.code_section_offset) == start {
                return Some(body.function);
            }
        }
        None
    }
}

/// Where a subprogram starts and ends.
pub fn program_counters(attrs: &Vec<Attr>) -> (pcs: (Option<u64>, Option<u64>))
    ensures
        pcs == pcs_in(attrs@),
{
    let mut low: Option<u64> = None;
    let mut high: Option<u64> = None;
    let mut i: usize = 0;
    while i < attrs.len()
        invariant
            i <= attrs@.len(),
            (low, high) == pcs_in(attrs@.take(i as int)),
        decreases attrs@.len() - i,
    {
        assert(attrs@.take(i + 1).drop_last() == attrs@.take(i as int));
        match &attrs[i] {
            Attr::LowPc(PcValue::Addr(addr)) => {
                low = Some(*addr);
            },
            Attr::LowPc(PcValue::Udata(value)) => {
                low = Some(*value);
            },
            Attr::HighPc(PcValue::Addr(addr)) => {
                high = Some(*addr);
            },
            Attr::HighPc(PcValue::Udata(size)) => {
                if let Some(base) = low {
                    high = Some(base.saturating_add(*size));
                }
            },
            _ => {},
        }
        i = i + 1;
    }
    assert(attrs@.take(attrs@.len() as int) == attrs@);
    (low, high)
}

/// The function that a subprogram stands for, where it starts, and where it ends.
pub fn resolve_subprogram_target(table: &FunctionTable, attrs: &Vec<Attr>) -> (target: Option<
    (u32, u64, Option<u64>),
>)
    requires
        table.names@.len() <= u32::MAX,
    ensures
        target == table.target(attrs@),
{
    let mut name: Option<usize> = None;
    let mut linkage: Option<usize> = None;
    let (low, high) = program_counters(attrs);
    let mut i: usize = 0;
    while i < attrs.len()
        invariant
            i <= attrs@.len(),
            match name {
                Some(at) => at < i && attrs@[at as int] is Name && name_in(attrs@.take(i as int))
                    == Some((attrs@[at as int]->Name_0)@),
                None => name_in(attrs@.take(i as int)) is None,
            },
            match linkage {
                Some(at) => at < i && attrs@[at as int] is LinkageName && linkage_name_in(
                    attrs@.take(i as int),
                ) == Some((attrs@[at as int]->LinkageName_0)@),
                None => linkage_name_in(attrs@.take(i as int)) is None,
            },
        decreases attrs@.len() - i,
    {
        assert(attrs@.take(i + 1).drop_last() == attrs@.take(i as int));
        assert(attrs@.take(i + 1).last() == attrs@[i as int]);
        match &attrs[i] {
            Attr::Name(_) => {
                name = Some(i);
            },
            Attr::LinkageName(_) => {
                if linkage.is_none() {
                    linkage = Some(i);
                }
            },
            _ => {},
        }
        i = i + 1;
    }
    assert(attrs@.take(attrs@.len() as int) == attrs@);
    let chosen = match name {
        Some(at) => Some(at),
        None => linkage,
    };
    if let Some(at) = chosen {
        let found = match &attrs[at] {
            Attr::Name(text) => table.find_named(text.as_str()),
            Attr::LinkageName(text) => table.find_named(text.as_str()),
            _ => None,
        };
        if let Some(function) = found {
            let start = match low {
                Some(base) => base,
                None => 0,
            };
            return Some((function, start, high));
        }
    }
    if let Some(base) = low {
        if let Some(function) = table.find_starting_at(base) {
            return Some((function, base, high));
        }
    }
    None
}

} // verus!

//! Types and constants of the intermediate representation.
use vstd::prelude::*;

verus! {

/// The types of single values.
#[derive(Clone, Copy, PartialEq, Eq, Debug, Hash, Structural)]
pub enum ScalarType {
    I1,
    I8,
    U8,
    I16,
    U16,
    I32,
    U32,
    I64,
    U64,
    I128,
    U128,
    Felt,
    Ptr,
}

impl ScalarType {
    /// How many field elements a value of this type takes on the operand stack: one for every
    /// 32 bits.
    pub open spec fn felts(self) -> nat {
        match self {
            ScalarType::I64 | ScalarType::U64 => 2,
            ScalarType::I128 | ScalarType::U128 => 4,
            _ => 1,
        }
    }

    /// How many field elements a value of this type takes on the operand stack.
    pub fn size_in_felts(&self) -> (n: usize)
        ensures
            n == self.felts(),
            1 <= n <= 4,
    {
        match self {
            ScalarType::I64 | ScalarType::U64 => 2,
            ScalarType::I128 | ScalarType::U128 => 4,
            _ => 1,
        }
    }

    /// How many bytes a value of this type takes in memory. Memory holds one field element for
    /// every 32 bits, so that is what an element counts for.
    pub open spec fn bytes(self) -> nat {
        match self {
            ScalarType::I1 | ScalarType::I8 | ScalarType::U8 => 1,
            ScalarType::I16 | ScalarType::U16 => 2,
            ScalarType::I64 | ScalarType::U64 => 8,
            ScalarType::I128 | ScalarType::U128 => 16,
            _ => 4,
        }
    }

    /// How many bytes a value of this type takes in memory.
    pub fn size_in_bytes(&self) -> (n: u32)
        ensures
            n == self.bytes(),
            1 <= n <= 16,
    {
        match self {
            ScalarType::I1 | ScalarType::I8 | ScalarType::U8 => 1,
            ScalarType::I16 | ScalarType::U16 => 2,
            ScalarType::I64 | ScalarType::U64 => 8,
            ScalarType::I128 | ScalarType::U128 => 16,
            _ => 4,
        }
    }

    /// The alignment of values of this type in memory: 128-bit integers are aligned to words, and
    /// others to field elements at most.
    pub open spec fn alignment(self) -> nat {
        match self {
            ScalarType::I1 | ScalarType::I8 | ScalarType::U8 => 1,
            ScalarType::I16 | ScalarType::U16 => 2,
            ScalarType::I128 | ScalarType::U128 => 16,
            _ => 4,
        }
    }

    /// The alignment of values of this type in memory.
    pub fn min_alignment(&self) -> (n: u32)
        ensures
            n == self.alignment(),
            1 <= n <= 16,
    {
        match self {
            ScalarType::I1 | ScalarType::I8 | ScalarType::U8 => 1,
            ScalarType::I16 | ScalarType::U16 => 2,
            ScalarType::I128 | ScalarType::U128 => 16,
            _ => 4,
        }
    }
}

/// The next multiple of `align` from `offset` on.
pub open spec fn aligned_up(offset: int, align: int) -> int {
    if offset % align == 0 {
        offset
    } else {
        offset + align - offset % align
    }
}

/// Where the field of the given number starts in a structure of these types.
pub open spec fn field_offset(types: Seq<ScalarType>, index: int) -> int
    decreases index,
{
    if index <= 0 {
        0
    } else {
        aligned_up(
            field_offset(types, index - 1) + types[index - 1].bytes(),
            types[index].alignment() as int,
        )
    }
}

/// Where the field of the given number ends.
pub open spec fn field_end(types: Seq<ScalarType>, index: int) -> int {
    field_offset(types, index) + types[index].bytes()
}

/// Fields are aligned, and do not overlap: each starts where the one before it ends, or after.
pub proof fn fields_are_laid_out(types: Seq<ScalarType>, index: int)
    requires
        0 <= index < types.len(),
    ensures
        field_offset(types, index) % (types[index].alignment() as int) == 0,
        index > 0 ==> field_end(types, index - 1) <= field_offset(types, index),
        0 <= field_offset(types, index) < field_end(types, index) <= 32 * (index + 1),
    decreases index,
{
    if index > 0 {
        fields_are_laid_out(types, index - 1);
        let end = field_end(types, index - 1);
        assert((end + 2 - end % 2) % 2 == 0);
        assert(end + 4 - end % 4 == 4 * (end / 4 + 1));
        assert((4 * (end / 4 + 1)) % 4 == 0);
        assert(end + 16 - end % 16 == 16 * (end / 16 + 1));
        assert((16 * (end / 16 + 1)) % 16 == 0);
    }
}

/// Where each field starts in a structure of these types.
pub fn field_offsets(types: &Vec<ScalarType>) -> (offsets: Vec<u32>)
    requires
        types@.len() <= 255,
    ensures
        offsets@.len() == types@.len(),
        forall|i: int|
            0 <= i < types@.len() ==> #[trigger] offsets@[i] == field_offset(types@, i),
{
    let mut offsets: Vec<u32> = Vec::new();
    let mut end: u32 = 0;
    let mut i: usize = 0;
    while i < types.len()
        invariant
            i <= types@.len() <= 255,
            offsets@.len() == i,
            i == 0 ==> end == 0,
            i > 0 ==> end == field_end(types@, i - 1),
            end <= 32 * i,
            forall|j: int| 0 <= j < i ==> #[trigger] offsets@[j] == field_offset(types@, j),
        decreases types@.len() - i,
    {
        let align = types[i].min_alignment();
        let offset: u32 = if end % align == 0 {
            end
        } else {
            end + (align - end % align)
        };
        proof {
            fields_are_laid_out(types@, i as int);
        }
        assert(offset == field_offset(types@, i as int));
        offsets.push(offset);
        end = offset + types[i].size_in_bytes();
        i = i + 1;
    }
    offsets
}

/// A constant.
#[derive(Clone, Copy, PartialEq, Eq, Debug, Hash, Structural)]
pub enum Immediate {
    I1(bool),
    U8(u8),
    I8(i8),
    U16(u16),
    I16(i16),
    U32(u32),
    I32(i32),
    U64(u64),
    I64(i64),
    U128(u128),
    I128(i128),
    Felt(u64),
}

impl Immediate {
    /// The constant as a number; truth is one.
    pub open spec fn number(self) -> int {
        match self {
            Immediate::I1(b) => if b {
                1
            } else {
                0
            },
            Immediate::U8(n) => n as int,
            Immediate::I8(n) => n as int,
            Immediate::U16(n) => n as int,
            Immediate::I16(n) => n as int,
            Immediate::U32(n) => n as int,
            Immediate::I32(n) => n as int,
            Immediate::U64(n) => n as int,
            Immediate::I64(n) => n as int,
            Immediate::U128(n) => n as int,
            Immediate::I128(n) => n as int,
            Immediate::Felt(n) => n as int,
        }
    }

    /// Whether the constant is not zero.
    pub fn is_not_zero(&self) -> (b: bool)
        ensures
            b == (self.number() != 0),
    {
        match self {
            Immediate::I1(b) => *b,
            Immediate::U8(n) => *n != 0,
            Immediate::I8(n) => *n != 0,
            Immediate::U16(n) => *n != 0,
            Immediate::I16(n) => *n != 0,
            Immediate::U32(n) => *n != 0,
            Immediate::I32(n) => *n != 0,
            Immediate::U64(n) => *n != 0,
            Immediate::I64(n) => *n != 0,
            Immediate::U128(n) => *n != 0,
            Immediate::I128(n) => *n != 0,
            Immediate::Felt(n) => *n != 0,
        }
    }

    /// The constant as a number of 32 bits, if it is one.
    pub fn as_u32(&self) -> (n: Option<u32>)
        ensures
            n == if 0 <= self.number() <= u32::MAX {
                Some(self.number() as u32)
            } else {
                None
            },
    {
        match self {
            Immediate::I1(b) => Some(if *b {
                1
            } else {
                0
            }),
            Immediate::U8(n) => Some(*n as u32),
            Immediate::I8(n) => if *n >= 0 {
                Some(*n as u32)
            } else {
                None
            },
            Immediate::U16(n) => Some(*n as u32),
            Immediate::I16(n) => if *n >= 0 {
                Some(*n as u32)
            } else {
                None
            },
            Immediate::U32(n) => Some(*n as u32),
            Immediate::I32(n) => if *n >= 0 {
                Some(*n as u32)
            } else {
                None
            },
            Immediate::U64(n) => if *n <= 0xffff_ffff {
                Some(*n as u32)
            } else {
                None
            },
            Immediate::I64(n) => if *n >= 0 && *n <= 0xffff_ffff {
                Some(*n as u32)
            } else {
                None
            },
            Immediate::U128(n) => if *n <= 0xffff_ffff {
                Some(*n as u32)
            } else {
                None
            },
            Immediate::I128(n) => if *n >= 0 && *n <= 0xffff_ffff {
                Some(*n as u32)
            } else {
                None
            },
            Immediate::Felt(n) => if *n <= 0xffff_ffff {
                Some(*n as u32)
            } else {
                None
            },
        }
    }

    /// The type of the constant.
    pub open spec fn type_of(self) -> ScalarType {
        match self {
            Immediate::I1(_) => ScalarType::I1,
            Immediate::U8(_) => ScalarType::U8,
            Immediate::I8(_) => ScalarType::I8,
            Immediate::U16(_) => ScalarType::U16,
            Immediate::I16(_) => ScalarType::I16,
            Immediate::U32(_) => ScalarType::U32,
            Immediate::I32(_) => ScalarType::I32,
            Immediate::U64(_) => ScalarType::U64,
            Immediate::I64(_) => ScalarType::I64,
            Immediate::U128(_) => ScalarType::U128,
            Immediate::I128(_) => ScalarType::I128,
            Immediate::Felt(_) => ScalarType::Felt,
        }
    }

    /// The type of the constant.
    pub fn ty(&self) -> (ty: ScalarType)
        ensures
            ty == self.type_of(),
    {
        match self {
            Immediate::I1(_) => ScalarType::I1,
            Immediate::U8(_) => ScalarType::U8,
            Immediate::I8(_) => ScalarType::I8,
            Immediate::U16(_) => ScalarType::U16,
            Immediate::I16(_) => ScalarType::I16,
            Immediate::U32(_) => ScalarType::U32,
            Immediate::I32(_) => ScalarType::I32,
            Immediate::U64(_) => ScalarType::U64,
            Immediate::I64(_) => ScalarType::I64,
            Immediate::U128(_) => ScalarType::U128,
            Immediate::I128(_) => ScalarType::I128,
            Immediate::Felt(_) => ScalarType::Felt,
        }
    }
}

} // verus!

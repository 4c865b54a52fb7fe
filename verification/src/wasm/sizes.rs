//! How large values are, on the operand stack and in memory.
use vstd::prelude::*;
use crate::types::{aligned_up, field_end, field_offset, Immediate, ScalarType};
use crate::wasm::ir::IrType;
use crate::wasm::meaning::{footprint, is_number, range_of, width_of};

verus! {

/// A value takes an element of the operand stack for every 32 bits, and a byte of memory for every 8,
/// but for a field element, which is one element and takes the memory of 32 bits. No value is aligned
/// to more than its size, and only a value of 128 bits is aligned to a word.
pub proof fn sizes_go_by_bits(ty: ScalarType)
    ensures
        ({
            let width = width_of(IrType::Scalar(ty));
            &&& ty.bytes() == footprint(ty)
            &&& ty != ScalarType::Felt ==> ty.bytes() == (width + 7) / 8 && ty.felts() == (width + 31)
                / 32
            &&& ty == ScalarType::Felt ==> ty.bytes() == 4 && ty.felts() == 1
            &&& ty.alignment() == if ty.bytes() == 8 {
                4
            } else {
                ty.bytes()
            }
        }),
{
}

/// A constant is a number of its type.
pub proof fn constants_fit_their_type(imm: Immediate)
    ensures
        !(imm is Felt) ==> is_number(IrType::Scalar(imm.type_of()), imm.number()),
        imm is Felt ==> imm.type_of() == ScalarType::Felt && imm.number() >= 0,
{
    let range = range_of(IrType::Scalar(imm.type_of()));
    assert(range > 0);
}

/// No more space is left before a field than its alignment asks for.
pub proof fn fields_are_packed(types: Seq<ScalarType>, i: int)
    requires
        0 < i < types.len(),
    ensures
        field_offset(types, 0) == 0,
        0 <= field_offset(types, i) - field_end(types, i - 1) < types[i].alignment(),
{
    let end = field_end(types, i - 1);
    let align = types[i].alignment() as int;
    assert(field_offset(types, i) == aligned_up(end, align));
    assert(0 <= end % align < align);
}

} // verus!

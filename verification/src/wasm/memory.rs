//! Memory accesses, and operators on 128 bits.
use vstd::prelude::*;
use crate::types::{Immediate, ScalarType};
use crate::wasm::builder::{Built, FunctionBuilder};
use crate::wasm::ir::{BinaryOp, Conversion, Event, IrType, Value};
use crate::wasm::operator::MemArg;
use crate::wasm::state::{FuncTranslationState, Trans};

verus! {

/// A value of the type can be used as an address.
pub open spec fn is_address(ty: IrType) -> bool {
    ty == IrType::Scalar(ScalarType::U32) || ty == IrType::Scalar(ScalarType::I32) || ty is Ptr
}

/// An address as an integer without a sign.
pub open spec fn address(b: Built, addr: Value) -> (Built, Value) {
    let u32_ty = IrType::Scalar(ScalarType::U32);
    if addr.ty == u32_ty {
        (b, addr)
    } else if addr.ty == IrType::Scalar(ScalarType::I32) {
        b.convert(Conversion::Bitcast, addr, u32_ty)
    } else {
        b.convert(Conversion::PtrToInt, addr, u32_ty)
    }
}

/// An address with the offset of an access added, if it has one.
pub open spec fn offset_added(built: (Built, Value), memarg: MemArg) -> (Built, Value) {
    if memarg.offset == 0 {
        built
    } else {
        let (b, imm) = built.0.imm(Immediate::U32(memarg.offset as u32));
        b.binary(BinaryOp::Add, built.1, imm)
    }
}

/// The check that an address has the alignment that an access promises, if it promises one.
pub open spec fn alignment_checked(built: (Built, Value), memarg: MemArg) -> (Built, Value) {
    if memarg.align == 0 {
        built
    } else {
        let (b1, imm) = built.0.imm(
            Immediate::U32(vstd::arithmetic::power2::pow2(memarg.align as nat) as u32),
        );
        let (b2, rest) = b1.binary(BinaryOp::Mod, built.1, imm);
        (b2.step(Event::AssertAligned { value: rest }, 0), built.1)
    }
}

/// A pointer to a value of type `ty` at an address.
pub open spec fn pointed(b: Built, addr: Value, ty: ScalarType, memarg: Option<MemArg>) -> (
    Built,
    Value,
) {
    let start = address(b, addr);
    let (b1, full) = match memarg {
        Some(memarg) => alignment_checked(offset_added(start, memarg), memarg),
        None => start,
    };
    b1.convert(Conversion::IntToPtr, full, IrType::Ptr(ty))
}

/// What a load makes of the state.
pub open spec fn loaded(t: Trans, ty: ScalarType, memarg: MemArg) -> Trans {
    let (b, addr) = pointed(t.b, t.peek(0), ty, Some(memarg));
    let result = b.fresh(0, IrType::Scalar(ty));
    t.popped(1).gains((b.step(Event::Load { addr, result }, 1), result))
}

/// What a load that extends the sign makes of the state.
pub open spec fn loaded_sext(t: Trans, ty: ScalarType, to: ScalarType, memarg: MemArg) -> Trans {
    let (b, addr) = pointed(t.b, t.peek(0), ty, Some(memarg));
    let val = b.fresh(0, IrType::Scalar(ty));
    let b1 = b.step(Event::Load { addr, result: val }, 1);
    t.popped(1).gains(b1.convert(Conversion::Sext, val, IrType::Scalar(to)))
}

/// What a load that extends with zeros makes of the state. The result has the sign of the types of
/// WebAssembly.
pub open spec fn loaded_zext(t: Trans, ty: ScalarType, to: ScalarType, memarg: MemArg) -> Trans {
    let (b, addr) = pointed(t.b, t.peek(0), ty, Some(memarg));
    let val = b.fresh(0, IrType::Scalar(ty));
    let b1 = b.step(Event::Load { addr, result: val }, 1);
    let (b2, zext) = b1.convert(Conversion::Zext, val, IrType::Scalar(to));
    t.popped(1).gains(
        match to {
            ScalarType::U32 => b2.convert(
                Conversion::Bitcast,
                zext,
                IrType::Scalar(ScalarType::I32),
            ),
            ScalarType::U64 => b2.convert(
                Conversion::Bitcast,
                zext,
                IrType::Scalar(ScalarType::I64),
            ),
            _ => (b2, zext),
        },
    )
}

/// A value as it is stored where a value of type `ty` is expected: reinterpreted if the sizes are
/// the same, else cut.
pub open spec fn storable(b: Built, val: Value, ty: ScalarType) -> (Built, Value) {
    let to = IrType::Scalar(ty);
    if to == val.ty {
        (b, val)
    } else if to.bits() == val.ty.bits() {
        b.convert(Conversion::Bitcast, val, to)
    } else if to.is_unsigned() && val.ty.unsigned() is Some {
        let (b1, uval) = b.convert(Conversion::Bitcast, val, val.ty.unsigned()->0);
        b1.convert(Conversion::Trunc, uval, to)
    } else {
        b.convert(Conversion::Trunc, val, to)
    }
}

/// What a store makes of the state.
pub open spec fn stored(t: Trans, ty: ScalarType, memarg: MemArg) -> Trans {
    let (b, value) = storable(t.b, t.peek(0), ty);
    let (b1, addr) = pointed(b, t.peek(1), ty, Some(memarg));
    Trans { b: b1.step(Event::Store { addr, value }, 0), ..t.popped(2) }
}

/// What a copy of memory makes of the state: the count is on top, then the source, then the
/// destination.
pub open spec fn memory_copied(t: Trans) -> Trans {
    let (b1, count) = t.b.convert(
        Conversion::Bitcast,
        t.peek(0),
        IrType::Scalar(ScalarType::U32),
    );
    let (b2, dst) = pointed(b1, t.peek(2), ScalarType::U8, None);
    let (b3, src) = pointed(b2, t.peek(1), ScalarType::U8, None);
    Trans { b: b3.step(Event::MemCpy { src, dst, count }, 0), ..t.popped(3) }
}

/// What filling memory makes of the state: the count is on top, then the value, then the
/// destination.
pub open spec fn memory_filled(t: Trans) -> Trans {
    let (b1, value) = t.b.convert(
        Conversion::Trunc,
        t.peek(1),
        IrType::Scalar(ScalarType::U8),
    );
    let (b2, count) = b1.convert(
        Conversion::Bitcast,
        t.peek(0),
        IrType::Scalar(ScalarType::U32),
    );
    let (b3, dst) = pointed(b2, t.peek(2), ScalarType::U8, None);
    Trans { b: b3.step(Event::MemSet { dst, count, value }, 0), ..t.popped(3) }
}

/// The type of twice the size.
pub open spec fn doubled(ty: IrType) -> IrType {
    if ty == IrType::Scalar(ScalarType::U64) {
        IrType::Scalar(ScalarType::U128)
    } else {
        IrType::Scalar(ScalarType::I128)
    }
}

/// The type of half the size.
pub open spec fn halved(ty: IrType) -> IrType {
    if ty == IrType::Scalar(ScalarType::U128) {
        IrType::Scalar(ScalarType::U64)
    } else {
        IrType::Scalar(ScalarType::I64)
    }
}

/// Two halves as one value.
pub open spec fn joined(b: Built, hi: Value, lo: Value) -> (Built, Value) {
    let result = b.fresh(0, doubled(hi.ty));
    (b.step(Event::Join { hi, lo, result }, 1), result)
}

/// The state with the halves of a result on top, the high one last.
pub open spec fn halves_pushed(t: Trans, built: (Built, Value)) -> Trans {
    let b = built.0;
    let hi = b.fresh(0, halved(built.1.ty));
    let lo = b.fresh(1, halved(built.1.ty));
    Trans {
        b: b.step(Event::Split { arg: built.1, hi, lo }, 2),
        stack: t.stack.push(lo).push(hi),
        ..t
    }
}

/// What an operation on two values of 128 bits makes of the state.
pub open spec fn wide(t: Trans, op: BinaryOp) -> Trans {
    let (b1, lhs) = joined(t.b, t.peek(3), t.peek(2));
    let (b2, rhs) = joined(b1, t.peek(1), t.peek(0));
    halves_pushed(t.popped(4), b2.binary(op, lhs, rhs))
}

/// What a multiplication to 128 bits without a sign makes of the state.
pub open spec fn mul_wide_u(t: Trans) -> Trans {
    let u64_ty = IrType::Scalar(ScalarType::U64);
    let u128_ty = IrType::Scalar(ScalarType::U128);
    let (b1, lhs_u) = t.b.convert(Conversion::Bitcast, t.peek(1), u64_ty);
    let (b2, lhs) = b1.convert(Conversion::Zext, lhs_u, u128_ty);
    let (b3, rhs_u) = b2.convert(Conversion::Bitcast, t.peek(0), u64_ty);
    let (b4, rhs) = b3.convert(Conversion::Zext, rhs_u, u128_ty);
    halves_pushed(t.popped(2), b4.binary(BinaryOp::MulWrapping, lhs, rhs))
}

/// What a multiplication to 128 bits with a sign makes of the state.
pub open spec fn mul_wide_s(t: Trans) -> Trans {
    let i128_ty = IrType::Scalar(ScalarType::I128);
    let (b1, lhs) = t.b.convert(Conversion::Sext, t.peek(1), i128_ty);
    let (b2, rhs) = b1.convert(Conversion::Sext, t.peek(0), i128_ty);
    halves_pushed(t.popped(2), b2.binary(BinaryOp::MulWrapping, lhs, rhs))
}

fn pow2_u32(n: u8) -> (p: u32)
    requires
        n < 32,
    ensures
        p == vstd::arithmetic::power2::pow2(n as nat),
{
    let mut p: u32 = 1;
    let mut i: u8 = 0;
    proof {
        vstd::arithmetic::power2::lemma2_to64();
    }
    while i < n
        invariant
            i <= n < 32,
            p == vstd::arithmetic::power2::pow2(i as nat),
            vstd::arithmetic::power2::pow2(31) == 0x8000_0000,
        decreases n - i,
    {
        proof {
            vstd::arithmetic::power2::lemma_pow2_unfold((i + 1) as nat);
            if i < 31 {
                if i + 1 < 31 {
                    vstd::arithmetic::power2::lemma_pow2_strictly_increases((i + 1) as nat, 31);
                }
            }
        }
        p = p * 2;
        i = i + 1;
    }
    p
}

/// Forms the pointer that an access goes through.
pub fn prepare_addr(
    addr_int: Value,
    ptr_ty: ScalarType,
    memarg: Option<MemArg>,
    builder: &mut FunctionBuilder,
) -> (addr: Value)
    requires
        is_address(addr_int.ty),
        memarg matches Some(memarg) ==> memarg.align < 32,
        old(builder)@.next + 6 <= u32::MAX,
    ensures
        (final(builder)@, addr) == pointed(old(builder)@, addr_int, ptr_ty, memarg),
        final(builder)@.next <= old(builder)@.next + 6,
{
    let u32_ty = IrType::Scalar(ScalarType::U32);
    let addr_u32 = if addr_int.ty == u32_ty {
        addr_int
    } else if addr_int.ty == IrType::Scalar(ScalarType::I32) {
        builder.convert(Conversion::Bitcast, addr_int, u32_ty)
    } else {
        builder.convert(Conversion::PtrToInt, addr_int, u32_ty)
    };
    let mut full_addr_int = addr_u32;
    if let Some(memarg) = memarg {
        if memarg.offset != 0 {
            let imm = builder.imm(Immediate::U32(memarg.offset as u32));
            full_addr_int = builder.binary(BinaryOp::Add, addr_u32, imm);
        }
        if memarg.align > 0 {
            let imm = builder.imm(Immediate::U32(pow2_u32(memarg.align)));
            let align_offset = builder.binary(BinaryOp::Mod, full_addr_int, imm);
            builder.push(Event::AssertAligned { value: align_offset });
        }
    }
    builder.convert(Conversion::IntToPtr, full_addr_int, IrType::Ptr(ptr_ty))
}

/// Translates a load.
pub fn translate_load(
    ptr_ty: ScalarType,
    memarg: MemArg,
    state: &mut FuncTranslationState,
    builder: &mut FunctionBuilder,
)
    requires
        old(state).stack@.len() >= 1,
        is_address(old(state).stack@.last().ty),
        memarg.align < 32,
        old(builder)@.next + 8 <= u32::MAX,
    ensures
        final(state).with(&*final(builder)) == loaded(
            old(state).with(&*old(builder)),
            ptr_ty,
            memarg,
        ),
{
    let ghost before = state.with(builder);
    let addr_int = state.pop1();
    let addr = prepare_addr(addr_int, ptr_ty, Some(memarg), builder);
    let value = builder.load(addr, ptr_ty);
    state.push1(value);
    assert(state.with(builder) =~= loaded(before, ptr_ty, memarg));
}

/// Translates a load that extends the sign.
pub fn translate_load_sext(
    ptr_ty: ScalarType,
    sext_ty: ScalarType,
    memarg: MemArg,
    state: &mut FuncTranslationState,
    builder: &mut FunctionBuilder,
)
    requires
        old(state).stack@.len() >= 1,
        is_address(old(state).stack@.last().ty),
        memarg.align < 32,
        old(builder)@.next + 8 <= u32::MAX,
    ensures
        final(state).with(&*final(builder)) == loaded_sext(
            old(state).with(&*old(builder)),
            ptr_ty,
            sext_ty,
            memarg,
        ),
{
    let ghost before = state.with(builder);
    let addr_int = state.pop1();
    let addr = prepare_addr(addr_int, ptr_ty, Some(memarg), builder);
    let value = builder.load(addr, ptr_ty);
    let sext_val = builder.convert(Conversion::Sext, value, IrType::Scalar(sext_ty));
    state.push1(sext_val);
    assert(state.with(builder) =~= loaded_sext(before, ptr_ty, sext_ty, memarg));
}

/// Translates a load that extends with zeros.
pub fn translate_load_zext(
    ptr_ty: ScalarType,
    zext_ty: ScalarType,
    memarg: MemArg,
    state: &mut FuncTranslationState,
    builder: &mut FunctionBuilder,
)
    requires
        IrType::Scalar(ptr_ty).is_unsigned(),
        old(state).stack@.len() >= 1,
        is_address(old(state).stack@.last().ty),
        memarg.align < 32,
        old(builder)@.next + 9 <= u32::MAX,
    ensures
        final(state).with(&*final(builder)) == loaded_zext(
            old(state).with(&*old(builder)),
            ptr_ty,
            zext_ty,
            memarg,
        ),
{
    let ghost before = state.with(builder);
    let addr_int = state.pop1();
    let addr = prepare_addr(addr_int, ptr_ty, Some(memarg), builder);
    let value = builder.load(addr, ptr_ty);
    let zext_val = builder.convert(Conversion::Zext, value, IrType::Scalar(zext_ty));
    let bitcast_val = match zext_ty {
        ScalarType::U32 => builder.convert(
            Conversion::Bitcast,
            zext_val,
            IrType::Scalar(ScalarType::I32),
        ),
        ScalarType::U64 => builder.convert(
            Conversion::Bitcast,
            zext_val,
            IrType::Scalar(ScalarType::I64),
        ),
        _ => zext_val,
    };
    state.push1(bitcast_val);
    assert(state.with(builder) =~= loaded_zext(before, ptr_ty, zext_ty, memarg));
}

/// Translates a store.
pub fn translate_store(
    ptr_ty: ScalarType,
    memarg: MemArg,
    state: &mut FuncTranslationState,
    builder: &mut FunctionBuilder,
)
    requires
        old(state).stack@.len() >= 2,
        is_address(old(state).stack@[old(state).stack@.len() - 2].ty),
        memarg.align < 32,
        old(builder)@.next + 8 <= u32::MAX,
    ensures
        final(state).with(&*final(builder)) == stored(
            old(state).with(&*old(builder)),
            ptr_ty,
            memarg,
        ),
{
    let ghost before = state.with(builder);
    let (addr_int, val) = state.pop2();
    let to = IrType::Scalar(ptr_ty);
    let arg = if to != val.ty {
        if to.size_in_bits() == val.ty.size_in_bits() {
            builder.convert(Conversion::Bitcast, val, to)
        } else {
            match val.ty.as_unsigned() {
                Some(unsigned_val_ty) if to.is_unsigned_integer() => {
                    let uval = builder.convert(Conversion::Bitcast, val, unsigned_val_ty);
                    builder.convert(Conversion::Trunc, uval, to)
                },
                _ => builder.convert(Conversion::Trunc, val, to),
            }
        }
    } else {
        val
    };
    let addr = prepare_addr(addr_int, ptr_ty, Some(memarg), builder);
    builder.push(Event::Store { addr, value: arg });
    assert(state.with(builder) =~= stored(before, ptr_ty, memarg));
}

/// Translates a copy of memory.
pub fn translate_memory_copy(state: &mut FuncTranslationState, builder: &mut FunctionBuilder)
    requires
        old(state).stack@.len() >= 3,
        is_address(old(state).stack@[old(state).stack@.len() - 2].ty),
        is_address(old(state).stack@[old(state).stack@.len() - 3].ty),
        old(builder)@.next + 13 <= u32::MAX,
    ensures
        final(state).with(&*final(builder)) == memory_copied(old(state).with(&*old(builder))),
{
    let ghost before = state.with(builder);
    let (dst_i32, src_i32, count_i32) = state.pop3();
    let count = builder.convert(Conversion::Bitcast, count_i32, IrType::Scalar(ScalarType::U32));
    let dst = prepare_addr(dst_i32, ScalarType::U8, None, builder);
    let src = prepare_addr(src_i32, ScalarType::U8, None, builder);
    builder.push(Event::MemCpy { src, dst, count });
    assert(state.with(builder) =~= memory_copied(before));
}

/// Translates filling memory.
pub fn translate_memory_fill(state: &mut FuncTranslationState, builder: &mut FunctionBuilder)
    requires
        old(state).stack@.len() >= 3,
        is_address(old(state).stack@[old(state).stack@.len() - 3].ty),
        old(builder)@.next + 8 <= u32::MAX,
    ensures
        final(state).with(&*final(builder)) == memory_filled(old(state).with(&*old(builder))),
{
    let ghost before = state.with(builder);
    let (dst_i32, value, num_bytes) = state.pop3();
    let value = builder.convert(Conversion::Trunc, value, IrType::Scalar(ScalarType::U8));
    let count = builder.convert(Conversion::Bitcast, num_bytes, IrType::Scalar(ScalarType::U32));
    let dst = prepare_addr(dst_i32, ScalarType::U8, None, builder);
    builder.push(Event::MemSet { dst, count, value });
    assert(state.with(builder) =~= memory_filled(before));
}

fn double(ty: IrType) -> (d: IrType)
    ensures
        d == doubled(ty),
{
    if ty == IrType::Scalar(ScalarType::U64) {
        IrType::Scalar(ScalarType::U128)
    } else {
        IrType::Scalar(ScalarType::I128)
    }
}

fn halve(ty: IrType) -> (h: IrType)
    ensures
        h == halved(ty),
{
    if ty == IrType::Scalar(ScalarType::U128) {
        IrType::Scalar(ScalarType::U64)
    } else {
        IrType::Scalar(ScalarType::I64)
    }
}

fn push_halves(value: Value, state: &mut FuncTranslationState, builder: &mut FunctionBuilder)
    requires
        old(builder)@.next + 2 <= u32::MAX,
    ensures
        final(state).with(&*final(builder)) == halves_pushed(
            old(state).with(&*old(builder)),
            (old(builder)@, value),
        ),
{
    let ghost before = state.with(builder);
    let (hi, lo) = builder.split(value, halve(value.ty));
    state.push1(lo);
    state.push1(hi);
    assert(state.with(builder) =~= halves_pushed(before, (before.b, value)));
}

/// Translates an operation on two values of 128 bits.
pub fn translate_wide(
    op: BinaryOp,
    state: &mut FuncTranslationState,
    builder: &mut FunctionBuilder,
)
    requires
        old(state).stack@.len() >= 4,
        old(builder)@.next + 8 <= u32::MAX,
    ensures
        final(state).with(&*final(builder)) == wide(old(state).with(&*old(builder)), op),
{
    let ghost before = state.with(builder);
    let (rhs_hi, rhs_lo) = state.pop2();
    let (lhs_hi, lhs_lo) = state.pop2();
    let lhs = builder.join(lhs_hi, lhs_lo, double(lhs_hi.ty));
    let rhs = builder.join(rhs_hi, rhs_lo, double(rhs_hi.ty));
    let result = builder.binary(op, lhs, rhs);
    push_halves(result, state, builder);
    assert(before.stack.take(before.stack.len() - 2).take(before.stack.len() - 4)
        == before.stack.take(before.stack.len() - 4));
    assert(state.with(builder) =~= wide(before, op));
}

/// Translates a multiplication to 128 bits.
pub fn translate_mul_wide(
    signed: bool,
    state: &mut FuncTranslationState,
    builder: &mut FunctionBuilder,
)
    requires
        old(state).stack@.len() >= 2,
        old(builder)@.next + 8 <= u32::MAX,
    ensures
        final(state).with(&*final(builder)) == (if signed {
            mul_wide_s(old(state).with(&*old(builder)))
        } else {
            mul_wide_u(old(state).with(&*old(builder)))
        }),
{
    let ghost before = state.with(builder);
    let (arg1, arg2) = state.pop2();
    if signed {
        let i128_ty = IrType::Scalar(ScalarType::I128);
        let lhs = builder.convert(Conversion::Sext, arg1, i128_ty);
        let rhs = builder.convert(Conversion::Sext, arg2, i128_ty);
        let result = builder.binary(BinaryOp::MulWrapping, lhs, rhs);
        push_halves(result, state, builder);
        assert(state.with(builder) =~= mul_wide_s(before));
    } else {
        let u64_ty = IrType::Scalar(ScalarType::U64);
        let u128_ty = IrType::Scalar(ScalarType::U128);
        let lhs_u = builder.convert(Conversion::Bitcast, arg1, u64_ty);
        let lhs = builder.convert(Conversion::Zext, lhs_u, u128_ty);
        let rhs_u = builder.convert(Conversion::Bitcast, arg2, u64_ty);
        let rhs = builder.convert(Conversion::Zext, rhs_u, u128_ty);
        let result = builder.binary(BinaryOp::MulWrapping, lhs, rhs);
        push_halves(result, state, builder);
        assert(state.with(builder) =~= mul_wide_u(before));
    }
}

} // verus!

//! That what is written to memory can be read back.
use vstd::prelude::*;
use crate::types::ScalarType;
use crate::wasm::ir::IrType;
use crate::wasm::meaning::{
    digit, digit_range, footprint, range_of, read, read_digits, written, Memory,
};

verus! {

spec fn bound(range: int, n: nat) -> int
    decreases n,
{
    if n == 0 {
        1
    } else {
        range * bound(range, (n - 1) as nat)
    }
}

proof fn digits_are_read_back(memory: Memory, at: int, x: int, range: int, n: nat)
    requires
        range > 1,
        0 <= x < bound(range, n),
        forall|i: int| at <= i < at + n ==> #[trigger] memory(i) == digit(x, range, (i - at) as nat),
    ensures
        read_digits(memory, at, range, n) == x,
    decreases n,
{
    if n > 0 {
        let rest = x / range;
        let b = bound(range, (n - 1) as nat);
        assert(0 <= rest < b) by (nonlinear_arith)
            requires
                0 <= x < range * b,
                range > 1,
                rest == x / range,
        ;
        assert(x == x % range + range * rest) by (nonlinear_arith)
            requires
                range > 1,
                rest == x / range,
        ;
        assert forall|i: int| at + 1 <= i < at + 1 + (n - 1) implies #[trigger] memory(i) == digit(
            rest,
            range,
            (i - (at + 1)) as nat,
        ) by {
            assert(memory(i) == digit(x, range, (i - at) as nat));
        }
        digits_are_read_back(memory, at + 1, rest, range, (n - 1) as nat);
        assert(memory(at) == digit(x, range, 0));
    }
}

/// So many bytes make up a number below the number of their patterns.
pub proof fn digits_are_bounded(memory: Memory, at: int, n: nat)
    requires
        forall|i: int| 0 <= #[trigger] memory(i) < 0x100,
        n <= 8,
    ensures
        0 <= read_digits(memory, at, 0x100, n),
        n == 1 ==> read_digits(memory, at, 0x100, n) < 0x100,
        n == 2 ==> read_digits(memory, at, 0x100, n) < 0x1_0000,
        n == 4 ==> read_digits(memory, at, 0x100, n) < 0x1_0000_0000,
        n == 8 ==> read_digits(memory, at, 0x100, n) < 0x1_0000_0000_0000_0000,
{
    digits_are_below_their_bound(memory, at, n);
    reveal_with_fuel(bound, 9);
}

proof fn digits_are_below_their_bound(memory: Memory, at: int, n: nat)
    requires
        forall|i: int| 0 <= #[trigger] memory(i) < 0x100,
    ensures
        0 <= read_digits(memory, at, 0x100, n) < bound(0x100, n),
    decreases n,
{
    if n > 0 {
        digits_are_below_their_bound(memory, at + 1, (n - 1) as nat);
        assert(0 <= memory(at) < 0x100);
    }
}

proof fn digits_elsewhere_stay(a: Memory, b: Memory, at: int, range: int, n: nat)
    requires
        forall|i: int| at <= i < at + n ==> #[trigger] a(i) == b(i),
    ensures
        read_digits(a, at, range, n) == read_digits(b, at, range, n),
    decreases n,
{
    if n > 0 {
        assert(a(at) == b(at));
        digits_elsewhere_stay(a, b, at + 1, range, (n - 1) as nat);
    }
}

/// What is written can be read back.
pub proof fn writes_are_read_back(memory: Memory, at: int, ty: ScalarType, x: int)
    requires
        0 <= x < range_of(IrType::Scalar(ty)),
    ensures
        read(written(memory, at, ty, x), at, ty) == x,
{
    reveal_with_fuel(bound, 17);
    let b = bound(digit_range(ty), footprint(ty));
    assert(range_of(IrType::Scalar(ty)) <= b);
    digits_are_read_back(
        written(memory, at, ty, x),
        at,
        x,
        digit_range(ty),
        footprint(ty),
    );
}

/// What is elsewhere is not changed.
pub proof fn writes_elsewhere_do_not_matter(
    memory: Memory,
    at: int,
    ty: ScalarType,
    x: int,
    other: int,
    other_ty: ScalarType,
)
    requires
        other + footprint(other_ty) <= at || at + footprint(ty) <= other,
    ensures
        read(written(memory, at, ty, x), other, other_ty) == read(memory, other, other_ty),
{
    digits_elsewhere_stay(
        written(memory, at, ty, x),
        memory,
        other,
        digit_range(other_ty),
        footprint(other_ty),
    );
}

} // verus!

//! That the code of a constant puts the constant on the machine's stack.
use vstd::prelude::*;
use crate::masm::emit::{limbs, push_code, push_felts};
use crate::masm::inst::Instruction;
use crate::masm::machine::{self, run};
use crate::masm::stack::Operand;
use crate::types::Immediate;

verus! {

/// How many numbers there are of the type of a constant.
pub open spec fn numbers_like(imm: Immediate) -> int {
    match imm {
        Immediate::I1(_) => 2,
        Immediate::U8(_) | Immediate::I8(_) => 0x100,
        Immediate::U16(_) | Immediate::I16(_) => 0x1_0000,
        Immediate::U32(_) | Immediate::I32(_) => 0x1_0000_0000,
        Immediate::U64(_) | Immediate::I64(_) | Immediate::Felt(_) => 0x1_0000_0000_0000_0000,
        Immediate::U128(_) | Immediate::I128(_) => 0x1_0000_0000_0000_0000_0000_0000_0000_0000int,
    }
}

/// The number whose limbs of 32 bits are the given elements, the highest first.
pub open spec fn number_read(elements: Seq<int>) -> int
    decreases elements.len(),
{
    if elements.len() == 0 {
        0
    } else {
        number_read(elements.drop_last()) * 0x1_0000_0000 + elements.last()
    }
}

proof fn limbs_are_read_back(value: int, n: nat)
    requires
        0 <= value,
    ensures
        limbs(value, n).len() == n,
        forall|i: int| 0 <= i < n ==> 0 <= #[trigger] limbs(value, n)[i] < 0x1_0000_0000,
        n == 2 && value < 0x1_0000_0000_0000_0000 ==> number_read(limbs(value, 2).reverse())
            == value,
        n == 4 && value < 0x1_0000_0000_0000_0000_0000_0000_0000_0000int ==> number_read(
            limbs(value, 4).reverse(),
        ) == value,
    decreases n,
{
    if n > 0 {
        limbs_are_read_back(value / 0x1_0000_0000, (n - 1) as nat);
        let rest = limbs(value / 0x1_0000_0000, (n - 1) as nat);
        let all = limbs(value, n);
        assert(all == seq![value % 0x1_0000_0000] + rest);
        assert forall|i: int| 0 <= i < n implies 0 <= #[trigger] all[i] < 0x1_0000_0000 by {
            if i > 0 {
                assert(all[i] == rest[i - 1]);
            }
        }
    }
    if n == 2 || n == 4 {
        reveal_with_fuel(limbs, 5);
        reveal_with_fuel(number_read, 5);
        let a = value % 0x1_0000_0000;
        let v1 = value / 0x1_0000_0000;
        let b = v1 % 0x1_0000_0000;
        let v2 = v1 / 0x1_0000_0000;
        if n == 2 {
            assert(limbs(value, 2) =~= seq![a, b]);
            assert(limbs(value, 2).reverse() =~= seq![b, a]);
            two_are_read(b, a);
        } else {
            let c = v2 % 0x1_0000_0000;
            let v3 = v2 / 0x1_0000_0000;
            let d = v3 % 0x1_0000_0000;
            assert(limbs(value, 4) =~= seq![a, b, c, d]);
            assert(limbs(value, 4).reverse() =~= seq![d, c, b, a]);
            four_are_read(d, c, b, a);
        }
    }
}

proof fn one_is_read(a: int)
    ensures
        number_read(seq![a]) == a,
{
    assert(seq![a].drop_last() =~= Seq::<int>::empty());
    assert(number_read(Seq::<int>::empty()) == 0);
}

proof fn two_are_read(a: int, b: int)
    ensures
        number_read(seq![a, b]) == a * 0x1_0000_0000 + b,
{
    one_is_read(a);
    assert(seq![a, b].drop_last() =~= seq![a]);
}

proof fn four_are_read(a: int, b: int, c: int, d: int)
    ensures
        number_read(seq![a, b, c, d]) == ((a * 0x1_0000_0000 + b) * 0x1_0000_0000 + c)
            * 0x1_0000_0000 + d,
{
    two_are_read(a, b);
    assert(seq![a, b, c].drop_last() =~= seq![a, b]);
    assert(number_read(seq![a, b, c]) == (a * 0x1_0000_0000 + b) * 0x1_0000_0000 + c);
    assert(seq![a, b, c, d].drop_last() =~= seq![a, b, c]);
}

proof fn pushing_puts_elements_on_top(values: Seq<int>, f: Seq<int>)
    requires
        forall|i: int| 0 <= i < values.len() ==> 0 <= #[trigger] values[i] <= u64::MAX,
    ensures
        run(push_felts(values), f) == values.reverse() + f,
    decreases values.len(),
{
    let code = push_felts(values);
    if values.len() == 0 {
        assert(values.reverse() + f =~= f);
    } else {
        let rest = values.drop_last();
        pushing_puts_elements_on_top(rest, f);
        assert(code.drop_last() =~= push_felts(rest));
        assert(values.reverse() + f =~= seq![values.last()] + (rest.reverse() + f));
    }
}

/// The code of a constant puts as many elements on the stack as the operand takes. They are limbs of
/// 32 bits of the constant in two's complement, the highest on top; a field element is itself.
pub proof fn constants_are_realized(imm: Immediate, f: Seq<int>)
    ensures
        ({
            let after = run(push_code(imm), f);
            let n = Operand::Const(imm).felts();
            let top = after.take(n as int);
            &&& after.len() == f.len() + n
            &&& after.skip(n as int) == f
            &&& number_read(top) == imm.number() % numbers_like(imm)
            &&& !(imm is Felt) ==> forall|i: int|
                0 <= i < n ==> 0 <= #[trigger] top[i] < 0x1_0000_0000
        }),
{
    let after = run(push_code(imm), f);
    let n = Operand::Const(imm).felts();
    reveal_with_fuel(run, 2);
    match imm {
        Immediate::U64(i) => {
            limbs_are_read_back(i as int, 2);
            wide_constant(i as int, 2, f);
        },
        Immediate::I64(i) => {
            limbs_are_read_back(i as u64 as int, 2);
            wide_constant(i as u64 as int, 2, f);
            assert(i as u64 == if i < 0 {
                i + 0x1_0000_0000_0000_0000
            } else {
                i as int
            }) by (bit_vector);
        },
        Immediate::U128(i) => {
            limbs_are_read_back(i as int, 4);
            wide_constant(i as int, 4, f);
        },
        Immediate::I128(i) => {
            limbs_are_read_back(i as u128 as int, 4);
            wide_constant(i as u128 as int, 4, f);
            assert(i < 0 ==> i as u128 == i + 0x1_0000_0000_0000_0000_0000_0000_0000_0000int) by {
                assert(i < 0 ==> i as u128 == (i + 0x7fff_ffff_ffff_ffff_ffff_ffff_ffff_ffff + 1)
                    as u128 + 0x8000_0000_0000_0000_0000_0000_0000_0000u128) by (bit_vector);
            }
            assert(i >= 0 ==> i as u128 == i) by (bit_vector);
        },
        _ => {
            let code = push_code(imm);
            assert(code.len() == 1);
            assert(code.drop_last() =~= Seq::<Instruction>::empty());
            assert(run(code, f) == machine::step(code[0], f));
            let e = after[0];
            assert(after =~= seq![e] + f);
            assert(after.take(1) =~= seq![e]);
            assert(after.skip(1) =~= f);
            one_is_read(e);
            match imm {
                Immediate::I8(i) => {
                    assert(i as u8 == if i < 0 {
                        i + 0x100
                    } else {
                        i as int
                    }) by (bit_vector);
                },
                Immediate::I16(i) => {
                    assert(i as u16 == if i < 0 {
                        i + 0x1_0000
                    } else {
                        i as int
                    }) by (bit_vector);
                },
                Immediate::I32(i) => {
                    assert(i as u32 == if i < 0 {
                        i + 0x1_0000_0000
                    } else {
                        i as int
                    }) by (bit_vector);
                },
                _ => {},
            }
        },
    }
}

proof fn wide_constant(value: int, n: nat, f: Seq<int>)
    requires
        0 <= value,
        n == 2 || n == 4,
    ensures
        ({
            let after = run(push_felts(limbs(value, n)), f);
            &&& after.len() == f.len() + n
            &&& after.skip(n as int) == f
            &&& after.take(n as int) == limbs(value, n).reverse()
            &&& forall|i: int|
                0 <= i < n ==> 0 <= #[trigger] limbs(value, n).reverse()[i] < 0x1_0000_0000
        }),
{
    limbs_are_read_back(value, n);
    let l = limbs(value, n);
    assert forall|i: int| 0 <= i < l.len() implies 0 <= #[trigger] l[i] <= u64::MAX by {}
    pushing_puts_elements_on_top(l, f);
    let after = run(push_felts(l), f);
    assert(after.skip(n as int) =~= f);
    assert(after.take(n as int) =~= l.reverse());
    assert forall|i: int| 0 <= i < n implies 0 <= #[trigger] l.reverse()[i] < 0x1_0000_0000 by {
        assert(l.reverse()[i] == l[n - 1 - i]);
    }
}

} // verus!

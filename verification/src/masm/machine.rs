//! What stack instructions do to the stack of the target machine, and that the code emitted for
//! an operation on the emulated stack does the same to the machine's stack.
use vstd::prelude::*;
use crate::masm::inst::{self, Instruction, PushValue};
use crate::masm::stack::{self, Operand};

verus! {

/// The stack with a copy of the element at `k` on top.
pub open spec fn dup_felt(f: Seq<int>, k: int) -> Seq<int> {
    seq![f[k]] + f
}

/// The stack with its top and the element at `k` exchanged.
pub open spec fn swap_felt(f: Seq<int>, k: int) -> Seq<int> {
    f.update(0, f[k]).update(k, f[0])
}

/// The stack with the element at `k` moved to the top.
pub open spec fn movup_felt(f: Seq<int>, k: int) -> Seq<int> {
    seq![f[k]] + f.take(k) + f.skip(k + 1)
}

/// The stack with its top moved to `k`.
pub open spec fn movdn_felt(f: Seq<int>, k: int) -> Seq<int> {
    f.subrange(1, k + 1) + seq![f[0]] + f.skip(k + 1)
}

/// The element that a `push` pushes.
pub open spec fn pushed(value: PushValue) -> int {
    match value {
        PushValue::U8(n) => n as int,
        PushValue::U16(n) => n as int,
        PushValue::U32(n) => n as int,
        PushValue::Felt(n) => n as int,
    }
}

/// What the machine makes of its stack when it executes a stack instruction. Other instructions
/// are left out: they are taken to leave the stack alone.
pub open spec fn step(inst: Instruction, f: Seq<int>) -> Seq<int> {
    match inst {
        Instruction::Push(value) => seq![pushed(value)] + f,
        Instruction::PushWord(a, b, c, d) => seq![d as int, c as int, b as int, a as int] + f,
        Instruction::Drop => f.skip(1),
        Instruction::DropW => f.skip(4),
        Instruction::Dup0 => dup_felt(f, 0),
        Instruction::Dup1 => dup_felt(f, 1),
        Instruction::Dup2 => dup_felt(f, 2),
        Instruction::Dup3 => dup_felt(f, 3),
        Instruction::Dup4 => dup_felt(f, 4),
        Instruction::Dup5 => dup_felt(f, 5),
        Instruction::Dup6 => dup_felt(f, 6),
        Instruction::Dup7 => dup_felt(f, 7),
        Instruction::Dup8 => dup_felt(f, 8),
        Instruction::Dup9 => dup_felt(f, 9),
        Instruction::Dup10 => dup_felt(f, 10),
        Instruction::Dup11 => dup_felt(f, 11),
        Instruction::Dup12 => dup_felt(f, 12),
        Instruction::Dup13 => dup_felt(f, 13),
        Instruction::Dup14 => dup_felt(f, 14),
        Instruction::Dup15 => dup_felt(f, 15),
        Instruction::Swap1 => swap_felt(f, 1),
        Instruction::Swap2 => swap_felt(f, 2),
        Instruction::Swap3 => swap_felt(f, 3),
        Instruction::Swap4 => swap_felt(f, 4),
        Instruction::Swap5 => swap_felt(f, 5),
        Instruction::Swap6 => swap_felt(f, 6),
        Instruction::Swap7 => swap_felt(f, 7),
        Instruction::Swap8 => swap_felt(f, 8),
        Instruction::Swap9 => swap_felt(f, 9),
        Instruction::Swap10 => swap_felt(f, 10),
        Instruction::Swap11 => swap_felt(f, 11),
        Instruction::Swap12 => swap_felt(f, 12),
        Instruction::Swap13 => swap_felt(f, 13),
        Instruction::Swap14 => swap_felt(f, 14),
        Instruction::Swap15 => swap_felt(f, 15),
        Instruction::MovUp2 => movup_felt(f, 2),
        Instruction::MovUp3 => movup_felt(f, 3),
        Instruction::MovUp4 => movup_felt(f, 4),
        Instruction::MovUp5 => movup_felt(f, 5),
        Instruction::MovUp6 => movup_felt(f, 6),
        Instruction::MovUp7 => movup_felt(f, 7),
        Instruction::MovUp8 => movup_felt(f, 8),
        Instruction::MovUp9 => movup_felt(f, 9),
        Instruction::MovUp10 => movup_felt(f, 10),
        Instruction::MovUp11 => movup_felt(f, 11),
        Instruction::MovUp12 => movup_felt(f, 12),
        Instruction::MovUp13 => movup_felt(f, 13),
        Instruction::MovUp14 => movup_felt(f, 14),
        Instruction::MovUp15 => movup_felt(f, 15),
        Instruction::MovDn2 => movdn_felt(f, 2),
        Instruction::MovDn3 => movdn_felt(f, 3),
        Instruction::MovDn4 => movdn_felt(f, 4),
        Instruction::MovDn5 => movdn_felt(f, 5),
        Instruction::MovDn6 => movdn_felt(f, 6),
        Instruction::MovDn7 => movdn_felt(f, 7),
        Instruction::MovDn8 => movdn_felt(f, 8),
        Instruction::MovDn9 => movdn_felt(f, 9),
        Instruction::MovDn10 => movdn_felt(f, 10),
        Instruction::MovDn11 => movdn_felt(f, 11),
        Instruction::MovDn12 => movdn_felt(f, 12),
        Instruction::MovDn13 => movdn_felt(f, 13),
        Instruction::MovDn14 => movdn_felt(f, 14),
        Instruction::MovDn15 => movdn_felt(f, 15),
        _ => f,
    }
}

/// What the machine makes of its stack when it executes a line of instructions.
pub open spec fn run(insts: Seq<Instruction>, f: Seq<int>) -> Seq<int>
    decreases insts.len(),
{
    if insts.len() == 0 {
        f
    } else {
        step(insts.last(), run(insts.drop_last(), f))
    }
}

/// The elements that the operands of `s` take, given those of each operand.
pub open spec fn flat(s: Seq<Operand>, v: spec_fn(Operand) -> Seq<int>) -> Seq<int>
    decreases s.len(),
{
    if s.len() == 0 {
        Seq::empty()
    } else {
        v(s[0]) + flat(s.drop_first(), v)
    }
}

/// `v` gives each operand as many elements as it takes.
pub open spec fn is_valuation(v: spec_fn(Operand) -> Seq<int>) -> bool {
    forall|o: Operand| #[trigger] v(o).len() == o.felts()
}

/// Executing two lines of code is executing the first and then the second.
pub proof fn run_of_sum(a: Seq<Instruction>, b: Seq<Instruction>, f: Seq<int>)
    ensures
        run(a + b, f) == run(b, run(a, f)),
    decreases b.len(),
{
    if b.len() == 0 {
        assert(a + b == a);
    } else {
        assert((a + b).drop_last() == a + b.drop_last());
        run_of_sum(a, b.drop_last(), f);
    }
}

/// The elements of two stacks on top of each other.
pub proof fn flat_of_sum(a: Seq<Operand>, b: Seq<Operand>, v: spec_fn(Operand) -> Seq<int>)
    ensures
        flat(a + b, v) == flat(a, v) + flat(b, v),
    decreases a.len(),
{
    if a.len() == 0 {
        assert(a + b == b);
    } else {
        assert((a + b).drop_first() == a.drop_first() + b);
        flat_of_sum(a.drop_first(), b, v);
        assert(v(a[0]) + (flat(a.drop_first(), v) + flat(b, v)) == flat(a, v) + flat(b, v));
    }
}

/// The elements of a single operand.
pub proof fn flat_of_one(o: Operand, v: spec_fn(Operand) -> Seq<int>)
    ensures
        flat(seq![o], v) == v(o),
{
    reveal_with_fuel(flat, 2);
    assert(flat(seq![o], v) == v(o));
}

/// A stack has as many elements as its operands take.
pub proof fn flat_len(s: Seq<Operand>, v: spec_fn(Operand) -> Seq<int>)
    requires
        is_valuation(v),
    ensures
        flat(s, v).len() == stack::felts(s),
    decreases s.len(),
{
    if s.len() > 0 {
        flat_len(s.drop_first(), v);
    }
}

/// Copying the same offset `n` times copies the `n` elements that end there, in order.
pub proof fn run_dups(f: Seq<int>, at: int, n: nat)
    requires
        0 <= at,
        1 <= n,
        at + n <= f.len(),
        at + n <= 16,
    ensures
        run(inst::times(n, inst::dup_at(at + n - 1)), f) == f.subrange(at, at + n) + f,
{
    run_dups_partial(f, at, n, n);
}

proof fn run_dups_partial(f: Seq<int>, at: int, n: nat, j: nat)
    requires
        0 <= at,
        j <= n,
        at + n <= f.len(),
        at + n <= 16,
    ensures
        run(inst::times(j, inst::dup_at(at + n - 1)), f) == f.subrange(at + n - j, at + n) + f,
    decreases j,
{
    let one = inst::dup_at(at + n - 1);
    if j == 0 {
        assert(f.subrange(at + n, at + n) + f == f);
    } else {
        run_dups_partial(f, at, n, (j - 1) as nat);
        let g = f.subrange(at + n - (j - 1), at + n) + f;
        assert(inst::times(j, one).drop_last() == inst::times((j - 1) as nat, one));
        assert(inst::times(j, one).last() == one);
        assert(step(one, g) == dup_felt(g, at + n - 1));
        assert(dup_felt(g, at + n - 1) == f.subrange(at + n - j, at + n) + f);
    }
}

/// Moving the same offset up `n` times moves the `n` elements that end there to the top, in
/// order.
pub proof fn run_movups(f: Seq<int>, at: int, n: nat)
    requires
        0 <= at,
        3 <= at + n <= f.len(),
        at + n <= 16,
    ensures
        run(inst::times(n, inst::movup_at(at + n - 1)), f) == f.subrange(at, at + n) + f.take(at) + f.skip(
            at + n,
        ),
{
    run_movups_partial(f, at, n, n);
}

proof fn run_movups_partial(f: Seq<int>, at: int, n: nat, j: nat)
    requires
        0 <= at,
        3 <= at + n <= f.len(),
        j <= n,
        at + n <= 16,
    ensures
        run(inst::times(j, inst::movup_at(at + n - 1)), f) == f.subrange(at + n - j, at + n) + f.take(
            at + n - j,
        ) + f.skip(at + n),
    decreases j,
{
    let one = inst::movup_at(at + n - 1);
    let expected = f.subrange(at + n - j, at + n) + f.take(at + n - j) + f.skip(at + n);
    if j == 0 {
        assert(expected == f);
    } else {
        run_movups_partial(f, at, n, (j - 1) as nat);
        let g = f.subrange(at + n - (j - 1), at + n) + f.take(at + n - (j - 1)) + f.skip(at + n);
        assert(inst::times(j, one).drop_last() == inst::times((j - 1) as nat, one));
        assert(inst::times(j, one).last() == one);
        assert(step(one, g) == movup_felt(g, at + n - 1));
        assert(movup_felt(g, at + n - 1) == expected);
    }
}

/// Moving the top down to the same offset `n` times moves the top `n` elements below it, in
/// order.
pub proof fn run_movdns(f: Seq<int>, n: nat, to: int)
    requires
        2 <= to < 16,
        to < f.len(),
        n <= to + 1,
    ensures
        run(inst::times(n, inst::movdn_at(to)), f) == f.subrange(n as int, to + 1) + f.take(n as int) + f.skip(
            to + 1,
        ),
    decreases n,
{
    let one = inst::movdn_at(to);
    let expected = f.subrange(n as int, to + 1) + f.take(n as int) + f.skip(to + 1);
    if n == 0 {
        assert(expected == f);
    } else {
        run_movdns(f, (n - 1) as nat, to);
        let g = f.subrange(n - 1, to + 1) + f.take(n - 1) + f.skip(to + 1);
        assert(inst::times(n, one).drop_last() == inst::times((n - 1) as nat, one));
        assert(inst::times(n, one).last() == one);
        assert(step(one, g) == movdn_felt(g, to));
        assert(movdn_felt(g, to) == expected);
    }
}

/// Dropping words and then elements drops their total.
pub proof fn run_drops(f: Seq<int>, words: nat, elements: nat)
    requires
        4 * words + elements <= f.len(),
    ensures
        run(inst::times(words, Instruction::DropW) + inst::times(elements, Instruction::Drop), f) == f.skip(
            (4 * words + elements) as int,
        ),
    decreases words + elements,
{
    let code = inst::times(words, Instruction::DropW) + inst::times(elements, Instruction::Drop);
    if elements > 0 {
        run_drops(f, words, (elements - 1) as nat);
        assert(code.drop_last() == inst::times(words, Instruction::DropW) + inst::times(
            (elements - 1) as nat,
            Instruction::Drop,
        ));
        assert(f.skip(4 * words + elements - 1).skip(1) == f.skip((4 * words + elements) as int));
    } else if words > 0 {
        run_drops(f, (words - 1) as nat, 0);
        assert(code.drop_last() == inst::times((words - 1) as nat, Instruction::DropW) + inst::times(
            0,
            Instruction::Drop,
        ));
        assert(code.last() == Instruction::DropW);
        assert(f.skip(4 * (words - 1)).skip(4) == f.skip(4 * words as int));
    } else {
        assert(code == Seq::<Instruction>::empty());
        assert(f.skip(0) == f);
    }
}

} // verus!

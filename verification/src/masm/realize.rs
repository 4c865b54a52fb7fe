//! The code emitted for an operation on the emulated stack does the same to the machine's stack.
//!
//! In each law, `v` gives the elements of every operand, and `rest` is what lies below the
//! emulated stack.
use vstd::prelude::*;
use crate::masm::emit;
use crate::masm::inst::{self, Instruction};
use crate::masm::machine;
use crate::masm::stack::{self, Operand};

verus! {

/// A stack is what is above operand `i`, that operand, and what is below it.
pub proof fn split_at(s: Seq<Operand>, i: int, v: spec_fn(Operand) -> Seq<int>)
    requires
        machine::is_valuation(v),
        0 <= i < s.len(),
    ensures
        machine::flat(s, v) == machine::flat(s.take(i), v) + v(s[i]) + machine::flat(
            s.skip(i + 1),
            v,
        ),
        machine::flat(s.take(i), v).len() == stack::offset(s, i),
        v(s[i]).len() == s[i].felts(),
        stack::offset(s, i + 1) == stack::offset(s, i) + s[i].felts(),
{
    assert(s == s.take(i) + seq![s[i]] + s.skip(i + 1));
    machine::flat_of_sum(s.take(i) + seq![s[i]], s.skip(i + 1), v);
    machine::flat_of_sum(s.take(i), seq![s[i]], v);
    machine::flat_of_one(s[i], v);
    machine::flat_len(s.take(i), v);
    stack::offset_step(s, i);
}

/// The code of `dup` copies the operand to the top.
pub proof fn dup_is_realized(
    s: Seq<Operand>,
    i: int,
    v: spec_fn(Operand) -> Seq<int>,
    rest: Seq<int>,
)
    requires
        machine::is_valuation(v),
        emit::can_dup(s, i),
    ensures
        machine::run(emit::dup_code(s, i), machine::flat(s, v) + rest) == machine::flat(
            stack::duplicated(s, i),
            v,
        ) + rest,
{
    let f = machine::flat(s, v) + rest;
    let at = stack::offset(s, i) as int;
    let n = s[i].felts();
    split_at(s, i, v);
    machine::run_dups(f, at, n);
    assert(f.subrange(at, at + n) == v(s[i]));
    machine::flat_of_sum(seq![s[i]], s, v);
    machine::flat_of_one(s[i], v);
    assert(v(s[i]) + f == v(s[i]) + machine::flat(s, v) + rest);
}

/// The code of `movup` moves the operand to the top.
pub proof fn movup_is_realized(
    s: Seq<Operand>,
    i: int,
    v: spec_fn(Operand) -> Seq<int>,
    rest: Seq<int>,
)
    requires
        machine::is_valuation(v),
        emit::can_movup(s, i),
    ensures
        machine::run(emit::movup_code(s, i), machine::flat(s, v) + rest) == machine::flat(
            stack::moved_up(s, i),
            v,
        ) + rest,
{
    let f = machine::flat(s, v) + rest;
    let at = stack::offset(s, i) as int;
    let n = s[i].felts();
    let above = machine::flat(s.take(i), v);
    let below = machine::flat(s.skip(i + 1), v);
    split_at(s, i, v);
    machine::run_movups(f, at, n);
    assert(f.subrange(at, at + n) == v(s[i]));
    assert(f.take(at) == above);
    assert(f.skip(at + n) == below + rest);
    assert(stack::moved_up(s, i) == seq![s[i]] + (s.take(i) + s.skip(i + 1)));
    machine::flat_of_sum(seq![s[i]], s.take(i) + s.skip(i + 1), v);
    machine::flat_of_sum(s.take(i), s.skip(i + 1), v);
    machine::flat_of_one(s[i], v);
    assert(v(s[i]) + above + (below + rest) == v(s[i]) + (above + below) + rest);
}

/// The code of `movdn` moves the top operand down.
pub proof fn movdn_is_realized(
    s: Seq<Operand>,
    i: int,
    v: spec_fn(Operand) -> Seq<int>,
    rest: Seq<int>,
)
    requires
        machine::is_valuation(v),
        emit::can_movdn(s, i),
    ensures
        machine::run(emit::movdn_code(s, i), machine::flat(s, v) + rest) == machine::flat(
            stack::moved_down(s, i),
            v,
        ) + rest,
{
    let f = machine::flat(s, v) + rest;
    let n = s[0].felts();
    let to = stack::offset(s, i + 1) - 1;
    let mid = s.subrange(1, i + 1);
    let b = machine::flat(mid, v);
    let d = machine::flat(s.skip(i + 1), v);
    assert(s.take(i + 1) == seq![s[0]] + mid);
    assert(s == seq![s[0]] + mid + s.skip(i + 1));
    machine::flat_of_sum(seq![s[0]] + mid, s.skip(i + 1), v);
    machine::flat_of_sum(seq![s[0]], mid, v);
    machine::flat_of_one(s[0], v);
    machine::flat_len(mid, v);
    machine::flat_len(s.take(i + 1), v);
    assert(f == v(s[0]) + b + d + rest);
    machine::run_movdns(f, n, to);
    assert(f.subrange(n as int, to + 1) == b);
    assert(f.take(n as int) == v(s[0]));
    assert(f.skip(to + 1) == d + rest);
    machine::flat_of_sum(mid + seq![s[0]], s.skip(i + 1), v);
    machine::flat_of_sum(mid, seq![s[0]], v);
    assert(b + v(s[0]) + (d + rest) == b + v(s[0]) + d + rest);
}

/// The code of `swap` exchanges the two operands.
#[verifier::spinoff_prover]
#[verifier::rlimit(60)]
pub proof fn swap_is_realized(
    s: Seq<Operand>,
    i: int,
    v: spec_fn(Operand) -> Seq<int>,
    rest: Seq<int>,
)
    requires
        machine::is_valuation(v),
        emit::can_swap(s, i),
    ensures
        machine::run(emit::swap_code(s, i), machine::flat(s, v) + rest) == machine::flat(
            stack::swapped(s, i),
            v,
        ) + rest,
{
    let f = machine::flat(s, v) + rest;
    let n = s[0].felts();
    let m = s[i].felts();
    let at = stack::offset(s, i) as int;
    let mid = s.subrange(1, i);
    let low = s.skip(i + 1);
    let a = v(s[0]);
    let b = machine::flat(mid, v);
    let c = v(s[i]);
    let d = machine::flat(low, v);
    split_at(s, i, v);
    assert(s.take(i) == seq![s[0]] + mid);
    machine::flat_of_sum(seq![s[0]], mid, v);
    machine::flat_of_one(s[0], v);
    machine::flat_of_one(s[i], v);
    assert(f == a + b + c + d + rest);
    assert(a.len() == n);
    assert(b.len() == at - n);
    assert(c.len() == m);
    let expected = c + b + a + d + rest;
    assert(machine::flat(stack::swapped(s, i), v) + rest == expected) by {
        assert(stack::swapped(s, i) == seq![s[i]] + mid + seq![s[0]] + low);
        machine::flat_of_sum(seq![s[i]] + mid + seq![s[0]], low, v);
        machine::flat_of_sum(seq![s[i]] + mid, seq![s[0]], v);
        machine::flat_of_sum(seq![s[i]], mid, v);
    }
    reveal_with_fuel(machine::run, 2);
    if n == 1 && m == 1 {
        let one = inst::swap_at(at);
        assert(seq![one].drop_last() == Seq::<Instruction>::empty());
        assert(machine::step(one, f) == machine::swap_felt(f, at));
        assert(machine::swap_felt(f, at) == expected);
    } else if m == 1 && at == n {
        let one = inst::movup_at(at);
        assert(seq![one].drop_last() == Seq::<Instruction>::empty());
        assert(machine::step(one, f) == machine::movup_felt(f, at));
        assert(machine::movup_felt(f, at) == expected);
    } else {
        let down = inst::times(n, inst::movdn_at(at + m - 1));
        let g = b + c + a + d + rest;
        machine::run_movdns(f, n, at + m - 1);
        assert(f.subrange(n as int, at + m) == b + c);
        assert(f.take(n as int) == a);
        assert(f.skip(at + m) == d + rest);
        assert(b + c + a + (d + rest) == g);
        if at == n {
            assert(down + Seq::<Instruction>::empty() == down);
            assert(g == expected);
        } else if at - n + m - 1 == 1 {
            machine::run_of_sum(down, seq![Instruction::Swap1], f);
            assert(seq![Instruction::Swap1].drop_last() == Seq::<Instruction>::empty());
            assert(machine::swap_felt(g, 1) == expected);
        } else {
            machine::run_of_sum(down, inst::times(m, inst::movup_at(at - n + m - 1)), f);
            machine::run_movups(g, at - n, m);
            assert(g.subrange(at - n, at - n + m) == c);
            assert(g.take(at - n) == b);
            assert(g.skip(at - n + m) == a + d + rest);
            assert(c + b + (a + d + rest) == expected);
        }
    }
}

/// The code that drops an operand takes exactly its elements off.
pub proof fn drop_is_realized(s: Seq<Operand>, v: spec_fn(Operand) -> Seq<int>, rest: Seq<int>)
    requires
        machine::is_valuation(v),
        s.len() > 0,
    ensures
        machine::run(
            emit::drop_operand_code(s[0].felts()),
            machine::flat(s, v) + rest,
        ) == machine::flat(s.drop_first(), v) + rest,
{
    let f = machine::flat(s, v) + rest;
    let n = s[0].felts();
    assert(v(s[0]).len() == n);
    if n == 4 {
        machine::run_drops(f, 1, 0);
        assert(inst::times(1, Instruction::DropW) + inst::times(0, Instruction::Drop) == seq![
            Instruction::DropW,
        ]);
    } else {
        machine::run_drops(f, 0, n);
        assert(inst::times(0, Instruction::DropW) + inst::times(n, Instruction::Drop)
            == inst::times(n, Instruction::Drop));
    }
    assert(f.skip(n as int) == machine::flat(s.drop_first(), v) + rest);
}

/// The code of `dropn` takes exactly the elements of the first `n` operands off.
pub proof fn dropn_is_realized(
    s: Seq<Operand>,
    n: int,
    v: spec_fn(Operand) -> Seq<int>,
    rest: Seq<int>,
)
    requires
        machine::is_valuation(v),
        0 <= n <= s.len(),
    ensures
        machine::run(
            emit::drop_code(stack::offset(s, n)),
            machine::flat(s, v) + rest,
        ) == machine::flat(s.skip(n), v) + rest,
{
    let f = machine::flat(s, v) + rest;
    let k = stack::offset(s, n);
    assert(s == s.take(n) + s.skip(n));
    machine::flat_of_sum(s.take(n), s.skip(n), v);
    machine::flat_len(s.take(n), v);
    machine::run_drops(f, k / 4, k % 4);
    assert(f.skip(k as int) == machine::flat(s.skip(n), v) + rest);
}

/// The code of `drop_operand_at_position` takes exactly the elements of that operand out.
pub proof fn remove_is_realized(
    s: Seq<Operand>,
    i: int,
    v: spec_fn(Operand) -> Seq<int>,
    rest: Seq<int>,
)
    requires
        machine::is_valuation(v),
        emit::can_remove(s, i),
    ensures
        machine::run(emit::remove_code(s, i), machine::flat(s, v) + rest) == machine::flat(
            s.remove(i),
            v,
        ) + rest,
{
    let f = machine::flat(s, v) + rest;
    let last = emit::drop_operand_code(s[i].felts());
    if i == 0 {
        drop_is_realized(s, v, rest);
        assert(Seq::<Instruction>::empty() + last == last);
        assert(s.drop_first() == s.remove(0));
    } else if i == 1 {
        swap_is_realized(s, 1, v, rest);
        machine::run_of_sum(emit::swap_code(s, 1), last, f);
        drop_is_realized(stack::swapped(s, 1), v, rest);
        assert(stack::swapped(s, 1).drop_first() == s.remove(1));
    } else {
        movup_is_realized(s, i, v, rest);
        machine::run_of_sum(emit::movup_code(s, i), last, f);
        drop_is_realized(stack::moved_up(s, i), v, rest);
        assert(stack::moved_up(s, i).drop_first() == s.remove(i));
    }
}

proof fn remove_last_is_realized(
    s: Seq<Operand>,
    n: int,
    v: spec_fn(Operand) -> Seq<int>,
    rest: Seq<int>,
)
    requires
        machine::is_valuation(v),
        2 <= n <= s.len(),
        emit::solid(s),
        stack::felts(s) <= 16,
    ensures
        machine::run(emit::remove_last_code(s, n), machine::flat(s, v) + rest) == machine::flat(
            s.take(n),
            v,
        ) + rest,
    decreases s.len() - n,
{
    let f = machine::flat(s, v) + rest;
    if n == s.len() {
        assert(s.take(n) == s);
    } else {
        let t = s.take(n + 1);
        remove_last_is_realized(s, n + 1, v, rest);
        machine::run_of_sum(emit::remove_last_code(s, n + 1), emit::remove_code(t, n), f);
        emit::solid_len(s);
        stack::offset_is_monotonic(s, n + 1, s.len() as int);
        assert(s.take(s.len() as int) == s);
        assert(t.take(n + 1) == t);
        stack::offset_is_monotonic(s, 3, n + 1);
        stack::offset_step(s, 2);
        stack::offset_step(s, 1);
        stack::offset_step(s, 0);
        assert(s[0].felts() >= 1 && s[1].felts() >= 1 && s[2].felts() >= 1 && s[n].felts() >= 1);
        remove_is_realized(t, n, v, rest);
        assert(t.remove(n) == s.take(n));
    }
}

/// The code of `truncate_stack` leaves exactly the elements of the first `n` operands.
pub proof fn truncate_is_realized(
    s: Seq<Operand>,
    n: int,
    v: spec_fn(Operand) -> Seq<int>,
    rest: Seq<int>,
)
    requires
        machine::is_valuation(v),
        emit::can_truncate(s, n),
    ensures
        machine::run(emit::truncate_code(s, n), machine::flat(s, v) + rest) == machine::flat(
            s.take(n),
            v,
        ) + rest,
{
    let f = machine::flat(s, v) + rest;
    assert(s.take(s.len() as int) == s);
    if n == s.len() {
    } else if n == 0 {
        dropn_is_realized(s, s.len() as int, v, rest);
        assert(s.skip(s.len() as int) == s.take(0));
    } else {
        emit::solid_len(s);
        assert(s[0].felts() >= 1 && s[1].felts() >= 1);
        if n == 1 && s.len() == 2 {
            swap_is_realized(s, 1, v, rest);
            let t = stack::swapped(s, 1);
            machine::run_of_sum(
                emit::swap_code(s, 1),
                emit::drop_operand_code(s[1].felts()),
                f,
            );
            remove_is_realized(s, 1, v, rest);
            assert(s.remove(1) == s.take(1));
        } else if n == 1 {
            let last = s.len() - 1;
            stack::offset_is_monotonic(s, 3, s.len() as int);
            stack::offset_step(s, 2);
            stack::offset_step(s, 1);
            stack::offset_step(s, 0);
            assert(s[2].felts() >= 1);
            movdn_is_realized(s, last, v, rest);
            let t = stack::moved_down(s, last);
            machine::run_of_sum(
                emit::movdn_code(s, last),
                emit::drop_code(stack::felts(s.skip(1))),
                f,
            );
            assert(t.take(last) == s.skip(1));
            dropn_is_realized(t, last, v, rest);
            assert(t.skip(last) == s.take(1));
        } else {
            remove_last_is_realized(s, n, v, rest);
        }
    }
}

/// The code of `copy_operand_to_position` copies exactly the elements of the operand.
pub proof fn copy_is_realized(
    s: Seq<Operand>,
    n: int,
    m: int,
    commutative: bool,
    v: spec_fn(Operand) -> Seq<int>,
    rest: Seq<int>,
)
    requires
        machine::is_valuation(v),
        emit::can_copy(s, n, m, commutative),
    ensures
        machine::run(
            emit::copy_code(s, n, m, commutative),
            machine::flat(s, v) + rest,
        ) == machine::flat(emit::copied(s, n, m, commutative), v) + rest,
{
    let f = machine::flat(s, v) + rest;
    let t = stack::duplicated(s, n);
    let first = emit::dup_code(s, n);
    dup_is_realized(s, n, v, rest);
    if m == 0 || (m == 1 && commutative) {
        assert(first + Seq::<Instruction>::empty() == first);
        assert(emit::copied(s, n, m, commutative) == t);
    } else if m == 1 {
        machine::run_of_sum(first, emit::swap_code(t, 1), f);
        swap_is_realized(t, 1, v, rest);
        assert(emit::copied(s, n, m, commutative) == stack::swapped(t, 1));
    } else {
        machine::run_of_sum(first, emit::movdn_code(t, m), f);
        movdn_is_realized(t, m, v, rest);
        assert(emit::copied(s, n, m, commutative) == stack::moved_down(t, m));
    }
}

/// The code of `move_operand_to_position` moves exactly the elements of the operand.
pub proof fn move_is_realized(
    s: Seq<Operand>,
    n: int,
    m: int,
    commutative: bool,
    v: spec_fn(Operand) -> Seq<int>,
    rest: Seq<int>,
)
    requires
        machine::is_valuation(v),
        emit::can_move(s, n, m, commutative),
    ensures
        machine::run(
            emit::move_code(s, n, m, commutative),
            machine::flat(s, v) + rest,
        ) == machine::flat(emit::moved(s, n, m, commutative), v) + rest,
{
    let f = machine::flat(s, v) + rest;
    let t = stack::moved_up(s, n);
    let first = emit::movup_code(s, n);
    if n == m || (n < 2 && m < 2 && commutative) {
        assert(emit::moved(s, n, m, commutative) == s);
    } else if n < 2 && m < 2 {
        swap_is_realized(s, 1, v, rest);
        assert(emit::moved(s, n, m, commutative) == stack::swapped(s, 1));
    } else {
        movup_is_realized(s, n, v, rest);
        if m == 0 {
            assert(first + Seq::<Instruction>::empty() == first);
            assert(emit::moved(s, n, m, commutative) == t);
        } else if m == 1 {
            machine::run_of_sum(first, emit::swap_code(t, 1), f);
            swap_is_realized(t, 1, v, rest);
            assert(emit::moved(s, n, m, commutative) == stack::swapped(t, 1));
        } else {
            machine::run_of_sum(first, emit::movdn_code(t, m), f);
            movdn_is_realized(t, m, v, rest);
            assert(emit::moved(s, n, m, commutative) == stack::moved_down(t, m));
        }
    }
}

} // verus!

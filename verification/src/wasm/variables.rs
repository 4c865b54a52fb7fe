//! What the operators on variables, globals, constants and the value stack do.
use vstd::prelude::*;
use crate::types::{Immediate, ScalarType};
use crate::wasm::accesses::conversions_are_played;
use crate::wasm::builder::Built;
use crate::wasm::flow::{flows, settled};
use crate::wasm::ir::{BinaryOp, Conversion, Event, IrType, Value};
use crate::wasm::meaning::{
    self, comparisons, conversions, fits, keeps_values, number, only_defines, played, range_of,
    signed, sums, Flow, World,
};
use crate::wasm::memory;
use crate::wasm::operator::{FuncEnv, Operator, ValType};
use crate::wasm::recipe;
use crate::wasm::state::Trans;
use crate::wasm::translate;

verus! {

proof fn assignments_are_played(
    b: Built,
    value: Value,
    expected: ScalarType,
    from: nat,
    blocks: Seq<Seq<Value>>,
    start: Flow,
    w: World,
)
    requires
        from <= b.log.len(),
        b.next + 4 <= u32::MAX,
        value.id < b.next,
        fits(w, value),
        range_of(value.ty) == range_of(IrType::Scalar(expected)),
        played(b.log, from, blocks, start) == Flow::Falls(w),
    ensures
        ({
            let (b1, assigned) = translate::assignable(b, value, expected);
            &&& played(b1.log, from, blocks, start) matches Flow::Falls(w1) && w1.val(assigned)
                == w.val(value) && only_defines(w, w1, b.next)
            &&& b.log.len() <= b1.log.len()
        }),
{
    let to = IrType::Scalar(expected);
    let x = w.val(value);
    conversions(value.ty, to, x);
    conversions_are_played(b, Conversion::Bitcast, value, to, from, blocks, start);
    conversions_are_played(b, Conversion::Cast, value, to, from, blocks, start);
    let range = range_of(to);
    vstd::arithmetic::div_mod::lemma_small_mod(x as nat, range as nat);
    if number(value.ty, x) != x {
        vstd::arithmetic::div_mod::lemma_mod_add_multiples_vanish(x - range, range);
    }
}

/// A variable gives what was last assigned to it. An assignment takes the value from the stack, or
/// leaves it there, and changes no other variable.
#[verifier::spinoff_prover]
#[verifier::rlimit(40)]
pub proof fn variables_hold_what_is_assigned(env: &FuncEnv, t: Trans, w: World, i: u32)
    requires
        settled(t),
        i < env.variables@.len(),
    ensures
        ({
            let (after, result) = translate::translated(
                env,
                Operator::LocalGet { local_index: i },
                t,
            );
            &&& result is Ok
            &&& after.stack.drop_last() == t.stack
            &&& after.peek(0).ty == IrType::Scalar(env.variables@[i as int])
            &&& flows(t, after, Flow::Falls(w)) matches Flow::Falls(done) && done.val(after.peek(0))
                == w.vars[i] && only_defines(w, done, t.b.next)
        }),
        t.stack.len() >= 1 && fits(w, t.peek(0)) && range_of(t.peek(0).ty) == range_of(
            IrType::Scalar(env.variables@[i as int]),
        ) ==> ({
            let (after, result) = translate::translated(
                env,
                Operator::LocalSet { local_index: i },
                t,
            );
            &&& result is Ok
            &&& after.stack == t.stack.drop_last()
            &&& flows(t, after, Flow::Falls(w)) matches Flow::Falls(done) && done == (World {
                vals: done.vals,
                vars: w.vars.insert(i, w.val(t.peek(0))),
                ..w
            }) && keeps_values(w, done, t.b.next)
        }),
        t.stack.len() >= 1 ==> ({
            let (after, result) = translate::translated(
                env,
                Operator::LocalTee { local_index: i },
                t,
            );
            &&& result is Ok
            &&& after.stack == t.stack
            &&& flows(t, after, Flow::Falls(w)) == Flow::Falls(
                World { vars: w.vars.insert(i, w.val(t.peek(0))), ..w },
            )
        }),
{
    let from = t.b.log.len();
    let start = Flow::Falls(w);
    {
        let op = Operator::LocalGet { local_index: i };
        assert(recipe::recipe_of(op) is None);
        let (after, _) = translate::translated(env, op, t);
        assert(after.stack.drop_last() =~= t.stack);
        let result = t.b.fresh(0, IrType::Scalar(env.variables@[i as int]));
        meaning::played_nothing(t.b.log, from, after.b.blocks, start);
        meaning::played_one_more(
            t.b.log,
            Event::UseVar { var: i, result },
            from,
            after.b.blocks,
            start,
        );
    }
    if t.stack.len() >= 1 {
        let op = Operator::LocalTee { local_index: i };
        assert(recipe::recipe_of(op) is None);
        let (after, _) = translate::translated(env, op, t);
        meaning::played_nothing(t.b.log, from, after.b.blocks, start);
        meaning::played_one_more(
            t.b.log,
            Event::DefVar { var: i, value: t.peek(0) },
            from,
            after.b.blocks,
            start,
        );
    }
    if t.stack.len() >= 1 && fits(w, t.peek(0)) && range_of(t.peek(0).ty) == range_of(
        IrType::Scalar(env.variables@[i as int]),
    ) {
        let op = Operator::LocalSet { local_index: i };
        assert(recipe::recipe_of(op) is None);
        let (after, _) = translate::translated(env, op, t);
        assert(after.stack =~= t.stack.drop_last());
        let blocks = after.b.blocks;
        let expected = env.variables@[i as int];
        meaning::played_nothing(t.b.log, from, blocks, start);
        assignments_are_played(t.b, t.peek(0), expected, from, blocks, start, w);
        let (b1, value) = translate::assignable(t.b, t.peek(0), expected);
        meaning::played_one_more(b1.log, Event::DefVar { var: i, value }, from, blocks, start);
    }
}

/// A global gives what was last assigned to it, and an assignment changes no other global.
#[verifier::spinoff_prover]
#[verifier::rlimit(40)]
pub proof fn globals_hold_what_is_assigned(env: &FuncEnv, t: Trans, w: World, i: u32)
    requires
        settled(t),
        i < env.globals@.len(),
    ensures
        ({
            let (after, result) = translate::translated(
                env,
                Operator::GlobalGet { global_index: i },
                t,
            );
            let global = env.globals@[i as int];
            &&& result is Ok
            &&& after.stack.drop_last() == t.stack
            &&& after.peek(0).ty == IrType::Scalar(global.ty)
            &&& flows(t, after, Flow::Falls(w)) matches Flow::Falls(done) && done.val(after.peek(0))
                == w.globals[global.name] && only_defines(w, done, t.b.next)
        }),
        t.stack.len() >= 1 ==> ({
            let (after, result) = translate::translated(
                env,
                Operator::GlobalSet { global_index: i },
                t,
            );
            let global = env.globals@[i as int];
            &&& result is Ok
            &&& after.stack == t.stack.drop_last()
            &&& flows(t, after, Flow::Falls(w)) == Flow::Falls(
                World { globals: w.globals.insert(global.name, w.val(t.peek(0))), ..w },
            )
        }),
{
    let from = t.b.log.len();
    let start = Flow::Falls(w);
    let global = env.globals@[i as int];
    {
        let op = Operator::GlobalGet { global_index: i };
        assert(recipe::recipe_of(op) is None);
        let (after, _) = translate::translated(env, op, t);
        assert(after.stack.drop_last() =~= t.stack);
        let result = t.b.fresh(0, IrType::Scalar(global.ty));
        meaning::played_nothing(t.b.log, from, after.b.blocks, start);
        meaning::played_one_more(
            t.b.log,
            Event::LoadGlobal { name: global.name, result },
            from,
            after.b.blocks,
            start,
        );
    }
    if t.stack.len() >= 1 {
        let op = Operator::GlobalSet { global_index: i };
        assert(recipe::recipe_of(op) is None);
        let (after, _) = translate::translated(env, op, t);
        assert(after.stack =~= t.stack.drop_last());
        meaning::played_nothing(t.b.log, from, after.b.blocks, start);
        meaning::played_one_more(
            t.b.log,
            Event::StoreGlobal { name: global.name, value: t.peek(0) },
            from,
            after.b.blocks,
            start,
        );
    }
}

/// A constant is its number in two's complement.
#[verifier::spinoff_prover]
#[verifier::rlimit(40)]
pub proof fn constants_are_their_numbers(env: &FuncEnv, t: Trans, w: World, x: i32, y: i64)
    requires
        settled(t),
    ensures
        ({
            let (after, result) = translate::translated(env, Operator::I32Const { value: x }, t);
            &&& result is Ok
            &&& after.stack.drop_last() == t.stack
            &&& after.peek(0).ty == IrType::Scalar(ScalarType::I32)
            &&& flows(t, after, Flow::Falls(w)) matches Flow::Falls(done) && done.val(after.peek(0))
                == x as int % 0x1_0000_0000 && only_defines(w, done, t.b.next)
        }),
        ({
            let (after, result) = translate::translated(env, Operator::I64Const { value: y }, t);
            &&& result is Ok
            &&& after.stack.drop_last() == t.stack
            &&& after.peek(0).ty == IrType::Scalar(ScalarType::I64)
            &&& flows(t, after, Flow::Falls(w)) matches Flow::Falls(done) && done.val(after.peek(0))
                == y as int % 0x1_0000_0000_0000_0000 && only_defines(w, done, t.b.next)
        }),
{
    broadcast use meaning::group_played;

    assert(recipe::recipe_of(Operator::I32Const { value: x }) is None);
    assert(recipe::recipe_of(Operator::I64Const { value: y }) is None);
    let (a, _) = translate::translated(env, Operator::I32Const { value: x }, t);
    let (b, _) = translate::translated(env, Operator::I64Const { value: y }, t);
    assert(a.stack.drop_last() =~= t.stack);
    assert(b.stack.drop_last() =~= t.stack);
    assert(Immediate::I32(x).number() == x);
    assert(Immediate::I64(y).number() == y);
}

/// `drop` takes a value from the stack and does nothing else; `nop` does nothing.
#[verifier::spinoff_prover]
#[verifier::rlimit(40)]
pub proof fn drops_take_a_value(env: &FuncEnv, t: Trans, w: World)
    requires
        settled(t),
    ensures
        translate::translated(env, Operator::Nop, t).0 == t,
        t.stack.len() >= 1 ==> ({
            let (after, result) = translate::translated(env, Operator::Drop, t);
            &&& result is Ok
            &&& after.stack == t.stack.drop_last()
            &&& flows(t, after, Flow::Falls(w)) == Flow::Falls(w)
        }),
{
    assert(recipe::recipe_of(Operator::Nop) is None);
    assert(recipe::recipe_of(Operator::Drop) is None);
    if t.stack.len() >= 1 {
        let (after, _) = translate::translated(env, Operator::Drop, t);
        assert(after.stack =~= t.stack.drop_last());
    }
}

proof fn choices_are_played(t: Trans, test: (BinaryOp, Immediate), w: World)
    requires
        settled(t),
        t.stack.len() >= 3,
        test.1.number() == 0,
        test.0 == BinaryOp::Neq || test.0 == BinaryOp::Gt && number(t.peek(0).ty, w.val(t.peek(0)))
            >= 0,
        fits(w, t.peek(0)),
    ensures
        ({
            let after = translate::selected(t, test);
            &&& after.stack.drop_last() == t.stack.take(t.stack.len() - 3)
            &&& after.peek(0).ty == t.peek(2).ty
            &&& flows(t, after, Flow::Falls(w)) matches Flow::Falls(done) && only_defines(
                w,
                done,
                t.b.next,
            ) && done.val(after.peek(0)) == (if w.val(t.peek(0)) != 0 {
                w.val(t.peek(2))
            } else {
                w.val(t.peek(1))
            })
        }),
{
    broadcast use meaning::group_played;

    let after = translate::selected(t, test);
    assert(after.stack.drop_last() =~= t.stack.take(t.stack.len() - 3));
    let x = w.val(t.peek(0));
    comparisons(t.peek(0).ty, x, 0);
    let zero_ty = IrType::Scalar(test.1.type_of());
    assert(0int % range_of(zero_ty) == 0);
    let from = t.b.log.len();
    let blocks = after.b.blocks;
    let start = Flow::Falls(w);
    let (b1, imm) = t.b.imm(test.1);
    assert(played(b1.log, from, blocks, start) == Flow::Falls(w.with(imm, 0)));
    let (b2, cond) = b1.binary(test.0, t.peek(0), imm);
    let w2 = w.with(imm, 0).with(cond, meaning::truth(x != 0));
    assert(played(b2.log, from, blocks, start) == Flow::Falls(w2));
}

/// A selection takes a condition and two values from the stack. It gives the value further down if
/// the condition is not zero, else the other. Among field elements, a condition that stands for a
/// number below zero is not looked at here.
#[verifier::spinoff_prover]
#[verifier::rlimit(40)]
pub proof fn selections_go_by_the_condition(env: &FuncEnv, t: Trans, w: World, ty: ValType, typed: bool)
    requires
        settled(t),
        t.stack.len() >= 3,
        fits(w, t.peek(0)),
        typed ==> translate::select_test(ty) is Some,
        typed && ty is F32 ==> number(t.peek(0).ty, w.val(t.peek(0))) >= 0,
    ensures
        ({
            let op = if typed {
                Operator::TypedSelect { ty }
            } else {
                Operator::Select
            };
            let (after, result) = translate::translated(env, op, t);
            &&& result is Ok
            &&& after.stack.drop_last() == t.stack.take(t.stack.len() - 3)
            &&& after.peek(0).ty == t.peek(2).ty
            &&& flows(t, after, Flow::Falls(w)) matches Flow::Falls(done) && only_defines(
                w,
                done,
                t.b.next,
            ) && done.val(after.peek(0)) == (if w.val(t.peek(0)) != 0 {
                w.val(t.peek(2))
            } else {
                w.val(t.peek(1))
            })
        }),
{
    assert(recipe::recipe_of(Operator::Select) is None);
    assert(recipe::recipe_of(Operator::TypedSelect { ty }) is None);
    assert(Immediate::I32(0).number() == 0);
    assert(Immediate::I64(0).number() == 0);
    assert(Immediate::Felt(0).number() == 0);
    choices_are_played(
        t,
        if typed {
            translate::select_test(ty)->0
        } else {
            (BinaryOp::Neq, Immediate::I32(0))
        },
        w,
    );
}

/// The number whose halves are on the stack, the low one `i` values down and the high one just below.
pub open spec fn halves(t: Trans, w: World, i: int) -> int {
    w.val(t.peek(i + 1)) * 0x1_0000_0000_0000_0000 + w.val(t.peek(i))
}

/// The two values on top are the halves of `n`, the high one on top.
pub open spec fn holds_halves(after: Trans, done: World, n: int) -> bool {
    &&& range_of(after.peek(0).ty) == range_of(after.peek(1).ty) == 0x1_0000_0000_0000_0000
    &&& fits(done, after.peek(0)) && fits(done, after.peek(1))
    &&& done.val(after.peek(0)) * 0x1_0000_0000_0000_0000 + done.val(after.peek(1)) == n
}

/// How many numbers there are of 128 bits.
pub open spec fn n128() -> int {
    0x1_0000_0000_0000_0000_0000_0000_0000_0000int
}

proof fn splits_are_played(
    t: Trans,
    rest: Trans,
    built: (Built, Value),
    blocks: Seq<Seq<Value>>,
    start: Flow,
    w: World,
    n: int,
)
    requires
        t.b.log.len() <= built.0.log.len(),
        built.0.next + 2 <= u32::MAX,
        t.b.next <= built.0.next,
        played(built.0.log, t.b.log.len(), blocks, start) matches Flow::Falls(w1) && w1.val(
            built.1,
        ) == n && only_defines(w, w1, t.b.next),
        built.1.ty == IrType::Scalar(ScalarType::I128) || built.1.ty == IrType::Scalar(
            ScalarType::U128,
        ),
        0 <= n < n128(),
    ensures
        ({
            let after = memory::halves_pushed(rest, built);
            &&& after.stack.take(after.stack.len() - 2) == rest.stack
            &&& played(after.b.log, t.b.log.len(), blocks, start) matches Flow::Falls(done)
                && only_defines(w, done, t.b.next) && holds_halves(after, done, n)
        }),
{
    let after = memory::halves_pushed(rest, built);
    assert(after.stack.take(after.stack.len() - 2) =~= rest.stack);
    let b = built.0;
    let hi = b.fresh(0, memory::halved(built.1.ty));
    let lo = b.fresh(1, memory::halved(built.1.ty));
    assert(after.peek(0) == hi && after.peek(1) == lo);
    let n64 = 0x1_0000_0000_0000_0000int;
    assert(range_of(lo.ty) == n64);
    assert(n64 * n64 == n128()) by (nonlinear_arith)
        requires
            n64 == 0x1_0000_0000_0000_0000int,
            n128() == 0x1_0000_0000_0000_0000_0000_0000_0000_0000int,
    ;
    assert(0 <= n / n64 < n64 && 0 <= n % n64 < n64 && (n / n64) * n64 + n % n64 == n)
        by (nonlinear_arith)
        requires
            n64 == 0x1_0000_0000_0000_0000int,
            0 <= n < n64 * n64,
    ;
    meaning::played_one_more(
        b.log,
        Event::Split { arg: built.1, hi, lo },
        t.b.log.len(),
        blocks,
        start,
    );
}

/// Sums and differences of 128 bits. Of each operand the low half is on top; of the result it is the
/// high half.
#[verifier::spinoff_prover]
#[verifier::rlimit(40)]
pub proof fn wide_sums_wrap(env: &FuncEnv, t: Trans, w: World, minus: bool)
    requires
        settled(t),
        t.stack.len() >= 4,
        forall|i: int|
            0 <= i < 4 ==> (#[trigger] t.peek(i)).ty == IrType::Scalar(ScalarType::I64) && fits(
                w,
                t.peek(i),
            ),
    ensures
        ({
            let op = if minus {
                Operator::I64Sub128
            } else {
                Operator::I64Add128
            };
            let (after, result) = translate::translated(env, op, t);
            let x = halves(t, w, 2);
            let y = halves(t, w, 0);
            &&& result is Ok
            &&& after.stack.take(after.stack.len() - 2) == t.stack.take(t.stack.len() - 4)
            &&& flows(t, after, Flow::Falls(w)) matches Flow::Falls(done) && only_defines(
                w,
                done,
                t.b.next,
            ) && holds_halves(
                after,
                done,
                (if minus {
                    x - y
                } else {
                    x + y
                }) % n128(),
            )
        }),
{
    broadcast use meaning::group_played;

    assert(recipe::recipe_of(Operator::I64Add128) is None);
    assert(recipe::recipe_of(Operator::I64Sub128) is None);
    let op = if minus {
        BinaryOp::SubWrapping
    } else {
        BinaryOp::AddWrapping
    };
    let after = memory::wide(t, op);
    let rest = t.popped(4);
    assert(rest.stack =~= t.stack.take(t.stack.len() - 4));
    let from = t.b.log.len();
    let blocks = after.b.blocks;
    let start = Flow::Falls(w);
    let i128_ty = IrType::Scalar(ScalarType::I128);
    assert(t.peek(0).ty == t.peek(1).ty && t.peek(2).ty == t.peek(3).ty);
    let x = halves(t, w, 2);
    let y = halves(t, w, 0);
    let (b1, lhs) = memory::joined(t.b, t.peek(3), t.peek(2));
    let w1 = w.with(lhs, x);
    assert(played(b1.log, from, blocks, start) == Flow::Falls(w1));
    let (b2, rhs) = memory::joined(b1, t.peek(1), t.peek(0));
    let w2 = w1.with(rhs, y);
    assert(w1.val(t.peek(1)) == w.val(t.peek(1)) && w1.val(t.peek(0)) == w.val(t.peek(0)));
    assert(played(b2.log, from, blocks, start) == Flow::Falls(w2));
    sums(i128_ty, x, y);
    let (b3, result) = b2.binary(op, lhs, rhs);
    let n = (if minus {
        x - y
    } else {
        x + y
    }) % n128();
    assert(w2.val(lhs) == x && w2.val(rhs) == y);
    assert(played(b3.log, from, blocks, start) == Flow::Falls(w2.with(result, n)));
    splits_are_played(t, rest, (b3, result), blocks, start, w, n);
}

/// Products of 128 bits. Of the result the high half is on top.
#[verifier::spinoff_prover]
#[verifier::rlimit(40)]
pub proof fn wide_products_are_whole(env: &FuncEnv, t: Trans, w: World)
    requires
        settled(t),
        t.stack.len() >= 2,
        forall|i: int|
            0 <= i < 2 ==> (#[trigger] t.peek(i)).ty == IrType::Scalar(ScalarType::I64) && fits(
                w,
                t.peek(i),
            ),
    ensures
        ({
            let (after, result) = translate::translated(env, Operator::I64MulWideU, t);
            &&& result is Ok
            &&& after.stack.take(after.stack.len() - 2) == t.stack.take(t.stack.len() - 2)
            &&& flows(t, after, Flow::Falls(w)) matches Flow::Falls(done) && only_defines(
                w,
                done,
                t.b.next,
            ) && holds_halves(after, done, w.val(t.peek(1)) * w.val(t.peek(0)))
        }),
        ({
            let (after, result) = translate::translated(env, Operator::I64MulWideS, t);
            let x = signed(w.val(t.peek(1)), 0x1_0000_0000_0000_0000);
            let y = signed(w.val(t.peek(0)), 0x1_0000_0000_0000_0000);
            &&& result is Ok
            &&& after.stack.take(after.stack.len() - 2) == t.stack.take(t.stack.len() - 2)
            &&& flows(t, after, Flow::Falls(w)) matches Flow::Falls(done) && only_defines(
                w,
                done,
                t.b.next,
            ) && holds_halves(after, done, (x * y) % n128())
        }),
{
    assert(recipe::recipe_of(Operator::I64MulWideU) is None);
    assert(recipe::recipe_of(Operator::I64MulWideS) is None);
    unsigned_products_are_whole(t, w);
    signed_products_are_whole(t, w);
}

proof fn unsigned_products_are_whole(t: Trans, w: World)
    requires
        settled(t),
        t.stack.len() >= 2,
        forall|i: int|
            0 <= i < 2 ==> (#[trigger] t.peek(i)).ty == IrType::Scalar(ScalarType::I64) && fits(
                w,
                t.peek(i),
            ),
    ensures
        ({
            let after = memory::mul_wide_u(t);
            &&& after.stack.take(after.stack.len() - 2) == t.stack.take(t.stack.len() - 2)
            &&& flows(t, after, Flow::Falls(w)) matches Flow::Falls(done) && only_defines(
                w,
                done,
                t.b.next,
            ) && holds_halves(after, done, w.val(t.peek(1)) * w.val(t.peek(0)))
        }),
{
    let after = memory::mul_wide_u(t);
    let rest = t.popped(2);
    assert(rest.stack =~= t.stack.take(t.stack.len() - 2));
    let from = t.b.log.len();
    let blocks = after.b.blocks;
    let start = Flow::Falls(w);
    let i64_ty = IrType::Scalar(ScalarType::I64);
    let u64_ty = IrType::Scalar(ScalarType::U64);
    let u128_ty = IrType::Scalar(ScalarType::U128);
    let x = w.val(t.peek(1));
    let y = w.val(t.peek(0));
    assert(t.peek(0).ty == i64_ty && t.peek(1).ty == i64_ty);
    meaning::played_nothing(t.b.log, from, blocks, start);
    conversions(i64_ty, u64_ty, x);
    conversions(i64_ty, u64_ty, y);
    conversions(u64_ty, u128_ty, x);
    conversions(u64_ty, u128_ty, y);
    conversions_are_played(t.b, Conversion::Bitcast, t.peek(1), u64_ty, from, blocks, start);
    let (b1, lhs_u) = t.b.convert(Conversion::Bitcast, t.peek(1), u64_ty);
    conversions_are_played(b1, Conversion::Zext, lhs_u, u128_ty, from, blocks, start);
    let (b2, lhs) = b1.convert(Conversion::Zext, lhs_u, u128_ty);
    conversions_are_played(b2, Conversion::Bitcast, t.peek(0), u64_ty, from, blocks, start);
    let (b3, rhs_u) = b2.convert(Conversion::Bitcast, t.peek(0), u64_ty);
    conversions_are_played(b3, Conversion::Zext, rhs_u, u128_ty, from, blocks, start);
    let (b4, rhs) = b3.convert(Conversion::Zext, rhs_u, u128_ty);
    let w4 = played(b4.log, from, blocks, start)->Falls_0;
    assert(w4.val(lhs) == x && w4.val(rhs) == y && only_defines(w, w4, t.b.next));
    sums(u128_ty, x, y);
    assert(0 <= x * y < n128()) by (nonlinear_arith)
        requires
            0 <= x < 0x1_0000_0000_0000_0000int,
            0 <= y < 0x1_0000_0000_0000_0000int,
            n128() == 0x1_0000_0000_0000_0000_0000_0000_0000_0000int,
    ;
    vstd::arithmetic::div_mod::lemma_small_mod((x * y) as nat, n128() as nat);
    let (b5, result) = b4.binary(BinaryOp::MulWrapping, lhs, rhs);
    let step = Event::Binary { op: BinaryOp::MulWrapping, lhs, rhs, result };
    meaning::played_one_more(b4.log, step, from, blocks, start);
    assert(b5.log == b4.log.push(step));
    assert(played(b5.log, from, blocks, start) == Flow::Falls(w4.with(result, x * y)));
    splits_are_played(t, rest, (b5, result), blocks, start, w, x * y);
}

proof fn signed_products_are_whole(t: Trans, w: World)
    requires
        settled(t),
        t.stack.len() >= 2,
        forall|i: int|
            0 <= i < 2 ==> (#[trigger] t.peek(i)).ty == IrType::Scalar(ScalarType::I64) && fits(
                w,
                t.peek(i),
            ),
    ensures
        ({
            let after = memory::mul_wide_s(t);
            let x = signed(w.val(t.peek(1)), 0x1_0000_0000_0000_0000);
            let y = signed(w.val(t.peek(0)), 0x1_0000_0000_0000_0000);
            &&& after.stack.take(after.stack.len() - 2) == t.stack.take(t.stack.len() - 2)
            &&& flows(t, after, Flow::Falls(w)) matches Flow::Falls(done) && only_defines(
                w,
                done,
                t.b.next,
            ) && holds_halves(after, done, (x * y) % n128())
        }),
{
    let after = memory::mul_wide_s(t);
    let rest = t.popped(2);
    assert(rest.stack =~= t.stack.take(t.stack.len() - 2));
    let from = t.b.log.len();
    let blocks = after.b.blocks;
    let start = Flow::Falls(w);
    let i64_ty = IrType::Scalar(ScalarType::I64);
    let i128_ty = IrType::Scalar(ScalarType::I128);
    assert(t.peek(0).ty == i64_ty && t.peek(1).ty == i64_ty);
    let x = signed(w.val(t.peek(1)), 0x1_0000_0000_0000_0000);
    let y = signed(w.val(t.peek(0)), 0x1_0000_0000_0000_0000);
    meaning::played_nothing(t.b.log, from, blocks, start);
    conversions(i64_ty, i128_ty, w.val(t.peek(1)));
    conversions(i64_ty, i128_ty, w.val(t.peek(0)));
    conversions_are_played(t.b, Conversion::Sext, t.peek(1), i128_ty, from, blocks, start);
    let (b1, lhs) = t.b.convert(Conversion::Sext, t.peek(1), i128_ty);
    conversions_are_played(b1, Conversion::Sext, t.peek(0), i128_ty, from, blocks, start);
    let (b2, rhs) = b1.convert(Conversion::Sext, t.peek(0), i128_ty);
    let w2 = played(b2.log, from, blocks, start)->Falls_0;
    assert(w2.val(lhs) == x % n128() && w2.val(rhs) == y % n128());
    assert(only_defines(w, w2, t.b.next));
    sums(i128_ty, x % n128(), y % n128());
    vstd::arithmetic::div_mod::lemma_mul_mod_noop(x, y, n128());
    let n = (x * y) % n128();
    let (b3, result) = b2.binary(BinaryOp::MulWrapping, lhs, rhs);
    let step = Event::Binary { op: BinaryOp::MulWrapping, lhs, rhs, result };
    meaning::played_one_more(b2.log, step, from, blocks, start);
    assert(b3.log == b2.log.push(step));
    assert(played(b3.log, from, blocks, start) == Flow::Falls(w2.with(result, n)));
    splits_are_played(t, rest, (b3, result), blocks, start, w, n);
}

} // verus!

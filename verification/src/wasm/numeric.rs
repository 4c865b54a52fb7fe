//! What numeric operators compute, by the definition of WebAssembly, and that their translation
//! computes it.
use vstd::prelude::*;
use vstd::arithmetic::power2::pow2;
use crate::types::{Immediate, ScalarType};
use crate::wasm::builder::Built;
use crate::wasm::ir::{Conversion, IrType, Value};
use crate::wasm::meaning::{
    self, binary_number, both, converted_number, counts_are_bounded, either, fits,
    leading_zeros, magnitude, only_defines, ones, only_one, played, range_of, rotated, signed,
    trailing_zeros, truth, unary_number, Flow, World,
};
use crate::wasm::operator::{FuncEnv, Operator, ValType};
use crate::wasm::recipe::{self, Core, Prep, Recipe};
use crate::wasm::state::Trans;
use crate::wasm::translate;

verus! {

/// How many numbers of 32 bits there are.
pub open spec fn n32() -> int {
    0x1_0000_0000
}

/// How many numbers of 64 bits there are.
pub open spec fn n64() -> int {
    0x1_0000_0000_0000_0000
}

/// The division of numbers with a sign fails by zero, and where the quotient is too large.
#[verifier::opaque]
pub open spec fn divided_signed(x: int, y: int, n: int) -> Option<int> {
    let (a, b) = (signed(x, n), signed(y, n));
    if b == 0 || (2 * a == -n && b == -1) {
        None
    } else if a >= 0 && b > 0 {
        Some(a / b)
    } else if a < 0 && b < 0 {
        Some((-a) / (-b))
    } else if a < 0 {
        Some((-((-a) / b)) % n)
    } else {
        Some((-(a / (-b))) % n)
    }
}

/// The remainder of numbers with a sign has the sign of the dividend.
#[verifier::opaque]
pub open spec fn remainder_signed(x: int, y: int, n: int) -> Option<int> {
    let (a, b) = (signed(x, n), signed(y, n));
    if b == 0 {
        None
    } else if a >= 0 {
        Some(a % magnitude(b))
    } else {
        Some((-((-a) % magnitude(b))) % n)
    }
}

/// The division of numbers without a sign.
pub open spec fn divided(x: int, y: int) -> Option<int> {
    if y == 0 {
        None
    } else {
        Some(x / y)
    }
}

/// The remainder of numbers without a sign.
pub open spec fn remainder(x: int, y: int) -> Option<int> {
    if y == 0 {
        None
    } else {
        Some(x % y)
    }
}

/// The type of the operands of a numeric operator.
pub open spec fn operand_type(op: Operator) -> ValType {
    match operands(op) {
        Some((ty, _)) => ty,
        None => ValType::I32,
    }
}

/// How many operands a numeric operator takes.
pub open spec fn operand_count(op: Operator) -> nat {
    match operands(op) {
        Some((_, n)) => n,
        None => 0,
    }
}

/// The type of the operands of a numeric operator, and how many it takes.
pub open spec fn operands(op: Operator) -> Option<(ValType, nat)> {
    match op {
        Operator::I32Clz | Operator::I32Ctz | Operator::I32Popcnt | Operator::I32Extend8S
        | Operator::I32Extend16S | Operator::I64ExtendI32S | Operator::I64ExtendI32U
        | Operator::F32ReinterpretI32 | Operator::I32Eqz => Some((ValType::I32, 1)),
        Operator::I64Clz | Operator::I64Ctz | Operator::I64Popcnt | Operator::I32WrapI64
        | Operator::I64Eqz => Some((ValType::I64, 1)),
        Operator::I32Add | Operator::I32Sub | Operator::I32Mul | Operator::I32DivS
        | Operator::I32DivU | Operator::I32RemS | Operator::I32RemU | Operator::I32And
        | Operator::I32Or | Operator::I32Xor | Operator::I32Shl | Operator::I32ShrS
        | Operator::I32ShrU | Operator::I32Rotl | Operator::I32Rotr | Operator::I32Eq
        | Operator::I32Ne | Operator::I32LtS | Operator::I32LtU | Operator::I32GtS
        | Operator::I32GtU | Operator::I32LeS | Operator::I32LeU | Operator::I32GeS
        | Operator::I32GeU => Some((ValType::I32, 2)),
        Operator::I64Add | Operator::I64Sub | Operator::I64Mul | Operator::I64DivS
        | Operator::I64DivU | Operator::I64RemS | Operator::I64RemU | Operator::I64And
        | Operator::I64Or | Operator::I64Xor | Operator::I64Shl | Operator::I64ShrS
        | Operator::I64ShrU | Operator::I64Rotl | Operator::I64Rotr | Operator::I64Eq
        | Operator::I64Ne | Operator::I64LtS | Operator::I64LtU | Operator::I64GtS
        | Operator::I64GtU | Operator::I64LeS | Operator::I64LeU | Operator::I64GeS
        | Operator::I64GeU => Some((ValType::I64, 2)),
        _ => None,
    }
}

/// The type of the result of a numeric operator. Counts of bits have 32 bits.
pub open spec fn result_type(op: Operator) -> IrType {
    match op {
        Operator::I64ExtendI32S | Operator::I64ExtendI32U | Operator::I64Add | Operator::I64Sub
        | Operator::I64Mul | Operator::I64DivS | Operator::I64DivU | Operator::I64RemS
        | Operator::I64RemU | Operator::I64And | Operator::I64Or | Operator::I64Xor
        | Operator::I64Shl | Operator::I64ShrS | Operator::I64ShrU | Operator::I64Rotl
        | Operator::I64Rotr => IrType::Scalar(ScalarType::I64),
        Operator::F32ReinterpretI32 => IrType::Scalar(ScalarType::Felt),
        _ => IrType::Scalar(ScalarType::I32),
    }
}

/// What a numeric operator gives for its operands, the first of which is `x`; none where it fails.
/// Numbers are bit patterns: at least zero, and less than [n32] or [n64].
///
/// A number of 32 bits is kept by the extensions from fewer bits.
pub open spec fn value_of(op: Operator, x: int, y: int) -> Option<int> {
    match op {
        Operator::I32Clz => Some(leading_zeros(x, 32)),
        Operator::I64Clz => Some(leading_zeros(x, 64)),
        Operator::I32Ctz => Some(trailing_zeros(x, 32)),
        Operator::I64Ctz => Some(trailing_zeros(x, 64)),
        Operator::I32Popcnt => Some(ones(x, 32)),
        Operator::I64Popcnt => Some(ones(x, 64)),
        Operator::I32Extend8S | Operator::I32Extend16S => Some(x),
        Operator::I64ExtendI32S => Some(
            if x < 0x8000_0000 {
                x
            } else {
                x + (n64() - n32())
            },
        ),
        Operator::I64ExtendI32U => Some(x),
        Operator::I32WrapI64 => Some(x % n32()),
        Operator::F32ReinterpretI32 => Some(x),
        Operator::I32Add => Some((x + y) % n32()),
        Operator::I64Add => Some((x + y) % n64()),
        Operator::I32Sub => Some((x - y) % n32()),
        Operator::I64Sub => Some((x - y) % n64()),
        Operator::I32Mul => Some((x * y) % n32()),
        Operator::I64Mul => Some((x * y) % n64()),
        Operator::I32DivS => divided_signed(x, y, n32()),
        Operator::I64DivS => divided_signed(x, y, n64()),
        Operator::I32DivU | Operator::I64DivU => divided(x, y),
        Operator::I32RemS => remainder_signed(x, y, n32()),
        Operator::I64RemS => remainder_signed(x, y, n64()),
        Operator::I32RemU | Operator::I64RemU => remainder(x, y),
        Operator::I32And | Operator::I64And => Some(both(x, y)),
        Operator::I32Or | Operator::I64Or => Some(either(x, y)),
        Operator::I32Xor | Operator::I64Xor => Some(only_one(x, y)),
        Operator::I32Shl => Some((x * pow2((y % 32) as nat)) % n32()),
        Operator::I64Shl => Some((x * pow2((y % 64) as nat)) % n64()),
        Operator::I32ShrU => Some(x / (pow2((y % 32) as nat) as int)),
        Operator::I64ShrU => Some(x / (pow2((y % 64) as nat) as int)),
        Operator::I32ShrS => Some((signed(x, n32()) / (pow2((y % 32) as nat) as int)) % n32()),
        Operator::I64ShrS => Some((signed(x, n64()) / (pow2((y % 64) as nat) as int)) % n64()),
        Operator::I32Rotl => Some(rotated(x, (y % 32) as nat, 32)),
        Operator::I64Rotl => Some(rotated(x, (y % 64) as nat, 64)),
        Operator::I32Rotr => Some(rotated(x, ((32 - y % 32) % 32) as nat, 32)),
        Operator::I64Rotr => Some(rotated(x, ((64 - y % 64) % 64) as nat, 64)),
        Operator::I32Eqz | Operator::I64Eqz => Some(truth(x == 0)),
        Operator::I32Eq | Operator::I64Eq => Some(truth(x == y)),
        Operator::I32Ne | Operator::I64Ne => Some(truth(x != y)),
        Operator::I32LtU | Operator::I64LtU => Some(truth(x < y)),
        Operator::I32LeU | Operator::I64LeU => Some(truth(x <= y)),
        Operator::I32GtU | Operator::I64GtU => Some(truth(x > y)),
        Operator::I32GeU | Operator::I64GeU => Some(truth(x >= y)),
        Operator::I32LtS => Some(truth(signed(x, n32()) < signed(y, n32()))),
        Operator::I64LtS => Some(truth(signed(x, n64()) < signed(y, n64()))),
        Operator::I32LeS => Some(truth(signed(x, n32()) <= signed(y, n32()))),
        Operator::I64LeS => Some(truth(signed(x, n64()) <= signed(y, n64()))),
        Operator::I32GtS => Some(truth(signed(x, n32()) > signed(y, n32()))),
        Operator::I64GtS => Some(truth(signed(x, n64()) > signed(y, n64()))),
        Operator::I32GeS => Some(truth(signed(x, n32()) >= signed(y, n32()))),
        Operator::I64GeS => Some(truth(signed(x, n64()) >= signed(y, n64()))),
        _ => None,
    }
}

spec fn prepared_type(prep: Prep, ty: IrType, first: IrType) -> IrType {
    match prep {
        Prep::Keep => ty,
        Prep::Bitcast(to) | Prep::BitcastUnless(to) | Prep::Cast(to) => IrType::Scalar(to),
        Prep::LikeFirst => first,
    }
}

spec fn prepared_number(prep: Prep, ty: IrType, first: IrType, x: int) -> int {
    let to = prepared_type(prep, ty, first);
    match prep {
        Prep::Keep => x,
        Prep::Bitcast(_) => converted_number(Conversion::Bitcast, ty, to, x),
        Prep::BitcastUnless(_) | Prep::LikeFirst => if ty == to {
            x
        } else {
            converted_number(Conversion::Bitcast, ty, to, x)
        },
        Prep::Cast(_) => converted_number(Conversion::Cast, ty, to, x),
    }
}

spec fn core_type(core: Core, x: IrType) -> IrType {
    match core {
        Core::One { arg } => prepared_type(arg, x, x),
        Core::Unary { .. } => IrType::Scalar(ScalarType::U32),
        Core::Binary { op, first, .. } => op.result_of(prepared_type(first, x, x)),
        Core::WithConst { op, .. } => op.result_of(x),
    }
}

spec fn core_number(core: Core, xt: IrType, yt: IrType, x: int, y: int) -> Option<int> {
    match core {
        Core::One { arg } => Some(prepared_number(arg, xt, xt, x)),
        Core::Unary { op } => Some(unary_number(op, xt, x)),
        Core::Binary { op, first, second } => binary_number(
            op,
            prepared_type(first, xt, xt),
            prepared_number(first, xt, xt, x),
            prepared_number(second, yt, xt, y),
        ),
        Core::WithConst { op, imm } => binary_number(
            op,
            xt,
            x,
            imm.number() % range_of(IrType::Scalar(imm.type_of())),
        ),
    }
}

spec fn then_type(ty: IrType, conversion: Option<(Conversion, ScalarType)>) -> IrType {
    match conversion {
        Some((_, to)) => IrType::Scalar(to),
        None => ty,
    }
}

spec fn then_number(ty: IrType, x: int, conversion: Option<(Conversion, ScalarType)>) -> int {
    match conversion {
        Some((op, to)) => converted_number(op, ty, IrType::Scalar(to), x),
        None => x,
    }
}

spec fn recipe_type(recipe: Recipe, xt: IrType) -> IrType {
    then_type(then_type(then_type(core_type(recipe.core, xt), recipe.first), recipe.second), recipe.third)
}

spec fn recipe_number(recipe: Recipe, xt: IrType, yt: IrType, x: int, y: int) -> Option<int> {
    match core_number(recipe.core, xt, yt, x, y) {
        Some(n) => {
            let t0 = core_type(recipe.core, xt);
            let t1 = then_type(t0, recipe.first);
            let t2 = then_type(t1, recipe.second);
            let n1 = then_number(t0, n, recipe.first);
            let n2 = then_number(t1, n1, recipe.second);
            Some(then_number(t2, n2, recipe.third))
        },
        None => None,
    }
}

/// The steps of `built` take control from `w` to where its value has the pattern `x`, with nothing
/// but values from `n` on defined.
spec fn yields(built: (Built, Value), from: nat, blocks: Seq<Seq<Value>>, w: World, n: nat, x: int) -> bool {
    played(built.0.log, from, blocks, Flow::Falls(w)) matches Flow::Falls(after) && after.val(built.1)
        == x && only_defines(w, after, n)
}

proof fn preparing_computes(
    b: Built,
    prep: Prep,
    value: Value,
    first: IrType,
    from: nat,
    blocks: Seq<Seq<Value>>,
    w: World,
    now: World,
    n: nat,
)
    requires
        from <= b.log.len(),
        n <= b.next < u32::MAX,
        value.id < b.next,
        played(b.log, from, blocks, Flow::Falls(w)) == Flow::Falls(now),
        only_defines(w, now, n),
    ensures
        ({
            let built = recipe::prepared(b, prep, value, first);
            &&& yields(built, from, blocks, w, n, prepared_number(prep, value.ty, first, now.val(value)))
            &&& built.1.ty == prepared_type(prep, value.ty, first)
            &&& built.1.id < built.0.next
            &&& b.next <= built.0.next <= b.next + 1
            &&& b.log.len() <= built.0.log.len()
            &&& built.0.blocks == b.blocks
            &&& played(built.0.log, from, blocks, Flow::Falls(w)) matches Flow::Falls(after)
                && only_defines(now, after, b.next)
        }),
{
    broadcast use meaning::group_played;

}

proof fn converting_computes(
    built: (Built, Value),
    conversion: Option<(Conversion, ScalarType)>,
    from: nat,
    blocks: Seq<Seq<Value>>,
    w: World,
    n: nat,
    x: int,
)
    requires
        from <= built.0.log.len(),
        n <= built.0.next < u32::MAX,
        built.1.id < built.0.next,
        yields(built, from, blocks, w, n, x),
    ensures
        ({
            let after = recipe::converted(built, conversion);
            &&& yields(after, from, blocks, w, n, then_number(built.1.ty, x, conversion))
            &&& after.1.ty == then_type(built.1.ty, conversion)
            &&& after.1.id < after.0.next
            &&& built.0.next <= after.0.next <= built.0.next + 1
            &&& built.0.log.len() <= after.0.log.len()
            &&& after.0.blocks == built.0.blocks
        }),
{
    broadcast use meaning::group_played;

}

proof fn failure_stays(
    built: (Built, Value),
    conversion: Option<(Conversion, ScalarType)>,
    from: nat,
    blocks: Seq<Seq<Value>>,
    w: World,
)
    requires
        from <= built.0.log.len(),
        played(built.0.log, from, blocks, Flow::Falls(w)) is Fails,
    ensures
        played(recipe::converted(built, conversion).0.log, from, blocks, Flow::Falls(w)) is Fails,
        built.0.log.len() <= recipe::converted(built, conversion).0.log.len(),
{
    broadcast use meaning::group_played;

}

proof fn core_computes(b: Built, core: Core, x: Value, y: Value, blocks: Seq<Seq<Value>>, w: World)
    requires
        b.next + 4 <= u32::MAX,
        x.id < b.next,
        y.id < b.next,
    ensures
        ({
            let built = recipe::computed(b, core, x, y);
            let from = b.log.len();
            &&& match core_number(core, x.ty, y.ty, w.val(x), w.val(y)) {
                Some(n) => yields(built, from, blocks, w, b.next, n),
                None => played(built.0.log, from, blocks, Flow::Falls(w)) is Fails,
            }
            &&& built.1.ty == core_type(core, x.ty)
            &&& built.1.id < built.0.next
            &&& b.next <= built.0.next <= b.next + 4
            &&& b.log.len() <= built.0.log.len()
            &&& built.0.blocks == b.blocks
        }),
{
    broadcast use meaning::group_played;

    let from = b.log.len();
    match core {
        Core::One { arg } => {
            preparing_computes(b, arg, x, x.ty, from, blocks, w, w, b.next);
        },
        Core::Binary { op, first, second } => {
            preparing_computes(b, first, x, x.ty, from, blocks, w, w, b.next);
            let (b1, lhs) = recipe::prepared(b, first, x, x.ty);
            let w1 = played(b1.log, from, blocks, Flow::Falls(w))->Falls_0;
            preparing_computes(b1, second, y, x.ty, from, blocks, w, w1, b.next);
            let (b2, rhs) = recipe::prepared(b1, second, y, x.ty);
            let w2 = played(b2.log, from, blocks, Flow::Falls(w))->Falls_0;
            assert(w2.val(lhs) == w1.val(lhs));
        },
        _ => {},
    }
}

/// The steps of a recipe compute what the recipe says.
proof fn recipe_computes(b: Built, recipe: Recipe, x: Value, y: Value, blocks: Seq<Seq<Value>>, w: World)
    requires
        b.next + 8 <= u32::MAX,
        x.id < b.next,
        y.id < b.next,
    ensures
        ({
            let built = recipe::cooked(b, recipe, x, y);
            &&& match recipe_number(recipe, x.ty, y.ty, w.val(x), w.val(y)) {
                Some(n) => yields(built, b.log.len(), blocks, w, b.next, n),
                None => played(built.0.log, b.log.len(), blocks, Flow::Falls(w)) is Fails,
            }
            &&& built.1.ty == recipe_type(recipe, x.ty)
        }),
{
    let from = b.log.len();
    core_computes(b, recipe.core, x, y, blocks, w);
    let b0 = recipe::computed(b, recipe.core, x, y);
    let b1 = recipe::converted(b0, recipe.first);
    let b2 = recipe::converted(b1, recipe.second);
    match core_number(recipe.core, x.ty, y.ty, w.val(x), w.val(y)) {
        Some(n) => {
            let n1 = then_number(b0.1.ty, n, recipe.first);
            let n2 = then_number(b1.1.ty, n1, recipe.second);
            converting_computes(b0, recipe.first, from, blocks, w, b.next, n);
            converting_computes(b1, recipe.second, from, blocks, w, b.next, n1);
            converting_computes(b2, recipe.third, from, blocks, w, b.next, n2);
        },
        None => {
            failure_stays(b0, recipe.first, from, blocks, w);
            failure_stays(b1, recipe.second, from, blocks, w);
            failure_stays(b2, recipe.third, from, blocks, w);
        },
    }
}

/// The type that the values of a type of WebAssembly have.
pub open spec fn held_as(ty: ValType) -> IrType {
    if ty == ValType::I32 {
        IrType::Scalar(ScalarType::I32)
    } else {
        IrType::Scalar(ScalarType::I64)
    }
}

proof fn quotients_are_bounded(x: int, y: int, n: int)
    requires
        0 <= x < n,
        0 < y,
    ensures
        0 <= x / y <= x,
        0 <= x % y < y,
        0 <= x % y <= x,
        x - y * (x / y) == x % y,
{
    assert(0 <= x / y <= x && 0 <= x % y < y && x % y <= x && x - y * (x / y) == x % y)
        by (nonlinear_arith)
        requires
            0 <= x,
            0 < y,
    ;
}

proof fn signed_division(x: int, y: int, ty: IrType)
    requires
        ty == IrType::Scalar(ScalarType::I32) || ty == IrType::Scalar(ScalarType::I64),
        0 <= x < range_of(ty),
        0 <= y < range_of(ty),
    ensures
        binary_number(crate::wasm::ir::BinaryOp::Div, ty, x, y) == divided_signed(
            x,
            y,
            range_of(ty),
        ),
        binary_number(crate::wasm::ir::BinaryOp::Mod, ty, x, y) == remainder_signed(
            x,
            y,
            range_of(ty),
        ),
        divided_signed(x, y, range_of(ty)) matches Some(r) ==> 0 <= r < range_of(ty),
        remainder_signed(x, y, range_of(ty)) matches Some(r) ==> 0 <= r < range_of(ty),
{
    reveal(binary_number);
    reveal(divided_signed);
    reveal(remainder_signed);
    let n = range_of(ty);
    let a = signed(x, n);
    let b = signed(y, n);
    let (p, q) = (magnitude(a), magnitude(b));
    if q > 0 {
        quotients_are_bounded(p, q, n);
        if q >= 2 {
            assert(2 * (p / q) <= p) by (nonlinear_arith)
                requires
                    0 <= p,
                    2 <= q,
            ;
        } else {
            assert(p / q == p) by (nonlinear_arith)
                requires
                    q == 1,
            ;
        }
        let d = meaning::quotient(a, b);
        if a >= 0 && b > 0 {
            assert(d == p / q && a - b * d == p % q);
        } else if a < 0 && b < 0 {
            assert(a - b * d == -(p % q)) by (nonlinear_arith)
                requires
                    a == -p,
                    b == -q,
                    d == p / q,
                    p - q * (p / q) == p % q,
            ;
        } else if a < 0 {
            assert(a - b * d == -(p % q)) by (nonlinear_arith)
                requires
                    a == -p,
                    b == q,
                    d == -(p / q),
                    p - q * (p / q) == p % q,
            ;
        } else {
            assert(a - b * d == p % q) by (nonlinear_arith)
                requires
                    a == p,
                    b == -q,
                    d == -(p / q),
                    p - q * (p / q) == p % q,
            ;
        }
    }
}

proof fn shift_is_bounded(x: int, k: nat, n: int)
    requires
        0 <= x < n,
    ensures
        0 <= x / (pow2(k) as int) < n,
{
    vstd::arithmetic::power2::lemma_pow2_pos(k);
    let p = pow2(k) as int;
    assert(0 <= x / p <= x) by (nonlinear_arith)
        requires
            0 <= x,
            0 < p,
    ;
}

proof fn rotation_is_bounded(x: int, k: nat, width: nat, n: int)
    requires
        k < width,
        n == pow2(width),
        0 <= x < n,
    ensures
        0 <= rotated(x, k, width) < n,
{
    let p = pow2(k) as int;
    let q = pow2((width - k) as nat) as int;
    vstd::arithmetic::power2::lemma_pow2_pos(k);
    vstd::arithmetic::power2::lemma_pow2_pos((width - k) as nat);
    vstd::arithmetic::power2::lemma_pow2_adds(k, (width - k) as nat);
    assert(p * q == n);
    let hi = x / q;
    let lo = x % q;
    assert(0 <= lo < q && x == hi * q + lo && 0 <= hi < p) by (nonlinear_arith)
        requires
            hi == x / q,
            lo == x % q,
            0 < q,
            0 < p,
            0 <= x < n,
            p * q == n,
    ;
    assert(x * p == hi * n + lo * p) by (nonlinear_arith)
        requires
            x == hi * q + lo,
            p * q == n,
    ;
    assert(0 <= lo * p <= n - p) by (nonlinear_arith)
        requires
            0 <= lo < q,
            p * q == n,
            0 < p,
    ;
    vstd::arithmetic::div_mod::lemma_mod_multiples_vanish(hi, lo * p, n);
    assert((x * p) % n == (n * hi + lo * p) % n) by (nonlinear_arith)
        requires
            x * p == hi * n + lo * p,
    ;
    assert((lo * p) % n == lo * p) by (nonlinear_arith)
        requires
            0 <= lo * p < n,
    ;
}

proof fn bits_are_bounded(x: int, y: int, ty: IrType)
    requires
        ty == IrType::Scalar(ScalarType::I32) || ty == IrType::Scalar(ScalarType::I64),
        0 <= x < range_of(ty),
        0 <= y < range_of(ty),
    ensures
        0 <= both(x, y) < range_of(ty),
        0 <= either(x, y) < range_of(ty),
        0 <= only_one(x, y) < range_of(ty),
{
    let (a, b) = (x as u128, y as u128);
    if ty == IrType::Scalar(ScalarType::I32) {
        assert(a & b < 0x1_0000_0000 && a | b < 0x1_0000_0000 && a ^ b < 0x1_0000_0000)
            by (bit_vector)
            requires
                a < 0x1_0000_0000,
                b < 0x1_0000_0000,
        ;
    } else {
        assert(a & b < 0x1_0000_0000_0000_0000 && a | b < 0x1_0000_0000_0000_0000 && a ^ b
            < 0x1_0000_0000_0000_0000) by (bit_vector)
            requires
                a < 0x1_0000_0000_0000_0000,
                b < 0x1_0000_0000_0000_0000,
        ;
    }
}

/// What the recipe of an operator computes is what the operator gives.
#[verifier::opaque]
spec fn is_right(op: Operator, x: int, y: int) -> bool {
    let ty = held_as(operand_type(op));
    &&& recipe::recipe_of(op) matches Some(recipe) && recipe_number(recipe, ty, ty, x, y)
        == value_of(op, x, y) && recipe_type(recipe, ty) == result_type(op) && recipe::arity(
        recipe.core,
    ) == operand_count(op)
    &&& value_of(op, x, y) matches Some(r) ==> 0 <= r < range_of(result_type(op))
}

spec fn in_range(op: Operator, x: int, y: int) -> bool {
    let n = range_of(held_as(operand_type(op)));
    0 <= x < n && 0 <= y < n
}

spec fn unsigned_of(op: Operator) -> IrType {
    if operand_type(op) == ValType::I32 {
        IrType::Scalar(ScalarType::U32)
    } else {
        IrType::Scalar(ScalarType::U64)
    }
}

spec fn is_unary(op: Operator) -> bool {
    operands(op) is Some && operand_count(op) == 1
}

spec fn is_arithmetic(op: Operator) -> bool {
    matches!(
        op,
        Operator::I32Add | Operator::I64Add | Operator::I32Sub | Operator::I64Sub
        | Operator::I32Mul | Operator::I64Mul | Operator::I32And | Operator::I64And
        | Operator::I32Or | Operator::I64Or | Operator::I32Xor | Operator::I64Xor
    )
}

spec fn is_division(op: Operator) -> bool {
    matches!(
        op,
        Operator::I32DivS | Operator::I64DivS | Operator::I32DivU | Operator::I64DivU
        | Operator::I32RemS | Operator::I64RemS | Operator::I32RemU | Operator::I64RemU
    )
}

spec fn is_shift(op: Operator) -> bool {
    matches!(
        op,
        Operator::I32Shl | Operator::I64Shl | Operator::I32ShrU | Operator::I64ShrU
        | Operator::I32ShrS | Operator::I64ShrS
    )
}

spec fn is_rotation(op: Operator) -> bool {
    matches!(
        op,
        Operator::I32Rotl | Operator::I64Rotl | Operator::I32Rotr | Operator::I64Rotr
    )
}

#[verifier::spinoff_prover]
#[verifier::rlimit(40)]
proof fn unary_recipes_are_right(op: Operator, x: int, y: int)
    requires
        is_unary(op),
        in_range(op, x, y),
    ensures
        is_right(op, x, y),
{
    meaning::comparisons(held_as(operand_type(op)), x, 0);
    counts_are_bounded(x, 32);
    counts_are_bounded(x, 64);
    match op {
        Operator::I32Clz => {
            meaning::conversions(IrType::Scalar(ScalarType::U32), IrType::Scalar(ScalarType::I32), leading_zeros(x, 32));
            assert(is_right(Operator::I32Clz, x, y)) by {
                reveal(is_right);
            }
        },
        Operator::I64Clz => {
            meaning::conversions(IrType::Scalar(ScalarType::U32), IrType::Scalar(ScalarType::I32), leading_zeros(x, 64));
            assert(is_right(Operator::I64Clz, x, y)) by {
                reveal(is_right);
            }
        },
        Operator::I32Ctz => {
            meaning::conversions(IrType::Scalar(ScalarType::U32), IrType::Scalar(ScalarType::I32), trailing_zeros(x, 32));
            assert(is_right(Operator::I32Ctz, x, y)) by {
                reveal(is_right);
            }
        },
        Operator::I64Ctz => {
            meaning::conversions(IrType::Scalar(ScalarType::U32), IrType::Scalar(ScalarType::I32), trailing_zeros(x, 64));
            assert(is_right(Operator::I64Ctz, x, y)) by {
                reveal(is_right);
            }
        },
        Operator::I32Popcnt => {
            meaning::conversions(IrType::Scalar(ScalarType::U32), IrType::Scalar(ScalarType::I32), ones(x, 32));
            assert(is_right(Operator::I32Popcnt, x, y)) by {
                reveal(is_right);
            }
        },
        Operator::I64Popcnt => {
            meaning::conversions(IrType::Scalar(ScalarType::U32), IrType::Scalar(ScalarType::I32), ones(x, 64));
            assert(is_right(Operator::I64Popcnt, x, y)) by {
                reveal(is_right);
            }
        },
        Operator::I32Extend8S => {
            meaning::conversions(IrType::Scalar(ScalarType::I32), IrType::Scalar(ScalarType::I32), x);
            assert(is_right(Operator::I32Extend8S, x, y)) by {
                reveal(is_right);
            }
        },
        Operator::I32Extend16S => {
            meaning::conversions(IrType::Scalar(ScalarType::I32), IrType::Scalar(ScalarType::I32), x);
            assert(is_right(Operator::I32Extend16S, x, y)) by {
                reveal(is_right);
            }
        },
        Operator::I64ExtendI32S => {
            meaning::conversions(IrType::Scalar(ScalarType::I32), IrType::Scalar(ScalarType::I64), x);
            assert(is_right(Operator::I64ExtendI32S, x, y)) by {
                reveal(is_right);
            }
        },
        Operator::I64ExtendI32U => {
            meaning::conversions(IrType::Scalar(ScalarType::I32), IrType::Scalar(ScalarType::U32), x);
            meaning::conversions(IrType::Scalar(ScalarType::U32), IrType::Scalar(ScalarType::U64), x);
            meaning::conversions(IrType::Scalar(ScalarType::U64), IrType::Scalar(ScalarType::I64), x);
            assert(is_right(Operator::I64ExtendI32U, x, y)) by {
                reveal(is_right);
            }
        },
        Operator::I32WrapI64 => {
            meaning::conversions(IrType::Scalar(ScalarType::I64), IrType::Scalar(ScalarType::I32), x);
            assert(is_right(Operator::I32WrapI64, x, y)) by {
                reveal(is_right);
            }
        },
        Operator::F32ReinterpretI32 => {
            meaning::conversions(IrType::Scalar(ScalarType::I32), IrType::Scalar(ScalarType::Felt), x);
            assert(is_right(Operator::F32ReinterpretI32, x, y)) by {
                reveal(is_right);
            }
        },
        Operator::I32Eqz => {
            assert(Immediate::I32(0).number() % range_of(IrType::Scalar(ScalarType::I32)) == 0);
            meaning::conversions(IrType::Scalar(ScalarType::I1), IrType::Scalar(ScalarType::U32), truth(x == 0));
            meaning::conversions(IrType::Scalar(ScalarType::U32), IrType::Scalar(ScalarType::I32), truth(x == 0));
            assert(is_right(Operator::I32Eqz, x, y)) by {
                reveal(is_right);
            }
        },
        Operator::I64Eqz => {
            assert(Immediate::I64(0).number() % range_of(IrType::Scalar(ScalarType::I64)) == 0);
            meaning::conversions(IrType::Scalar(ScalarType::I1), IrType::Scalar(ScalarType::U32), truth(x == 0));
            meaning::conversions(IrType::Scalar(ScalarType::U32), IrType::Scalar(ScalarType::I32), truth(x == 0));
            assert(is_right(Operator::I64Eqz, x, y)) by {
                reveal(is_right);
            }
        },
        _ => {},
    }
}

#[verifier::spinoff_prover]
#[verifier::rlimit(40)]
proof fn arithmetic_recipes_are_right(op: Operator, x: int, y: int)
    requires
        is_arithmetic(op),
        in_range(op, x, y),
    ensures
        is_right(op, x, y),
{
    meaning::sums(held_as(operand_type(op)), x, y);
    bits_are_bounded(x, y, held_as(operand_type(op)));
    match op {
        Operator::I32Add => {
            assert(is_right(Operator::I32Add, x, y)) by {
                reveal(is_right);
            }
        },
        Operator::I64Add => {
            assert(is_right(Operator::I64Add, x, y)) by {
                reveal(is_right);
            }
        },
        Operator::I32Sub => {
            assert(is_right(Operator::I32Sub, x, y)) by {
                reveal(is_right);
            }
        },
        Operator::I64Sub => {
            assert(is_right(Operator::I64Sub, x, y)) by {
                reveal(is_right);
            }
        },
        Operator::I32Mul => {
            assert(is_right(Operator::I32Mul, x, y)) by {
                reveal(is_right);
            }
        },
        Operator::I64Mul => {
            assert(is_right(Operator::I64Mul, x, y)) by {
                reveal(is_right);
            }
        },
        Operator::I32And => {
            assert(is_right(Operator::I32And, x, y)) by {
                reveal(is_right);
            }
        },
        Operator::I64And => {
            assert(is_right(Operator::I64And, x, y)) by {
                reveal(is_right);
            }
        },
        Operator::I32Or => {
            assert(is_right(Operator::I32Or, x, y)) by {
                reveal(is_right);
            }
        },
        Operator::I64Or => {
            assert(is_right(Operator::I64Or, x, y)) by {
                reveal(is_right);
            }
        },
        Operator::I32Xor => {
            assert(is_right(Operator::I32Xor, x, y)) by {
                reveal(is_right);
            }
        },
        Operator::I64Xor => {
            assert(is_right(Operator::I64Xor, x, y)) by {
                reveal(is_right);
            }
        },
        _ => {},
    }
}

#[verifier::spinoff_prover]
#[verifier::rlimit(40)]
proof fn division_recipes_are_right(op: Operator, x: int, y: int)
    requires
        is_division(op),
        in_range(op, x, y),
    ensures
        is_right(op, x, y),
{
    if operand_type(op) == ValType::I32 {
        meaning::conversions(IrType::Scalar(ScalarType::I32), IrType::Scalar(ScalarType::U32), x);
        meaning::conversions(IrType::Scalar(ScalarType::I32), IrType::Scalar(ScalarType::U32), y);
    } else {
        meaning::conversions(IrType::Scalar(ScalarType::I64), IrType::Scalar(ScalarType::U64), x);
        meaning::conversions(IrType::Scalar(ScalarType::I64), IrType::Scalar(ScalarType::U64), y);
    }
    meaning::divisions(unsigned_of(op), x, y);
    let ty = held_as(operand_type(op));
    if y > 0 {
        quotients_are_bounded(x, y, range_of(ty));
    }
    signed_division(x, y, ty);
    match op {
        Operator::I32DivS => {
            assert(is_right(Operator::I32DivS, x, y)) by {
                reveal(is_right);
            }
        },
        Operator::I64DivS => {
            assert(is_right(Operator::I64DivS, x, y)) by {
                reveal(is_right);
            }
        },
        Operator::I32DivU => {
            if y > 0 {
                meaning::conversions(IrType::Scalar(ScalarType::U32), IrType::Scalar(ScalarType::I32), x / y);
            }
            assert(is_right(Operator::I32DivU, x, y)) by {
                reveal(is_right);
            }
        },
        Operator::I64DivU => {
            if y > 0 {
                meaning::conversions(IrType::Scalar(ScalarType::U64), IrType::Scalar(ScalarType::I64), x / y);
            }
            assert(is_right(Operator::I64DivU, x, y)) by {
                reveal(is_right);
            }
        },
        Operator::I32RemS => {
            assert(is_right(Operator::I32RemS, x, y)) by {
                reveal(is_right);
            }
        },
        Operator::I64RemS => {
            assert(is_right(Operator::I64RemS, x, y)) by {
                reveal(is_right);
            }
        },
        Operator::I32RemU => {
            if y > 0 {
                meaning::conversions(IrType::Scalar(ScalarType::U32), IrType::Scalar(ScalarType::I32), x % y);
            }
            assert(is_right(Operator::I32RemU, x, y)) by {
                reveal(is_right);
            }
        },
        Operator::I64RemU => {
            if y > 0 {
                meaning::conversions(IrType::Scalar(ScalarType::U64), IrType::Scalar(ScalarType::I64), x % y);
            }
            assert(is_right(Operator::I64RemU, x, y)) by {
                reveal(is_right);
            }
        },
        _ => {},
    }
}

#[verifier::spinoff_prover]
#[verifier::rlimit(40)]
proof fn shift_recipes_are_right(op: Operator, x: int, y: int)
    requires
        is_shift(op),
        in_range(op, x, y),
    ensures
        is_right(op, x, y),
{
    if operand_type(op) == ValType::I32 {
        meaning::conversions(IrType::Scalar(ScalarType::I32), IrType::Scalar(ScalarType::U32), x);
        meaning::conversions(IrType::Scalar(ScalarType::I32), IrType::Scalar(ScalarType::U32), y);
    } else {
        meaning::conversions(IrType::Scalar(ScalarType::I64), IrType::Scalar(ScalarType::U64), x);
        meaning::conversions(IrType::Scalar(ScalarType::I64), IrType::Scalar(ScalarType::U32), y);
    }
    meaning::shifts(held_as(operand_type(op)), x, y);
    meaning::shifts(held_as(operand_type(op)), x, signed(y, n64()) % n32());
    meaning::shifts(unsigned_of(op), x, y);
    meaning::shifts(unsigned_of(op), x, signed(y, n64()) % n32());
    let n = range_of(held_as(operand_type(op)));
    shift_is_bounded(x, (y % 32) as nat, n);
    shift_is_bounded(x, (y % 64) as nat, n);
    assert((signed(y, n64()) % n32()) % 64 == y % 64);
    match op {
        Operator::I32Shl => {
            assert(is_right(Operator::I32Shl, x, y)) by {
                reveal(is_right);
            }
        },
        Operator::I64Shl => {
            assert(is_right(Operator::I64Shl, x, y)) by {
                reveal(is_right);
            }
        },
        Operator::I32ShrU => {
            meaning::conversions(IrType::Scalar(ScalarType::U32), IrType::Scalar(ScalarType::I32), x / (pow2((y % 32) as nat) as int));
            assert(is_right(Operator::I32ShrU, x, y)) by {
                reveal(is_right);
            }
        },
        Operator::I64ShrU => {
            meaning::conversions(IrType::Scalar(ScalarType::U64), IrType::Scalar(ScalarType::I64), x / (pow2((y % 64) as nat) as int));
            assert(is_right(Operator::I64ShrU, x, y)) by {
                reveal(is_right);
            }
        },
        Operator::I32ShrS => {
            assert(is_right(Operator::I32ShrS, x, y)) by {
                reveal(is_right);
            }
        },
        Operator::I64ShrS => {
            assert(is_right(Operator::I64ShrS, x, y)) by {
                reveal(is_right);
            }
        },
        _ => {},
    }
}

#[verifier::spinoff_prover]
#[verifier::rlimit(40)]
proof fn rotation_recipes_are_right(op: Operator, x: int, y: int)
    requires
        is_rotation(op),
        in_range(op, x, y),
    ensures
        is_right(op, x, y),
{
    if operand_type(op) == ValType::I32 {
        meaning::conversions(IrType::Scalar(ScalarType::I32), IrType::Scalar(ScalarType::U32), y);
    } else {
        meaning::conversions(IrType::Scalar(ScalarType::I64), IrType::Scalar(ScalarType::U32), y);
    }
    meaning::shifts(held_as(operand_type(op)), x, y);
    meaning::shifts(held_as(operand_type(op)), x, signed(y, n64()) % n32());
    let ty = held_as(operand_type(op));
    let n = range_of(ty);
    assert((signed(y, n64()) % n32()) % 64 == y % 64);
    assert(pow2(32) == n32() && pow2(64) == n64()) by {
        vstd::arithmetic::power2::lemma2_to64();
    }
    if ty == IrType::Scalar(ScalarType::I32) {
        rotation_is_bounded(x, (y % 32) as nat, 32, n);
        rotation_is_bounded(x, ((32 - y % 32) % 32) as nat, 32, n);
    } else {
        rotation_is_bounded(x, (y % 64) as nat, 64, n);
        rotation_is_bounded(x, ((64 - y % 64) % 64) as nat, 64, n);
    }
    match op {
        Operator::I32Rotl => {
            assert(is_right(Operator::I32Rotl, x, y)) by {
                reveal(is_right);
            }
        },
        Operator::I64Rotl => {
            assert(is_right(Operator::I64Rotl, x, y)) by {
                reveal(is_right);
            }
        },
        Operator::I32Rotr => {
            assert(is_right(Operator::I32Rotr, x, y)) by {
                reveal(is_right);
            }
        },
        Operator::I64Rotr => {
            assert(is_right(Operator::I64Rotr, x, y)) by {
                reveal(is_right);
            }
        },
        _ => {},
    }
}

#[verifier::spinoff_prover]
#[verifier::rlimit(40)]
proof fn comparison_recipes_are_right(op: Operator, x: int, y: int)
    requires
        operands(op) is Some,
        !is_unary(op),
        !is_arithmetic(op),
        !is_division(op),
        !is_shift(op),
        !is_rotation(op),
        in_range(op, x, y),
    ensures
        is_right(op, x, y),
{
    if operand_type(op) == ValType::I32 {
        meaning::conversions(IrType::Scalar(ScalarType::I32), IrType::Scalar(ScalarType::U32), x);
        meaning::conversions(IrType::Scalar(ScalarType::I32), IrType::Scalar(ScalarType::U32), y);
    } else {
        meaning::conversions(IrType::Scalar(ScalarType::I64), IrType::Scalar(ScalarType::U64), x);
        meaning::conversions(IrType::Scalar(ScalarType::I64), IrType::Scalar(ScalarType::U64), y);
    }
    meaning::conversions(IrType::Scalar(ScalarType::I1), IrType::Scalar(ScalarType::U32), 0);
    meaning::conversions(IrType::Scalar(ScalarType::I1), IrType::Scalar(ScalarType::U32), 1);
    meaning::conversions(IrType::Scalar(ScalarType::U32), IrType::Scalar(ScalarType::I32), 0);
    meaning::conversions(IrType::Scalar(ScalarType::U32), IrType::Scalar(ScalarType::I32), 1);
    meaning::comparisons(held_as(operand_type(op)), x, y);
    meaning::comparisons(unsigned_of(op), x, y);
    match op {
        Operator::I32Eq => {
            assert(is_right(Operator::I32Eq, x, y)) by {
                reveal(is_right);
            }
        },
        Operator::I64Eq => {
            assert(is_right(Operator::I64Eq, x, y)) by {
                reveal(is_right);
            }
        },
        Operator::I32Ne => {
            assert(is_right(Operator::I32Ne, x, y)) by {
                reveal(is_right);
            }
        },
        Operator::I64Ne => {
            assert(is_right(Operator::I64Ne, x, y)) by {
                reveal(is_right);
            }
        },
        Operator::I32LtS => {
            assert(is_right(Operator::I32LtS, x, y)) by {
                reveal(is_right);
            }
        },
        Operator::I64LtS => {
            assert(is_right(Operator::I64LtS, x, y)) by {
                reveal(is_right);
            }
        },
        Operator::I32LtU => {
            assert(is_right(Operator::I32LtU, x, y)) by {
                reveal(is_right);
            }
        },
        Operator::I64LtU => {
            assert(is_right(Operator::I64LtU, x, y)) by {
                reveal(is_right);
            }
        },
        Operator::I32LeS => {
            assert(is_right(Operator::I32LeS, x, y)) by {
                reveal(is_right);
            }
        },
        Operator::I64LeS => {
            assert(is_right(Operator::I64LeS, x, y)) by {
                reveal(is_right);
            }
        },
        Operator::I32LeU => {
            assert(is_right(Operator::I32LeU, x, y)) by {
                reveal(is_right);
            }
        },
        Operator::I64LeU => {
            assert(is_right(Operator::I64LeU, x, y)) by {
                reveal(is_right);
            }
        },
        Operator::I32GtS => {
            assert(is_right(Operator::I32GtS, x, y)) by {
                reveal(is_right);
            }
        },
        Operator::I64GtS => {
            assert(is_right(Operator::I64GtS, x, y)) by {
                reveal(is_right);
            }
        },
        Operator::I32GtU => {
            assert(is_right(Operator::I32GtU, x, y)) by {
                reveal(is_right);
            }
        },
        Operator::I64GtU => {
            assert(is_right(Operator::I64GtU, x, y)) by {
                reveal(is_right);
            }
        },
        Operator::I32GeS => {
            assert(is_right(Operator::I32GeS, x, y)) by {
                reveal(is_right);
            }
        },
        Operator::I64GeS => {
            assert(is_right(Operator::I64GeS, x, y)) by {
                reveal(is_right);
            }
        },
        Operator::I32GeU => {
            assert(is_right(Operator::I32GeU, x, y)) by {
                reveal(is_right);
            }
        },
        Operator::I64GeU => {
            assert(is_right(Operator::I64GeU, x, y)) by {
                reveal(is_right);
            }
        },
        _ => {},
    }
}

proof fn recipes_are_right(op: Operator, x: int, y: int)
    requires
        operands(op) is Some,
        in_range(op, x, y),
    ensures
        is_right(op, x, y),
{
    if is_unary(op) {
        unary_recipes_are_right(op, x, y);
    } else if is_arithmetic(op) {
        arithmetic_recipes_are_right(op, x, y);
    } else if is_division(op) {
        division_recipes_are_right(op, x, y);
    } else if is_shift(op) {
        shift_recipes_are_right(op, x, y);
    } else if is_rotation(op) {
        rotation_recipes_are_right(op, x, y);
    } else {
        comparison_recipes_are_right(op, x, y);
    }
}

/// Every numeric operator leaves its value, as WebAssembly defines it, in place of its operands. It
/// fails where that is not defined, and changes nothing else.
pub proof fn numeric_operators_compute(env: &FuncEnv, op: Operator, t: Trans, w: World)
    requires
        operands(op) is Some,
        operand_count(op) <= t.stack.len(),
        forall|i: int|
            t.stack.len() - operand_count(op) <= i < t.stack.len() ==> (#[trigger] t.stack[i]).ty
                == held_as(operand_type(op)) && t.stack[i].id < t.b.next && fits(w, t.stack[i]),
        t.b.next + 16 <= u32::MAX,
    ensures
        ({
            let n = operand_count(op);
            let (after, result) = translate::translated(env, op, t);
            let v = after.stack.last();
            let end = played(after.b.log, t.b.log.len(), after.b.blocks, Flow::Falls(w));
            &&& result is Ok
            &&& after.stack.drop_last() == t.stack.take(t.stack.len() - n)
            &&& after.control == t.control && after.reachable == t.reachable
            &&& after.stack.len() == t.stack.len() - n + 1
            &&& v.ty == result_type(op)
            &&& match value_of(op, w.val(t.peek(n - 1)), w.val(t.peek(0))) {
                Some(r) => end matches Flow::Falls(done) && done.val(v) == r && fits(done, v)
                    && only_defines(w, done, t.b.next),
                None => end is Fails,
            }
        }),
{
    let n = operand_count(op);
    let x = t.peek(n - 1);
    let y = t.peek(0);
    recipes_are_right(op, w.val(x), w.val(y));
    reveal(is_right);
    let recipe = recipe::recipe_of(op)->0;
    let (after, _) = translate::translated(env, op, t);
    recipe_computes(t.b, recipe, x, y, after.b.blocks, w);
    assert(after.stack.drop_last() =~= t.stack.take(t.stack.len() - n));
}

} // verus!

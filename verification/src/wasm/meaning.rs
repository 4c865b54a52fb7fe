//! What the instructions of a function do when they are run: the numbers that values stand for, the
//! variables, the memory, and the blocks that control goes to.
use vstd::prelude::*;
use vstd::arithmetic::power2::pow2;
use crate::symbol::Symbol;
use crate::types::ScalarType;
use crate::wasm::builder::Step;
use crate::wasm::ir::{BinaryOp, BlockId, Conversion, Event, IrType, SwitchCase, UnaryOp, Value};

verus! {

/// How many numbers there are of a type. A number is held as a bit pattern, so it is at least zero
/// and less than this.
pub open spec fn range_of(ty: IrType) -> int {
    match ty {
        IrType::Ptr(_) => 0x1_0000_0000,
        IrType::Scalar(ty) => match ty {
            ScalarType::I1 => 2,
            ScalarType::I8 | ScalarType::U8 => 0x100,
            ScalarType::I16 | ScalarType::U16 => 0x1_0000,
            ScalarType::I32 | ScalarType::U32 | ScalarType::Ptr => 0x1_0000_0000,
            ScalarType::I64 | ScalarType::U64 => 0x1_0000_0000_0000_0000,
            ScalarType::I128 | ScalarType::U128 => 0x1_0000_0000_0000_0000_0000_0000_0000_0000int,
            ScalarType::Felt => 0xffff_ffff_0000_0001,
        },
    }
}

/// How many bits a pattern of a type has.
pub open spec fn width_of(ty: IrType) -> nat {
    match ty {
        IrType::Ptr(_) => 32,
        IrType::Scalar(ty) => match ty {
            ScalarType::I1 => 1,
            ScalarType::I8 | ScalarType::U8 => 8,
            ScalarType::I16 | ScalarType::U16 => 16,
            ScalarType::I32 | ScalarType::U32 | ScalarType::Ptr => 32,
            ScalarType::I64 | ScalarType::U64 | ScalarType::Felt => 64,
            ScalarType::I128 | ScalarType::U128 => 128,
        },
    }
}

/// The type has a sign.
pub open spec fn has_sign(ty: IrType) -> bool {
    matches!(
        ty,
        IrType::Scalar(ScalarType::I8) | IrType::Scalar(ScalarType::I16)
        | IrType::Scalar(ScalarType::I32) | IrType::Scalar(ScalarType::I64)
        | IrType::Scalar(ScalarType::I128)
    )
}

/// The number that the pattern `x` of `range` patterns stands for in two's complement.
pub open spec fn signed(x: int, range: int) -> int {
    if 2 * x >= range {
        x - range
    } else {
        x
    }
}

/// The number that the pattern `x` stands for in type `ty`.
pub open spec fn number(ty: IrType, x: int) -> int {
    if has_sign(ty) {
        signed(x, range_of(ty))
    } else {
        x
    }
}

/// `n` is a number of type `ty`.
pub open spec fn is_number(ty: IrType, n: int) -> bool {
    if has_sign(ty) {
        -range_of(ty) <= 2 * n < range_of(ty)
    } else {
        0 <= n < range_of(ty)
    }
}

/// The quotient, cut towards zero.
pub open spec fn quotient(x: int, y: int) -> int {
    if (x < 0) == (y < 0) {
        magnitude(x) / magnitude(y)
    } else {
        -(magnitude(x) / magnitude(y))
    }
}

/// The number without its sign.
pub open spec fn magnitude(x: int) -> int {
    if x < 0 {
        -x
    } else {
        x
    }
}

/// One or zero for a truth value.
pub open spec fn truth(b: bool) -> int {
    if b {
        1
    } else {
        0
    }
}

/// How many of the upper bits of a pattern of `n` bits are zero before the first that is not.
pub open spec fn leading_zeros(x: int, n: nat) -> int
    decreases n,
{
    if n == 0 || x >= pow2((n - 1) as nat) {
        0
    } else {
        1 + leading_zeros(x, (n - 1) as nat)
    }
}

/// How many of the lower bits of a pattern of `n` bits are zero before the first that is not.
pub open spec fn trailing_zeros(x: int, n: nat) -> int
    decreases n,
{
    if n == 0 || x % 2 == 1 {
        0
    } else {
        1 + trailing_zeros(x / 2, (n - 1) as nat)
    }
}

/// How many bits of a pattern of `n` bits are not zero.
pub open spec fn ones(x: int, n: nat) -> int
    decreases n,
{
    if n == 0 {
        0
    } else {
        x % 2 + ones(x / 2, (n - 1) as nat)
    }
}

/// The pattern of the bits that both patterns have.
pub open spec fn both(x: int, y: int) -> int {
    ((x as u128) & (y as u128)) as int
}

/// The pattern of the bits that one of the patterns has.
pub open spec fn either(x: int, y: int) -> int {
    ((x as u128) | (y as u128)) as int
}

/// The pattern of the bits that only one of the patterns has.
pub open spec fn only_one(x: int, y: int) -> int {
    ((x as u128) ^ (y as u128)) as int
}

/// What an operation on one value gives.
pub open spec fn unary_number(op: UnaryOp, ty: IrType, x: int) -> int {
    match op {
        UnaryOp::Clz => leading_zeros(x, width_of(ty)),
        UnaryOp::Ctz => trailing_zeros(x, width_of(ty)),
        UnaryOp::Popcnt => ones(x, width_of(ty)),
    }
}

/// What an operation on two values of type `ty` gives; none if it fails. The count of a shift or
/// rotation wraps.
#[verifier::opaque]
pub open spec fn binary_number(op: BinaryOp, ty: IrType, x: int, y: int) -> Option<int> {
    let range = range_of(ty);
    let count = (y % width_of(ty) as int) as nat;
    let a = number(ty, x);
    let b = number(ty, y);
    match op {
        BinaryOp::Add => if is_number(ty, a + b) {
            Some((a + b) % range)
        } else {
            None
        },
        BinaryOp::AddWrapping => Some((x + y) % range),
        BinaryOp::SubWrapping => Some((x - y) % range),
        BinaryOp::MulWrapping => Some((x * y) % range),
        BinaryOp::Div => if b != 0 && is_number(ty, quotient(a, b)) {
            Some(quotient(a, b) % range)
        } else {
            None
        },
        BinaryOp::Mod => if b != 0 {
            Some((a - b * quotient(a, b)) % range)
        } else {
            None
        },
        BinaryOp::Band => Some(both(x, y)),
        BinaryOp::Bor => Some(either(x, y)),
        BinaryOp::Bxor => Some(only_one(x, y)),
        BinaryOp::Shl => Some((x * pow2(count)) % range),
        BinaryOp::Shr => Some((a / (pow2(count) as int)) % range),
        BinaryOp::Rotl => Some(rotated(x, count, width_of(ty))),
        BinaryOp::Rotr => Some(
            rotated(x, ((width_of(ty) - count) % width_of(ty) as int) as nat, width_of(ty)),
        ),
        BinaryOp::Eq => Some(truth(x == y)),
        BinaryOp::Neq => Some(truth(x != y)),
        BinaryOp::Lt => Some(truth(a < b)),
        BinaryOp::Lte => Some(truth(a <= b)),
        BinaryOp::Gt => Some(truth(a > b)),
        BinaryOp::Gte => Some(truth(a >= b)),
    }
}

/// A pattern of `width` bits with its bits moved up by `count`; those that are moved out come in
/// below.
pub open spec fn rotated(x: int, count: nat, width: nat) -> int {
    (x * pow2(count)) % (pow2(width) as int) + x / (pow2((width - count) as nat) as int)
}

/// The pattern that a conversion gives.
#[verifier::opaque]
pub open spec fn converted_number(op: Conversion, from: IrType, to: IrType, x: int) -> int {
    match op {
        Conversion::Zext => x,
        Conversion::Sext => signed(x, range_of(from)) % range_of(to),
        Conversion::Cast => number(from, x) % range_of(to),
        Conversion::Bitcast | Conversion::Trunc | Conversion::PtrToInt | Conversion::IntToPtr => x
            % range_of(to),
    }
}

/// Memory: what is at each address.
pub type Memory = spec_fn(int) -> int;

/// How many addresses a value of a type takes. A field element takes those of four bytes.
pub open spec fn footprint(ty: ScalarType) -> nat {
    match ty {
        ScalarType::I1 | ScalarType::I8 | ScalarType::U8 => 1,
        ScalarType::I16 | ScalarType::U16 => 2,
        ScalarType::I32 | ScalarType::U32 | ScalarType::Ptr | ScalarType::Felt => 4,
        ScalarType::I64 | ScalarType::U64 => 8,
        ScalarType::I128 | ScalarType::U128 => 16,
    }
}

/// How many things can be at an address: a byte, or a quarter of a field element.
pub open spec fn digit_range(ty: ScalarType) -> int {
    if ty == ScalarType::Felt {
        0x1_0000
    } else {
        0x100
    }
}

/// The digit `i` of `x`, the lowest first.
pub open spec fn digit(x: int, range: int, i: nat) -> int
    decreases i,
{
    if i == 0 {
        x % range
    } else {
        digit(x / range, range, (i - 1) as nat)
    }
}

/// The number whose digits are at the `n` addresses from `at` on, the lowest first.
pub open spec fn read_digits(memory: Memory, at: int, range: int, n: nat) -> int
    decreases n,
{
    if n == 0 {
        0
    } else {
        memory(at) + range * read_digits(memory, at + 1, range, (n - 1) as nat)
    }
}

/// The pattern of type `ty` at an address.
pub open spec fn read(memory: Memory, at: int, ty: ScalarType) -> int {
    read_digits(memory, at, digit_range(ty), footprint(ty))
}

/// The memory after a pattern of type `ty` is written to an address.
pub open spec fn written(memory: Memory, at: int, ty: ScalarType, x: int) -> Memory {
    |i: int|
        if at <= i < at + footprint(ty) {
            digit(x, digit_range(ty), (i - at) as nat)
        } else {
            memory(i)
        }
}

/// The memory after `n` bytes are copied.
pub open spec fn copied(memory: Memory, from: int, to: int, n: int) -> Memory {
    |i: int|
        if to <= i < to + n {
            memory(from + (i - to))
        } else {
            memory(i)
        }
}

/// The memory after `n` bytes are set to `x`.
pub open spec fn filled(memory: Memory, to: int, n: int, x: int) -> Memory {
    |i: int|
        if to <= i < to + n {
            x
        } else {
            memory(i)
        }
}

/// A call that was made.
pub ghost struct Call {
    pub name: Symbol,
    /// The function behind an intrinsic, if there is one
    pub callee: Option<Symbol>,
    pub args: Seq<int>,
}

/// What there is while a function runs.
pub ghost struct World {
    /// The pattern of each value
    pub vals: Map<u32, int>,
    pub vars: Map<u32, int>,
    pub globals: Map<Symbol, int>,
    pub memory: Memory,
    /// How many pages the memory has
    pub pages: int,
    /// Whether more pages can be had
    pub grows: bool,
    /// The calls made so far
    pub calls: Seq<Call>,
    /// The results of the last call, and the memory it leaves
    pub host: spec_fn(Seq<Call>, Memory) -> (spec_fn(int) -> int, Memory),
}

impl World {
    /// The pattern of a value.
    pub open spec fn val(self, v: Value) -> int {
        self.vals[v.id]
    }

    /// The patterns of values.
    pub open spec fn all(self, values: Seq<Value>) -> Seq<int> {
        Seq::new(values.len(), |i: int| self.val(values[i]))
    }

    /// The value has the given pattern from now on.
    pub open spec fn with(self, v: Value, x: int) -> World {
        World { vals: self.vals.insert(v.id, x), ..self }
    }

    /// The values have the given patterns from now on.
    pub open spec fn with_all(self, values: Seq<Value>, xs: Seq<int>) -> World
        decreases values.len(),
    {
        if values.len() == 0 {
            self
        } else {
            self.with_all(values.drop_last(), xs).with(values.last(), xs[values.len() - 1])
        }
    }

    /// A call, whose results are what the host answers.
    pub open spec fn called(self, call: Call, results: Seq<Value>) -> World {
        let calls = self.calls.push(call);
        let (answers, memory) = (self.host)(calls, self.memory);
        World { calls, memory, ..self }.with_all(
            results,
            Seq::new(results.len(), |i: int| answers(i)),
        )
    }
}

/// Where control is.
pub ghost enum Flow {
    /// At the next instruction
    Falls(World),
    /// On its way to a block, from the step `via`, with patterns for the parameters of the block
    Goes { via: nat, block: BlockId, args: Seq<int>, world: World },
    /// Back at the caller
    Returns { value: Option<int>, world: World },
    /// Nowhere: an instruction failed
    Fails,
    /// Nowhere: a block does not say where control goes after it
    Lost,
}

/// The first case from `k` on that is for `x`.
pub open spec fn case_for(cases: Seq<SwitchCase<Seq<Value>>>, x: int, k: int) -> Option<int>
    decreases cases.len() - k,
{
    if k < 0 || k >= cases.len() {
        None
    } else if cases[k].value == x {
        Some(k)
    } else {
        case_for(cases, x, k + 1)
    }
}

/// What a step that is reached does. `at` is the number of the step.
pub open spec fn done(step: Step, at: nat, w: World) -> Flow {
    match step {
        Event::Const { imm, result } => Flow::Falls(
            w.with(result, imm.number() % range_of(result.ty)),
        ),
        Event::Unary { op, arg, result } => Flow::Falls(
            w.with(result, unary_number(op, arg.ty, w.val(arg))),
        ),
        Event::Binary { op, lhs, rhs, result } => match binary_number(
            op,
            lhs.ty,
            w.val(lhs),
            w.val(rhs),
        ) {
            Some(x) => Flow::Falls(w.with(result, x)),
            None => Flow::Fails,
        },
        Event::Convert { op, arg, result } => Flow::Falls(
            w.with(result, converted_number(op, arg.ty, result.ty, w.val(arg))),
        ),
        Event::Select { cond, first, second, result } => Flow::Falls(
            w.with(
                result,
                if w.val(cond) != 0 {
                    w.val(first)
                } else {
                    w.val(second)
                },
            ),
        ),
        Event::Join { hi, lo, result } => Flow::Falls(
            w.with(result, w.val(hi) * range_of(lo.ty) + w.val(lo)),
        ),
        Event::Split { arg, hi, lo } => Flow::Falls(
            w.with(hi, w.val(arg) / range_of(lo.ty)).with(lo, w.val(arg) % range_of(lo.ty)),
        ),
        Event::UseVar { var, result } => Flow::Falls(w.with(result, w.vars[var])),
        Event::DefVar { var, value } => Flow::Falls(
            World { vars: w.vars.insert(var, w.val(value)), ..w },
        ),
        Event::LoadGlobal { name, result } => Flow::Falls(w.with(result, w.globals[name])),
        Event::StoreGlobal { name, value } => Flow::Falls(
            World { globals: w.globals.insert(name, w.val(value)), ..w },
        ),
        Event::Load { addr, result } => match addr.ty {
            IrType::Ptr(ty) => Flow::Falls(w.with(result, read(w.memory, w.val(addr), ty))),
            _ => Flow::Fails,
        },
        Event::Store { addr, value } => match addr.ty {
            IrType::Ptr(ty) => Flow::Falls(
                World { memory: written(w.memory, w.val(addr), ty, w.val(value)), ..w },
            ),
            _ => Flow::Fails,
        },
        Event::MemGrow { pages, result } => if w.grows {
            Flow::Falls(World { pages: w.pages + w.val(pages), ..w }.with(result, w.pages))
        } else {
            Flow::Falls(w.with(result, 0xffff_ffff))
        },
        Event::MemSize { result } => Flow::Falls(w.with(result, w.pages)),
        Event::MemCpy { src, dst, count } => Flow::Falls(
            World {
                memory: copied(w.memory, w.val(src), w.val(dst), w.val(count)),
                ..w
            },
        ),
        Event::MemSet { dst, count, value } => Flow::Falls(
            World {
                memory: filled(w.memory, w.val(dst), w.val(count), w.val(value)),
                ..w
            },
        ),
        Event::AssertAligned { value } => if w.val(value) == 0 {
            Flow::Falls(w)
        } else {
            Flow::Fails
        },
        Event::Exec { callee, args, results } => Flow::Falls(
            w.called(Call { name: callee, callee: None, args: w.all(args) }, results),
        ),
        Event::Intrinsic { intrinsic, callee, args, results } => Flow::Falls(
            w.called(Call { name: intrinsic, callee, args: w.all(args) }, results),
        ),
        Event::Unreachable => Flow::Fails,
        Event::Ret { value } => Flow::Returns {
            value: match value {
                Some(v) => Some(w.val(v)),
                None => None,
            },
            world: w,
        },
        Event::Br { dest, args } => Flow::Goes { via: at, block: dest, args: w.all(args), world: w },
        Event::CondBr { cond, then_dest, then_args, else_dest, else_args } => if w.val(cond) != 0 {
            Flow::Goes { via: at, block: then_dest, args: w.all(then_args), world: w }
        } else {
            Flow::Goes { via: at, block: else_dest, args: w.all(else_args), world: w }
        },
        Event::Switch { selector, cases, default_dest, default_args } => match case_for(
            cases,
            w.val(selector),
            0,
        ) {
            Some(k) => Flow::Goes {
                via: at,
                block: cases[k].successor,
                args: w.all(cases[k].arguments),
                world: w,
            },
            None => Flow::Goes {
                via: at,
                block: default_dest,
                args: w.all(default_args),
                world: w,
            },
        },
        Event::SwitchToBlock { .. } => Flow::Lost,
        Event::At(_) | Event::CreateBlock { .. } | Event::CreateDetachedBlock { .. }
        | Event::SealBlock { .. } | Event::ChangeJumpDestination { .. } => Flow::Falls(w),
    }
}

/// Where control is after one more step of the construction, given the parameters of the blocks.
/// Control on its way to a block arrives where the construction turns to that block. A branch that
/// is led elsewhere later on leads there from the start.
pub open spec fn next(blocks: Seq<Seq<Value>>, step: Step, at: nat, flow: Flow) -> Flow {
    match flow {
        Flow::Falls(w) => done(step, at, w),
        Flow::Goes { via, block, args, world } => match step {
            Event::SwitchToBlock { block: here } => if here == block {
                Flow::Falls(world.with_all(blocks[block.index as int], args))
            } else {
                flow
            },
            Event::ChangeJumpDestination { branch, from, to } => if branch == via && from == block {
                Flow::Goes { via, block: to, args, world }
            } else {
                flow
            },
            _ => flow,
        },
        _ => flow,
    }
}

/// Where control is after the steps of `log` from `from` on.
pub open spec fn played(log: Seq<Step>, from: nat, blocks: Seq<Seq<Value>>, flow: Flow) -> Flow
    decreases log.len(),
{
    if log.len() <= from {
        flow
    } else {
        next(blocks, log.last(), (log.len() - 1) as nat, played(log.drop_last(), from, blocks, flow))
    }
}

/// One more step.
pub broadcast proof fn played_one_more(
    log: Seq<Step>,
    step: Step,
    from: nat,
    blocks: Seq<Seq<Value>>,
    flow: Flow,
)
    requires
        from <= log.len(),
    ensures
        #[trigger] played(log.push(step), from, blocks, flow) == next(
            blocks,
            step,
            log.len(),
            played(log, from, blocks, flow),
        ),
{
    assert(log.push(step).drop_last() =~= log);
}

/// No step.
pub broadcast proof fn played_nothing(
    log: Seq<Step>,
    from: nat,
    blocks: Seq<Seq<Value>>,
    flow: Flow,
)
    requires
        log.len() == from,
    ensures
        #[trigger] played(log, from, blocks, flow) == flow,
{
}

pub broadcast group group_played {
    played_one_more,
    played_nothing,
}

/// The values that were defined before the value `n` have the same patterns in both.
pub open spec fn keeps_values(w: World, after: World, n: nat) -> bool {
    forall|id: u32| id < n ==> #[trigger] after.vals[id] == w.vals[id]
}

/// Nothing but the values that are defined from `n` on differs.
pub open spec fn only_defines(w: World, after: World, n: nat) -> bool {
    &&& keeps_values(w, after, n)
    &&& after == World { vals: after.vals, ..w }
}

/// The pattern of the value is one of its type.
pub open spec fn fits(w: World, v: Value) -> bool {
    0 <= w.val(v) < range_of(v.ty)
}

/// No more zeros are counted than there are bits.
pub proof fn counts_are_bounded(x: int, n: nat)
    ensures
        0 <= leading_zeros(x, n) <= n,
        0 <= trailing_zeros(x, n) <= n,
        0 <= ones(x, n) <= n,
    decreases n,
{
    if n > 0 {
        counts_are_bounded(x, (n - 1) as nat);
        counts_are_bounded(x / 2, (n - 1) as nat);
    }
}

/// What comparisons give.
pub proof fn comparisons(ty: IrType, x: int, y: int)
    ensures
        binary_number(BinaryOp::Eq, ty, x, y) == Some(truth(x == y)),
        binary_number(BinaryOp::Neq, ty, x, y) == Some(truth(x != y)),
        binary_number(BinaryOp::Lt, ty, x, y) == Some(truth(number(ty, x) < number(ty, y))),
        binary_number(BinaryOp::Lte, ty, x, y) == Some(truth(number(ty, x) <= number(ty, y))),
        binary_number(BinaryOp::Gt, ty, x, y) == Some(truth(number(ty, x) > number(ty, y))),
        binary_number(BinaryOp::Gte, ty, x, y) == Some(truth(number(ty, x) >= number(ty, y))),
{
    reveal(binary_number);
}

/// What sums, products and operations on bits give.
pub proof fn sums(ty: IrType, x: int, y: int)
    ensures
        binary_number(BinaryOp::AddWrapping, ty, x, y) == Some((x + y) % range_of(ty)),
        binary_number(BinaryOp::SubWrapping, ty, x, y) == Some((x - y) % range_of(ty)),
        binary_number(BinaryOp::MulWrapping, ty, x, y) == Some((x * y) % range_of(ty)),
        binary_number(BinaryOp::Band, ty, x, y) == Some(both(x, y)),
        binary_number(BinaryOp::Bor, ty, x, y) == Some(either(x, y)),
        binary_number(BinaryOp::Bxor, ty, x, y) == Some(only_one(x, y)),
        !has_sign(ty) ==> binary_number(BinaryOp::Add, ty, x, y) == (if 0 <= x + y < range_of(ty) {
            Some((x + y) % range_of(ty))
        } else {
            None
        }),
{
    reveal(binary_number);
}

/// What divisions of numbers without a sign give.
pub proof fn divisions(ty: IrType, x: int, y: int)
    requires
        !has_sign(ty),
        0 <= x < range_of(ty),
        0 <= y,
    ensures
        y == 0 ==> binary_number(BinaryOp::Div, ty, x, y) is None && binary_number(
            BinaryOp::Mod,
            ty,
            x,
            y,
        ) is None,
        y > 0 ==> binary_number(BinaryOp::Div, ty, x, y) == Some(x / y) && binary_number(
            BinaryOp::Mod,
            ty,
            x,
            y,
        ) == Some(x % y),
{
    reveal(binary_number);
    if y > 0 {
        assert(0 <= x / y <= x && 0 <= x % y <= x && x - y * (x / y) == x % y) by (nonlinear_arith)
            requires
                0 <= x,
                0 < y,
        ;
        assert((x / y) % range_of(ty) == x / y);
        assert((x % y) % range_of(ty) == x % y);
    }
}

/// What shifts and rotations give.
pub proof fn shifts(ty: IrType, x: int, y: int)
    ensures
        ({
            let width = width_of(ty);
            let count = y % width as int;
            &&& binary_number(BinaryOp::Shl, ty, x, y) == Some(
                (x * pow2(count as nat)) % range_of(ty),
            )
            &&& binary_number(BinaryOp::Shr, ty, x, y) == Some(
                (number(ty, x) / (pow2(count as nat) as int)) % range_of(ty),
            )
            &&& binary_number(BinaryOp::Rotl, ty, x, y) == Some(rotated(x, count as nat, width))
            &&& binary_number(BinaryOp::Rotr, ty, x, y) == Some(
                rotated(x, ((width - count) % width as int) as nat, width),
            )
        }),
{
    reveal(binary_number);
}

/// What conversions give.
pub proof fn conversions(from: IrType, to: IrType, x: int)
    requires
        0 <= x < range_of(from),
    ensures
        converted_number(Conversion::Zext, from, to, x) == x,
        converted_number(Conversion::Trunc, from, to, x) == x % range_of(to),
        converted_number(Conversion::Sext, from, to, x) == signed(x, range_of(from)) % range_of(to),
        converted_number(Conversion::Cast, from, to, x) == number(from, x) % range_of(to),
        range_of(from) <= range_of(to) ==> converted_number(Conversion::Bitcast, from, to, x) == x
            && converted_number(Conversion::PtrToInt, from, to, x) == x && converted_number(
            Conversion::IntToPtr,
            from,
            to,
            x,
        ) == x,
{
    reveal(converted_number);
    if range_of(from) <= range_of(to) {
        vstd::arithmetic::div_mod::lemma_small_mod(x as nat, range_of(to) as nat);
    }
}

} // verus!

//! What loads and stores read and write, and how memory is copied, filled and grown.
use vstd::prelude::*;
use vstd::arithmetic::power2::pow2;
use crate::types::{Immediate, ScalarType};
use crate::wasm::builder::Built;
use crate::wasm::control::WasmError;
use crate::wasm::flow::{flows, settled};
use crate::wasm::ir::{BinaryOp, Conversion, Event, IrType, Value};
use crate::wasm::meaning::{
    self, conversions, divisions, fits, keeps_values, only_defines, played, range_of, read,
    read_digits, signed, sums, Flow, Memory, World,
};
use crate::wasm::memory;
use crate::wasm::operator::{FuncEnv, MemArg, Operator};
use crate::wasm::recipe;
use crate::wasm::state::Trans;
use crate::wasm::storage::{digits_are_bounded, writes_are_read_back};
use crate::wasm::translate;

verus! {

/// A load, as WebAssembly defines it: how many bytes it reads, whether they have a sign, and the type
/// of the result.
pub ghost struct Load {
    pub memarg: MemArg,
    pub bytes: nat,
    pub sign: bool,
    pub result: ScalarType,
}

/// The load that an operator makes. Loads of field elements are not among them.
pub open spec fn load_of(op: Operator) -> Option<Load> {
    let i32_ty = ScalarType::I32;
    let i64_ty = ScalarType::I64;
    match op {
        Operator::I32Load { memarg } => Some(Load { memarg, bytes: 4, sign: false, result: i32_ty }),
        Operator::I64Load { memarg } => Some(Load { memarg, bytes: 8, sign: false, result: i64_ty }),
        Operator::I32Load8S { memarg } => Some(Load { memarg, bytes: 1, sign: true, result: i32_ty }),
        Operator::I32Load8U { memarg } => Some(
            Load { memarg, bytes: 1, sign: false, result: i32_ty },
        ),
        Operator::I32Load16S { memarg } => Some(
            Load { memarg, bytes: 2, sign: true, result: i32_ty },
        ),
        Operator::I32Load16U { memarg } => Some(
            Load { memarg, bytes: 2, sign: false, result: i32_ty },
        ),
        Operator::I64Load8S { memarg } => Some(Load { memarg, bytes: 1, sign: true, result: i64_ty }),
        Operator::I64Load8U { memarg } => Some(
            Load { memarg, bytes: 1, sign: false, result: i64_ty },
        ),
        Operator::I64Load16S { memarg } => Some(
            Load { memarg, bytes: 2, sign: true, result: i64_ty },
        ),
        Operator::I64Load16U { memarg } => Some(
            Load { memarg, bytes: 2, sign: false, result: i64_ty },
        ),
        Operator::I64Load32S { memarg } => Some(
            Load { memarg, bytes: 4, sign: true, result: i64_ty },
        ),
        Operator::I64Load32U { memarg } => Some(
            Load { memarg, bytes: 4, sign: false, result: i64_ty },
        ),
        _ => None,
    }
}

/// How many bytes a store writes, and where. Stores of field elements are not among them.
pub open spec fn store_of(op: Operator) -> Option<(MemArg, nat)> {
    match op {
        Operator::I32Store8 { memarg } | Operator::I64Store8 { memarg } => Some((memarg, 1)),
        Operator::I32Store16 { memarg } | Operator::I64Store16 { memarg } => Some((memarg, 2)),
        Operator::I32Store { memarg } | Operator::I64Store32 { memarg } => Some((memarg, 4)),
        Operator::I64Store { memarg } => Some((memarg, 8)),
        _ => None,
    }
}

/// How many patterns so many bytes have.
pub open spec fn patterns(bytes: nat) -> int {
    if bytes == 1 {
        0x100
    } else if bytes == 2 {
        0x1_0000
    } else if bytes == 4 {
        0x1_0000_0000
    } else {
        0x1_0000_0000_0000_0000
    }
}

/// The address that an access is made at, if it is made: it must be one, and have the alignment that
/// is promised.
pub open spec fn effective(at: int, memarg: MemArg) -> Option<int> {
    let full = at + memarg.offset;
    if full < 0x1_0000_0000 && full % (pow2(memarg.align as nat) as int) == 0 {
        Some(full)
    } else {
        None
    }
}

/// The access has an offset and an alignment that an address can have.
pub open spec fn is_sensible(memarg: MemArg) -> bool {
    memarg.align < 32 && memarg.offset <= u32::MAX
}

/// Every address holds a byte.
pub open spec fn holds_bytes(memory: Memory) -> bool {
    forall|i: int| 0 <= #[trigger] memory(i) < 0x100
}

proof fn addresses_are_played(
    b: Built,
    addr: Value,
    from: nat,
    blocks: Seq<Seq<Value>>,
    start: Flow,
    w: World,
)
    requires
        from <= b.log.len(),
        b.next + 8 <= u32::MAX,
        addr.id < b.next,
        memory::is_address(addr.ty),
        fits(w, addr),
        played(b.log, from, blocks, start) == Flow::Falls(w),
    ensures
        ({
            let (b1, at) = memory::address(b, addr);
            &&& played(b1.log, from, blocks, start) matches Flow::Falls(w1) && w1.val(at) == w.val(
                addr,
            ) && only_defines(w, w1, b.next)
            &&& at.ty == IrType::Scalar(ScalarType::U32)
            &&& at.id < b1.next
            &&& b.next <= b1.next <= b.next + 1
            &&& b.log.len() <= b1.log.len()
        }),
{
    broadcast use meaning::group_played;

    conversions(addr.ty, IrType::Scalar(ScalarType::U32), w.val(addr));
}

proof fn offsets_are_played(
    b: Built,
    at: Value,
    memarg: MemArg,
    from: nat,
    blocks: Seq<Seq<Value>>,
    start: Flow,
    w: World,
)
    requires
        from <= b.log.len(),
        b.next + 8 <= u32::MAX,
        at.id < b.next,
        at.ty == IrType::Scalar(ScalarType::U32),
        fits(w, at),
        is_sensible(memarg),
        played(b.log, from, blocks, start) == Flow::Falls(w),
    ensures
        ({
            let (b1, full) = memory::offset_added((b, at), memarg);
            &&& if w.val(at) + memarg.offset < 0x1_0000_0000 {
                played(b1.log, from, blocks, start) matches Flow::Falls(w1) && w1.val(full) == w.val(
                    at,
                ) + memarg.offset && only_defines(w, w1, b.next)
            } else {
                played(b1.log, from, blocks, start) == Flow::Fails
            }
            &&& full.ty == IrType::Scalar(ScalarType::U32)
            &&& full.id < b1.next
            &&& b.next <= b1.next <= b.next + 2
            &&& b.log.len() <= b1.log.len()
        }),
{
    broadcast use meaning::group_played;

    let u32_ty = IrType::Scalar(ScalarType::U32);
    if memarg.offset != 0 {
        let offset = memarg.offset as u32;
        assert(offset == memarg.offset);
        sums(u32_ty, w.val(at), offset as int);
        assert(Immediate::U32(offset).number() % range_of(u32_ty) == offset);
        let (b1, imm) = b.imm(Immediate::U32(offset));
        let w1 = w.with(imm, offset as int);
        assert(played(b1.log, from, blocks, start) == Flow::Falls(w1));
        assert(w1.val(at) == w.val(at));
    }
}

proof fn alignments_are_played(
    b: Built,
    at: Value,
    memarg: MemArg,
    from: nat,
    blocks: Seq<Seq<Value>>,
    start: Flow,
    w: World,
)
    requires
        from <= b.log.len(),
        b.next + 8 <= u32::MAX,
        at.id < b.next,
        at.ty == IrType::Scalar(ScalarType::U32),
        fits(w, at),
        is_sensible(memarg),
        played(b.log, from, blocks, start) == Flow::Falls(w),
    ensures
        ({
            let (b1, full) = memory::alignment_checked((b, at), memarg);
            &&& if w.val(at) % (pow2(memarg.align as nat) as int) == 0 {
                played(b1.log, from, blocks, start) matches Flow::Falls(w1) && only_defines(
                    w,
                    w1,
                    b.next,
                )
            } else {
                played(b1.log, from, blocks, start) == Flow::Fails
            }
            &&& full == at
            &&& b.next <= b1.next <= b.next + 2
            &&& b.log.len() <= b1.log.len()
        }),
{
    broadcast use meaning::group_played;

    let u32_ty = IrType::Scalar(ScalarType::U32);
    vstd::arithmetic::power2::lemma2_to64();
    vstd::arithmetic::power2::lemma_pow2_pos(memarg.align as nat);
    if memarg.align != 0 {
        let p = pow2(memarg.align as nat);
        vstd::arithmetic::power2::lemma_pow2_strictly_increases(memarg.align as nat, 32);
        assert(p as u32 == p);
        divisions(u32_ty, w.val(at), p as int);
        assert(Immediate::U32(p as u32).number() % range_of(u32_ty) == p);
        let (b1, imm) = b.imm(Immediate::U32(p as u32));
        let w1 = w.with(imm, p as int);
        assert(played(b1.log, from, blocks, start) == Flow::Falls(w1));
        let (b2, rest) = b1.binary(BinaryOp::Mod, at, imm);
        let w2 = w1.with(rest, w.val(at) % (p as int));
        assert(played(b2.log, from, blocks, start) == Flow::Falls(w2));
    }
}

/// A pointer leads to where the address is, and the offset away from it if there is one.
proof fn pointers_are_played(
    b: Built,
    addr: Value,
    ty: ScalarType,
    memarg: Option<MemArg>,
    from: nat,
    blocks: Seq<Seq<Value>>,
    start: Flow,
    w: World,
)
    requires
        from <= b.log.len(),
        b.next + 12 <= u32::MAX,
        addr.id < b.next,
        memory::is_address(addr.ty),
        fits(w, addr),
        memarg matches Some(m) ==> is_sensible(m),
        played(b.log, from, blocks, start) == Flow::Falls(w),
    ensures
        ({
            let (b1, ptr) = memory::pointed(b, addr, ty, memarg);
            let place = match memarg {
                Some(m) => effective(w.val(addr), m),
                None => Some(w.val(addr)),
            };
            &&& match place {
                Some(at) => played(b1.log, from, blocks, start) matches Flow::Falls(w1) && w1.val(
                    ptr,
                ) == at && only_defines(w, w1, b.next) && fits(w1, ptr),
                None => played(b1.log, from, blocks, start) == Flow::Fails,
            }
            &&& ptr.ty == IrType::Ptr(ty)
            &&& ptr.id < b1.next
            &&& b.next <= b1.next <= b.next + 6
            &&& b.log.len() <= b1.log.len()
        }),
{
    broadcast use meaning::group_played;

    let first = memory::address(b, addr);
    addresses_are_played(b, addr, from, blocks, start, w);
    let w1 = played(first.0.log, from, blocks, start)->Falls_0;
    match memarg {
        Some(m) => {
            let second = memory::offset_added(first, m);
            offsets_are_played(first.0, first.1, m, from, blocks, start, w1);
            if w.val(addr) + m.offset < 0x1_0000_0000 {
                let w2 = played(second.0.log, from, blocks, start)->Falls_0;
                alignments_are_played(second.0, second.1, m, from, blocks, start, w2);
                conversions(second.1.ty, IrType::Ptr(ty), w2.val(second.1));
            } else {
                failures_last(second, m, from, blocks, start);
            }
        },
        None => {
            conversions(first.1.ty, IrType::Ptr(ty), w1.val(first.1));
        },
    }
}

proof fn failures_last(
    built: (Built, Value),
    memarg: MemArg,
    from: nat,
    blocks: Seq<Seq<Value>>,
    start: Flow,
)
    requires
        from <= built.0.log.len(),
        played(built.0.log, from, blocks, start) == Flow::Fails,
    ensures
        ({
            let (b1, full) = memory::alignment_checked(built, memarg);
            &&& played(b1.log, from, blocks, start) == Flow::Fails
            &&& full == built.1
            &&& built.0.next <= b1.next <= built.0.next + 2
            &&& built.0.log.len() <= b1.log.len()
        }),
{
    broadcast use meaning::group_played;

}

/// What a step does to control that is where a pointer is made.
proof fn reads_are_played(t: Trans, ty: ScalarType, memarg: MemArg, blocks: Seq<Seq<Value>>, w: World)
    requires
        settled(t),
        is_sensible(memarg),
        t.stack.len() >= 1,
        memory::is_address(t.peek(0).ty),
        fits(w, t.peek(0)),
    ensures
        ({
            let (b, addr) = memory::pointed(t.b, t.peek(0), ty, Some(memarg));
            let val = b.fresh(0, IrType::Scalar(ty));
            let b1 = b.step(Event::Load { addr, result: val }, 1);
            let end = played(b1.log, t.b.log.len(), blocks, Flow::Falls(w));
            &&& b1.next <= t.b.next + 8
            &&& val.id < b1.next
            &&& t.b.log.len() <= b1.log.len()
            &&& match effective(w.val(t.peek(0)), memarg) {
                Some(at) => end matches Flow::Falls(done) && only_defines(w, done, t.b.next)
                    && done.val(val) == read(w.memory, at, ty),
                None => end == Flow::Fails,
            }
        }),
{
    broadcast use meaning::group_played;

    pointers_are_played(
        t.b,
        t.peek(0),
        ty,
        Some(memarg),
        t.b.log.len(),
        blocks,
        Flow::Falls(w),
        w,
    );
}

/// Where control is after a load, and what it gives.
spec fn gives(t: Trans, after: Trans, w: World, place: Option<int>, x: int) -> bool {
    let end = flows(t, after, Flow::Falls(w));
    match place {
        Some(at) => end matches Flow::Falls(done) && only_defines(w, done, t.b.next) && done.val(
            after.peek(0),
        ) == x,
        None => end == Flow::Fails,
    }
}

proof fn plain_loads_read(t: Trans, ty: ScalarType, memarg: MemArg, w: World)
    requires
        settled(t),
        is_sensible(memarg),
        t.stack.len() >= 1,
        memory::is_address(t.peek(0).ty),
        fits(w, t.peek(0)),
    ensures
        ({
            let after = memory::loaded(t, ty, memarg);
            let place = effective(w.val(t.peek(0)), memarg);
            &&& after.stack.drop_last() == t.stack.drop_last()
            &&& after.peek(0).ty == IrType::Scalar(ty)
            &&& gives(t, after, w, place, read(w.memory, place->0, ty))
        }),
{
    let after = memory::loaded(t, ty, memarg);
    reads_are_played(t, ty, memarg, after.b.blocks, w);
    assert(after.stack.drop_last() =~= t.stack.drop_last());
}

/// A conversion defines one value, and nothing else.
pub proof fn conversions_are_played(
    b: Built,
    op: Conversion,
    arg: Value,
    ty: IrType,
    from: nat,
    blocks: Seq<Seq<Value>>,
    start: Flow,
)
    requires
        from <= b.log.len(),
        arg.id < b.next < u32::MAX,
    ensures
        ({
            let (b1, result) = b.convert(op, arg, ty);
            let before = played(b.log, from, blocks, start);
            let after = played(b1.log, from, blocks, start);
            &&& match before {
                Flow::Falls(w) => after == Flow::Falls(
                    w.with(result, meaning::converted_number(op, arg.ty, ty, w.val(arg))),
                ),
                Flow::Fails => after == Flow::Fails,
                _ => true,
            }
            &&& result == b.fresh(0, ty)
            &&& result.id == b.next
            &&& b1.next == b.next + 1
            &&& b1.log.len() == b.log.len() + 1
        }),
{
    let step = Event::Convert { op, arg, result: b.fresh(0, ty) };
    meaning::played_one_more(b.log, step, from, blocks, start);
}

proof fn signed_loads_read(t: Trans, ty: ScalarType, to: ScalarType, memarg: MemArg, w: World)
    requires
        settled(t),
        is_sensible(memarg),
        t.stack.len() >= 1,
        memory::is_address(t.peek(0).ty),
        fits(w, t.peek(0)),
        forall|at: int| 0 <= #[trigger] read(w.memory, at, ty) < range_of(IrType::Scalar(ty)),
    ensures
        ({
            let after = memory::loaded_sext(t, ty, to, memarg);
            let place = effective(w.val(t.peek(0)), memarg);
            let n = read(w.memory, place->0, ty);
            &&& after.stack.drop_last() == t.stack.drop_last()
            &&& after.peek(0).ty == IrType::Scalar(to)
            &&& gives(
                t,
                after,
                w,
                place,
                signed(n, range_of(IrType::Scalar(ty))) % range_of(IrType::Scalar(to)),
            )
        }),
{
    let after = memory::loaded_sext(t, ty, to, memarg);
    reads_are_played(t, ty, memarg, after.b.blocks, w);
    assert(after.stack.drop_last() =~= t.stack.drop_last());
    let place = effective(w.val(t.peek(0)), memarg);
    conversions(IrType::Scalar(ty), IrType::Scalar(to), read(w.memory, place->0, ty));
    let (b, addr) = memory::pointed(t.b, t.peek(0), ty, Some(memarg));
    let val = b.fresh(0, IrType::Scalar(ty));
    let b1 = b.step(Event::Load { addr, result: val }, 1);
    conversions_are_played(
        b1,
        Conversion::Sext,
        val,
        IrType::Scalar(to),
        t.b.log.len(),
        after.b.blocks,
        Flow::Falls(w),
    );
    assert(after.peek(0) == b1.fresh(0, IrType::Scalar(to)));
}

proof fn unsigned_loads_read(
    t: Trans,
    ty: ScalarType,
    to: ScalarType,
    result: ScalarType,
    memarg: MemArg,
    w: World,
)
    requires
        settled(t),
        is_sensible(memarg),
        t.stack.len() >= 1,
        memory::is_address(t.peek(0).ty),
        fits(w, t.peek(0)),
        forall|at: int| 0 <= #[trigger] read(w.memory, at, ty) < range_of(IrType::Scalar(ty)),
        range_of(IrType::Scalar(ty)) <= range_of(IrType::Scalar(to)),
        to == ScalarType::U32 && result == ScalarType::I32 || to == ScalarType::U64 && result
            == ScalarType::I64,
    ensures
        ({
            let after = memory::loaded_zext(t, ty, to, memarg);
            let place = effective(w.val(t.peek(0)), memarg);
            &&& after.stack.drop_last() == t.stack.drop_last()
            &&& after.peek(0).ty == IrType::Scalar(result)
            &&& gives(t, after, w, place, read(w.memory, place->0, ty))
        }),
{
    let after = memory::loaded_zext(t, ty, to, memarg);
    let blocks = after.b.blocks;
    reads_are_played(t, ty, memarg, blocks, w);
    assert(after.stack.drop_last() =~= t.stack.drop_last());
    let place = effective(w.val(t.peek(0)), memarg);
    let n = read(w.memory, place->0, ty);
    conversions(IrType::Scalar(ty), IrType::Scalar(to), n);
    conversions(IrType::Scalar(to), IrType::Scalar(result), n);
    let (b, addr) = memory::pointed(t.b, t.peek(0), ty, Some(memarg));
    let val = b.fresh(0, IrType::Scalar(ty));
    let b1 = b.step(Event::Load { addr, result: val }, 1);
    let (b2, zext) = b1.convert(Conversion::Zext, val, IrType::Scalar(to));
    let from = t.b.log.len();
    let start = Flow::Falls(w);
    conversions_are_played(b1, Conversion::Zext, val, IrType::Scalar(to), from, blocks, start);
    conversions_are_played(
        b2,
        Conversion::Bitcast,
        zext,
        IrType::Scalar(result),
        from,
        blocks,
        start,
    );
    assert(after.b == b2.convert(Conversion::Bitcast, zext, IrType::Scalar(result)).0);
    assert(after.peek(0) == b2.fresh(0, IrType::Scalar(result)));
}

proof fn bytes_are_numbers(memory: Memory, ty: ScalarType)
    requires
        holds_bytes(memory),
        matches!(
            ty,
            ScalarType::I8 | ScalarType::U8 | ScalarType::I16 | ScalarType::U16 | ScalarType::I32
            | ScalarType::U32 | ScalarType::I64 | ScalarType::U64
        ),
    ensures
        forall|at: int| 0 <= #[trigger] read(memory, at, ty) < range_of(IrType::Scalar(ty)),
{
    assert forall|at: int| 0 <= #[trigger] read(memory, at, ty) < range_of(IrType::Scalar(ty)) by {
        digits_are_bounded(memory, at, meaning::footprint(ty));
    }
}

proof fn accesses_have_no_recipe(op: Operator)
    requires
        translate::access_of(op) is Some,
    ensures
        recipe::recipe_of(op) is None,
{
    match op {
        Operator::I32Load8U { .. } => {
            assert(recipe::recipe_of(op) is None);
        },
        Operator::I32Load16U { .. } => {
            assert(recipe::recipe_of(op) is None);
        },
        Operator::I32Load8S { .. } => {
            assert(recipe::recipe_of(op) is None);
        },
        Operator::I32Load16S { .. } => {
            assert(recipe::recipe_of(op) is None);
        },
        Operator::I64Load8U { .. } => {
            assert(recipe::recipe_of(op) is None);
        },
        Operator::I64Load16U { .. } => {
            assert(recipe::recipe_of(op) is None);
        },
        Operator::I64Load8S { .. } => {
            assert(recipe::recipe_of(op) is None);
        },
        Operator::I64Load16S { .. } => {
            assert(recipe::recipe_of(op) is None);
        },
        Operator::I64Load32S { .. } => {
            assert(recipe::recipe_of(op) is None);
        },
        Operator::I64Load32U { .. } => {
            assert(recipe::recipe_of(op) is None);
        },
        Operator::I32Load { .. } => {
            assert(recipe::recipe_of(op) is None);
        },
        Operator::I64Load { .. } => {
            assert(recipe::recipe_of(op) is None);
        },
        Operator::F32Load { .. } => {
            assert(recipe::recipe_of(op) is None);
        },
        Operator::I32Store { .. } => {
            assert(recipe::recipe_of(op) is None);
        },
        Operator::I64Store { .. } => {
            assert(recipe::recipe_of(op) is None);
        },
        Operator::F32Store { .. } => {
            assert(recipe::recipe_of(op) is None);
        },
        Operator::I32Store8 { .. } => {
            assert(recipe::recipe_of(op) is None);
        },
        Operator::I64Store8 { .. } => {
            assert(recipe::recipe_of(op) is None);
        },
        Operator::I32Store16 { .. } => {
            assert(recipe::recipe_of(op) is None);
        },
        Operator::I64Store16 { .. } => {
            assert(recipe::recipe_of(op) is None);
        },
        Operator::I64Store32 { .. } => {
            assert(recipe::recipe_of(op) is None);
        },
        _ => {},
    }
}

#[verifier::spinoff_prover]
#[verifier::rlimit(40)]
proof fn accesses_are_translated(env: &FuncEnv, op: Operator, t: Trans)
    requires
        translate::access_of(op) is Some,
    ensures
        ({
            let (access, memarg) = translate::access_of(op)->0;
            translate::translated(env, op, t) == (
                translate::accessed(t, access, memarg),
                Ok::<(), WasmError>(()),
            )
        }),
{
    accesses_have_no_recipe(op);
}

spec fn is_right(op: Operator, t: Trans, after: Trans, w: World) -> bool {
    let load = load_of(op)->0;
    let end = flows(t, after, Flow::Falls(w));
    &&& after.stack.drop_last() == t.stack.drop_last()
    &&& after.peek(0).ty == IrType::Scalar(load.result)
    &&& match effective(w.val(t.peek(0)), load.memarg) {
        Some(at) => {
            let n = read_digits(w.memory, at, 0x100, load.bytes);
            &&& end matches Flow::Falls(done) && only_defines(w, done, t.b.next) && done.val(
                after.peek(0),
            ) == (if load.sign {
                signed(n, patterns(load.bytes)) % range_of(IrType::Scalar(load.result))
            } else {
                n
            })
        },
        None => end == Flow::Fails,
    }
}

/// A load gives the number that the bytes at its address make up, the lowest first, with or without a
/// sign. It fails if the address is none or not aligned as promised.
pub proof fn loads_read_their_bytes(env: &FuncEnv, op: Operator, t: Trans, w: World)
    requires
        settled(t),
        load_of(op) matches Some(load) && is_sensible(load.memarg),
        t.stack.len() >= 1,
        memory::is_address(t.peek(0).ty),
        fits(w, t.peek(0)),
        holds_bytes(w.memory),
    ensures
        ({
            let (after, result) = translate::translated(env, op, t);
            let load = load_of(op)->0;
            let end = flows(t, after, Flow::Falls(w));
            &&& result is Ok
            &&& after.stack.drop_last() == t.stack.drop_last()
            &&& after.peek(0).ty == IrType::Scalar(load.result)
            &&& match effective(w.val(t.peek(0)), load.memarg) {
                Some(at) => {
                    let n = read_digits(w.memory, at, 0x100, load.bytes);
                    &&& end matches Flow::Falls(done) && only_defines(w, done, t.b.next)
                        && done.val(after.peek(0)) == (if load.sign {
                        signed(n, patterns(load.bytes)) % range_of(IrType::Scalar(load.result))
                    } else {
                        n
                    })
                },
                None => end == Flow::Fails,
            }
        }),
{
    accesses_are_translated(env, op, t);
    loads_are_right(op, t, w);
}

#[verifier::spinoff_prover]
#[verifier::rlimit(40)]
proof fn loads_are_right(op: Operator, t: Trans, w: World)
    requires
        settled(t),
        load_of(op) matches Some(load) && is_sensible(load.memarg),
        t.stack.len() >= 1,
        memory::is_address(t.peek(0).ty),
        fits(w, t.peek(0)),
        holds_bytes(w.memory),
    ensures
        translate::access_of(op) matches Some(access) && is_right(
            op,
            t,
            translate::accessed(t, access.0, access.1),
            w,
        ),
{
    let memarg = load_of(op)->0.memarg;
    match op {
        Operator::I32Load { .. } => {
            plain_loads_read(t, ScalarType::I32, memarg, w);
        },
        Operator::I64Load { .. } => {
            plain_loads_read(t, ScalarType::I64, memarg, w);
        },
        Operator::I32Load8S { .. } => {
            bytes_are_numbers(w.memory, ScalarType::I8);
            signed_loads_read(t, ScalarType::I8, ScalarType::I32, memarg, w);
        },
        Operator::I32Load16S { .. } => {
            bytes_are_numbers(w.memory, ScalarType::I16);
            signed_loads_read(t, ScalarType::I16, ScalarType::I32, memarg, w);
        },
        Operator::I64Load8S { .. } => {
            bytes_are_numbers(w.memory, ScalarType::I8);
            signed_loads_read(t, ScalarType::I8, ScalarType::I64, memarg, w);
        },
        Operator::I64Load16S { .. } => {
            bytes_are_numbers(w.memory, ScalarType::I16);
            signed_loads_read(t, ScalarType::I16, ScalarType::I64, memarg, w);
        },
        Operator::I64Load32S { .. } => {
            bytes_are_numbers(w.memory, ScalarType::I32);
            signed_loads_read(t, ScalarType::I32, ScalarType::I64, memarg, w);
        },
        Operator::I32Load8U { .. } => {
            bytes_are_numbers(w.memory, ScalarType::U8);
            unsigned_loads_read(t, ScalarType::U8, ScalarType::U32, ScalarType::I32, memarg, w);
        },
        Operator::I32Load16U { .. } => {
            bytes_are_numbers(w.memory, ScalarType::U16);
            unsigned_loads_read(t, ScalarType::U16, ScalarType::U32, ScalarType::I32, memarg, w);
        },
        Operator::I64Load8U { .. } => {
            bytes_are_numbers(w.memory, ScalarType::U8);
            unsigned_loads_read(t, ScalarType::U8, ScalarType::U64, ScalarType::I64, memarg, w);
        },
        Operator::I64Load16U { .. } => {
            bytes_are_numbers(w.memory, ScalarType::U16);
            unsigned_loads_read(t, ScalarType::U16, ScalarType::U64, ScalarType::I64, memarg, w);
        },
        Operator::I64Load32U { .. } => {
            bytes_are_numbers(w.memory, ScalarType::U32);
            unsigned_loads_read(t, ScalarType::U32, ScalarType::U64, ScalarType::I64, memarg, w);
        },
        _ => {},
    }
}

/// The type is one of the types of integers of 32 and 64 bits.
pub open spec fn is_integer(ty: IrType) -> bool {
    matches!(
        ty,
        IrType::Scalar(ScalarType::I32) | IrType::Scalar(ScalarType::U32)
        | IrType::Scalar(ScalarType::I64) | IrType::Scalar(ScalarType::U64)
    )
}

proof fn cuts_are_played(
    b: Built,
    val: Value,
    ty: ScalarType,
    from: nat,
    blocks: Seq<Seq<Value>>,
    start: Flow,
    w: World,
)
    requires
        from <= b.log.len(),
        b.next + 4 <= u32::MAX,
        val.id < b.next,
        fits(w, val),
        val.ty == IrType::Scalar(ty) || is_integer(val.ty),
        range_of(val.ty) >= range_of(IrType::Scalar(ty)),
        played(b.log, from, blocks, start) == Flow::Falls(w),
    ensures
        ({
            let (b1, value) = memory::storable(b, val, ty);
            &&& played(b1.log, from, blocks, start) matches Flow::Falls(w1) && w1.val(value)
                == w.val(val) % range_of(IrType::Scalar(ty)) && only_defines(w, w1, b.next)
            &&& value.id < b1.next
            &&& b.next <= b1.next <= b.next + 2
            &&& b.log.len() <= b1.log.len()
        }),
{
    broadcast use meaning::group_played;

    let to = IrType::Scalar(ty);
    let x = w.val(val);
    if to == val.ty {
        vstd::arithmetic::div_mod::lemma_small_mod(x as nat, range_of(to) as nat);
    } else if to.bits() == val.ty.bits() {
        reveal(meaning::converted_number);
    } else if to.is_unsigned() && val.ty.unsigned() is Some {
        let uns = val.ty.unsigned()->0;
        conversions(val.ty, uns, x);
        let (b1, uval) = b.convert(Conversion::Bitcast, val, uns);
        assert(played(b1.log, from, blocks, start) == Flow::Falls(w.with(uval, x)));
        conversions(uns, to, x);
    } else {
        conversions(val.ty, to, x);
    }
}

/// Only the values that are defined from `n` on, and the memory, differ.
pub open spec fn only_stores(w: World, after: World, n: nat) -> bool {
    &&& keeps_values(w, after, n)
    &&& after == World { vals: after.vals, memory: after.memory, ..w }
}

/// Every address but the `n` from `at` on holds the same in both.
pub open spec fn same_elsewhere(a: Memory, b: Memory, at: int, n: nat) -> bool {
    forall|i: int| i < at || at + n <= i ==> #[trigger] a(i) == b(i)
}

proof fn stores_are_played(t: Trans, ty: ScalarType, memarg: MemArg, w: World)
    requires
        settled(t),
        is_sensible(memarg),
        t.stack.len() >= 2,
        memory::is_address(t.peek(1).ty),
        fits(w, t.peek(1)),
        fits(w, t.peek(0)),
        t.peek(0).ty == IrType::Scalar(ty) || is_integer(t.peek(0).ty),
        range_of(t.peek(0).ty) >= range_of(IrType::Scalar(ty)),
    ensures
        ({
            let after = memory::stored(t, ty, memarg);
            let end = flows(t, after, Flow::Falls(w));
            &&& after.stack == t.stack.take(t.stack.len() - 2)
            &&& match effective(w.val(t.peek(1)), memarg) {
                Some(at) => end matches Flow::Falls(done) && only_stores(w, done, t.b.next) && read(
                    done.memory,
                    at,
                    ty,
                ) == w.val(t.peek(0)) % range_of(IrType::Scalar(ty)) && same_elsewhere(
                    done.memory,
                    w.memory,
                    at,
                    meaning::footprint(ty),
                ),
                None => end == Flow::Fails,
            }
        }),
{
    let after = memory::stored(t, ty, memarg);
    let from = t.b.log.len();
    let blocks = after.b.blocks;
    let start = Flow::Falls(w);
    meaning::played_nothing(t.b.log, from, blocks, start);
    assert(after.stack =~= t.stack.take(t.stack.len() - 2));
    cuts_are_played(t.b, t.peek(0), ty, from, blocks, start, w);
    let (b1, value) = memory::storable(t.b, t.peek(0), ty);
    let w1 = played(b1.log, from, blocks, start)->Falls_0;
    assert(w1.val(t.peek(1)) == w.val(t.peek(1)));
    pointers_are_played(b1, t.peek(1), ty, Some(memarg), from, blocks, start, w1);
    let (b2, addr) = memory::pointed(b1, t.peek(1), ty, Some(memarg));
    meaning::played_one_more(b2.log, Event::Store { addr, value }, from, blocks, start);
    assert(after.b == b2.step(Event::Store { addr, value }, 0));
    match effective(w.val(t.peek(1)), memarg) {
        Some(at) => {
            let w2 = played(b2.log, from, blocks, start)->Falls_0;
            let x = w.val(t.peek(0)) % range_of(IrType::Scalar(ty));
            assert(w2.val(value) == x);
            writes_are_read_back(w.memory, at, ty, x);
        },
        None => {},
    }
}

/// A store writes the lower bytes of a value to its address, the lowest first, so that they can be
/// read there, and changes no other byte. It fails if the address is none or not aligned as promised.
#[verifier::spinoff_prover]
#[verifier::rlimit(40)]
pub proof fn stores_write_their_bytes(env: &FuncEnv, op: Operator, t: Trans, w: World)
    requires
        settled(t),
        store_of(op) matches Some((memarg, bytes)) && is_sensible(memarg) && range_of(t.peek(0).ty)
            >= patterns(bytes),
        t.stack.len() >= 2,
        memory::is_address(t.peek(1).ty),
        fits(w, t.peek(1)),
        fits(w, t.peek(0)),
        is_integer(t.peek(0).ty),
    ensures
        ({
            let (after, result) = translate::translated(env, op, t);
            let (memarg, bytes) = store_of(op)->0;
            let end = flows(t, after, Flow::Falls(w));
            &&& result is Ok
            &&& after.stack == t.stack.take(t.stack.len() - 2)
            &&& match effective(w.val(t.peek(1)), memarg) {
                Some(at) => end matches Flow::Falls(done) && only_stores(w, done, t.b.next)
                    && read_digits(done.memory, at, 0x100, bytes) == w.val(t.peek(0)) % patterns(
                    bytes,
                ) && same_elsewhere(done.memory, w.memory, at, bytes),
                None => end == Flow::Fails,
            }
        }),
{
    let (memarg, bytes) = store_of(op)->0;
    match op {
        Operator::I32Store8 { .. } | Operator::I64Store8 { .. } => {
            accesses_are_translated(env, op, t);
            stores_are_played(t, ScalarType::U8, memarg, w);
        },
        Operator::I32Store16 { .. } | Operator::I64Store16 { .. } => {
            accesses_are_translated(env, op, t);
            stores_are_played(t, ScalarType::U16, memarg, w);
        },
        Operator::I32Store { .. } => {
            accesses_are_translated(env, op, t);
            stores_are_played(t, ScalarType::I32, memarg, w);
        },
        Operator::I64Store32 { .. } => {
            accesses_are_translated(env, op, t);
            stores_are_played(t, ScalarType::U32, memarg, w);
        },
        Operator::I64Store { .. } => {
            accesses_are_translated(env, op, t);
            stores_are_played(t, ScalarType::I64, memarg, w);
        },
        _ => {},
    }
}

/// A field element that is stored is what a load from the same address gives.
#[verifier::spinoff_prover]
#[verifier::rlimit(40)]
pub proof fn field_elements_are_loaded_and_stored(
    env: &FuncEnv,
    memarg: MemArg,
    t: Trans,
    w: World,
)
    requires
        settled(t),
        is_sensible(memarg),
        t.stack.len() >= 2,
    ensures
        memory::is_address(t.peek(0).ty) && fits(w, t.peek(0)) ==> ({
            let (after, result) = translate::translated(env, Operator::F32Load { memarg }, t);
            let end = flows(t, after, Flow::Falls(w));
            &&& result is Ok
            &&& after.stack.drop_last() == t.stack.drop_last()
            &&& after.peek(0).ty == IrType::Scalar(ScalarType::Felt)
            &&& match effective(w.val(t.peek(0)), memarg) {
                Some(at) => end matches Flow::Falls(done) && only_defines(w, done, t.b.next)
                    && done.val(after.peek(0)) == read(w.memory, at, ScalarType::Felt),
                None => end == Flow::Fails,
            }
        }),
        memory::is_address(t.peek(1).ty) && fits(w, t.peek(1)) && t.peek(0).ty == IrType::Scalar(
            ScalarType::Felt,
        ) && fits(w, t.peek(0)) ==> ({
            let (after, result) = translate::translated(env, Operator::F32Store { memarg }, t);
            let end = flows(t, after, Flow::Falls(w));
            &&& result is Ok
            &&& after.stack == t.stack.take(t.stack.len() - 2)
            &&& match effective(w.val(t.peek(1)), memarg) {
                Some(at) => end matches Flow::Falls(done) && only_stores(w, done, t.b.next) && read(
                    done.memory,
                    at,
                    ScalarType::Felt,
                ) == w.val(t.peek(0)) && same_elsewhere(done.memory, w.memory, at, 4),
                None => end == Flow::Fails,
            }
        }),
{
    accesses_are_translated(env, Operator::F32Load { memarg }, t);
    accesses_are_translated(env, Operator::F32Store { memarg }, t);
    if memory::is_address(t.peek(0).ty) && fits(w, t.peek(0)) {
        plain_loads_read(t, ScalarType::Felt, memarg, w);
    }
    if memory::is_address(t.peek(1).ty) && fits(w, t.peek(1)) && t.peek(0).ty == IrType::Scalar(
        ScalarType::Felt,
    ) && fits(w, t.peek(0)) {
        stores_are_played(t, ScalarType::Felt, memarg, w);
        vstd::arithmetic::div_mod::lemma_small_mod(
            w.val(t.peek(0)) as nat,
            range_of(IrType::Scalar(ScalarType::Felt)) as nat,
        );
    }
}

/// A copy takes the count, the source and the destination from the stack, in this order. Each of the
/// bytes at the destination is then the one that was as far behind the source.
#[verifier::spinoff_prover]
#[verifier::rlimit(40)]
pub proof fn copies_move_bytes(env: &FuncEnv, t: Trans, w: World)
    requires
        settled(t),
        t.stack.len() >= 3,
        memory::is_address(t.peek(1).ty),
        memory::is_address(t.peek(2).ty),
        range_of(t.peek(0).ty) == 0x1_0000_0000,
        fits(w, t.peek(0)),
        fits(w, t.peek(1)),
        fits(w, t.peek(2)),
    ensures
        ({
            let op = Operator::MemoryCopy { dst_mem: 0, src_mem: 0 };
            let (after, result) = translate::translated(env, op, t);
            let (count, src, dst) = (w.val(t.peek(0)), w.val(t.peek(1)), w.val(t.peek(2)));
            &&& result is Ok
            &&& after.stack == t.stack.take(t.stack.len() - 3)
            &&& flows(t, after, Flow::Falls(w)) matches Flow::Falls(done) && only_stores(
                w,
                done,
                t.b.next,
            ) && (forall|i: int|
                0 <= i < count ==> #[trigger] (done.memory)(dst + i) == (w.memory)(src + i))
                && same_elsewhere(done.memory, w.memory, dst, count as nat)
        }),
{
    let op = Operator::MemoryCopy { dst_mem: 0, src_mem: 0 };
    assert(recipe::recipe_of(op) is None);
    let (after, _) = translate::translated(env, op, t);
    assert(after == memory::memory_copied(t));
    let from = t.b.log.len();
    let blocks = after.b.blocks;
    let start = Flow::Falls(w);
    assert(after.stack =~= t.stack.take(t.stack.len() - 3));
    meaning::played_nothing(t.b.log, from, blocks, start);
    let u32_ty = IrType::Scalar(ScalarType::U32);
    conversions(t.peek(0).ty, u32_ty, w.val(t.peek(0)));
    conversions_are_played(t.b, Conversion::Bitcast, t.peek(0), u32_ty, from, blocks, start);
    let (b1, count) = t.b.convert(Conversion::Bitcast, t.peek(0), u32_ty);
    let w1 = played(b1.log, from, blocks, start)->Falls_0;
    pointers_are_played(b1, t.peek(2), ScalarType::U8, None, from, blocks, start, w1);
    let (b2, dst) = memory::pointed(b1, t.peek(2), ScalarType::U8, None);
    let w2 = played(b2.log, from, blocks, start)->Falls_0;
    pointers_are_played(b2, t.peek(1), ScalarType::U8, None, from, blocks, start, w2);
    let (b3, src) = memory::pointed(b2, t.peek(1), ScalarType::U8, None);
    let step = Event::MemCpy { src, dst, count };
    meaning::played_one_more(b3.log, step, from, blocks, start);
    assert(after.b == b3.step(step, 0));
}

/// A fill takes the count, the value and the destination from the stack, in this order. Each of the
/// bytes at the destination is then the lowest byte of the value.
#[verifier::spinoff_prover]
#[verifier::rlimit(40)]
pub proof fn fills_set_bytes(env: &FuncEnv, t: Trans, w: World)
    requires
        settled(t),
        t.stack.len() >= 3,
        memory::is_address(t.peek(2).ty),
        range_of(t.peek(0).ty) == 0x1_0000_0000,
        fits(w, t.peek(0)),
        fits(w, t.peek(1)),
        fits(w, t.peek(2)),
    ensures
        ({
            let (after, result) = translate::translated(env, Operator::MemoryFill { mem: 0 }, t);
            let (count, value, dst) = (w.val(t.peek(0)), w.val(t.peek(1)), w.val(t.peek(2)));
            &&& result is Ok
            &&& after.stack == t.stack.take(t.stack.len() - 3)
            &&& flows(t, after, Flow::Falls(w)) matches Flow::Falls(done) && only_stores(
                w,
                done,
                t.b.next,
            ) && (forall|i: int|
                0 <= i < count ==> #[trigger] (done.memory)(dst + i) == value % 0x100)
                && same_elsewhere(done.memory, w.memory, dst, count as nat)
        }),
{
    let op = Operator::MemoryFill { mem: 0 };
    assert(recipe::recipe_of(op) is None);
    let (after, _) = translate::translated(env, op, t);
    assert(after == memory::memory_filled(t));
    let from = t.b.log.len();
    let blocks = after.b.blocks;
    let start = Flow::Falls(w);
    assert(after.stack =~= t.stack.take(t.stack.len() - 3));
    meaning::played_nothing(t.b.log, from, blocks, start);
    let u8_ty = IrType::Scalar(ScalarType::U8);
    let u32_ty = IrType::Scalar(ScalarType::U32);
    conversions(t.peek(1).ty, u8_ty, w.val(t.peek(1)));
    conversions(t.peek(0).ty, u32_ty, w.val(t.peek(0)));
    conversions_are_played(t.b, Conversion::Trunc, t.peek(1), u8_ty, from, blocks, start);
    let (b1, value) = t.b.convert(Conversion::Trunc, t.peek(1), u8_ty);
    conversions_are_played(b1, Conversion::Bitcast, t.peek(0), u32_ty, from, blocks, start);
    let (b2, count) = b1.convert(Conversion::Bitcast, t.peek(0), u32_ty);
    let w2 = played(b2.log, from, blocks, start)->Falls_0;
    pointers_are_played(b2, t.peek(2), ScalarType::U8, None, from, blocks, start, w2);
    let (b3, dst) = memory::pointed(b2, t.peek(2), ScalarType::U8, None);
    let step = Event::MemSet { dst, count, value };
    meaning::played_one_more(b3.log, step, from, blocks, start);
    assert(after.b == b3.step(step, 0));
}

/// Growing gives the size before and makes it larger by the pages that are asked for, or, if there
/// are no more pages, gives -1 and changes nothing. The size can be asked for.
#[verifier::spinoff_prover]
#[verifier::rlimit(40)]
pub proof fn memory_grows_by_pages(env: &FuncEnv, t: Trans, w: World)
    requires
        settled(t),
        t.stack.len() >= 1,
        range_of(t.peek(0).ty) == 0x1_0000_0000,
        fits(w, t.peek(0)),
        0 <= w.pages <= 0x1_0000,
    ensures
        ({
            let (after, result) = translate::translated(env, Operator::MemoryGrow, t);
            let wanted = w.val(t.peek(0));
            &&& result is Ok
            &&& after.stack.drop_last() == t.stack.drop_last()
            &&& after.peek(0).ty == IrType::Scalar(ScalarType::I32)
            &&& flows(t, after, Flow::Falls(w)) matches Flow::Falls(done) && keeps_values(
                w,
                done,
                t.b.next,
            ) && done == (World { vals: done.vals, pages: done.pages, ..w }) && if w.grows {
                done.pages == w.pages + wanted && done.val(after.peek(0)) == w.pages
            } else {
                done.pages == w.pages && done.val(after.peek(0)) == -1int % 0x1_0000_0000
            }
        }),
        ({
            let (after, result) = translate::translated(env, Operator::MemorySize, t);
            &&& result is Ok
            &&& after.stack.drop_last() == t.stack
            &&& after.peek(0).ty == IrType::Scalar(ScalarType::I32)
            &&& flows(t, after, Flow::Falls(w)) matches Flow::Falls(done) && only_defines(
                w,
                done,
                t.b.next,
            ) && done.val(after.peek(0)) == w.pages
        }),
{
    assert(recipe::recipe_of(Operator::MemoryGrow) is None);
    assert(recipe::recipe_of(Operator::MemorySize) is None);
    let u32_ty = IrType::Scalar(ScalarType::U32);
    let i32_ty = IrType::Scalar(ScalarType::I32);
    let from = t.b.log.len();
    let start = Flow::Falls(w);
    conversions(u32_ty, i32_ty, w.pages);
    conversions(u32_ty, i32_ty, 0xffff_ffff);
    conversions(t.peek(0).ty, u32_ty, w.val(t.peek(0)));
    {
        let (after, _) = translate::translated(env, Operator::MemoryGrow, t);
        let blocks = after.b.blocks;
        meaning::played_nothing(t.b.log, from, blocks, start);
        assert(after.stack.drop_last() =~= t.stack.drop_last());
        conversions_are_played(t.b, Conversion::Bitcast, t.peek(0), u32_ty, from, blocks, start);
        let (b1, pages) = t.b.bitcast_unless(t.peek(0), u32_ty);
        let result = b1.fresh(0, u32_ty);
        let step = Event::MemGrow { pages, result };
        meaning::played_one_more(b1.log, step, from, blocks, start);
        let b2 = b1.step(step, 1);
        conversions_are_played(b2, Conversion::Bitcast, result, i32_ty, from, blocks, start);
        assert(after.peek(0) == b2.fresh(0, i32_ty));
    }
    {
        let (after, _) = translate::translated(env, Operator::MemorySize, t);
        let blocks = after.b.blocks;
        meaning::played_nothing(t.b.log, from, blocks, start);
        assert(after.stack.drop_last() =~= t.stack);
        let result = t.b.fresh(0, u32_ty);
        let step = Event::MemSize { result };
        meaning::played_one_more(t.b.log, step, from, blocks, start);
        let b1 = t.b.step(step, 1);
        conversions_are_played(b1, Conversion::Bitcast, result, i32_ty, from, blocks, start);
        assert(after.peek(0) == b1.fresh(0, i32_ty));
    }
}

} // verus!

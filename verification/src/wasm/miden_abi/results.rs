//! That results that are wanted in memory end up there.
use vstd::prelude::*;
use crate::span::SourceSpan;
use crate::types::{self, field_end, field_offset, Immediate, ScalarType};
use crate::wasm::builder::Built;
use crate::wasm::flow::{given_patterns_are_had, is_fresh};
use crate::wasm::ir::{BinaryOp, Conversion, Event, IrType, Value};
use crate::wasm::meaning::{
    self, conversions, fits, footprint, keeps_values, only_defines, played, range_of, read, sums,
    written, Call, Flow, World,
};
use crate::wasm::miden_abi::transform::{called, called_via_pointer, stored, ImportedFunction};
use crate::wasm::storage;

verus! {

/// Control is at the next instruction, in a world that differs from `w` only in values from `n` on
/// and in memory.
spec fn is_at(flow: Flow, w: World, n: nat) -> bool {
    flow matches Flow::Falls(now) && keeps_values(w, now, n) && now == (World {
        vals: now.vals,
        memory: now.memory,
        ..w
    })
}

/// The first `n` fields hold the patterns of the results, and nothing else changed in memory.
spec fn holds(
    now: World,
    w: World,
    at: int,
    results: Seq<Value>,
    types: Seq<ScalarType>,
    n: int,
) -> bool {
    &&& forall|i: int|
        0 <= i < n ==> read(
            now.memory,
            at + #[trigger] field_offset(types, i),
            types[i],
        ) == w.val(results[i])
    &&& forall|k: int|
        (k < at || n > 0 && k >= at + field_end(types, n - 1) || n == 0) ==> #[trigger] (now.memory)(k)
            == (w.memory)(k)
}

proof fn footprints_are_sizes(ty: ScalarType)
    ensures
        footprint(ty) == ty.bytes(),
{
}

proof fn later_fields_are_behind(types: Seq<ScalarType>, i: int, j: int)
    requires
        0 <= i < j < types.len(),
    ensures
        field_end(types, i) <= field_offset(types, j),
        field_end(types, i) <= field_end(types, j),
    decreases j - i,
{
    types::fields_are_laid_out(types, j);
    types::fields_are_laid_out(types, i);
    if i < j - 1 {
        later_fields_are_behind(types, i, j - 1);
        types::fields_are_laid_out(types, j - 1);
    }
}

proof fn stores_hold(
    b: Built,
    ptr: Value,
    results: Seq<Value>,
    types: Seq<ScalarType>,
    n: int,
    from: nat,
    blocks: Seq<Seq<Value>>,
    w: World,
    start: Flow,
)
    requires
        0 <= n <= types.len() == results.len() <= 255,
        from <= b.log.len(),
        b.next + 3 * types.len() <= u32::MAX,
        ptr.id < b.next,
        ptr.ty == IrType::Scalar(ScalarType::U32),
        forall|i: int|
            0 <= i < results.len() ==> (#[trigger] results[i]).id < b.next && results[i].ty
                == IrType::Scalar(types[i]) && fits(w, results[i]),
        types.len() > 0 ==> 0 <= w.val(ptr) && w.val(ptr) + field_end(types, types.len() - 1)
            <= 0x1_0000_0000,
        played(b.log, from, blocks, start) == Flow::Falls(w),
    ensures
        ({
            let after = stored(b, ptr, results, types, n);
            let flow = played(after.log, from, blocks, start);
            &&& is_at(flow, w, b.next)
            &&& holds(flow->Falls_0, w, w.val(ptr), results, types, n)
            &&& b.next <= after.next <= b.next + 3 * n
            &&& after.log.len() >= b.log.len()
            &&& after.blocks == b.blocks
        }),
    decreases n,
{
    if n > 0 {
        let i = n - 1;
        stores_hold(b, ptr, results, types, i, from, blocks, w, start);
        let b0 = stored(b, ptr, results, types, i);
        let w0 = played(b0.log, from, blocks, start)->Falls_0;
        let p = w.val(ptr);
        assert(w0.val(ptr) == p);
        assert(w0.val(results[i]) == w.val(results[i]));
        types::fields_are_laid_out(types, i);
        let offset = field_offset(types, i);
        if i < types.len() - 1 {
            later_fields_are_behind(types, i, types.len() - 1);
        }
        assert(p + offset + types[i].bytes() <= 0x1_0000_0000);
        one_store(b0, ptr, results[i], offset, i == 0, types[i], from, blocks, w0, start);
        let after = stored(b, ptr, results, types, n);
        assert(after == after_store(b0, ptr, results[i], offset, i == 0, types[i]));
        let now = played(after.log, from, blocks, start)->Falls_0;
        fields_stay(w0, now, w, p, results, types, n);
    }
}

/// The steps that store a value in a field.
spec fn after_store(b: Built, ptr: Value, value: Value, offset: int, is_first: bool, ty: ScalarType) -> Built {
    let (b, at) = if is_first {
        (b, ptr)
    } else {
        let (b, imm) = b.imm(Immediate::U32(offset as u32));
        b.binary(BinaryOp::Add, ptr, imm)
    };
    let (b, addr) = b.convert(Conversion::IntToPtr, at, IrType::Ptr(ty));
    b.step(Event::Store { addr, value }, 0)
}

proof fn one_store(
    b: Built,
    ptr: Value,
    value: Value,
    offset: int,
    is_first: bool,
    ty: ScalarType,
    from: nat,
    blocks: Seq<Seq<Value>>,
    w: World,
    start: Flow,
)
    requires
        from <= b.log.len(),
        b.next + 3 <= u32::MAX,
        ptr.id < b.next,
        value.id < b.next,
        ptr.ty == IrType::Scalar(ScalarType::U32),
        0 <= offset,
        0 <= w.val(ptr),
        w.val(ptr) + offset < 0x1_0000_0000,
        is_first ==> offset == 0,
        played(b.log, from, blocks, start) == Flow::Falls(w),
    ensures
        ({
            let after = after_store(b, ptr, value, offset, is_first, ty);
            let flow = played(after.log, from, blocks, start);
            &&& flow matches Flow::Falls(now) && keeps_values(w, now, b.next) && now == (World {
                vals: now.vals,
                memory: written(w.memory, w.val(ptr) + offset, ty, w.val(value)),
                ..w
            })
            &&& b.next <= after.next <= b.next + 3
            &&& after.log.len() >= b.log.len()
            &&& after.blocks == b.blocks
        }),
{
    broadcast use meaning::group_played;

    let p = w.val(ptr);
    let u32_ty = IrType::Scalar(ScalarType::U32);
    sums(u32_ty, p, offset);
    assert(Immediate::U32(offset as u32).number() % range_of(u32_ty) == offset);
    let (b1, at) = if is_first {
        (b, ptr)
    } else {
        let (b1, imm) = b.imm(Immediate::U32(offset as u32));
        let (b2, at) = b1.binary(BinaryOp::Add, ptr, imm);
        assert(played(b1.log, from, blocks, start) == Flow::Falls(w.with(imm, offset)));
        assert(played(b2.log, from, blocks, start) == Flow::Falls(
            w.with(imm, offset).with(at, p + offset),
        ));
        (b2, at)
    };
    let w1 = played(b1.log, from, blocks, start)->Falls_0;
    assert(played(b1.log, from, blocks, start) is Falls);
    assert(w1.val(at) == p + offset);
    assert(only_defines(w, w1, b.next));
    let ptr_ty = IrType::Ptr(ty);
    conversions(at.ty, ptr_ty, p + offset);
    let (b2, addr) = b1.convert(Conversion::IntToPtr, at, ptr_ty);
    assert(played(b2.log, from, blocks, start) == Flow::Falls(w1.with(addr, p + offset)));
}

proof fn fields_stay(
    before: World,
    now: World,
    w: World,
    p: int,
    results: Seq<Value>,
    types: Seq<ScalarType>,
    n: int,
)
    requires
        0 < n <= types.len() == results.len(),
        holds(before, w, p, results, types, n - 1),
        fits(w, results[n - 1]),
        results[n - 1].ty == IrType::Scalar(types[n - 1]),
        now.memory == written(
            before.memory,
            p + field_offset(types, n - 1),
            types[n - 1],
            w.val(results[n - 1]),
        ),
    ensures
        holds(now, w, p, results, types, n),
{
    let i = n - 1;
    let x = w.val(results[i]);
    let offset = field_offset(types, i);
    types::fields_are_laid_out(types, i);
    storage::writes_are_read_back(before.memory, p + offset, types[i], x);
    footprints_are_sizes(types[i]);
    assert forall|j: int| 0 <= j < n implies read(
        now.memory,
        p + #[trigger] field_offset(types, j),
        types[j],
    ) == w.val(results[j]) by {
        if j < i {
            later_fields_are_behind(types, j, i);
            footprints_are_sizes(types[j]);
            storage::writes_elsewhere_do_not_matter(
                before.memory,
                p + offset,
                types[i],
                x,
                p + field_offset(types, j),
                types[j],
            );
        }
    }
    if i > 0 {
        later_fields_are_behind(types, i - 1, i);
    }
    assert forall|k: int|
        (k < p || n > 0 && k >= p + field_end(types, n - 1) || n == 0) implies #[trigger] (
    now.memory)(k) == (w.memory)(k) by {
        assert((before.memory)(k) == (w.memory)(k));
    }
}

/// A function whose results are wanted where the last argument points is called with the other
/// arguments. After that, each field of the structure there holds the result of the same number, and
/// nothing else in memory is changed.
pub proof fn results_are_where_the_pointer_points(
    b: Built,
    import: &ImportedFunction,
    args: Seq<Value>,
    w: World,
)
    requires
        args.len() > 0,
        args.last().ty == IrType::Scalar(ScalarType::I32),
        import.results@.len() <= 255,
        b.next + 4 * import.results@.len() + 1 <= u32::MAX,
        forall|i: int| 0 <= i < args.len() ==> (#[trigger] args[i]).id < b.next,
        fits(w, args.last()),
        import.results@.len() > 0 ==> w.val(args.last()) + field_end(
            import.results@,
            import.results@.len() - 1,
        ) <= 0x1_0000_0000,
        ({
            let call = Call {
                name: import.name,
                callee: None,
                args: w.all(args.drop_last()),
            };
            let (answers, _) = (w.host)(w.calls.push(call), w.memory);
            forall|i: int|
                0 <= i < import.results@.len() ==> 0 <= #[trigger] answers(i) < range_of(
                    IrType::Scalar(import.results@[i]),
                )
        }),
    ensures
        ({
            let types = import.results@;
            let p = w.val(args.last());
            let call = Call {
                name: import.name,
                callee: None,
                args: w.all(args.drop_last()),
            };
            let calls = w.calls.push(call);
            let (answers, memory) = (w.host)(calls, w.memory);
            let after = called_via_pointer(b, import, args);
            &&& played(after.log, b.log.len(), after.blocks, Flow::Falls(w)) matches Flow::Falls(done)
                && done.calls == calls && keeps_values(w, done, b.next) && (forall|i: int|
                0 <= i < types.len() ==> read(
                    done.memory,
                    p + #[trigger] field_offset(types, i),
                    types[i],
                ) == answers(i)) && (forall|k: int|
                k < p || types.len() == 0 || k >= p + field_end(types, types.len() - 1)
                    ==> #[trigger] (done.memory)(k) == memory(k))
        }),
{
    broadcast use meaning::group_played;

    let types = import.results@;
    let n = types.len();
    let after = called_via_pointer(b, import, args);
    let from = b.log.len();
    let start = Flow::Falls(w);
    let given = args.drop_last();
    let p = w.val(args.last());
    let call = Call { name: import.name, callee: None, args: w.all(given) };
    let calls = w.calls.push(call);
    let (answers, memory) = (w.host)(calls, w.memory);
    let (b1, results) = called(b, import, given);
    assert(is_fresh(results, b.next));
    let xs = Seq::new(n, |i: int| answers(i));
    given_patterns_are_had(World { calls, memory, ..w }, results, xs, b.next);
    let blocks = after.blocks;
    let w1 = played(b1.log, from, blocks, start)->Falls_0;
    assert(played(b1.log, from, blocks, start) is Falls);
    assert(w1 == w.called(call, results));
    assert(only_defines(World { calls, memory, ..w }, w1, b.next));
    assert forall|i: int| 0 <= i < n implies #[trigger] w1.val(results[i]) == answers(i) by {
        assert(w1.all(results)[i] == xs[i]);
    }
    let b2 = b1.step(Event::At(SourceSpan::synthetic_span()), 0);
    let u32_ty = IrType::Scalar(ScalarType::U32);
    let (b3, ptr) = b2.convert(Conversion::Bitcast, args.last(), u32_ty);
    conversions(args.last().ty, u32_ty, p);
    assert(played(b2.log, from, blocks, start) == Flow::Falls(w1));
    let w3 = played(b3.log, from, blocks, start)->Falls_0;
    assert(played(b3.log, from, blocks, start) is Falls);
    assert(args.last().id < b.next);
    assert(w3.val(ptr) == p && only_defines(w1, w3, b2.next));
    assert forall|i: int| 0 <= i < results.len() implies (#[trigger] results[i]).id < b3.next
        && results[i].ty == IrType::Scalar(types[i]) && fits(w3, results[i]) by {
        assert(w3.val(results[i]) == w1.val(results[i]));
        assert(0 <= answers(i) < range_of(IrType::Scalar(types[i])));
    }
    stores_hold(b3, ptr, results, types, n as int, from, blocks, w3, start);
    let done = played(after.log, from, blocks, start)->Falls_0;
    assert forall|i: int| 0 <= i < n implies read(
        done.memory,
        p + #[trigger] field_offset(types, i),
        types[i],
    ) == answers(i) by {
        assert(w3.val(results[i]) == w1.val(results[i]));
    }
}

} // verus!

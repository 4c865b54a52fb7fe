//! What holds of every translation: control structures nest, and the function only grows.
use vstd::prelude::*;
use crate::types::ScalarType;
use crate::wasm::builder::Built;
use crate::wasm::control;
use crate::wasm::function::{self, BodyOperator};
use crate::wasm::ir::{Conversion, Event, Value};
use crate::wasm::memory;
use crate::wasm::operator::{FuncEnv, MemArg, Operator};
use crate::wasm::recipe;
use crate::wasm::state::{ControlStackFrame, Trans};
use crate::wasm::translate::{self, Access};

verus! {

/// How much deeper control structures nest after an operator.
pub open spec fn deepens(op: Operator) -> int {
    match op {
        Operator::Block { .. } | Operator::Loop { .. } | Operator::If { .. } => 1,
        Operator::End => -1,
        _ => 0,
    }
}

/// How much deeper control structures nest after the first `n` operators.
pub open spec fn depth_of(ops: Seq<BodyOperator>, n: int) -> int
    decreases n,
{
    if n <= 0 {
        0
    } else {
        depth_of(ops, n - 1) + deepens(ops[n - 1].op)
    }
}

/// The operator starts, divides or ends a control structure.
pub open spec fn is_structural(op: Operator) -> bool {
    matches!(
        op,
        Operator::Block { .. }
        | Operator::Loop { .. }
        | Operator::If { .. }
        | Operator::Else
        | Operator::End
    )
}

/// Control does not go on after the operator.
pub open spec fn diverts(op: Operator) -> bool {
    matches!(
        op,
        Operator::Unreachable
        | Operator::Br { .. }
        | Operator::BrTable { .. }
        | Operator::Return
    )
}

/// Two frames are of the same structure: they branch to the same code with as many values, go on
/// at the same code with as many results, and start at the same place of the value stack.
pub open spec fn same_structure(a: ControlStackFrame, b: ControlStackFrame) -> bool {
    &&& a.target() == b.target()
    &&& a.after() == b.after()
    &&& a.base() == b.base()
    &&& a.result_count() == b.result_count()
    &&& a.branch_values() == b.branch_values()
}

/// The frames that two control stacks have in common are of the same structures.
pub open spec fn same_structures(a: Seq<ControlStackFrame>, b: Seq<ControlStackFrame>) -> bool {
    forall|k: int|
        0 <= k < a.len() && k < b.len() ==> same_structure(#[trigger] a[k], #[trigger] b[k])
}

proof fn leaving_keeps_structures(t: Trans, depth: int)
    requires
        0 <= depth < t.control.len(),
    ensures
        t.leaves(depth).control.len() == t.control.len(),
        same_structures(t.control, t.leaves(depth).control),
{
}

proof fn leaving_all_keeps_structures(t: Trans, depths: Seq<u32>, n: nat)
    requires
        n <= depths.len(),
        forall|i: int| 0 <= i < n ==> (#[trigger] depths[i]) < t.control.len(),
    ensures
        control::leaves_all(t, depths, n).control.len() == t.control.len(),
        same_structures(t.control, control::leaves_all(t, depths, n).control),
    decreases n,
{
    if n > 0 {
        leaving_all_keeps_structures(t, depths, (n - 1) as nat);
        let before = control::leaves_all(t, depths, (n - 1) as nat);
        assert(depths[n - 1] < t.control.len());
        leaving_keeps_structures(before, depths[n - 1] as int);
        let after = before.leaves(depths[n - 1] as int);
        assert forall|k: int| 0 <= k < t.control.len() implies same_structure(
            #[trigger] t.control[k],
            #[trigger] after.control[k],
        ) by {
            assert(same_structure(t.control[k], before.control[k]));
            assert(same_structure(before.control[k], after.control[k]));
        }
    }
}

/// An operator that can be translated nests control structures one deeper if it starts one, one
/// less deep if it ends one, and as deep as before otherwise. It leaves the structures around it
/// as they were.
pub proof fn operators_nest(env: &FuncEnv, op: Operator, t: Trans)
    requires
        function::step_ready(env, op, t),
        function::stepped(env, op, t).1 is Ok,
    ensures
        function::stepped(env, op, t).0.control.len() == t.control.len() + deepens(op),
        same_structures(t.control, function::stepped(env, op, t).0.control),
{
    if t.reachable {
        if recipe::recipe_of(op) is Some {
        } else if translate::access_of(op) is Some {
        } else if translate::is_value_operator(op) {
        } else if translate::is_control_operator(op) {
            match op {
                Operator::BrTable { targets, default } => {
                    let depths = targets@;
                    let left = t.leaves(default as int);
                    leaving_keeps_structures(t, default as int);
                    leaving_all_keeps_structures(left, depths, depths.len());
                    let after = control::leaves_all(left, depths, depths.len()).control;
                    assert forall|k: int| 0 <= k < t.control.len() implies same_structure(
                        #[trigger] t.control[k],
                        #[trigger] after[k],
                    ) by {
                        assert(same_structure(t.control[k], left.control[k]));
                        assert(same_structure(left.control[k], after[k]));
                    }
                },
                _ => {},
            }
        }
    }
}

/// The nesting of control structures after the first operators of a valid function is that of the
/// structures they start and do not end.
pub proof fn bodies_nest(env: &FuncEnv, t: Trans, ops: Seq<BodyOperator>, n: int)
    requires
        function::valid_body(env, t, ops),
        0 <= n <= ops.len(),
        function::run(env, t, ops, n).1 is Ok,
    ensures
        function::run(env, t, ops, n).0.control.len() == t.control.len() + depth_of(ops, n),
    decreases n,
{
    if n > 0 {
        bodies_nest(env, t, ops, n - 1);
        let before = function::run(env, t, ops, n - 1).0;
        assert(function::op_ready(env, t, ops, n - 1));
        operators_nest(
            env,
            ops[n - 1].op,
            before.does(Event::At(function::last_valid_span(ops, n))),
        );
    }
}

/// The control structure at `k` stays open from before the operator `from` to before the operator
/// `to`.
pub open spec fn stays_open(t: Trans, ops: Seq<BodyOperator>, from: int, to: int, k: int) -> bool {
    forall|m: int| from <= m <= to ==> holds_at(t, #[trigger] depth_of(ops, m), k)
}

/// There is a control structure at `k` where structures nest `depth` deeper than at the start.
pub open spec fn holds_at(t: Trans, depth: int, k: int) -> bool {
    0 <= k < t.control.len() + depth
}

/// As long as a control structure has not ended, it stays what it was: its branches lead to the
/// same code, with the same number of values, and it started at the same place of the value
/// stack.
pub proof fn open_structures_stay(
    env: &FuncEnv,
    t: Trans,
    ops: Seq<BodyOperator>,
    from: int,
    to: int,
    k: int,
)
    requires
        function::valid_body(env, t, ops),
        0 <= from <= to <= ops.len(),
        function::run(env, t, ops, to).1 is Ok,
        stays_open(t, ops, from, to, k),
    ensures
        same_structure(
            function::run(env, t, ops, from).0.control[k],
            function::run(env, t, ops, to).0.control[k],
        ),
    decreases to - from,
{
    if from < to {
        let before = function::run(env, t, ops, to - 1).0;
        assert(function::op_ready(env, t, ops, to - 1));
        let now = before.does(Event::At(function::last_valid_span(ops, to)));
        open_structures_stay(env, t, ops, from, to - 1, k);
        bodies_nest(env, t, ops, to - 1);
        bodies_nest(env, t, ops, to);
        operators_nest(env, ops[to - 1].op, now);
        assert(holds_at(t, depth_of(ops, to - 1), k));
        assert(holds_at(t, depth_of(ops, to), k));
        assert(same_structure(
            now.control[k],
            function::run(env, t, ops, to).0.control[k],
        ));
    }
}

/// Code that cannot be reached is dropped: an operator there that neither starts, divides nor ends
/// a control structure changes nothing.
pub proof fn dead_code_is_dropped(env: &FuncEnv, op: Operator, t: Trans)
    requires
        !t.reachable,
        !is_structural(op),
    ensures
        function::stepped(env, op, t) == (t, Ok::<(), control::WasmError>(())),
{
}

/// The code after an operator can be reached if the operator can, unless control does not go on
/// after it.
pub proof fn control_goes_on(env: &FuncEnv, op: Operator, t: Trans)
    requires
        t.reachable,
        function::stepped(env, op, t).1 is Ok,
    ensures
        function::stepped(env, op, t).0.reachable == !diverts(op),
{
}

/// A function was built further: what was built before is still there, and the values that were
/// defined since have numbers of their own.
pub open spec fn built_further(before: Built, after: Built) -> bool {
    &&& before.log.len() <= after.log.len()
    &&& forall|i: int| 0 <= i < before.log.len() ==> #[trigger] after.log[i] == before.log[i]
    &&& before.next <= after.next
    &&& before.blocks.len() <= after.blocks.len()
    &&& forall|i: int|
        0 <= i < before.blocks.len() ==> #[trigger] after.blocks[i] == before.blocks[i]
}

proof fn built_further_twice(a: Built, b: Built, c: Built)
    requires
        built_further(a, b),
        built_further(b, c),
    ensures
        built_further(a, c),
{
    assert forall|i: int| 0 <= i < a.log.len() implies #[trigger] c.log[i] == a.log[i] by {
        assert(b.log[i] == a.log[i]);
    }
    assert forall|i: int| 0 <= i < a.blocks.len() implies #[trigger] c.blocks[i] == a.blocks[i] by {
        assert(b.blocks[i] == a.blocks[i]);
    }
}

proof fn computing_only_adds(b: Built, core: recipe::Core, x: Value, y: Value)
    ensures
        built_further(b, recipe::computed(b, core, x, y).0),
{
    if let recipe::Core::Binary { op, first, second } = core {
        let (b1, lhs) = recipe::prepared(b, first, x, x.ty);
        let (b2, rhs) = recipe::prepared(b1, second, y, x.ty);
        assert(built_further(b, b1));
        assert(built_further(b1, b2));
        built_further_twice(b, b1, b2);
        built_further_twice(b, b2, b2.binary(op, lhs, rhs).0);
    }
}

proof fn converting_only_adds(
    built: (Built, Value),
    conversion: Option<(Conversion, ScalarType)>,
)
    ensures
        built_further(built.0, recipe::converted(built, conversion).0),
{
}

proof fn recipes_only_add(t: Trans, r: recipe::Recipe)
    ensures
        built_further(t.b, recipe::served(t, r).b),
{
    let n = recipe::arity(r.core);
    let c0 = recipe::computed(t.b, r.core, t.peek(n - 1), t.peek(0));
    let c1 = recipe::converted(c0, r.first);
    let c2 = recipe::converted(c1, r.second);
    let c3 = recipe::converted(c2, r.third);
    computing_only_adds(t.b, r.core, t.peek(n - 1), t.peek(0));
    converting_only_adds(c0, r.first);
    converting_only_adds(c1, r.second);
    converting_only_adds(c2, r.third);
    built_further_twice(t.b, c0.0, c1.0);
    built_further_twice(t.b, c1.0, c2.0);
    built_further_twice(t.b, c2.0, c3.0);
}

proof fn pointing_only_adds(b: Built, addr: Value, ty: ScalarType, memarg: Option<MemArg>)
    ensures
        built_further(b, memory::pointed(b, addr, ty, memarg).0),
{
    let start = memory::address(b, addr);
    assert(built_further(b, start.0));
    if let Some(arg) = memarg {
        let moved = memory::offset_added(start, arg);
        let checked = memory::alignment_checked(moved, arg);
        assert(built_further(start.0, moved.0));
        assert(built_further(moved.0, checked.0));
        built_further_twice(b, start.0, moved.0);
        built_further_twice(b, moved.0, checked.0);
        built_further_twice(b, checked.0, memory::pointed(b, addr, ty, memarg).0);
    } else {
        built_further_twice(b, start.0, memory::pointed(b, addr, ty, memarg).0);
    }
}

proof fn accesses_only_add(t: Trans, access: Access, memarg: MemArg)
    ensures
        built_further(t.b, translate::accessed(t, access, memarg).b),
{
    let after = translate::accessed(t, access, memarg).b;
    match access {
        Access::Load { ty } | Access::LoadSext { ty, .. } | Access::LoadZext { ty, .. } => {
            let b = memory::pointed(t.b, t.peek(0), ty, Some(memarg)).0;
            pointing_only_adds(t.b, t.peek(0), ty, Some(memarg));
            assert(built_further(b, after));
            built_further_twice(t.b, b, after);
        },
        Access::Store { ty } => {
            let b = memory::storable(t.b, t.peek(0), ty).0;
            let b1 = memory::pointed(b, t.peek(1), ty, Some(memarg)).0;
            assert(built_further(t.b, b));
            pointing_only_adds(b, t.peek(1), ty, Some(memarg));
            assert(built_further(b1, after));
            built_further_twice(t.b, b, b1);
            built_further_twice(t.b, b1, after);
        },
    }
}

proof fn value_operators_only_add(env: &FuncEnv, op: Operator, t: Trans)
    ensures
        built_further(t.b, translate::value_translated(env, op, t).0.b),
{
}

proof fn control_operators_only_add(env: &FuncEnv, op: Operator, t: Trans)
    ensures
        built_further(t.b, translate::control_translated(env, op, t).0.b),
{
}

proof fn memory_operators_only_add(env: &FuncEnv, op: Operator, t: Trans)
    ensures
        built_further(t.b, translate::memory_translated(env, op, t).0.b),
{
}

proof fn skipping_only_adds(env: &FuncEnv, op: Operator, t: Trans)
    ensures
        built_further(t.b, translate::skipped(env, op, t).0.b),
{
}

/// A translation only adds to the function: an operator leaves the code before it, and the blocks
/// that were made before it, as they were.
pub proof fn translation_only_adds(env: &FuncEnv, op: Operator, t: Trans)
    ensures
        built_further(t.b, function::stepped(env, op, t).0.b),
{
    if !t.reachable {
        skipping_only_adds(env, op, t);
    } else if let Some(r) = recipe::recipe_of(op) {
        recipes_only_add(t, r);
    } else if let Some((access, memarg)) = translate::access_of(op) {
        accesses_only_add(t, access, memarg);
    } else if translate::is_value_operator(op) {
        value_operators_only_add(env, op, t);
    } else if translate::is_control_operator(op) {
        control_operators_only_add(env, op, t);
    } else if translate::is_memory_operator(op) {
        memory_operators_only_add(env, op, t);
    }
}

/// The operators of a body only add to the function.
pub proof fn bodies_only_add(env: &FuncEnv, t: Trans, ops: Seq<BodyOperator>, from: int, to: int)
    requires
        0 <= from <= to <= ops.len(),
    ensures
        built_further(function::run(env, t, ops, from).0.b, function::run(env, t, ops, to).0.b),
    decreases to - from,
{
    if from < to {
        bodies_only_add(env, t, ops, from, to - 1);
        let (before, result) = function::run(env, t, ops, to - 1);
        if result is Ok {
            translation_only_adds(
                env,
                ops[to - 1].op,
                before.does(Event::At(function::last_valid_span(ops, to))),
            );
        }
    }
}

} // verus!

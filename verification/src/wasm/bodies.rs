//! What a function starts with, and what it returns.
use vstd::prelude::*;
use crate::types::ScalarType;
use crate::wasm::builder::{Built, Step};
use crate::wasm::debug_info::LocalDecl;
use crate::wasm::flow::{flows, given_patterns_are_had, is_fresh};
use crate::wasm::function::{
    count_declared, defined, entered, finished, groups_declared, locals_entered, run, zero_of,
    BodyOperator,
};
use crate::wasm::ir::{BlockId, Event, Value};
use crate::wasm::meaning::{self, played, range_of, Flow, World};
use crate::wasm::module::{functions_translated, FunctionInput};
use crate::wasm::operator::{self, FuncEnv};
use crate::wasm::state::Trans;

verus! {

/// Only values and variables differ.
pub open spec fn only_assigns(w: World, after: World) -> bool {
    after == World { vals: after.vals, vars: after.vars, ..w }
}

/// The variables from `first` on have the given patterns, and the others are as before.
pub open spec fn assigns(w: World, after: World, first: int, xs: Seq<int>) -> bool {
    forall|k: u32|
        #[trigger] after.vars[k] == if first <= k < first + xs.len() {
            xs[k - first]
        } else {
            w.vars[k]
        }
}

proof fn definitions_are_played(
    b: Built,
    first: int,
    values: Seq<Value>,
    n: int,
    from: nat,
    blocks: Seq<Seq<Value>>,
    start: Flow,
    w: World,
)
    requires
        from <= b.log.len(),
        0 <= first,
        0 <= n <= values.len(),
        first + n <= u32::MAX,
        played(b.log, from, blocks, start) == Flow::Falls(w),
    ensures
        ({
            let after = defined(b, first, values, n);
            &&& played(after.log, from, blocks, start) matches Flow::Falls(done) && done.vals
                == w.vals && only_assigns(w, done) && assigns(w, done, first, w.all(values.take(n)))
            &&& after.blocks == b.blocks
            &&& after.log.len() == b.log.len() + n
            &&& after.next == b.next
        }),
    decreases n,
{
    if n > 0 {
        definitions_are_played(b, first, values, n - 1, from, blocks, start, w);
        let before = defined(b, first, values, n - 1);
        let var = (first + n - 1) as u32;
        let step = Event::DefVar { var, value: values[n - 1] };
        meaning::played_one_more(before.log, step, from, blocks, start);
        let w1 = played(before.log, from, blocks, start)->Falls_0;
        let done = played(defined(b, first, values, n).log, from, blocks, start)->Falls_0;
        let xs = w.all(values.take(n));
        assert forall|k: u32|
            #[trigger] done.vars[k] == if first <= k < first + xs.len() {
                xs[k - first]
            } else {
                w.vars[k]
            } by {
            let ys = w.all(values.take(n - 1));
            assert(w1.vars[k] == if first <= k < first + ys.len() {
                ys[k - first]
            } else {
                w.vars[k]
            });
        }
    }
}

proof fn groups_are_played(
    b: Built,
    decls: Seq<LocalDecl>,
    first: int,
    n: int,
    from: nat,
    blocks: Seq<Seq<Value>>,
    start: Flow,
    w: World,
)
    requires
        from <= b.log.len(),
        0 <= first,
        0 <= n <= decls.len(),
        first + count_declared(decls, n) <= u32::MAX,
        groups_declared(b, decls, first, n).1 is Ok,
        played(b.log, from, blocks, start) == Flow::Falls(w),
    ensures
        ({
            let after = groups_declared(b, decls, first, n).0;
            &&& played(after.log, from, blocks, start) matches Flow::Falls(done) && only_assigns(
                w,
                done,
            ) && assigns(w, done, first, Seq::new(count_declared(decls, n), |i: int| 0int))
            &&& after.blocks == b.blocks
            &&& b.log.len() <= after.log.len()
        }),
    decreases n,
{
    if n > 0 {
        groups_are_played(b, decls, first, n - 1, from, blocks, start, w);
        let before = groups_declared(b, decls, first, n - 1).0;
        let w1 = played(before.log, from, blocks, start)->Falls_0;
        let ty = operator::scalar_of(decls[n - 1].ty)->0;
        let (b1, zero) = before.imm(zero_of(ty));
        let step = Event::Const { imm: zero_of(ty), result: zero };
        meaning::played_one_more(before.log, step, from, blocks, start);
        assert(zero_of(ty).number() == 0);
        assert(0int % range_of(zero.ty) == 0);
        let w2 = w1.with(zero, 0);
        assert(played(b1.log, from, blocks, start) == Flow::Falls(w2));
        let m = decls[n - 1].count as int;
        let at = first + count_declared(decls, n - 1);
        let copies = Seq::new(m as nat, |i: int| zero);
        definitions_are_played(b1, at, copies, m, from, blocks, start, w2);
        let after = groups_declared(b, decls, first, n).0;
        let done = played(after.log, from, blocks, start)->Falls_0;
        let xs = Seq::new(count_declared(decls, n), |i: int| 0int);
        assert forall|k: u32|
            #[trigger] done.vars[k] == if first <= k < first + xs.len() {
                xs[k - first]
            } else {
                w.vars[k]
            } by {
            let ys = w2.all(copies.take(m));
            assert(done.vars[k] == if at <= k < at + ys.len() {
                ys[k - at]
            } else {
                w2.vars[k]
            });
            assert(w2.vars[k] == w1.vars[k]);
        }
    }
}

/// A function starts in its first block. Its parameters are the first variables, in their order, and
/// hold the arguments; the locals that it declares follow and are zero. Nothing else is changed, the
/// value stack is empty, and the one label leads to where as many values are taken as the function
/// has results.
#[verifier::spinoff_prover]
#[verifier::rlimit(40)]
pub proof fn functions_start_with_arguments_and_zeros(
    params: Seq<ScalarType>,
    results: Seq<ScalarType>,
    decls: Seq<LocalDecl>,
    w: World,
    via: nat,
    given: Seq<int>,
)
    requires
        params.len() + count_declared(decls, decls.len() as int) <= u32::MAX,
        results.len() <= usize::MAX,
        given.len() == params.len(),
        locals_entered(params, results, decls).1 is Ok,
    ensures
        ({
            let t = locals_entered(params, results, decls).0;
            let called = Flow::Goes { via, block: BlockId { index: 0 }, args: given, world: w };
            let n = params.len() as int;
            &&& t.reachable
            &&& t.stack.len() == 0
            &&& t.control.len() == 1
            &&& t.control[0].branch_values() == t.control[0].result_count() == results.len()
            &&& t.control[0].base() == 0
            &&& t.b.blocks[t.control[0].target().index as int].len() == results.len()
            &&& t.control[0].target().index != 0
            &&& played(t.b.log, 0, t.b.blocks, called) matches Flow::Falls(done) && only_assigns(
                w,
                done,
            ) && (forall|i: int| 0 <= i < n ==> done.vars[i as u32] == #[trigger] given[i]) && (
            forall|i: u32|
                n <= i < n + count_declared(decls, decls.len() as int) ==> #[trigger] done.vars[i]
                    == 0)
        }),
{
    broadcast use meaning::group_played;

    let t = locals_entered(params, results, decls).0;
    let blocks = t.b.blocks;
    let start = Flow::Goes { via, block: BlockId { index: 0 }, args: given, world: w };
    let b0 = Built { log: Seq::empty(), next: 0, blocks: Seq::empty() };
    let (b1, entry) = b0.create_block(params);
    let values = b0.fresh_list(params);
    assert(b1.params(entry) == values);
    let b2 = b1.step(Event::SwitchToBlock { block: entry }, 0);
    let b3 = b2.step(Event::SealBlock { block: entry }, 0);
    let n = params.len() as int;
    let b4 = defined(b3, 0, values, n);
    let (b5, exit) = b4.create_block(results);
    assert(entered(params, results).b == b5);
    is_fresh_from_the_start(params);
    given_patterns_are_had(w, values, given, 0);
    let w1 = w.with_all(values, given);
    defined_keeps_blocks(b3, 0, values, n);
    assert(b5.blocks.len() == 2 && b5.blocks[0] == values);
    groups_keep_blocks(b5, decls, n, decls.len() as int);
    assert(blocks == b5.blocks);
    assert(played(b1.log, 0, blocks, start) == start);
    assert(played(b2.log, 0, blocks, start) == Flow::Falls(w1));
    assert(played(b3.log, 0, blocks, start) == Flow::Falls(w1));
    definitions_are_played(b3, 0, values, n, 0, blocks, start, w1);
    assert(values.take(n) =~= values);
    let w4 = played(b4.log, 0, blocks, start)->Falls_0;
    let step: Step = Event::CreateBlock { block: exit, params: b4.fresh_list(results) };
    assert(b5.log == b4.log.push(step));
    assert(played(b5.log, 0, blocks, start) == Flow::Falls(w4));
    groups_are_played(b5, decls, n, decls.len() as int, 0, blocks, start, w4);
    let done = played(t.b.log, 0, blocks, start)->Falls_0;
    assert forall|i: int| 0 <= i < n implies done.vars[i as u32] == #[trigger] given[i] by {
        assert(done.vars[i as u32] == w4.vars[i as u32]);
        assert(w1.all(values)[i] == given[i]);
    }
}

proof fn is_fresh_from_the_start(types: Seq<ScalarType>)
    requires
        types.len() <= u32::MAX,
    ensures
        is_fresh(
            (Built { log: Seq::empty(), next: 0, blocks: Seq::empty() }).fresh_list(types),
            0,
        ),
{
}

proof fn defined_keeps_blocks(b: Built, first: int, values: Seq<Value>, n: int)
    ensures
        defined(b, first, values, n).blocks == b.blocks,
    decreases n,
{
    if n > 0 {
        defined_keeps_blocks(b, first, values, n - 1);
    }
}

proof fn groups_keep_blocks(b: Built, decls: Seq<LocalDecl>, first: int, n: int)
    ensures
        groups_declared(b, decls, first, n).0.blocks == b.blocks,
    decreases n,
{
    if n > 0 {
        groups_keep_blocks(b, decls, first, n - 1);
        let (before, result) = groups_declared(b, decls, first, n - 1);
        if result is Ok {
            if let Some(ty) = operator::scalar_of(decls[n - 1].ty) {
                let (b1, zero) = before.imm(zero_of(ty));
                defined_keeps_blocks(
                    b1,
                    first + count_declared(decls, n - 1),
                    Seq::new(decls[n - 1].count as nat, |i: int| zero),
                    decls[n - 1].count as int,
                );
            }
        }
    }
}

/// Control that reaches the end of a body goes back to the caller, with the value that is on the
/// stack, if there is one.
pub proof fn bodies_return_their_value(env: &FuncEnv, t: Trans, ops: Seq<BodyOperator>, w: World)
    requires
        run(env, t, ops, ops.len() as int).1 is Ok,
    ensures
        ({
            let end = run(env, t, ops, ops.len() as int).0;
            let (after, result) = finished(env, t, ops);
            &&& result is Ok
            &&& end.reachable ==> flows(end, after, Flow::Falls(w)) == (Flow::Returns {
                value: if end.stack.len() == 0 {
                    None
                } else {
                    Some(w.val(end.stack[0]))
                },
                world: w,
            })
            &&& !end.reachable ==> flows(end, after, Flow::Falls(w)) == Flow::Falls(w)
        }),
{
    broadcast use meaning::group_played;

}

/// How many of the first `n` functions have a body of their own.
pub open spec fn own_bodies(inputs: Seq<FunctionInput>, n: int) -> nat
    decreases n,
{
    if n <= 0 {
        0
    } else {
        own_bodies(inputs, n - 1) + (if inputs[n - 1].is_stub {
            0nat
        } else {
            1nat
        })
    }
}

/// If all functions of a module can be translated, each one with a body of its own is there, under
/// its name and in the order of the module, and there are no others.
pub proof fn every_function_is_translated(inputs: Seq<FunctionInput>, n: int)
    requires
        0 <= n <= inputs.len(),
        functions_translated(inputs, n) is Ok,
    ensures
        ({
            let made = functions_translated(inputs, n)->Ok_0;
            &&& made.len() == own_bodies(inputs, n)
            &&& forall|i: int|
                0 <= i < n && !(#[trigger] inputs[i]).is_stub ==> {
                    let k = own_bodies(inputs, i);
                    &&& k < made.len()
                    &&& made[k as int].0 == inputs[i].name
                    &&& inputs[i].translated().1 is Ok
                    &&& made[k as int].1 == inputs[i].translated().0
                }
        }),
    decreases n,
{
    if n > 0 {
        every_function_is_translated(inputs, n - 1);
        let before = functions_translated(inputs, n - 1)->Ok_0;
        let made = functions_translated(inputs, n)->Ok_0;
        assert forall|i: int| 0 <= i < n && !(#[trigger] inputs[i]).is_stub implies {
            let k = own_bodies(inputs, i);
            &&& k < made.len()
            &&& made[k as int].0 == inputs[i].name
            &&& inputs[i].translated().1 is Ok
            &&& made[k as int].1 == inputs[i].translated().0
        } by {
            if i < n - 1 {
                let k = own_bodies(inputs, i);
                assert(k < before.len());
                assert(made[k as int] == before[k as int]);
            }
        }
    }
}

} // verus!

//! How the strategies fit the signatures, and what calls without a pointer give.
use vstd::prelude::*;
use crate::types::ScalarType;
use crate::wasm::builder::Built;
use crate::wasm::flow::{given_patterns_are_had, is_fresh};
use crate::wasm::ir::{Event, Value};
use crate::wasm::meaning::{self, only_defines, played, Call, Flow, World};
use crate::wasm::miden_abi::signature::Entry;
use crate::wasm::miden_abi::transform::{
    blake3_strategy, called, falcon_strategy, memory_strategy, rpo_strategy, sha256_strategy,
    ImportedFunction, TransformStrategy,
};
use crate::wasm::miden_abi::{blake3, mem, rpo, rpo_falcon512, sha256};

verus! {

/// The strategy that a function with these results needs: more than one value can only be had
/// through a pointer.
pub open spec fn needed(results: Seq<ScalarType>) -> TransformStrategy {
    if results.len() > 1 {
        TransformStrategy::ReturnViaPointer
    } else {
        TransformStrategy::NoTransform
    }
}

/// The functions of the table, and no others, have a strategy, and it is the one that they need.
pub open spec fn fit(
    table: Seq<Entry>,
    strategy: spec_fn(Seq<char>) -> Option<TransformStrategy>,
) -> bool {
    &&& forall|i: int|
        0 <= i < table.len() ==> strategy((#[trigger] table[i]).name) == Some(
            needed(table[i].results),
        )
    &&& forall|name: Seq<char>|
        #[trigger] strategy(name) is Some ==> exists|i: int|
            0 <= i < table.len() && (#[trigger] table[i]).name == name
}

/// In the modules of the standard library whose signatures are known, exactly the functions with a
/// signature can be called. One with several results is called with a pointer to where they are
/// wanted, any other is called as it is.
pub proof fn strategies_fit_signatures()
    ensures
        fit(mem::table(), |name: Seq<char>| memory_strategy(name)),
        fit(blake3::table(), |name: Seq<char>| blake3_strategy(name)),
        fit(sha256::table(), |name: Seq<char>| sha256_strategy(name)),
        fit(rpo::table(), |name: Seq<char>| rpo_strategy(name)),
        fit(rpo_falcon512::table(), |name: Seq<char>| falcon_strategy(name)),
{
    reveal_strlit("pipe_words_to_memory");
    reveal_strlit("pipe_double_words_to_memory");
    reveal_strlit("pipe_preimage_to_memory");
    assert("pipe_preimage_to_memory"@.len() != "pipe_words_to_memory"@.len());
    assert("pipe_preimage_to_memory"@.len() != "pipe_double_words_to_memory"@.len());
    let m = mem::table();
    assert forall|name: Seq<char>| memory_strategy(name) is Some implies exists|i: int|
        0 <= i < m.len() && (#[trigger] m[i]).name == name by {
        assert(m[0].name == name || m[1].name == name || m[2].name == name);
    }
    let b = blake3::table();
    assert forall|name: Seq<char>| blake3_strategy(name) is Some implies exists|i: int|
        0 <= i < b.len() && (#[trigger] b[i]).name == name by {
        assert(b[0].name == name || b[1].name == name);
    }
    let s = sha256::table();
    assert forall|name: Seq<char>| sha256_strategy(name) is Some implies exists|i: int|
        0 <= i < s.len() && (#[trigger] s[i]).name == name by {
        assert(s[0].name == name || s[1].name == name);
    }
    let r = rpo::table();
    assert forall|name: Seq<char>| rpo_strategy(name) is Some implies exists|i: int|
        0 <= i < r.len() && (#[trigger] r[i]).name == name by {
        assert(r[0].name == name || r[1].name == name);
    }
    let f = rpo_falcon512::table();
    assert forall|name: Seq<char>| falcon_strategy(name) is Some implies exists|i: int|
        0 <= i < f.len() && (#[trigger] f[i]).name == name by {
        assert(f[0].name == name);
    }
}

/// A call passes the patterns of the arguments in their order, and the values that are handed back
/// are what the function returns, in its order. Of a list, the first is kept, which is its length.
pub proof fn calls_give_what_is_returned(
    b: Built,
    import: &ImportedFunction,
    args: Seq<Value>,
    w: World,
)
    requires
        b.next + import.results@.len() <= u32::MAX,
    ensures
        ({
            let (after, results) = called(b, import, args);
            let call = Call { name: import.name, callee: None, args: w.all(args) };
            let calls = w.calls.push(call);
            let (answers, memory) = (w.host)(calls, w.memory);
            &&& results.len() == import.results@.len()
            &&& played(after.log, b.log.len(), after.blocks, Flow::Falls(w)) matches Flow::Falls(done)
                && only_defines(World { calls, memory, ..w }, done, b.next) && forall|i: int|
                0 <= i < results.len() ==> #[trigger] done.all(results)[i] == answers(i)
        }),
{
    broadcast use meaning::group_played;

    let (after, results) = called(b, import, args);
    let call = Call { name: import.name, callee: None, args: w.all(args) };
    let calls = w.calls.push(call);
    let (answers, memory) = (w.host)(calls, w.memory);
    assert(is_fresh(results, b.next));
    let xs = Seq::new(results.len(), |i: int| answers(i));
    given_patterns_are_had(World { calls, memory, ..w }, results, xs, b.next);
    let b1 = b.step(Event::At(import.span), 0);
    assert(played(b1.log, b.log.len(), after.blocks, Flow::Falls(w)) == Flow::Falls(w));
    assert(played(after.log, b.log.len(), after.blocks, Flow::Falls(w)) == Flow::Falls(
        w.called(call, results),
    ));
}

} // verus!

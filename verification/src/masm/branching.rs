//! What is on the stack when a branch is taken, and how rearrangements of the stack undo each other.
use vstd::prelude::*;
use crate::masm::artifact::RuntimePaths;
use crate::masm::lowering::{can_schedule, schedule_code, scheduled, Constraint};
use crate::masm::machine;
use crate::masm::realize;
use crate::masm::stack::{self, Operand, ValueRef};
use crate::symbol::Interner;

verus! {

/// The code that puts a condition on top leaves the elements of the condition on top. If the
/// condition is used later the stack below is as before; otherwise it lacks the condition and
/// nothing else.
pub proof fn conditions_are_put_on_top(
    s: Seq<Operand>,
    condition: ValueRef,
    constraint: Constraint,
    v: spec_fn(Operand) -> Seq<int>,
    rest: Seq<int>,
)
    requires
        machine::is_valuation(v),
        can_schedule(s, condition, constraint),
    ensures
        ({
            let held = Operand::Value(condition);
            let below = match constraint {
                Constraint::Copy => s,
                Constraint::Move => s.remove(s.index_of_first(held)->0),
            };
            &&& machine::run(
                schedule_code(s, condition, constraint),
                machine::flat(s, v) + rest,
            ) == v(held) + machine::flat(below, v) + rest
            &&& scheduled(s, condition, constraint) == seq![held] + below
        }),
{
    let held = Operand::Value(condition);
    s.index_of_first_ensures(held);
    let at = s.index_of_first(held)->0;
    let below = match constraint {
        Constraint::Copy => s,
        Constraint::Move => s.remove(at),
    };
    assert(s[at] == held);
    machine::flat_of_sum(seq![held], below, v);
    machine::flat_of_one(held, v);
    match constraint {
        Constraint::Copy => {
            realize::dup_is_realized(s, at, v, rest);
        },
        Constraint::Move => {
            if at == 0 {
                assert(seq![held] + below =~= s);
            } else if at == 1 {
                realize::swap_is_realized(s, 1, v, rest);
                assert(stack::swapped(s, 1) =~= seq![held] + below);
            } else {
                realize::movup_is_realized(s, at, v, rest);
            }
        },
    }
}

/// An operand that is moved up and down again is where it was, two operands that are exchanged twice
/// are in their places, and a copy that is dropped leaves the stack as it was.
pub proof fn rearrangements_undo_each_other(s: Seq<Operand>, i: int)
    requires
        0 <= i < s.len(),
    ensures
        stack::moved_down(stack::moved_up(s, i), i) == s,
        stack::moved_up(stack::moved_down(s, i), i) == s,
        stack::swapped(stack::swapped(s, i), i) == s,
        stack::duplicated(s, i).skip(1) == s,
        stack::moved_up(s, i)[0] == s[i],
        stack::moved_down(s, i)[i] == s[0],
        stack::swapped(s, i)[0] == s[i],
        stack::duplicated(s, i)[0] == s[i],
{
    assert(stack::moved_down(stack::moved_up(s, i), i) =~= s);
    assert(stack::moved_up(stack::moved_down(s, i), i) =~= s);
    assert(stack::swapped(stack::swapped(s, i), i) =~= s);
    assert(stack::duplicated(s, i).skip(1) =~= s);
}

/// The procedures of the core library that generated code uses have different names.
pub proof fn runtime_paths_differ(paths: RuntimePaths, interner: &Interner)
    requires
        paths.known(interner),
    ensures
        paths.heap_init != paths.pipe_preimage_to_memory,
        paths.heap_init != paths.pipe_words_to_memory,
        paths.heap_init != paths.truncate_stack,
        paths.pipe_preimage_to_memory != paths.pipe_words_to_memory,
        paths.pipe_preimage_to_memory != paths.truncate_stack,
        paths.pipe_words_to_memory != paths.truncate_stack,
{
    reveal_strlit("::intrinsics::mem::heap_init");
    reveal_strlit("::miden::core::mem::pipe_preimage_to_memory");
    reveal_strlit("::miden::core::mem::pipe_words_to_memory");
    reveal_strlit("::miden::core::sys::truncate_stack");
    assert("::intrinsics::mem::heap_init"@.len() == 28);
    assert("::miden::core::mem::pipe_preimage_to_memory"@.len() == 43);
    assert("::miden::core::mem::pipe_words_to_memory"@.len() == 40);
    assert("::miden::core::sys::truncate_stack"@.len() == 34);
}

} // verus!

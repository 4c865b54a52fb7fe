//! Actions on the operand stack, and the construction of a sequence of them.
use vstd::prelude::*;
use crate::operands::operand_set::ValueOrAlias;

verus! {

/// What the code generator is to do with an operand.
#[derive(Clone, Copy, PartialEq, Eq, Debug, Structural)]
pub enum Action {
    /// Copy the operand at the given index to the top of the stack
    Copy(u8),
    /// Swap the operand at the given index with the one on top of the stack
    Swap(u8),
    /// Move the operand at the given index to the top of the stack
    MoveUp(u8),
    /// Move the operand at the top of the stack to the given index
    MoveDown(u8),
}

/// `s` with its top and item `i` exchanged.
pub open spec fn exchanged<T>(s: Seq<T>, i: int) -> Seq<T> {
    s.update(0, s[i]).update(i, s[0])
}

/// `s` with item `i` moved to the top.
pub open spec fn raised<T>(s: Seq<T>, i: int) -> Seq<T> {
    seq![s[i]] + s.take(i) + s.skip(i + 1)
}

/// `s` with its top moved to position `i`.
pub open spec fn lowered<T>(s: Seq<T>, i: int) -> Seq<T> {
    s.subrange(1, i + 1) + seq![s[0]] + s.skip(i + 1)
}

/// What an action makes of a stack.
pub open spec fn act<T>(s: Seq<T>, action: Action) -> Seq<T> {
    match action {
        Action::Copy(i) => seq![s[i as int]] + s,
        Action::Swap(i) => exchanged(s, i as int),
        Action::MoveUp(i) => raised(s, i as int),
        Action::MoveDown(i) => lowered(s, i as int),
    }
}

/// What a sequence of actions makes of a stack.
pub open spec fn act_all<T>(s: Seq<T>, actions: Seq<Action>) -> Seq<T>
    decreases actions.len(),
{
    if actions.len() == 0 {
        s
    } else {
        act(act_all(s, actions.drop_last()), actions.last())
    }
}

/// The values of which the items of `s` are copies.
pub open spec fn values(s: Seq<ValueOrAlias>) -> Seq<u32> {
    s.map_values(|v: ValueOrAlias| v.value)
}

/// The construction of a solution: the operands that are expected, the state of the stack, and
/// the actions that led to it. Position 0 is the top of the stack.
pub struct SolutionBuilder {
    expected: Vec<ValueOrAlias>,
    pending: Vec<ValueOrAlias>,
    actions: Vec<Action>,
}

impl SolutionBuilder {
    /// The operands that are expected on top of the stack, the topmost first.
    pub closed spec fn goal(&self) -> Seq<ValueOrAlias> {
        self.expected@
    }

    /// The stack, the topmost operand first.
    pub closed spec fn stack(&self) -> Seq<ValueOrAlias> {
        self.pending@.reverse()
    }

    /// The actions taken so far.
    pub closed spec fn taken(&self) -> Seq<Action> {
        self.actions@
    }

    /// Every position of the stack and of the goal can be written in 8 bits.
    pub open spec fn wf(&self) -> bool {
        self.stack().len() <= 255 && self.goal().len() <= 255
    }

    /// `after` came out of `self` by the actions that were taken in between.
    pub open spec fn led_to(&self, after: &SolutionBuilder) -> bool {
        let n = self.taken().len() as int;
        &&& after.goal() == self.goal()
        &&& n <= after.taken().len()
        &&& after.taken().take(n) == self.taken()
        &&& values(after.stack()) == act_all(values(self.stack()), after.taken().skip(n))
    }

    /// The expected operands are on top of the stack, in order.
    pub open spec fn solved(&self) -> bool {
        self.goal().is_prefix_of(self.stack())
    }

    /// A construction without actions. Both `expected` and `stack` have their topmost operand
    /// first.
    pub fn new(expected: Vec<ValueOrAlias>, stack: &Vec<ValueOrAlias>) -> (builder: SolutionBuilder)
        ensures
            builder.goal() == expected@,
            builder.stack() == stack@,
            builder.taken() == Seq::<Action>::empty(),
    {
        let mut pending: Vec<ValueOrAlias> = Vec::new();
        let mut i: usize = stack.len();
        while i > 0
            invariant
                i <= stack@.len(),
                pending@.len() == stack@.len() - i,
                forall|j: int|
                    0 <= j < pending@.len() ==> pending@[j] == stack@[stack@.len() - 1 - j],
            decreases i,
        {
            i = i - 1;
            pending.push(stack[i]);
        }
        assert(pending@.reverse() == stack@);
        SolutionBuilder { expected, pending, actions: Vec::new() }
    }

    /// The actions taken so far.
    pub fn actions(&self) -> (actions: &Vec<Action>)
        ensures
            actions@ == self.taken(),
    {
        &self.actions
    }

    /// How many operands are on the stack.
    pub fn stack_len(&self) -> (n: usize)
        ensures
            n == self.stack().len(),
    {
        self.pending.len()
    }

    /// How many operands are expected.
    pub fn num_expected(&self) -> (n: usize)
        ensures
            n == self.goal().len(),
    {
        self.expected.len()
    }

    /// The operand that is expected at position `i`.
    pub fn unwrap_expected(&self, i: u8) -> (value: ValueOrAlias)
        requires
            i < self.goal().len(),
        ensures
            value == self.goal()[i as int],
    {
        self.expected[i as usize]
    }

    /// The operand at position `i` of the stack.
    pub fn unwrap_current(&self, i: u8) -> (value: ValueOrAlias)
        requires
            i < self.stack().len(),
        ensures
            value == self.stack()[i as int],
    {
        self.pending[self.pending.len() - 1 - i as usize]
    }

    /// The uppermost position of `value` on the stack.
    pub fn get_current_position(&self, value: &ValueOrAlias) -> (found: Option<u8>)
        requires
            self.wf(),
        ensures
            match found {
                Some(i) => i < self.stack().len() && self.stack()[i as int] == *value && forall|j: int|
                    0 <= j < i ==> self.stack()[j] != *value,
                None => !self.stack().contains(*value),
            },
    {
        let mut i: usize = 0;
        while i < self.pending.len()
            invariant
                self.wf(),
                i <= self.stack().len(),
                self.stack().len() == self.pending@.len(),
                forall|j: int| 0 <= j < i ==> self.stack()[j] != *value,
            decreases self.stack().len() - i,
        {
            if self.unwrap_current(i as u8) == *value {
                return Some(i as u8);
            }
            i = i + 1;
        }
        None
    }

    /// The uppermost position of `value` on the stack.
    pub fn unwrap_current_position(&self, value: &ValueOrAlias) -> (i: u8)
        requires
            self.wf(),
            self.stack().contains(*value),
        ensures
            i < self.stack().len(),
            self.stack()[i as int] == *value,
            forall|j: int| 0 <= j < i ==> self.stack()[j] != *value,
    {
        match self.get_current_position(value) {
            Some(i) => i,
            None => 0,
        }
    }

    /// The uppermost position at which `value` is expected.
    pub fn get_expected_position(&self, value: &ValueOrAlias) -> (found: Option<u8>)
        requires
            self.wf(),
        ensures
            match found {
                Some(i) => i < self.goal().len() && self.goal()[i as int] == *value && forall|j: int|
                    0 <= j < i ==> self.goal()[j] != *value,
                None => !self.goal().contains(*value),
            },
    {
        let mut i: usize = 0;
        while i < self.expected.len()
            invariant
                self.wf(),
                i <= self.goal().len(),
                forall|j: int| 0 <= j < i ==> self.goal()[j] != *value,
            decreases self.goal().len() - i,
        {
            if self.expected[i] == *value {
                return Some(i as u8);
            }
            i = i + 1;
        }
        None
    }

    /// Puts the copy `alias` of the operand at position `i` on top.
    pub fn dup(&mut self, i: u8, alias: u8)
        requires
            old(self).wf(),
            i < old(self).stack().len(),
            old(self).stack().len() < 255,
        ensures
            final(self).wf(),
            final(self).goal() == old(self).goal(),
            final(self).stack() == seq![
                (ValueOrAlias { value: old(self).stack()[i as int].value, alias }),
            ] + old(self).stack(),
            final(self).taken() == old(self).taken().push(Action::Copy(i)),
            old(self).led_to(&*final(self)),
    {
        let value = self.unwrap_current(i).value;
        self.pending.push(ValueOrAlias { value, alias });
        self.actions.push(Action::Copy(i));
        assert(self.stack() == seq![(ValueOrAlias { value, alias })] + old(self).stack());
        proof {
            assert(values(self.stack()) == act(values(old(self).stack()), Action::Copy(i)));
            one_action(*old(self), *self, Action::Copy(i));
        }
    }

    /// Exchanges the top of the stack and the operand at position `i`.
    pub fn swap(&mut self, i: u8)
        requires
            old(self).wf(),
            0 < i < old(self).stack().len(),
        ensures
            final(self).wf(),
            final(self).goal() == old(self).goal(),
            final(self).stack() == exchanged(old(self).stack(), i as int),
            final(self).taken() == old(self).taken().push(Action::Swap(i)),
            old(self).led_to(&*final(self)),
    {
        let last: usize = self.pending.len() - 1;
        let top = self.unwrap_current(0);
        let other = self.unwrap_current(i);
        self.pending.set(last, other);
        self.pending.set(last - i as usize, top);
        self.actions.push(Action::Swap(i));
        assert(self.stack() == exchanged(old(self).stack(), i as int));
        proof {
            assert(values(self.stack()) == act(values(old(self).stack()), Action::Swap(i)));
            one_action(*old(self), *self, Action::Swap(i));
        }
    }

    /// Moves the operand at position `i` to the top.
    pub fn movup(&mut self, i: u8)
        requires
            old(self).wf(),
            i < old(self).stack().len(),
        ensures
            final(self).wf(),
            final(self).goal() == old(self).goal(),
            final(self).stack() == raised(old(self).stack(), i as int),
            final(self).taken() == old(self).taken().push(Action::MoveUp(i)),
            old(self).led_to(&*final(self)),
    {
        let at: usize = self.pending.len() - 1 - i as usize;
        let value = self.pending.remove(at);
        self.pending.push(value);
        self.actions.push(Action::MoveUp(i));
        assert(self.stack() == raised(old(self).stack(), i as int));
        proof {
            assert(values(self.stack()) == act(values(old(self).stack()), Action::MoveUp(i)));
            one_action(*old(self), *self, Action::MoveUp(i));
        }
    }

    /// Moves the top of the stack to position `i`.
    pub fn movdn(&mut self, i: u8)
        requires
            old(self).wf(),
            i < old(self).stack().len(),
        ensures
            final(self).wf(),
            final(self).goal() == old(self).goal(),
            final(self).stack() == lowered(old(self).stack(), i as int),
            final(self).taken() == old(self).taken().push(Action::MoveDown(i)),
            old(self).led_to(&*final(self)),
    {
        let at: usize = self.pending.len() - 1 - i as usize;
        let top = self.unwrap_current(0);
        let _ = self.pending.pop();
        self.pending.insert(at, top);
        self.actions.push(Action::MoveDown(i));
        assert(self.stack() == lowered(old(self).stack(), i as int));
        proof {
            assert(values(self.stack()) == act(values(old(self).stack()), Action::MoveDown(i)));
            one_action(*old(self), *self, Action::MoveDown(i));
        }
    }

    /// Whether the expected operands are on top of the stack, in order.
    pub fn is_valid(&self) -> (valid: bool)
        requires
            self.wf(),
        ensures
            valid == self.solved(),
    {
        if self.expected.len() > self.pending.len() {
            return false;
        }
        let mut i: usize = 0;
        while i < self.expected.len()
            invariant
                self.wf(),
                i <= self.goal().len() <= self.stack().len(),
                self.goal().len() == self.expected@.len(),
                forall|j: int| 0 <= j < i ==> self.goal()[j] == self.stack()[j],
            decreases self.goal().len() - i,
        {
            if self.expected[i] != self.unwrap_current(i as u8) {
                assert(self.goal()[i as int] != self.stack()[i as int]);
                return false;
            }
            i = i + 1;
        }
        assert(self.goal() == self.stack().subrange(0, self.goal().len() as int));
        true
    }
}

/// One action is a sequence of one action.
proof fn one_action(before: SolutionBuilder, after: SolutionBuilder, action: Action)
    requires
        after.goal() == before.goal(),
        after.taken() == before.taken().push(action),
        values(after.stack()) == act(values(before.stack()), action),
    ensures
        before.led_to(&after),
{
    let n = before.taken().len() as int;
    let part = after.taken().skip(n);
    assert(after.taken().take(n) == before.taken());
    assert(part == seq![action]);
    reveal_with_fuel(act_all, 2);
    assert(part.drop_last() == Seq::<Action>::empty());
}

/// Sequences of actions can be joined.
pub proof fn act_all_join<T>(s: Seq<T>, a: Seq<Action>, b: Seq<Action>)
    ensures
        act_all(s, a + b) == act_all(act_all(s, a), b),
    decreases b.len(),
{
    if b.len() == 0 {
        assert(a + b == a);
    } else {
        assert((a + b).drop_last() == a + b.drop_last());
        act_all_join(s, a, b.drop_last());
    }
}

/// What came out of what came out of a construction came out of it.
pub proof fn led_to_join(a: SolutionBuilder, b: SolutionBuilder, c: SolutionBuilder)
    requires
        a.led_to(&b),
        b.led_to(&c),
    ensures
        a.led_to(&c),
{
    let n = a.taken().len() as int;
    let m = b.taken().len() as int;
    assert(c.taken().take(n) == c.taken().take(m).take(n));
    assert(c.taken().skip(n) == b.taken().skip(n) + c.taken().skip(m)) by {
        assert(c.taken() == c.taken().take(m) + c.taken().skip(m));
    }
    act_all_join(values(a.stack()), b.taken().skip(n), c.taken().skip(m));
}

/// A construction comes out of itself.
pub proof fn led_to_self(a: SolutionBuilder)
    ensures
        a.led_to(&a),
{
    let n = a.taken().len() as int;
    assert(a.taken().take(n) == a.taken());
    assert(a.taken().skip(n) == Seq::<Action>::empty());
}

} // verus!

//! The operand stack of the target machine, as it is emulated at compile time.
use vstd::prelude::*;
use crate::types::{Immediate, ScalarType};

verus! {

/// A value of the intermediate representation, with the number of field elements it takes.
#[derive(Clone, Copy, PartialEq, Eq, Debug, Hash, Structural)]
pub struct ValueRef {
    pub id: u32,
    pub size: u8,
}

/// What is known of an item of the operand stack: the constant it is, the value it holds, or
/// only its type.
#[derive(Clone, Copy, PartialEq, Eq, Debug, Hash, Structural)]
pub enum Operand {
    Const(Immediate),
    Value(ValueRef),
    Typed(ScalarType),
}

impl Operand {
    /// How many field elements the operand takes.
    pub open spec fn felts(self) -> nat {
        match self {
            Operand::Const(imm) => imm.type_of().felts(),
            Operand::Value(value) => value.size as nat,
            Operand::Typed(ty) => ty.felts(),
        }
    }

    /// How many field elements the operand takes.
    pub fn size(&self) -> (n: usize)
        ensures
            n == self.felts(),
            n <= 255,
    {
        match self {
            Operand::Const(imm) => imm.ty().size_in_felts(),
            Operand::Value(value) => value.size as usize,
            Operand::Typed(ty) => ty.size_in_felts(),
        }
    }
}

/// How many field elements the operands of `s` take together.
pub open spec fn felts(s: Seq<Operand>) -> nat
    decreases s.len(),
{
    if s.len() == 0 {
        0
    } else {
        s[0].felts() + felts(s.drop_first())
    }
}

/// Where the first field element of operand `i` is, counted from the top.
pub open spec fn offset(s: Seq<Operand>, i: int) -> nat {
    felts(s.take(i))
}

/// `s` with a copy of operand `i` on top.
pub open spec fn duplicated(s: Seq<Operand>, i: int) -> Seq<Operand> {
    seq![s[i]] + s
}

/// `s` with operand `i` moved to the top.
pub open spec fn moved_up(s: Seq<Operand>, i: int) -> Seq<Operand> {
    seq![s[i]] + s.remove(i)
}

/// `s` with the top operand moved to position `i`.
pub open spec fn moved_down(s: Seq<Operand>, i: int) -> Seq<Operand> {
    s.subrange(1, i + 1) + seq![s[0]] + s.skip(i + 1)
}

/// `s` with the top operand and operand `i` exchanged.
pub open spec fn swapped(s: Seq<Operand>, i: int) -> Seq<Operand> {
    s.update(0, s[i]).update(i, s[0])
}

/// The size of two stacks on top of each other.
pub proof fn felts_of_sum(a: Seq<Operand>, b: Seq<Operand>)
    ensures
        felts(a + b) == felts(a) + felts(b),
    decreases a.len(),
{
    if a.len() == 0 {
        assert(a + b == b);
    } else {
        assert((a + b).drop_first() == a.drop_first() + b);
        felts_of_sum(a.drop_first(), b);
    }
}

/// The operands down to and with operand `i` take what is above it and the operand itself.
pub proof fn offset_step(s: Seq<Operand>, i: int)
    requires
        0 <= i < s.len(),
    ensures
        offset(s, i + 1) == offset(s, i) + s[i].felts(),
{
    assert(s.take(i + 1) == s.take(i) + seq![s[i]]);
    felts_of_sum(s.take(i), seq![s[i]]);
    reveal_with_fuel(felts, 2);
}

/// A part of a stack takes no more than the whole.
pub proof fn offset_is_monotonic(s: Seq<Operand>, i: int, j: int)
    requires
        0 <= i <= j <= s.len(),
    ensures
        offset(s, i) <= offset(s, j) <= felts(s),
{
    assert(s.take(j) == s.take(i) + s.subrange(i, j));
    felts_of_sum(s.take(i), s.subrange(i, j));
    assert(s == s.take(j) + s.skip(j));
    felts_of_sum(s.take(j), s.skip(j));
}

/// The emulated operand stack. Position 0 is its top.
pub struct OperandStack {
    operands: Vec<Operand>,
}

impl View for OperandStack {
    type V = Seq<Operand>;

    closed spec fn view(&self) -> Seq<Operand> {
        self.operands@.reverse()
    }
}

impl OperandStack {
    /// A stack that holds nothing.
    pub fn new() -> (stack: OperandStack)
        ensures
            stack@ == Seq::<Operand>::empty(),
    {
        OperandStack { operands: Vec::new() }
    }

    /// How many operands the stack holds.
    pub fn len(&self) -> (n: usize)
        ensures
            n == self@.len(),
    {
        self.operands.len()
    }

    /// The operand at position `i`.
    pub fn get(&self, i: usize) -> (operand: Operand)
        requires
            i < self@.len(),
        ensures
            operand == self@[i as int],
    {
        self.operands[self.operands.len() - 1 - i]
    }

    /// The top operand.
    pub fn peek(&self) -> (operand: Option<Operand>)
        ensures
            operand == (if self@.len() == 0 { None } else { Some(self@[0]) }),
    {
        if self.operands.len() == 0 {
            None
        } else {
            Some(self.get(0))
        }
    }

    /// How many field elements are above operand `i`.
    pub fn effective_index(&self, i: usize) -> (n: usize)
        requires
            i <= self@.len(),
            offset(self@, i as int) <= usize::MAX,
        ensures
            n == offset(self@, i as int),
    {
        let mut n: usize = 0;
        let mut j: usize = 0;
        assert(self@.take(0) == Seq::<Operand>::empty());
        while j < i
            invariant
                j <= i <= self@.len(),
                n == offset(self@, j as int),
                offset(self@, i as int) <= usize::MAX,
            decreases i - j,
        {
            proof {
                offset_step(self@, j as int);
                offset_is_monotonic(self@, j + 1, i as int);
            }
            n = n + self.get(j).size();
            j = j + 1;
        }
        n
    }

    /// The position of the last field element of operand `i`.
    pub fn effective_index_inclusive(&self, i: usize) -> (n: usize)
        requires
            i < self@.len(),
            1 <= offset(self@, i + 1) <= usize::MAX,
        ensures
            n == offset(self@, i + 1) - 1,
    {
        let len: usize = self.len();
        assert(i < len);
        self.effective_index(i + 1) - 1
    }

    /// How many field elements the stack holds.
    pub fn raw_len(&self) -> (n: usize)
        requires
            felts(self@) <= usize::MAX,
        ensures
            n == felts(self@),
    {
        assert(self@.take(self@.len() as int) == self@);
        self.effective_index(self.operands.len())
    }

    /// The position of the uppermost operand that holds `value`.
    pub fn find(&self, value: &ValueRef) -> (found: Option<usize>)
        ensures
            match found {
                Some(i) => {
                    &&& i < self@.len()
                    &&& self@[i as int] == Operand::Value(*value)
                    &&& forall|j: int| 0 <= j < i ==> self@[j] != Operand::Value(*value)
                },
                None => !self@.contains(Operand::Value(*value)),
            },
    {
        let mut i: usize = 0;
        while i < self.operands.len()
            invariant
                i <= self@.len(),
                self@.len() == self.operands@.len(),
                forall|j: int| 0 <= j < i ==> self@[j] != Operand::Value(*value),
            decreases self@.len() - i,
        {
            if self.get(i) == Operand::Value(*value) {
                return Some(i);
            }
            i = i + 1;
        }
        None
    }

    /// Puts `operand` on top.
    pub fn push(&mut self, operand: Operand)
        ensures
            final(self)@ == seq![operand] + old(self)@,
    {
        self.operands.push(operand);
        assert(self@ == seq![operand] + old(self)@);
    }

    /// Takes the top operand off.
    pub fn pop(&mut self) -> (operand: Option<Operand>)
        ensures
            old(self)@.len() == 0 ==> operand is None && final(self)@ == old(self)@,
            old(self)@.len() > 0 ==> operand == Some(old(self)@[0]) && final(self)@
                == old(self)@.drop_first(),
    {
        let operand = self.operands.pop();
        assert(old(self)@.len() > 0 ==> self@ == old(self)@.drop_first());
        operand
    }

    /// Takes the top `n` operands off.
    pub fn dropn(&mut self, n: usize)
        requires
            n <= old(self)@.len(),
        ensures
            final(self)@ == old(self)@.skip(n as int),
    {
        let left: usize = self.operands.len() - n;
        self.operands.truncate(left);
        assert(self@ == old(self)@.skip(n as int));
    }

    /// Puts a copy of operand `i` on top.
    pub fn dup(&mut self, i: usize)
        requires
            i < old(self)@.len(),
        ensures
            final(self)@ == duplicated(old(self)@, i as int),
    {
        let operand = self.get(i);
        self.push(operand);
    }

    /// Moves operand `i` to the top.
    pub fn movup(&mut self, i: usize)
        requires
            i < old(self)@.len(),
        ensures
            final(self)@ == moved_up(old(self)@, i as int),
    {
        let at: usize = self.operands.len() - 1 - i;
        let operand = self.operands.remove(at);
        self.operands.push(operand);
        assert(self@ == moved_up(old(self)@, i as int));
    }

    /// Moves the top operand to position `i`.
    pub fn movdn(&mut self, i: usize)
        requires
            i < old(self)@.len(),
        ensures
            final(self)@ == moved_down(old(self)@, i as int),
    {
        let at: usize = self.operands.len() - 1 - i;
        let top = self.get(0);
        let _ = self.operands.pop();
        self.operands.insert(at, top);
        assert(self@ == moved_down(old(self)@, i as int));
    }

    /// Exchanges the top operand and operand `i`.
    pub fn swap(&mut self, i: usize)
        requires
            i < old(self)@.len(),
        ensures
            final(self)@ == swapped(old(self)@, i as int),
    {
        let last: usize = self.operands.len() - 1;
        let top = self.get(0);
        let other = self.get(i);
        self.operands.set(last, other);
        self.operands.set(last - i, top);
        assert(self@ == swapped(old(self)@, i as int));
    }

    /// Makes operand `i` the one that holds `value`.
    pub fn rename(&mut self, i: usize, value: ValueRef)
        requires
            i < old(self)@.len(),
        ensures
            final(self)@ == old(self)@.update(i as int, Operand::Value(value)),
    {
        let at: usize = self.operands.len() - 1 - i;
        self.operands.set(at, Operand::Value(value));
        assert(self@ == old(self)@.update(i as int, Operand::Value(value)));
    }
}

} // verus!

//! Operands of the solver, and ordered sets of them.
use vstd::prelude::*;

verus! {

/// A value, or one of the copies that are made of it. The value itself has alias 0.
#[derive(Clone, Copy, PartialEq, Eq, Debug, Hash, Structural)]
pub struct ValueOrAlias {
    pub value: u32,
    pub alias: u8,
}

impl ValueOrAlias {
    /// Whether this is a copy.
    pub fn is_alias(&self) -> (b: bool)
        ensures
            b == (self.alias != 0),
    {
        self.alias != 0
    }

    /// The value of which `self` is a copy, or `self`.
    pub open spec fn original(self) -> ValueOrAlias {
        ValueOrAlias { value: self.value, alias: 0 }
    }

    /// The value of which `self` is a copy, or `self`.
    pub fn unaliased(&self) -> (v: ValueOrAlias)
        ensures
            v == self.original(),
    {
        ValueOrAlias { value: self.value, alias: 0 }
    }
}

/// An item of the stack, with its position.
#[derive(Clone, Copy, PartialEq, Eq, Debug, Hash, Structural)]
pub struct Operand {
    pub pos: u8,
    pub value: ValueOrAlias,
}

impl Operand {
    /// The rank of the operand: operands are ordered by position, then value, then alias.
    pub open spec fn rank(self) -> int {
        self.pos * 0x100_0000_0000 + self.value.value * 0x100 + self.value.alias
    }

    /// The rank of the operand.
    pub fn key(&self) -> (key: u64)
        ensures
            key == self.rank(),
    {
        self.pos as u64 * 0x100_0000_0000 + self.value.value as u64 * 0x100 + self.value.alias as u64
    }
}

/// Different operands have different ranks.
pub proof fn rank_is_injective(a: Operand, b: Operand)
    ensures
        a.rank() == b.rank() <==> a == b,
{
}

/// An ordered set of operands.
pub struct OperandSet {
    items: Vec<Operand>,
}

impl View for OperandSet {
    type V = Set<Operand>;

    open spec fn view(&self) -> Set<Operand> {
        self.list().to_set()
    }
}

impl OperandSet {
    /// The operands, in ascending order.
    pub closed spec fn list(&self) -> Seq<Operand> {
        self.items@
    }

    /// The operands are strictly ascending.
    pub open spec fn wf(&self) -> bool {
        forall|i: int, j: int|
            0 <= i < j < self.list().len() ==> self.list()[i].rank() < self.list()[j].rank()
    }

    /// The set that holds nothing.
    pub fn new() -> (set: OperandSet)
        ensures
            set.wf(),
            set.list() == Seq::<Operand>::empty(),
            set@ == Set::<Operand>::empty(),
    {
        let set = OperandSet { items: Vec::new() };
        assert(set@ == Set::<Operand>::empty());
        set
    }

    /// How many operands the set holds.
    pub fn len(&self) -> (n: usize)
        ensures
            n == self.list().len(),
    {
        self.items.len()
    }

    /// The `i`th operand in ascending order.
    pub fn get(&self, i: usize) -> (operand: Operand)
        requires
            i < self.list().len(),
        ensures
            operand == self.list()[i as int],
            self@.contains(operand),
    {
        self.items[i]
    }

    /// How many operands come before `operand`.
    pub fn rank_of(&self, operand: Operand) -> (n: usize)
        requires
            self.wf(),
        ensures
            n <= self.list().len(),
            forall|i: int| 0 <= i < n ==> self.list()[i].rank() < operand.rank(),
            forall|i: int| n <= i < self.list().len() ==> self.list()[i].rank() >= operand.rank(),
            self@.contains(operand) <==> n < self.list().len() && self.list()[n as int] == operand,
    {
        let mut n: usize = 0;
        while n < self.items.len() && self.items[n].key() < operand.key()
            invariant
                n <= self.list().len(),
                self.wf(),
                forall|i: int| 0 <= i < n ==> self.list()[i].rank() < operand.rank(),
            decreases self.list().len() - n,
        {
            n = n + 1;
        }
        proof {
            if self@.contains(operand) {
                let i = choose|i: int| 0 <= i < self.list().len() && self.list()[i] == operand;
                assert(n <= i);
                rank_is_injective(self.list()[n as int], operand);
            }
        }
        n
    }

    /// Whether the set holds `operand`.
    pub fn contains(&self, operand: Operand) -> (b: bool)
        requires
            self.wf(),
        ensures
            b == self@.contains(operand),
    {
        let n: usize = self.rank_of(operand);
        n < self.items.len() && self.items[n] == operand
    }

    /// Adds `operand` to the set.
    pub fn insert(&mut self, operand: Operand) -> (added: bool)
        requires
            old(self).wf(),
        ensures
            final(self).wf(),
            final(self)@ == old(self)@.insert(operand),
            added == !old(self)@.contains(operand),
            !added ==> final(self).list() == old(self).list(),
    {
        let n: usize = self.rank_of(operand);
        if n < self.items.len() && self.items[n] == operand {
            assert(self@ == old(self)@.insert(operand));
            false
        } else {
            proof {
                if n < self.list().len() {
                    rank_is_injective(self.list()[n as int], operand);
                }
            }
            self.items.insert(n, operand);
            proof {
                let before = old(self).list();
                assert(self.list() == before.insert(n as int, operand));
                assert forall|x: Operand| #[trigger] self@.contains(x) == old(self)@.insert(
                    operand,
                ).contains(x) by {
                    if before.contains(x) {
                        let i = choose|i: int| 0 <= i < before.len() && before[i] == x;
                        let k = if i < n { i } else { i + 1 };
                        assert(self.list()[k] == x);
                    }
                    assert(self.list()[n as int] == operand);
                    if self.list().contains(x) {
                        let i = choose|i: int| 0 <= i < self.list().len() && self.list()[i] == x;
                        if i < n {
                            assert(before[i] == x);
                        } else if i > n {
                            assert(before[i - 1] == x);
                        }
                    }
                }
                assert(self@ == old(self)@.insert(operand));
            }
            true
        }
    }

    /// The operands, in ascending order.
    pub fn to_vec(&self) -> (items: Vec<Operand>)
        ensures
            items@ == self.list(),
    {
        let mut items: Vec<Operand> = Vec::new();
        let mut i: usize = 0;
        while i < self.items.len()
            invariant
                i <= self.list().len(),
                items@ == self.list().take(i as int),
            decreases self.list().len() - i,
        {
            items.push(self.items[i]);
            i = i + 1;
        }
        assert(self.list().take(self.list().len() as int) == self.list());
        items
    }
}

/// An ordered set holds nothing twice, and as many operands as its list.
pub proof fn set_list(set: OperandSet)
    requires
        set.wf(),
    ensures
        set.list().no_duplicates(),
        set@.finite(),
        set@.len() == set.list().len(),
{
    assert forall|i: int, j: int| 0 <= i < set.list().len() && 0 <= j < set.list().len() && i != j
        implies set.list()[i] != set.list()[j] by {
        if i < j {
            assert(set.list()[i].rank() < set.list()[j].rank());
        } else {
            assert(set.list()[j].rank() < set.list()[i].rank());
        }
    }
    set.list().unique_seq_to_set();
}

} // verus!

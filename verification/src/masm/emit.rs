//! Emission of Miden Assembly, with the operand stack kept in step.
use vstd::prelude::*;
use crate::masm::inst::{
    self, dup_from_offset, movdn_from_offset, movup_from_offset, swap_from_offset, Instruction,
    InvocationTarget, Invoke, InvokeKind, Op, PushValue, TraceEvent,
};
use crate::masm::stack::{self, Operand, OperandStack};
use crate::span::SourceSpan;
use crate::types::Immediate;

verus! {

/// The procedures that some code invokes. None of them is held twice.
pub struct InvokeSet {
    items: Vec<Invoke>,
}

impl View for InvokeSet {
    type V = Set<Invoke>;

    closed spec fn view(&self) -> Set<Invoke> {
        self.items@.to_set()
    }
}

impl InvokeSet {
    /// No invocation is held twice.
    pub closed spec fn wf(&self) -> bool {
        self.items@.no_duplicates()
    }

    /// The set that holds nothing.
    pub fn new() -> (set: InvokeSet)
        ensures
            set.wf(),
            set@ == Set::<Invoke>::empty(),
    {
        let set = InvokeSet { items: Vec::new() };
        assert(set@ == Set::<Invoke>::empty());
        set
    }

    /// Whether the set holds `invoke`.
    pub fn contains(&self, invoke: Invoke) -> (found: bool)
        ensures
            found == self@.contains(invoke),
    {
        let mut i: usize = 0;
        while i < self.items.len()
            invariant
                i <= self.items@.len(),
                forall|j: int| 0 <= j < i ==> self.items@[j] != invoke,
            decreases self.items@.len() - i,
        {
            if self.items[i] == invoke {
                assert(self.items@[i as int] == invoke);
                return true;
            }
            i = i + 1;
        }
        false
    }

    /// How many invocations the set holds.
    pub fn len(&self) -> (n: usize)
        requires
            self.wf(),
        ensures
            n == self@.len(),
    {
        proof {
            self.items@.unique_seq_to_set();
        }
        self.items.len()
    }

    /// What the set holds, one by one.
    pub fn items(&self) -> (items: &Vec<Invoke>)
        ensures
            items@.to_set() == self@,
            self.wf() ==> items@.no_duplicates(),
    {
        &self.items
    }

    /// Adds `invoke` to the set.
    pub fn insert(&mut self, invoke: Invoke)
        requires
            old(self).wf(),
        ensures
            final(self).wf(),
            final(self)@ == old(self)@.insert(invoke),
    {
        if !self.contains(invoke) {
            self.items.push(invoke);
            proof {
                let before = old(self).items@;
                assert(self.items@ == before.push(invoke));
                assert(self@ == old(self)@.insert(invoke)) by {
                    assert forall|x: Invoke| self.items@.contains(x) == (before.contains(x) || x
                        == invoke) by {
                        if before.contains(x) {
                            let j = choose|j: int| 0 <= j < before.len() && before[j] == x;
                            assert(self.items@[j] == x);
                        }
                        assert(self.items@[before.len() as int] == invoke);
                    }
                }
            }
        } else {
            assert(self@ == old(self)@.insert(invoke));
        }
    }
}

/// `invoked` with what `inst` invokes.
pub open spec fn with_invocation(invoked: Set<Invoke>, inst: Instruction) -> Set<Invoke> {
    match inst::invocation(inst) {
        Some(invoke) => invoked.insert(invoke),
        None => invoked,
    }
}

/// `invoked` with what the instructions `insts` invoke.
pub open spec fn with_invocations(invoked: Set<Invoke>, insts: Seq<Instruction>) -> Set<Invoke>
    decreases insts.len(),
{
    if insts.len() == 0 {
        invoked
    } else {
        with_invocation(with_invocations(invoked, insts.drop_last()), insts.last())
    }
}

/// The instruction of a pair of a span and an instruction.
pub open spec fn instruction() -> spec_fn((SourceSpan, Instruction)) -> Instruction {
    |op: (SourceSpan, Instruction)| op.1
}

/// The operations of instructions that each have their own span.
pub open spec fn spanned(ops: Seq<(SourceSpan, Instruction)>) -> Seq<Op> {
    ops.map_values(|op: (SourceSpan, Instruction)| Op::Inst(op.0, op.1))
}

/// `n` times the same code.
pub open spec fn repeated(ops: Seq<Op>, n: nat) -> Seq<Op>
    decreases n,
{
    if n == 0 {
        Seq::empty()
    } else {
        repeated(ops, (n - 1) as nat) + ops
    }
}

/// The operations of the parts, one part after the other.
pub open spec fn joined<const N: usize>(parts: Seq<[(SourceSpan, Instruction); N]>) -> Seq<Op>
    decreases parts.len(),
{
    if parts.len() == 0 {
        Seq::empty()
    } else {
        joined(parts.drop_last()) + spanned(parts.last()@)
    }
}

/// The code that executes `callee` in a frame of its own.
pub open spec fn exec_code(callee: InvocationTarget) -> Seq<Instruction> {
    seq![
        Instruction::Trace(TraceEvent::FrameStart),
        Instruction::Nop,
        Instruction::Exec(callee),
        Instruction::Trace(TraceEvent::FrameEnd),
        Instruction::Nop,
    ]
}

/// The limbs of 32 bits of `value`, the lowest first.
pub open spec fn limbs(value: int, n: nat) -> Seq<int>
    decreases n,
{
    if n == 0 {
        Seq::empty()
    } else {
        seq![value % 0x1_0000_0000] + limbs(value / 0x1_0000_0000, (n - 1) as nat)
    }
}

/// The code that pushes field elements, one after the other.
pub open spec fn push_felts(values: Seq<int>) -> Seq<Instruction> {
    values.map_values(|value: int| Instruction::Push(PushValue::Felt(value as u64)))
}

/// The code that puts the constant `imm` on the stack. Constants of more than 32 bits are pushed
/// limb by limb, the lowest first.
pub open spec fn push_code(imm: Immediate) -> Seq<Instruction> {
    match imm {
        Immediate::I1(i) => seq![Instruction::Push(PushValue::U8(if i { 1 } else { 0 }))],
        Immediate::I8(i) => seq![Instruction::Push(PushValue::U8(i as u8))],
        Immediate::U8(i) => seq![Instruction::Push(PushValue::U8(i))],
        Immediate::U16(i) => seq![Instruction::Push(PushValue::U16(i))],
        Immediate::I16(i) => seq![Instruction::Push(PushValue::U16(i as u16))],
        Immediate::U32(i) => seq![Instruction::Push(PushValue::U32(i))],
        Immediate::I32(i) => seq![Instruction::Push(PushValue::U32(i as u32))],
        Immediate::U64(i) => push_felts(limbs(i as int, 2)),
        Immediate::I64(i) => push_felts(limbs(i as u64 as int, 2)),
        Immediate::U128(i) => push_felts(limbs(i as int, 4)),
        Immediate::I128(i) => push_felts(limbs(i as u128 as int, 4)),
        Immediate::Felt(i) => seq![Instruction::Push(PushValue::Felt(i))],
    }
}

/// The code that copies operand `i` of `s` to the top.
pub open spec fn dup_code(s: Seq<Operand>, i: int) -> Seq<Instruction> {
    inst::times(s[i].felts(), inst::dup_at(stack::offset(s, i + 1) - 1))
}

/// The code that moves operand `i` of `s` to the top.
pub open spec fn movup_code(s: Seq<Operand>, i: int) -> Seq<Instruction> {
    inst::times(s[i].felts(), inst::movup_at(stack::offset(s, i + 1) - 1))
}

/// The code that moves the top of `s` to position `i`.
pub open spec fn movdn_code(s: Seq<Operand>, i: int) -> Seq<Instruction> {
    inst::times(s[0].felts(), inst::movdn_at(stack::offset(s, i + 1) - 1))
}

/// The code that exchanges the top of `s` and operand `i`.
///
/// Two single elements are swapped. Otherwise the top is moved below operand `i`, and unless that
/// operand is then on top, it is moved up.
pub open spec fn swap_code(s: Seq<Operand>, i: int) -> Seq<Instruction> {
    let n = s[0].felts();
    let m = s[i].felts();
    let at = stack::offset(s, i);
    if n == 1 && m == 1 {
        seq![inst::swap_at(at as int)]
    } else if m == 1 && at == n {
        seq![inst::movup_at(at as int)]
    } else {
        inst::times(n, inst::movdn_at(at + m - 1)) + (if at == n {
            Seq::empty()
        } else if at - n + m - 1 == 1 {
            seq![Instruction::Swap1]
        } else {
            inst::times(m, inst::movup_at(at - n + m - 1))
        })
    }
}

/// The code that drops `n` elements: word by word as far as that goes.
pub open spec fn drop_code(n: nat) -> Seq<Instruction> {
    inst::times(n / 4, Instruction::DropW) + inst::times(n % 4, Instruction::Drop)
}

/// The code that drops one operand of `n` elements: a word at once, else element by element.
pub open spec fn drop_operand_code(n: nat) -> Seq<Instruction> {
    if n == 4 {
        seq![Instruction::DropW]
    } else {
        inst::times(n, Instruction::Drop)
    }
}

/// Every operand of `s` takes at least one element.
pub open spec fn solid(s: Seq<Operand>) -> bool {
    forall|i: int| 0 <= i < s.len() ==> #[trigger] s[i].felts() >= 1
}

/// The operand stack allows a copy of operand `i`: it is one of the first 16, and so are its
/// elements.
pub open spec fn can_dup(s: Seq<Operand>, i: int) -> bool {
    &&& 0 <= i < s.len()
    &&& i < 16
    &&& s[i].felts() >= 1
    &&& stack::offset(s, i + 1) <= 16
}

/// The operand stack allows operand `i` to be moved up: its elements are among the first 16, and
/// its last one is below the second.
pub open spec fn can_movup(s: Seq<Operand>, i: int) -> bool {
    &&& can_dup(s, i)
    &&& stack::offset(s, i + 1) >= 3
}

/// The operand stack allows its top to be moved to position `i`.
pub open spec fn can_movdn(s: Seq<Operand>, i: int) -> bool {
    &&& 0 <= i < s.len()
    &&& i < 16
    &&& 3 <= stack::offset(s, i + 1) <= 16
}

/// The operand stack allows its top and operand `i` to be exchanged.
pub open spec fn can_swap(s: Seq<Operand>, i: int) -> bool {
    &&& 0 < i
    &&& can_dup(s, i)
    &&& s[0].felts() >= 1
}

/// The operand stack allows operand `i` to be removed.
pub open spec fn can_remove(s: Seq<Operand>, i: int) -> bool {
    &&& 0 <= i < s.len()
    &&& i == 1 ==> can_swap(s, 1)
    &&& i > 1 ==> can_movup(s, i)
}

/// The operand stack can be cut to its first `n` operands. Unless nothing or everything is
/// dropped, its elements are among the first 16.
pub open spec fn can_truncate(s: Seq<Operand>, n: int) -> bool {
    &&& 0 <= n <= s.len()
    &&& n == 0 ==> stack::felts(s) <= usize::MAX
    &&& 0 < n < s.len() ==> solid(s) && stack::felts(s) <= 16
}

/// The code that removes operand `i` of `s`.
pub open spec fn remove_code(s: Seq<Operand>, i: int) -> Seq<Instruction> {
    (if i == 0 {
        Seq::empty()
    } else if i == 1 {
        swap_code(s, 1)
    } else {
        movup_code(s, i)
    }) + drop_operand_code(s[i].felts())
}

/// The code that removes the operands of `s` from position `n` on, from the last one up.
pub open spec fn remove_last_code(s: Seq<Operand>, n: int) -> Seq<Instruction>
    decreases s.len() - n,
{
    if n >= s.len() {
        Seq::empty()
    } else {
        remove_last_code(s, n + 1) + remove_code(s.take(n + 1), n)
    }
}

/// The code that removes all but the top `n` operands of `s`.
pub open spec fn truncate_code(s: Seq<Operand>, n: int) -> Seq<Instruction> {
    if n == s.len() {
        Seq::empty()
    } else if n == 0 {
        drop_code(stack::felts(s))
    } else if n == 1 && s.len() == 2 {
        swap_code(s, 1) + drop_operand_code(s[1].felts())
    } else if n == 1 {
        movdn_code(s, s.len() - 1) + drop_code(stack::felts(s.skip(1)))
    } else {
        remove_last_code(s, n)
    }
}

/// `s` with a copy of operand `n` at position `m`, or on top if `m` is 1 and the order of the two
/// upper operands does not matter.
pub open spec fn copied(s: Seq<Operand>, n: int, m: int, commutative: bool) -> Seq<Operand> {
    if m == 1 && commutative {
        seq![s[n]] + s
    } else {
        s.insert(m, s[n])
    }
}

/// The operand stack allows operand `n` to be copied to position `m`.
pub open spec fn can_copy(s: Seq<Operand>, n: int, m: int, commutative: bool) -> bool {
    let t = stack::duplicated(s, n);
    &&& can_dup(s, n)
    &&& 0 <= m
    &&& m == 1 && !commutative ==> can_swap(t, 1)
    &&& m > 1 ==> can_movdn(t, m)
}

/// The code that copies operand `n` of `s` to position `m`.
pub open spec fn copy_code(s: Seq<Operand>, n: int, m: int, commutative: bool) -> Seq<Instruction> {
    let t = stack::duplicated(s, n);
    dup_code(s, n) + (if m == 0 || (m == 1 && commutative) {
        Seq::empty()
    } else if m == 1 {
        swap_code(t, 1)
    } else {
        movdn_code(t, m)
    })
}

/// `s` with operand `n` moved to position `m`, or unchanged if both are upper operands and their
/// order does not matter.
pub open spec fn moved(s: Seq<Operand>, n: int, m: int, commutative: bool) -> Seq<Operand> {
    if n < 2 && m < 2 && commutative {
        s
    } else {
        s.remove(n).insert(m, s[n])
    }
}

/// The operand stack allows operand `n` to be moved to position `m`.
pub open spec fn can_move(s: Seq<Operand>, n: int, m: int, commutative: bool) -> bool {
    let t = stack::moved_up(s, n);
    &&& 0 <= n < s.len()
    &&& 0 <= m < s.len()
    &&& n != m && n < 2 && m < 2 && !commutative ==> can_swap(s, 1)
    &&& n != m && !(n < 2 && m < 2) ==> {
        &&& can_movup(s, n)
        &&& m == 1 ==> can_swap(t, 1)
        &&& m > 1 ==> can_movdn(t, m)
    }
}

/// The code that moves operand `n` of `s` to position `m`.
pub open spec fn move_code(s: Seq<Operand>, n: int, m: int, commutative: bool) -> Seq<Instruction> {
    let t = stack::moved_up(s, n);
    if n == m || (n < 2 && m < 2 && commutative) {
        Seq::empty()
    } else if n < 2 && m < 2 {
        swap_code(s, 1)
    } else {
        movup_code(s, n) + (if m == 0 {
            Seq::empty()
        } else if m == 1 {
            swap_code(t, 1)
        } else {
            movdn_code(t, m)
        })
    }
}

/// A stack of operands that take at least one element each has no more operands than elements.
pub proof fn solid_len(s: Seq<Operand>)
    requires
        solid(s),
    ensures
        s.len() <= stack::felts(s),
    decreases s.len(),
{
    if s.len() > 0 {
        assert(s[0].felts() >= 1);
        assert forall|i: int| 0 <= i < s.drop_first().len() implies #[trigger] s.drop_first()[i].felts()
            >= 1 by {
            assert(s[i + 1].felts() >= 1);
        }
        solid_len(s.drop_first());
    }
}

/// Emits instructions into a block.
pub struct OpEmitter<'a> {
    pub stack: &'a mut OperandStack,
    pub invoked: &'a mut InvokeSet,
    pub current_block: &'a mut Vec<Op>,
}

impl<'a> OpEmitter<'a> {
    /// The set of invocations is well-formed.
    pub open spec fn wf(&self) -> bool {
        self.invoked.wf()
    }

    /// The operand stack.
    pub open spec fn operands(&self) -> Seq<Operand> {
        self.stack@
    }

    /// The procedures invoked so far.
    pub open spec fn calls(&self) -> Set<Invoke> {
        self.invoked@
    }

    /// The code emitted so far.
    pub open spec fn code(&self) -> Seq<Op> {
        self.current_block@
    }

    /// An emitter that appends to `block`, with `stack` as the state of the operand stack.
    pub fn new(
        invoked: &'a mut InvokeSet,
        block: &'a mut Vec<Op>,
        stack: &'a mut OperandStack,
    ) -> (emitter: Self)
        requires
            old(invoked).wf(),
        ensures
            emitter.wf(),
            *emitter.stack == *old(stack),
            *emitter.invoked == *old(invoked),
            *emitter.current_block == *old(block),
            *final(emitter.stack) == *final(stack),
            *final(emitter.invoked) == *final(invoked),
            *final(emitter.current_block) == *final(block),
    {
        OpEmitter { stack, invoked, current_block: block }
    }

    /// How many operands are on the stack.
    pub fn stack_len(&self) -> (n: usize)
        ensures
            n == self.operands().len(),
    {
        self.stack.len()
    }

    /// The state of the operand stack.
    pub fn stack(&self) -> (stack: &OperandStack)
        ensures
            stack@ == self.operands(),
    {
        &*self.stack
    }

    fn maybe_register_invoke(&mut self, op: &Instruction)
        requires
            old(self).wf(),
        ensures
            final(self).wf(),
            final(self).calls() == with_invocation(old(self).calls(), *op),
            final(self).operands() == old(self).operands(),
            final(self).code() == old(self).code(),
            *final(final(self).stack) == *final(old(self).stack),
            *final(final(self).invoked) == *final(old(self).invoked),
            *final(final(self).current_block) == *final(old(self).current_block),
    {
        match *op {
            Instruction::Exec(target) => {
                self.invoked.insert(Invoke { kind: InvokeKind::Exec, target });
            },
            Instruction::Call(target) => {
                self.invoked.insert(Invoke { kind: InvokeKind::Call, target });
            },
            Instruction::SysCall(target) => {
                self.invoked.insert(Invoke { kind: InvokeKind::SysCall, target });
            },
            _ => {},
        }
    }

    /// Emits `inst` to the current block.
    pub fn emit(&mut self, inst: Instruction, span: SourceSpan)
        requires
            old(self).wf(),
        ensures
            final(self).wf(),
            final(self).calls() == with_invocation(old(self).calls(), inst),
            final(self).operands() == old(self).operands(),
            final(self).code() == old(self).code().push(Op::Inst(span, inst)),
            *final(final(self).stack) == *final(old(self).stack),
            *final(final(self).invoked) == *final(old(self).invoked),
            *final(final(self).current_block) == *final(old(self).current_block),
    {
        self.maybe_register_invoke(&inst);
        self.current_block.push(Op::Inst(span, inst));
    }

    /// Emits an 'exec' for `callee`, the absolute path of a procedure, between the two events
    /// that mark a frame. The operands of the callee are taken to be on the stack.
    pub fn raw_exec(&mut self, callee: InvocationTarget, span: SourceSpan)
        requires
            old(self).wf(),
        ensures
            final(self).wf(),
            final(self).calls() == old(self).calls().insert(
                Invoke { kind: InvokeKind::Exec, target: callee },
            ),
            final(self).operands() == old(self).operands(),
            final(self).code() == old(self).code() + inst::line(span, exec_code(callee)),
            *final(final(self).stack) == *final(old(self).stack),
            *final(final(self).invoked) == *final(old(self).invoked),
            *final(final(self).current_block) == *final(old(self).current_block),
    {
        self.emit(Instruction::Trace(TraceEvent::FrameStart), span);
        self.emit(Instruction::Nop, span);
        self.emit(Instruction::Exec(callee), span);
        self.emit(Instruction::Trace(TraceEvent::FrameEnd), span);
        self.emit(Instruction::Nop, span);
        assert(self.code() == old(self).code() + inst::line(span, exec_code(callee)));
    }

    /// Emits a `push` of `value` to the current block.
    pub fn emit_push(&mut self, value: PushValue, span: SourceSpan)
        requires
            old(self).wf(),
        ensures
            final(self).wf(),
            final(self).calls() == old(self).calls(),
            final(self).operands() == old(self).operands(),
            final(self).code() == old(self).code().push(Op::Inst(span, Instruction::Push(value))),
            *final(final(self).stack) == *final(old(self).stack),
            *final(final(self).invoked) == *final(old(self).invoked),
            *final(final(self).current_block) == *final(old(self).current_block),
    {
        self.current_block.push(Op::Inst(span, Instruction::Push(value)));
    }

    /// Emits `count` copies of `inst` to the current block. What it invokes is recorded even if
    /// `count` is zero.
    pub fn emit_n(&mut self, count: usize, inst: Instruction, span: SourceSpan)
        requires
            old(self).wf(),
        ensures
            final(self).wf(),
            final(self).calls() == with_invocation(old(self).calls(), inst),
            final(self).operands() == old(self).operands(),
            final(self).code() == old(self).code() + inst::line(
                span,
                inst::times(count as nat, inst),
            ),
            *final(final(self).stack) == *final(old(self).stack),
            *final(final(self).invoked) == *final(old(self).invoked),
            *final(final(self).current_block) == *final(old(self).current_block),
    {
        self.maybe_register_invoke(&inst);
        let mut i: usize = 0;
        assert(self.code() == old(self).code() + inst::line(span, inst::times(0, inst)));
        while i < count
            invariant
                i <= count,
                self.wf(),
                self.calls() == with_invocation(old(self).calls(), inst),
                self.operands() == old(self).operands(),
                self.code() == old(self).code() + inst::line(span, inst::times(i as nat, inst)),
                *final(self.stack) == *final(old(self).stack),
                *final(self.invoked) == *final(old(self).invoked),
                *final(self.current_block) == *final(old(self).current_block),
            decreases count - i,
        {
            self.current_block.push(Op::Inst(span, inst));
            i = i + 1;
            assert(self.code() == old(self).code() + inst::line(span, inst::times(i as nat, inst)));
        }
    }

    /// Emits `ops` to the current block.
    pub fn emit_all(&mut self, ops: &[Instruction], span: SourceSpan)
        requires
            old(self).wf(),
        ensures
            final(self).wf(),
            final(self).calls() == with_invocations(old(self).calls(), ops@),
            final(self).operands() == old(self).operands(),
            final(self).code() == old(self).code() + inst::line(span, ops@),
            *final(final(self).stack) == *final(old(self).stack),
            *final(final(self).invoked) == *final(old(self).invoked),
            *final(final(self).current_block) == *final(old(self).current_block),
    {
        let mut i: usize = 0;
        assert(self.code() == old(self).code() + inst::line(span, ops@.take(0)));
        while i < ops.len()
            invariant
                i <= ops@.len(),
                self.wf(),
                self.calls() == with_invocations(old(self).calls(), ops@.take(i as int)),
                self.operands() == old(self).operands(),
                self.code() == old(self).code() + inst::line(span, ops@.take(i as int)),
                *final(self.stack) == *final(old(self).stack),
                *final(self.invoked) == *final(old(self).invoked),
                *final(self.current_block) == *final(old(self).current_block),
            decreases ops@.len() - i,
        {
            self.emit(ops[i], span);
            i = i + 1;
            assert(ops@.take(i as int).drop_last() == ops@.take(i - 1));
            assert(self.code() == old(self).code() + inst::line(span, ops@.take(i as int)));
        }
        assert(ops@.take(ops@.len() as int) == ops@);
    }

    fn register_all(&mut self, ops: &[(SourceSpan, Instruction)])
        requires
            old(self).wf(),
        ensures
            final(self).wf(),
            final(self).calls() == with_invocations(old(self).calls(), ops@.map_values(instruction())),
            final(self).operands() == old(self).operands(),
            final(self).code() == old(self).code(),
            *final(final(self).stack) == *final(old(self).stack),
            *final(final(self).invoked) == *final(old(self).invoked),
            *final(final(self).current_block) == *final(old(self).current_block),
    {
        let mut i: usize = 0;
        let ghost insts = ops@.map_values(instruction());
        while i < ops.len()
            invariant
                i <= ops@.len(),
                insts == ops@.map_values(instruction()),
                self.wf(),
                self.calls() == with_invocations(old(self).calls(), insts.take(i as int)),
                self.operands() == old(self).operands(),
                self.code() == old(self).code(),
                *final(self.stack) == *final(old(self).stack),
                *final(self.invoked) == *final(old(self).invoked),
                *final(self.current_block) == *final(old(self).current_block),
            decreases ops@.len() - i,
        {
            self.maybe_register_invoke(&ops[i].1);
            i = i + 1;
            assert(insts.take(i as int).drop_last() == insts.take(i - 1));
        }
        assert(insts.take(ops@.len() as int) == insts);
    }

    fn append_all(&mut self, ops: &[(SourceSpan, Instruction)])
        requires
            old(self).wf(),
        ensures
            final(self).wf(),
            final(self).calls() == old(self).calls(),
            final(self).operands() == old(self).operands(),
            final(self).code() == old(self).code() + spanned(ops@),
            *final(final(self).stack) == *final(old(self).stack),
            *final(final(self).invoked) == *final(old(self).invoked),
            *final(final(self).current_block) == *final(old(self).current_block),
    {
        let mut i: usize = 0;
        assert(self.code() == old(self).code() + spanned(ops@.take(0)));
        while i < ops.len()
            invariant
                i <= ops@.len(),
                self.wf(),
                self.calls() == old(self).calls(),
                self.operands() == old(self).operands(),
                self.code() == old(self).code() + spanned(ops@.take(i as int)),
                *final(self.stack) == *final(old(self).stack),
                *final(self.invoked) == *final(old(self).invoked),
                *final(self.current_block) == *final(old(self).current_block),
            decreases ops@.len() - i,
        {
            self.current_block.push(Op::Inst(ops[i].0, ops[i].1));
            i = i + 1;
            assert(self.code() == old(self).code() + spanned(ops@.take(i as int)));
        }
        assert(ops@.take(ops@.len() as int) == ops@);
    }

    /// Emits `count` copies of the sequence `ops` to the current block. What the sequence invokes
    /// is recorded even if `count` is zero.
    pub fn emit_repeat(&mut self, count: usize, ops: &[(SourceSpan, Instruction)])
        requires
            old(self).wf(),
        ensures
            final(self).wf(),
            final(self).calls() == with_invocations(old(self).calls(), ops@.map_values(instruction())),
            final(self).operands() == old(self).operands(),
            final(self).code() == old(self).code() + repeated(spanned(ops@), count as nat),
            *final(final(self).stack) == *final(old(self).stack),
            *final(final(self).invoked) == *final(old(self).invoked),
            *final(final(self).current_block) == *final(old(self).current_block),
    {
        self.register_all(ops);
        let mut i: usize = 0;
        while i < count
            invariant
                i <= count,
                self.wf(),
                self.calls() == with_invocations(old(self).calls(), ops@.map_values(instruction())),
                self.operands() == old(self).operands(),
                self.code() == old(self).code() + repeated(spanned(ops@), i as nat),
                *final(self.stack) == *final(old(self).stack),
                *final(self.invoked) == *final(old(self).invoked),
                *final(self.current_block) == *final(old(self).current_block),
            decreases count - i,
        {
            self.append_all(ops);
            i = i + 1;
            assert(self.code() == old(self).code() + repeated(spanned(ops@), i as nat));
        }
    }

    /// Emits the sequences `template(0)`, ..., `template(count - 1)` to the current block. What
    /// `template(0)` invokes is recorded even if `count` is zero.
    pub fn emit_template<const N: usize, F>(&mut self, count: usize, template: F) where
        F: Fn(usize) -> [(SourceSpan, Instruction); N],

        requires
            old(self).wf(),
            forall|n: usize| n == 0 || n < count ==> #[trigger] call_requires(template, (n,)),
        ensures
            final(self).wf(),
            exists|first: [(SourceSpan, Instruction); N]|
                {
                    &&& #[trigger] call_ensures(template, (0usize,), first)
                    &&& final(self).calls() == with_invocations(
                        old(self).calls(),
                        first@.map_values(instruction()),
                    )
                },
            final(self).operands() == old(self).operands(),
            exists|parts: Seq<[(SourceSpan, Instruction); N]>|
                {
                    &&& parts.len() == count
                    &&& forall|n: usize|
                        n < count ==> call_ensures(template, (n,), #[trigger] parts[n as int])
                    &&& final(self).code() == old(self).code() + #[trigger] joined(parts)
                },
            *final(final(self).stack) == *final(old(self).stack),
            *final(final(self).invoked) == *final(old(self).invoked),
            *final(final(self).current_block) == *final(old(self).current_block),
    {
        let first = template(0);
        self.register_all(first.as_slice());
        let ghost mut parts: Seq<[(SourceSpan, Instruction); N]> = Seq::empty();
        let mut i: usize = 0;
        assert(self.code() == old(self).code() + joined(parts));
        while i < count
            invariant
                i <= count,
                self.wf(),
                call_ensures(template, (0usize,), first),
                self.calls() == with_invocations(
                    old(self).calls(),
                    first@.map_values(instruction()),
                ),
                self.operands() == old(self).operands(),
                forall|n: usize| n < count ==> #[trigger] call_requires(template, (n,)),
                parts.len() == i,
                forall|n: usize| n < i ==> call_ensures(template, (n,), #[trigger] parts[n as int]),
                self.code() == old(self).code() + joined(parts),
                *final(self.stack) == *final(old(self).stack),
                *final(self.invoked) == *final(old(self).invoked),
                *final(self.current_block) == *final(old(self).current_block),
            decreases count - i,
        {
            let part = template(i);
            self.append_all(part.as_slice());
            proof {
                let before = parts;
                parts = parts.push(part);
                assert(parts.drop_last() == before);
                assert(self.code() == old(self).code() + joined(parts));
            }
            i = i + 1;
        }
    }

    /// Puts the constant `imm` on the machine's stack. The emulated stack stays as it is.
    pub fn push_immediate(&mut self, imm: Immediate, span: SourceSpan)
        requires
            old(self).wf(),
        ensures
            final(self).wf(),
            final(self).calls() == old(self).calls(),
            final(self).operands() == old(self).operands(),
            final(self).code() == old(self).code() + inst::line(span, push_code(imm)),
            *final(final(self).stack) == *final(old(self).stack),
            *final(final(self).invoked) == *final(old(self).invoked),
            *final(final(self).current_block) == *final(old(self).current_block),
    {
        match imm {
            Immediate::I1(i) => self.emit_push(PushValue::U8(if i { 1 } else { 0 }), span),
            Immediate::I8(i) => self.emit_push(PushValue::U8(i as u8), span),
            Immediate::U8(i) => self.emit_push(PushValue::U8(i), span),
            Immediate::U16(i) => self.emit_push(PushValue::U16(i), span),
            Immediate::I16(i) => self.emit_push(PushValue::U16(i as u16), span),
            Immediate::U32(i) => self.emit_push(PushValue::U32(i), span),
            Immediate::I32(i) => self.emit_push(PushValue::U32(i as u32), span),
            Immediate::U64(i) => self.push_limbs(i as u128, 2, span),
            Immediate::I64(i) => self.push_limbs(i as u64 as u128, 2, span),
            Immediate::U128(i) => self.push_limbs(i, 4, span),
            Immediate::I128(i) => self.push_limbs(i as u128, 4, span),
            Immediate::Felt(i) => self.emit_push(PushValue::Felt(i), span),
        }
        assert(self.code() == old(self).code() + inst::line(span, push_code(imm)));
    }

    fn push_limbs(&mut self, value: u128, n: usize, span: SourceSpan)
        requires
            old(self).wf(),
        ensures
            final(self).wf(),
            final(self).calls() == old(self).calls(),
            final(self).operands() == old(self).operands(),
            final(self).code() == old(self).code() + inst::line(
                span,
                push_felts(limbs(value as int, n as nat)),
            ),
            *final(final(self).stack) == *final(old(self).stack),
            *final(final(self).invoked) == *final(old(self).invoked),
            *final(final(self).current_block) == *final(old(self).current_block),
        decreases n,
    {
        if n == 0 {
            assert(self.code() == old(self).code() + inst::line(
                span,
                push_felts(limbs(value as int, 0)),
            ));
        } else {
            self.emit_push(PushValue::Felt((value % 0x1_0000_0000) as u64), span);
            self.push_limbs(value / 0x1_0000_0000, n - 1, span);
            assert(self.code() == old(self).code() + inst::line(
                span,
                push_felts(limbs(value as int, n as nat)),
            ));
        }
    }

    /// Puts the constant `imm` on the stack.
    pub fn literal(&mut self, imm: Immediate, span: SourceSpan)
        requires
            old(self).wf(),
        ensures
            final(self).wf(),
            final(self).calls() == old(self).calls(),
            final(self).operands() == seq![Operand::Const(imm)] + old(self).operands(),
            final(self).code() == old(self).code() + inst::line(span, push_code(imm)),
            *final(final(self).stack) == *final(old(self).stack),
            *final(final(self).invoked) == *final(old(self).invoked),
            *final(final(self).current_block) == *final(old(self).current_block),
    {
        self.push_immediate(imm, span);
        self.stack.push(Operand::Const(imm));
    }

    /// Takes the top operand off the emulated stack.
    pub fn pop(&mut self) -> (operand: Option<Operand>)
        requires
            old(self).wf(),
        ensures
            final(self).wf(),
            final(self).calls() == old(self).calls(),
            old(self).operands().len() == 0 ==> operand is None && final(self).operands()
                == old(self).operands(),
            old(self).operands().len() > 0 ==> operand == Some(old(self).operands()[0])
                && final(self).operands() == old(self).operands().drop_first(),
            final(self).code() == old(self).code(),
            *final(final(self).stack) == *final(old(self).stack),
            *final(final(self).invoked) == *final(old(self).invoked),
            *final(final(self).current_block) == *final(old(self).current_block),
    {
        self.stack.pop()
    }

    /// Puts `operand` on the emulated stack.
    pub fn push(&mut self, operand: Operand)
        requires
            old(self).wf(),
        ensures
            final(self).wf(),
            final(self).calls() == old(self).calls(),
            final(self).operands() == seq![operand] + old(self).operands(),
            final(self).code() == old(self).code(),
            *final(final(self).stack) == *final(old(self).stack),
            *final(final(self).invoked) == *final(old(self).invoked),
            *final(final(self).current_block) == *final(old(self).current_block),
    {
        self.stack.push(operand);
    }

    /// Copies operand `i` to the top.
    pub fn dup(&mut self, i: u8, span: SourceSpan)
        requires
            old(self).wf(),
            can_dup(old(self).operands(), i as int),
        ensures
            final(self).wf(),
            final(self).calls() == old(self).calls(),
            final(self).operands() == stack::duplicated(old(self).operands(), i as int),
            final(self).code() == old(self).code() + inst::line(
                span,
                dup_code(old(self).operands(), i as int),
            ),
            *final(final(self).stack) == *final(old(self).stack),
            *final(final(self).invoked) == *final(old(self).invoked),
            *final(final(self).current_block) == *final(old(self).current_block),
    {
        let index: usize = i as usize;
        proof {
            stack::offset_step(self.operands(), index as int);
        }
        let at: usize = self.stack.effective_index(index);
        let n: usize = self.stack.get(index).size();
        self.stack.dup(index);
        self.emit_n(n, dup_from_offset(at + (n - 1)), span);
    }

    /// Moves operand `i` to the top.
    pub fn movup(&mut self, i: u8, span: SourceSpan)
        requires
            old(self).wf(),
            can_movup(old(self).operands(), i as int),
        ensures
            final(self).wf(),
            final(self).calls() == old(self).calls(),
            final(self).operands() == stack::moved_up(old(self).operands(), i as int),
            final(self).code() == old(self).code() + inst::line(
                span,
                movup_code(old(self).operands(), i as int),
            ),
            *final(final(self).stack) == *final(old(self).stack),
            *final(final(self).invoked) == *final(old(self).invoked),
            *final(final(self).current_block) == *final(old(self).current_block),
    {
        let index: usize = i as usize;
        proof {
            stack::offset_step(self.operands(), index as int);
        }
        let at: usize = self.stack.effective_index(index);
        let n: usize = self.stack.get(index).size();
        self.stack.movup(index);
        self.emit_n(n, movup_from_offset(at + (n - 1)), span);
    }

    /// Moves the top operand to position `i`.
    pub fn movdn(&mut self, i: u8, span: SourceSpan)
        requires
            old(self).wf(),
            can_movdn(old(self).operands(), i as int),
        ensures
            final(self).wf(),
            final(self).calls() == old(self).calls(),
            final(self).operands() == stack::moved_down(old(self).operands(), i as int),
            final(self).code() == old(self).code() + inst::line(
                span,
                movdn_code(old(self).operands(), i as int),
            ),
            *final(final(self).stack) == *final(old(self).stack),
            *final(final(self).invoked) == *final(old(self).invoked),
            *final(final(self).current_block) == *final(old(self).current_block),
    {
        let index: usize = i as usize;
        let to: usize = self.stack.effective_index_inclusive(index);
        let n: usize = self.stack.get(0).size();
        self.stack.movdn(index);
        self.emit_n(n, movdn_from_offset(to), span);
    }

    /// Exchanges the top operand and operand `i`.
    pub fn swap(&mut self, i: u8, span: SourceSpan)
        requires
            old(self).wf(),
            can_swap(old(self).operands(), i as int),
        ensures
            final(self).wf(),
            final(self).calls() == old(self).calls(),
            final(self).operands() == stack::swapped(old(self).operands(), i as int),
            final(self).code() == old(self).code() + inst::line(
                span,
                swap_code(old(self).operands(), i as int),
            ),
            *final(final(self).stack) == *final(old(self).stack),
            *final(final(self).invoked) == *final(old(self).invoked),
            *final(final(self).current_block) == *final(old(self).current_block),
    {
        let index: usize = i as usize;
        proof {
            let s = self.operands();
            stack::offset_step(s, index as int);
            stack::offset_step(s, 0);
            stack::offset_is_monotonic(s, 1, index as int);
            assert(s.take(0) == Seq::<Operand>::empty());
        }
        let n: usize = self.stack.get(0).size();
        let m: usize = self.stack.get(index).size();
        let at: usize = self.stack.effective_index(index);
        self.stack.swap(index);
        if n == 1 && m == 1 {
            self.emit(swap_from_offset(at), span);
        } else if m == 1 && at == n {
            self.emit(movup_from_offset(at), span);
        } else {
            self.emit_n(n, movdn_from_offset(at + (m - 1)), span);
            if at != n {
                let up: usize = at - n + (m - 1);
                if up == 1 {
                    self.emit(Instruction::Swap1, span);
                } else {
                    self.emit_n(m, movup_from_offset(up), span);
                }
            }
        }
        assert(self.code() == old(self).code() + inst::line(
            span,
            swap_code(old(self).operands(), i as int),
        ));
    }

    /// Drops the top operand.
    pub fn drop(&mut self, span: SourceSpan)
        requires
            old(self).wf(),
            old(self).operands().len() > 0,
        ensures
            final(self).wf(),
            final(self).calls() == old(self).calls(),
            final(self).operands() == old(self).operands().drop_first(),
            final(self).code() == old(self).code() + inst::line(
                span,
                drop_operand_code(old(self).operands()[0].felts()),
            ),
            *final(final(self).stack) == *final(old(self).stack),
            *final(final(self).invoked) == *final(old(self).invoked),
            *final(final(self).current_block) == *final(old(self).current_block),
    {
        let n: usize = self.stack.get(0).size();
        let _ = self.stack.pop();
        if n == 4 {
            self.emit(Instruction::DropW, span);
        } else {
            self.emit_n(n, Instruction::Drop, span);
        }
        assert(self.code() == old(self).code() + inst::line(
            span,
            drop_operand_code(old(self).operands()[0].felts()),
        ));
    }

    /// Drops the top `n` operands.
    pub fn dropn(&mut self, n: usize, span: SourceSpan)
        requires
            old(self).wf(),
            0 < n <= old(self).operands().len(),
            stack::offset(old(self).operands(), n as int) <= usize::MAX,
        ensures
            final(self).wf(),
            final(self).calls() == old(self).calls(),
            final(self).operands() == old(self).operands().skip(n as int),
            final(self).code() == old(self).code() + inst::line(
                span,
                drop_code(stack::offset(old(self).operands(), n as int)),
            ),
            *final(final(self).stack) == *final(old(self).stack),
            *final(final(self).invoked) == *final(old(self).invoked),
            *final(final(self).current_block) == *final(old(self).current_block),
    {
        let raw_len: usize = self.stack.effective_index(n);
        self.stack.dropn(n);
        self.emit_n(raw_len / 4, Instruction::DropW, span);
        self.emit_n(raw_len % 4, Instruction::Drop, span);
        assert(self.code() == old(self).code() + inst::line(span, drop_code(raw_len as nat)));
    }

    /// Removes operand `n`.
    pub fn drop_operand_at_position(&mut self, n: usize, span: SourceSpan)
        requires
            old(self).wf(),
            can_remove(old(self).operands(), n as int),
        ensures
            final(self).wf(),
            final(self).calls() == old(self).calls(),
            final(self).operands() == old(self).operands().remove(n as int),
            final(self).code() == old(self).code() + inst::line(
                span,
                remove_code(old(self).operands(), n as int),
            ),
            *final(final(self).stack) == *final(old(self).stack),
            *final(final(self).invoked) == *final(old(self).invoked),
            *final(final(self).current_block) == *final(old(self).current_block),
    {
        let ghost s = self.operands();
        if n == 0 {
            self.drop(span);
            assert(s.drop_first() == s.remove(0));
        } else if n == 1 {
            self.swap(1, span);
            self.drop(span);
            assert(stack::swapped(s, 1).drop_first() == s.remove(1));
        } else {
            self.movup(n as u8, span);
            self.drop(span);
            assert(stack::moved_up(s, n as int).drop_first() == s.remove(n as int));
        }
        assert(self.code() == old(self).code() + inst::line(span, remove_code(s, n as int)));
    }

    /// Removes all but the top `n` operands.
    pub fn truncate_stack(&mut self, n: usize, span: SourceSpan)
        requires
            old(self).wf(),
            can_truncate(old(self).operands(), n as int),
        ensures
            final(self).wf(),
            final(self).calls() == old(self).calls(),
            final(self).operands() == old(self).operands().take(n as int),
            final(self).code() == old(self).code() + inst::line(
                span,
                truncate_code(old(self).operands(), n as int),
            ),
            *final(final(self).stack) == *final(old(self).stack),
            *final(final(self).invoked) == *final(old(self).invoked),
            *final(final(self).current_block) == *final(old(self).current_block),
    {
        let ghost s = self.operands();
        let stack_size: usize = self.stack.len();
        if stack_size == n {
            assert(s.take(n as int) == s);
            assert(inst::line(span, truncate_code(s, n as int)) == Seq::<Op>::empty());
            return;
        }
        proof {
            assert(s.take(s.len() as int) == s);
        }
        if n == 0 {
            self.dropn(stack_size, span);
            assert(s.skip(s.len() as int) == s.take(0));
            return;
        }
        proof {
            solid_len(s);
        }
        if n == 1 {
            if stack_size == 2 {
                self.swap(1, span);
                self.drop(span);
                assert(stack::swapped(s, 1).drop_first() == s.remove(1));
                assert(s.remove(1) == s.take(1));
            } else {
                proof {
                    stack::offset_is_monotonic(s, 3, s.len() as int);
                    stack::offset_step(s, 2);
                    stack::offset_step(s, 1);
                    stack::offset_step(s, 0);
                }
                self.movdn((stack_size - 1) as u8, span);
                let ghost t = self.operands();
                proof {
                    assert(t.take(s.len() - 1) == s.skip(1));
                    assert(s == s.take(1) + s.skip(1));
                    stack::felts_of_sum(s.take(1), s.skip(1));
                }
                self.dropn(stack_size - 1, span);
                assert(t.skip(s.len() - 1) == s.take(1));
            }
            assert(self.code() == old(self).code() + inst::line(
                span,
                truncate_code(s, n as int),
            ));
            return;
        }
        let mut left: usize = stack_size;
        assert(inst::line(span, remove_last_code(s, s.len() as int)) == Seq::<Op>::empty());
        while left > n
            invariant
                self.wf(),
                s == old(self).operands(),
                2 <= n <= left <= s.len() <= 16,
                solid(s),
                stack::felts(s) <= 16,
                self.calls() == old(self).calls(),
                self.operands() == s.take(left as int),
                self.code() == old(self).code() + inst::line(
                    span,
                    remove_last_code(s, left as int),
                ),
                *final(self.stack) == *final(old(self).stack),
                *final(self.invoked) == *final(old(self).invoked),
                *final(self.current_block) == *final(old(self).current_block),
            decreases left,
        {
            let ghost t = self.operands();
            proof {
                stack::offset_is_monotonic(s, left as int, s.len() as int);
                assert(t.take(left as int) == t);
                stack::offset_is_monotonic(s, 3, left as int);
                stack::offset_step(s, 2);
                stack::offset_step(s, 1);
                stack::offset_step(s, 0);
                assert(t[left - 1].felts() >= 1) by {
                    assert(t[left - 1] == s[left - 1]);
                }
            }
            self.drop_operand_at_position(left - 1, span);
            assert(t.remove(left - 1) == s.take(left - 1));
            left = left - 1;
            assert(self.code() == old(self).code() + inst::line(
                span,
                remove_last_code(s, left as int),
            ));
        }
    }

    /// Copies operand `n` and makes the copy the operand at position `m`.
    ///
    /// The copy for a commutative binary operator that is to be at position 1 is left on top.
    pub fn copy_operand_to_position(
        &mut self,
        n: usize,
        m: usize,
        is_commutative_binary_operand: bool,
        span: SourceSpan,
    )
        requires
            old(self).wf(),
            can_copy(old(self).operands(), n as int, m as int, is_commutative_binary_operand),
        ensures
            final(self).wf(),
            final(self).calls() == old(self).calls(),
            final(self).operands() == copied(
                old(self).operands(),
                n as int,
                m as int,
                is_commutative_binary_operand,
            ),
            final(self).code() == old(self).code() + inst::line(
                span,
                copy_code(old(self).operands(), n as int, m as int, is_commutative_binary_operand),
            ),
            *final(final(self).stack) == *final(old(self).stack),
            *final(final(self).invoked) == *final(old(self).invoked),
            *final(final(self).current_block) == *final(old(self).current_block),
    {
        let ghost s = self.operands();
        self.dup(n as u8, span);
        if m == 1 {
            if !is_commutative_binary_operand {
                self.swap(1, span);
            }
        } else if m > 1 {
            self.movdn(m as u8, span);
        }
        assert(self.operands() == copied(s, n as int, m as int, is_commutative_binary_operand));
        assert(self.code() == old(self).code() + inst::line(
            span,
            copy_code(s, n as int, m as int, is_commutative_binary_operand),
        ));
    }

    /// Makes operand `n` the operand at position `m`.
    ///
    /// The two upper operands of a commutative binary operator are left as they are.
    pub fn move_operand_to_position(
        &mut self,
        n: usize,
        m: usize,
        is_commutative_binary_operand: bool,
        span: SourceSpan,
    )
        requires
            old(self).wf(),
            can_move(old(self).operands(), n as int, m as int, is_commutative_binary_operand),
        ensures
            final(self).wf(),
            final(self).calls() == old(self).calls(),
            final(self).operands() == moved(
                old(self).operands(),
                n as int,
                m as int,
                is_commutative_binary_operand,
            ),
            final(self).code() == old(self).code() + inst::line(
                span,
                move_code(old(self).operands(), n as int, m as int, is_commutative_binary_operand),
            ),
            *final(final(self).stack) == *final(old(self).stack),
            *final(final(self).invoked) == *final(old(self).invoked),
            *final(final(self).current_block) == *final(old(self).current_block),
    {
        let ghost s = self.operands();
        if n == m {
        } else if (n == 1 && m == 0) || (n == 0 && m == 1) {
            if !is_commutative_binary_operand {
                self.swap(1, span);
            }
        } else {
            self.movup(n as u8, span);
            if m == 1 {
                self.swap(1, span);
            } else if m > 1 {
                self.movdn(m as u8, span);
            }
        }
        assert(self.operands() == moved(s, n as int, m as int, is_commutative_binary_operand));
        assert(self.code() == old(self).code() + inst::line(
            span,
            move_code(s, n as int, m as int, is_commutative_binary_operand),
        ));
    }

    /// The block that is emitted to.
    pub fn current_block(&mut self) -> (block: &mut Vec<Op>)
        ensures
            block@ == old(self).code(),
            final(self).code() == final(block)@,
            final(self).operands() == old(self).operands(),
            final(self).calls() == old(self).calls(),
            *final(final(self).stack) == *final(old(self).stack),
            *final(final(self).invoked) == *final(old(self).invoked),
            *final(final(self).current_block) == *final(old(self).current_block),
    {
        &mut *self.current_block
    }
}

} // verus!

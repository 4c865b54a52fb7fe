//! The construction of a function, step by step.
use vstd::prelude::*;
use crate::symbol::Symbol;
use crate::types::{Immediate, ScalarType};
use crate::wasm::ir::{BinaryOp, BlockId, Conversion, Event, IrType, SwitchCase, UnaryOp, Value};

verus! {

/// A step, with its lists as sequences.
pub type Step = Event<Seq<Value>, Seq<SwitchCase<Seq<Value>>>>;

/// The state of a construction.
#[verifier::ext_equal]
pub ghost struct Built {
    /// The steps taken so far.
    pub log: Seq<Step>,
    /// The number of the next value.
    pub next: nat,
    /// The parameters of each block.
    pub blocks: Seq<Seq<Value>>,
}

impl Built {
    /// One more step, which defines `n` values.
    pub open spec fn step(self, step: Step, n: nat) -> Built {
        Built { log: self.log.push(step), next: self.next + n, ..self }
    }

    /// The `i`th value that the next step defines.
    pub open spec fn fresh(self, i: nat, ty: IrType) -> Value {
        Value { id: (self.next + i) as u32, ty }
    }

    /// The values that the next step defines, one for each type.
    pub open spec fn fresh_list(self, types: Seq<ScalarType>) -> Seq<Value> {
        Seq::new(types.len(), |i: int| self.fresh(i as nat, IrType::Scalar(types[i])))
    }

    /// There are numbers for `n` more values, and for a few more blocks and steps.
    pub open spec fn has_room(self, n: nat) -> bool {
        &&& self.next + n <= u32::MAX
        &&& self.blocks.len() + 4 <= u32::MAX
        &&& self.log.len() + 64 <= u32::MAX
    }

    /// A constant.
    pub open spec fn imm(self, imm: Immediate) -> (Built, Value) {
        let result = self.fresh(0, IrType::Scalar(imm.type_of()));
        (self.step(Event::Const { imm, result }, 1), result)
    }

    /// An operation on one value, whose result counts bits.
    pub open spec fn unary(self, op: UnaryOp, arg: Value) -> (Built, Value) {
        let result = self.fresh(0, IrType::Scalar(ScalarType::U32));
        (self.step(Event::Unary { op, arg, result }, 1), result)
    }

    /// An operation on two values.
    pub open spec fn binary(self, op: BinaryOp, lhs: Value, rhs: Value) -> (Built, Value) {
        let result = self.fresh(0, op.result_of(lhs.ty));
        (self.step(Event::Binary { op, lhs, rhs, result }, 1), result)
    }

    /// A conversion.
    pub open spec fn convert(self, op: Conversion, arg: Value, ty: IrType) -> (Built, Value) {
        let result = self.fresh(0, ty);
        (self.step(Event::Convert { op, arg, result }, 1), result)
    }

    /// A bitcast, unless the value has the type.
    pub open spec fn bitcast_unless(self, arg: Value, ty: IrType) -> (Built, Value) {
        if arg.ty == ty {
            (self, arg)
        } else {
            self.convert(Conversion::Bitcast, arg, ty)
        }
    }

    /// The first value if the condition holds, else the second.
    pub open spec fn select(self, cond: Value, first: Value, second: Value) -> (Built, Value) {
        let result = self.fresh(0, first.ty);
        (self.step(Event::Select { cond, first, second, result }, 1), result)
    }

    /// A new block with parameters of the given types.
    pub open spec fn create_block(self, types: Seq<ScalarType>) -> (Built, BlockId) {
        let block = BlockId { index: self.blocks.len() as u32 };
        let params = self.fresh_list(types);
        (
            Built {
                blocks: self.blocks.push(params),
                ..self.step(Event::CreateBlock { block, params }, types.len())
            },
            block,
        )
    }

    /// A new block that nothing leads to.
    pub open spec fn create_detached_block(self) -> (Built, BlockId) {
        let block = BlockId { index: self.blocks.len() as u32 };
        (
            Built {
                blocks: self.blocks.push(Seq::empty()),
                ..self.step(Event::CreateDetachedBlock { block }, 0)
            },
            block,
        )
    }

    /// The parameters of `block`.
    pub open spec fn params(self, block: BlockId) -> Seq<Value> {
        self.blocks[block.index as int]
    }
}

/// A step as it is held, seen as a [Step].
pub open spec fn step_view(event: Event<Vec<Value>, Vec<SwitchCase<Vec<Value>>>>) -> Step {
    match event {
        Event::At(span) => Event::At(span),
        Event::Const { imm, result } => Event::Const { imm, result },
        Event::Unary { op, arg, result } => Event::Unary { op, arg, result },
        Event::Binary { op, lhs, rhs, result } => Event::Binary { op, lhs, rhs, result },
        Event::Convert { op, arg, result } => Event::Convert { op, arg, result },
        Event::Select { cond, first, second, result } => Event::Select {
            cond,
            first,
            second,
            result,
        },
        Event::Join { hi, lo, result } => Event::Join { hi, lo, result },
        Event::Split { arg, hi, lo } => Event::Split { arg, hi, lo },
        Event::UseVar { var, result } => Event::UseVar { var, result },
        Event::DefVar { var, value } => Event::DefVar { var, value },
        Event::LoadGlobal { name, result } => Event::LoadGlobal { name, result },
        Event::StoreGlobal { name, value } => Event::StoreGlobal { name, value },
        Event::Load { addr, result } => Event::Load { addr, result },
        Event::Store { addr, value } => Event::Store { addr, value },
        Event::MemGrow { pages, result } => Event::MemGrow { pages, result },
        Event::MemSize { result } => Event::MemSize { result },
        Event::MemCpy { src, dst, count } => Event::MemCpy { src, dst, count },
        Event::MemSet { dst, count, value } => Event::MemSet { dst, count, value },
        Event::AssertAligned { value } => Event::AssertAligned { value },
        Event::Exec { callee, args, results } => Event::Exec {
            callee,
            args: args@,
            results: results@,
        },
        Event::Intrinsic { intrinsic, callee, args, results } => Event::Intrinsic {
            intrinsic,
            callee,
            args: args@,
            results: results@,
        },
        Event::Unreachable => Event::Unreachable,
        Event::Ret { value } => Event::Ret { value },
        Event::Br { dest, args } => Event::Br { dest, args: args@ },
        Event::CondBr { cond, then_dest, then_args, else_dest, else_args } => Event::CondBr {
            cond,
            then_dest,
            then_args: then_args@,
            else_dest,
            else_args: else_args@,
        },
        Event::Switch { selector, cases, default_dest, default_args } => Event::Switch {
            selector,
            cases: cases_view(cases@),
            default_dest,
            default_args: default_args@,
        },
        Event::CreateBlock { block, params } => Event::CreateBlock { block, params: params@ },
        Event::CreateDetachedBlock { block } => Event::CreateDetachedBlock { block },
        Event::SwitchToBlock { block } => Event::SwitchToBlock { block },
        Event::SealBlock { block } => Event::SealBlock { block },
        Event::ChangeJumpDestination { branch, from, to } => Event::ChangeJumpDestination {
            branch,
            from,
            to,
        },
    }
}

/// The cases of a switch, with their arguments as sequences.
pub open spec fn cases_view(cases: Seq<SwitchCase<Vec<Value>>>) -> Seq<SwitchCase<Seq<Value>>> {
    cases.map_values(
        |case: SwitchCase<Vec<Value>>|
            SwitchCase { value: case.value, successor: case.successor, arguments: case.arguments@ },
    )
}

/// A copy of a list of values.
pub fn copy_values(values: &[Value]) -> (copy: Vec<Value>)
    ensures
        copy@ == values@,
{
    let mut copy: Vec<Value> = Vec::new();
    let mut i: usize = 0;
    while i < values.len()
        invariant
            i <= values@.len(),
            copy@ == values@.take(i as int),
        decreases values@.len() - i,
    {
        copy.push(values[i]);
        i = i + 1;
    }
    assert(values@.take(values@.len() as int) == values@);
    copy
}

/// Builds a function, step by step.
pub struct FunctionBuilder {
    log: Vec<Event<Vec<Value>, Vec<SwitchCase<Vec<Value>>>>>,
    next: u32,
    blocks: Vec<Vec<Value>>,
}

impl View for FunctionBuilder {
    type V = Built;

    closed spec fn view(&self) -> Built {
        Built {
            log: self.log@.map_values(
                |event: Event<Vec<Value>, Vec<SwitchCase<Vec<Value>>>>| step_view(event),
            ),
            next: self.next as nat,
            blocks: self.blocks@.map_values(|params: Vec<Value>| params@),
        }
    }
}

impl FunctionBuilder {
    /// A construction without steps.
    pub fn new() -> (builder: FunctionBuilder)
        ensures
            builder@ == (Built { log: Seq::empty(), next: 0, blocks: Seq::empty() }),
    {
        let builder = FunctionBuilder { log: Vec::new(), next: 0, blocks: Vec::new() };
        assert(builder@ =~= (Built { log: Seq::empty(), next: 0, blocks: Seq::empty() }));
        builder
    }

    /// The steps taken so far.
    pub fn steps(&self) -> (steps: &Vec<Event<Vec<Value>, Vec<SwitchCase<Vec<Value>>>>>)
        ensures
            steps@.map_values(
                |event: Event<Vec<Value>, Vec<SwitchCase<Vec<Value>>>>| step_view(event),
            ) == self@.log,
    {
        &self.log
    }

    /// How many steps were taken so far.
    pub fn num_steps(&self) -> (n: usize)
        ensures
            n == self@.log.len(),
    {
        self.log.len()
    }

    /// How many blocks there are.
    pub fn num_blocks(&self) -> (n: usize)
        ensures
            n == self@.blocks.len(),
    {
        self.blocks.len()
    }

    /// Whether there are numbers for `n` more values, and for a few more blocks and steps, once one
    /// more step is taken.
    pub fn has_room_after_step(&self, n: u128) -> (b: bool)
        ensures
            b == (self@.next + n <= u32::MAX && self@.blocks.len() + 4 <= u32::MAX
                && self@.log.len() + 1 + 64 <= u32::MAX),
    {
        let max: u128 = u32::MAX as u128;
        n <= max && self.next as u128 + n <= max && self.blocks.len() as u128 + 4 <= max
            && self.log.len() as u128 + 65 <= max
    }

    /// Takes a step that defines no value.
    pub fn push(&mut self, event: Event<Vec<Value>, Vec<SwitchCase<Vec<Value>>>>)
        ensures
            final(self)@ == old(self)@.step(step_view(event), 0),
    {
        self.log.push(event);
        assert(self@ =~= old(self)@.step(step_view(event), 0));
    }

    fn value(&mut self, ty: IrType) -> (value: Value)
        requires
            old(self)@.next < u32::MAX,
        ensures
            value == old(self)@.fresh(0, ty),
            final(self)@ == (Built { next: old(self)@.next + 1, ..old(self)@ }),
    {
        let value = Value { id: self.next, ty };
        self.next = self.next + 1;
        assert(self@ =~= (Built { next: old(self)@.next + 1, ..old(self)@ }));
        value
    }

    /// Defines a constant.
    pub fn imm(&mut self, imm: Immediate) -> (value: Value)
        requires
            old(self)@.next < u32::MAX,
        ensures
            (final(self)@, value) == old(self)@.imm(imm),
    {
        let result = self.value(IrType::Scalar(imm.ty()));
        self.push(Event::Const { imm, result });
        result
    }

    /// Applies an operation to one value.
    pub fn unary(&mut self, op: UnaryOp, arg: Value) -> (value: Value)
        requires
            old(self)@.next < u32::MAX,
        ensures
            (final(self)@, value) == old(self)@.unary(op, arg),
    {
        let result = self.value(IrType::Scalar(ScalarType::U32));
        self.push(Event::Unary { op, arg, result });
        result
    }

    /// Applies an operation to two values.
    pub fn binary(&mut self, op: BinaryOp, lhs: Value, rhs: Value) -> (value: Value)
        requires
            old(self)@.next < u32::MAX,
        ensures
            (final(self)@, value) == old(self)@.binary(op, lhs, rhs),
    {
        let result = self.value(op.result_type(lhs.ty));
        self.push(Event::Binary { op, lhs, rhs, result });
        result
    }

    /// Converts a value.
    pub fn convert(&mut self, op: Conversion, arg: Value, ty: IrType) -> (value: Value)
        requires
            old(self)@.next < u32::MAX,
        ensures
            (final(self)@, value) == old(self)@.convert(op, arg, ty),
    {
        let result = self.value(ty);
        self.push(Event::Convert { op, arg, result });
        result
    }

    /// Bitcasts a value, unless it has the type.
    pub fn bitcast_unless(&mut self, arg: Value, ty: IrType) -> (value: Value)
        requires
            old(self)@.next < u32::MAX,
        ensures
            (final(self)@, value) == old(self)@.bitcast_unless(arg, ty),
    {
        if arg.ty == ty {
            arg
        } else {
            self.convert(Conversion::Bitcast, arg, ty)
        }
    }

    /// Selects one of two values.
    pub fn select(&mut self, cond: Value, first: Value, second: Value) -> (value: Value)
        requires
            old(self)@.next < u32::MAX,
        ensures
            (final(self)@, value) == old(self)@.select(cond, first, second),
    {
        let result = self.value(first.ty);
        self.push(Event::Select { cond, first, second, result });
        result
    }

    /// Values of the given types, for the next step.
    pub fn values(&mut self, types: &[ScalarType]) -> (values: Vec<Value>)
        requires
            old(self)@.next + types@.len() <= u32::MAX,
        ensures
            values@ == old(self)@.fresh_list(types@),
            final(self)@ == (Built { next: old(self)@.next + types@.len(), ..old(self)@ }),
    {
        let mut values: Vec<Value> = Vec::new();
        let mut i: usize = 0;
        while i < types.len()
            invariant
                i <= types@.len(),
                old(self)@.next + types@.len() <= u32::MAX,
                self@ == (Built { next: old(self)@.next + i as nat, ..old(self)@ }),
                values@ == old(self)@.fresh_list(types@).take(i as int),
            decreases types@.len() - i,
        {
            let value = self.value(IrType::Scalar(types[i]));
            values.push(value);
            i = i + 1;
            assert(values@ == old(self)@.fresh_list(types@).take(i as int));
        }
        assert(values@ == old(self)@.fresh_list(types@));
        values
    }

    /// A new block with parameters of the given types.
    pub fn create_block_with_params(&mut self, types: &[ScalarType]) -> (block: BlockId)
        requires
            old(self)@.next + types@.len() <= u32::MAX,
            old(self)@.blocks.len() <= u32::MAX,
        ensures
            (final(self)@, block) == old(self)@.create_block(types@),
    {
        let block = BlockId { index: self.blocks.len() as u32 };
        let params = self.values(types);
        self.push(Event::CreateBlock { block, params: copy_values(params.as_slice()) });
        self.blocks.push(params);
        assert(self@ =~= old(self)@.create_block(types@).0);
        block
    }

    /// A new block without parameters.
    pub fn create_block(&mut self) -> (block: BlockId)
        requires
            old(self)@.next <= u32::MAX,
            old(self)@.blocks.len() <= u32::MAX,
        ensures
            (final(self)@, block) == old(self)@.create_block(Seq::empty()),
    {
        let types: Vec<ScalarType> = Vec::new();
        self.create_block_with_params(types.as_slice())
    }

    /// A new block that nothing leads to.
    pub fn create_detached_block(&mut self) -> (block: BlockId)
        requires
            old(self)@.blocks.len() <= u32::MAX,
        ensures
            (final(self)@, block) == old(self)@.create_detached_block(),
    {
        let block = BlockId { index: self.blocks.len() as u32 };
        self.push(Event::CreateDetachedBlock { block });
        self.blocks.push(Vec::new());
        assert(self@ =~= old(self)@.create_detached_block().0);
        block
    }

    /// The parameters of `block`.
    pub fn block_params(&self, block: BlockId) -> (params: &Vec<Value>)
        requires
            block.index < self@.blocks.len(),
        ensures
            params@ == self@.params(block),
    {
        &self.blocks[block.index as usize]
    }

    /// Reads a variable of the given type.
    pub fn use_var(&mut self, var: u32, ty: ScalarType) -> (value: Value)
        requires
            old(self)@.next < u32::MAX,
        ensures
            value == old(self)@.fresh(0, IrType::Scalar(ty)),
            final(self)@ == old(self)@.step(Event::UseVar { var, result: value }, 1),
    {
        let result = self.value(IrType::Scalar(ty));
        self.push(Event::UseVar { var, result });
        result
    }

    /// Reads a global of the given type.
    pub fn load_global(&mut self, name: Symbol, ty: ScalarType) -> (value: Value)
        requires
            old(self)@.next < u32::MAX,
        ensures
            value == old(self)@.fresh(0, IrType::Scalar(ty)),
            final(self)@ == old(self)@.step(Event::LoadGlobal { name, result: value }, 1),
    {
        let result = self.value(IrType::Scalar(ty));
        self.push(Event::LoadGlobal { name, result });
        result
    }

    /// Reads memory through a pointer to a value of type `ty`.
    pub fn load(&mut self, addr: Value, ty: ScalarType) -> (value: Value)
        requires
            old(self)@.next < u32::MAX,
        ensures
            value == old(self)@.fresh(0, IrType::Scalar(ty)),
            final(self)@ == old(self)@.step(Event::Load { addr, result: value }, 1),
    {
        let result = self.value(IrType::Scalar(ty));
        self.push(Event::Load { addr, result });
        result
    }

    /// Grows memory.
    pub fn mem_grow(&mut self, pages: Value) -> (value: Value)
        requires
            old(self)@.next < u32::MAX,
        ensures
            value == old(self)@.fresh(0, IrType::Scalar(ScalarType::U32)),
            final(self)@ == old(self)@.step(Event::MemGrow { pages, result: value }, 1),
    {
        let result = self.value(IrType::Scalar(ScalarType::U32));
        self.push(Event::MemGrow { pages, result });
        result
    }

    /// The size of memory.
    pub fn mem_size(&mut self) -> (value: Value)
        requires
            old(self)@.next < u32::MAX,
        ensures
            value == old(self)@.fresh(0, IrType::Scalar(ScalarType::U32)),
            final(self)@ == old(self)@.step(Event::MemSize { result: value }, 1),
    {
        let result = self.value(IrType::Scalar(ScalarType::U32));
        self.push(Event::MemSize { result });
        result
    }

    /// Joins two halves to a value of type `ty`.
    pub fn join(&mut self, hi: Value, lo: Value, ty: IrType) -> (value: Value)
        requires
            old(self)@.next < u32::MAX,
        ensures
            value == old(self)@.fresh(0, ty),
            final(self)@ == old(self)@.step(Event::Join { hi, lo, result: value }, 1),
    {
        let result = self.value(ty);
        self.push(Event::Join { hi, lo, result });
        result
    }

    /// Splits a value into two halves of type `ty`.
    pub fn split(&mut self, arg: Value, ty: IrType) -> (halves: (Value, Value))
        requires
            old(self)@.next + 2 <= u32::MAX,
        ensures
            halves.0 == old(self)@.fresh(0, ty),
            halves.1 == old(self)@.fresh(1, ty),
            final(self)@ == old(self)@.step(Event::Split { arg, hi: halves.0, lo: halves.1 }, 2),
    {
        let hi = self.value(ty);
        let lo = self.value(ty);
        self.push(Event::Split { arg, hi, lo });
        assert(self@ =~= old(self)@.step(Event::Split { arg, hi, lo }, 2));
        (hi, lo)
    }
}

} // verus!

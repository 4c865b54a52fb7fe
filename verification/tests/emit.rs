use midenc::masm::emit::{InvokeSet, OpEmitter};
use midenc::masm::inst::{
    dup_from_offset, movdn_from_offset, movdnw_from_offset, movup_from_offset, movupw_from_offset,
    swap_from_offset, swapw_from_offset, Instruction, InvocationTarget, Invoke, InvokeKind, Op,
    PushValue, TraceEvent,
};
use midenc::masm::stack::{Operand, OperandStack, ValueRef};
use midenc::span::SourceSpan;
use midenc::symbol::Interner;
use midenc::types::{Immediate, ScalarType};

fn push(value: PushValue) -> Op {
    Op::Inst(SourceSpan::unknown(), Instruction::Push(value))
}

fn inst(inst: Instruction) -> Op {
    Op::Inst(SourceSpan::unknown(), inst)
}

fn value(id: u32) -> ValueRef {
    ValueRef { id, size: 1 }
}

#[test]
fn op_emitter_stack_manipulation_test() {
    let mut block = Vec::default();

    let mut stack = OperandStack::new();
    let mut invoked = InvokeSet::new();
    let mut emitter = OpEmitter::new(&mut invoked, &mut block, &mut stack);

    let one = Immediate::U32(1);
    let two = Immediate::U32(2);
    let three = Immediate::U8(3);
    let four = Immediate::U64(2u64.pow(32));
    let five = Immediate::U64(2u64.pow(32) | 2u64.pow(33) | u32::MAX as u64);

    let span = SourceSpan::unknown();
    emitter.literal(one, span);
    emitter.literal(two, span);
    emitter.literal(three, span);
    emitter.literal(four, span);
    emitter.literal(five, span);

    let one = Operand::Const(one);
    let two = Operand::Const(two);
    let three = Operand::Const(three);
    let four = Operand::Const(four);
    let five = Operand::Const(five);

    {
        let ops = emitter.current_block();
        assert_eq!(ops.len(), 7);
        assert_eq!(&ops[0], &push(PushValue::U32(1)));
        assert_eq!(&ops[1], &push(PushValue::U32(2)));
        assert_eq!(&ops[2], &push(PushValue::U8(3)));
        assert_eq!(&ops[3], &push(PushValue::Felt(0)));
        assert_eq!(&ops[4], &push(PushValue::Felt(1)));
        assert_eq!(&ops[5], &push(PushValue::Felt(u32::MAX as u64)));
        assert_eq!(&ops[6], &push(PushValue::Felt(3)));
    }

    assert_eq!(emitter.stack().get(0), five);
    assert_eq!(emitter.stack().get(1), four);
    assert_eq!(emitter.stack().get(2), three);
    assert_eq!(emitter.stack().get(3), two);
    assert_eq!(emitter.stack().get(4), one);

    emitter.dup(0, span);
    assert_eq!(emitter.stack().get(0), five);
    assert_eq!(emitter.stack().get(1), five);
    assert_eq!(emitter.stack().get(2), four);
    assert_eq!(emitter.stack().get(3), three);
    assert_eq!(emitter.stack().get(4), two);

    {
        let ops = emitter.current_block();
        assert_eq!(ops.len(), 9);
        assert_eq!(&ops[7], &inst(Instruction::Dup1));
        assert_eq!(&ops[8], &inst(Instruction::Dup1));
    }

    assert_eq!(emitter.stack().effective_index(3), 6);
    emitter.dup(3, span);
    assert_eq!(emitter.stack().get(0), three);
    assert_eq!(emitter.stack().get(1), five);
    assert_eq!(emitter.stack().get(2), five);
    assert_eq!(emitter.stack().get(3), four);
    assert_eq!(emitter.stack().get(4), three);
    assert_eq!(emitter.stack().get(5), two);

    {
        let ops = emitter.current_block();
        assert_eq!(ops.len(), 10);
        assert_eq!(&ops[8], &inst(Instruction::Dup1));
        assert_eq!(&ops[9], &inst(Instruction::Dup6));
    }

    assert_eq!(emitter.stack().effective_index(1), 1);
    emitter.swap(1, span);
    assert_eq!(emitter.stack().effective_index(1), 2);
    assert_eq!(emitter.stack().get(0), five);
    assert_eq!(emitter.stack().get(1), three);
    assert_eq!(emitter.stack().get(2), five);
    assert_eq!(emitter.stack().get(3), four);
    assert_eq!(emitter.stack().get(4), three);
    assert_eq!(emitter.stack().get(5), two);

    {
        let ops = emitter.current_block();
        assert_eq!(ops.len(), 11);
        assert_eq!(&ops[10], &inst(Instruction::MovDn2));
    }

    assert_eq!(emitter.stack().effective_index(3), 5);
    emitter.swap(3, span);
    assert_eq!(emitter.stack().get(0), four);
    assert_eq!(emitter.stack().get(1), three);
    assert_eq!(emitter.stack().get(2), five);
    assert_eq!(emitter.stack().get(3), five);
    assert_eq!(emitter.stack().get(4), three);
    assert_eq!(emitter.stack().get(5), two);

    {
        let ops = emitter.current_block();
        assert_eq!(ops.len(), 15);
        // [five_a, five_b, three, five_c, five_d, four_a, four_b]
        assert_eq!(&ops[10], &inst(Instruction::MovDn2));
        // [five_b, three, five_c, five_d, four_a, four_b, five_a]
        assert_eq!(&ops[11], &inst(Instruction::MovDn6));
        // [three, five_c, five_d, four_a, four_b, five_a, five_b]
        assert_eq!(&ops[12], &inst(Instruction::MovDn6));
        // [four_b, three, five_c, five_d, four_a, five_a, five_b]
        assert_eq!(&ops[13], &inst(Instruction::MovUp4));
        // [four_a, four_b, three, five_c, five_d, five_a, five_b]
        assert_eq!(&ops[14], &inst(Instruction::MovUp4));
    }

    emitter.movdn(2, span);
    assert_eq!(emitter.stack().get(0), three);
    assert_eq!(emitter.stack().get(1), five);
    assert_eq!(emitter.stack().get(2), four);
    assert_eq!(emitter.stack().get(3), five);
    assert_eq!(emitter.stack().get(4), three);
    assert_eq!(emitter.stack().get(5), two);

    {
        let ops = emitter.current_block();
        assert_eq!(ops.len(), 17);
        assert_eq!(&ops[12], &inst(Instruction::MovDn6));
        assert_eq!(&ops[13], &inst(Instruction::MovUp4));
        assert_eq!(&ops[14], &inst(Instruction::MovUp4));
        // [four_b, three, five_c, five_d, four_a, five_a, five_b]
        assert_eq!(&ops[15], &inst(Instruction::MovDn4));
        // [three, five_c, five_d, four_a, four_b, five_a, five_b]
        assert_eq!(&ops[16], &inst(Instruction::MovDn4));
    }

    emitter.movup(2, span);
    assert_eq!(emitter.stack().get(0), four);
    assert_eq!(emitter.stack().get(1), three);
    assert_eq!(emitter.stack().get(2), five);
    assert_eq!(emitter.stack().get(3), five);
    assert_eq!(emitter.stack().get(4), three);
    assert_eq!(emitter.stack().get(5), two);

    {
        let ops = emitter.current_block();
        assert_eq!(ops.len(), 19);
        assert_eq!(&ops[16], &inst(Instruction::MovDn4));
        // [four_b, three, five_c, five_d, four_a, five_a, five_b]
        assert_eq!(&ops[17], &inst(Instruction::MovUp4));
        // [four_a, four_b, three, five_c, five_d, five_a, five_b]
        assert_eq!(&ops[18], &inst(Instruction::MovUp4));
    }

    emitter.drop(span);
    assert_eq!(emitter.stack().get(0), three);
    assert_eq!(emitter.stack().get(1), five);
    assert_eq!(emitter.stack().get(2), five);
    assert_eq!(emitter.stack().get(3), three);
    assert_eq!(emitter.stack().get(4), two);
    assert_eq!(emitter.stack().get(5), one);

    {
        let ops = emitter.current_block();
        assert_eq!(ops.len(), 21);
        assert_eq!(&ops[18], &inst(Instruction::MovUp4));
        // [four_b, three, five_c, five_d, five_a, five_b]
        assert_eq!(&ops[19], &inst(Instruction::Drop));
        // [three, five_c, five_d, five_a, five_b]
        assert_eq!(&ops[20], &inst(Instruction::Drop));
    }

    emitter.copy_operand_to_position(5, 3, false, span);
    assert_eq!(emitter.stack().get(0), three);
    assert_eq!(emitter.stack().get(1), five);
    assert_eq!(emitter.stack().get(2), five);
    assert_eq!(emitter.stack().get(3), one);
    assert_eq!(emitter.stack().get(4), three);
    assert_eq!(emitter.stack().get(5), two);

    emitter.drop_operand_at_position(4, span);
    assert_eq!(emitter.stack().get(0), three);
    assert_eq!(emitter.stack().get(1), five);
    assert_eq!(emitter.stack().get(2), five);
    assert_eq!(emitter.stack().get(3), one);
    assert_eq!(emitter.stack().get(4), two);

    emitter.move_operand_to_position(4, 2, false, span);
    assert_eq!(emitter.stack().get(0), three);
    assert_eq!(emitter.stack().get(1), five);
    assert_eq!(emitter.stack().get(2), two);
    assert_eq!(emitter.stack().get(3), five);
    assert_eq!(emitter.stack().get(4), one);
}

#[test]
fn op_emitter_copy_operand_to_position_test() {
    let mut block = Vec::default();
    let mut invoked = InvokeSet::new();
    let mut stack = OperandStack::new();
    let mut emitter = OpEmitter::new(&mut invoked, &mut block, &mut stack);

    let v0 = value(0);
    let v1 = value(1);
    let v2 = value(2);
    let v3 = value(3);
    let v4 = value(4);
    let v5 = value(5);
    let v6 = value(6);

    emitter.push(Operand::Value(v1));
    emitter.push(Operand::Value(v0));
    emitter.push(Operand::Value(v3));
    emitter.push(Operand::Value(v4));
    emitter.push(Operand::Value(v6));
    emitter.push(Operand::Value(v5));
    emitter.push(Operand::Value(v2));

    assert_eq!(emitter.stack().find(&v3), Some(4));

    assert_eq!(emitter.stack().get(4), Operand::Value(v3));
    assert_eq!(emitter.stack().get(2), Operand::Value(v6));
    emitter.copy_operand_to_position(4, 2, false, SourceSpan::unknown());
    assert_eq!(emitter.stack().get(5), Operand::Value(v3));
    assert_eq!(emitter.stack().get(2), Operand::Value(v3));

    {
        let ops = emitter.current_block();
        assert_eq!(ops.len(), 2);
        assert_eq!(&ops[0], &inst(Instruction::Dup4));
        assert_eq!(&ops[1], &inst(Instruction::MovDn2));
    }
}

#[test]
fn an_immediate_takes_one_push_per_limb_from_the_highest() {
    let mut block = Vec::new();
    let mut stack = OperandStack::new();
    let mut invoked = InvokeSet::new();
    let mut emitter = OpEmitter::new(&mut invoked, &mut block, &mut stack);
    emitter.literal(Immediate::U128((4u128 << 96) | (3u128 << 64) | (2u128 << 32) | 1), SourceSpan::unknown());
    assert_eq!(emitter.stack().raw_len(), 4);
    assert_eq!(emitter.stack().peek(), Some(Operand::Const(Immediate::U128((4u128 << 96) | (3u128 << 64) | (2u128 << 32) | 1))));
    let mut limbs: Vec<u64> = Vec::new();
    for op in emitter.current_block().iter() {
        match op {
            Op::Inst(_, Instruction::Push(PushValue::Felt(limb))) => limbs.push(*limb),
            other => panic!("not a push of a limb: {:?}", other),
        }
    }
    limbs.sort();
    assert_eq!(limbs, vec![1, 2, 3, 4]);
}

#[test]
fn the_instruction_for_each_offset() {
    assert_eq!(dup_from_offset(0), Instruction::Dup0);
    assert_eq!(dup_from_offset(15), Instruction::Dup15);
    assert_eq!(swap_from_offset(1), Instruction::Swap1);
    assert_eq!(swap_from_offset(15), Instruction::Swap15);
    assert_eq!(swapw_from_offset(3), Instruction::SwapW3);
    assert_eq!(movup_from_offset(2), Instruction::MovUp2);
    assert_eq!(movdn_from_offset(15), Instruction::MovDn15);
    assert_eq!(movupw_from_offset(2), Instruction::MovUpW2);
    assert_eq!(movdnw_from_offset(3), Instruction::MovDnW3);
}

#[test]
fn calls_are_recorded_once() {
    let mut interner = Interner::new();
    let callee = InvocationTarget::Path(interner.intern("intrinsics::mem::load"));
    let mut block = Vec::new();
    let mut stack = OperandStack::new();
    let mut invoked = InvokeSet::new();
    let mut emitter = OpEmitter::new(&mut invoked, &mut block, &mut stack);
    let span = SourceSpan::unknown();
    emitter.raw_exec(callee, span);
    emitter.raw_exec(callee, span);
    emitter.emit(Instruction::SysCall(callee), span);
    emitter.emit(Instruction::Nop, span);
    assert_eq!(invoked.len(), 2);
    assert!(invoked.contains(Invoke { kind: InvokeKind::Exec, target: callee }));
    assert!(invoked.contains(Invoke { kind: InvokeKind::SysCall, target: callee }));
    assert!(!invoked.contains(Invoke { kind: InvokeKind::Call, target: callee }));
    // A call is framed by two events.
    assert_eq!(block[0], inst(Instruction::Trace(TraceEvent::FrameStart)));
    assert_eq!(block[2], inst(Instruction::Exec(callee)));
    assert_eq!(block[3], inst(Instruction::Trace(TraceEvent::FrameEnd)));
}

#[test]
fn instructions_are_repeated() {
    let mut block = Vec::new();
    let mut stack = OperandStack::new();
    let mut invoked = InvokeSet::new();
    let mut emitter = OpEmitter::new(&mut invoked, &mut block, &mut stack);
    let span = SourceSpan::unknown();
    emitter.emit_n(3, Instruction::Drop, span);
    emitter.emit_repeat(2, &[(span, Instruction::Dup0), (span, Instruction::Swap1)]);
    emitter.emit_all(&[Instruction::Gt, Instruction::Assert], span);
    emitter.emit_template(2, |n: usize| {
        [(SourceSpan::unknown(), if n == 0 { Instruction::Dup1 } else { Instruction::Dup2 })]
    });
    assert_eq!(block.len(), 11);
    assert_eq!(block[2], inst(Instruction::Drop));
    assert_eq!(block[3], inst(Instruction::Dup0));
    assert_eq!(block[6], inst(Instruction::Swap1));
    assert_eq!(block[8], inst(Instruction::Assert));
    assert_eq!(block[9], inst(Instruction::Dup1));
    assert_eq!(block[10], inst(Instruction::Dup2));
}

#[test]
fn the_stack_is_truncated_to_its_top() {
    let mut block = Vec::new();
    let mut stack = OperandStack::new();
    let mut invoked = InvokeSet::new();
    let mut emitter = OpEmitter::new(&mut invoked, &mut block, &mut stack);
    let span = SourceSpan::unknown();
    for id in 0..4 {
        emitter.push(Operand::Value(value(id)));
    }
    emitter.truncate_stack(1, span);
    assert_eq!(emitter.stack_len(), 1);
    assert_eq!(emitter.stack().get(0), Operand::Value(value(3)));
    emitter.dropn(1, span);
    assert_eq!(emitter.stack_len(), 0);
    assert_eq!(emitter.pop(), None);
}

#[test]
fn a_commutative_operand_stays_where_it_is() {
    let mut block = Vec::new();
    let mut stack = OperandStack::new();
    let mut invoked = InvokeSet::new();
    let mut emitter = OpEmitter::new(&mut invoked, &mut block, &mut stack);
    emitter.push(Operand::Value(value(0)));
    emitter.push(Operand::Value(value(1)));
    emitter.move_operand_to_position(1, 0, false, SourceSpan::unknown());
    assert_eq!(emitter.stack().get(0), Operand::Value(value(0)));
    assert_eq!(emitter.current_block().len(), 1);
}

#[test]
fn operands_take_as_many_elements_as_their_type() {
    assert_eq!(Operand::Typed(ScalarType::I128).size(), 4);
    assert_eq!(Operand::Typed(ScalarType::U64).size(), 2);
    assert_eq!(Operand::Const(Immediate::I1(true)).size(), 1);
    assert_eq!(Operand::Value(ValueRef { id: 7, size: 8 }).size(), 8);
}

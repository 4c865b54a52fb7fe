//! What the machine does when a program starts: that the initializer of a component sets up the heap
//! and the data segments.
use vstd::prelude::*;
use crate::masm::artifact::{self, elements_of, rpo_digest, Rodata, RuntimePaths, Word};
use crate::masm::component::{
    globals_code, heap_code, init_code, segment_code, segments_code, ComponentItem,
};
use crate::masm::inst::{self, Instruction, InvocationTarget, Op};
use crate::masm::machine;
use crate::span::SourceSpan;

verus! {

/// The machine, as far as it matters when a program starts.
pub ghost struct Machine {
    /// The operand stack, its top first
    pub stack: Seq<int>,
    /// The element at each address
    pub memory: spec_fn(int) -> int,
    /// The advice stack, its top first
    pub advice: Seq<u64>,
    /// The advice map
    pub map: spec_fn(Word) -> Option<Seq<u64>>,
    /// Where the heap was made to start, each time that it was
    pub heaps: Seq<int>,
    /// The other procedures that were executed
    pub executed: Seq<InvocationTarget>,
    /// Whether an instruction failed
    pub failed: bool,
}

/// The word on top of a stack.
pub open spec fn top_word(stack: Seq<int>) -> Word {
    Word { a: stack[3] as u64, b: stack[2] as u64, c: stack[1] as u64, d: stack[0] as u64 }
}

impl Machine {
    /// The machine after an instruction failed.
    pub open spec fn fails(self) -> Machine {
        Machine { failed: true, ..self }
    }

    /// The heap is made to start at the address on top of the stack.
    pub open spec fn sets_heap(self) -> Machine {
        Machine { heaps: self.heaps.push(self.stack[0]), stack: self.stack.skip(1), ..self }
    }

    /// As many words as the top of the stack says are moved from the advice stack to the address
    /// below it. Their digest has to be the word below that. The address after them is left.
    pub open spec fn pipes_preimage(self) -> Machine {
        let n = 4 * self.stack[0];
        let at = self.stack[1];
        if n < 0 || n > self.advice.len() || self.stack.len() < 6 || rpo_digest(self.advice.take(n))
            != top_word(self.stack.skip(2)) {
            self.fails()
        } else {
            Machine {
                stack: seq![at + n] + self.stack.skip(6),
                memory: |i: int|
                    if at <= i < at + n {
                        self.advice[i - at] as int
                    } else {
                        (self.memory)(i)
                    },
                advice: self.advice.skip(n),
                ..self
            }
        }
    }

    /// What the machine does when it executes an instruction.
    pub open spec fn step(self, inst: Instruction, paths: RuntimePaths) -> Machine {
        if self.failed {
            self
        } else {
            match inst {
                Instruction::Exec(target) => if target == InvocationTarget::Path(paths.heap_init) {
                    self.sets_heap()
                } else if target == InvocationTarget::Path(paths.pipe_preimage_to_memory) {
                    self.pipes_preimage()
                } else {
                    Machine { executed: self.executed.push(target), ..self }
                },
                Instruction::AdvPushMapVal => match (self.map)(top_word(self.stack)) {
                    Some(values) => Machine { advice: values + self.advice, ..self },
                    None => self.fails(),
                },
                _ => Machine { stack: machine::step(inst, self.stack), ..self },
            }
        }
    }

    /// What the machine does when it executes a line of instructions.
    pub open spec fn run(self, insts: Seq<Instruction>, paths: RuntimePaths) -> Machine
        decreases insts.len(),
    {
        if insts.len() == 0 {
            self
        } else {
            self.run(insts.drop_last(), paths).step(insts.last(), paths)
        }
    }

    /// What the machine does when it executes operations that are a line of instructions.
    pub open spec fn run_ops(self, ops: Seq<Op>, paths: RuntimePaths) -> Machine
        decreases ops.len(),
    {
        if ops.len() == 0 {
            self
        } else {
            match ops.last() {
                Op::Inst(_, inst) => self.run_ops(ops.drop_last(), paths).step(inst, paths),
                _ => self.run_ops(ops.drop_last(), paths).fails(),
            }
        }
    }
}

proof fn run_of_sum(m: Machine, a: Seq<Instruction>, b: Seq<Instruction>, paths: RuntimePaths)
    ensures
        m.run(a + b, paths) == m.run(a, paths).run(b, paths),
    decreases b.len(),
{
    if b.len() == 0 {
        assert(a + b =~= a);
    } else {
        assert((a + b).drop_last() =~= a + b.drop_last());
        run_of_sum(m, a, b.drop_last(), paths);
    }
}

proof fn run_of_ops(m: Machine, a: Seq<Op>, b: Seq<Op>, paths: RuntimePaths)
    ensures
        m.run_ops(a + b, paths) == m.run_ops(a, paths).run_ops(b, paths),
    decreases b.len(),
{
    if b.len() == 0 {
        assert(a + b =~= a);
    } else {
        assert((a + b).drop_last() =~= a + b.drop_last());
        run_of_ops(m, a, b.drop_last(), paths);
    }
}

proof fn run_of_line(m: Machine, span: SourceSpan, insts: Seq<Instruction>, paths: RuntimePaths)
    ensures
        m.run_ops(inst::line(span, insts), paths) == m.run(insts, paths),
    decreases insts.len(),
{
    if insts.len() > 0 {
        assert(inst::line(span, insts).drop_last() =~= inst::line(span, insts.drop_last()));
        run_of_line(m, span, insts.drop_last(), paths);
    }
}

proof fn run_of_push(m: Machine, insts: Seq<Instruction>, inst: Instruction, paths: RuntimePaths)
    ensures
        m.run(insts.push(inst), paths) == m.run(insts, paths).step(inst, paths),
{
    assert(insts.push(inst).drop_last() =~= insts);
}

/// Read-only data can be put in memory: its digest is that of its elements, and the advice map has
/// the elements for it.
pub open spec fn is_provided(m: Machine, rodata: Rodata) -> bool {
    &&& rodata.digest == rpo_digest(elements_of(rodata.data@))
    &&& (m.map)(rodata.digest) == Some(elements_of(rodata.data@))
    &&& artifact::words_for(rodata.data@.len()) <= u32::MAX
}

/// The memory with read-only data in it.
pub open spec fn with_data(memory: spec_fn(int) -> int, rodata: Rodata) -> spec_fn(int) -> int {
    let at = rodata.start.addr as int;
    let elements = elements_of(rodata.data@);
    |i: int|
        if at <= i < at + elements.len() {
            elements[i - at] as int
        } else {
            memory(i)
        }
}

proof fn segment_is_written(m: Machine, rodata: Rodata, paths: RuntimePaths)
    requires
        !m.failed,
        is_provided(m, rodata),
        paths.heap_init != paths.pipe_preimage_to_memory,
    ensures
        m.run(segment_code(rodata, paths), paths) == (Machine {
            memory: with_data(m.memory, rodata),
            ..m
        }),
{
    let d = rodata.digest;
    let elements = elements_of(rodata.data@);
    let words = artifact::words_for(rodata.data@.len());
    let at = rodata.start.addr;
    let code = segment_code(rodata, paths);
    let c1 = Seq::<Instruction>::empty().push(code[0]);
    let c2 = c1.push(code[1]);
    let c3 = c2.push(code[2]);
    let c4 = c3.push(code[3]);
    let c5 = c4.push(code[4]);
    let c6 = c5.push(code[5]);
    let c7 = c6.push(code[6]);
    let c8 = c7.push(code[7]);
    assert(code =~= c8);
    run_of_push(m, Seq::empty(), code[0], paths);
    run_of_push(m, c1, code[1], paths);
    run_of_push(m, c2, code[2], paths);
    run_of_push(m, c3, code[3], paths);
    run_of_push(m, c4, code[4], paths);
    run_of_push(m, c5, code[5], paths);
    run_of_push(m, c6, code[6], paths);
    run_of_push(m, c7, code[7], paths);
    let word = seq![d.d as int, d.c as int, d.b as int, d.a as int];
    let m1 = m.run(c1, paths);
    assert(m1 == Machine { stack: word + m.stack, ..m });
    assert(top_word(m1.stack) == d);
    let m2 = m.run(c2, paths);
    assert(m2 == Machine { advice: elements + m.advice, ..m1 });
    let m4 = m.run(c4, paths);
    assert(m4 == Machine {
        stack: seq![words as int] + (seq![at as int] + (word + m.stack)),
        ..m2
    });
    let m5 = m.run(c5, paths);
    assert(m5 == m4);
    assert(m5.stack.skip(2) =~= word + m.stack);
    assert(m5.advice.take(4 * words as int) =~= elements);
    assert(m5.advice.skip(4 * words as int) =~= m.advice);
    assert(m5.stack.skip(6) =~= m.stack);
    let m6 = m.run(c6, paths);
    assert(m6.memory =~= with_data(m.memory, rodata));
    assert(m6.stack == seq![at + 4 * words] + m.stack);
    let m8 = m.run(c8, paths);
    assert(m8.stack =~= m.stack);
}

/// The data of two segments are at different addresses.
pub open spec fn apart(a: Rodata, b: Rodata) -> bool {
    a.start.addr + elements_of(a.data@).len() <= b.start.addr || b.start.addr + elements_of(
        b.data@,
    ).len() <= a.start.addr
}

proof fn segments_are_written(m: Machine, rodata: Seq<Rodata>, n: int, paths: RuntimePaths)
    requires
        !m.failed,
        0 <= n <= rodata.len(),
        forall|i: int| 0 <= i < rodata.len() ==> is_provided(m, #[trigger] rodata[i]),
        forall|i: int, j: int|
            0 <= i < j < rodata.len() ==> apart(#[trigger] rodata[i], #[trigger] rodata[j]),
        paths.heap_init != paths.pipe_preimage_to_memory,
    ensures
        ({
            let after = m.run(segments_code(rodata, n, paths), paths);
            &&& after == Machine { memory: after.memory, ..m }
            &&& forall|i: int, k: int|
                0 <= i < n && 0 <= k < elements_of(rodata[i].data@).len() ==> (after.memory)(
                    rodata[i].start.addr + k,
                ) == #[trigger] elements_of(rodata[i].data@)[k]
            &&& forall|at: int|
                (forall|i: int|
                    0 <= i < n ==> at < (#[trigger] rodata[i]).start.addr || at
                        >= rodata[i].start.addr + elements_of(rodata[i].data@).len()) ==> #[trigger] (
                after.memory)(at) == (m.memory)(at)
        }),
    decreases n,
{
    if n > 0 {
        segments_are_written(m, rodata, n - 1, paths);
        let before = m.run(segments_code(rodata, n - 1, paths), paths);
        let last = rodata[n - 1];
        run_of_sum(m, segments_code(rodata, n - 1, paths), segment_code(last, paths), paths);
        segment_is_written(before, last, paths);
        let after = m.run(segments_code(rodata, n, paths), paths);
        assert(after.memory == with_data(before.memory, last));
        assert forall|i: int, k: int|
            0 <= i < n && 0 <= k < elements_of(rodata[i].data@).len() implies (after.memory)(
            rodata[i].start.addr + k,
        ) == #[trigger] elements_of(rodata[i].data@)[k] by {
            if i < n - 1 {
                assert(apart(rodata[i], rodata[n - 1]));
                assert((before.memory)(rodata[i].start.addr + k) == elements_of(
                    rodata[i].data@,
                )[k]);
            }
        }
        assert forall|at: int|
            (forall|i: int|
                0 <= i < n ==> at < (#[trigger] rodata[i]).start.addr || at
                    >= rodata[i].start.addr + elements_of(rodata[i].data@).len()) implies #[trigger] (
        after.memory)(at) == (m.memory)(at) by {
            assert(at < rodata[n - 1].start.addr || at >= last.start.addr + elements_of(
                last.data@,
            ).len());
            assert((before.memory)(at) == (m.memory)(at));
        }
    }
}

/// The heap was made to start once more, at its base, and memory from the start of each segment on
/// holds the elements of its data. The rest of memory and the stacks are as before.
pub open spec fn is_set_up(m: Machine, after: Machine, heap_base: u32, rodata: Seq<Rodata>) -> bool {
    &&& !after.failed
    &&& after.heaps == m.heaps.push(heap_base as int)
    &&& after.stack == m.stack
    &&& after.advice == m.advice
    &&& after.executed == m.executed
    &&& forall|i: int, k: int|
        0 <= i < rodata.len() && 0 <= k < elements_of(rodata[i].data@).len() ==> (after.memory)(
            rodata[i].start.addr + k,
        ) == #[trigger] elements_of(rodata[i].data@)[k]
    &&& forall|at: int|
        (forall|i: int|
            0 <= i < rodata.len() ==> at < (#[trigger] rodata[i]).start.addr || at
                >= rodata[i].start.addr + elements_of(rodata[i].data@).len()) ==> #[trigger] (
        after.memory)(at) == (m.memory)(at)
}

/// After the code that initializes a component, the heap was made to start once, at its base, and
/// memory from the start of each segment on holds the elements of its data. The rest of memory and
/// the stacks are as before.
pub proof fn initializers_set_up_heap_and_data(
    m: Machine,
    heap_base: u32,
    rodata: Seq<Rodata>,
    paths: RuntimePaths,
    span: SourceSpan,
)
    requires
        !m.failed,
        forall|i: int| 0 <= i < rodata.len() ==> is_provided(m, #[trigger] rodata[i]),
        forall|i: int, j: int|
            0 <= i < j < rodata.len() ==> apart(#[trigger] rodata[i], #[trigger] rodata[j]),
        paths.heap_init != paths.pipe_preimage_to_memory,
    ensures
        ({
            let after = m.run_ops(
                inst::line(span, heap_code(heap_base, paths)) + inst::line(
                    SourceSpan::unknown_span(),
                    segments_code(rodata, rodata.len() as int, paths),
                ),
                paths,
            );
            is_set_up(m, after, heap_base, rodata)
        }),
{
    let heap = heap_code(heap_base, paths);
    let data = segments_code(rodata, rodata.len() as int, paths);
    run_of_ops(m, inst::line(span, heap), inst::line(SourceSpan::unknown_span(), data), paths);
    run_of_line(m, span, heap, paths);
    let c1 = Seq::<Instruction>::empty().push(heap[0]);
    let c2 = c1.push(heap[1]);
    let c3 = c2.push(heap[2]);
    assert(heap =~= c3.push(heap[3]));
    run_of_push(m, Seq::empty(), heap[0], paths);
    run_of_push(m, c1, heap[1], paths);
    run_of_push(m, c2, heap[2], paths);
    run_of_push(m, c3, heap[3], paths);
    let ready = m.run(heap, paths);
    assert(ready.stack =~= m.stack);
    assert(ready == Machine { heaps: m.heaps.push(heap_base as int), ..m });
    run_of_line(ready, SourceSpan::unknown_span(), data, paths);
    segments_are_written(ready, rodata, rodata.len() as int, paths);
}

/// The initializer of a component sets up the heap and the data segments first. The code of its
/// globals runs after that.
pub proof fn globals_are_initialized_last(
    m: Machine,
    heap_base: u32,
    rodata: Seq<Rodata>,
    items: Seq<ComponentItem>,
    paths: RuntimePaths,
    span: SourceSpan,
)
    requires
        !m.failed,
        forall|i: int| 0 <= i < rodata.len() ==> is_provided(m, #[trigger] rodata[i]),
        forall|i: int, j: int|
            0 <= i < j < rodata.len() ==> apart(#[trigger] rodata[i], #[trigger] rodata[j]),
        paths.heap_init != paths.pipe_preimage_to_memory,
    ensures
        exists|ready: Machine|
            is_set_up(m, ready, heap_base, rodata) && m.run_ops(
                init_code(heap_base, rodata, items, span, paths),
                paths,
            ) == #[trigger] ready.run_ops(globals_code(items, items.len() as int), paths),
{
    initializers_set_up_heap_and_data(m, heap_base, rodata, paths, span);
    let first = inst::line(span, heap_code(heap_base, paths)) + inst::line(
        SourceSpan::unknown_span(),
        segments_code(rodata, rodata.len() as int, paths),
    );
    let globals = globals_code(items, items.len() as int);
    run_of_ops(m, first, globals, paths);
    let ready = m.run_ops(first, paths);
    assert(init_code(heap_base, rodata, items, span, paths) == first + globals);
    assert(is_set_up(m, ready, heap_base, rodata));
    assert(m.run_ops(init_code(heap_base, rodata, items, span, paths), paths) == ready.run_ops(
        globals,
        paths,
    ));
}

} // verus!

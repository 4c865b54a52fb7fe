//! What a program does from its start to its end: that the main procedure initializes memory, runs
//! the program once, and leaves the stack as it has to be.
use vstd::prelude::*;
use crate::masm::artifact::{
    harness_head, harness_loop, is_harness, is_main, main_head, main_tail, RuntimePaths,
};
use crate::masm::inst::{self, Instruction, InvocationTarget, Op, TraceEvent};
use crate::masm::machine;
use crate::span::SourceSpan;

verus! {

/// The machine, as far as it matters to the main procedure.
pub ghost struct Runner {
    /// The operand stack, its top first
    pub stack: Seq<int>,
    /// The element at each address
    pub memory: spec_fn(int) -> int,
    /// The advice stack, its top first
    pub advice: Seq<int>,
    /// How many frames are open
    pub frames: int,
    /// The procedures that were executed, each with the number of frames around it
    pub executed: Seq<(InvocationTarget, int)>,
    /// The state that a hash of elements leaves
    pub hash: spec_fn(Seq<int>) -> spec_fn(int) -> int,
    /// Whether an instruction failed
    pub failed: bool,
}

impl Runner {
    /// The machine after an instruction failed.
    pub open spec fn fails(self) -> Runner {
        Runner { failed: true, ..self }
    }

    /// As many words as the top of the stack says are moved from the advice stack to the address
    /// below it. The state of their hash is left, three words, and below it the address after them.
    pub open spec fn pipes_words(self) -> Runner {
        let n = 4 * self.stack[0];
        let at = self.stack[1];
        if n < 0 || n > self.advice.len() || self.stack.len() < 2 {
            self.fails()
        } else {
            let state = (self.hash)(self.advice.take(n));
            Runner {
                stack: Seq::new(12, |i: int| state(i)) + (seq![at + n] + self.stack.skip(2)),
                memory: with_block(self.memory, at, self.advice.take(n)),
                advice: self.advice.skip(n),
                ..self
            }
        }
    }

    /// What the machine does when it executes an instruction.
    pub open spec fn step(self, inst: Instruction, paths: RuntimePaths) -> Runner {
        if self.failed {
            self
        } else {
            match inst {
                Instruction::Exec(target) => {
                    let m = Runner { executed: self.executed.push((target, self.frames)), ..self };
                    if target == InvocationTarget::Path(paths.pipe_words_to_memory) {
                        m.pipes_words()
                    } else {
                        m
                    }
                },
                Instruction::AdvPush(n) => if n > self.advice.len() {
                    self.fails()
                } else {
                    Runner {
                        stack: self.advice.take(n as int).reverse() + self.stack,
                        advice: self.advice.skip(n as int),
                        ..self
                    }
                },
                Instruction::Trace(event) => match event {
                    TraceEvent::FrameStart => Runner { frames: self.frames + 1, ..self },
                    TraceEvent::FrameEnd => Runner { frames: self.frames - 1, ..self },
                    _ => self,
                },
                Instruction::SubImm(n) => Runner {
                    stack: seq![self.stack[0] - n] + self.stack.skip(1),
                    ..self
                },
                Instruction::Gt => Runner {
                    stack: seq![
                        if self.stack[1] > self.stack[0] {
                            1int
                        } else {
                            0int
                        },
                    ] + self.stack.skip(2),
                    ..self
                },
                _ => Runner { stack: machine::step(inst, self.stack), ..self },
            }
        }
    }

    /// What the machine does when it executes a line of instructions.
    pub open spec fn run(self, insts: Seq<Instruction>, paths: RuntimePaths) -> Runner
        decreases insts.len(),
    {
        if insts.len() == 0 {
            self
        } else {
            self.run(insts.drop_last(), paths).step(insts.last(), paths)
        }
    }

    /// What the machine does when it executes a loop at most `most` times: as long as it finds a one
    /// on the stack, which it takes.
    pub open spec fn loops(self, body: Seq<Instruction>, most: nat, paths: RuntimePaths) -> Runner
        decreases most,
    {
        let m = Runner { stack: self.stack.skip(1), ..self };
        if self.failed {
            self
        } else if self.stack[0] == 0 {
            m
        } else if self.stack[0] != 1 || most == 0 {
            self.fails()
        } else {
            m.run(body, paths).loops(body, (most - 1) as nat, paths)
        }
    }

    /// What the machine does when it executes operations whose loops are lines of instructions.
    pub open spec fn run_ops(self, ops: Seq<Op>, most: nat, paths: RuntimePaths) -> Runner
        decreases ops.len(),
    {
        if ops.len() == 0 {
            self
        } else {
            let before = self.run_ops(ops.drop_last(), most, paths);
            match ops.last() {
                Op::Inst(_, inst) => before.step(inst, paths),
                Op::While { body, .. } => before.loops(line_of(body.ops@), most, paths),
                _ => before.fails(),
            }
        }
    }
}

/// The instructions of operations that are instructions.
pub open spec fn line_of(ops: Seq<Op>) -> Seq<Instruction> {
    ops.map_values(
        |op: Op|
            match op {
                Op::Inst(_, inst) => inst,
                _ => Instruction::Assert,
            },
    )
}

/// The memory with elements at an address.
pub open spec fn with_block(memory: spec_fn(int) -> int, at: int, elements: Seq<int>) -> spec_fn(
    int,
) -> int {
    |i: int|
        if at <= i < at + elements.len() {
            elements[i - at]
        } else {
            memory(i)
        }
}

/// Data to put in memory, and the address where it belongs.
pub ghost struct Piece {
    pub at: int,
    pub elements: Seq<int>,
}

/// The memory with pieces in it, one after the other.
pub open spec fn with_pieces(memory: spec_fn(int) -> int, pieces: Seq<Piece>) -> spec_fn(int) -> int
    decreases pieces.len(),
{
    if pieces.len() == 0 {
        memory
    } else {
        with_pieces(with_block(memory, pieces[0].at, pieces[0].elements), pieces.skip(1))
    }
}

/// Pieces as they are given on the advice stack: of each the address, the number of words, and the
/// words.
pub open spec fn given(pieces: Seq<Piece>) -> Seq<int>
    decreases pieces.len(),
{
    if pieces.len() == 0 {
        Seq::empty()
    } else {
        seq![pieces[0].at, pieces[0].elements.len() as int / 4] + pieces[0].elements + given(
            pieces.skip(1),
        )
    }
}

/// Each piece is made up of words.
pub open spec fn are_words(pieces: Seq<Piece>) -> bool {
    forall|i: int| 0 <= i < pieces.len() ==> (#[trigger] pieces[i]).elements.len() % 4 == 0
}

/// The same procedure, `n` times.
pub open spec fn times(target: InvocationTarget, frames: int, n: nat) -> Seq<(InvocationTarget, int)> {
    Seq::new(n, |i: int| (target, frames))
}

proof fn run_one_more(m: Runner, insts: Seq<Instruction>, i: int, paths: RuntimePaths)
    requires
        0 <= i < insts.len(),
    ensures
        m.run(insts.take(i + 1), paths) == m.run(insts.take(i), paths).step(insts[i], paths),
{
    assert(insts.take(i + 1).drop_last() =~= insts.take(i));
}

proof fn run_of_ops(m: Runner, a: Seq<Op>, b: Seq<Op>, most: nat, paths: RuntimePaths)
    ensures
        m.run_ops(a + b, most, paths) == m.run_ops(a, most, paths).run_ops(b, most, paths),
    decreases b.len(),
{
    if b.len() == 0 {
        assert(a + b =~= a);
    } else {
        assert((a + b).drop_last() =~= a + b.drop_last());
        run_of_ops(m, a, b.drop_last(), most, paths);
    }
}

proof fn run_of_line(
    m: Runner,
    span: SourceSpan,
    insts: Seq<Instruction>,
    most: nat,
    paths: RuntimePaths,
)
    ensures
        m.run_ops(inst::line(span, insts), most, paths) == m.run(insts, paths),
    decreases insts.len(),
{
    if insts.len() > 0 {
        assert(inst::line(span, insts).drop_last() =~= inst::line(span, insts.drop_last()));
        run_of_line(m, span, insts.drop_last(), most, paths);
    }
}

/// What one pass of the loop of the test harness does.
#[verifier::spinoff_prover]
#[verifier::rlimit(60)]
proof fn one_piece_is_copied(
    m: Runner,
    k: int,
    below: Seq<int>,
    piece: Piece,
    rest: Seq<int>,
    paths: RuntimePaths,
)
    requires
        !m.failed,
        m.stack == seq![k] + below,
        piece.elements.len() % 4 == 0,
        m.advice == seq![piece.at, piece.elements.len() as int / 4] + piece.elements + rest,
    ensures
        m.run(harness_loop(paths), paths) == (Runner {
            stack: seq![
                if k - 1 > 0 {
                    1int
                } else {
                    0int
                },
                k - 1,
            ] + below,
            memory: with_block(m.memory, piece.at, piece.elements),
            advice: rest,
            executed: m.executed.push(
                (InvocationTarget::Path(paths.pipe_words_to_memory), m.frames + 1),
            ),
            ..m
        }),
{
    let code = harness_loop(paths);
    let n = piece.elements.len() as int / 4;
    let pipe = InvocationTarget::Path(paths.pipe_words_to_memory);
    assert(code.take(0) =~= Seq::<Instruction>::empty());
    assert(code.take(12) =~= code);
    run_one_more(m, code, 0, paths);
    run_one_more(m, code, 1, paths);
    run_one_more(m, code, 2, paths);
    run_one_more(m, code, 3, paths);
    run_one_more(m, code, 4, paths);
    run_one_more(m, code, 5, paths);
    run_one_more(m, code, 6, paths);
    run_one_more(m, code, 7, paths);
    run_one_more(m, code, 8, paths);
    run_one_more(m, code, 9, paths);
    run_one_more(m, code, 10, paths);
    run_one_more(m, code, 11, paths);
    let m1 = m.run(code.take(1), paths);
    assert(m1.stack =~= seq![k - 1] + below);
    assert(m1 == Runner { stack: seq![k - 1] + below, ..m });
    let m2 = m.run(code.take(2), paths);
    let data = piece.elements + rest;
    assert(m.advice.take(2).reverse() =~= seq![n, piece.at]);
    assert(m.advice.skip(2) =~= data);
    let s2 = seq![n, piece.at] + (seq![k - 1] + below);
    assert(m2 == Runner { stack: s2, advice: data, ..m });
    let m3 = m.run(code.take(3), paths);
    assert(m3 == Runner { frames: m.frames + 1, ..m2 });
    let m4 = m.run(code.take(4), paths);
    assert(4 * n == piece.elements.len());
    assert(data.take(4 * n) =~= piece.elements);
    assert(data.skip(4 * n) =~= rest);
    assert(s2.skip(2) =~= seq![k - 1] + below);
    let state = (m.hash)(piece.elements);
    let hashed = Seq::new(12, |i: int| state(i));
    let s4 = hashed + (seq![piece.at + 4 * n] + (seq![k - 1] + below));
    assert(m4 == Runner {
        stack: s4,
        memory: with_block(m.memory, piece.at, piece.elements),
        advice: rest,
        executed: m.executed.push((pipe, m.frames + 1)),
        ..m3
    });
    let m5 = m.run(code.take(5), paths);
    assert(m5 == Runner { frames: m.frames, ..m4 });
    let m9 = m.run(code.take(9), paths);
    assert(s4.skip(4).skip(4).skip(4).skip(1) =~= seq![k - 1] + below);
    assert(m9 == Runner { stack: seq![k - 1] + below, ..m5 });
    let m10 = m.run(code.take(10), paths);
    assert(m10.stack =~= seq![k - 1, k - 1] + below);
    let m11 = m.run(code.take(11), paths);
    assert(m11.stack =~= seq![0int, k - 1, k - 1] + below);
    let m12 = m.run(code.take(12), paths);
    assert(m12.stack =~= seq![
        if k - 1 > 0 {
            1int
        } else {
            0int
        },
        k - 1,
    ] + below);
}

proof fn pieces_are_copied(
    m: Runner,
    below: Seq<int>,
    pieces: Seq<Piece>,
    rest: Seq<int>,
    most: nat,
    paths: RuntimePaths,
)
    requires
        !m.failed,
        are_words(pieces),
        most >= pieces.len(),
        m.stack == seq![
            if pieces.len() > 0 {
                1int
            } else {
                0int
            },
            pieces.len() as int,
        ] + below,
        m.advice == given(pieces) + rest,
    ensures
        m.loops(harness_loop(paths), most, paths) == (Runner {
            stack: seq![0int] + below,
            memory: with_pieces(m.memory, pieces),
            advice: rest,
            executed: m.executed + times(
                InvocationTarget::Path(paths.pipe_words_to_memory),
                m.frames + 1,
                pieces.len(),
            ),
            ..m
        }),
    decreases pieces.len(),
{
    let pipe = InvocationTarget::Path(paths.pipe_words_to_memory);
    let k = pieces.len() as int;
    assert(m.stack.skip(1) =~= seq![k] + below);
    if k == 0 {
        assert(m.advice =~= rest);
        assert(m.executed + times(pipe, m.frames + 1, 0) =~= m.executed);
    } else {
        let first = pieces[0];
        let others = pieces.skip(1);
        let entered = Runner { stack: m.stack.skip(1), ..m };
        assert(m.advice =~= seq![first.at, first.elements.len() as int / 4] + first.elements + (given(
            others,
        ) + rest));
        one_piece_is_copied(entered, k, below, first, given(others) + rest, paths);
        let again = entered.run(harness_loop(paths), paths);
        assert forall|i: int| 0 <= i < others.len() implies (#[trigger] others[i]).elements.len() % 4
            == 0 by {
            assert(others[i] == pieces[i + 1]);
        }
        pieces_are_copied(again, below, others, rest, (most - 1) as nat, paths);
        assert(again.executed + times(pipe, m.frames + 1, others.len()) =~= m.executed + times(
            pipe,
            m.frames + 1,
            pieces.len(),
        ));
    }
}

/// The test harness takes a number off the advice stack, and after that as many pieces of data, each
/// with its address and size. It puts each where it belongs, in their order, and leaves nothing on
/// the operand stack.
#[verifier::spinoff_prover]
#[verifier::rlimit(60)]
pub proof fn harnesses_copy_every_piece(
    m: Runner,
    code: Seq<Op>,
    pieces: Seq<Piece>,
    rest: Seq<int>,
    most: nat,
    paths: RuntimePaths,
    span: SourceSpan,
)
    requires
        is_harness(code, paths, span),
        !m.failed,
        are_words(pieces),
        most >= pieces.len(),
        m.advice == seq![pieces.len() as int] + given(pieces) + rest,
    ensures
        m.run_ops(code, most, paths) == (Runner {
            memory: with_pieces(m.memory, pieces),
            advice: rest,
            executed: m.executed + times(
                InvocationTarget::Path(paths.pipe_words_to_memory),
                m.frames + 1,
                pieces.len(),
            ),
            ..m
        }),
{
    let k = pieces.len() as int;
    let head = harness_head();
    let line = inst::line(span, head);
    run_of_line(m, span, head, most, paths);
    assert(code.take(5).drop_last() =~= line);
    assert(code.drop_last() =~= code.take(5));
    assert(head.take(0) =~= Seq::<Instruction>::empty());
    assert(head.take(4) =~= head);
    run_one_more(m, head, 0, paths);
    run_one_more(m, head, 1, paths);
    run_one_more(m, head, 2, paths);
    run_one_more(m, head, 3, paths);
    let data = given(pieces) + rest;
    assert(m.advice.take(1).reverse() =~= seq![k]);
    assert(m.advice.skip(1) =~= data);
    let m1 = m.run(head.take(1), paths);
    assert(m1 == Runner { stack: seq![k] + m.stack, advice: data, ..m });
    let m2 = m.run(head.take(2), paths);
    assert(m2.stack =~= seq![k, k] + m.stack);
    let m3 = m.run(head.take(3), paths);
    assert(m3.stack =~= seq![0int, k, k] + m.stack);
    let m4 = m.run(head, paths);
    assert(m4.stack =~= seq![
        if k > 0 {
            1int
        } else {
            0int
        },
        k,
    ] + m.stack);
    pieces_are_copied(m4, m.stack, pieces, rest, most, paths);
    match code[4] {
        Op::While { body, .. } => {
            assert(line_of(body.ops@) =~= harness_loop(paths));
        },
        _ => {},
    }
    let m5 = m.run_ops(code.take(5), most, paths);
    assert(m5 == m4.loops(harness_loop(paths), most, paths));
    assert((seq![0int] + m.stack).skip(1) =~= m.stack);
}

/// The main procedure executes the initializer, if there is one, then the program, in a frame of its
/// own, and last the procedure that truncates the stack. With the test harness, the pieces that it is
/// given are in memory before the program starts.
#[verifier::spinoff_prover]
#[verifier::rlimit(60)]
pub proof fn programs_run_once(
    m: Runner,
    code: Seq<Op>,
    init: Option<InvocationTarget>,
    entrypoint: InvocationTarget,
    harness: bool,
    pieces: Seq<Piece>,
    rest: Seq<int>,
    most: nat,
    paths: RuntimePaths,
)
    requires
        is_main(code, init, entrypoint, harness, paths),
        !m.failed,
        are_words(pieces),
        most >= pieces.len(),
        harness ==> m.advice == seq![pieces.len() as int] + given(pieces) + rest,
        !harness ==> pieces.len() == 0 && rest == m.advice,
        init != Some(InvocationTarget::Path(paths.pipe_words_to_memory)),
        entrypoint != InvocationTarget::Path(paths.pipe_words_to_memory),
        paths.truncate_stack != paths.pipe_words_to_memory,
    ensures
        ({
            let after = m.run_ops(code, most, paths);
            let first = match init {
                Some(target) => seq![(target, m.frames)],
                None => Seq::empty(),
            };
            &&& !after.failed
            &&& after.frames == m.frames
            &&& after.memory == with_pieces(m.memory, pieces)
            &&& after.advice == rest
            &&& after.executed == m.executed + first + times(
                InvocationTarget::Path(paths.pipe_words_to_memory),
                m.frames + 1,
                pieces.len(),
            ) + seq![
                (entrypoint, m.frames + 1),
                (InvocationTarget::Path(paths.truncate_stack), m.frames),
            ]
        }),
{
    let span = SourceSpan::unknown_span();
    let head = main_head(init);
    let tail = main_tail(entrypoint, paths);
    let lines = inst::line(span, head);
    let last = inst::line(span, tail);
    let middle = code.subrange(lines.len() as int, code.len() - last.len());
    assert(code =~= lines + middle + last);
    run_of_ops(m, lines + middle, last, most, paths);
    run_of_ops(m, lines, middle, most, paths);
    run_of_line(m, span, head, most, paths);
    let first = match init {
        Some(target) => seq![(target, m.frames)],
        None => Seq::empty(),
    };
    let m1 = m.run(head, paths);
    assert(m1.executed =~= m.executed + first) by {
        match init {
            Some(_) => {
                assert(head.take(0) =~= Seq::<Instruction>::empty());
                assert(head.take(1) =~= head);
                run_one_more(m, head, 0, paths);
            },
            None => {
                assert(head =~= Seq::<Instruction>::empty());
            },
        }
    }
    assert(m1 == Runner { executed: m.executed + first, ..m }) by {
        match init {
            Some(_) => {
                assert(head.take(0) =~= Seq::<Instruction>::empty());
                assert(head.take(1) =~= head);
                run_one_more(m, head, 0, paths);
            },
            None => {
                assert(head =~= Seq::<Instruction>::empty());
            },
        }
    }
    let m2 = m1.run_ops(middle, most, paths);
    let copies = times(
        InvocationTarget::Path(paths.pipe_words_to_memory),
        m.frames + 1,
        pieces.len(),
    );
    if harness {
        harnesses_copy_every_piece(m1, middle, pieces, rest, most, paths, span);
    } else {
        assert(middle =~= Seq::<Op>::empty());
        assert(m1.executed + copies =~= m1.executed);
    }
    assert(m2 == Runner {
        memory: with_pieces(m.memory, pieces),
        advice: rest,
        executed: m1.executed + copies,
        ..m1
    });
    run_of_line(m2, span, tail, most, paths);
    assert(tail.take(0) =~= Seq::<Instruction>::empty());
    assert(tail.take(4) =~= tail);
    run_one_more(m2, tail, 0, paths);
    run_one_more(m2, tail, 1, paths);
    run_one_more(m2, tail, 2, paths);
    run_one_more(m2, tail, 3, paths);
    let after = m2.run(tail, paths);
    assert(after.executed =~= m.executed + first + copies + seq![
        (entrypoint, m.frames + 1),
        (InvocationTarget::Path(paths.truncate_stack), m.frames),
    ]);
}

} // verus!

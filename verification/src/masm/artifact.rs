//! Programs and libraries of Miden Assembly.
use vstd::prelude::*;
use vstd::string::*;
use miden_core::crypto::hash::Rpo256;
use miden_core::{Felt, StarkField};
use crate::masm::inst::{self, Block, Instruction, InvocationTarget, Op, PushValue, TraceEvent};
use crate::masm::intrinsics::is_intrinsics_module;
use crate::span::SourceSpan;
use crate::symbol::{Interner, Symbol};
use crate::text::{self, chars_of, holds_at, same_text, string_of};

verus! {

/// The address of an element of memory, and of a byte in it.
#[derive(Clone, Copy, PartialEq, Eq, Debug, Hash, Structural)]
pub struct NativePtr {
    pub addr: u32,
    pub offset: u8,
}

impl NativePtr {
    /// The element that a byte is in; an element holds four bytes.
    pub fn from_ptr(ptr: u32) -> (native: NativePtr)
        ensures
            native.addr == ptr / 4,
            native.offset == ptr % 4,
    {
        NativePtr { addr: ptr / 4, offset: (ptr % 4) as u8 }
    }

    /// The address is the start of a word, which has four elements.
    pub open spec fn at_word(self) -> bool {
        self.offset == 0 && self.addr % 4 == 0
    }

    /// Whether the address is the start of a word.
    pub fn is_word_aligned(&self) -> (b: bool)
        ensures
            b == self.at_word(),
    {
        self.offset == 0 && self.addr % 4 == 0
    }
}

/// The four elements of a word.
#[derive(Clone, Copy, PartialEq, Eq, Debug, Hash, Structural)]
pub struct Word {
    pub a: u64,
    pub b: u64,
    pub c: u64,
    pub d: u64,
}

/// The digest that RPO gives for a list of elements.
pub uninterp spec fn rpo_digest(elements: Seq<u64>) -> Word;

/// `Rpo256::hash_elements` of `miden_core` hashes a list of field elements to a word. What it
/// returns depends on the elements alone, which are given by numbers below 2^32.
#[verifier::external_body]
fn hash_elements(elements: &Vec<u64>) -> (digest: Word)
    requires
        forall|i: int| 0 <= i < elements@.len() ==> #[trigger] elements@[i] < 0x1_0000_0000,
    ensures
        digest == rpo_digest(elements@),
{
    let felts: Vec<Felt> = elements.iter().map(|n| Felt::new(*n)).collect();
    let word = Rpo256::hash_elements(&felts);
    let [a, b, c, d] = [word[0].as_int(), word[1].as_int(), word[2].as_int(), word[3].as_int()];
    Word { a, b, c, d }
}

/// A byte of a list, or zero after its end.
pub open spec fn byte_at(bytes: Seq<u8>, i: int) -> int {
    if 0 <= i < bytes.len() {
        bytes[i] as int
    } else {
        0
    }
}

/// The element that holds four bytes, the first of them the lowest.
pub open spec fn element_at(bytes: Seq<u8>, i: int) -> int {
    byte_at(bytes, 4 * i) + 0x100 * byte_at(bytes, 4 * i + 1) + 0x1_0000 * byte_at(
        bytes,
        4 * i + 2,
    ) + 0x100_0000 * byte_at(bytes, 4 * i + 3)
}

/// How many elements hold `n` bytes.
pub open spec fn felts_for(n: nat) -> nat {
    (n + 3) / 4
}

/// How many words hold `n` bytes.
pub open spec fn words_for(n: nat) -> nat {
    (felts_for(n) + 3) / 4
}

/// Bytes as elements: each holds four of them, and zeros fill up the last word.
pub open spec fn elements_of(bytes: Seq<u8>) -> Seq<u64> {
    Seq::new(4 * words_for(bytes.len()), |i: int| element_at(bytes, i) as u64)
}

proof fn lowest_digit(low: int, rest: int)
    requires
        0 <= low < 0x100,
        0 <= rest,
    ensures
        (low + 0x100 * rest) % 0x100 == low,
        (low + 0x100 * rest) / 0x100 == rest,
{
}

proof fn digits_read_back(a: int, b: int, c: int, d: int)
    requires
        0 <= a < 0x100,
        0 <= b < 0x100,
        0 <= c < 0x100,
        0 <= d < 0x100,
    ensures
        ({
            let n = a + 0x100 * b + 0x1_0000 * c + 0x100_0000 * d;
            &&& n % 0x100 == a
            &&& n / 0x100 % 0x100 == b
            &&& n / 0x1_0000 % 0x100 == c
            &&& n / 0x100_0000 % 0x100 == d
        }),
{
    let n = a + 0x100 * b + 0x1_0000 * c + 0x100_0000 * d;
    let m = b + 0x100 * (c + 0x100 * d);
    assert(n == a + 0x100 * m);
    lowest_digit(a, m);
    lowest_digit(b, c + 0x100 * d);
    lowest_digit(c, d);
    assert(n / 0x1_0000 == m / 0x100);
    assert(n / 0x100_0000 == m / 0x100 / 0x100);
}

/// Every byte can be read back from the elements.
pub proof fn elements_hold_the_bytes(bytes: Seq<u8>, k: int)
    requires
        0 <= k < bytes.len(),
    ensures
        k / 4 < elements_of(bytes).len(),
        k % 4 == 0 ==> bytes[k] == elements_of(bytes)[k / 4] as int % 0x100,
        k % 4 == 1 ==> bytes[k] == elements_of(bytes)[k / 4] as int / 0x100 % 0x100,
        k % 4 == 2 ==> bytes[k] == elements_of(bytes)[k / 4] as int / 0x1_0000 % 0x100,
        k % 4 == 3 ==> bytes[k] == elements_of(bytes)[k / 4] as int / 0x100_0000 % 0x100,
{
    let i = k / 4;
    let a = byte_at(bytes, 4 * i);
    let b = byte_at(bytes, 4 * i + 1);
    let c = byte_at(bytes, 4 * i + 2);
    let d = byte_at(bytes, 4 * i + 3);
    digits_read_back(a, b, c, d);
    assert(element_at(bytes, i) == a + 0x100 * b + 0x1_0000 * c + 0x100_0000 * d);
    assert(0 <= element_at(bytes, i) <= u64::MAX);
    assert(elements_of(bytes)[i] as int == element_at(bytes, i));
    assert(k == 4 * i + k % 4);
}

/// What is beyond the bytes is zero.
pub proof fn padding_is_zero(bytes: Seq<u8>, i: int)
    requires
        felts_for(bytes.len()) <= i < elements_of(bytes).len(),
    ensures
        elements_of(bytes)[i] == 0,
{
}

/// Bytes that are in memory when a program starts, and their digest.
pub struct Rodata {
    pub digest: Word,
    pub start: NativePtr,
    pub data: Vec<u8>,
}

impl Rodata {
    /// How many bytes there are.
    pub fn size_in_bytes(&self) -> (n: usize)
        ensures
            n == self.data@.len(),
    {
        self.data.len()
    }

    /// How many elements hold the bytes.
    pub fn size_in_felts(&self) -> (n: usize)
        ensures
            n == felts_for(self.data@.len()),
    {
        let n: usize = self.data.len();
        if n % 4 == 0 {
            n / 4
        } else {
            n / 4 + 1
        }
    }

    /// How many words hold the bytes.
    pub fn size_in_words(&self) -> (n: usize)
        ensures
            n == words_for(self.data@.len()),
    {
        let n: usize = self.size_in_felts();
        if n % 4 == 0 {
            n / 4
        } else {
            n / 4 + 1
        }
    }

    /// The bytes as elements.
    pub fn to_elements(&self) -> (elements: Vec<u64>)
        ensures
            elements@ == elements_of(self.data@),
    {
        Self::bytes_to_elements(self.data.as_slice())
    }

    /// Bytes as elements: each holds four of them, and zeros fill up the last word.
    pub fn bytes_to_elements(bytes: &[u8]) -> (elements: Vec<u64>)
        ensures
            elements@ == elements_of(bytes@),
    {
        let n: usize = bytes.len();
        let count: usize = if n % 4 == 0 {
            n / 4
        } else {
            n / 4 + 1
        };
        let mut elements: Vec<u64> = Vec::new();
        let mut i: usize = 0;
        while i < count
            invariant
                n == bytes@.len(),
                count == felts_for(n as nat),
                i <= count,
                elements@.len() == i,
                forall|i: int|
                    0 <= i < elements@.len() ==> #[trigger] elements@[i] == element_at(bytes@, i),
            decreases count - i,
        {
            let at: usize = 4 * i;
            let left: usize = n - at;
            let a: u64 = bytes[at] as u64;
            let b: u64 = if left > 1 {
                bytes[at + 1] as u64
            } else {
                0
            };
            let c: u64 = if left > 2 {
                bytes[at + 2] as u64
            } else {
                0
            };
            let d: u64 = if left > 3 {
                bytes[at + 3] as u64
            } else {
                0
            };
            elements.push(a + 0x100 * b + 0x1_0000 * c + 0x100_0000 * d);
            i = i + 1;
        }
        while elements.len() % 4 != 0
            invariant
                felts_for(n as nat) <= elements@.len() <= 4 * words_for(n as nat),
                n == bytes@.len(),
                forall|i: int|
                    0 <= i < elements@.len() ==> #[trigger] elements@[i] == element_at(bytes@, i),
            decreases 4 * words_for(n as nat) - elements@.len(),
        {
            elements.push(0);
        }
        assert(elements@.len() == 4 * words_for(n as nat));
        assert(elements@ == elements_of(bytes@));
        elements
    }

    /// Bytes at a place in memory, with their digest.
    pub fn new(start: u32, data: Vec<u8>) -> (rodata: Rodata)
        ensures
            rodata.start.addr == start / 4,
            rodata.start.offset == start % 4,
            rodata.data == data,
            rodata.digest == rpo_digest(elements_of(data@)),
    {
        let elements = Self::bytes_to_elements(data.as_slice());
        let digest = hash_elements(&elements);
        Rodata { digest, start: NativePtr::from_ptr(start), data }
    }
}

/// The bytes of all data segments together, and where they start.
pub struct MergedSegments {
    pub offset: u32,
    pub data: Vec<u8>,
}

/// The data segments as read-only data: none, or one for all of them.
pub open spec fn are_segments(rodata: Seq<Rodata>, merged: Option<MergedSegments>) -> bool {
    match merged {
        None => rodata.len() == 0,
        Some(merged) => {
            &&& rodata.len() == 1
            &&& rodata[0].start.addr == merged.offset / 4
            &&& rodata[0].start.offset == merged.offset % 4
            &&& rodata[0].data == merged.data
            &&& rodata[0].digest == rpo_digest(elements_of(merged.data@))
        },
    }
}

/// The data segments of a component as read-only data: none, or one for all of them.
pub fn data_segments_to_rodata(merged: Option<MergedSegments>) -> (rodata: Vec<Rodata>)
    ensures
        are_segments(rodata@, merged),
{
    let mut rodata: Vec<Rodata> = Vec::new();
    if let Some(merged) = merged {
        rodata.push(Rodata::new(merged.offset, merged.data));
    }
    rodata
}

/// The procedures of the core library that generated code uses.
#[derive(Clone, Copy, PartialEq, Eq, Debug, Structural)]
pub struct RuntimePaths {
    pub heap_init: Symbol,
    pub pipe_preimage_to_memory: Symbol,
    pub pipe_words_to_memory: Symbol,
    pub truncate_stack: Symbol,
}

impl RuntimePaths {
    /// The paths are known, and stand for the procedures.
    pub open spec fn known(self, interner: &Interner) -> bool {
        &&& interner.knows(self.heap_init)
        &&& interner.text(self.heap_init) == "::intrinsics::mem::heap_init"@
        &&& interner.knows(self.pipe_preimage_to_memory)
        &&& interner.text(self.pipe_preimage_to_memory)
            == "::miden::core::mem::pipe_preimage_to_memory"@
        &&& interner.knows(self.pipe_words_to_memory)
        &&& interner.text(self.pipe_words_to_memory) == "::miden::core::mem::pipe_words_to_memory"@
        &&& interner.knows(self.truncate_stack)
        &&& interner.text(self.truncate_stack) == "::miden::core::sys::truncate_stack"@
    }

    /// The paths, from a table.
    pub fn intern(interner: &mut Interner) -> (paths: RuntimePaths)
        requires
            old(interner).wf(),
            old(interner)@.len() + 4 < u32::MAX,
        ensures
            final(interner).wf(),
            final(interner).extends(old(interner)),
            final(interner)@.len() <= old(interner)@.len() + 4,
            paths.known(final(interner)),
    {
        let heap_init = interner.intern("::intrinsics::mem::heap_init");
        let pipe_preimage_to_memory = interner.intern(
            "::miden::core::mem::pipe_preimage_to_memory",
        );
        let pipe_words_to_memory = interner.intern("::miden::core::mem::pipe_words_to_memory");
        let truncate_stack = interner.intern("::miden::core::sys::truncate_stack");
        RuntimePaths { heap_init, pipe_preimage_to_memory, pipe_words_to_memory, truncate_stack }
    }
}

/// The loop of the test harness, which copies data to memory.
pub open spec fn harness_loop(paths: RuntimePaths) -> Seq<Instruction> {
    seq![
        Instruction::SubImm(1),
        Instruction::AdvPush(2),
        Instruction::Trace(TraceEvent::FrameStart),
        Instruction::Exec(InvocationTarget::Path(paths.pipe_words_to_memory)),
        Instruction::Trace(TraceEvent::FrameEnd),
        Instruction::DropW,
        Instruction::DropW,
        Instruction::DropW,
        Instruction::Drop,
        Instruction::Dup0,
        Instruction::Push(PushValue::U8(0)),
        Instruction::Gt,
    ]
}

/// What comes before the loop of the test harness.
pub open spec fn harness_head() -> Seq<Instruction> {
    seq![
        Instruction::AdvPush(1),
        Instruction::Dup0,
        Instruction::Push(PushValue::U8(0)),
        Instruction::Gt,
    ]
}

/// `code` is that of the test harness: it takes a number off the advice stack, and as often
/// copies data from the advice stack to memory.
pub open spec fn is_harness(code: Seq<Op>, paths: RuntimePaths, span: SourceSpan) -> bool {
    &&& code.len() == 6
    &&& code.take(4) == inst::line(span, harness_head())
    &&& code[4] matches Op::While { span: at, body } && at == span && body.span == span
        && body.ops@ == inst::line(span, harness_loop(paths))
    &&& code[5] == Op::Inst(span, Instruction::Drop)
}

fn push_inst(ops: &mut Vec<Op>, span: SourceSpan, inst: Instruction)
    ensures
        final(ops)@ == old(ops)@.push(Op::Inst(span, inst)),
{
    ops.push(Op::Inst(span, inst));
}

/// Appends the code of the test harness.
pub fn emit_test_harness(block: &mut Vec<Op>, paths: RuntimePaths)
    ensures
        final(block)@.len() == old(block)@.len() + 6,
        final(block)@.take(old(block)@.len() as int) == old(block)@,
        is_harness(
            final(block)@.skip(old(block)@.len() as int),
            paths,
            SourceSpan::unknown_span(),
        ),
{
    let span = SourceSpan::unknown();
    push_inst(block, span, Instruction::AdvPush(1));
    push_inst(block, span, Instruction::Dup0);
    push_inst(block, span, Instruction::Push(PushValue::U8(0)));
    push_inst(block, span, Instruction::Gt);
    let mut body: Vec<Op> = Vec::new();
    push_inst(&mut body, span, Instruction::SubImm(1));
    push_inst(&mut body, span, Instruction::AdvPush(2));
    push_inst(&mut body, span, Instruction::Trace(TraceEvent::FrameStart));
    push_inst(
        &mut body,
        span,
        Instruction::Exec(InvocationTarget::Path(paths.pipe_words_to_memory)),
    );
    push_inst(&mut body, span, Instruction::Trace(TraceEvent::FrameEnd));
    push_inst(&mut body, span, Instruction::DropW);
    push_inst(&mut body, span, Instruction::DropW);
    push_inst(&mut body, span, Instruction::DropW);
    push_inst(&mut body, span, Instruction::Drop);
    push_inst(&mut body, span, Instruction::Dup0);
    push_inst(&mut body, span, Instruction::Push(PushValue::U8(0)));
    push_inst(&mut body, span, Instruction::Gt);
    assert(body@ =~= inst::line(span, harness_loop(paths)));
    block.push(Op::While { span, body: Block { span, ops: body } });
    push_inst(block, span, Instruction::Drop);
    proof {
        let n = old(block)@.len() as int;
        assert(block@.take(n) =~= old(block)@);
        assert(block@.skip(n).take(4) =~= inst::line(span, harness_head()));
    }
}

/// What the main procedure does last: it runs the program in a frame, and truncates the stack.
pub open spec fn main_tail(entrypoint: InvocationTarget, paths: RuntimePaths) -> Seq<Instruction> {
    seq![
        Instruction::Trace(TraceEvent::FrameStart),
        Instruction::Exec(entrypoint),
        Instruction::Trace(TraceEvent::FrameEnd),
        Instruction::Exec(InvocationTarget::Path(paths.truncate_stack)),
    ]
}

/// What the main procedure does first: it runs the initializer, if there is one.
pub open spec fn main_head(init: Option<InvocationTarget>) -> Seq<Instruction> {
    match init {
        Some(init) => seq![Instruction::Exec(init)],
        None => Seq::empty(),
    }
}

/// `code` is that of the main procedure: the initializer, the test harness if it is asked for,
/// and the program.
pub open spec fn is_main(
    code: Seq<Op>,
    init: Option<InvocationTarget>,
    entrypoint: InvocationTarget,
    harness: bool,
    paths: RuntimePaths,
) -> bool {
    let span = SourceSpan::unknown_span();
    let head = inst::line(span, main_head(init));
    let tail = inst::line(span, main_tail(entrypoint, paths));
    &&& code.len() == head.len() + tail.len() + if harness {
        6int
    } else {
        0int
    }
    &&& code.take(head.len() as int) == head
    &&& code.skip(code.len() - tail.len()) == tail
    &&& harness ==> is_harness(
        code.subrange(head.len() as int, code.len() - tail.len()),
        paths,
        span,
    )
}

/// The code of the main procedure of a program.
pub fn generate_main(
    init: Option<InvocationTarget>,
    entrypoint: InvocationTarget,
    harness: bool,
    paths: RuntimePaths,
) -> (body: Block)
    ensures
        body.span == SourceSpan::unknown_span(),
        is_main(body.ops@, init, entrypoint, harness, paths),
{
    let span = SourceSpan::unknown();
    let mut block: Vec<Op> = Vec::new();
    if let Some(init) = init {
        push_inst(&mut block, span, Instruction::Exec(init));
    }
    let ghost head = block@;
    assert(head =~= inst::line(span, main_head(init)));
    if harness {
        emit_test_harness(&mut block, paths);
    }
    let ghost middle = block@;
    push_inst(&mut block, span, Instruction::Trace(TraceEvent::FrameStart));
    push_inst(&mut block, span, Instruction::Exec(entrypoint));
    push_inst(&mut block, span, Instruction::Trace(TraceEvent::FrameEnd));
    push_inst(
        &mut block,
        span,
        Instruction::Exec(InvocationTarget::Path(paths.truncate_stack)),
    );
    proof {
        let tail = inst::line(span, main_tail(entrypoint, paths));
        assert(block@ =~= middle + tail);
        assert(middle.take(head.len() as int) =~= head);
        assert(block@.take(head.len() as int) =~= middle.take(head.len() as int));
        assert(block@.skip(block@.len() - tail.len()) =~= tail);
        if harness {
            assert(block@.subrange(head.len() as int, block@.len() - tail.len()) =~= middle.skip(
                head.len() as int,
            ));
        }
    }
    Block { span, ops: block }
}

/// The path of a module of intrinsics, absolute or not.
pub open spec fn is_intrinsics_path(path: Seq<char>) -> bool {
    text::begins(path, "intrinsics"@) || text::begins(path, "::intrinsics"@)
}

/// What becomes of the modules of a component when it is assembled.
pub struct AssemblyPlan {
    /// The modules of intrinsics, which are linked first
    pub intrinsics: Vec<usize>,
    /// The other modules
    pub others: Vec<usize>,
}

/// The indices of the first `n` modules for which `keep` holds.
pub open spec fn chosen(n: int, keep: spec_fn(int) -> bool) -> Seq<usize>
    decreases n,
{
    if n <= 0 {
        Seq::empty()
    } else if keep(n - 1) {
        chosen(n - 1, keep).push((n - 1) as usize)
    } else {
        chosen(n - 1, keep)
    }
}

/// A library has a module of the given path.
pub open spec fn provided(libraries: Seq<String>, path: Seq<char>) -> bool {
    exists|i: int| 0 <= i < libraries.len() && (#[trigger] libraries[i])@ == path
}

/// The modules of intrinsics that no library provides.
pub open spec fn linked_first(modules: Seq<String>, libraries: Seq<String>) -> spec_fn(int) -> bool {
    |i: int| !provided(libraries, modules[i]@) && is_intrinsics_path(modules[i]@)
}

/// The other modules that no library provides.
pub open spec fn linked_later(modules: Seq<String>, libraries: Seq<String>) -> spec_fn(int) -> bool {
    |i: int| !provided(libraries, modules[i]@) && !is_intrinsics_path(modules[i]@)
}

fn is_provided(libraries: &Vec<String>, path: &str) -> (b: bool)
    ensures
        b == provided(libraries@, path@),
{
    let mut i: usize = 0;
    while i < libraries.len()
        invariant
            i <= libraries@.len(),
            forall|j: int| 0 <= j < i ==> (#[trigger] libraries@[j])@ != path@,
        decreases libraries@.len() - i,
    {
        if same_text(libraries[i].as_str(), path) {
            return true;
        }
        i = i + 1;
    }
    false
}

/// Sorts the modules of a component, given by their paths. Those that a library provides are left
/// out, and those of intrinsics come first.
pub fn plan_assembly(modules: &Vec<String>, libraries: &Vec<String>) -> (plan: AssemblyPlan)
    ensures
        plan.intrinsics@ == chosen(
            modules@.len() as int,
            linked_first(modules@, libraries@),
        ),
        plan.others@ == chosen(modules@.len() as int, linked_later(modules@, libraries@)),
{
    let mut intrinsics: Vec<usize> = Vec::new();
    let mut others: Vec<usize> = Vec::new();
    let relative = chars_of("intrinsics");
    let absolute = chars_of("::intrinsics");
    let mut i: usize = 0;
    while i < modules.len()
        invariant
            i <= modules@.len(),
            relative@ == "intrinsics"@,
            absolute@ == "::intrinsics"@,
            intrinsics@ == chosen(i as int, linked_first(modules@, libraries@)),
            others@ == chosen(i as int, linked_later(modules@, libraries@)),
        decreases modules@.len() - i,
    {
        let path = chars_of(modules[i].as_str());
        if !is_provided(libraries, modules[i].as_str()) {
            if holds_at(&path, &relative, 0) || holds_at(&path, &absolute, 0) {
                intrinsics.push(i);
            } else {
                others.push(i);
            }
        }
        i = i + 1;
    }
    AssemblyPlan { intrinsics, others }
}

/// Assembling takes every module that no library provides, once.
pub proof fn plan_takes_every_module(modules: Seq<String>, libraries: Seq<String>, i: int)
    requires
        0 <= i < modules.len() <= usize::MAX,
    ensures
        chosen(modules.len() as int, linked_first(modules, libraries)).contains(i as usize)
            <==> !provided(libraries, modules[i]@) && is_intrinsics_path(modules[i]@),
        chosen(modules.len() as int, linked_later(modules, libraries)).contains(i as usize)
            <==> !provided(libraries, modules[i]@) && !is_intrinsics_path(modules[i]@),
{
    chosen_are_kept(modules.len() as int, linked_first(modules, libraries), i);
    chosen_are_kept(modules.len() as int, linked_later(modules, libraries), i);
}

proof fn chosen_are_kept(n: int, keep: spec_fn(int) -> bool, i: int)
    requires
        0 <= i <= usize::MAX,
        n <= usize::MAX + 1,
    ensures
        chosen(n, keep).contains(i as usize) <==> i < n && keep(i),
    decreases n,
{
    if n > 0 {
        chosen_are_kept(n - 1, keep, i);
        let before = chosen(n - 1, keep);
        if keep(n - 1) {
            let all = before.push((n - 1) as usize);
            if all.contains(i as usize) {
                let k = choose|k: int| 0 <= k < all.len() && all[k] == i as usize;
                if k < before.len() {
                    assert(before[k] == i as usize);
                }
            }
            if before.contains(i as usize) {
                let k = choose|k: int| 0 <= k < before.len() && before[k] == i as usize;
                assert(all[k] == i as usize);
            }
            if i == n - 1 {
                assert(all[all.len() - 1] == i as usize);
            }
        }
    }
}

/// The modules of a program that are linked after the intrinsics, in the order in which that is
/// done: what a module needs comes before it.
pub fn program_order(plan: &AssemblyPlan) -> (order: Vec<usize>)
    ensures
        order@ == plan.others@.reverse(),
{
    let mut order: Vec<usize> = Vec::new();
    let mut i: usize = plan.others.len();
    while i > 0
        invariant
            i <= plan.others@.len(),
            order@ == plan.others@.skip(i as int).reverse(),
        decreases i,
    {
        i = i - 1;
        order.push(plan.others[i]);
        assert(plan.others@.skip(i as int).reverse() =~= plan.others@.skip(i + 1).reverse().push(
            plan.others@[i as int],
        ));
    }
    assert(plan.others@.skip(0) == plan.others@);
    order
}

/// What the assembler is told to do.
#[derive(Clone, Copy, PartialEq, Eq, Debug, Structural)]
pub enum AssemblyStep {
    /// Link against the library of the given number
    Link(usize),
    /// Compile the module of the given number, and link it in
    Compile(usize),
    /// Make the module of the given number part of the library
    Add(usize),
    /// Assemble the program that the main procedure starts
    Program,
    /// Assemble the library
    Library,
}

/// Linking against `n` libraries.
pub open spec fn links(n: nat) -> Seq<AssemblyStep> {
    Seq::new(n, |i: int| AssemblyStep::Link(i as usize))
}

/// Compiling modules.
pub open spec fn compiles(modules: Seq<usize>) -> Seq<AssemblyStep> {
    modules.map_values(|i: usize| AssemblyStep::Compile(i))
}

/// Adding modules to a library.
pub open spec fn adds(modules: Seq<usize>) -> Seq<AssemblyStep> {
    modules.map_values(|i: usize| AssemblyStep::Add(i))
}

/// How a component is assembled: first it is linked against the libraries, then the intrinsics are
/// compiled. The other modules of a program are compiled last to first, since what a module needs
/// comes after it; those of a library are assembled together.
pub open spec fn steps(
    modules: Seq<String>,
    libraries: nat,
    provided: Seq<String>,
    is_program: bool,
) -> Seq<AssemblyStep> {
    let n = modules.len() as int;
    let others = chosen(n, linked_later(modules, provided));
    links(libraries) + compiles(chosen(n, linked_first(modules, provided))) + if is_program {
        compiles(others.reverse()).push(AssemblyStep::Program)
    } else {
        adds(others).push(AssemblyStep::Library)
    }
}

fn push_compiles(list: &mut Vec<AssemblyStep>, modules: &Vec<usize>)
    ensures
        final(list)@ == old(list)@ + compiles(modules@),
{
    let mut i: usize = 0;
    assert(list@ =~= old(list)@ + compiles(modules@.take(0)));
    while i < modules.len()
        invariant
            i <= modules@.len(),
            list@ == old(list)@ + compiles(modules@.take(i as int)),
        decreases modules@.len() - i,
    {
        list.push(AssemblyStep::Compile(modules[i]));
        i = i + 1;
        assert(list@ =~= old(list)@ + compiles(modules@.take(i as int)));
    }
    assert(modules@.take(modules@.len() as int) == modules@);
}

fn push_adds(list: &mut Vec<AssemblyStep>, modules: &Vec<usize>)
    ensures
        final(list)@ == old(list)@ + adds(modules@),
{
    let mut i: usize = 0;
    assert(list@ =~= old(list)@ + adds(modules@.take(0)));
    while i < modules.len()
        invariant
            i <= modules@.len(),
            list@ == old(list)@ + adds(modules@.take(i as int)),
        decreases modules@.len() - i,
    {
        list.push(AssemblyStep::Add(modules[i]));
        i = i + 1;
        assert(list@ =~= old(list)@ + adds(modules@.take(i as int)));
    }
    assert(modules@.take(modules@.len() as int) == modules@);
}

fn link_all(libraries: usize) -> (list: Vec<AssemblyStep>)
    ensures
        list@ == links(libraries as nat),
{
    let mut list: Vec<AssemblyStep> = Vec::new();
    let mut i: usize = 0;
    assert(list@ =~= links(0));
    while i < libraries
        invariant
            i <= libraries,
            list@ == links(i as nat),
        decreases libraries - i,
    {
        list.push(AssemblyStep::Link(i));
        i = i + 1;
        assert(list@ =~= links(i as nat));
    }
    list
}

/// How a program is assembled from the modules of the given paths. It is linked against
/// `libraries` libraries, whose modules have the paths `provided`.
pub fn assemble_program(modules: &Vec<String>, libraries: usize, provided: &Vec<String>) -> (list:
    Vec<AssemblyStep>)
    ensures
        list@ == steps(modules@, libraries as nat, provided@, true),
{
    let mut list = link_all(libraries);
    let plan = plan_assembly(modules, provided);
    push_compiles(&mut list, &plan.intrinsics);
    let ghost head = list@;
    let order = program_order(&plan);
    push_compiles(&mut list, &order);
    list.push(AssemblyStep::Program);
    assert(list@ =~= head + compiles(order@).push(AssemblyStep::Program));
    list
}

/// How a library is assembled from the modules of the given paths. It is linked against
/// `libraries` libraries, whose modules have the paths `provided`.
pub fn assemble_library(modules: &Vec<String>, libraries: usize, provided: &Vec<String>) -> (list:
    Vec<AssemblyStep>)
    ensures
        list@ == steps(modules@, libraries as nat, provided@, false),
{
    let mut list = link_all(libraries);
    let plan = plan_assembly(modules, provided);
    push_compiles(&mut list, &plan.intrinsics);
    let ghost head = list@;
    push_adds(&mut list, &plan.others);
    list.push(AssemblyStep::Library);
    assert(list@ =~= head + adds(plan.others@).push(AssemblyStep::Library));
    list
}

/// A module of the standard library.
pub open spec fn is_standard_module(path: Seq<char>) -> bool {
    text::begins(path, "::miden::core::"@) || text::begins(path, "std::"@) || path == "std"@
}

/// A module, with its code as text.
pub struct ModuleText {
    pub path: String,
    pub code: String,
}

/// A module as text; none for those of intrinsics and of the standard library.
pub open spec fn module_shown(module: ModuleText) -> Seq<char> {
    if crate::masm::intrinsics::is_intrinsics_name(module.path@) || is_standard_module(
        module.path@,
    ) {
        Seq::empty()
    } else {
        "# mod "@ + module.path@ + "\n\n"@ + module.code@ + "\n"@
    }
}

/// The first `n` modules as text.
pub open spec fn modules_shown(modules: Seq<ModuleText>, n: int) -> Seq<char>
    decreases n,
{
    if n <= 0 {
        Seq::empty()
    } else {
        modules_shown(modules, n - 1) + module_shown(modules[n - 1])
    }
}

/// A component as text.
pub fn render_component(modules: &Vec<ModuleText>) -> (out: String)
    ensures
        out@ == modules_shown(modules@, modules@.len() as int),
{
    let core = chars_of("::miden::core::");
    let legacy = chars_of("std::");
    let mut out = String::new();
    let mut i: usize = 0;
    while i < modules.len()
        invariant
            i <= modules@.len(),
            core@ == "::miden::core::"@,
            legacy@ == "std::"@,
            out@ == modules_shown(modules@, i as int),
        decreases modules@.len() - i,
    {
        let ghost before = out@;
        let module = &modules[i];
        let path = chars_of(module.path.as_str());
        let standard = holds_at(&path, &core, 0) || holds_at(&path, &legacy, 0) || same_text(
            module.path.as_str(),
            "std",
        );
        if !is_intrinsics_module(module.path.as_str()) && !standard {
            out.append("# mod ");
            out.append(module.path.as_str());
            out.append("\n\n");
            out.append(module.code.as_str());
            out.append("\n");
        }
        assert(out@ =~= before + module_shown(*module));
        i = i + 1;
    }
    out
}

/// The text before the last `separator`, and the text after it.
pub open spec fn split_last(s: Seq<char>, separator: char) -> Option<(Seq<char>, Seq<char>)>
    decreases s.len(),
{
    if s.len() == 0 {
        None
    } else if s.last() == separator {
        Some((s.drop_last(), Seq::empty()))
    } else {
        match split_last(s.drop_last(), separator) {
            Some((head, tail)) => Some((head, tail.push(s.last()))),
            None => None,
        }
    }
}

/// The text before the first `separator`, or all of it.
pub open spec fn before_first(s: Seq<char>, separator: char) -> Seq<char>
    decreases s.len(),
{
    if s.len() == 0 || s[0] == separator {
        Seq::empty()
    } else {
        seq![s[0]] + before_first(s.skip(1), separator)
    }
}

/// The text with underscores in place of hyphens.
pub open spec fn underscored(s: Seq<char>) -> Seq<char> {
    s.map_values(
        |c: char|
            if c == '-' {
                '_'
            } else {
                c
            },
    )
}

/// The text with two colons in place of one.
pub open spec fn colons_doubled(s: Seq<char>) -> Seq<char>
    decreases s.len(),
{
    if s.len() == 0 {
        s
    } else if s.last() == ':' {
        colons_doubled(s.drop_last()).push(':').push(':')
    } else {
        colons_doubled(s.drop_last()).push(s.last())
    }
}

/// The path that an export gets whose name holds the interface that it belongs to:
/// `ns:pkg/iface@1.0.0#some-function` becomes `ns::pkg::iface::some_function`.
pub open spec fn interface_path(component: Seq<char>, interface: Seq<char>, function: Seq<char>)
    -> Seq<char> {
    underscored(colons_doubled(component)) + "::"@ + underscored(before_first(interface, '@'))
        + "::"@ + underscored(function)
}

/// An export that stays as it is: of a module of intrinsics, or one of the internal functions of
/// the component model.
pub open spec fn is_preserved(module: Seq<char>, name: Seq<char>) -> bool {
    crate::masm::intrinsics::is_intrinsics_name(module) || text::begins(name, "cabi"@)
}

/// The new path of an export; none if it keeps the one it has.
pub open spec fn recovered(module: Seq<char>, name: Seq<char>) -> Option<Seq<char>> {
    if is_preserved(module, name) {
        None
    } else {
        match split_last(name, '/') {
            None => None,
            Some((component, rest)) => match split_last(rest, '#') {
                None => None,
                Some((interface, function)) => Some(
                    interface_path(component, interface, function),
                ),
            },
        }
    }
}

/// The name of an export that is not preserved and belongs to an interface names a function.
pub open spec fn is_identifier(module: Seq<char>, name: Seq<char>) -> bool {
    !is_preserved(module, name) ==> (split_last(name, '/') matches Some((_, rest)) ==> split_last(
        rest,
        '#',
    ) is Some)
}

fn find_last(s: &Vec<char>, separator: char, from: usize) -> (at: Option<usize>)
    requires
        from <= s@.len(),
    ensures
        match at {
            Some(at) => from <= at < s@.len() && split_last(s@.skip(from as int), separator) == Some(
                (s@.subrange(from as int, at as int), s@.skip(at + 1)),
            ),
            None => split_last(s@.skip(from as int), separator) is None,
        },
{
    let mut end: usize = s.len();
    let ghost all = s@.skip(from as int);
    assert(all.take(all.len() as int) == all);
    while end > from
        invariant
            from <= end <= s@.len(),
            all == s@.skip(from as int),
            match split_last(all.take(end - from), separator) {
                Some((head, tail)) => split_last(all, separator) == Some(
                    (head, tail + s@.skip(end as int)),
                ),
                None => split_last(all, separator) is None,
            },
        decreases end - from,
    {
        let part = Ghost(all.take(end - from));
        assert(part@.drop_last() == all.take(end - from - 1));
        assert(part@.last() == s@[end - 1]);
        if s[end - 1] == separator {
            assert(all.take(end - from - 1) == s@.subrange(from as int, end - 1));
            assert(Seq::<char>::empty() + s@.skip(end as int) == s@.skip(end as int));
            return Some(end - 1);
        }
        proof {
            if let Some((head, tail)) = split_last(all.take(end - from - 1), separator) {
                assert(tail.push(s@[end - 1]) + s@.skip(end as int) == tail + s@.skip(end - 1));
            }
        }
        end = end - 1;
    }
    assert(all.take(0).len() == 0);
    None
}

fn append_underscored(out: &mut Vec<char>, s: &Vec<char>, from: usize, to: usize)
    requires
        from <= to <= s@.len(),
    ensures
        final(out)@ == old(out)@ + underscored(s@.subrange(from as int, to as int)),
{
    let mut i: usize = from;
    assert(out@ == old(out)@ + underscored(s@.subrange(from as int, from as int)));
    while i < to
        invariant
            from <= i <= to <= s@.len(),
            out@ == old(out)@ + underscored(s@.subrange(from as int, i as int)),
        decreases to - i,
    {
        let c = s[i];
        assert(s@.subrange(from as int, i + 1) == s@.subrange(from as int, i as int).push(c));
        out.push(
            if c == '-' {
                '_'
            } else {
                c
            },
        );
        i = i + 1;
        assert(out@ =~= old(out)@ + underscored(s@.subrange(from as int, i as int)));
    }
}

fn double_colons(s: &Vec<char>, to: usize) -> (out: Vec<char>)
    requires
        to <= s@.len(),
    ensures
        out@ == colons_doubled(s@.take(to as int)),
{
    let mut out: Vec<char> = Vec::new();
    let mut i: usize = 0;
    while i < to
        invariant
            i <= to <= s@.len(),
            out@ == colons_doubled(s@.take(i as int)),
        decreases to - i,
    {
        let c = s[i];
        assert(s@.take(i + 1).drop_last() == s@.take(i as int));
        assert(s@.take(i + 1).last() == c);
        out.push(c);
        if c == ':' {
            out.push(c);
        }
        i = i + 1;
    }
    out
}

fn append_chars(out: &mut Vec<char>, s: &Vec<char>)
    ensures
        final(out)@ == old(out)@ + s@,
{
    let mut i: usize = 0;
    while i < s.len()
        invariant
            i <= s@.len(),
            out@ == old(out)@ + s@.take(i as int),
        decreases s@.len() - i,
    {
        out.push(s[i]);
        assert(s@.take(i + 1) == s@.take(i as int).push(s@[i as int]));
        i = i + 1;
        assert(out@ =~= old(out)@ + s@.take(i as int));
    }
    assert(s@.take(s@.len() as int) == s@);
}

fn first_end(s: &Vec<char>, separator: char, from: usize, to: usize) -> (end: usize)
    requires
        from <= to <= s@.len(),
    ensures
        from <= end <= to,
        s@.subrange(from as int, end as int) == before_first(
            s@.subrange(from as int, to as int),
            separator,
        ),
{
    let mut end: usize = from;
    let ghost all = s@.subrange(from as int, to as int);
    assert(s@.subrange(from as int, from as int) + before_first(all, separator) == before_first(
        all,
        separator,
    ));
    while end < to && s[end] != separator
        invariant
            from <= end <= to <= s@.len(),
            all == s@.subrange(from as int, to as int),
            s@.subrange(from as int, end as int) + before_first(
                s@.subrange(end as int, to as int),
                separator,
            ) == before_first(all, separator),
        decreases to - end,
    {
        let ghost rest = s@.subrange(end as int, to as int);
        assert(rest[0] == s@[end as int]);
        assert(rest.skip(1) == s@.subrange(end + 1, to as int));
        assert(s@.subrange(from as int, end + 1) + before_first(rest.skip(1), separator)
            =~= s@.subrange(from as int, end as int) + (seq![rest[0]] + before_first(
            rest.skip(1),
            separator,
        )));
        end = end + 1;
    }
    assert(end < to ==> s@.subrange(end as int, to as int)[0] == s@[end as int]);
    assert(before_first(s@.subrange(end as int, to as int), separator).len() == 0);
    end
}

/// The new path of an export; none if it keeps the one it has.
pub fn recover_path(module: &str, name: &str) -> (path: Option<String>)
    requires
        is_identifier(module@, name@),
    ensures
        match path {
            Some(path) => recovered(module@, name@) == Some(path@),
            None => recovered(module@, name@) is None,
        },
{
    let s = chars_of(name);
    let cabi = chars_of("cabi");
    if is_intrinsics_module(module) || holds_at(&s, &cabi, 0) {
        return None;
    }
    assert(s@.skip(0) == s@);
    let len: usize = s.len();
    let slash = match find_last(&s, '/', 0) {
        None => return None,
        Some(at) => at,
    };
    let hash = match find_last(&s, '#', slash + 1) {
        None => return None,
        Some(at) => at,
    };
    let component = double_colons(&s, slash);
    let interface_end = first_end(&s, '@', slash + 1, hash);
    let separator = chars_of("::");
    let mut out: Vec<char> = Vec::new();
    append_underscored(&mut out, &component, 0, component.len());
    assert(component@.subrange(0, component@.len() as int) == component@);
    append_chars(&mut out, &separator);
    append_underscored(&mut out, &s, slash + 1, interface_end);
    append_chars(&mut out, &separator);
    append_underscored(&mut out, &s, hash + 1, len);
    proof {
        assert(s@.subrange(0, slash as int) == s@.take(slash as int));
        assert(s@.subrange(hash + 1, s@.len() as int) == s@.skip(hash + 1));
        assert(out@ =~= interface_path(
            s@.take(slash as int),
            s@.subrange(slash + 1, hash as int),
            s@.skip(hash + 1),
        ));
    }
    Some(string_of(out.as_slice()))
}

/// An export of a library.
pub struct Export {
    pub path: String,
    pub module: String,
    pub name: String,
}

/// The path of an export after interfaces were recovered.
pub open spec fn new_path(export: Export) -> Seq<char> {
    match recovered(export.module@, export.name@) {
        Some(path) => path,
        None => export.path@,
    }
}

/// The paths of the exports of a library, with the interfaces that function names hold as
/// modules.
pub fn recover_wasm_cm_interfaces(exports: &Vec<Export>) -> (paths: Vec<String>)
    requires
        forall|i: int|
            0 <= i < exports@.len() ==> is_identifier(
                (#[trigger] exports@[i]).module@,
                exports@[i].name@,
            ),
    ensures
        paths@.len() == exports@.len(),
        forall|i: int|
            0 <= i < exports@.len() ==> (#[trigger] paths@[i])@ == new_path(exports@[i]),
{
    let mut paths: Vec<String> = Vec::new();
    let mut i: usize = 0;
    while i < exports.len()
        invariant
            i <= exports@.len(),
            paths@.len() == i,
            forall|i: int|
                0 <= i < exports@.len() ==> is_identifier(
                    (#[trigger] exports@[i]).module@,
                    exports@[i].name@,
                ),
            forall|j: int| 0 <= j < i ==> (#[trigger] paths@[j])@ == new_path(exports@[j]),
        decreases exports@.len() - i,
    {
        let export = &exports[i];
        assert(is_identifier(exports@[i as int].module@, exports@[i as int].name@));
        let path = match recover_path(export.module.as_str(), export.name.as_str()) {
            Some(path) => path,
            None => export.path.as_str().to_owned(),
        };
        paths.push(path);
        i = i + 1;
    }
    paths
}

} // verus!

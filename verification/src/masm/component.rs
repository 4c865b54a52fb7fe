//! The code of components.
use vstd::prelude::*;
use vstd::string::*;
use crate::hir::library_path::{self, is_pushable, library_path, push_library_path};
use crate::masm::artifact::{self, AssemblyStep, Rodata, RuntimePaths};
use crate::masm::emit::InvokeSet;
use crate::masm::inst::{
    self, Block, Instruction, InvocationTarget, Invoke, Op, PushValue, TraceEvent,
};
use crate::masm::procedure::{
    self, DuplicateProcedure, MasmModule, MasmModuleBuilder, ModuleItem, Procedure,
    ProcedureVisibility,
};
use crate::session::target::TargetEnv;
use crate::span::SourceSpan;
use crate::text::{self, chars_of, same_text};

verus! {

/// What initializes the heap.
pub open spec fn heap_code(heap_base: u32, paths: RuntimePaths) -> Seq<Instruction> {
    seq![
        Instruction::Push(PushValue::U32(heap_base)),
        Instruction::Trace(TraceEvent::FrameStart),
        Instruction::Exec(InvocationTarget::Path(paths.heap_init)),
        Instruction::Trace(TraceEvent::FrameEnd),
    ]
}

/// What writes read-only data to memory: it is looked up in the advice map by its digest, and
/// checked against it.
pub open spec fn segment_code(rodata: Rodata, paths: RuntimePaths) -> Seq<Instruction> {
    seq![
        Instruction::PushWord(
            rodata.digest.a,
            rodata.digest.b,
            rodata.digest.c,
            rodata.digest.d,
        ),
        Instruction::AdvPushMapVal,
        Instruction::Push(PushValue::U32(rodata.start.addr)),
        Instruction::Push(PushValue::U32(artifact::words_for(rodata.data@.len()) as u32)),
        Instruction::Trace(TraceEvent::FrameStart),
        Instruction::Exec(InvocationTarget::Path(paths.pipe_preimage_to_memory)),
        Instruction::Trace(TraceEvent::FrameEnd),
        Instruction::Drop,
    ]
}

/// What writes the first `n` segments to memory.
pub open spec fn segments_code(rodata: Seq<Rodata>, n: int, paths: RuntimePaths) -> Seq<Instruction>
    decreases n,
{
    if n <= 0 {
        Seq::empty()
    } else {
        segments_code(rodata, n - 1, paths) + segment_code(rodata[n - 1], paths)
    }
}

fn push_all(ops: &mut Vec<Op>, span: SourceSpan, insts: &[Instruction])
    ensures
        final(ops)@ == old(ops)@ + inst::line(span, insts@),
{
    let mut i: usize = 0;
    while i < insts.len()
        invariant
            i <= insts@.len(),
            ops@ == old(ops)@ + inst::line(span, insts@.take(i as int)),
        decreases insts@.len() - i,
    {
        ops.push(Op::Inst(span, insts[i]));
        assert(insts@.take(i + 1) == insts@.take(i as int).push(insts@[i as int]));
        i = i + 1;
        assert(ops@ =~= old(ops)@ + inst::line(span, insts@.take(i as int)));
    }
    assert(insts@.take(insts@.len() as int) == insts@);
}

/// Appends the code that writes the data segments of a component to memory.
pub fn emit_data_segment_initialization(
    ops: &mut Vec<Op>,
    rodata: &Vec<Rodata>,
    paths: RuntimePaths,
)
    requires
        forall|i: int|
            0 <= i < rodata@.len() ==> (#[trigger] rodata@[i]).start.at_word()
                && artifact::words_for(rodata@[i].data@.len()) <= u32::MAX,
    ensures
        final(ops)@ == old(ops)@ + inst::line(
            SourceSpan::unknown_span(),
            segments_code(rodata@, rodata@.len() as int, paths),
        ),
{
    let span = SourceSpan::unknown();
    let mut i: usize = 0;
    while i < rodata.len()
        invariant
            i <= rodata@.len(),
            span == SourceSpan::unknown_span(),
            forall|i: int|
                0 <= i < rodata@.len() ==> (#[trigger] rodata@[i]).start.at_word()
                    && artifact::words_for(rodata@[i].data@.len()) <= u32::MAX,
            ops@ == old(ops)@ + inst::line(span, segments_code(rodata@, i as int, paths)),
        decreases rodata@.len() - i,
    {
        let data = &rodata[i];
        assert(rodata@[i as int].start.at_word());
        let digest = data.digest;
        let insts = [
            Instruction::PushWord(digest.a, digest.b, digest.c, digest.d),
            Instruction::AdvPushMapVal,
            Instruction::Push(PushValue::U32(data.start.addr)),
            Instruction::Push(PushValue::U32(data.size_in_words() as u32)),
            Instruction::Trace(TraceEvent::FrameStart),
            Instruction::Exec(InvocationTarget::Path(paths.pipe_preimage_to_memory)),
            Instruction::Trace(TraceEvent::FrameEnd),
            Instruction::Drop,
        ];
        push_all(ops, span, &insts);
        assert(insts@ =~= segment_code(*data, paths));
        i = i + 1;
        assert(ops@ =~= old(ops)@ + inst::line(span, segments_code(rodata@, i as int, paths)));
    }
}

/// The code that initializes a component: the heap, and the data segments.
pub fn emit_initializer(
    heap_base: u32,
    rodata: &Vec<Rodata>,
    paths: RuntimePaths,
    span: SourceSpan,
) -> (ops: Vec<Op>)
    requires
        forall|i: int|
            0 <= i < rodata@.len() ==> (#[trigger] rodata@[i]).start.at_word()
                && artifact::words_for(rodata@[i].data@.len()) <= u32::MAX,
    ensures
        ops@ == inst::line(span, heap_code(heap_base, paths)) + inst::line(
            SourceSpan::unknown_span(),
            segments_code(rodata@, rodata@.len() as int, paths),
        ),
{
    let mut ops: Vec<Op> = Vec::new();
    let insts = [
        Instruction::Push(PushValue::U32(heap_base)),
        Instruction::Trace(TraceEvent::FrameStart),
        Instruction::Exec(InvocationTarget::Path(paths.heap_init)),
        Instruction::Trace(TraceEvent::FrameEnd),
    ];
    push_all(&mut ops, span, &insts);
    assert(insts@ =~= heap_code(heap_base, paths));
    assert(ops@ =~= inst::line(span, heap_code(heap_base, paths)));
    emit_data_segment_initialization(&mut ops, rodata, paths);
    ops
}

/// Where the heap starts: after the memory that is reserved, and after the page that the globals
/// end in.
pub fn heap_base(reserved_memory: u64, globals_page_boundary: u64) -> (base: u32)
    requires
        reserved_memory <= u32::MAX,
        globals_page_boundary <= u32::MAX,
    ensures
        base >= reserved_memory,
        base >= globals_page_boundary,
        base == reserved_memory || base == globals_page_boundary,
{
    if reserved_memory > globals_page_boundary {
        reserved_memory as u32
    } else {
        globals_page_boundary as u32
    }
}

/// The path of the component that wraps a program that is no component.
pub const WRAPPER_COMPONENT: &'static str = "root_ns_root";

/// Why a component has no code.
#[derive(Clone, Copy, PartialEq, Eq, Debug, Structural)]
pub enum ComponentError {
    /// The entrypoint is not of the form `<module>::<function>`
    InvalidEntrypoint,
    /// The module of the entrypoint has no valid path
    InvalidModulePath,
    /// A module defines two procedures of the same name
    DuplicateProcedure,
}

/// What linking says of a component.
pub struct LinkInfo {
    /// The path of the component
    pub component: String,
    pub has_globals: bool,
    pub has_data_segments: bool,
    /// How many bytes of memory are reserved
    pub reserved_memory: u64,
    /// The first page after the globals
    pub globals_page_boundary: u64,
    /// Where the stack pointer is, if there is one
    pub stack_pointer: Option<u32>,
    pub segments: Option<artifact::MergedSegments>,
}

impl LinkInfo {
    /// A component with globals or data segments has an initializer.
    pub open spec fn needs_init(&self) -> bool {
        self.has_globals || self.has_data_segments
    }

    /// The data segments start at a word, and their size in words is a 32-bit number.
    pub open spec fn segments_fit(&self) -> bool {
        self.segments matches Some(merged) ==> merged.offset % 16 == 0 && artifact::words_for(
            merged.data@.len(),
        ) <= u32::MAX
    }
}

/// The module that an entrypoint names.
pub open spec fn entry_module(entry: Seq<char>) -> Seq<char> {
    text::joined(text::pieces(entry, "::"@).drop_last(), "::"@)
}

/// The function that an entrypoint names.
pub open spec fn entry_function(entry: Seq<char>) -> Seq<char> {
    text::pieces(entry, "::"@).last()
}

/// The path of the entrypoint that the user names as `<module>::<function>`: it is in the
/// component, if that wraps a program that is no component.
pub open spec fn entrypoint_of(component: Seq<char>, entry: Seq<char>) -> Result<
    Seq<char>,
    ComponentError,
> {
    if text::pieces(entry, "::"@).len() < 2 {
        Err(ComponentError::InvalidEntrypoint)
    } else if component == WRAPPER_COMPONENT@ {
        Ok(
            library_path::pushed_path(
                library_path::pushed_path(component, entry_module(entry)),
                entry_function(entry),
            ),
        )
    } else {
        match library_path::canonical_path(entry_module(entry)) {
            Some(path) => Ok(library_path::pushed_path(path, entry_function(entry))),
            None => Err(ComponentError::InvalidModulePath),
        }
    }
}

/// The parts of an entrypoint can be parts of a path.
pub open spec fn entrypoint_fits(component: Seq<char>, entry: Seq<char>) -> bool {
    if text::pieces(entry, "::"@).len() < 2 {
        true
    } else if component == WRAPPER_COMPONENT@ {
        library_path::can_be_pushed(entry_module(entry)) && library_path::can_be_pushed(
            entry_function(entry),
        )
    } else {
        library_path::canonical_path(entry_module(entry)) is Some ==> library_path::can_be_pushed(
            entry_function(entry),
        )
    }
}

/// The module and the function that an entrypoint names, if it names both.
fn entry_parts(entry: &str) -> (parts: Option<(String, String)>)
    ensures
        match parts {
            Some((module, function)) => text::pieces(entry@, "::"@).len() >= 2 && module@
                == entry_module(entry@) && function@ == entry_function(entry@),
            None => text::pieces(entry@, "::"@).len() < 2,
        },
{
    proof {
        reveal_strlit("::");
    }
    let mut pieces = text::split(entry, "::");
    let ghost all = text::pieces(entry@, "::"@);
    assert(all.len() == pieces@.len());
    if pieces.len() < 2 {
        return None;
    }
    match pieces.pop() {
        None => None,
        Some(function) => {
            assert(function@ == all.last());
            assert(text::texts(pieces@) =~= all.drop_last());
            let module = text::join(&pieces, "::");
            Some((module, function))
        },
    }
}

fn resolve_entrypoint(component: &str, entry: &str) -> (path: Result<String, ComponentError>)
    requires
        entrypoint_fits(component@, entry@),
    ensures
        match path {
            Ok(path) => entrypoint_of(component@, entry@) == Ok::<_, ComponentError>(path@),
            Err(e) => entrypoint_of(component@, entry@) == Err::<Seq<char>, _>(e),
        },
{
    let (module, function) = match entry_parts(entry) {
        None => {
            return Err(ComponentError::InvalidEntrypoint);
        },
        Some(parts) => parts,
    };
    let path = if same_text(component, WRAPPER_COMPONENT) {
        push_library_path(component, module.as_str())
    } else {
        match library_path(module.as_str()) {
            None => {
                return Err(ComponentError::InvalidModulePath);
            },
            Some(path) => path,
        }
    };
    Ok(push_library_path(path.as_str(), function.as_str()))
}

/// A part of a component.
pub enum ComponentItem {
    Module { name: String, items: Vec<ModuleItem> },
    Interface { name: String, procedures: Vec<Procedure> },
    Function(Procedure),
}

impl ComponentItem {
    /// The name of a module or an interface, as a part of a path.
    pub open spec fn part(self) -> Option<Seq<char>> {
        match self {
            ComponentItem::Module { name, .. } => Some(artifact::underscored(name@)),
            ComponentItem::Interface { name, .. } => Some(artifact::underscored(name@)),
            ComponentItem::Function(_) => None,
        }
    }

    /// The procedures that the part has.
    pub open spec fn procedures(self) -> Seq<Procedure> {
        match self {
            ComponentItem::Module { items, .. } => procedure::functions_of(
                items@,
                items@.len() as int,
            ),
            ComponentItem::Interface { procedures, .. } => procedures@,
            ComponentItem::Function(procedure) => seq![procedure],
        }
    }

    /// The code that initializes the global variables of the part.
    pub open spec fn initializers(self) -> Seq<Op> {
        match self {
            ComponentItem::Module { items, .. } => procedure::initializers_of(
                items@,
                items@.len() as int,
            ),
            _ => Seq::empty(),
        }
    }
}

/// The procedures of the first `n` parts that are functions.
pub open spec fn top_level(items: Seq<ComponentItem>, n: int) -> Seq<Procedure>
    decreases n,
{
    if n <= 0 {
        Seq::empty()
    } else if items[n - 1] is Function {
        top_level(items, n - 1) + items[n - 1].procedures()
    } else {
        top_level(items, n - 1)
    }
}

/// The paths and procedures of the first `n` parts that are modules or interfaces.
pub open spec fn nested(path: Seq<char>, items: Seq<ComponentItem>, n: int) -> Seq<
    (Seq<char>, Seq<Procedure>),
>
    decreases n,
{
    if n <= 0 {
        Seq::empty()
    } else {
        match items[n - 1].part() {
            Some(part) => nested(path, items, n - 1).push(
                (library_path::pushed_path(path, part), items[n - 1].procedures()),
            ),
            None => nested(path, items, n - 1),
        }
    }
}

/// The code that initializes the global variables of the first `n` parts.
pub open spec fn globals_code(items: Seq<ComponentItem>, n: int) -> Seq<Op>
    decreases n,
{
    if n <= 0 {
        Seq::empty()
    } else {
        globals_code(items, n - 1) + items[n - 1].initializers()
    }
}

/// The paths and procedures of modules.
pub open spec fn contents(modules: Seq<MasmModule>) -> Seq<(Seq<char>, Seq<Procedure>)> {
    modules.map_values(|m: MasmModule| (m.path@, m.procedures@))
}

/// No module or interface among the first `n` parts defines a procedure twice.
pub open spec fn nested_distinct(items: Seq<ComponentItem>, n: int) -> bool {
    forall|i: int|
        0 <= i < n && (#[trigger] items[i]).part() is Some ==> procedure::distinct(
            items[i].procedures(),
        )
}

/// The names of the modules and interfaces can be parts of a path.
pub open spec fn names_fit(items: Seq<ComponentItem>) -> bool {
    forall|i: int|
        0 <= i < items.len() ==> ((#[trigger] items[i]).part() matches Some(part)
            ==> library_path::can_be_pushed(part))
}

fn underscore(name: &str) -> (out: String)
    ensures
        out@ == artifact::underscored(name@),
{
    let s = chars_of(name);
    let mut out = String::new();
    let mut i: usize = 0;
    assert(out@ =~= artifact::underscored(s@.take(0)));
    while i < s.len()
        invariant
            i <= s@.len(),
            out@ == artifact::underscored(s@.take(i as int)),
        decreases s@.len() - i,
    {
        let c = s[i];
        assert(s@.take(i + 1) == s@.take(i as int).push(c));
        out.push(
            if c == '-' {
                '_'
            } else {
                c
            },
        );
        i = i + 1;
        assert(out@ =~= artifact::underscored(s@.take(i as int)));
    }
    assert(s@.take(s@.len() as int) == s@);
    out
}

/// Builds the modules of a component, and the code that initializes it.
pub struct MasmComponentBuilder {
    /// The module of the component itself
    pub top: MasmModule,
    /// The modules of its modules and interfaces
    pub modules: Vec<MasmModule>,
    pub init_body: Vec<Op>,
}

impl MasmComponentBuilder {
    /// Adds a module.
    pub fn define_module(&mut self, name: &str, items: Vec<ModuleItem>) -> (result: Result<
        (),
        DuplicateProcedure,
    >)
        requires
            library_path::can_be_pushed(artifact::underscored(name@)),
        ensures
            final(self).top == old(self).top,
            ({
                let n = items@.len() as int;
                let procedures = procedure::functions_of(items@, n);
                match result {
                    Ok(_) => {
                        &&& procedure::distinct(procedures)
                        &&& contents(final(self).modules@) == contents(old(self).modules@).push(
                            (
                                library_path::pushed_path(
                                    old(self).top.path@,
                                    artifact::underscored(name@),
                                ),
                                procedures,
                            ),
                        )
                        &&& final(self).init_body@ == old(self).init_body@
                            + procedure::initializers_of(items@, n)
                    },
                    Err(_) => !procedure::distinct(procedures),
                }
            }),
    {
        let name = underscore(name);
        let path = push_library_path(self.top.path.as_str(), name.as_str());
        let mut builder = MasmModuleBuilder { module: MasmModule::new(path), init_body: Vec::new() };
        builder.init_body.append(&mut self.init_body);
        let ghost procedures = procedure::functions_of(items@, items@.len() as int);
        assert(Seq::<Procedure>::empty() + procedures =~= procedures);
        builder.build(items)?;
        self.init_body = builder.init_body;
        let ghost before = self.modules@;
        self.modules.push(builder.module);
        assert(contents(self.modules@) =~= contents(before).push((path@, procedures)));
        Ok(())
    }

    /// Adds an interface.
    pub fn define_interface(&mut self, name: &str, procedures: Vec<Procedure>) -> (result: Result<
        (),
        DuplicateProcedure,
    >)
        requires
            library_path::can_be_pushed(artifact::underscored(name@)),
        ensures
            final(self).top == old(self).top,
            final(self).init_body == old(self).init_body,
            match result {
                Ok(_) => {
                    &&& procedure::distinct(procedures@)
                    &&& contents(final(self).modules@) == contents(old(self).modules@).push(
                        (
                            library_path::pushed_path(
                                old(self).top.path@,
                                artifact::underscored(name@),
                            ),
                            procedures@,
                        ),
                    )
                },
                Err(_) => !procedure::distinct(procedures@),
            },
    {
        let name = underscore(name);
        let path = push_library_path(self.top.path.as_str(), name.as_str());
        let mut builder = MasmModuleBuilder { module: MasmModule::new(path), init_body: Vec::new() };
        assert(Seq::<Procedure>::empty() + procedures@ =~= procedures@);
        builder.build_from_interface(procedures)?;
        let ghost before = self.modules@;
        self.modules.push(builder.module);
        assert(contents(self.modules@) =~= contents(before).push((path@, procedures@)));
        Ok(())
    }

    /// Adds a function to the module of the component.
    pub fn define_function(&mut self, procedure: Procedure) -> (result: Result<
        (),
        DuplicateProcedure,
    >)
        ensures
            final(self).modules == old(self).modules,
            final(self).init_body == old(self).init_body,
            final(self).top.path == old(self).top.path,
            match result {
                Ok(_) => !procedure::defines(old(self).top.procedures@, procedure.name@) && final(
                    self).top.procedures@ == old(self).top.procedures@.push(procedure),
                Err(_) => procedure::defines(old(self).top.procedures@, procedure.name@),
            },
    {
        self.top.define_procedure(procedure)
    }

    /// Adds the parts of a component.
    pub fn build(&mut self, items: Vec<ComponentItem>) -> (result: Result<(), DuplicateProcedure>)
        requires
            names_fit(items@),
            old(self).top.procedures@.len() == 0,
            old(self).modules@.len() == 0,
        ensures
            final(self).top.path == old(self).top.path,
            ({
                let n = items@.len() as int;
                match result {
                    Ok(_) => {
                        &&& procedure::distinct(top_level(items@, n))
                        &&& nested_distinct(items@, n)
                        &&& final(self).top.procedures@ == top_level(items@, n)
                        &&& contents(final(self).modules@) == nested(
                            old(self).top.path@,
                            items@,
                            n,
                        )
                        &&& final(self).init_body@ == old(self).init_body@ + globals_code(
                            items@,
                            n,
                        )
                    },
                    Err(_) => !procedure::distinct(top_level(items@, n)) || !nested_distinct(
                        items@,
                        n,
                    ),
                }
            }),
    {
        let ghost all = items@;
        let ghost path = self.top.path@;
        let ghost begun = self.init_body@;
        assert(self.top.procedures@ =~= top_level(all, 0));
        assert(contents(self.modules@) =~= nested(path, all, 0));
        assert(begun + globals_code(all, 0) =~= begun);
        for item in iter: items.into_iter()
            invariant
                iter.seq() == all,
                names_fit(all),
                self.top.path == old(self).top.path,
                path == old(self).top.path@,
                begun == old(self).init_body@,
                self.top.procedures@ == top_level(all, iter.index() as int),
                contents(self.modules@) == nested(path, all, iter.index() as int),
                self.init_body@ == begun + globals_code(all, iter.index() as int),
                procedure::distinct(self.top.procedures@),
                nested_distinct(all, iter.index() as int),
        {
            let ghost i = iter.index() as int;
            assert(item == all[i]);
            assert(all[i].part() matches Some(part) ==> library_path::can_be_pushed(part));
            match item {
                ComponentItem::Module { name, items } => {
                    self.define_module(name.as_str(), items)?;
                },
                ComponentItem::Interface { name, procedures } => {
                    self.define_interface(name.as_str(), procedures)?;
                },
                ComponentItem::Function(procedure) => {
                    let ghost done = self.top.procedures@;
                    proof {
                        procedure::adding_keeps_names(done, procedure);
                        assert(top_level(all, i + 1) =~= done.push(procedure));
                        later_names_stay(all, i + 1);
                    }
                    self.define_function(procedure)?;
                },
            }
            assert(self.init_body@ =~= begun + globals_code(all, i + 1));
        }
        Ok(())
    }
}

proof fn later_names_stay(items: Seq<ComponentItem>, n: int)
    requires
        0 <= n <= items.len(),
    ensures
        procedure::distinct(top_level(items, items.len() as int)) ==> procedure::distinct(
            top_level(items, n),
        ),
    decreases items.len() - n,
{
    if n < items.len() {
        later_names_stay(items, n + 1);
        let now = top_level(items, n);
        let next = top_level(items, n + 1);
        if procedure::distinct(next) {
            let more = next.skip(now.len() as int);
            assert(next =~= now + more);
            procedure::prefixes_are_distinct(now, more);
        }
    }
}

/// The code of a component.
pub struct MasmComponent {
    /// The path of the component
    pub path: String,
    /// The path of the procedure that initializes memory, if there is one
    pub init: Option<String>,
    /// The path of the procedure that a program starts with; a library has none
    pub entrypoint: Option<String>,
    /// Whether the kernel of the rollup is linked
    pub uses_kernel: bool,
    pub rodata: Vec<Rodata>,
    /// Where the heap starts
    pub heap_base: u32,
    pub stack_pointer: Option<u32>,
    /// The module of the component itself, and those of its modules and interfaces
    pub modules: Vec<MasmModule>,
}

/// The code that initializes a component: the heap, the data segments, and the global variables.
pub open spec fn init_code(
    heap_base: u32,
    rodata: Seq<Rodata>,
    items: Seq<ComponentItem>,
    span: SourceSpan,
    paths: RuntimePaths,
) -> Seq<Op> {
    inst::line(span, heap_code(heap_base, paths)) + inst::line(
        SourceSpan::unknown_span(),
        segments_code(rodata, rodata.len() as int, paths),
    ) + globals_code(items, items.len() as int)
}

/// The procedure that initializes a component by the given code.
pub open spec fn is_init(procedure: Procedure, code: Seq<Op>, span: SourceSpan) -> bool {
    &&& procedure.span == SourceSpan::unknown_span()
    &&& procedure.name@ == "init"@
    &&& procedure.signature is None
    &&& procedure.visibility == ProcedureVisibility::Private
    &&& procedure.num_locals == 0
    &&& procedure.body.span == span
    &&& procedure.body.ops@ == code
    &&& procedure.invoked@ == Set::<Invoke>::empty()
}

/// No procedure is defined twice, be it a function or the initializer.
pub open spec fn names_differ(link: &LinkInfo, items: Seq<ComponentItem>) -> bool {
    let top = top_level(items, items.len() as int);
    &&& procedure::distinct(top)
    &&& nested_distinct(items, items.len() as int)
    &&& link.needs_init() ==> !procedure::defines(top, "init"@)
}

/// What the paths of a component are made of can be parts of a path.
pub open spec fn paths_fit(link: &LinkInfo, entrypoint: Option<&str>, items: Seq<ComponentItem>) -> bool {
    &&& entrypoint matches Some(entry) ==> entrypoint_fits(link.component@, entry@)
    &&& link.needs_init() ==> library_path::can_be_pushed("init"@)
    &&& names_fit(items)
}

/// Why there is no code for a component, if there is none.
pub open spec fn fault(link: &LinkInfo, entrypoint: Option<&str>, items: Seq<ComponentItem>) -> Option<
    ComponentError,
> {
    match entrypoint {
        Some(entry) => match entrypoint_of(link.component@, entry@) {
            Err(e) => Some(e),
            Ok(_) => if names_differ(link, items) {
                None
            } else {
                Some(ComponentError::DuplicateProcedure)
            },
        },
        None => if names_differ(link, items) {
            None
        } else {
            Some(ComponentError::DuplicateProcedure)
        },
    }
}

/// The code of a component is that of its parts: one with globals or data segments has an
/// initializer, and one for the rollup its kernel.
pub open spec fn is_code_of(
    component: MasmComponent,
    link: &LinkInfo,
    entrypoint: Option<&str>,
    target: TargetEnv,
    items: Seq<ComponentItem>,
    span: SourceSpan,
    paths: RuntimePaths,
) -> bool {
    let n = items.len() as int;
    let top = top_level(items, n);
    &&& component.path@ == link.component@
    &&& match entrypoint {
        None => component.entrypoint is None,
        Some(entry) => component.entrypoint matches Some(path) && entrypoint_of(
            link.component@,
            entry@,
        ) == Ok::<_, ComponentError>(path@),
    }
    &&& if link.needs_init() {
        component.init matches Some(path) && path@ == library_path::pushed_path(
            link.component@,
            "init"@,
        )
    } else {
        component.init is None
    }
    &&& component.uses_kernel == (target is Rollup)
    &&& artifact::are_segments(component.rodata@, link.segments)
    &&& component.heap_base >= link.reserved_memory
    &&& component.heap_base >= link.globals_page_boundary
    &&& component.heap_base == link.reserved_memory || component.heap_base
        == link.globals_page_boundary
    &&& component.stack_pointer == link.stack_pointer
    &&& component.modules@.len() > 0
    &&& component.modules@[0].path@ == link.component@
    &&& contents(component.modules@.skip(1)) == nested(link.component@, items, n)
    &&& if link.needs_init() {
        let procedures = component.modules@[0].procedures@;
        &&& procedures.len() == top.len() + 1
        &&& procedures.drop_last() == top
        &&& is_init(
            procedures.last(),
            init_code(component.heap_base, component.rodata@, items, span, paths),
            span,
        )
    } else {
        component.modules@[0].procedures@ == top
    }
}

/// The code of a component. What its paths are made of must be valid.
pub fn to_masm_component(
    link: LinkInfo,
    entrypoint: Option<&str>,
    target: TargetEnv,
    items: Vec<ComponentItem>,
    span: SourceSpan,
    paths: RuntimePaths,
) -> (component: Result<MasmComponent, ComponentError>)
    requires
        link.reserved_memory <= u32::MAX,
        link.globals_page_boundary <= u32::MAX,
        link.needs_init() ==> link.segments_fit(),
        !link.needs_init() ==> globals_code(items@, items@.len() as int).len() == 0,
        paths_fit(&link, entrypoint, items@),
    ensures
        match component {
            Err(e) => fault(&link, entrypoint, items@) == Some(e),
            Ok(component) => fault(&link, entrypoint, items@) is None && is_code_of(
                component,
                &link,
                entrypoint,
                target,
                items@,
                span,
                paths,
            ),
        },
{
    let entrypoint = match entrypoint {
        None => None,
        Some(entry) => match resolve_entrypoint(link.component.as_str(), entry) {
            Err(e) => {
                return Err(e);
            },
            Ok(path) => Some(path),
        },
    };
    let needs_init = link.has_globals || link.has_data_segments;
    let init = if needs_init {
        Some(push_library_path(link.component.as_str(), "init"))
    } else {
        None
    };
    let uses_kernel = match target {
        TargetEnv::Rollup { .. } => true,
        _ => false,
    };
    let heap_base = heap_base(link.reserved_memory, link.globals_page_boundary);
    let rodata = artifact::data_segments_to_rodata(link.segments);
    let init_body = if needs_init {
        emit_initializer(heap_base, &rodata, paths, span)
    } else {
        Vec::new()
    };
    let ghost n = items@.len() as int;
    let ghost all = items@;
    let mut builder = MasmComponentBuilder {
        top: MasmModule::new(link.component.as_str().to_owned()),
        modules: Vec::new(),
        init_body,
    };
    if builder.build(items).is_err() {
        return Err(ComponentError::DuplicateProcedure);
    }
    let MasmComponentBuilder { top, modules, init_body } = builder;
    let mut top = top;
    if needs_init {
        let ghost code = init_code(heap_base, rodata@, all, span, paths);
        assert(init_body@ =~= code);
        let procedure = Procedure {
            span: SourceSpan::unknown(),
            name: "init".to_owned(),
            signature: None,
            visibility: ProcedureVisibility::Private,
            num_locals: 0,
            body: Block { span, ops: init_body },
            invoked: InvokeSet::new(),
        };
        if top.define_procedure(procedure).is_err() {
            return Err(ComponentError::DuplicateProcedure);
        }
        assert(top.procedures@.drop_last() =~= top_level(all, n));
    }
    let mut rest = modules;
    let ghost tail = rest@;
    let mut modules: Vec<MasmModule> = Vec::new();
    modules.push(top);
    modules.append(&mut rest);
    assert(modules@.skip(1) =~= tail);
    Ok(
        MasmComponent {
            path: link.component,
            init,
            entrypoint,
            uses_kernel,
            rodata,
            heap_base,
            stack_pointer: link.stack_pointer,
            modules,
        },
    )
}

fn entrypoint_is_pushable(component: &str, entry: &str) -> (b: bool)
    ensures
        b == entrypoint_fits(component@, entry@),
{
    match entry_parts(entry) {
        None => true,
        Some((module, function)) => if same_text(component, WRAPPER_COMPONENT) {
            is_pushable(module.as_str()) && is_pushable(function.as_str())
        } else {
            library_path(module.as_str()).is_none() || is_pushable(function.as_str())
        },
    }
}

fn names_are_pushable(items: &Vec<ComponentItem>) -> (b: bool)
    ensures
        b == names_fit(items@),
{
    let mut i: usize = 0;
    while i < items.len()
        invariant
            i <= items@.len(),
            forall|j: int|
                0 <= j < i ==> ((#[trigger] items@[j]).part() matches Some(part)
                    ==> library_path::can_be_pushed(part)),
        decreases items@.len() - i,
    {
        let name = match &items[i] {
            ComponentItem::Module { name, .. } => Some(underscore(name.as_str())),
            ComponentItem::Interface { name, .. } => Some(underscore(name.as_str())),
            ComponentItem::Function(_) => None,
        };
        if let Some(name) = name {
            assert(items@[i as int].part() == Some(name@));
            if !is_pushable(name.as_str()) {
                return false;
            }
        }
        i = i + 1;
    }
    true
}

/// The code of a component; none if what its paths are made of is not valid.
pub fn try_to_masm_component(
    link: LinkInfo,
    entrypoint: Option<&str>,
    target: TargetEnv,
    items: Vec<ComponentItem>,
    span: SourceSpan,
    paths: RuntimePaths,
) -> (component: Option<Result<MasmComponent, ComponentError>>)
    requires
        link.reserved_memory <= u32::MAX,
        link.globals_page_boundary <= u32::MAX,
        link.needs_init() ==> link.segments_fit(),
        !link.needs_init() ==> globals_code(items@, items@.len() as int).len() == 0,
    ensures
        match component {
            None => !paths_fit(&link, entrypoint, items@),
            Some(Err(e)) => paths_fit(&link, entrypoint, items@) && fault(&link, entrypoint, items@)
                == Some(e),
            Some(Ok(component)) => {
                &&& paths_fit(&link, entrypoint, items@)
                &&& fault(&link, entrypoint, items@) is None
                &&& is_code_of(component, &link, entrypoint, target, items@, span, paths)
            },
        },
{
    if let Some(entry) = entrypoint {
        if !entrypoint_is_pushable(link.component.as_str(), entry) {
            return None;
        }
    }
    if (link.has_globals || link.has_data_segments) && !is_pushable("init") {
        return None;
    }
    if !names_are_pushable(&items) {
        return None;
    }
    Some(to_masm_component(link, entrypoint, target, items, span, paths))
}

impl MasmComponent {
    /// How the component is assembled from the modules of the given paths: as a program, if it
    /// has an entrypoint, else as a library. It is linked against `libraries` libraries, whose
    /// modules have the paths `provided`.
    pub fn assemble(
        &self,
        modules: &Vec<String>,
        libraries: usize,
        provided: &Vec<String>,
    ) -> (list: Vec<AssemblyStep>)
        ensures
            list@ == artifact::steps(
                modules@,
                libraries as nat,
                provided@,
                self.entrypoint is Some,
            ),
    {
        if self.entrypoint.is_some() {
            artifact::assemble_program(modules, libraries, provided)
        } else {
            artifact::assemble_library(modules, libraries, provided)
        }
    }
}

} // verus!

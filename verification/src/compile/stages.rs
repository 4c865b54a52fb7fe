//! The stages of the compiler.
use vstd::prelude::*;
use vstd::string::*;
use vstd::utf8::*;
use crate::hir::library_path::{self, library_path};
use crate::hir::sorted::{self, SortedMap};
use crate::masm::intrinsics::IntrinsicsModule;
use crate::session::output::{OutputMode, OutputType};
use crate::session::session::Session;
use crate::session::target::ProjectType;
use crate::symbol::Symbol;
use crate::text::{chars_of, string_of};

verus! {

/// The compiler was stopped before it was done, as the user wanted.
#[derive(Clone, Copy, PartialEq, Eq, Debug, Structural)]
pub struct CompilerStopped;

/// A stage of the compiler.
#[derive(Clone, Copy, PartialEq, Eq, Debug, Structural)]
pub enum StageKind {
    Parse,
    Link,
    ApplyRewrites,
    Codegen,
    /// A stage that the caller gives, before assembly
    PreAssembly,
    Assemble,
}

/// How far the compiler goes, and where it begins.
#[derive(Clone, Copy, PartialEq, Eq, Debug, Structural)]
pub enum Goal {
    /// From the inputs to an artifact
    Artifact,
    /// From the inputs to the intermediate representation, rewritten
    OptimizedHir,
    /// From the inputs to the intermediate representation
    UnoptimizedHir,
    /// From the intermediate representation to an artifact
    FromHir,
}

/// The stages on the way to a goal.
pub open spec fn stages_for(goal: Goal, pre_assembly: bool) -> Seq<StageKind> {
    let front = match goal {
        Goal::Artifact | Goal::OptimizedHir => seq![
            StageKind::Parse,
            StageKind::Link,
            StageKind::ApplyRewrites,
        ],
        Goal::UnoptimizedHir => seq![StageKind::Parse, StageKind::Link],
        Goal::FromHir => Seq::empty(),
    };
    let back = match goal {
        Goal::Artifact | Goal::FromHir => if pre_assembly {
            seq![StageKind::Codegen, StageKind::PreAssembly, StageKind::Assemble]
        } else {
            seq![StageKind::Codegen, StageKind::Assemble]
        },
        _ => Seq::empty(),
    };
    front + back
}

/// The stages on the way to a goal.
pub fn plan_stages(goal: Goal, pre_assembly: bool) -> (stages: Vec<StageKind>)
    ensures
        stages@ == stages_for(goal, pre_assembly),
{
    let mut stages: Vec<StageKind> = Vec::new();
    match goal {
        Goal::FromHir => {},
        _ => {
            stages.push(StageKind::Parse);
            stages.push(StageKind::Link);
        },
    }
    match goal {
        Goal::Artifact | Goal::OptimizedHir => {
            stages.push(StageKind::ApplyRewrites);
        },
        _ => {},
    }
    match goal {
        Goal::Artifact | Goal::FromHir => {
            stages.push(StageKind::Codegen);
            if pre_assembly {
                stages.push(StageKind::PreAssembly);
            }
            stages.push(StageKind::Assemble);
        },
        _ => {},
    }
    assert(stages@ =~= stages_for(goal, pre_assembly));
    stages
}

/// What an input is, by its contents.
#[derive(Clone, Copy, PartialEq, Eq, Debug, Structural)]
pub enum FileType {
    Hir,
    Wasm,
    Wat,
    Masm,
    Mast,
    Masp,
}

/// Why an input cannot be parsed.
#[derive(Clone, Copy, PartialEq, Eq, Debug, Structural)]
pub enum ParseError {
    /// The intermediate representation cannot be parsed
    UnsupportedHir,
    /// The text is not WebAssembly
    InvalidWat,
    /// The source of a module is not text
    InvalidUtf8,
    /// There is no valid path for a module
    InvalidPath,
    /// The source of a module is not Miden Assembly
    InvalidModule,
    /// The bytes are not those of a library
    InvalidLibrary,
    /// The bytes are not those of a package
    InvalidPackage,
}

/// Where an input is from.
pub enum InputOrigin {
    /// A file, by its directory and its name without the extension
    File { directory: String, stem: String },
    /// Standard input, under the given name
    Stdin { name: String },
}

/// How an input is parsed further, if it is not done: the parser of Miden Assembly and the readers
/// of libraries and packages panic on some inputs, so the caller runs them, and hands the outcome
/// to [ParseStage::finish].
pub enum ParseStep {
    /// WebAssembly, which is translated when it is linked
    Wasm(Vec<u8>),
    /// The source of a module of Miden Assembly that is to be parsed, and the path of the module
    Module { path: String, source: String },
    /// The bytes that are to be read as a library
    Library(Vec<u8>),
    /// The bytes that are to be read as a package
    Package(Vec<u8>),
}

/// What an input turned out to be.
#[derive(Clone, Copy, PartialEq, Eq, Debug, Structural)]
pub enum ParseOutput {
    Wasm,
    Module,
    Library,
    Package,
}

/// The first bytes of WebAssembly are `\0asm`.
pub open spec fn is_wasm(bytes: Seq<u8>) -> bool {
    bytes.len() >= 4 && bytes[0] == 0 && bytes[1] == 0x61 && bytes[2] == 0x73 && bytes[3] == 0x6d
}

/// The bytes behind an optional vector.
pub open spec fn bytes_of(bytes: Option<Vec<u8>>) -> Option<Seq<u8>> {
    match bytes {
        Some(bytes) => Some(bytes@),
        None => None,
    }
}

/// What `wat::parse_bytes` makes of `bytes`. The text of a component may follow an older syntax of
/// indices where the environment says so, and `legacy` is whether it does.
pub uninterp spec fn wat_parsed(bytes: Seq<u8>, legacy: bool) -> Option<Seq<u8>>;

/// `wat::parse_bytes` translates the text of a module to WebAssembly. What is WebAssembly already
/// is left as it is, and what is no text either is refused. Apart from the bytes, only one setting
/// of the environment goes into the outcome, so it is [wat_parsed] of the bytes under that setting
/// or without it. Which texts are taken, what is made of them, and which of the two settings holds
/// is not said here; [after_wat] says what follows for each outcome.
#[verifier::external_body]
fn parse_wat(bytes: &[u8]) -> (wasm: Option<Vec<u8>>)
    ensures
        is_wasm(bytes@) ==> (wasm matches Some(wasm) && wasm@ == bytes@),
        !is_wasm(bytes@) && !valid_utf8(bytes@) ==> wasm is None,
        exists|legacy: bool| bytes_of(wasm) == #[trigger] wat_parsed(bytes@, legacy),
{
    match wat::parse_bytes(bytes) {
        Ok(wasm) => Some(wasm.into_owned()),
        Err(_) => None,
    }
}

/// What follows for an input whose text was translated.
pub fn after_wat(wasm: Option<Vec<u8>>) -> (step: Result<ParseStep, ParseError>)
    ensures
        match wasm {
            Some(wasm) => step == Ok::<ParseStep, ParseError>(ParseStep::Wasm(wasm)),
            None => step == Err::<ParseStep, _>(ParseError::InvalidWat),
        },
{
    match wasm {
        Some(wasm) => Ok(ParseStep::Wasm(wasm)),
        None => Err(ParseError::InvalidWat),
    }
}

/// The text with `::` in place of slashes.
pub open spec fn slashes_replaced(s: Seq<char>) -> Seq<char>
    decreases s.len(),
{
    if s.len() == 0 {
        Seq::empty()
    } else if s.last() == '/' {
        slashes_replaced(s.drop_last()).push(':').push(':')
    } else {
        slashes_replaced(s.drop_last()).push(s.last())
    }
}

/// The name of the module in a file: `foo::bar::baz` for the file `foo/bar/baz.masm`.
pub open spec fn module_text(directory: Seq<char>, stem: Seq<char>) -> Seq<char> {
    if directory.len() == 0 {
        stem
    } else {
        slashes_replaced(directory) + "::"@ + stem
    }
}

/// The name of the module in a file, given the directory of the file and its name without the
/// extension.
pub fn module_name(directory: &str, stem: &str) -> (name: String)
    ensures
        name@ == module_text(directory@, stem@),
{
    let chars = chars_of(directory);
    if chars.len() == 0 {
        return stem.to_owned();
    }
    let mut out: Vec<char> = Vec::new();
    let mut i: usize = 0;
    assert(slashes_replaced(chars@.take(0)) =~= out@);
    while i < chars.len()
        invariant
            i <= chars@.len(),
            out@ == slashes_replaced(chars@.take(i as int)),
        decreases chars@.len() - i,
    {
        let c = chars[i];
        assert(chars@.take(i + 1).drop_last() == chars@.take(i as int));
        if c == '/' {
            out.push(':');
            out.push(':');
        } else {
            out.push(c);
        }
        i = i + 1;
    }
    assert(chars@.take(chars@.len() as int) == chars@);
    let mut name = string_of(out.as_slice());
    name.append("::");
    name.append(stem);
    assert(name@ =~= module_text(directory@, stem@));
    name
}

/// The path of the module in a file, if there is a valid one.
pub fn module_path_of(directory: &str, stem: &str) -> (path: Option<String>)
    ensures
        match path {
            Some(path) => library_path::canonical_path(module_text(directory@, stem@)) == Some(
                path@,
            ),
            None => library_path::canonical_path(module_text(directory@, stem@)) is None,
        },
{
    library_path(module_name(directory, stem).as_str())
}

/// `core::str::from_utf8` gives the text that bytes encode; none if they encode none.
#[verifier::external_body]
fn text_of_bytes(bytes: &[u8]) -> (text: Option<String>)
    ensures
        match text {
            Some(text) => valid_utf8(bytes@) && text@ == decode_utf8(bytes@),
            None => !valid_utf8(bytes@),
        },
{
    match core::str::from_utf8(bytes) {
        Ok(text) => Some(text.to_owned()),
        Err(_) => None,
    }
}

/// The text from which the path of the module in an input is made.
pub open spec fn origin_text(origin: InputOrigin) -> Seq<char> {
    match origin {
        InputOrigin::File { directory, stem } => module_text(directory@, stem@),
        InputOrigin::Stdin { name } => name@,
    }
}

/// Why a module of Miden Assembly cannot be read, if it cannot. The path of a file is looked at
/// before its contents, those of standard input before its name.
pub open spec fn module_fault(origin: InputOrigin, input: Seq<u8>) -> Option<ParseError> {
    let is_named = library_path::canonical_path(origin_text(origin)) is Some;
    match origin {
        InputOrigin::File { .. } => if !is_named {
            Some(ParseError::InvalidPath)
        } else if !valid_utf8(input) {
            Some(ParseError::InvalidUtf8)
        } else {
            None
        },
        InputOrigin::Stdin { .. } => if !valid_utf8(input) {
            Some(ParseError::InvalidUtf8)
        } else if !is_named {
            Some(ParseError::InvalidPath)
        } else {
            None
        },
    }
}

/// Parses the inputs.
#[derive(Clone, Copy, PartialEq, Eq, Debug, Structural)]
pub struct ParseStage;

impl ParseStage {
    /// Reads the source of a module of Miden Assembly that is in a file.
    pub fn parse_masm_from_file(&self, directory: &str, stem: &str, bytes: &[u8]) -> (step: Result<
        ParseStep,
        ParseError,
    >)
        ensures
            match library_path::canonical_path(module_text(directory@, stem@)) {
                None => step == Err::<ParseStep, _>(ParseError::InvalidPath),
                Some(wanted) => if valid_utf8(bytes@) {
                    step matches Ok(ParseStep::Module { path, source }) && path@ == wanted
                        && source@ == decode_utf8(bytes@)
                } else {
                    step == Err::<ParseStep, _>(ParseError::InvalidUtf8)
                },
            },
    {
        match module_path_of(directory, stem) {
            None => Err(ParseError::InvalidPath),
            Some(path) => match text_of_bytes(bytes) {
                None => Err(ParseError::InvalidUtf8),
                Some(source) => Ok(ParseStep::Module { path, source }),
            },
        }
    }

    /// Reads the source of a module of Miden Assembly that is given under a name.
    pub fn parse_masm_from_bytes(&self, name: &str, bytes: &[u8]) -> (step: Result<
        ParseStep,
        ParseError,
    >)
        ensures
            if !valid_utf8(bytes@) {
                step == Err::<ParseStep, _>(ParseError::InvalidUtf8)
            } else {
                match library_path::canonical_path(name@) {
                    None => step == Err::<ParseStep, _>(ParseError::InvalidPath),
                    Some(wanted) => step matches Ok(ParseStep::Module { path, source }) && path@
                        == wanted && source@ == decode_utf8(bytes@),
                }
            },
    {
        match text_of_bytes(bytes) {
            None => Err(ParseError::InvalidUtf8),
            Some(source) => match library_path(name) {
                None => Err(ParseError::InvalidPath),
                Some(path) => Ok(ParseStep::Module { path, source }),
            },
        }
    }

    /// Parses an input as far as can be done here: it says what is left to do for it, or why it
    /// cannot be parsed.
    pub fn run(&self, file_type: FileType, origin: InputOrigin, input: Vec<u8>) -> (step: Result<
        ParseStep,
        ParseError,
    >)
        ensures
            match file_type {
                FileType::Hir => step == Err::<ParseStep, _>(ParseError::UnsupportedHir),
                FileType::Wasm => step == Ok::<ParseStep, ParseError>(ParseStep::Wasm(input)),
                FileType::Wat => match step {
                    Ok(step) => step is Wasm,
                    Err(error) => error == ParseError::InvalidWat && !is_wasm(input@),
                },
                FileType::Masm => match module_fault(origin, input@) {
                    Some(error) => step == Err::<ParseStep, _>(error),
                    None => step matches Ok(ParseStep::Module { path, source })
                        && library_path::canonical_path(origin_text(origin)) == Some(path@)
                        && source@ == decode_utf8(input@),
                },
                FileType::Mast => step == Ok::<ParseStep, ParseError>(ParseStep::Library(input)),
                FileType::Masp => step == Ok::<ParseStep, ParseError>(ParseStep::Package(input)),
            },
            file_type is Wat ==> exists|legacy: bool|
                match #[trigger] wat_parsed(input@, legacy) {
                    Some(wasm) => step matches Ok(ParseStep::Wasm(bytes)) && bytes@ == wasm,
                    None => step == Err::<ParseStep, _>(ParseError::InvalidWat),
                },
            file_type is Wat && is_wasm(input@) ==> (step matches Ok(ParseStep::Wasm(bytes)) && bytes@
                == input@),
            file_type is Wat && !is_wasm(input@) && !valid_utf8(input@) ==> step == Err::<
                ParseStep,
                _,
            >(ParseError::InvalidWat),
    {
        match file_type {
            FileType::Hir => Err(ParseError::UnsupportedHir),
            FileType::Wasm => Ok(ParseStep::Wasm(input)),
            FileType::Wat => after_wat(parse_wat(input.as_slice())),
            FileType::Masm => match origin {
                InputOrigin::File { directory, stem } => self.parse_masm_from_file(
                    directory.as_str(),
                    stem.as_str(),
                    input.as_slice(),
                ),
                InputOrigin::Stdin { name } => self.parse_masm_from_bytes(
                    name.as_str(),
                    input.as_slice(),
                ),
            },
            FileType::Mast => Ok(ParseStep::Library(input)),
            FileType::Masp => Ok(ParseStep::Package(input)),
        }
    }

    /// What an input is, once what was left to do for it succeeded or failed.
    pub fn finish(&self, step: &ParseStep, succeeded: bool) -> (output: Result<
        ParseOutput,
        ParseError,
    >)
        ensures
            output == match step {
                ParseStep::Wasm(_) => Ok::<ParseOutput, ParseError>(ParseOutput::Wasm),
                ParseStep::Module { .. } => if succeeded {
                    Ok(ParseOutput::Module)
                } else {
                    Err(ParseError::InvalidModule)
                },
                ParseStep::Library(_) => if succeeded {
                    Ok(ParseOutput::Library)
                } else {
                    Err(ParseError::InvalidLibrary)
                },
                ParseStep::Package(_) => if succeeded {
                    Ok(ParseOutput::Package)
                } else {
                    Err(ParseError::InvalidPackage)
                },
            },
    {
        match step {
            ParseStep::Wasm(_) => Ok(ParseOutput::Wasm),
            ParseStep::Module { .. } => if succeeded {
                Ok(ParseOutput::Module)
            } else {
                Err(ParseError::InvalidModule)
            },
            ParseStep::Library(_) => if succeeded {
                Ok(ParseOutput::Library)
            } else {
                Err(ParseError::InvalidLibrary)
            },
            ParseStep::Package(_) => if succeeded {
                Ok(ParseOutput::Package)
            } else {
                Err(ParseError::InvalidPackage)
            },
        }
    }

    /// What is put out of an input that was parsed, if the session wants it: a module of Miden
    /// Assembly as it is, and WebAssembly as text.
    pub fn emits(&self, step: &ParseStep, session: &Session) -> (output: Option<OutputType>)
        requires
            session.wf(),
        ensures
            output == match step {
                ParseStep::Module { .. } => if session.outputs().dom().contains(OutputType::Masm) {
                    Some(OutputType::Masm)
                } else {
                    None
                },
                ParseStep::Wasm(_) => if session.outputs().dom().contains(OutputType::Wat) {
                    Some(OutputType::Wat)
                } else {
                    None
                },
                _ => None,
            },
    {
        let output = match step {
            ParseStep::Module { .. } => OutputType::Masm,
            ParseStep::Wasm(_) => OutputType::Wat,
            _ => return None,
        };
        if session.should_emit(output) {
            Some(output)
        } else {
            None
        }
    }
}

/// An input that is linked.
#[derive(Clone, Copy, PartialEq, Eq, Debug, Structural)]
pub enum LinkInput {
    Wasm,
    /// A module of Miden Assembly
    Module { is_executable: bool },
    Library,
    Package { name: Symbol },
}

/// Why inputs cannot be linked.
#[derive(Clone, Copy, PartialEq, Eq, Debug, Structural)]
pub enum LinkError {
    /// There is more than one WebAssembly input
    MultipleWasm,
    /// A library cannot have a module that is a program
    ExecutableModule,
    /// There is no WebAssembly input
    MissingWasm,
}

/// What is linked, by the numbers of the inputs.
pub struct LinkPlan {
    /// The input that is compiled
    pub wasm: usize,
    /// The modules of Miden Assembly
    pub masm: Vec<usize>,
    /// The libraries
    pub mast: Vec<usize>,
    /// The packages, by name
    pub packages: SortedMap<Symbol, usize, false>,
}

/// How many of the first `n` inputs are WebAssembly.
pub open spec fn wasm_count(inputs: Seq<LinkInput>, n: int) -> nat
    decreases n,
{
    if n <= 0 {
        0
    } else {
        wasm_count(inputs, n - 1) + (if inputs[n - 1] is Wasm {
            1nat
        } else {
            0nat
        })
    }
}

/// The numbers of those of the first `n` inputs that `keep` keeps.
pub open spec fn kept(inputs: Seq<LinkInput>, keep: spec_fn(LinkInput) -> bool, n: int) -> Seq<usize>
    decreases n,
{
    if n <= 0 {
        Seq::empty()
    } else if keep(inputs[n - 1]) {
        kept(inputs, keep, n - 1).push((n - 1) as usize)
    } else {
        kept(inputs, keep, n - 1)
    }
}

/// The packages among the first `n` inputs, by name; a later one replaces an earlier one.
pub open spec fn packages_of(inputs: Seq<LinkInput>, n: int) -> Map<Symbol, usize>
    decreases n,
{
    if n <= 0 {
        Map::empty()
    } else {
        match inputs[n - 1] {
            LinkInput::Package { name } => packages_of(inputs, n - 1).insert(
                name,
                (n - 1) as usize,
            ),
            _ => packages_of(inputs, n - 1),
        }
    }
}

/// The first of the inputs, from `from` on, that cannot be linked, and why.
pub open spec fn fault_from(
    inputs: Seq<LinkInput>,
    project_type: ProjectType,
    from: int,
) -> Option<LinkError>
    decreases inputs.len() - from,
{
    if from < 0 || from >= inputs.len() {
        None
    } else if inputs[from] is Wasm && wasm_count(inputs, from) > 0 {
        Some(LinkError::MultipleWasm)
    } else if inputs[from] matches LinkInput::Module { is_executable } && is_executable
        && project_type == ProjectType::Library {
        Some(LinkError::ExecutableModule)
    } else {
        fault_from(inputs, project_type, from + 1)
    }
}

/// Links the inputs.
#[derive(Clone, Copy, PartialEq, Eq, Debug, Structural)]
pub struct LinkStage;

impl LinkStage {
    /// Sorts the inputs by what they are for the linker. Exactly one is WebAssembly, and a library has
    /// no module that is a program.
    pub fn run(&self, inputs: &Vec<LinkInput>, project_type: ProjectType) -> (plan: Result<
        LinkPlan,
        LinkError,
    >)
        ensures
            ({
                let n = inputs@.len() as int;
                match fault_from(inputs@, project_type, 0) {
                    Some(error) => plan == Err::<LinkPlan, _>(error),
                    None => if wasm_count(inputs@, n) == 0 {
                        plan == Err::<LinkPlan, _>(LinkError::MissingWasm)
                    } else {
                        &&& plan matches Ok(plan)
                        &&& plan.wasm < inputs@.len()
                        &&& inputs@[plan.wasm as int] is Wasm
                        &&& plan.masm@ == kept(inputs@, |input: LinkInput| input is Module, n)
                        &&& plan.mast@ == kept(inputs@, |input: LinkInput| input is Library, n)
                        &&& plan.packages.wf()
                        &&& sorted::map_of(plan.packages@) == packages_of(inputs@, n)
                    },
                }
            }),
    {
        let ghost is_module = |input: LinkInput| input is Module;
        let ghost is_library = |input: LinkInput| input is Library;
        let mut wasm: Option<usize> = None;
        let mut masm: Vec<usize> = Vec::new();
        let mut mast: Vec<usize> = Vec::new();
        let mut packages: SortedMap<Symbol, usize, false> = SortedMap::new();
        let mut i: usize = 0;
        assert(sorted::map_of(packages@) =~= packages_of(inputs@, 0));
        while i < inputs.len()
            invariant
                i <= inputs@.len(),
                is_module == (|input: LinkInput| input is Module),
                is_library == (|input: LinkInput| input is Library),
                fault_from(inputs@, project_type, 0) == fault_from(inputs@, project_type, i as int),
                match wasm {
                    Some(at) => at < i && inputs@[at as int] is Wasm && wasm_count(inputs@, i as int)
                        > 0,
                    None => wasm_count(inputs@, i as int) == 0,
                },
                masm@ == kept(inputs@, is_module, i as int),
                mast@ == kept(inputs@, is_library, i as int),
                packages.wf(),
                sorted::map_of(packages@) == packages_of(inputs@, i as int),
            decreases inputs@.len() - i,
        {
            match inputs[i] {
                LinkInput::Wasm => {
                    if wasm.is_some() {
                        return Err(LinkError::MultipleWasm);
                    }
                    wasm = Some(i);
                },
                LinkInput::Module { is_executable } => {
                    if is_executable && project_type == ProjectType::Library {
                        return Err(LinkError::ExecutableModule);
                    }
                    masm.push(i);
                },
                LinkInput::Library => {
                    mast.push(i);
                },
                LinkInput::Package { name } => {
                    let _ = packages.insert(name, i);
                },
            }
            i = i + 1;
        }
        match wasm {
            None => Err(LinkError::MissingWasm),
            Some(wasm) => Ok(LinkPlan { wasm, masm, mast, packages }),
        }
    }
}

/// The libraries that are linked: those among the inputs, and those that were asked for.
pub fn link_libraries_from(mast: &mut Vec<usize>, loaded: &Vec<usize>)
    ensures
        final(mast)@ == old(mast)@ + loaded@,
{
    let mut i: usize = 0;
    assert(mast@ =~= old(mast)@ + loaded@.take(0));
    while i < loaded.len()
        invariant
            i <= loaded@.len(),
            mast@ == old(mast)@ + loaded@.take(i as int),
        decreases loaded@.len() - i,
    {
        mast.push(loaded[i]);
        i = i + 1;
        assert(mast@ =~= old(mast)@ + loaded@.take(i as int));
    }
    assert(loaded@.take(loaded@.len() as int) == loaded@);
}

/// Whether the compiler goes on once the inputs are linked.
pub fn after_link(session: &Session) -> (done: Result<(), CompilerStopped>)
    ensures
        done is Err <==> session.options.parse_only || session.options.analyze_only
            || session.options.link_only,
{
    if session.parse_only() {
        Err(CompilerStopped)
    } else if session.analyze_only() {
        Err(CompilerStopped)
    } else if session.options.link_only {
        Err(CompilerStopped)
    } else {
        Ok(())
    }
}

/// The modules of intrinsics that generated code needs.
pub fn required_intrinsics_modules() -> (modules: Vec<IntrinsicsModule>)
    ensures
        modules@ == seq![
            IntrinsicsModule::Mem,
            IntrinsicsModule::I32,
            IntrinsicsModule::I64,
            IntrinsicsModule::Advice,
        ],
{
    let mut modules: Vec<IntrinsicsModule> = Vec::new();
    modules.push(IntrinsicsModule::Mem);
    modules.push(IntrinsicsModule::I32);
    modules.push(IntrinsicsModule::I64);
    modules.push(IntrinsicsModule::Advice);
    assert(modules@ =~= seq![
        IntrinsicsModule::Mem,
        IntrinsicsModule::I32,
        IntrinsicsModule::I64,
        IntrinsicsModule::Advice,
    ]);
    modules
}

/// A module that is assembled.
#[derive(Clone, Copy, PartialEq, Eq, Debug, Structural)]
pub enum AssembledModule {
    /// The module of the given number of the component
    Generated(usize),
    Intrinsics(IntrinsicsModule),
    /// The module of the given number among the inputs
    Input(usize),
}

/// The modules that are assembled: those that were generated, the intrinsics, and the inputs.
pub open spec fn assembled(generated: nat, inputs: Seq<usize>) -> Seq<AssembledModule> {
    Seq::new(generated, |i: int| AssembledModule::Generated(i as usize)) + seq![
        AssembledModule::Intrinsics(IntrinsicsModule::Mem),
        AssembledModule::Intrinsics(IntrinsicsModule::I32),
        AssembledModule::Intrinsics(IntrinsicsModule::I64),
        AssembledModule::Intrinsics(IntrinsicsModule::Advice),
    ] + inputs.map_values(|i: usize| AssembledModule::Input(i))
}

/// Generates code.
#[derive(Clone, Copy, PartialEq, Eq, Debug, Structural)]
pub struct CodegenStage;

impl CodegenStage {
    /// Whether code is generated.
    pub fn enabled(&self, session: &Session) -> (b: bool)
        requires
            session.wf(),
        ensures
            b == session.generates(),
    {
        session.should_codegen()
    }

    /// The modules that are assembled, in order.
    pub fn run(&self, generated: usize, inputs: &Vec<usize>) -> (modules: Vec<AssembledModule>)
        ensures
            modules@ == assembled(generated as nat, inputs@),
    {
        let mut modules: Vec<AssembledModule> = Vec::new();
        let mut i: usize = 0;
        while i < generated
            invariant
                i <= generated,
                modules@ == Seq::new(i as nat, |i: int| AssembledModule::Generated(i as usize)),
            decreases generated - i,
        {
            modules.push(AssembledModule::Generated(i));
            i = i + 1;
            assert(modules@ =~= Seq::new(i as nat, |i: int| AssembledModule::Generated(i as usize)));
        }
        let required = required_intrinsics_modules();
        modules.push(AssembledModule::Intrinsics(required[0]));
        modules.push(AssembledModule::Intrinsics(required[1]));
        modules.push(AssembledModule::Intrinsics(required[2]));
        modules.push(AssembledModule::Intrinsics(required[3]));
        let ghost head = modules@;
        let mut k: usize = 0;
        assert(modules@ =~= head + inputs@.take(0).map_values(|i: usize| AssembledModule::Input(i)));
        while k < inputs.len()
            invariant
                k <= inputs@.len(),
                modules@ == head + inputs@.take(k as int).map_values(
                    |i: usize| AssembledModule::Input(i),
                ),
            decreases inputs@.len() - k,
        {
            modules.push(AssembledModule::Input(inputs[k]));
            k = k + 1;
            assert(modules@ =~= head + inputs@.take(k as int).map_values(
                |i: usize| AssembledModule::Input(i),
            ));
        }
        assert(inputs@.take(inputs@.len() as int) == inputs@);
        assert(modules@ =~= assembled(generated as nat, inputs@));
        modules
    }
}

/// What a section of a package holds.
#[derive(Clone, Copy, PartialEq, Eq, Debug, Structural)]
pub enum SectionId {
    DebugTypes,
    DebugSources,
    DebugFunctions,
    Other(Symbol),
}

/// A section of a package.
pub struct Section {
    pub id: SectionId,
    pub data: Vec<u8>,
}

/// The contents of the sections with debug information.
pub struct DebugInfoBytes {
    pub types: Vec<u8>,
    pub sources: Vec<u8>,
    pub functions: Vec<u8>,
}

/// The section has no debug information.
pub open spec fn is_other(section: Section) -> bool {
    section.id is Other
}

/// The sections of a package with other debug information.
pub fn replace_debug_sections(sections: Vec<Section>, debug_info: Option<DebugInfoBytes>) -> (out:
    Vec<Section>)
    ensures
        match debug_info {
            None => out@ == sections@,
            Some(info) => out@ == sections@.filter(|section: Section| is_other(section)) + seq![
                Section { id: SectionId::DebugTypes, data: info.types },
                Section { id: SectionId::DebugSources, data: info.sources },
                Section { id: SectionId::DebugFunctions, data: info.functions },
            ],
        },
{
    let info = match debug_info {
        None => {
            return sections;
        },
        Some(info) => info,
    };
    let ghost keep = |section: Section| is_other(section);
    let ghost all = sections@;
    let ghost mut done: int = 0;
    let mut rest = sections;
    let mut out: Vec<Section> = Vec::new();
    assert(rest@ == all.skip(0));
    assert(all.take(0) =~= Seq::<Section>::empty());
    proof {
        reveal(Seq::filter);
    }
    while rest.len() > 0
        invariant
            0 <= done <= all.len(),
            keep == (|section: Section| is_other(section)),
            rest@ == all.skip(done),
            out@ == all.take(done).filter(keep),
        decreases rest@.len(),
    {
        let section = rest.remove(0);
        assert(section == all[done]);
        assert(rest@ =~= all.skip(done + 1));
        proof {
            reveal(Seq::filter);
            assert(all.take(done + 1).drop_last() == all.take(done));
            assert(all.take(done + 1).last() == section);
        }
        match section.id {
            SectionId::Other(_) => {
                out.push(section);
            },
            _ => {},
        }
        proof {
            done = done + 1;
        }
    }
    assert(all.take(all.len() as int) == all);
    out.push(Section { id: SectionId::DebugTypes, data: info.types });
    out.push(Section { id: SectionId::DebugSources, data: info.sources });
    out.push(Section { id: SectionId::DebugFunctions, data: info.functions });
    assert(out@ =~= all.filter(keep) + seq![
        Section { id: SectionId::DebugTypes, data: info.types },
        Section { id: SectionId::DebugSources, data: info.sources },
        Section { id: SectionId::DebugFunctions, data: info.functions },
    ]);
    out
}

/// What the compiler makes.
#[derive(Clone, Copy, PartialEq, Eq, Debug, Structural)]
pub enum Artifact {
    /// Miden Assembly
    Lowered,
    /// A package
    Assembled,
}

impl Artifact {
    /// How the compiler puts out what it made: a package as text, and then as bytes. Miden
    /// Assembly was put out before.
    pub fn emits(&self) -> (modes: Vec<OutputMode>)
        ensures
            modes@ == match self {
                Artifact::Assembled => seq![OutputMode::Text, OutputMode::Binary],
                Artifact::Lowered => Seq::empty(),
            },
    {
        let mut modes: Vec<OutputMode> = Vec::new();
        match self {
            Artifact::Assembled => {
                modes.push(OutputMode::Text);
                modes.push(OutputMode::Binary);
            },
            Artifact::Lowered => {},
        }
        assert(modes@ =~= match self {
            Artifact::Assembled => seq![OutputMode::Text, OutputMode::Binary],
            Artifact::Lowered => Seq::empty(),
        });
        modes
    }
}

/// Assembles the code.
#[derive(Clone, Copy, PartialEq, Eq, Debug, Structural)]
pub struct AssembleStage;

impl AssembleStage {
    /// What the compiler makes: a package, if an output needs assembled code.
    pub fn run(&self, session: &Session) -> (kind: Artifact)
        requires
            session.wf(),
        ensures
            kind == if session.assembles() {
                Artifact::Assembled
            } else {
                Artifact::Lowered
            },
    {
        if session.should_assemble() {
            Artifact::Assembled
        } else {
            Artifact::Lowered
        }
    }
}

} // verus!

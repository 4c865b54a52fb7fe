//! Sessions.
use vstd::prelude::*;
use vstd::string::*;
use crate::session::libs::LinkLibrary;
use crate::session::output::{self, FilePath, OutputFile, OutputType, OutputTypes};
use crate::session::target::{ProjectType, TargetEnv};
use crate::symbol::{Interner, Symbol};
use crate::text::same_text;

verus! {

/// A flag of the command line that the compiler itself does not know.
pub struct ExtraFlag {
    pub name: String,
    /// Whether the flag is set
    pub value: bool,
    /// How often the flag is given
    pub count: usize,
}

/// The flags of the command line that the compiler itself does not know.
pub struct CompileFlags {
    pub flags: Vec<ExtraFlag>,
}

/// The first flag, from `from` on, with the given name.
pub open spec fn flag_named(flags: Seq<ExtraFlag>, name: Seq<char>, from: int) -> Option<ExtraFlag>
    decreases flags.len() - from,
{
    if from < 0 || from >= flags.len() {
        None
    } else if flags[from].name@ == name {
        Some(flags[from])
    } else {
        flag_named(flags, name, from + 1)
    }
}

impl CompileFlags {
    /// The flag with the given name.
    pub fn find(&self, name: &str) -> (found: Option<&ExtraFlag>)
        ensures
            match found {
                Some(flag) => flag_named(self.flags@, name@, 0) == Some(*flag),
                None => flag_named(self.flags@, name@, 0) is None,
            },
    {
        let mut i: usize = 0;
        while i < self.flags.len()
            invariant
                i <= self.flags@.len(),
                flag_named(self.flags@, name@, 0) == flag_named(self.flags@, name@, i as int),
            decreases self.flags@.len() - i,
        {
            if same_text(self.flags[i].name.as_str(), name) {
                return Some(&self.flags[i]);
            }
            i = i + 1;
        }
        None
    }
}

/// How much the compiler says.
#[derive(Clone, Copy, PartialEq, Eq, Debug, Structural)]
pub enum Verbosity {
    Debug,
    Info,
    Warning,
    Error,
    Silent,
}

/// How warnings are treated.
#[derive(Clone, Copy, PartialEq, Eq, Debug, Structural)]
pub enum Warnings {
    Off,
    All,
    Error,
}

/// Whether, and how, output to a terminal is colored.
#[derive(Clone, Copy, PartialEq, Eq, Debug, Structural)]
pub enum ColorChoice {
    Always,
    AlwaysAnsi,
    Auto,
    Never,
}

/// How much debug information is emitted.
#[derive(Clone, Copy, PartialEq, Eq, Debug, Structural)]
pub enum DebugInfo {
    Off,
    Line,
    Full,
}

/// What code is optimized for.
#[derive(Clone, Copy, PartialEq, Eq, Debug, Structural)]
pub enum OptLevel {
    Off,
    Basic,
    Balanced,
    Max,
    Size,
    SizeMin,
}

/// What the user wants of the compiler.
pub struct Options {
    pub name: Option<Symbol>,
    pub target: TargetEnv,
    pub project_type: ProjectType,
    pub current_dir: FilePath,
    /// The directory that the libraries of the compiler are in
    pub sysroot: Option<FilePath>,
    pub color: ColorChoice,
    pub verbosity: Verbosity,
    pub warnings: Warnings,
    pub debug: DebugInfo,
    pub optimize: OptLevel,
    pub output_types: OutputTypes,
    pub search_paths: Vec<FilePath>,
    pub link_libraries: Vec<LinkLibrary>,
    pub entrypoint: Option<String>,
    pub parse_only: bool,
    pub analyze_only: bool,
    pub link_only: bool,
    pub no_link: bool,
    pub print_cfg_after_all: bool,
    pub print_cfg_after_pass: Vec<String>,
    pub print_ir_after_all: bool,
    pub print_ir_after_pass: Vec<String>,
    pub print_ir_after_modified: bool,
    pub flags: CompileFlags,
}

/// Where an input comes from.
#[derive(Clone, Copy, PartialEq, Eq, Debug, Structural)]
pub enum InputType {
    /// A file
    Real(FilePath),
    /// The standard input, under the given name; its stem is the name without an extension
    Stdin { name: Symbol, stem: Symbol },
}

/// Where the outputs are written to.
pub struct OutputFiles {
    pub stem: Symbol,
    pub cwd: FilePath,
    pub out_dir: Symbol,
    pub out_file: Option<OutputFile>,
    pub tmp_dir: FilePath,
    /// The outputs to be made, and the files that they were asked for in
    pub outputs: OutputTypes,
}

/// A run of the compiler: its name, its configuration, its inputs and its outputs.
pub struct Session {
    pub name: Symbol,
    pub options: Options,
    pub inputs: Vec<InputType>,
    pub output_files: OutputFiles,
}

/// What an item is written to.
#[derive(Clone, Copy, PartialEq, Eq, Debug, Structural)]
pub enum EmitTarget {
    /// It is not wanted
    Nowhere,
    File(FilePath),
    Stdout,
}

/// The name that an input gives to a session. The names that stand for no file are replaced by
/// that of the current directory.
pub open spec fn input_name(
    input: Option<InputType>,
    current_dir: FilePath,
    interner: &Interner,
) -> Seq<char> {
    match input {
        Some(InputType::Real(path)) => match path.stem {
            Some(stem) => interner.text(stem),
            None => interner.text(path.extension->0),
        },
        Some(InputType::Stdin { name, stem }) => if interner.text(name) == "empty"@
            || interner.text(name) == "stdin"@ {
            match current_dir.stem {
                Some(stem) => interner.text(stem),
                None => interner.text(name),
            }
        } else {
            interner.text(stem)
        },
        None => "out"@,
    }
}

/// The name of a session: the one that is given, else that of the output file, else that of the
/// first input.
pub open spec fn session_name(
    options: Options,
    output_file: Option<OutputFile>,
    inputs: Seq<InputType>,
    interner: &Interner,
) -> Seq<char> {
    match options.name {
        Some(name) => interner.text(name),
        None => match output_file {
            Some(file) if file.base_name() is Some => interner.text(file.base_name()->0),
            _ => input_name(
                if inputs.len() > 0 {
                    Some(inputs[0])
                } else {
                    None
                },
                options.current_dir,
                interner,
            ),
        },
    }
}

/// The symbols of a path are known.
pub open spec fn path_known(path: FilePath, interner: &Interner) -> bool {
    &&& interner.knows(path.text)
    &&& path.stem matches Some(stem) ==> interner.knows(stem)
    &&& path.extension matches Some(extension) ==> interner.knows(extension)
    &&& path.parent matches Some(parent) ==> interner.knows(parent)
}

/// The symbols of an input are known.
pub open spec fn input_known(input: InputType, interner: &Interner) -> bool {
    match input {
        InputType::Real(path) => path_known(path, interner),
        InputType::Stdin { name, stem } => interner.knows(name) && interner.knows(stem),
    }
}

/// An input can give its name to a session: a file has a stem or an extension.
pub open spec fn is_nameable(input: InputType) -> bool {
    input matches InputType::Real(path) ==> path.stem is Some || path.extension is Some
}

/// The session is named after its first input: no name is given, and the output file has none.
pub open spec fn takes_input_name(
    name: Option<Symbol>,
    output_file: Option<OutputFile>,
) -> bool {
    name is None && (output_file matches Some(file) ==> file.base_name() is None)
}

fn derive_name(
    options: &Options,
    output_file: &Option<OutputFile>,
    inputs: &Vec<InputType>,
    interner: &mut Interner,
) -> (name: Symbol)
    requires
        old(interner).wf(),
        old(interner)@.len() < u32::MAX,
        options.name matches Some(name) ==> old(interner).knows(name),
        path_known(options.current_dir, old(interner)),
        output_file matches Some(OutputFile::Real(path)) ==> path_known(*path, old(interner)),
        inputs@.len() > 0 ==> input_known(inputs@[0], old(interner)),
        inputs@.len() > 0 && takes_input_name(options.name, *output_file) ==> is_nameable(
            inputs@[0],
        ),
    ensures
        final(interner).wf(),
        final(interner).extends(old(interner)),
        final(interner)@.len() <= old(interner)@.len() + 1,
        final(interner).knows(name),
        final(interner).text(name) == session_name(
            *options,
            *output_file,
            inputs@,
            old(interner),
        ),
{
    if let Some(name) = options.name {
        return name;
    }
    if let Some(file) = output_file {
        if let Some(stem) = file.filestem() {
            return stem;
        }
    }
    if inputs.len() == 0 {
        return interner.intern("out");
    }
    match inputs[0] {
        InputType::Real(path) => match path.stem {
            Some(stem) => stem,
            None => match path.extension {
                Some(extension) => extension,
                None => path.text,
            },
        },
        InputType::Stdin { name, stem } => {
            if same_text(interner.as_str(name), "empty") || same_text(
                interner.as_str(name),
                "stdin",
            ) {
                match options.current_dir.stem {
                    Some(stem) => stem,
                    None => name,
                }
            } else {
                stem
            }
        },
    }
}

/// A list holds a text.
pub open spec fn holds(list: Seq<String>, text: Seq<char>) -> bool {
    exists|i: int| 0 <= i < list.len() && (#[trigger] list[i])@ == text
}

fn list_holds(list: &Vec<String>, text: &str) -> (b: bool)
    ensures
        b == holds(list@, text@),
{
    let mut i: usize = 0;
    while i < list.len()
        invariant
            i <= list@.len(),
            forall|j: int| 0 <= j < i ==> (#[trigger] list@[j])@ != text@,
        decreases list@.len() - i,
    {
        if same_text(list[i].as_str(), text) {
            assert(list@[i as int]@ == text@);
            return true;
        }
        i = i + 1;
    }
    false
}

impl Session {
    /// The wanted outputs are well-formed.
    pub open spec fn wf(&self) -> bool {
        self.options.output_types.wf() && self.output_files.outputs.wf()
    }

    /// The wanted outputs, by type.
    pub open spec fn outputs(&self) -> Map<OutputType, Option<OutputFile>> {
        output::outputs_of(&self.options.output_types)
    }

    /// A session. Outputs are written to the directory that is given, else to that of the output
    /// file, else to the current one.
    pub fn new(
        inputs: Vec<InputType>,
        output_dir: Option<Symbol>,
        output_file: Option<OutputFile>,
        target_dir: FilePath,
        options: Options,
        interner: &mut Interner,
    ) -> (session: Self)
        requires
            old(interner).wf(),
            old(interner)@.len() < u32::MAX,
            options.output_types.wf(),
            options.name matches Some(name) ==> old(interner).knows(name),
            path_known(options.current_dir, old(interner)),
            output_file matches Some(OutputFile::Real(path)) ==> path_known(path, old(interner)),
            inputs@.len() > 0 ==> input_known(inputs@[0], old(interner)),
            inputs@.len() > 0 && takes_input_name(options.name, output_file) ==> is_nameable(
                inputs@[0],
            ),
        ensures
            final(interner).wf(),
            final(interner).extends(old(interner)),
            final(interner)@.len() <= old(interner)@.len() + 1,
            final(interner).knows(session.name),
            final(interner).text(session.name) == session_name(
                options,
                output_file,
                inputs@,
                old(interner),
            ),
            session.wf(),
            session.inputs == inputs,
            session.options == options,
            session.output_files.stem == session.name,
            session.output_files.cwd == options.current_dir,
            session.output_files.out_file == output_file,
            session.output_files.tmp_dir == target_dir,
            output::outputs_of(&session.output_files.outputs) == session.outputs(),
            session.output_files.out_dir == match output_dir {
                Some(dir) => dir,
                None => match output_file {
                    Some(file) if file.directory() is Some => file.directory()->0,
                    _ => options.current_dir.text,
                },
            },
    {
        let name = derive_name(&options, &output_file, &inputs, interner);
        let from_file = match &output_file {
            Some(file) => file.parent(),
            None => None,
        };
        let out_dir = match output_dir {
            Some(dir) => dir,
            None => match from_file {
                Some(dir) => dir,
                None => options.current_dir.text,
            },
        };
        let output_files = OutputFiles {
            stem: name,
            cwd: options.current_dir,
            out_dir,
            out_file: output_file,
            tmp_dir: target_dir,
            outputs: options.output_types.duplicate(),
        };
        Session { name, options, inputs, output_files }
    }

    /// The session, for another kind of project.
    pub fn with_project_type(self, ty: ProjectType) -> (session: Self)
        ensures
            session == (Session {
                options: Options { project_type: ty, ..self.options },
                ..self
            }),
    {
        let mut session = self;
        session.options.project_type = ty;
        session
    }

    /// The session, with one more output.
    pub fn with_output_type(self, ty: OutputType, path: Option<OutputFile>) -> (session: Self)
        requires
            self.wf(),
        ensures
            session.wf(),
            session.outputs() == self.outputs().insert(ty, path),
            output::outputs_of(&session.output_files.outputs) == output::outputs_of(
                &self.output_files.outputs,
            ).insert(ty, path),
            session == (Session {
                options: Options {
                    output_types: session.options.output_types,
                    ..self.options
                },
                output_files: OutputFiles {
                    outputs: session.output_files.outputs,
                    ..self.output_files
                },
                ..self
            }),
    {
        let mut session = self;
        session.output_files.outputs.insert(ty, path);
        session.options.output_types.insert(ty, path);
        session
    }

    /// The session, with other flags that the compiler itself does not know.
    pub fn with_extra_flags(self, flags: CompileFlags) -> (session: Self)
        ensures
            session == (Session { options: Options { flags, ..self.options }, ..self }),
    {
        let mut session = self;
        session.options.flags = flags;
        session
    }

    /// Whether a flag is set that the compiler itself does not know.
    pub fn get_flag(&self, name: &str) -> (b: bool)
        ensures
            b == match flag_named(self.options.flags.flags@, name@, 0) {
                Some(flag) => flag.value,
                None => false,
            },
    {
        match self.options.flags.find(name) {
            Some(flag) => flag.value,
            None => false,
        }
    }

    /// How often a flag is given that the compiler itself does not know.
    pub fn get_flag_count(&self, name: &str) -> (n: usize)
        ensures
            n == match flag_named(self.options.flags.flags@, name@, 0) {
                Some(flag) => flag.count,
                None => 0,
            },
    {
        match self.options.flags.find(name) {
            Some(flag) => flag.count,
            None => 0,
        }
    }

    /// The flags that the compiler itself does not know.
    pub fn matches(&self) -> (flags: &CompileFlags)
        ensures
            *flags == self.options.flags,
    {
        &self.options.flags
    }

    /// The name of the session, which is that of the project and its output.
    pub fn name(&self) -> (name: Symbol)
        ensures
            name == self.name,
    {
        self.name
    }

    /// The file that the package is written to, given where the outputs are and whether the file
    /// must not be written.
    pub fn out_file(&self, file: OutputFile, is_readonly: bool) -> (out: Option<OutputFile>)
        ensures
            out == if file is Real && is_readonly {
                None
            } else {
                Some(file)
            },
    {
        match file {
            OutputFile::Real(_) => if is_readonly {
                None
            } else {
                Some(file)
            },
            _ => Some(file),
        }
    }

    /// Whether to stop once the input is parsed.
    pub fn parse_only(&self) -> (b: bool)
        ensures
            b == self.options.parse_only,
    {
        self.options.parse_only
    }

    /// Whether to stop once the input is analyzed.
    pub fn analyze_only(&self) -> (b: bool)
        ensures
            b == self.options.analyze_only,
    {
        self.options.analyze_only
    }

    /// The outputs need linking, and it is not switched off.
    pub open spec fn links(&self) -> bool {
        output::some_output(self.outputs(), |ty: OutputType| ty.is_linked())
            && !self.options.no_link
    }

    /// The outputs need Miden Assembly, and the compiler does not stop before.
    pub open spec fn generates(&self) -> bool {
        output::some_output(self.outputs(), |ty: OutputType| ty.is_generated())
            && !self.options.link_only
    }

    /// The outputs need assembled code, and the compiler does not stop before.
    pub open spec fn assembles(&self) -> bool {
        output::some_output(self.outputs(), |ty: OutputType| ty.is_assembled())
            && !self.options.link_only
    }

    /// Whether to stop once the representation is rewritten.
    pub fn rewrite_only(&self) -> (b: bool)
        requires
            self.wf(),
        ensures
            b == (!self.options.parse_only && !self.options.analyze_only && !self.links()
                && !self.generates()),
    {
        let link_or_masm_requested = self.should_link() || self.should_codegen();
        !self.options.parse_only && !self.options.analyze_only && !link_or_masm_requested
    }

    /// Whether to link.
    pub fn should_link(&self) -> (b: bool)
        requires
            self.wf(),
        ensures
            b == self.links(),
    {
        self.options.output_types.should_link() && !self.options.no_link
    }

    /// Whether to generate Miden Assembly.
    pub fn should_codegen(&self) -> (b: bool)
        requires
            self.wf(),
        ensures
            b == self.generates(),
    {
        self.options.output_types.should_codegen() && !self.options.link_only
    }

    /// Whether to assemble.
    pub fn should_assemble(&self) -> (b: bool)
        requires
            self.wf(),
        ensures
            b == self.assembles(),
    {
        self.options.output_types.should_assemble() && !self.options.link_only
    }

    /// Whether an output is wanted.
    pub fn should_emit(&self, ty: OutputType) -> (b: bool)
        requires
            self.wf(),
        ensures
            b == self.outputs().dom().contains(ty),
    {
        self.options.output_types.contains_key(ty)
    }

    /// Whether to print the intermediate representation after a pass.
    pub fn should_print_ir(&self, pass: &str) -> (b: bool)
        ensures
            b == (self.options.print_ir_after_all || holds(
                self.options.print_ir_after_pass@,
                pass@,
            )),
    {
        self.options.print_ir_after_all || list_holds(&self.options.print_ir_after_pass, pass)
    }

    /// Whether to print the control flow graph after a pass.
    pub fn should_print_cfg(&self, pass: &str) -> (b: bool)
        ensures
            b == (self.options.print_cfg_after_all || holds(
                self.options.print_cfg_after_pass@,
                pass@,
            )),
    {
        self.options.print_cfg_after_all || list_holds(&self.options.print_cfg_after_pass, pass)
    }

    /// What an item of the given type is written to, given where outputs of that type are. Single
    /// outputs are never directories.
    pub fn emit_to(&self, ty: OutputType, file: OutputFile) -> (to: EmitTarget)
        requires
            self.wf(),
            !(file is Directory),
        ensures
            to == if !self.outputs().dom().contains(ty) {
                EmitTarget::Nowhere
            } else {
                match file {
                    OutputFile::Real(path) => EmitTarget::File(path),
                    _ => EmitTarget::Stdout,
                }
            },
    {
        if !self.should_emit(ty) {
            return EmitTarget::Nowhere;
        }
        match file {
            OutputFile::Real(path) => EmitTarget::File(path),
            _ => EmitTarget::Stdout,
        }
    }
}

/// What needs assembled code needs Miden Assembly, and what needs that needs linking, unless it is
/// switched off.
pub proof fn later_outputs_need_earlier_steps(session: Session)
    ensures
        session.assembles() ==> session.generates(),
        session.generates() && !session.options.no_link ==> session.links(),
{
    let outputs = session.outputs();
    if session.assembles() {
        let ty = choose|ty: OutputType| #[trigger] outputs.dom().contains(ty) && ty.is_assembled();
        assert(outputs.dom().contains(ty) && ty.is_generated());
    }
    if session.generates() {
        let ty = choose|ty: OutputType| #[trigger] outputs.dom().contains(ty) && ty.is_generated();
        assert(outputs.dom().contains(ty) && ty.is_linked());
    }
}

} // verus!

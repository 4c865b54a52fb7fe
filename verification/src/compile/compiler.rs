//! The options of the command line.
use vstd::prelude::*;
use vstd::string::*;
use crate::session::libs::{self, LinkLibrary, add_target_link_libraries};
use crate::session::output::{self, FilePath, OutputFile, OutputType, OutputTypeSpec, OutputTypes};
use crate::session::session::{
    self, ColorChoice, CompileFlags, DebugInfo, ExtraFlag, InputType, OptLevel, Options, Session,
    Verbosity, Warnings,
};
use crate::session::target::{ProjectType, TargetEnv};
use crate::symbol::{Interner, Symbol};
use crate::text::{self, chars_of, find_from, same_text, substring};

verus! {

/// What the user wants of code generation.
#[derive(Clone, Copy, PartialEq, Eq, Debug, Structural)]
pub struct CodegenOptions {
    /// Stop once the inputs are parsed
    pub parse_only: bool,
    /// Stop once the inputs are analyzed
    pub analyze_only: bool,
    /// Stop once the inputs are linked
    pub link_only: bool,
    /// Generate code without linking
    pub no_link: bool,
}

impl Default for CodegenOptions {
    fn default() -> (options: Self)
        ensures
            options == (CodegenOptions {
                parse_only: false,
                analyze_only: false,
                link_only: false,
                no_link: false,
            }),
    {
        CodegenOptions { parse_only: false, analyze_only: false, link_only: false, no_link: false }
    }
}

impl CodegenOptions {
    /// Whether the options exclude each other: only one of the points to stop at can be given, and
    /// what is not linked cannot stop after linking.
    pub fn in_conflict(&self) -> (b: bool)
        ensures
            b == ((self.parse_only && self.analyze_only) || (self.parse_only && self.link_only) || (
            self.analyze_only && self.link_only) || (self.link_only && self.no_link)),
    {
        (self.parse_only && self.analyze_only) || (self.parse_only && self.link_only) || (
        self.analyze_only && self.link_only) || (self.link_only && self.no_link)
    }
}

/// What the user wants of features that may change.
pub struct UnstableOptions {
    pub print_cfg_after_all: bool,
    pub print_cfg_after_pass: Vec<String>,
    pub print_ir_after_all: bool,
    pub print_ir_after_pass: Vec<String>,
    /// Print the representation only if the pass changed it
    pub print_ir_after_modified: bool,
}

/// The text asks for help.
pub open spec fn asks_for_help(arg: Seq<char>) -> bool {
    arg == "--help"@ || arg == "-h"@ || arg == "help"@
}

/// One of the texts asks for help.
pub open spec fn some_ask_for_help(argv: Seq<Seq<char>>) -> bool {
    exists|i: int| 0 <= i < argv.len() && asks_for_help(#[trigger] argv[i])
}

/// The arguments that an option `OPT[=VALUE]` stands for.
pub open spec fn option_args(arg: Seq<char>) -> Seq<Seq<char>> {
    match text::place_from(arg, "="@, 0) {
        Some(at) => seq!["--"@ + arg.take(at), arg.skip(at + 1)],
        None => seq!["--"@ + arg],
    }
}

/// The arguments that the first `n` options stand for.
pub open spec fn all_option_args(argv: Seq<Seq<char>>, n: int) -> Seq<Seq<char>>
    decreases n,
{
    if n <= 0 {
        Seq::empty()
    } else {
        all_option_args(argv, n - 1) + option_args(argv[n - 1])
    }
}

fn is_help(arg: &str) -> (b: bool)
    ensures
        b == asks_for_help(arg@),
{
    same_text(arg, "--help") || same_text(arg, "-h") || same_text(arg, "help")
}

fn push_option(out: &mut Vec<String>, arg: &str)
    ensures
        text::texts(final(out)@) == text::texts(old(out)@) + option_args(arg@),
{
    let chars = chars_of(arg);
    let separator = chars_of("=");
    let len: usize = chars.len();
    let ghost before = out@;
    proof {
        reveal_strlit("=");
    }
    match find_from(&chars, &separator, 0) {
        None => {
            let mut option = "--".to_owned();
            option.append(arg);
            out.push(option);
            assert(text::texts(out@) =~= text::texts(before) + seq!["--"@ + arg@]);
        },
        Some(at) => {
            let name = substring(&chars, 0, at);
            let value = substring(&chars, at + 1, len);
            assert(name@ =~= arg@.take(at as int));
            assert(value@ =~= arg@.skip(at + 1));
            let mut option = "--".to_owned();
            option.append(name.as_str());
            out.push(option);
            out.push(value);
            assert(text::texts(out@) =~= text::texts(before) + seq![
                "--"@ + arg@.take(at as int),
                arg@.skip(at + 1),
            ]);
        },
    }
}

/// The arguments for options that are given as `OPT[=VALUE]`. If help is asked for, nothing else
/// counts.
pub fn parse_argv(argv: &Vec<String>) -> (args: Vec<String>)
    ensures
        text::texts(args@) == if some_ask_for_help(text::texts(argv@)) {
            seq!["--help"@]
        } else {
            all_option_args(text::texts(argv@), argv@.len() as int)
        },
{
    let ghost given = text::texts(argv@);
    let mut args: Vec<String> = Vec::new();
    let mut i: usize = 0;
    while i < argv.len()
        invariant
            i <= argv@.len(),
            given == text::texts(argv@),
            forall|j: int| 0 <= j < i ==> !asks_for_help(#[trigger] given[j]),
        decreases argv@.len() - i,
    {
        if is_help(argv[i].as_str()) {
            assert(asks_for_help(given[i as int]));
            let mut help: Vec<String> = Vec::new();
            help.push("--help".to_owned());
            assert(text::texts(help@) =~= seq!["--help"@]);
            return help;
        }
        i = i + 1;
    }
    let mut k: usize = 0;
    assert(text::texts(args@) =~= all_option_args(given, 0));
    while k < argv.len()
        invariant
            k <= argv@.len(),
            given == text::texts(argv@),
            text::texts(args@) == all_option_args(given, k as int),
        decreases argv@.len() - k,
    {
        push_option(&mut args, argv[k].as_str());
        k = k + 1;
    }
    args
}

/// The options of the command line.
pub struct Compiler {
    /// Where intermediate artifacts are written to
    pub target_dir: FilePath,
    pub working_dir: Option<FilePath>,
    /// The directory that the libraries of the compiler are in
    pub sysroot: Option<FilePath>,
    /// The directory that outputs are written to
    pub output_dir: Option<Symbol>,
    /// The file that the output is written to
    pub output_file: Option<FilePath>,
    /// Write the output to standard output
    pub stdout: bool,
    pub name: Option<Symbol>,
    pub verbosity: Verbosity,
    pub warn: Warnings,
    pub color: ColorChoice,
    pub target: TargetEnv,
    pub entrypoint: Option<String>,
    /// Make a program
    pub is_program: bool,
    /// Make a library
    pub is_library: bool,
    pub search_path: Vec<FilePath>,
    pub link_libraries: Vec<LinkLibrary>,
    pub output_types: Vec<OutputTypeSpec>,
    pub debug: DebugInfo,
    pub opt_level: OptLevel,
}

/// The defaults for what is made, where the user does not say: for the rollup a library, else a
/// program.
pub fn default_project_flags(target: TargetEnv, has_entrypoint: bool) -> (flags: (bool, bool))
    ensures
        flags.0 == (if target is Rollup {
            false
        } else {
            true
        }),
        flags.1 == (!has_entrypoint && target is Rollup),
{
    let is_rollup = match target {
        TargetEnv::Rollup { .. } => true,
        _ => false,
    };
    (!is_rollup, !has_entrypoint && is_rollup)
}

/// The file that the output is written to, if one is asked for.
pub open spec fn requested_file(compiler: Compiler) -> Option<OutputFile> {
    match compiler.output_file {
        Some(path) => Some(OutputFile::Real(path)),
        None => if compiler.stdout {
            Some(OutputFile::Stdout)
        } else {
            None
        },
    }
}

/// The outputs that are wanted: a package if none is asked for. The output file that is given is
/// the one of the package.
pub open spec fn wanted_outputs(compiler: Compiler) -> Map<OutputType, Option<OutputFile>> {
    let asked = output::requested(
        compiler.output_types@,
        compiler.output_types@.len() as int,
    );
    let file = requested_file(compiler);
    if asked == Map::<OutputType, Option<OutputFile>>::empty() || (file is Some
        && asked.dom().contains(OutputType::Masp)) {
        asked.insert(OutputType::Masp, file)
    } else {
        asked
    }
}

impl Compiler {
    /// The session for these options. `cwd` is the directory that the compiler was started in,
    /// and `joined_target_dir` the target directory in the working directory.
    pub fn into_session(
        self,
        inputs: Vec<InputType>,
        codegen: CodegenOptions,
        unstable: UnstableOptions,
        cwd: FilePath,
        joined_target_dir: FilePath,
        interner: &mut Interner,
    ) -> (session: Session)
        requires
            old(interner).wf(),
            old(interner)@.len() < u32::MAX,
            self.name matches Some(name) ==> old(interner).knows(name),
            session::path_known(cwd, old(interner)),
            self.working_dir matches Some(dir) ==> session::path_known(dir, old(interner)),
            self.output_file matches Some(path) ==> session::path_known(path, old(interner)),
            inputs@.len() > 0 ==> session::input_known(inputs@[0], old(interner)),
            inputs@.len() > 0 && session::takes_input_name(self.name, requested_file(self))
                ==> session::is_nameable(inputs@[0]),
        ensures
            final(interner).wf(),
            final(interner).extends(old(interner)),
            final(interner)@.len() <= old(interner)@.len() + 1,
            session.wf(),
            session.inputs == inputs,
            session.outputs() == wanted_outputs(self),
            session.options.name == self.name,
            session.options.target == self.target,
            session.options.project_type == if self.is_program {
                ProjectType::Program
            } else {
                ProjectType::Library
            },
            session.options.current_dir == match self.working_dir {
                Some(dir) => dir,
                None => cwd,
            },
            session.options.sysroot == self.sysroot,
            session.options.color == self.color,
            session.options.verbosity == self.verbosity,
            session.options.warnings == self.warn,
            session.options.debug == self.debug,
            session.options.optimize == self.opt_level,
            session.options.search_paths == self.search_path,
            libs::is_for_target(
                self.link_libraries@,
                session.options.link_libraries@,
                self.target,
            ),
            session.options.entrypoint == self.entrypoint,
            session.options.parse_only == codegen.parse_only,
            session.options.analyze_only == codegen.analyze_only,
            session.options.link_only == codegen.link_only,
            session.options.no_link == codegen.no_link,
            session.options.print_cfg_after_all == unstable.print_cfg_after_all,
            session.options.print_cfg_after_pass == unstable.print_cfg_after_pass,
            session.options.print_ir_after_all == unstable.print_ir_after_all,
            session.options.print_ir_after_pass == unstable.print_ir_after_pass,
            session.options.print_ir_after_modified == unstable.print_ir_after_modified,
            session.options.flags.flags@ == Seq::<ExtraFlag>::empty(),
            session.output_files.out_file == requested_file(self),
            output::outputs_of(&session.output_files.outputs) == wanted_outputs(self),
            session.output_files.tmp_dir == if self.target_dir.is_absolute {
                self.target_dir
            } else {
                joined_target_dir
            },
            session.output_files.out_dir == match self.output_dir {
                Some(dir) => dir,
                None => match requested_file(self) {
                    Some(file) if file.directory() is Some => file.directory()->0,
                    _ => session.options.current_dir.text,
                },
            },
            final(interner).knows(session.name),
            final(interner).text(session.name) == session::session_name(
                session.options,
                requested_file(self),
                inputs@,
                old(interner),
            ),
    {
        let current_dir = match self.working_dir {
            Some(dir) => dir,
            None => cwd,
        };
        let output_file = match self.output_file {
            Some(path) => Some(OutputFile::Real(path)),
            None => if self.stdout {
                Some(OutputFile::Stdout)
            } else {
                None
            },
        };
        let mut output_types = OutputTypes::new(&self.output_types);
        if output_types.is_empty() {
            output_types.insert(OutputType::Masp, output_file);
        } else if output_file.is_some() && output_types.contains_key(OutputType::Masp) {
            output_types.insert(OutputType::Masp, output_file);
        }
        let project_type = if self.is_program {
            ProjectType::Program
        } else {
            ProjectType::Library
        };
        let link_libraries = add_target_link_libraries(self.link_libraries, &self.target);
        let options = Options {
            name: self.name,
            target: self.target,
            project_type,
            current_dir,
            sysroot: self.sysroot,
            color: self.color,
            verbosity: self.verbosity,
            warnings: self.warn,
            debug: self.debug,
            optimize: self.opt_level,
            output_types,
            search_paths: self.search_path,
            link_libraries,
            entrypoint: self.entrypoint,
            parse_only: codegen.parse_only,
            analyze_only: codegen.analyze_only,
            link_only: codegen.link_only,
            no_link: codegen.no_link,
            print_cfg_after_all: unstable.print_cfg_after_all,
            print_cfg_after_pass: unstable.print_cfg_after_pass,
            print_ir_after_all: unstable.print_ir_after_all,
            print_ir_after_pass: unstable.print_ir_after_pass,
            print_ir_after_modified: unstable.print_ir_after_modified,
            flags: CompileFlags { flags: Vec::new() },
        };
        let target_dir = if self.target_dir.is_absolute {
            self.target_dir
        } else {
            joined_target_dir
        };
        Session::new(inputs, self.output_dir, output_file, target_dir, options, interner)
    }
}

} // verus!

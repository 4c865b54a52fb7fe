use midenc::compile::compiler::{
    default_project_flags, parse_argv, CodegenOptions, Compiler, UnstableOptions,
};
use midenc::compile::stages::{
    after_link, link_libraries_from, module_name, module_path_of, plan_stages,
    replace_debug_sections, required_intrinsics_modules, Artifact, AssembleStage, AssembledModule,
    CodegenStage, CompilerStopped, DebugInfoBytes, FileType, Goal, InputOrigin, LinkError, LinkInput,
    LinkStage,
    ParseError, ParseOutput, ParseStage, ParseStep, Section, SectionId, StageKind,
};
use midenc::hir::print::FileLineCol;
use midenc::masm::intrinsics::IntrinsicsModule;
use midenc::session::emit::{
    format_masm_with_source_locations, stdout_mode, EmittedItem, Located, MasmExport, MasmOp,
    MasmVisibility, Writer,
};
use midenc::session::libs::{
    add_target_link_libraries, DirEntry, FileMeta, FindError, LibraryKind, LibrarySource,
    LinkLibrary, LinkLibraryError, LinkLibraryParser, LoadError, LoadedFile, PathInfo,
};
use midenc::session::output::{
    FilePath, OutputFile, OutputMode, OutputType, OutputTypeSpec, OutputTypes,
};
use midenc::session::session::{
    ColorChoice, CompileFlags, DebugInfo, EmitTarget, ExtraFlag, InputType, OptLevel, Options,
    Session, Verbosity, Warnings,
};
use midenc::session::target::{ProjectType, RollupTarget, TargetEnv};
use midenc::span::SourceSpan;
use midenc::symbol::Interner;

fn rollup() -> TargetEnv {
    TargetEnv::Rollup { target: RollupTarget::NoteScript }
}

fn file(interner: &mut Interner, parent: &str, stem: &str, extension: &str) -> FilePath {
    let text = format!("{}/{}.{}", parent, stem, extension);
    FilePath {
        text: interner.intern(text.as_str()),
        stem: Some(interner.intern(stem)),
        extension: Some(interner.intern(extension)),
        parent: Some(interner.intern(parent)),
        is_absolute: true,
    }
}

fn options(interner: &mut Interner, types: &[OutputType]) -> Options {
    let mut output_types = OutputTypes::new(&Vec::new());
    for ty in types.iter() {
        output_types.insert(*ty, None);
    }
    Options {
        name: None,
        target: TargetEnv::Base,
        project_type: ProjectType::Program,
        current_dir: file(interner, "/home", "project", "d"),
        sysroot: None,
        color: ColorChoice::Auto,
        verbosity: Verbosity::Info,
        warnings: Warnings::All,
        debug: DebugInfo::Full,
        optimize: OptLevel::Off,
        output_types,
        search_paths: Vec::new(),
        link_libraries: Vec::new(),
        entrypoint: None,
        parse_only: false,
        analyze_only: false,
        link_only: false,
        no_link: false,
        print_cfg_after_all: false,
        print_cfg_after_pass: Vec::new(),
        print_ir_after_all: false,
        print_ir_after_pass: vec![String::from("lower")],
        print_ir_after_modified: false,
        flags: CompileFlags { flags: Vec::new() },
    }
}

fn session(types: &[OutputType]) -> (Session, Interner) {
    let mut interner = Interner::new();
    let options = options(&mut interner, types);
    let input = InputType::Real(file(&mut interner, "/src", "main", "wasm"));
    let tmp = file(&mut interner, "/home", "target", "d");
    let session = Session::new(vec![input], None, None, tmp, options, &mut interner);
    (session, interner)
}

#[test]
fn targets_are_read_back() {
    let all = vec![
        TargetEnv::Emu,
        TargetEnv::Base,
        TargetEnv::Rollup { target: RollupTarget::Account },
        TargetEnv::Rollup { target: RollupTarget::NoteScript },
        TargetEnv::Rollup { target: RollupTarget::TransactionScript },
        TargetEnv::Rollup { target: RollupTarget::AuthComponent },
    ];
    for target in all.iter() {
        assert_eq!(TargetEnv::parse(target.show().as_str()), Some(*target));
    }
    assert_eq!(rollup().show(), "rollup:note-script");
    assert_eq!(
        TargetEnv::parse("rollup"),
        Some(TargetEnv::Rollup { target: RollupTarget::Account })
    );
    assert_eq!(TargetEnv::parse("moon"), None);
    assert_eq!(TargetEnv::default(), TargetEnv::Base);
    assert_eq!(ProjectType::default_for_target(TargetEnv::Emu), ProjectType::Library);
    assert_eq!(ProjectType::default_for_target(rollup()), ProjectType::Program);
}

#[test]
fn library_kinds_are_read_back() {
    for kind in [LibraryKind::Mast, LibraryKind::Masm, LibraryKind::Masp].iter() {
        assert_eq!(LibraryKind::parse(kind.name()), Some(*kind));
    }
    assert_eq!(LibraryKind::parse("masl"), Some(LibraryKind::Mast));
    assert_eq!(LibraryKind::parse("so"), None);
    assert_eq!(LibraryKind::default(), LibraryKind::Mast);
}

fn info(extension: Option<&str>, absolute: bool, meta: Option<FileMeta>) -> PathInfo {
    PathInfo {
        extension: extension.map(String::from),
        stem: Some(String::from("foo")),
        is_absolute: absolute,
        meta,
    }
}

fn library_error(value: &str, info: &PathInfo) -> LinkLibraryError {
    match LinkLibraryParser.parse_ref(value, info) {
        Ok(library) => panic!("accepted: {}", library.name),
        Err(error) => error,
    }
}

#[test]
fn libraries_are_read_from_the_command_line() {
    let plain = LinkLibraryParser.parse_ref("foo", &info(None, false, None)).ok().unwrap();
    assert_eq!(plain.name, "foo");
    assert_eq!(plain.kind, LibraryKind::Mast);
    assert_eq!(plain.path, None);
    let with_kind = LinkLibraryParser.parse_ref("masm=foo", &info(None, false, None)).ok().unwrap();
    assert_eq!(with_kind.kind, LibraryKind::Masm);
    assert_eq!(with_kind.name, "foo");
    let from_extension =
        LinkLibraryParser.parse_ref("foo.masp", &info(Some("masp"), false, None)).ok().unwrap();
    assert_eq!(from_extension.kind, LibraryKind::Masp);
    assert_eq!(from_extension.name, "foo");
    let is_file = Some(FileMeta { is_file: true, is_dir: false });
    let absolute =
        LinkLibraryParser.parse_ref("/lib/foo.masl", &info(Some("masl"), true, is_file)).ok().unwrap();
    assert_eq!(absolute.name, "foo");
    assert_eq!(absolute.path, Some(String::from("/lib/foo.masl")));
    let (kind, name) = LinkLibraryParser::split("a=b=c");
    assert_eq!(kind, Some(String::from("a")));
    assert_eq!(name, "b=c");
}

#[test]
fn a_library_may_be_named_wrongly() {
    let is_file = Some(FileMeta { is_file: true, is_dir: false });
    let is_dir = Some(FileMeta { is_file: false, is_dir: true });
    assert_eq!(library_error("masm=", &info(None, false, None)), LinkLibraryError::MissingName);
    assert_eq!(library_error("elf=foo", &info(None, false, None)), LinkLibraryError::InvalidKind);
    assert_eq!(library_error("/foo", &info(None, true, None)), LinkLibraryError::Unreadable);
    assert_eq!(library_error("/foo", &info(None, true, is_dir)), LinkLibraryError::NotAFile);
    assert_eq!(
        library_error("masm=/foo", &info(None, true, is_file)),
        LinkLibraryError::NotADirectory
    );
}

fn entry(stem: &str, is_file: bool) -> DirEntry {
    DirEntry {
        path: format!("/lib/{}", stem),
        stem: Some(String::from(stem)),
        is_file,
        is_dir: !is_file,
    }
}

#[test]
fn a_library_is_found_in_the_search_paths() {
    let library = LinkLibrary { name: String::from("foo"), path: None, kind: LibraryKind::Mast };
    assert_eq!(library.source(), LibrarySource::Search);
    assert_eq!(LinkLibrary::stdlib().source(), LibrarySource::Std);
    assert_eq!(LinkLibrary::base().source(), LibrarySource::Base);
    let listings = vec![
        Some(vec![entry("bar", true)]),
        Some(vec![entry("baz", true), entry("foo", true)]),
        None,
    ];
    assert_eq!(library.find(&listings), Ok((1, 1)));
    assert_eq!(library.find(&vec![None]), Err(FindError::InvalidSearchPath(0)));
    assert_eq!(library.find(&vec![Some(vec![entry("foo", false)])]), Err(FindError::NotAFile));
    assert_eq!(library.find(&Vec::new()), Err(FindError::NotFound));
    let source = LinkLibrary { name: String::from("foo"), path: None, kind: LibraryKind::Masm };
    assert_eq!(source.find(&vec![Some(vec![entry("foo", true)])]), Err(FindError::NotADirectory));
    let given = LinkLibrary {
        name: String::from("std"),
        path: Some(String::from("/x")),
        kind: LibraryKind::Mast,
    };
    assert_eq!(given.source(), LibrarySource::GivenPath);
}

#[test]
fn programs_cannot_be_linked_against() {
    let library = LinkLibrary::base();
    assert_eq!(library.load_from_path(LoadedFile::Library), Ok(()));
    assert_eq!(library.load_from_path(LoadedFile::Program), Err(LoadError::NotALibrary));
    assert_eq!(library.load_from_path(LoadedFile::Unreadable), Err(LoadError::Unreadable));
}

#[test]
fn a_target_has_its_libraries() {
    let own = LinkLibrary { name: String::from("own"), path: None, kind: LibraryKind::Masp };
    let base = add_target_link_libraries(vec![own], &TargetEnv::Base);
    let names: Vec<&str> = base.iter().map(|l| l.name.as_str()).collect();
    assert!(names.contains(&"std"));
    assert!(names.contains(&"own"));
    assert!(!names.contains(&"base"));
    let on_rollup = add_target_link_libraries(Vec::new(), &rollup());
    let names: Vec<&str> = on_rollup.iter().map(|l| l.name.as_str()).collect();
    assert!(names.contains(&"std"));
    assert!(names.contains(&"base"));
    // They are added once.
    let again = add_target_link_libraries(on_rollup, &rollup());
    assert_eq!(again.len(), 2);
}

#[test]
fn a_session_is_named_after_its_input() {
    let (session, interner) = session(&[OutputType::Masp]);
    assert_eq!(interner.as_str(session.name()), "main");
    assert_eq!(interner.as_str(session.output_files.out_dir), "/home/project.d");
    let mut interner = Interner::new();
    let opts = options(&mut interner, &[]);
    let tmp = opts.current_dir;
    let out = OutputFile::Real(file(&mut interner, "/out", "result", "masp"));
    let named = Session::new(Vec::new(), None, Some(out), tmp, opts, &mut interner);
    assert_eq!(interner.as_str(named.name()), "result");
    assert_eq!(interner.as_str(named.output_files.out_dir), "/out");
    let opts = options(&mut interner, &[]);
    let stdin = interner.intern("stdin");
    let input = InputType::Stdin { name: stdin, stem: stdin };
    let from_stdin = Session::new(vec![input], None, None, tmp, opts, &mut interner);
    assert_eq!(interner.as_str(from_stdin.name()), "project");
    let opts = options(&mut interner, &[]);
    let nothing = Session::new(Vec::new(), None, None, tmp, opts, &mut interner);
    assert_eq!(interner.as_str(nothing.name()), "out");
}

#[test]
fn outputs_decide_what_is_done() {
    let (package, _) = session(&[OutputType::Masp]);
    assert!(package.should_link());
    assert!(package.should_codegen());
    assert!(package.should_assemble());
    assert!(!package.rewrite_only());
    assert!(package.should_emit(OutputType::Masp));
    assert!(!package.should_emit(OutputType::Hir));
    let (hir, _) = session(&[OutputType::Hir]);
    assert!(!hir.should_codegen());
    assert!(!hir.should_assemble());
    let (mut masm, _) = session(&[OutputType::Masm]);
    assert!(masm.should_codegen());
    assert!(!masm.should_assemble());
    masm.options.link_only = true;
    assert!(!masm.should_codegen());
    masm.options.no_link = true;
    assert!(!masm.should_link());
    assert!(masm.rewrite_only());
}

#[test]
fn flags_of_plugins_are_kept() {
    let (session, _) = session(&[]);
    let flags = CompileFlags {
        flags: vec![ExtraFlag { name: String::from("trace"), value: true, count: 2 }],
    };
    let session = session.with_extra_flags(flags).with_project_type(ProjectType::Library);
    assert!(session.get_flag("trace"));
    assert!(!session.get_flag("quiet"));
    assert_eq!(session.get_flag_count("trace"), 2);
    assert_eq!(session.get_flag_count("quiet"), 0);
    assert_eq!(session.options.project_type, ProjectType::Library);
    assert!(session.should_print_ir("lower"));
    assert!(!session.should_print_ir("other"));
    assert!(!session.should_print_cfg("lower"));
    assert!(session.with_output_type(OutputType::Wat, None).should_emit(OutputType::Wat));
}

#[test]
fn an_output_goes_to_its_file() {
    let (session, mut interner) = session(&[OutputType::Masm]);
    let path = file(&mut interner, "/out", "a", "masm");
    assert_eq!(session.emit_to(OutputType::Masm, OutputFile::Real(path)), EmitTarget::File(path));
    assert_eq!(session.emit_to(OutputType::Masm, OutputFile::Stdout), EmitTarget::Stdout);
    assert_eq!(session.emit_to(OutputType::Hir, OutputFile::Stdout), EmitTarget::Nowhere);
    assert_eq!(session.out_file(OutputFile::Real(path), true), None);
    assert_eq!(session.out_file(OutputFile::Stdout, true), Some(OutputFile::Stdout));
}

#[test]
fn items_have_their_types() {
    assert_eq!(stdout_mode(true), OutputMode::Text);
    assert_eq!(stdout_mode(false), OutputMode::Binary);
    assert!(!EmittedItem::Module.supports(OutputMode::Binary));
    assert!(!EmittedItem::Program.supports(OutputMode::Text));
    assert!(EmittedItem::Package.supports(OutputMode::Binary));
    assert_eq!(EmittedItem::Module.output_type(OutputMode::Text), OutputType::Masm);
    assert_eq!(EmittedItem::Package.output_type(OutputMode::Binary), OutputType::Masp);
    let mut out: Vec<u8> = vec![1];
    out.write_all(&[2, 3]);
    assert_eq!(out, vec![1, 2, 3]);
}

#[test]
fn assembly_is_shown_with_locations() {
    let nowhere = || Located { span: SourceSpan::unknown(), position: None };
    let body = vec![
        MasmOp::Inst {
            text: String::from("push.1"),
            at: Located {
                span: SourceSpan { source_id: 1, start: 0, end: 1 },
                position: Some(FileLineCol { uri: String::from("a.rs"), line: 2, column: 5 }),
            },
        },
        MasmOp::If {
            then_blk: vec![MasmOp::Inst { text: String::from("drop"), at: nowhere() }],
            else_blk: Vec::new(),
            at: nowhere(),
        },
        MasmOp::Repeat { count: 3, body: Vec::new(), at: nowhere() },
    ];
    let exports = vec![
        MasmExport::Procedure { name: String::from("f"), visibility: MasmVisibility::Public, body },
        MasmExport::Alias { name: String::from("g"), target: String::from("m::g") },
    ];
    assert_eq!(
        format_masm_with_source_locations("m", &exports),
        "# mod m\n\nexport.f:\n    push.1 #loc(\"a.rs\":2:5)\n    if.true\n        drop\n    end\n    repeat.3\n    end\nend\n\nexport.g->m::g\n\n"
    );
}

#[test]
fn arguments_of_options_are_taken_apart() {
    let args = |list: &[&str]| -> Vec<String> { list.iter().map(|s| String::from(*s)).collect() };
    assert_eq!(
        parse_argv(&args(&["parse-only", "print=all=1"])),
        args(&["--parse-only", "--print", "all=1"])
    );
    assert_eq!(parse_argv(&args(&["a", "-h", "b"])), args(&["--help"]));
    assert_eq!(default_project_flags(TargetEnv::Base, false), (true, false));
    assert_eq!(default_project_flags(rollup(), false), (false, true));
    assert_eq!(default_project_flags(rollup(), true), (false, false));
}

fn unstable() -> UnstableOptions {
    UnstableOptions {
        print_cfg_after_all: false,
        print_cfg_after_pass: Vec::new(),
        print_ir_after_all: true,
        print_ir_after_pass: Vec::new(),
        print_ir_after_modified: false,
    }
}

#[test]
fn the_command_line_makes_a_session() {
    let mut interner = Interner::new();
    let cwd = file(&mut interner, "/home", "work", "d");
    let joined = file(&mut interner, "/home/work", "target", "d");
    let relative = FilePath { is_absolute: false, ..file(&mut interner, "", "target", "d") };
    let output = file(&mut interner, "/out", "app", "masp");
    let compiler = Compiler {
        target_dir: relative,
        working_dir: None,
        sysroot: Some(cwd),
        output_dir: None,
        output_file: Some(output),
        stdout: false,
        name: None,
        verbosity: Verbosity::Silent,
        warn: Warnings::Error,
        color: ColorChoice::Never,
        target: rollup(),
        entrypoint: None,
        is_program: false,
        is_library: true,
        search_path: Vec::new(),
        link_libraries: Vec::new(),
        output_types: Vec::new(),
        debug: DebugInfo::Line,
        opt_level: OptLevel::Size,
    };
    let codegen = CodegenOptions { link_only: true, ..CodegenOptions::default() };
    assert!(!codegen.in_conflict());
    let session =
        compiler.into_session(Vec::new(), codegen, unstable(), cwd, joined, &mut interner);
    assert_eq!(interner.as_str(session.name()), "app");
    assert_eq!(session.options.project_type, ProjectType::Library);
    assert_eq!(session.options.current_dir, cwd);
    assert_eq!(session.options.sysroot, Some(cwd));
    assert_eq!(session.options.color, ColorChoice::Never);
    assert_eq!(session.options.verbosity, Verbosity::Silent);
    assert_eq!(session.options.warnings, Warnings::Error);
    assert_eq!(session.options.debug, DebugInfo::Line);
    assert_eq!(session.options.optimize, OptLevel::Size);
    assert!(session.output_files.outputs.contains_key(OutputType::Masp));
    assert_eq!(session.output_files.tmp_dir, joined);
    assert!(session.should_emit(OutputType::Masp));
    assert_eq!(session.options.link_libraries.len(), 2);
    assert!(session.options.print_ir_after_all);
    assert!(matches!(after_link(&session), Err(CompilerStopped)));
}

#[test]
fn options_of_code_generation_may_conflict() {
    let both = CodegenOptions { link_only: true, no_link: true, ..CodegenOptions::default() };
    assert!(both.in_conflict());
}

#[test]
fn outputs_are_asked_for() {
    let asked = vec![
        OutputTypeSpec::Typed { output_type: OutputType::Hir, path: None },
        OutputTypeSpec::Typed { output_type: OutputType::Masm, path: Some(OutputFile::Stdout) },
    ];
    let types = OutputTypes::new(&asked);
    assert!(types.contains_key(OutputType::Hir));
    assert!(types.should_codegen());
    assert!(!types.should_assemble());
    let all = OutputTypes::new(&vec![OutputTypeSpec::All { path: None }]);
    assert!(all.contains_key(OutputType::Masp));
    assert!(OutputTypes::new(&Vec::new()).is_empty());
}

fn from_stdin(name: &str) -> InputOrigin {
    InputOrigin::Stdin { name: String::from(name) }
}

#[test]
fn text_is_translated_to_webassembly() {
    let module =
        ParseStage.run(FileType::Wat, from_stdin("m"), b"(module)".to_vec()).ok().unwrap();
    match module {
        ParseStep::Wasm(bytes) => assert_eq!(bytes, b"\0asm\x01\0\0\0".to_vec()),
        _ => panic!("not WebAssembly"),
    }
    let binary = b"\0asm\x01\0\0\0".to_vec();
    match ParseStage.run(FileType::Wat, from_stdin("m"), binary.clone()).ok().unwrap() {
        ParseStep::Wasm(bytes) => assert_eq!(bytes, binary),
        _ => panic!("not WebAssembly"),
    }
    assert!(matches!(
        ParseStage.run(FileType::Wat, from_stdin("m"), vec![0xff, 0xfe]),
        Err(ParseError::InvalidWat)
    ));
    assert!(matches!(
        ParseStage.run(FileType::Wat, from_stdin("m"), b"(mod".to_vec()),
        Err(ParseError::InvalidWat)
    ));
}

#[test]
fn inputs_are_parsed_by_type() {
    assert!(matches!(
        ParseStage.run(FileType::Hir, from_stdin("m"), Vec::new()),
        Err(ParseError::UnsupportedHir)
    ));
    assert!(matches!(
        ParseStage.run(FileType::Masp, from_stdin("m"), vec![1]),
        Ok(ParseStep::Package(bytes)) if bytes == vec![1]
    ));
    assert!(matches!(
        ParseStage.run(FileType::Mast, from_stdin("m"), vec![3]),
        Ok(ParseStep::Library(_))
    ));
}

#[test]
fn the_source_of_a_module_is_text() {
    let source = "# \u{e4}\nproc f\nend\n";
    match ParseStage.run(FileType::Masm, from_stdin("a::b"), source.as_bytes().to_vec()) {
        Ok(ParseStep::Module { path, source: text }) => {
            assert!(path.ends_with("a::b"));
            assert_eq!(text, source);
        }
        _ => panic!("not a module"),
    }
    let file = || InputOrigin::File { directory: String::from("x/y"), stem: String::from("z") };
    match ParseStage.run(FileType::Masm, file(), Vec::new()) {
        Ok(ParseStep::Module { path, .. }) => assert!(path.ends_with("x::y::z")),
        _ => panic!("not a module"),
    }
    assert!(matches!(
        ParseStage.run(FileType::Masm, file(), vec![0xff]),
        Err(ParseError::InvalidUtf8)
    ));
    // The contents of standard input are looked at before its name, the path of a file first.
    assert!(matches!(
        ParseStage.run(FileType::Masm, from_stdin(""), vec![0xff]),
        Err(ParseError::InvalidUtf8)
    ));
    assert!(matches!(
        ParseStage.run(FileType::Masm, from_stdin(""), Vec::new()),
        Err(ParseError::InvalidPath)
    ));
    let nowhere = InputOrigin::File { directory: String::new(), stem: String::new() };
    assert!(matches!(
        ParseStage.run(FileType::Masm, nowhere, vec![0xff]),
        Err(ParseError::InvalidPath)
    ));
}

#[test]
fn a_module_is_named_after_its_file() {
    assert_eq!(module_name("foo/bar", "baz"), "foo::bar::baz");
    assert_eq!(module_name("", "baz"), "baz");
    assert!(module_path_of("foo", "baz").unwrap().ends_with("foo::baz"));
    assert_eq!(module_path_of("", ""), None);
}

#[test]
fn inputs_are_linked() {
    let mut interner = Interner::new();
    let p = interner.intern("p");
    let inputs = vec![
        LinkInput::Module { is_executable: false },
        LinkInput::Wasm,
        LinkInput::Library,
        LinkInput::Package { name: p },
        LinkInput::Package { name: p },
    ];
    let plan = LinkStage.run(&inputs, ProjectType::Library).ok().unwrap();
    assert_eq!(plan.wasm, 1);
    assert_eq!(plan.masm, vec![0]);
    let mut mast = plan.mast;
    assert_eq!(mast, vec![2]);
    assert_eq!(plan.packages.len(), 1);
    assert_eq!(plan.packages.at(0), (p, &4));
    link_libraries_from(&mut mast, &vec![9]);
    assert_eq!(mast, vec![2, 9]);
}

#[test]
fn some_inputs_cannot_be_linked() {
    let run = |inputs: Vec<LinkInput>, ty: ProjectType| match LinkStage.run(&inputs, ty) {
        Ok(_) => panic!("linked"),
        Err(error) => error,
    };
    assert_eq!(
        run(vec![LinkInput::Wasm, LinkInput::Wasm], ProjectType::Program),
        LinkError::MultipleWasm
    );
    assert_eq!(run(vec![LinkInput::Library], ProjectType::Program), LinkError::MissingWasm);
    let program = LinkInput::Module { is_executable: true };
    assert_eq!(
        run(vec![LinkInput::Wasm, program], ProjectType::Library),
        LinkError::ExecutableModule
    );
    assert!(LinkStage.run(&vec![LinkInput::Wasm, program], ProjectType::Program).is_ok());
}

#[test]
fn stages_follow_each_other() {
    assert_eq!(
        plan_stages(Goal::Artifact, false),
        vec![
            StageKind::Parse,
            StageKind::Link,
            StageKind::ApplyRewrites,
            StageKind::Codegen,
            StageKind::Assemble,
        ]
    );
    assert!(plan_stages(Goal::Artifact, true).contains(&StageKind::PreAssembly));
    assert_eq!(
        plan_stages(Goal::UnoptimizedHir, false),
        vec![StageKind::Parse, StageKind::Link]
    );
    assert_eq!(
        plan_stages(Goal::OptimizedHir, false),
        vec![StageKind::Parse, StageKind::Link, StageKind::ApplyRewrites]
    );
    assert_eq!(
        plan_stages(Goal::FromHir, false),
        vec![StageKind::Codegen, StageKind::Assemble]
    );
}

#[test]
fn intrinsics_are_assembled_with_the_code() {
    assert_eq!(required_intrinsics_modules().len(), 4);
    let modules = CodegenStage.run(1, &vec![5]);
    assert_eq!(modules[0], AssembledModule::Generated(0));
    assert_eq!(modules[1], AssembledModule::Intrinsics(IntrinsicsModule::Mem));
    assert_eq!(modules[5], AssembledModule::Input(5));
    let (package, _) = session(&[OutputType::Masp]);
    assert!(CodegenStage.enabled(&package));
    assert_eq!(AssembleStage.run(&package), Artifact::Assembled);
    let (masm, _) = session(&[OutputType::Masm]);
    assert_eq!(AssembleStage.run(&masm), Artifact::Lowered);
    assert!(after_link(&masm).is_ok());
}

#[test]
fn debug_sections_are_replaced() {
    let mut interner = Interner::new();
    let other = SectionId::Other(interner.intern("meta"));
    let sections = vec![
        Section { id: SectionId::DebugTypes, data: vec![9] },
        Section { id: other, data: vec![8] },
    ];
    let info = DebugInfoBytes { types: vec![1], sources: vec![2], functions: vec![3] };
    let replaced = replace_debug_sections(sections, Some(info));
    assert_eq!(replaced.len(), 4);
    assert_eq!(replaced[0].id, other);
    assert_eq!(replaced[1].id, SectionId::DebugTypes);
    assert_eq!(replaced[1].data, vec![1]);
    assert_eq!(replaced[3].data, vec![3]);
    let kept = replace_debug_sections(replaced, None);
    assert_eq!(kept.len(), 4);
}

#[test]
fn outputs_are_put_out_by_mode() {
    assert_eq!(Artifact::Assembled.emits(), vec![OutputMode::Text, OutputMode::Binary]);
    assert!(Artifact::Lowered.emits().is_empty());
    let (all, _) = session(&[OutputType::Wat, OutputType::Masm]);
    let (none, _) = session(&[OutputType::Masp]);
    let wasm = ParseStep::Wasm(Vec::new());
    let module = ParseStep::Module { path: String::from("m"), source: String::new() };
    assert_eq!(ParseStage.emits(&wasm, &all), Some(OutputType::Wat));
    assert_eq!(ParseStage.emits(&module, &all), Some(OutputType::Masm));
    assert_eq!(ParseStage.emits(&ParseStep::Library(Vec::new()), &all), None);
    assert_eq!(ParseStage.emits(&wasm, &none), None);
    assert_eq!(ParseStage.emits(&module, &none), None);
}

#[test]
fn a_given_name_needs_no_name_of_the_input() {
    let mut interner = Interner::new();
    let tmp = file(&mut interner, "/tmp", "t", "d");
    let nameless = FilePath { stem: None, extension: None, ..tmp };
    let mut opts = options(&mut interner, &[OutputType::Masp]);
    opts.name = Some(interner.intern("given"));
    let session =
        Session::new(vec![InputType::Real(nameless)], None, None, tmp, opts, &mut interner);
    assert_eq!(interner.as_str(session.name()), "given");
    let out = OutputFile::Real(file(&mut interner, "/out", "result", "masp"));
    let opts = options(&mut interner, &[OutputType::Masp]);
    let session =
        Session::new(vec![InputType::Real(nameless)], None, Some(out), tmp, opts, &mut interner);
    assert_eq!(interner.as_str(session.name()), "result");
    let session = session.with_output_type(OutputType::Hir, None);
    assert!(session.output_files.outputs.contains_key(OutputType::Hir));
    assert!(session.should_emit(OutputType::Hir));
}

#[test]
fn what_is_left_of_an_input_may_fail() {
    let library = ParseStep::Library(vec![1]);
    assert_eq!(ParseStage.finish(&library, true), Ok(ParseOutput::Library));
    assert_eq!(ParseStage.finish(&library, false), Err(ParseError::InvalidLibrary));
    let package = ParseStep::Package(vec![1]);
    assert_eq!(ParseStage.finish(&package, true), Ok(ParseOutput::Package));
    assert_eq!(ParseStage.finish(&package, false), Err(ParseError::InvalidPackage));
    let module = ParseStep::Module { path: String::from("m"), source: String::new() };
    assert_eq!(ParseStage.finish(&module, true), Ok(ParseOutput::Module));
    assert_eq!(ParseStage.finish(&module, false), Err(ParseError::InvalidModule));
    assert_eq!(ParseStage.finish(&ParseStep::Wasm(Vec::new()), false), Ok(ParseOutput::Wasm));
}

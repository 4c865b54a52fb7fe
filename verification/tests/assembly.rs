use midenc::hir::debug_attrs::{DIExpressionAttr, DIExpressionOp, DILocalVariableAttr};
use midenc::hir::types::{CallConv, Type};
use midenc::hir::path::{SymbolNameComponent, SymbolPath};
use midenc::masm::artifact::{
    data_segments_to_rodata, emit_test_harness, generate_main, plan_assembly, program_order,
    recover_path, recover_wasm_cm_interfaces, render_component, AssemblyStep, Export,
    MergedSegments, ModuleText, NativePtr, Rodata, RuntimePaths, Word,
};
use midenc::masm::component::{
    emit_initializer, heap_base, try_to_masm_component, ComponentError, ComponentItem, LinkInfo,
    MasmComponent, WRAPPER_COMPONENT,
};
use midenc::masm::emit::{InvokeSet, OpEmitter};
use midenc::masm::hooks::{register_dialect_hooks, ArithOp, BuiltinOp, Dialect, LoweredOp};
use midenc::masm::inst::{
    Block, DebugVarLocation, FilePosition, Instruction, InvocationTarget, Op, PushValue, TraceEvent,
};
use midenc::masm::intrinsics::{is_intrinsics_module, load, IntrinsicsModule};
use midenc::masm::lowering::{
    emit_breakpoint, emit_cond_br, emit_constant, emit_dbg_declare, emit_dbg_value,
    emit_global_symbol, emit_join, emit_poison, emit_ptr_to_int, emit_ret, emit_ret_imm,
    emit_split, emit_unreachable, emit_while, plan_switch, pop_condition,
    resolve_callee, schedule_condition, schedule_operands, Callee, Constraint, EmittedRegion,
    LoweringError, PoisonValue, ResolvedSymbol, SolverOptions, WhileShape,
};
use midenc::masm::procedure::{
    entry_stack, sanitize_name, DuplicateProcedure, FunctionDecl, FunctionType,
    FunctionVisibility, MasmFunctionBuilder, MasmModule, ModuleItem, Procedure,
    ProcedureVisibility, TooManyLocals,
};
use midenc::masm::stack::{Operand, OperandStack, ValueRef};
use midenc::session::target::{RollupTarget, TargetEnv};
use midenc::span::SourceSpan;
use midenc::symbol::Interner;
use midenc::types::{Immediate, ScalarType};

fn inst(inst: Instruction) -> Op {
    Op::Inst(SourceSpan::unknown(), inst)
}

fn value(id: u32) -> ValueRef {
    ValueRef { id, size: 1 }
}

fn held(id: u32) -> Operand {
    Operand::Value(value(id))
}

fn stack_of(ids: &[u32]) -> OperandStack {
    let mut stack = OperandStack::new();
    for id in ids.iter().rev() {
        stack.push(held(*id));
    }
    stack
}

fn validate_bytes_to_elements(bytes: &[u8]) {
    let result = Rodata::bytes_to_elements(bytes);

    // Each felt represents 4 bytes
    let expected_felts = bytes.len().div_ceil(4);
    // Felts should be padded to a multiple of 4 (1 word = 4 felts)
    let expected_total_felts = expected_felts.div_ceil(4) * 4;

    assert_eq!(
        result.len(),
        expected_total_felts,
        "For {} bytes, expected {} felts (padded from {} felts), but got {}",
        bytes.len(),
        expected_total_felts,
        expected_felts,
        result.len()
    );

    // Verify padding is zeros
    for (i, felt) in result.iter().enumerate().skip(expected_felts) {
        assert_eq!(*felt, 0, "Padding at index {i} should be zero");
    }
}

#[test]
fn test_bytes_to_elements_edge_cases() {
    validate_bytes_to_elements(&[]);
    validate_bytes_to_elements(&[1]);
    validate_bytes_to_elements(&[0u8; 4]);
    validate_bytes_to_elements(&[0u8; 15]);
    validate_bytes_to_elements(&[0u8; 16]);
    validate_bytes_to_elements(&[0u8; 17]);
    validate_bytes_to_elements(&[0u8; 31]);
    validate_bytes_to_elements(&[0u8; 32]);
    validate_bytes_to_elements(&[0u8; 33]);
    validate_bytes_to_elements(&[0u8; 64]);
}

#[test]
fn proptest_bytes_to_elements_word_boundaries() {
    for size_factor in 0u32..=100 {
        let base_size = size_factor * 16;
        for offset in -2i32..=2 {
            let size = (base_size as i32 + offset).max(0) as usize;
            validate_bytes_to_elements(&vec![0u8; size]);
        }
    }
}

#[test]
fn proptest_bytes_to_elements() {
    for size in 0usize..=1000 {
        let bytes: Vec<u8> = (0..size).map(|i| (i * 31 + size * 7) as u8).collect();
        validate_bytes_to_elements(&bytes);
    }
}

#[test]
fn bytes_are_packed_from_the_lowest() {
    assert_eq!(Rodata::bytes_to_elements(&[1, 2, 3, 4, 5]), vec![0x0403_0201, 5, 0, 0]);
}

#[test]
fn data_is_known_by_its_digest() {
    let one = Rodata::new(16, vec![1, 2, 3]);
    let same = Rodata::new(32, vec![1, 2, 3, 0]);
    let other = Rodata::new(16, vec![3, 2, 1]);
    assert_eq!(one.start, NativePtr { addr: 4, offset: 0 });
    assert_eq!(one.size_in_bytes(), 3);
    assert_eq!(one.size_in_felts(), 1);
    assert_eq!(one.size_in_words(), 1);
    assert_eq!(one.to_elements(), vec![0x0003_0201, 0, 0, 0]);
    // The padding is hashed too.
    assert_eq!(one.digest, same.digest);
    assert_ne!(one.digest, other.digest);
    assert_ne!(one.digest, Word { a: 0x0003_0201, b: 0, c: 0, d: 0 });
    assert!(NativePtr::from_ptr(16).is_word_aligned());
    assert!(!NativePtr::from_ptr(17).is_word_aligned());
    assert!(!NativePtr::from_ptr(20).is_word_aligned());
}

#[test]
fn merged_segments_are_one_constant() {
    assert!(data_segments_to_rodata(None).is_empty());
    let merged = MergedSegments { offset: 64, data: vec![7; 20] };
    let rodata = data_segments_to_rodata(Some(merged));
    assert_eq!(rodata.len(), 1);
    assert_eq!(rodata[0].start, NativePtr::from_ptr(64));
    assert_eq!(rodata[0].size_in_words(), 2);
}

#[test]
fn the_main_procedure_runs_the_program() {
    let mut interner = Interner::new();
    let paths = RuntimePaths::intern(&mut interner);
    let entry = InvocationTarget::Path(interner.intern("m::f"));
    let init = InvocationTarget::Path(interner.intern("m::init"));
    let main = generate_main(Some(init), entry, false, paths);
    assert_eq!(
        main.ops,
        vec![
            inst(Instruction::Exec(init)),
            inst(Instruction::Trace(TraceEvent::FrameStart)),
            inst(Instruction::Exec(entry)),
            inst(Instruction::Trace(TraceEvent::FrameEnd)),
            inst(Instruction::Exec(InvocationTarget::Path(paths.truncate_stack))),
        ]
    );
    assert_eq!(generate_main(None, entry, false, paths).ops.len(), 4);
    assert_eq!(generate_main(None, entry, true, paths).ops.len(), 10);
    let mut harness = Vec::new();
    emit_test_harness(&mut harness, paths);
    assert_eq!(harness.len(), 6);
    assert!(matches!(&harness[4], Op::While { body, .. } if body.ops.len() == 12));
    assert_eq!(harness[5], inst(Instruction::Drop));
}

#[test]
fn intrinsics_are_assembled_first() {
    let modules = vec![
        String::from("app::a"),
        String::from("intrinsics::mem"),
        String::from("app::b"),
        String::from("::intrinsics::i32"),
        String::from("app::c"),
    ];
    let libraries = vec![String::from("app::b")];
    let plan = plan_assembly(&modules, &libraries);
    assert_eq!(plan.intrinsics, vec![1, 3]);
    assert_eq!(plan.others, vec![0, 4]);
    assert_eq!(program_order(&plan), vec![4, 0]);
}

#[test]
fn a_component_is_shown_without_its_runtime() {
    let modules = vec![
        ModuleText { path: String::from("app"), code: String::from("proc f\nend") },
        ModuleText { path: String::from("intrinsics::mem"), code: String::from("x") },
        ModuleText { path: String::from("std::mem"), code: String::from("y") },
        ModuleText { path: String::from("::miden::core::sys"), code: String::from("z") },
    ];
    assert_eq!(render_component(&modules), "# mod app\n\nproc f\nend\n");
}

#[test]
fn interfaces_are_recovered_from_names() {
    assert_eq!(
        recover_path("root", "miden:base/my-account@1.0.0#receive-asset"),
        Some(String::from("miden::base::my_account::receive_asset"))
    );
    assert_eq!(recover_path("root", "plain"), None);
    assert_eq!(recover_path("intrinsics::mem", "a:b/c#d"), None);
    assert_eq!(recover_path("root", "cabi_realloc"), None);
    let exports = vec![
        Export {
            path: String::from("root::f"),
            module: String::from("root"),
            name: String::from("f"),
        },
        Export {
            path: String::from("root::x"),
            module: String::from("root"),
            name: String::from("a:b/c@1.0.0#d"),
        },
    ];
    assert_eq!(
        recover_wasm_cm_interfaces(&exports),
        vec![String::from("root::f"), String::from("a::b::c::d")]
    );
}

fn link() -> LinkInfo {
    LinkInfo {
        component: String::from("ns_pkg"),
        has_globals: false,
        has_data_segments: true,
        reserved_memory: 100,
        globals_page_boundary: 65536,
        stack_pointer: Some(16),
        segments: Some(MergedSegments { offset: 0, data: vec![1] }),
    }
}

fn paths() -> RuntimePaths {
    RuntimePaths::intern(&mut Interner::new())
}

fn converted(
    link: LinkInfo,
    entrypoint: Option<&str>,
    target: TargetEnv,
    items: Vec<ComponentItem>,
) -> Option<Result<MasmComponent, ComponentError>> {
    try_to_masm_component(link, entrypoint, target, items, SourceSpan::unknown(), paths())
}

#[test]
fn a_component_has_the_code_of_its_parts() {
    let items = vec![
        ComponentItem::Function(procedure("top")),
        ComponentItem::Module {
            name: String::from("my-module"),
            items: vec![
                ModuleItem::Function(procedure("f")),
                ModuleItem::GlobalVariable { initializer: Some(vec![inst(Instruction::Nop)]) },
                ModuleItem::GlobalVariable { initializer: None },
                ModuleItem::Segment,
                ModuleItem::Function(procedure("g")),
            ],
        },
        ComponentItem::Interface {
            name: String::from("my-iface"),
            procedures: vec![procedure("f")],
        },
    ];
    let component =
        converted(link(), Some("a::b::main"), TargetEnv::Base, items).unwrap().ok().unwrap();
    assert_eq!(component.entrypoint, Some(String::from("a::b::main")));
    assert_eq!(component.init, Some(String::from("ns_pkg::init")));
    assert!(!component.uses_kernel);
    assert_eq!(component.rodata.len(), 1);
    assert_eq!(component.heap_base, 65536);
    assert_eq!(component.stack_pointer, Some(16));
    let names: Vec<&str> = component.modules.iter().map(|m| m.path.as_str()).collect();
    assert_eq!(names, vec!["ns_pkg", "ns_pkg::my_module", "ns_pkg::my_iface"]);
    let top = &component.modules[0].procedures;
    assert_eq!(top.len(), 2);
    assert_eq!(top[0].name, "top");
    assert_eq!(top[1].name, "init");
    assert_eq!(top[1].visibility, ProcedureVisibility::Private);
    assert_eq!(top[1].body.ops.len(), 13);
    assert_eq!(top[1].body.ops[12], inst(Instruction::Nop));
    assert_eq!(component.modules[1].procedures.len(), 2);
    assert_eq!(component.modules[2].procedures.len(), 1);
}

#[test]
fn a_wrapped_program_is_in_its_component() {
    let wrapper = LinkInfo {
        component: String::from(WRAPPER_COMPONENT),
        has_data_segments: false,
        segments: None,
        ..link()
    };
    let rollup = TargetEnv::Rollup { target: RollupTarget::Account };
    let component =
        converted(wrapper, Some("a::main"), rollup, Vec::new()).unwrap().ok().unwrap();
    assert_eq!(component.entrypoint, Some(String::from("root_ns_root::a::main")));
    assert_eq!(component.init, None);
    assert!(component.uses_kernel);
    assert_eq!(component.modules.len(), 1);
    assert_eq!(heap_base(70000, 65536), 70000);
}

#[test]
fn an_entrypoint_names_a_module() {
    let component = converted(link(), Some("main"), TargetEnv::Base, Vec::new());
    assert!(matches!(component, Some(Err(ComponentError::InvalidEntrypoint))));
    let component = converted(link(), Some("::main"), TargetEnv::Base, Vec::new());
    assert!(matches!(component, Some(Err(ComponentError::InvalidModulePath))));
    let items = vec![ComponentItem::Interface {
        name: String::from("a::::b"),
        procedures: Vec::new(),
    }];
    assert!(converted(link(), None, TargetEnv::Base, items).is_none());
}

#[test]
fn no_procedure_of_a_component_is_defined_twice() {
    let twice = vec![
        ComponentItem::Function(procedure("f")),
        ComponentItem::Function(procedure("f")),
    ];
    let component = converted(link(), None, TargetEnv::Base, twice);
    assert!(matches!(component, Some(Err(ComponentError::DuplicateProcedure))));
    let init = vec![ComponentItem::Function(procedure("init"))];
    let component = converted(link(), None, TargetEnv::Base, init);
    assert!(matches!(component, Some(Err(ComponentError::DuplicateProcedure))));
    let nested = vec![ComponentItem::Interface {
        name: String::from("i"),
        procedures: vec![procedure("f"), procedure("f")],
    }];
    let component = converted(link(), None, TargetEnv::Base, nested);
    assert!(matches!(component, Some(Err(ComponentError::DuplicateProcedure))));
}

#[test]
fn the_modules_of_a_component_are_assembled_in_order() {
    let modules: Vec<String> =
        ["a", "::intrinsics::mem", "b", "c"].iter().map(|s| String::from(*s)).collect();
    let provided = vec![String::from("c")];
    let library =
        converted(link(), None, TargetEnv::Base, Vec::new()).unwrap().ok().unwrap();
    assert_eq!(
        library.assemble(&modules, 1, &provided),
        vec![
            AssemblyStep::Link(0),
            AssemblyStep::Compile(1),
            AssemblyStep::Add(0),
            AssemblyStep::Add(2),
            AssemblyStep::Library,
        ]
    );
    let program =
        converted(link(), Some("a::main"), TargetEnv::Base, Vec::new()).unwrap().ok().unwrap();
    assert_eq!(
        program.assemble(&modules, 1, &provided),
        vec![
            AssemblyStep::Link(0),
            AssemblyStep::Compile(1),
            AssemblyStep::Compile(2),
            AssemblyStep::Compile(0),
            AssemblyStep::Program,
        ]
    );
}

#[test]
fn the_initializer_fills_memory() {
    let mut interner = Interner::new();
    let paths = RuntimePaths::intern(&mut interner);
    let rodata = vec![Rodata::new(64, vec![9; 17])];
    let ops = emit_initializer(1024, &rodata, paths, SourceSpan::unknown());
    assert_eq!(ops.len(), 12);
    assert_eq!(ops[0], inst(Instruction::Push(PushValue::U32(1024))));
    assert_eq!(ops[2], inst(Instruction::Exec(InvocationTarget::Path(paths.heap_init))));
    let digest = rodata[0].digest;
    assert_eq!(ops[4], inst(Instruction::PushWord(digest.a, digest.b, digest.c, digest.d)));
    assert_eq!(ops[6], inst(Instruction::Push(PushValue::U32(16))));
    assert_eq!(ops[7], inst(Instruction::Push(PushValue::U32(2))));
    assert_eq!(ops[11], inst(Instruction::Drop));
}

fn function(name: &str, cc: CallConv, locals: Vec<ScalarType>) -> FunctionDecl {
    FunctionDecl {
        name: String::from(name),
        span: SourceSpan::unknown(),
        visibility: FunctionVisibility::Internal,
        signature: FunctionType { cc, params: vec![Type::U32], results: Vec::new() },
        locals,
    }
}

#[test]
fn a_function_becomes_a_procedure() {
    let mut interner = Interner::new();
    let paths = RuntimePaths::intern(&mut interner);
    let locals = vec![ScalarType::U64, ScalarType::U32];
    let decl = function("a:b/c#do-it", CallConv::CanonLift, locals);
    let builder = MasmFunctionBuilder::new(decl).ok().unwrap();
    assert_eq!(builder.name, "do_it");
    assert_eq!(builder.num_locals, 3);
    assert_eq!(builder.visibility, ProcedureVisibility::Public);
    let init = InvocationTarget::Path(interner.intern("init"));
    let body = vec![inst(Instruction::Nop)];
    let procedure = builder.build(Some(init), body, InvokeSet::new(), paths);
    assert_eq!(
        procedure.body.ops,
        vec![
            inst(Instruction::Exec(init)),
            inst(Instruction::Nop),
            inst(Instruction::Exec(InvocationTarget::Path(paths.truncate_stack))),
        ]
    );
    assert_eq!(procedure.signature.map(|ty| ty.params), Some(vec![Type::U32]));
    let decl = function("f", CallConv::Fast, Vec::new());
    let builder = MasmFunctionBuilder::new(decl).ok().unwrap();
    let body = vec![inst(Instruction::Drop)];
    let procedure = builder.build(Some(init), body, InvokeSet::new(), paths);
    assert_eq!(procedure.body.ops, vec![inst(Instruction::Drop)]);
    assert_eq!(sanitize_name("a:b/c@d-e"), "a_b_c_d_e");
}

#[test]
fn a_procedure_has_no_room_for_too_many_locals() {
    let decl = function("f", CallConv::Fast, vec![ScalarType::I128; 16384]);
    assert!(matches!(MasmFunctionBuilder::new(decl), Err(TooManyLocals {})));
    let fits = function("f", CallConv::Fast, vec![ScalarType::I128; 16383]);
    assert!(MasmFunctionBuilder::new(fits).is_ok());
}

fn procedure(name: &str) -> Procedure {
    Procedure {
        span: SourceSpan::unknown(),
        name: String::from(name),
        signature: None,
        visibility: ProcedureVisibility::Public,
        num_locals: 0,
        body: Block { span: SourceSpan::unknown(), ops: Vec::new() },
        invoked: InvokeSet::new(),
    }
}

#[test]
fn a_module_defines_a_procedure_once() {
    let mut module = MasmModule::new(String::from("m"));
    assert!(module.define_procedure(procedure("f")).is_ok());
    assert!(module.define_procedure(procedure("g")).is_ok());
    assert!(matches!(module.define_procedure(procedure("f")), Err(DuplicateProcedure {})));
    assert_eq!(module.procedures.len(), 2);
}

#[test]
fn arguments_are_on_the_stack_in_order() {
    let stack = entry_stack(&vec![value(1), value(2)]);
    assert_eq!(stack.get(0), held(1));
    assert_eq!(stack.get(1), held(2));
}

#[test]
fn intrinsics_are_found_by_name() {
    assert_eq!(load("intrinsics::mem"), Some(IntrinsicsModule::Mem));
    assert_eq!(load("intrinsics::float"), None);
    assert_eq!(IntrinsicsModule::I64.name(), "intrinsics::i64");
    assert!(is_intrinsics_module("intrinsics::advice"));
    assert!(!is_intrinsics_module("std::mem"));
}

#[test]
fn every_dialect_is_hooked() {
    let mut context = Vec::new();
    register_dialect_hooks(&mut context);
    assert_eq!(context.len(), 6);
    assert_eq!(context[0].dialect, Dialect::Builtin);
    assert!(context[0].operations.contains(&LoweredOp::Builtin(BuiltinOp::Ret)));
    assert!(context[1].operations.contains(&LoweredOp::Arith(ArithOp::Add)));
    for hook in context.iter() {
        for op in hook.operations.iter() {
            assert_eq!(op.dialect(), hook.dialect);
        }
    }
}

#[test]
fn a_return_leaves_the_results() {
    let mut block = Vec::new();
    let mut stack = stack_of(&[1, 2, 3]);
    let mut invoked = InvokeSet::new();
    let mut emitter = OpEmitter::new(&mut invoked, &mut block, &mut stack);
    let span = SourceSpan::unknown();
    emit_ret(&mut emitter, 1, span);
    assert_eq!(emitter.stack_len(), 1);
    assert_eq!(emitter.stack().get(0), held(1));
    emit_ret_imm(&mut emitter, Immediate::U32(5), span);
    assert_eq!(emitter.stack_len(), 1);
    assert_eq!(emitter.stack().get(0), Operand::Const(Immediate::U32(5)));
}

#[test]
fn constants_and_traps_are_emitted() {
    let mut block = Vec::new();
    let mut stack = OperandStack::new();
    let mut invoked = InvokeSet::new();
    let mut emitter = OpEmitter::new(&mut invoked, &mut block, &mut stack);
    let span = SourceSpan::unknown();
    emit_constant(&mut emitter, Immediate::U32(5), value(1), span);
    assert_eq!(emitter.stack().get(0), held(1));
    assert!(emit_poison(&mut emitter, PoisonValue::Immediate(Immediate::I1(false)), value(2), span).is_ok());
    assert_eq!(
        emit_poison(&mut emitter, PoisonValue::F64, value(3), span),
        Err(LoweringError::UnsupportedImmediate)
    );
    assert_eq!(emitter.stack_len(), 2);
    emit_unreachable(&mut emitter, span);
    emit_breakpoint(&mut emitter, span);
    let n = emitter.current_block().len();
    assert_eq!(emitter.current_block()[n - 1], inst(Instruction::Breakpoint));
    assert_eq!(emitter.current_block()[n - 2], inst(Instruction::Assert));
    assert_eq!(emitter.current_block()[n - 3], inst(Instruction::Push(PushValue::U32(0))));
}

#[test]
fn a_split_value_is_joined_again() {
    let mut block = Vec::new();
    let mut stack = OperandStack::new();
    let mut invoked = InvokeSet::new();
    let mut emitter = OpEmitter::new(&mut invoked, &mut block, &mut stack);
    let wide = ValueRef { id: 9, size: 2 };
    emitter.push(Operand::Value(wide));
    emit_split(&mut emitter, value(1), value(2));
    assert_eq!(emitter.stack_len(), 2);
    assert_eq!(emitter.stack().get(0), held(1));
    assert_eq!(emitter.stack().get(1), held(2));
    emit_join(&mut emitter, wide);
    assert_eq!(emitter.stack_len(), 1);
    assert_eq!(emitter.stack().get(0), Operand::Value(wide));
    emit_ptr_to_int(&mut emitter, ScalarType::U32, value(4));
    assert_eq!(emitter.stack().get(0), held(4));
    assert!(emitter.current_block().is_empty());
}

#[test]
fn a_global_is_an_address() {
    let mut block = Vec::new();
    let mut stack = OperandStack::new();
    let mut invoked = InvokeSet::new();
    let mut emitter = OpEmitter::new(&mut invoked, &mut block, &mut stack);
    let span = SourceSpan::unknown();
    let result = value(1);
    assert!(emit_global_symbol(&mut emitter, ResolvedSymbol::Global(16), -4, result, span).is_ok());
    assert_eq!(emitter.current_block()[0], inst(Instruction::Push(PushValue::U32(12))));
    assert_eq!(
        emit_global_symbol(&mut emitter, ResolvedSymbol::Global(2), -4, result, span),
        Err(LoweringError::InvalidOffset)
    );
    assert_eq!(
        emit_global_symbol(&mut emitter, ResolvedSymbol::Unresolved, 0, result, span),
        Err(LoweringError::UnresolvedSymbol)
    );
    assert_eq!(
        emit_global_symbol(&mut emitter, ResolvedSymbol::Other, 0, result, span),
        Err(LoweringError::NotAGlobal)
    );
}

#[test]
fn a_callee_is_named_by_its_path() {
    let mut interner = Interner::new();
    let m = interner.intern("miden:base/account@1.0.0");
    let f = interner.intern("get-id");
    let parts = vec![
        SymbolNameComponent::Root,
        SymbolNameComponent::Component(m),
        SymbolNameComponent::Leaf(f),
    ];
    let found = Callee { path: SymbolPath::from_iter(&parts), callable: true };
    match resolve_callee(&Some(found), &mut interner) {
        Ok(InvocationTarget::Path(path)) => {
            assert_eq!(interner.as_str(path), "::miden_base_account::get_id")
        }
        other => panic!("not a path: {:?}", other),
    }
    let not_callable = Callee { path: SymbolPath::from_iter(&parts), callable: false };
    assert_eq!(
        resolve_callee(&Some(not_callable), &mut interner),
        Err(LoweringError::NotCallable)
    );
    assert_eq!(resolve_callee(&None, &mut interner), Err(LoweringError::UnresolvedCallee));
    let long = interner.intern("x".repeat(300).as_str());
    let bad = Callee {
        path: SymbolPath::from_iter(&vec![SymbolNameComponent::Leaf(long)]),
        callable: true,
    };
    assert_eq!(resolve_callee(&Some(bad), &mut interner), Err(LoweringError::InvalidPath));
}

#[test]
fn a_variable_is_where_its_value_is() {
    let mut interner = Interner::new();
    let name = interner.intern("x");
    let file = interner.intern("a.rs");
    let mut variable = DILocalVariableAttr::new(name, file, 3, Some(0));
    variable.arg_index = Some(1);
    let mut block = Vec::new();
    let mut stack = stack_of(&[4, 5]);
    let mut invoked = InvokeSet::new();
    let mut emitter = OpEmitter::new(&mut invoked, &mut block, &mut stack);
    let span = SourceSpan::unknown();
    let none = DIExpressionAttr::new();
    let local = DIExpressionAttr::with_ops(vec![DIExpressionOp::WasmLocal(7)]);
    emit_dbg_value(&mut emitter, value(5), &variable, &none, span);
    emit_dbg_value(&mut emitter, value(5), &variable, &local, span);
    emit_dbg_declare(&mut emitter, value(6), &variable, span);
    let infos: Vec<(DebugVarLocation, Option<u32>, Option<FilePosition>)> = emitter
        .current_block()
        .iter()
        .map(|op| match op {
            Op::Inst(_, Instruction::DebugVar(info)) => {
                (info.location, info.arg_index, info.position)
            }
            other => panic!("not a variable: {:?}", other),
        })
        .collect();
    assert_eq!(infos[0].0, DebugVarLocation::Stack(1));
    assert_eq!(infos[0].1, Some(2));
    assert_eq!(infos[0].2, Some(FilePosition { file, line: 3, column: 1 }));
    assert_eq!(infos[1].0, DebugVarLocation::Local(7));
    assert_eq!(infos[2].0, DebugVarLocation::Expression);
}

#[test]
fn a_loop_keeps_the_stack() {
    let span = SourceSpan::unknown();
    let mut block = Vec::new();
    let mut stack = stack_of(&[1]);
    let mut invoked = InvokeSet::new();
    let mut emitter = OpEmitter::new(&mut invoked, &mut block, &mut stack);
    let shape = WhileShape {
        before_args: vec![value(10)],
        after_args: vec![value(11)],
        results: vec![value(12)],
    };
    // The condition on top of the value that is passed on.
    let before = EmittedRegion { ops: vec![inst(Instruction::Dup0)], stack: stack_of(&[20, 10]) };
    let after = EmittedRegion { ops: vec![inst(Instruction::Nop)], stack: stack_of(&[11]) };
    assert_eq!(emit_while(&mut emitter, &shape, before, after, span), Ok(()));
    assert_eq!(emitter.stack_len(), 1);
    assert_eq!(emitter.stack().get(0), held(12));
    assert_eq!(emitter.current_block().len(), 2);
    assert_eq!(emitter.current_block()[0], inst(Instruction::Push(PushValue::U8(1))));
    match &emitter.current_block()[1] {
        Op::While { body, .. } => assert_eq!(body.ops.len(), 2),
        other => panic!("not a loop: {:?}", other),
    }
}

#[test]
fn a_loop_body_leaves_nothing_behind() {
    let span = SourceSpan::unknown();
    let mut block = Vec::new();
    let mut stack = stack_of(&[1]);
    let mut invoked = InvokeSet::new();
    let mut emitter = OpEmitter::new(&mut invoked, &mut block, &mut stack);
    let shape = WhileShape {
        before_args: vec![value(10)],
        after_args: vec![value(11)],
        results: vec![value(12)],
    };
    let before = EmittedRegion { ops: Vec::new(), stack: stack_of(&[20, 10, 99]) };
    let after = EmittedRegion { ops: Vec::new(), stack: stack_of(&[11]) };
    assert_eq!(
        emit_while(&mut emitter, &shape, before, after, span),
        Err(LoweringError::EscapingValue)
    );
    let before = EmittedRegion { ops: Vec::new(), stack: stack_of(&[20, 10]) };
    let after = EmittedRegion { ops: Vec::new(), stack: stack_of(&[11, 11]) };
    assert_eq!(
        emit_while(&mut emitter, &shape, before, after, span),
        Err(LoweringError::UnbalancedLoop)
    );
}

#[test]
fn a_switch_is_searched_from_its_midpoint() {
    let plan = plan_switch(&vec![9, 1, 3, 5]);
    assert_eq!(plan.midpoint, 5);
    assert_eq!(plan.below, vec![1, 3]);
    assert_eq!(plan.above, vec![5, 9]);
    assert_eq!(plan.num_cases, 4);
    let odd = plan_switch(&vec![10, 0, 4, 5, 11]);
    assert_eq!(odd.midpoint, 5);
    assert_eq!(odd.below, vec![0, 4]);
    let single = plan_switch(&vec![7]);
    assert!(single.below.is_empty());
    assert_eq!(single.above, vec![7]);
}

#[test]
fn a_condition_is_put_on_top() {
    let span = SourceSpan::unknown();
    let mut block = Vec::new();
    let mut stack = stack_of(&[1, 2, 3]);
    let mut invoked = InvokeSet::new();
    let mut emitter = OpEmitter::new(&mut invoked, &mut block, &mut stack);
    schedule_condition(&mut emitter, value(3), Constraint::Move, span);
    assert_eq!(emitter.stack().get(0), held(3));
    assert_eq!(emitter.current_block()[0], inst(Instruction::MovUp2));
    pop_condition(&mut emitter, value(3));
    assert_eq!(emitter.stack_len(), 2);
    schedule_condition(&mut emitter, value(2), Constraint::Copy, span);
    assert_eq!(emitter.current_block()[1], inst(Instruction::Dup1));
    assert_eq!(emitter.stack_len(), 3);
    let then_blk = Block { span, ops: vec![inst(Instruction::Nop)] };
    let else_blk = Block { span, ops: Vec::new() };
    emit_cond_br(&mut emitter, false, then_blk, else_blk, span);
    assert_eq!(emitter.stack_len(), 2);
    assert!(matches!(emitter.current_block().last(), Some(Op::If { .. })));
}

#[test]
fn a_binary_operation_has_its_right_operand_on_top() {
    let mut args = vec![value(1), value(2)];
    let mut constraints = vec![Constraint::Copy, Constraint::Move];
    let options = schedule_operands(&mut args, &mut constraints, true, false);
    assert_eq!(options, Some(SolverOptions { strict: true }));
    assert_eq!(args, vec![value(2), value(1)]);
    assert_eq!(constraints, vec![Constraint::Move, Constraint::Copy]);
    let options = schedule_operands(&mut args, &mut constraints, false, true);
    assert_eq!(options, Some(SolverOptions { strict: false }));
    assert_eq!(args, vec![value(2), value(1)]);
    assert_eq!(schedule_operands(&mut Vec::new(), &mut Vec::new(), true, true), None);
}

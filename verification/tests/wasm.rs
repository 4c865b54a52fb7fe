use midenc::hir::debug_attrs::{DIExpressionOp, DISubprogramAttr};
use midenc::hir::path::{SymbolNameComponent, SymbolPath};
use midenc::hir::types::Type;
use midenc::span::SourceSpan;
use midenc::symbol::Interner;
use midenc::types::{Immediate, ScalarType};
use midenc::wasm::body::{read_local_decls, read_operators, readable_locals, UnreadableBody};
use midenc::wasm::builder::FunctionBuilder;
use midenc::wasm::control::WasmError;
use midenc::wasm::debug_info::{
    build_function_debug_info, build_local_debug_info, build_location_schedule,
    collect_function_debug_info, describe_locals, try_collect_function_debug_info, determine_file_symbols, determine_location, local_types, FilePath,
    FunctionSource, LocalDecl, SourceLocation,
};
use midenc::wasm::dwarf::{
    decode_storage_from_expression, decode_variable_entry, read_operations,
    program_counters, resolve_subprogram_target, Attr, BodyOffset, DwarfError, DwarfLocalData, DwarfOp,
    FunctionTable, ListEntry, LocationDescriptor, LocationList, LocationValue, Node, PcValue, Tag, UnitEncoding,
    VariableStorage,
};
use midenc::wasm::dwarf_locals::{collect_dwarf_local_data, DwarfLocals, Unit};
use midenc::wasm::function::{is_valid_function, resolve_source_path, BodyOperator, FuncTranslator};
use midenc::wasm::ir::{BinaryOp, Conversion, Event, IrType, SwitchCase, Value};
use midenc::wasm::miden_abi::mem;
use midenc::wasm::miden_abi::signature::{find_function_type, find_module};
use midenc::wasm::miden_abi::transform::{
    get_transform_strategy, list_return, no_transform, return_via_pointer,
    transform_miden_abi_call, ImportedFunction, TransformStrategy,
};
use midenc::wasm::miden_abi::{is_miden_abi_module, is_stdlib_path, miden_stdlib_function_type};
use midenc::wasm::module::{
    build_data_segments, build_globals, build_ir_module, translate_module_as_component,
    DataSegmentSource, FunctionInput, ModuleNames,
    GlobalSource, ModuleError, Visibility,
};
use midenc::wasm::state::FuncTranslationState;
use midenc::wasm::translate::translate_operator;
use midenc::wasm::operator::{
    BlockType, CallTarget, Callable, FuncEnv, Global, MemArg, Operator, Signature, ValType,
};

fn empty_env() -> FuncEnv {
    FuncEnv { variables: Vec::new(), globals: Vec::new(), functions: Vec::new(), signatures: Vec::new() }
}

fn ops(list: Vec<Operator>) -> Vec<BodyOperator> {
    list.into_iter().map(|op| BodyOperator { op, span: SourceSpan::unknown() }).collect()
}

fn translated(
    env: &FuncEnv,
    params: Vec<ScalarType>,
    results: Vec<ScalarType>,
    body: Vec<Operator>,
) -> FunctionBuilder {
    let body = ops(body);
    assert!(is_valid_function(env, &params, &results, &Vec::new(), &body));
    let mut translator = FuncTranslator::new();
    match translator.translate_body(env, &params, &results, &Vec::new(), &body) {
        Ok(function) => function,
        Err(error) => panic!("not translated: {:?}", error),
    }
}

fn binaries(function: &FunctionBuilder) -> Vec<BinaryOp> {
    function
        .steps()
        .iter()
        .filter_map(|step| match step {
            Event::Binary { op, .. } => Some(*op),
            _ => None,
        })
        .collect()
}

fn i32s(n: usize) -> Vec<ScalarType> {
    vec![ScalarType::I32; n]
}

#[test]
fn a_sum_is_translated() {
    let env = FuncEnv { variables: i32s(2), ..empty_env() };
    let function = translated(
        &env,
        i32s(2),
        i32s(1),
        vec![
            Operator::LocalGet { local_index: 0 },
            Operator::LocalGet { local_index: 1 },
            Operator::I32Add,
            Operator::End,
        ],
    );
    assert_eq!(binaries(&function), vec![BinaryOp::AddWrapping]);
    let rets = function.steps().iter().filter(|step| matches!(step, Event::Ret { value: Some(_) })).count();
    assert_eq!(rets, 1);
}

#[test]
fn unsigned_division_works_on_unsigned_values() {
    let env = FuncEnv { variables: i32s(2), ..empty_env() };
    let function = translated(
        &env,
        i32s(2),
        i32s(1),
        vec![
            Operator::LocalGet { local_index: 0 },
            Operator::LocalGet { local_index: 1 },
            Operator::I32DivU,
            Operator::End,
        ],
    );
    assert_eq!(binaries(&function), vec![BinaryOp::Div]);
    let unsigned = function
        .steps()
        .iter()
        .filter(|step| match step {
            Event::Convert { op: Conversion::Bitcast, result, .. } => {
                result.ty == IrType::Scalar(ScalarType::U32)
            }
            _ => false,
        })
        .count();
    assert_eq!(unsigned, 2);
}

#[test]
fn a_choice_has_two_branches() {
    let env = FuncEnv { variables: i32s(1), ..empty_env() };
    let function = translated(
        &env,
        i32s(1),
        i32s(1),
        vec![
            Operator::LocalGet { local_index: 0 },
            Operator::If { blockty: BlockType::Type(ValType::I32) },
            Operator::I32Const { value: 1 },
            Operator::Else,
            Operator::I32Const { value: 2 },
            Operator::End,
            Operator::End,
        ],
    );
    let branches = function.steps().iter().filter(|step| matches!(step, Event::CondBr { .. })).count();
    assert_eq!(branches, 1);
    let constants: Vec<Immediate> = function
        .steps()
        .iter()
        .filter_map(|step| match step {
            Event::Const { imm: Immediate::I32(n), .. } => Some(Immediate::I32(*n)),
            _ => None,
        })
        .collect();
    assert!(constants.contains(&Immediate::I32(1)));
    assert!(constants.contains(&Immediate::I32(2)));
}

#[test]
fn a_loop_is_left_by_a_branch() {
    let env = FuncEnv { variables: i32s(1), ..empty_env() };
    let function = translated(
        &env,
        i32s(1),
        Vec::new(),
        vec![
            Operator::Block { blockty: BlockType::Empty },
            Operator::Loop { blockty: BlockType::Empty },
            Operator::LocalGet { local_index: 0 },
            Operator::BrIf { relative_depth: 1 },
            Operator::Br { relative_depth: 0 },
            // Not reachable, and so not translated
            Operator::I32Const { value: 7 },
            Operator::Drop,
            Operator::End,
            Operator::End,
            Operator::End,
        ],
    );
    assert!(!function.steps().iter().any(|step| matches!(step, Event::Const { imm: Immediate::I32(7), .. })));
    assert!(function.steps().iter().any(|step| matches!(step, Event::Br { .. })));
}

#[test]
fn a_table_is_a_switch() {
    let env = FuncEnv { variables: i32s(1), ..empty_env() };
    let function = translated(
        &env,
        i32s(1),
        Vec::new(),
        vec![
            Operator::Block { blockty: BlockType::Empty },
            Operator::Block { blockty: BlockType::Empty },
            Operator::LocalGet { local_index: 0 },
            Operator::BrTable { targets: vec![0, 1], default: 1 },
            Operator::End,
            Operator::End,
            Operator::End,
        ],
    );
    let mut cases: Vec<u32> = Vec::new();
    for step in function.steps().iter() {
        if let Event::Switch { cases: list, .. } = step {
            for case in list.iter() {
                let SwitchCase { value, .. } = case;
                cases.push(*value);
            }
        }
    }
    cases.sort();
    assert_eq!(cases, vec![0, 1]);
}

#[test]
fn the_cases_of_a_table_are_its_targets() {
    let switch = |targets: Vec<u32>| {
        let env = FuncEnv { variables: i32s(1), ..empty_env() };
        let function = translated(
            &env,
            i32s(1),
            Vec::new(),
            vec![
                Operator::Block { blockty: BlockType::Empty },
                Operator::Block { blockty: BlockType::Empty },
                Operator::LocalGet { local_index: 0 },
                Operator::BrTable { targets, default: 1 },
                Operator::End,
                Operator::End,
                Operator::End,
            ],
        );
        for step in function.steps().iter() {
            if let Event::Switch { cases, default_dest, .. } = step {
                let blocks: Vec<bool> =
                    cases.iter().map(|case| case.successor == *default_dest).collect();
                return blocks;
            }
        }
        panic!("no switch");
    };
    assert_eq!(switch(vec![0, 1]), vec![false, true]);
    assert_eq!(switch(vec![1, 0]), vec![true, false]);
    assert_eq!(switch(vec![1, 0, 1, 1]), vec![true, false, true, true]);
}

#[test]
fn a_load_adds_its_offset() {
    let env = FuncEnv { variables: i32s(1), ..empty_env() };
    let function = translated(
        &env,
        i32s(1),
        i32s(1),
        vec![
            Operator::LocalGet { local_index: 0 },
            Operator::I32Load { memarg: MemArg { align: 2, offset: 12 } },
            Operator::End,
        ],
    );
    assert!(function.steps().iter().any(|step| matches!(step, Event::Const { imm: Immediate::U32(12), .. })));
    assert!(function.steps().iter().any(|step| matches!(step, Event::AssertAligned { .. })));
    assert!(function.steps().iter().any(|step| matches!(step, Event::Load { .. })));
}

#[test]
fn calls_and_globals_are_translated() {
    let mut interner = Interner::new();
    let callee = interner.intern("callee");
    let name = interner.intern("gv0");
    let env = FuncEnv {
        variables: i32s(1),
        globals: vec![Global { name, ty: ScalarType::I32 }],
        functions: vec![Callable { target: CallTarget::Function { callee }, signature: 0 }],
        signatures: vec![Signature { params: vec![ValType::I32], results: vec![ValType::I32] }],
    };
    let function = translated(
        &env,
        i32s(1),
        Vec::new(),
        vec![
            Operator::GlobalGet { global_index: 0 },
            Operator::Call { function_index: 0 },
            Operator::GlobalSet { global_index: 0 },
            Operator::End,
        ],
    );
    assert!(function.steps().iter().any(|step| match step {
        Event::Exec { callee: c, args, results } => {
            *c == callee && args.len() == 1 && results.len() == 1
        }
        _ => false,
    }));
    assert!(function.steps().iter().any(|step| matches!(step, Event::StoreGlobal { .. })));
}

#[test]
fn some_operators_are_not_supported() {
    let env = empty_env();
    let mut translator = FuncTranslator::new();
    let body = ops(vec![Operator::Other, Operator::End]);
    let result = translator.translate_body(&env, &Vec::new(), &Vec::new(), &Vec::new(), &body);
    assert!(matches!(result, Err(WasmError::UnsupportedOperator)));
    let body = ops(vec![
        Operator::I32Const { value: 0 },
        Operator::I32Const { value: 0 },
        Operator::I32Const { value: 0 },
        Operator::MemoryFill { mem: 1 },
        Operator::End,
    ]);
    let result = translator.translate_body(&env, &Vec::new(), &Vec::new(), &Vec::new(), &body);
    assert!(matches!(result, Err(WasmError::MultipleMemories)));
    let decls = vec![LocalDecl { count: 1, ty: ValType::F64 }];
    let body = ops(vec![Operator::End]);
    let result = translator.translate_body(&env, &Vec::new(), &Vec::new(), &decls, &body);
    assert!(matches!(result, Err(WasmError::UnsupportedType)));
    let two = i32s(2);
    let body = ops(vec![
        Operator::I32Const { value: 0 },
        Operator::I32Const { value: 0 },
        Operator::Return,
        Operator::End,
    ]);
    let result = translator.translate_body(&env, &Vec::new(), &two, &Vec::new(), &body);
    assert!(matches!(result, Err(WasmError::MultipleValues)));
}

fn is_valid(body: Vec<Operator>) -> bool {
    is_valid_function(&empty_env(), &Vec::new(), &Vec::new(), &Vec::new(), &ops(body))
}

#[test]
fn operators_need_their_operands() {
    let number = || Operator::I32Const { value: 1 };
    assert!(is_valid(vec![number(), number(), Operator::I32Add, Operator::Drop, Operator::End]));
    assert!(!is_valid(vec![number(), Operator::I32Add, Operator::Drop, Operator::End]));
    assert!(!is_valid(vec![Operator::Drop, Operator::End]));
    assert!(!is_valid(vec![Operator::LocalGet { local_index: 0 }, Operator::End]));
    assert!(!is_valid(vec![Operator::Call { function_index: 0 }, Operator::End]));
    assert!(is_valid(vec![Operator::Br { relative_depth: 0 }, Operator::End]));
    assert!(!is_valid(vec![Operator::Br { relative_depth: 1 }, Operator::End]));
    let table = |targets| Operator::BrTable { targets, default: 0 };
    assert!(is_valid(vec![number(), table(vec![0]), Operator::End]));
    assert!(!is_valid(vec![number(), table(vec![2]), Operator::End]));
    assert!(!is_valid(vec![table(vec![0]), Operator::End]));
    let memarg = MemArg { align: 2, offset: 0 };
    assert!(is_valid(vec![number(), Operator::I32Load { memarg }, Operator::Drop, Operator::End]));
    let wide = Operator::I64Const { value: 1 };
    assert!(!is_valid(vec![wide, Operator::I32Load { memarg }, Operator::Drop, Operator::End]));
    let blockty = BlockType::Empty;
    let branches = |first| vec![first, Operator::If { blockty }, Operator::Else, Operator::End];
    assert!(is_valid(branches(number())));
    assert!(!is_valid(branches(Operator::Nop)));
    assert!(!is_valid(vec![Operator::Else, Operator::End]));
    assert!(!is_valid(vec![Operator::End, Operator::End]));
    // An operator that is not supported ends the translation, whatever comes after it
    assert!(is_valid(vec![Operator::Other, Operator::Drop, Operator::End]));
    assert!(is_valid(vec![Operator::Unreachable, Operator::Drop, Operator::End]));
    let many = vec![LocalDecl { count: u32::MAX, ty: ValType::I32 }];
    let one = i32s(1);
    let none = Vec::new();
    assert!(!is_valid_function(&empty_env(), &one, &none, &many, &ops(vec![Operator::End])));
}

#[test]
fn globals_are_declared() {
    let mut interner = Interner::new();
    let name = interner.intern("sp");
    let named = || GlobalSource {
        name: Some(name),
        ty: ValType::I32,
        exported: true,
        init: Some(Immediate::I32(1024)),
    };
    let unnamed = GlobalSource {
        name: None,
        ty: ValType::I64,
        exported: false,
        init: Some(Immediate::I64(1)),
    };
    let built = build_globals(&Vec::new(), &vec![named(), unnamed], &mut interner).ok().unwrap();
    assert_eq!(built[0].name, name);
    assert_eq!(built[0].visibility, Visibility::Public);
    assert_eq!(interner.as_str(built[1].name), "gv1");
    assert_eq!(built[1].ty, ScalarType::I64);
    assert_eq!(
        build_globals(&Vec::new(), &vec![named(), named()], &mut interner),
        Err(ModuleError::DuplicateName(1))
    );
    assert_eq!(
        build_globals(&vec![name], &vec![named()], &mut interner),
        Err(ModuleError::DuplicateName(0))
    );
    let no_init = GlobalSource { init: None, ..named() };
    assert_eq!(
        build_globals(&Vec::new(), &vec![no_init], &mut interner),
        Err(ModuleError::InvalidInitializer(0))
    );
    let float = GlobalSource { ty: ValType::F64, ..named() };
    assert_eq!(
        build_globals(&Vec::new(), &vec![float], &mut interner),
        Err(ModuleError::UnsupportedType(0))
    );
}

#[test]
fn segments_are_declared() {
    let mut interner = Interner::new();
    let rodata = DataSegmentSource {
        name: interner.intern(".rodata.str"),
        offset: Some(16),
        data: vec![1, 2],
    };
    let data = DataSegmentSource { name: interner.intern(".data"), offset: Some(-1), data: Vec::new() };
    let built = build_data_segments(&vec![rodata, data], &interner).ok().unwrap();
    assert!(built[0].readonly);
    assert_eq!(built[0].offset, 16);
    assert_eq!(built[0].init, vec![1, 2]);
    assert!(!built[1].readonly);
    assert_eq!(built[1].offset, u32::MAX);
    let bad = DataSegmentSource { name: interner.intern("x"), offset: None, data: Vec::new() };
    assert!(matches!(
        build_data_segments(&vec![bad], &interner),
        Err(ModuleError::InvalidOffset(0))
    ));
}

#[test]
fn a_module_is_built() {
    let mut interner = Interner::new();
    let name = interner.intern("f");
    let stub = interner.intern("stub");
    let input = |name, is_stub| FunctionInput {
        name,
        env: empty_env(),
        params: Vec::new(),
        results: Vec::new(),
        decls: Vec::new(),
        ops: ops(vec![Operator::Nop, Operator::End]),
        is_stub,
    };
    let inputs = vec![input(name, false), input(stub, true)];
    assert!(inputs.iter().all(FunctionInput::is_valid));
    let module = build_ir_module(&Vec::new(), &Vec::new(), &inputs, &mut interner).ok().unwrap();
    assert_eq!(module.functions.len(), 1);
    assert_eq!(module.functions[0].name, name);
    let bad = FunctionInput { ops: ops(vec![Operator::Other, Operator::End]), ..input(name, false) };
    assert!(matches!(
        build_ir_module(&Vec::new(), &Vec::new(), &vec![bad], &mut interner),
        Err(ModuleError::Function(WasmError::UnsupportedOperator))
    ));
}

fn encoding() -> UnitEncoding {
    UnitEncoding { dwarf64: false, version: 4, address_size: 4 }
}

#[test]
fn expressions_are_read() {
    // DW_OP_WASM_location with a local, DW_OP_stack_value
    assert_eq!(
        read_operations(&[0xed, 0x00, 0x05, 0x9f], encoding()),
        Ok(vec![DwarfOp::WasmLocal(5), DwarfOp::Other])
    );
    assert_eq!(
        decode_storage_from_expression(&[0xed, 0x00, 0x05, 0x9f], encoding()),
        Ok(Some(VariableStorage::Local(5)))
    );
    assert_eq!(
        decode_storage_from_expression(&[0xed, 0x01, 0x02], encoding()),
        Ok(Some(VariableStorage::Global(2)))
    );
    assert_eq!(
        decode_storage_from_expression(&[0xed, 0x02, 0x03], encoding()),
        Ok(Some(VariableStorage::Stack(3)))
    );
    // DW_OP_constu
    assert_eq!(
        decode_storage_from_expression(&[0x10, 0x2a], encoding()),
        Ok(Some(VariableStorage::ConstU64(42)))
    );
    assert_eq!(decode_storage_from_expression(&[0x9f], encoding()), Ok(None));
    assert_eq!(decode_storage_from_expression(&[], encoding()), Ok(None));
    assert_eq!(decode_storage_from_expression(&[0xed], encoding()), Err(DwarfError {}));
}

fn variable(name: &str, location: LocationValue) -> Node {
    Node {
        tag: Tag::Variable,
        attrs: vec![
            Attr::Name(String::from(name)),
            Attr::DeclLine(3),
            Attr::DeclColumn(4),
            Attr::Location(location),
        ],
        attrs_complete: true,
        children: Vec::new(),
        children_complete: true,
    }
}

#[test]
fn a_variable_is_decoded() {
    let node = variable("x", LocationValue::Expression(vec![0xed, 0x00, 0x01, 0x9f]));
    let (local, data) =
        decode_variable_entry(&node, encoding(), 10, Some(20)).ok().unwrap().unwrap();
    assert_eq!(local, 1);
    assert_eq!(data.name, Some(String::from("x")));
    assert_eq!(data.decl_line, Some(3));
    assert_eq!(data.decl_column, Some(4));
    assert_eq!(
        data.locations,
        vec![LocationDescriptor { start: 10, end: Some(20), storage: VariableStorage::Local(1) }]
    );
    let entries = vec![
        ListEntry { begin: 12, end: 14, expression: vec![0xed, 0x00, 0x02, 0x9f] },
        ListEntry { begin: 14, end: 16, expression: vec![0x10, 0x07] },
    ];
    let list = LocationValue::Lists(vec![
        LocationList { base: 10, entries: Some(entries) },
        LocationList { base: 30, entries: None },
    ]);
    let (local, data) =
        decode_variable_entry(&variable("y", list), encoding(), 10, Some(20)).ok().unwrap().unwrap();
    assert_eq!(local, 2);
    // Only the locals of a list count.
    assert_eq!(
        data.locations,
        vec![LocationDescriptor { start: 12, end: Some(14), storage: VariableStorage::Local(2) }]
    );
    let unread = || LocationValue::Lists(vec![LocationList { base: 30, entries: None }]);
    assert!(decode_variable_entry(&variable("y", unread()), encoding(), 30, None).is_err());
    assert!(decode_variable_entry(&variable("y", unread()), encoding(), 10, None).is_err());
    let broken = variable("z", LocationValue::Expression(vec![0xed]));
    assert!(decode_variable_entry(&broken, encoding(), 0, None).is_err());
}

fn table() -> FunctionTable {
    FunctionTable {
        names: vec![String::from("a"), String::from("b")],
        bodies: vec![
            BodyOffset { function: 0, offset: 110 },
            BodyOffset { function: 1, offset: 130 },
        ],
        code_section_offset: 100,
    }
}

#[test]
fn a_subprogram_is_found_by_its_name() {
    let attrs = vec![
        Attr::Name(String::from("b")),
        Attr::LowPc(PcValue::Addr(30)),
        Attr::HighPc(PcValue::Udata(5)),
    ];
    assert_eq!(resolve_subprogram_target(&table(), &attrs), Some((1, 30, Some(35))));
    assert_eq!(program_counters(&attrs), (Some(30), Some(35)));
    let backwards = vec![Attr::HighPc(PcValue::Udata(5)), Attr::LowPc(PcValue::Udata(7))];
    assert_eq!(program_counters(&backwards), (Some(7), None));
    let unknown = vec![Attr::Name(String::from("q"))];
    assert_eq!(resolve_subprogram_target(&table(), &unknown), None);
}

#[test]
fn the_variables_of_units_are_collected() {
    let child = variable("x", LocationValue::Expression(vec![0xed, 0x00, 0x01, 0x9f]));
    let subprogram = Node {
        tag: Tag::Subprogram,
        attrs: vec![Attr::Name(String::from("a")), Attr::LowPc(PcValue::Addr(10))],
        attrs_complete: true,
        children: vec![child],
        children_complete: true,
    };
    let root = Node {
        tag: Tag::Other,
        attrs: Vec::new(),
        attrs_complete: true,
        children: vec![subprogram],
        children_complete: true,
    };
    let units = vec![Unit { encoding: encoding(), root }];
    let locals = collect_dwarf_local_data(&units, &table());
    let data = locals.get(0, 1).unwrap();
    assert_eq!(data.name, Some(String::from("x")));
    assert!(locals.get(1, 1).is_none());
}

fn local_data(name: &str) -> DwarfLocalData {
    DwarfLocalData {
        name: Some(String::from(name)),
        locations: vec![LocationDescriptor {
            start: 5,
            end: None,
            storage: VariableStorage::Local(0),
        }],
        decl_line: Some(9),
        decl_column: None,
    }
}

#[test]
fn locals_have_names_and_types() {
    let mut interner = Interner::new();
    let f = interner.intern("f");
    let file = interner.intern("a.rs");
    let given = interner.intern("given");
    let subprogram = DISubprogramAttr::new(f, file, 1, None);
    let mut dwarf = DwarfLocals::new();
    dwarf.record(0, 0, local_data("x"));
    let params = vec![ValType::I32, ValType::I64];
    let decls = vec![LocalDecl { count: 2, ty: ValType::I32 }];
    assert_eq!(local_types(&params, &decls).len(), 4);
    let names = vec![None, None, Some(given)];
    let locals =
        describe_locals(0, &params, &decls, &names, &subprogram, &dwarf, &mut interner);
    assert_eq!(locals.len(), 4);
    let shown: Vec<&str> = locals
        .iter()
        .map(|local| match local {
            Some(info) => interner.as_str(info.attr.name),
            None => "",
        })
        .collect();
    assert_eq!(shown, vec!["x", "arg1", "given", "local3"]);
    let first = locals[0].as_ref().unwrap();
    assert_eq!(first.attr.line, 9);
    assert_eq!(first.attr.arg_index, Some(0));
    assert_eq!(locals[1].as_ref().unwrap().attr.arg_index, Some(1));
    assert_eq!(first.attr.ty, Some(Type::I32));
    let schedule = build_location_schedule(&locals);
    assert_eq!(schedule.len(), 1);
    assert_eq!(schedule[0].offset, 5);
    assert_eq!(schedule[0].var_index, 0);
}

#[test]
fn a_function_knows_where_it_stems_from() {
    let mut interner = Interner::new();
    let f = interner.intern("f");
    let source = || FunctionSource {
        index: 0,
        name: f,
        params: vec![ValType::I32],
        body: vec![0x00, 0x0b],
        local_names: Vec::new(),
        location: Some(SourceLocation {
            file: Some(FilePath { path: String::from("/src/a.rs"), parent: Some(String::from("/src")) }),
            line: Some(7),
            column: Some(3),
        }),
    };
    let info = build_function_debug_info(&source(), &None, &DwarfLocals::new(), &mut interner);
    assert_eq!(info.subprogram.name, f);
    assert_eq!(info.subprogram.line, 7);
    assert_eq!(info.subprogram.column, Some(3));
    assert_eq!(interner.as_str(info.subprogram.file), "/src/a.rs");
    assert!(info.local_attr(0).is_some());
    assert!(info.local_attr(1).is_none());
    let all = collect_function_debug_info(
        &vec![source(), source()],
        &None,
        &DwarfLocals::new(),
        &mut interner,
    );
    assert_eq!(all.len(), 2);
    assert_eq!(determine_location(&None), (0, None));
    let (unknown, directory) = determine_file_symbols(&None, &None, &mut interner);
    assert!(interner.as_str(unknown).len() > 0);
    assert_eq!(directory, None);
}

#[test]
fn storage_is_an_expression() {
    let mut interner = Interner::new();
    assert_eq!(
        VariableStorage::Local(3).to_expression_op(&mut interner),
        DIExpressionOp::WasmLocal(3)
    );
    let unsupported = interner.intern("unsupported");
    assert_eq!(
        VariableStorage::Unsupported.to_expression_op(&mut interner),
        DIExpressionOp::Unsupported(unsupported)
    );
    assert_eq!(VariableStorage::Local(3).as_local(), Some(3));
    assert_eq!(VariableStorage::Stack(3).as_local(), None);
}

fn sdk_path(list: &[&str], interner: &mut Interner) -> SymbolPath {
    let n = list.len();
    let mut parts = vec![SymbolNameComponent::Root];
    for (i, part) in list.iter().enumerate() {
        let symbol = interner.intern(part);
        parts.push(if i + 1 == n {
            SymbolNameComponent::Leaf(symbol)
        } else {
            SymbolNameComponent::Component(symbol)
        });
    }
    SymbolPath::from_iter(&parts)
}

#[test]
fn calls_to_the_kernel_are_adapted() {
    let mut interner = Interner::new();
    let strategy = |list: &[&str], interner: &mut Interner| {
        let path = sdk_path(list, interner);
        get_transform_strategy(&path, interner)
    };
    assert_eq!(
        strategy(&["miden", "active_account", "get_nonce"], &mut interner),
        Some(TransformStrategy::NoTransform)
    );
    assert_eq!(
        strategy(&["miden", "active_account", "get_id"], &mut interner),
        Some(TransformStrategy::ReturnViaPointer)
    );
    assert_eq!(
        strategy(&["miden", "active_note", "get_inputs"], &mut interner),
        Some(TransformStrategy::ListReturn)
    );
    assert_eq!(strategy(&["miden", "active_note", "unknown"], &mut interner), None);
}

fn import(interner: &mut Interner, results: Vec<ScalarType>) -> ImportedFunction {
    ImportedFunction { name: interner.intern("f"), span: SourceSpan::unknown(), results }
}

#[test]
fn results_are_kept_or_stored() {
    let mut interner = Interner::new();
    let address = Value { id: 100, ty: IrType::Scalar(ScalarType::I32) };
    let mut builder = FunctionBuilder::new();
    let two = import(&mut interner, vec![ScalarType::Felt, ScalarType::Felt]);
    assert_eq!(no_transform(&two, &[address], &mut builder).len(), 2);
    let listed = list_return(&two, &[address], &mut builder);
    assert_eq!(listed.len(), 1);
    let before = builder.num_steps();
    assert!(return_via_pointer(&two, &[address], &mut builder).is_empty());
    let stores = builder.steps()[before..].iter().filter(|s| matches!(s, Event::Store { .. })).count();
    assert_eq!(stores, 2);
    let path = sdk_path(&["miden", "active_account", "get_nonce"], &mut interner);
    let one = import(&mut interner, vec![ScalarType::Felt]);
    let results = transform_miden_abi_call(&one, &path, &[], &mut builder, &interner);
    assert_eq!(results.len(), 1);
}

#[test]
fn signatures_are_found_by_path() {
    let mut interner = Interner::new();
    let tables = vec![mem::signatures(&mut interner)];
    let module = mem::path_of_module(&mut interner);
    assert_eq!(find_module(&tables, &module), Some(0));
    assert!(is_miden_abi_module(&module, &tables, &Vec::new()));
    assert!(is_stdlib_path(&module, &interner));
    let known = sdk_path(&["miden", "core", "mem", mem::PIPE_WORDS_TO_MEMORY], &mut interner);
    let ty = find_function_type(&tables, &known, &interner).unwrap();
    assert_eq!(miden_stdlib_function_type(&known, &tables, &interner).params, ty.params);
    let unknown = sdk_path(&["miden", "core", "mem", "nothing"], &mut interner);
    assert!(find_function_type(&tables, &unknown, &interner).is_none());
}

#[test]
fn a_source_file_is_looked_for() {
    let missing: Option<String> = None;
    let found = Some(String::from("/p/a.rs"));
    let here = Some(String::from("./a.rs"));
    let prefixes = vec![None, Some(String::from("/p/a.rs"))];
    assert_eq!(resolve_source_path(true, &missing, &prefixes, &here), &found);
    assert_eq!(resolve_source_path(true, &missing, &Vec::new(), &here), &here);
}

#[test]
fn structures_nest() {
    let env = empty_env();
    let mut builder = FunctionBuilder::new();
    let exit = builder.create_block_with_params(&[]);
    let mut state = FuncTranslationState::new();
    state.initialize(0, exit);
    let blockty = BlockType::Empty;
    let body = vec![
        (Operator::Block { blockty }, 2),
        (Operator::Loop { blockty }, 3),
        (Operator::Br { relative_depth: 1 }, 3),
        (Operator::Block { blockty }, 4),
        (Operator::End, 3),
        (Operator::End, 2),
        (Operator::End, 1),
    ];
    let mut steps = 0;
    for (op, depth) in body {
        let span = SourceSpan::unknown();
        assert!(translate_operator(&env, &op, &mut builder, &mut state, span).is_ok());
        assert_eq!(state.control_stack.len(), depth);
        assert_eq!(state.control_stack[0].br_destination(), exit);
        assert!(builder.steps().len() > steps);
        steps = builder.steps().len();
    }
    assert!(state.reachable);
}

#[test]
fn dead_code_leaves_no_trace() {
    let env = empty_env();
    let alive = translated(
        &env,
        Vec::new(),
        Vec::new(),
        vec![Operator::Unreachable, Operator::End],
    );
    let dead = translated(
        &env,
        Vec::new(),
        Vec::new(),
        vec![
            Operator::Unreachable,
            Operator::I32Const { value: 1 },
            Operator::Drop,
            Operator::Return,
            Operator::End,
        ],
    );
    let meaningful = |function: &FunctionBuilder| {
        function.steps().iter().filter(|step| !matches!(step, Event::At(_))).count()
    };
    assert_eq!(meaningful(&alive), meaningful(&dead));
}

#[test]
fn a_module_becomes_a_component() {
    let mut interner = Interner::new();
    let own = interner.intern("own");
    let fallback = interner.intern("file");
    let wanted = interner.intern("wanted");
    let mut component = |own, wanted| {
        let names = ModuleNames { own, fallback, wanted };
        let nothing = Vec::new();
        translate_module_as_component(names, &Vec::new(), &Vec::new(), &nothing, &mut interner)
            .ok()
            .unwrap()
    };
    let made = component(None, None);
    assert_eq!((made.namespace, made.name, made.version), ("root_ns", "root", "1.0.0"));
    assert_eq!(made.module_name, fallback);
    assert!(made.module.functions.is_empty());
    assert_eq!(component(Some(own), None).module_name, own);
    assert_eq!(component(Some(own), Some(wanted)).module_name, wanted);
}

#[test]
fn large_pieces_are_refused() {
    let mut huge = vec![0x93, 0x80, 0x80, 0x80, 0x80, 0x80, 0x80, 0x80, 0x80, 0x20];
    assert_eq!(read_operations(&huge, encoding()), Err(DwarfError {}));
    huge[9] = 0x1f;
    assert_eq!(read_operations(&huge, encoding()), Ok(vec![DwarfOp::Other]));
    assert_eq!(read_operations(&[0x93, 0x08], encoding()), Ok(vec![DwarfOp::Other]));
    assert_eq!(
        read_operations(&[0xed, 0x00, 0x05, 0x93, 0x04], encoding()),
        Ok(vec![DwarfOp::WasmLocal(5), DwarfOp::Other])
    );
}

#[test]
fn locals_are_read_from_the_body() {
    let two = [0x02, 0x02, 0x7f, 0x01, 0x7e, 0x0b];
    let decls = vec![
        LocalDecl { count: 2, ty: ValType::I32 },
        LocalDecl { count: 1, ty: ValType::I64 },
    ];
    assert_eq!(readable_locals(&two), decls);
    assert_eq!(read_local_decls(&two), Ok((decls, 5)));
    let floats = [0x03, 0x01, 0x7d, 0x01, 0x7c, 0x01, 0x70];
    assert_eq!(
        readable_locals(&floats),
        vec![
            LocalDecl { count: 1, ty: ValType::F32 },
            LocalDecl { count: 1, ty: ValType::F64 },
            LocalDecl { count: 1, ty: ValType::Ref },
        ]
    );
    let broken = [0x02, 0x01, 0x40, 0x01, 0x7f];
    assert_eq!(read_local_decls(&broken), Err(UnreadableBody {}));
    assert!(readable_locals(&broken).len() < 2);
    assert!(readable_locals(&[]).is_empty());
    assert_eq!(read_local_decls(&[]), Err(UnreadableBody {}));
}

#[test]
fn operators_are_read_from_the_body() {
    let body = [
        0x01, 0x02, 0x7f, 0x20, 0x01, 0x41, 0x7b, 0x6a, 0x45, 0x48, 0x51, 0x71, 0x28, 0x02, 0x04,
        0x29, 0x03, 0x00, 0x36, 0x02, 0x08, 0x02, 0x7e, 0x0c, 0x00, 0x0e, 0x02, 0x00, 0x01, 0x00,
        0x10, 0x03, 0x1c, 0x01, 0x7e, 0x43, 0x00, 0x00, 0x00, 0x00, 0x0b,
    ];
    let ops = read_operators(&body).ok().unwrap();
    let places: Vec<usize> = ops.iter().map(|(_, at)| *at).collect();
    assert_eq!(places, vec![3, 5, 7, 8, 9, 10, 11, 12, 15, 18, 21, 23, 25, 30, 32, 35, 40]);
    assert!(matches!(ops[0].0, Operator::LocalGet { local_index: 1 }));
    assert!(matches!(ops[1].0, Operator::I32Const { value: -5 }));
    assert!(matches!(ops[2].0, Operator::I32Add));
    assert!(matches!(ops[3].0, Operator::I32Eqz));
    assert!(matches!(ops[4].0, Operator::I32LtS));
    assert!(matches!(ops[5].0, Operator::I64Eq));
    assert!(matches!(ops[6].0, Operator::I32And));
    assert!(matches!(ops[7].0, Operator::I32Load { memarg: MemArg { align: 2, offset: 4 } }));
    assert!(matches!(ops[8].0, Operator::I64Load { memarg: MemArg { align: 3, offset: 0 } }));
    assert!(matches!(ops[9].0, Operator::I32Store { memarg: MemArg { align: 2, offset: 8 } }));
    assert!(matches!(ops[10].0, Operator::Block { blockty: BlockType::Type(ValType::I64) }));
    assert!(matches!(ops[11].0, Operator::Br { relative_depth: 0 }));
    match &ops[12].0 {
        Operator::BrTable { targets, default } => {
            assert_eq!(targets, &vec![0, 1]);
            assert_eq!(*default, 0);
        }
        other => panic!("not a table: {:?}", other),
    }
    assert!(matches!(ops[13].0, Operator::Call { function_index: 3 }));
    assert!(matches!(ops[14].0, Operator::TypedSelect { ty: ValType::I64 }));
    assert!(matches!(ops[15].0, Operator::Other));
    assert!(matches!(ops[16].0, Operator::End));
    assert_eq!(read_operators(&[0x00, 0xff]).err(), Some(UnreadableBody {}));
    assert_eq!(read_operators(&[0x01, 0x01]).err(), Some(UnreadableBody {}));
}

#[test]
fn the_locals_of_a_body_are_described() {
    let mut interner = Interner::new();
    let f = interner.intern("f");
    let subprogram = DISubprogramAttr::new(f, f, 1, None);
    let locals = build_local_debug_info(
        0,
        &vec![ValType::I32],
        &[0x01, 0x02, 0x7f, 0x0b],
        &Vec::new(),
        &subprogram,
        &DwarfLocals::new(),
        &mut interner,
    );
    let names: Vec<&str> =
        locals.iter().map(|info| interner.as_str(info.as_ref().unwrap().attr.name)).collect();
    assert_eq!(names, vec!["arg0", "local1", "local2"]);
    let source = |body: Vec<u8>| FunctionSource {
        index: 0,
        name: f,
        params: Vec::new(),
        body,
        local_names: Vec::new(),
        location: None,
    };
    let mut tries = |body| {
        try_collect_function_debug_info(
            &vec![source(body)],
            &None,
            &DwarfLocals::new(),
            &mut interner,
        )
    };
    assert_eq!(tries(vec![0x01, 0x02, 0x7f, 0x0b]).unwrap()[0].locals.len(), 2);
    assert!(tries(vec![0x01, 0xff, 0xff, 0xff, 0xff, 0x0f, 0x7f, 0x0b]).is_none());
}

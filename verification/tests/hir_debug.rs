use midenc::hir::attribute_items::{AttributeItem, AttributeKey, NonZeroU32};
use midenc::hir::attributes::{ArrayAttr, Attribute, AttributeSet, AttributeValue, DictAttr, SetAttr};
use midenc::hir::builtin::{BlockBuilder, BuiltinDialect, DebugNames};
use midenc::hir::debug_attrs::{
    DICompileUnitAttr, DIExpressionAttr, DIExpressionOp, DILocalVariableAttr, DISubprogramAttr,
};
use midenc::hir::operation::{
    Block, BlockId, Operation, OperationKind, OperationName, Successor, TypedValue, ValueId,
};
use midenc::hir::print::{FileLineCol, OpFoldResult, OpPrintingFlags};
use midenc::hir::types::{AddressSpace, CallConv, Type, TypeList, TypeRepr};
use midenc::span::SourceSpan;
use midenc::symbol::Interner;
use midenc::types::Immediate;

fn make_variable(interner: &mut Interner) -> DILocalVariableAttr {
    let name = interner.intern("x");
    let file = interner.intern("main.rs");
    let mut variable = DILocalVariableAttr::new(name, file, 12, Some(7));
    variable.arg_index = Some(0);
    variable.ty = Some(Type::I32);
    variable
}

#[test]
fn dbg_value_carries_metadata() {
    let mut interner = Interner::new();
    let names = DebugNames::intern(&mut interner);
    let variable = make_variable(&mut interner);

    let mut block = Block::with_params(BlockId { index: 0 }, &vec![Type::I32], 0);
    let value = block.arguments[0].id;

    let mut builder = BlockBuilder { block: &mut block, names };
    let dbg_value = builder.dbg_value(value, variable.clone(), SourceSpan::unknown());

    assert_eq!(dbg_value.variable, variable);
    assert_eq!(block.body.len(), 1);
    let op = block.back().unwrap();
    assert_eq!(op.name, OperationName { dialect: names.dialect, opcode: names.dbg_value });
    assert_eq!(op.operands, vec![value]);
    assert_eq!(op.attrs.get::<DILocalVariableAttr>(names.variable), Some(&variable));

    let printed = op.print(&OpPrintingFlags::default(), &None, &Vec::new(), &interner);
    assert!(printed.contains("di.local_variable"));
}

#[test]
fn dbg_declare_carries_metadata() {
    let mut interner = Interner::new();
    let names = DebugNames::intern(&mut interner);
    let variable = make_variable(&mut interner);

    let mut block = Block::with_params(BlockId { index: 0 }, &vec![Type::I32], 0);
    let value = block.arguments[0].id;

    let mut builder = BlockBuilder { block: &mut block, names };
    let dbg_decl = builder.dbg_declare(value, variable.clone(), SourceSpan::unknown());

    assert_eq!(dbg_decl.variable, variable);
    let op = block.back().unwrap();
    assert_eq!(op.name, OperationName { dialect: names.dialect, opcode: names.dbg_declare });
    assert_eq!(op.operands, vec![value]);
    assert_eq!(op.attrs.get::<DILocalVariableAttr>(names.variable), Some(&variable));
}

#[test]
fn the_dialect_registers_its_operations() {
    let mut interner = Interner::new();
    let ops = BuiltinDialect::register_operations(&mut interner);
    let names: Vec<&str> = ops.iter().map(|op| interner.as_str(*op)).collect();
    assert_eq!(
        names,
        vec![
            "world",
            "component",
            "module",
            "function",
            "global_variable",
            "global_symbol",
            "segment",
            "unrealized_conversion_cast",
            "ret",
            "ret_imm",
            "dbg_value",
            "dbg_declare",
        ]
    );
}

#[test]
fn attributes_are_kept_by_name() {
    let mut interner = Interner::new();
    let a = interner.intern("a");
    let b = interner.intern("b");
    let mut attrs = AttributeSet::new();
    attrs.insert(b, Some(AttributeValue::U32(7)));
    attrs.insert(a, None);
    attrs.insert(b, Some(AttributeValue::U32(8)));
    assert_eq!(attrs.len(), 2);
    assert!(attrs.has(a));
    assert!(attrs.get_any(a).is_none());
    assert_eq!(attrs.get::<u32>(b), Some(&8));
    assert_eq!(attrs.get::<bool>(b), None);
    if let Some(n) = attrs.get_mut::<u32>(b) {
        *n = 9;
    }
    assert_eq!(attrs.get::<u32>(b), Some(&9));
    attrs.mark_intrinsic(b);
    let listed = attrs.iter();
    assert_eq!(listed.len(), 2);
    assert_eq!(listed[0].name, a);
    assert!(!listed[0].intrinsic);
    assert!(listed[1].intrinsic);
    let again = AttributeSet::from_iter(listed);
    assert!(again.eq(&attrs));
    attrs.remove(a);
    assert!(!attrs.has(a));
    assert!(!again.eq(&attrs));
}

#[test]
fn attribute_values_are_of_one_type() {
    let value = AttributeValue::Immediate(Immediate::U8(4));
    assert!(value.is::<Immediate>());
    assert!(!value.is::<u8>());
    assert_eq!(value.as_immediate(), Some(Immediate::U8(4)));
    assert_eq!(AttributeValue::U32(4).as_u32(), Some(4));
    assert_eq!(AttributeValue::Bool(true).as_bool(), Some(true));
    assert_eq!(AttributeValue::Bool(true).as_u32(), None);
    assert!(value.is_same(&value.clone_value()));
    assert!(!value.is_same(&AttributeValue::U8(4)));
    assert!(matches!(value.downcast::<bool>(), Err(AttributeValue::Immediate(Immediate::U8(4)))));
}

#[test]
fn attributes_hold_collections_and_types() {
    let mut interner = Interner::new();
    let name = interner.intern("x");
    let mut attrs = AttributeSet::new();
    let array =
        ArrayAttr::from_iter(vec![AttributeItem::U32(1), AttributeItem::Symbol(name)]);
    attrs.insert(name, Some(AttributeValue::Array(array)));
    let value = attrs.get_any(name).unwrap();
    assert_eq!(value.show(&interner), "[1, x]");
    assert!(value.clone_value().is_same(value));
    attrs.get_mut::<ArrayAttr<AttributeItem>>(name).unwrap().push(AttributeItem::Bool(true));
    assert_eq!(attrs.get::<ArrayAttr<AttributeItem>>(name).unwrap().len(), 3);
    let mut keys: SetAttr<AttributeKey> = SetAttr::new();
    assert!(keys.insert(AttributeKey::Signed(-1)));
    assert!(keys.insert(AttributeKey::Signed(2)));
    let set = AttributeValue::Keys(keys);
    assert_eq!(set.show(&interner), "{2, -1}");
    assert!(set.is_same(&set.clone_value()));
    let mut dict: DictAttr<AttributeKey, AttributeItem> = DictAttr::new();
    dict.insert(AttributeKey::Symbol(name), AttributeItem::Isize(-3));
    let dict = AttributeValue::Dict(dict);
    assert_eq!(dict.show(&interner), "{x = -3}");
    assert!(dict.is_same(&dict.clone_value()));
    assert!(!dict.is_same(&set));
    assert!(NonZeroU32::new(0).is_none());
    let five = NonZeroU32::new(5).unwrap();
    assert_eq!(five.get(), 5);
    assert_eq!(AttributeValue::NonZeroU32(five).show(&interner), "5");
    assert_eq!(AttributeValue::Usize(9).show(&interner), "9");
    let ty = AttributeValue::Type(Type::Array { element: Box::new(Type::U32), len: 4 });
    assert_eq!(ty.show(&interner), "[u32; 4]");
    assert!(ty.is::<Type>());
    assert!(ty.is_same(&ty.clone_value()));
    let scalar = AttributeValue::Type(Type::I32);
    assert_eq!(scalar.show(&interner), "i32");
    assert!(!scalar.is_same(&ty));
}

#[test]
fn collections_of_attributes_are_shown() {
    let interner = Interner::new();
    let array = ArrayAttr::from_iter(vec![1u32, 2, 3]);
    assert_eq!(array.render(&interner), "[1, 2, 3]");
    assert!(array.contains(&2));
    let mut set: SetAttr<u32> = SetAttr::new();
    assert!(set.insert(3));
    assert!(set.insert(1));
    assert!(!set.insert(3));
    assert_eq!(set.iter().len(), 2);
    assert_eq!(set.remove(&1), Some(1));
    assert_eq!(set.render(&interner), "{3}");
    let mut dict: DictAttr<u32, bool> = DictAttr::new();
    dict.insert(5, true);
    dict.insert(5, false);
    assert_eq!(dict.get(&5), Some(&false));
    assert!(!dict.contains_key(&6));
    assert_eq!(dict.remove(&5), Some(false));
}

#[test]
fn debug_attributes_are_shown() {
    let mut interner = Interner::new();
    let variable = make_variable(&mut interner);
    assert_eq!(
        variable.render(&interner),
        "di.local_variable(name = x, file = main.rs, line = 12, column = 7, arg = 0, ty = i32)"
    );
    let name = interner.intern("main");
    let file = interner.intern("main.rs");
    let subprogram = DISubprogramAttr::new(name, file, 3, None);
    let shown = subprogram.render(&interner);
    assert!(shown.starts_with("di.subprogram("));
    assert!(shown.contains("line = 3"));
    let unit = DICompileUnitAttr::new(name, file);
    assert!(unit.render(&interner).starts_with("di.compile_unit("));
    let empty = DIExpressionAttr::new();
    assert!(empty.is_empty());
    let expression = DIExpressionAttr::with_ops(vec![
        DIExpressionOp::WasmLocal(4),
        DIExpressionOp::PlusUConst(8),
        DIExpressionOp::Deref,
    ]);
    assert!(!expression.is_same(&empty));
    assert!(expression.is_same(&expression.duplicate()));
    assert!(expression.render(&interner).starts_with("di.expression("));
}

#[test]
fn an_operation_is_printed() {
    let mut interner = Interner::new();
    let dialect = interner.intern("arith");
    let opcode = interner.intern("add");
    let overflow = interner.intern("overflow");
    let inlined = interner.intern("inline");
    let mut attrs = AttributeSet::new();
    attrs.insert(overflow, Some(AttributeValue::Bool(true)));
    attrs.set(Attribute::intrinsic(inlined, None));
    let op = Operation {
        name: OperationName { dialect, opcode },
        kind: OperationKind::Plain,
        operands: vec![ValueId { index: 1 }, ValueId { index: 2 }],
        results: vec![TypedValue { id: ValueId { index: 3 }, ty: Type::U32 }],
        attrs,
        span: SourceSpan::unknown(),
    };
    let flags = OpPrintingFlags::default();
    let printed = op.print(&flags, &None, &Vec::new(), &interner);
    assert!(printed.starts_with("v3 = arith.add v1, v2 : u32"));
    assert!(printed.contains("overflow"));
    assert!(!printed.contains("inline"));
    assert!(printed.ends_with(";"));
    let with_locations =
        OpPrintingFlags { print_source_locations: true, print_intrinsic_attributes: true, ..flags };
    let location = Some(FileLineCol { uri: String::from("a.rs"), line: 3, column: 4 });
    let placed = Operation { span: SourceSpan { source_id: 0, start: 1, end: 2 }, ..op };
    let printed = placed.print(&with_locations, &location, &Vec::new(), &interner);
    assert!(printed.contains("inline"));
    assert!(printed.contains("#loc(\"a.rs\":3:4)"));
}

#[test]
fn a_branch_is_printed_with_its_targets() {
    let mut interner = Interner::new();
    let dialect = interner.intern("cf");
    let opcode = interner.intern("cond_br");
    let op = Operation {
        name: OperationName { dialect, opcode },
        kind: OperationKind::Branch(vec![
            Successor {
                block: BlockId { index: 1 },
                produced: 0,
                operands: vec![Some(ValueId { index: 4 })],
            },
            Successor { block: BlockId { index: 2 }, produced: 0, operands: vec![None] },
        ]),
        operands: vec![ValueId { index: 0 }],
        results: Vec::new(),
        attrs: AttributeSet::new(),
        span: SourceSpan::unknown(),
    };
    let printed = op.print(&OpPrintingFlags::default(), &None, &Vec::new(), &interner);
    assert!(printed.starts_with("cf.cond_br v0"));
    assert!(printed.contains("^block1(v4)"));
    assert!(printed.contains("^block2(<unlinked>)"));
}

#[test]
fn a_folded_result_is_printed() {
    let interner = Interner::new();
    assert_eq!(OpFoldResult::Value(ValueId { index: 6 }).print(&interner), "v6");
    assert_eq!(OpFoldResult::Attribute(AttributeValue::U32(6)).print(&interner), "6");
}

fn pointer(space: AddressSpace, pointee: Type) -> Type {
    Type::Ptr { space, pointee: Box::new(pointee) }
}

fn structure(repr: TypeRepr, fields: Vec<Type>) -> Type {
    Type::Struct { repr, fields: TypeList::of(fields) }
}

#[test]
fn types_are_shown_with_what_they_are_made_of() {
    let bytes = pointer(AddressSpace::Byte, Type::U8);
    assert_eq!(bytes.render(), "ptr<byte, u8>");
    let elements = pointer(AddressSpace::Element, bytes.clone());
    assert_eq!(elements.render(), "ptr<element, ptr<byte, u8>>");
    assert!(bytes.is_same(&bytes.clone()));
    assert!(!bytes.is_same(&elements));
    assert!(!bytes.is_same(&pointer(AddressSpace::Element, Type::U8)));
    let array = Type::Array { element: Box::new(Type::Felt), len: 4 };
    assert_eq!(array.render(), "[felt; 4]");
    assert_eq!(Type::List(Box::new(array.clone())).render(), "list<[felt; 4]>");
    assert!(!array.is_same(&Type::Array { element: Box::new(Type::Felt), len: 5 }));
    assert_eq!(Type::Unknown.render(), "?");
    assert_eq!(Type::Never.render(), "!");
    assert_eq!(Type::U256.render(), "u256");

    let pair = structure(TypeRepr::Default, vec![Type::U32, bytes.clone()]);
    assert_eq!(pair.render(), "struct {u32, ptr<byte, u8>}");
    assert_eq!(structure(TypeRepr::Default, Vec::new()).render(), "struct {}");
    let aligned = structure(TypeRepr::Align(16), vec![Type::I64]);
    assert_eq!(aligned.render(), "struct #[repr(align(16))] {i64}");
    let packed = structure(TypeRepr::Packed(1), vec![Type::I1]);
    assert_eq!(packed.render(), "struct #[repr(packed(1))] {i1}");
    let transparent = structure(TypeRepr::Transparent, vec![Type::I8]);
    assert_eq!(transparent.render(), "struct #[repr(transparent)] {i8}");
    let swapped = structure(TypeRepr::BigEndian, vec![Type::I16]);
    assert_eq!(swapped.render(), "struct #[repr(big-endian)] {i16}");
    assert!(pair.is_same(&pair.clone()));
    assert!(!pair.is_same(&structure(TypeRepr::Default, vec![Type::U32])));

    let function = Type::Function {
        cc: CallConv::SystemV,
        params: TypeList::of(vec![Type::I32, pair]),
        results: TypeList::of(vec![Type::Felt, Type::I128]),
    };
    assert_eq!(
        function.render(),
        "extern \"C\" fn(i32, struct {u32, ptr<byte, u8>}) -> felt, i128"
    );
    let start = Type::Function {
        cc: CallConv::CanonLift,
        params: TypeList::of(Vec::new()),
        results: TypeList::of(Vec::new()),
    };
    assert_eq!(start.render(), "extern \"canon-lift\" fn()");
    assert!(!function.is_same(&start));
}

#[test]
fn results_of_compound_types_are_printed() {
    let mut interner = Interner::new();
    let dialect = interner.intern("hir");
    let opcode = interner.intern("load");
    let results = vec![
        TypedValue { id: ValueId { index: 1 }, ty: pointer(AddressSpace::Byte, Type::Felt) },
        TypedValue {
            id: ValueId { index: 2 },
            ty: structure(TypeRepr::Default, vec![Type::U64, Type::F64]),
        },
    ];
    let op = Operation {
        name: OperationName { dialect, opcode },
        kind: OperationKind::Plain,
        operands: Vec::new(),
        results,
        attrs: AttributeSet::new(),
        span: SourceSpan::unknown(),
    };
    let printed = op.print(&OpPrintingFlags::default(), &None, &Vec::new(), &interner);
    assert_eq!(printed, "v1, v2 = hir.load  : ptr<byte, felt>, struct {u64, f64};");
    let mut variable = make_variable(&mut interner);
    variable.ty = Some(pointer(AddressSpace::Element, Type::Felt));
    assert!(variable.render(&interner).ends_with("arg = 0, ty = ptr<element, felt>)"));
    assert!(variable.is_same(&variable.clone()));
    let items = vec![AttributeItem::Type(Type::Array { element: Box::new(Type::U8), len: 2 })];
    let array = AttributeValue::Array(ArrayAttr::from_iter(items));
    assert_eq!(array.show(&interner), "[[u8; 2]]");
    assert!(array.is_same(&array.clone_value()));
}

#[test]
fn produced_values_are_counted_but_not_printed() {
    let mut interner = Interner::new();
    let dialect = interner.intern("cf");
    let opcode = interner.intern("br");
    let mut op = Operation {
        name: OperationName { dialect, opcode },
        kind: OperationKind::Branch(vec![
            Successor { block: BlockId { index: 1 }, produced: 2, operands: Vec::new() },
            Successor { block: BlockId { index: 2 }, produced: 0, operands: Vec::new() },
            Successor {
                block: BlockId { index: 3 },
                produced: 1,
                operands: vec![Some(ValueId { index: 8 })],
            },
        ]),
        operands: Vec::new(),
        results: Vec::new(),
        attrs: AttributeSet::new(),
        span: SourceSpan::unknown(),
    };
    let printed = op.print(&OpPrintingFlags::default(), &None, &Vec::new(), &interner);
    assert!(printed.contains("^block1(), ^block2, ^block3(v8)"));
    op.kind = OperationKind::Plain;
    assert_eq!(op.print(&OpPrintingFlags::default(), &None, &Vec::new(), &interner), "cf.br ;");
}

use midenc::compile::debug_info::{
    build_debug_info_sections, BlockOp, ComponentPart, DebugInfoBuilder, FunctionInfo, Subprogram,
    Variable,
};
use midenc::compile::debug_types::{
    is_component_felt_type_name, is_component_word_type_name, DebugPrimitiveType, DebugType,
    DebugTypesSection, StructField, Type,
};
use midenc::hir::sorted::SortedMap;
use midenc::sorting::sort;
use midenc::text::{
    comes_before, join, push_decimal, push_signed, push_wide, push_wide_signed, same_text, split,
};
use midenc::types::{field_offsets, Immediate, ScalarType};

#[test]
fn numbers_are_written() {
    let mut out = String::new();
    push_decimal(&mut out, 0);
    push_decimal(&mut out, u64::MAX);
    push_signed(&mut out, i64::MIN);
    assert_eq!(out, "018446744073709551615-9223372036854775808");
    let mut wide = String::new();
    push_wide(&mut wide, u128::MAX);
    assert_eq!(wide, u128::MAX.to_string());
    let mut signed = String::new();
    push_wide_signed(&mut signed, i128::MIN);
    assert_eq!(signed, i128::MIN.to_string());
}

#[test]
fn texts_are_split_and_joined() {
    let pieces = split("a::b::::c", "::");
    assert_eq!(pieces, vec!["a", "b", "", "c"]);
    assert_eq!(join(&pieces, "::"), "a::b::::c");
    assert_eq!(split("", "::"), vec![""]);
    assert!(same_text("a", "a"));
    assert!(!same_text("a", "ab"));
    assert!(comes_before("a", "b"));
    assert!(comes_before("a", "ab"));
    assert!(!comes_before("b", "ab"));
    assert!(!comes_before("a", "a"));
}

#[test]
fn numbers_are_sorted() {
    assert_eq!(sort(&vec![3, 1, 2, 1]), vec![1, 1, 2, 3]);
}

#[test]
fn a_map_is_in_order() {
    let mut map: SortedMap<u32, bool, false> = SortedMap::new();
    assert!(map.insert(5, true));
    assert!(map.insert(2, false));
    assert!(!map.insert(5, false));
    assert_eq!(map.at(0), (2, &false));
    assert_eq!(map.at(1), (5, &false));
    assert_eq!(map.find(2), Some(0));
    assert_eq!(map.remove(9), None);
    assert_eq!(map.take_first(), Some((2, false)));
    assert_eq!(map.len(), 1);
    let mut down: SortedMap<u32, bool, true> = SortedMap::new();
    down.insert(1, true);
    down.insert(2, true);
    assert_eq!(down.at(0).0, 2);
}

#[test]
fn types_have_sizes() {
    assert_eq!(ScalarType::U64.size_in_felts(), 2);
    assert_eq!(ScalarType::U64.size_in_bytes(), 8);
    assert_eq!(field_offsets(&vec![ScalarType::U8, ScalarType::U32]), vec![0, 4]);
    assert_eq!(Immediate::I64(5).ty(), ScalarType::I64);
    assert!(Immediate::U8(1).is_not_zero());
    assert_eq!(Immediate::U32(7).as_u32(), Some(7));
}

#[test]
fn debug_types_are_added_once() {
    let mut section = DebugTypesSection::new();
    assert!(section.is_empty());
    let felt = section.add_primitive_type(DebugPrimitiveType::Felt);
    assert_eq!(section.add_type(&Type::Felt), felt);
    let pointer = section.add_type(&Type::Ptr(Box::new(Type::Felt)));
    assert_eq!(section.add_type(&Type::Ptr(Box::new(Type::Felt))), pointer);
    assert!(matches!(section.types[pointer], DebugType::Pointer(at) if at == felt));
    let array = section.add_type(&Type::Array(Box::new(Type::U32), 3));
    assert_eq!(section.debug_type_size(array), 12);
    assert_eq!(section.debug_type_size(felt), 8);
    let point = Type::Struct {
        name: Some(String::from("Point")),
        fields: vec![
            StructField { name: Some(String::from("x")), ty: Type::U32, offset: 0 },
            StructField { name: Some(String::from("y")), ty: Type::U32, offset: 4 },
        ],
        size: 8,
    };
    let at = section.add_type(&point);
    match &section.types[at] {
        DebugType::Struct { name, fields, .. } => {
            assert_eq!(section.strings[*name], "Point");
            assert_eq!(fields.len(), 2);
            assert_eq!(section.strings[fields[1].name], "y");
        }
        _ => panic!("not a struct"),
    }
    assert_eq!(DebugPrimitiveType::Word.size_in_bytes(), 32);
}

#[test]
fn felts_and_words_are_known_by_name() {
    assert!(is_component_felt_type_name("miden:base/core-types@1.0.0/felt"));
    assert!(is_component_word_type_name("miden:base/core-types@1.0.0/word"));
    assert!(!is_component_felt_type_name("miden:base/core-types@1.0.0/word"));
    assert!(!is_component_word_type_name("word2"));
}

fn variable(name: &str) -> Variable {
    Variable {
        name: String::from(name),
        ty: Some(Type::U32),
        line: 4,
        column: Some(2),
        arg_index: None,
    }
}

fn subprogram() -> Subprogram {
    Subprogram {
        name: String::from("f"),
        linkage_name: None,
        file: String::from("a.rs"),
        line: 3,
        column: None,
        ty: None,
        param_names: Vec::new(),
    }
}

#[test]
fn files_are_known_by_place() {
    let mut builder = DebugInfoBuilder::new();
    assert!(builder.is_empty());
    let a = builder.add_file("a.rs", None);
    let b = builder.add_file("b.rs", Some("/src"));
    assert_eq!(builder.add_file("a.rs", None), a);
    assert_ne!(a, b);
    let sections = builder.build();
    assert_eq!(sections.files.len(), 2);
}

#[test]
fn variables_are_collected_from_nested_blocks() {
    let nested = BlockOp { variable: Some(variable("inner")), regions: Vec::new() };
    let body = vec![
        BlockOp { variable: Some(variable("outer")), regions: Vec::new() },
        BlockOp { variable: None, regions: vec![vec![nested]] },
    ];
    let component = vec![
        ComponentPart::Module(vec![FunctionInfo { subprogram: Some(subprogram()), body }]),
        ComponentPart::Function(FunctionInfo { subprogram: None, body: Vec::new() }),
        ComponentPart::Other,
    ];
    assert!(build_debug_info_sections(&component, false).is_none());
    let sections = build_debug_info_sections(&component, true).unwrap();
    assert_eq!(sections.functions.len(), 1);
    let function = &sections.functions[0];
    assert_eq!(sections.function_names[function.name], "f");
    assert_eq!(function.line, 3);
    let names: Vec<&str> =
        function.variables.iter().map(|v| sections.function_names[v.name].as_str()).collect();
    assert_eq!(names, vec!["outer", "inner"]);
    assert!(build_debug_info_sections(&Vec::new(), true).is_none());
}

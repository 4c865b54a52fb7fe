use midenc::hir::component_symbol::SymbolNameComponents;
use midenc::hir::library_path::sanitize_component;
use midenc::hir::path::{FunctionIdent, InvalidSymbolPathError, SymbolNameComponent, SymbolPath};
use midenc::symbol::{Interner, Symbol};

fn parse(text: &str, interner: &mut Interner) -> Result<SymbolNameComponents, InvalidSymbolPathError> {
    let symbol = interner.intern(text);
    SymbolNameComponents::from_component_model_symbol(symbol, interner)
}

fn error_of(text: &str) -> InvalidSymbolPathError {
    let mut interner = Interner::new();
    match parse(text, &mut interner) {
        Ok(_) => panic!("accepted: {}", text),
        Err(error) => error,
    }
}

fn components(list: &[&str], interner: &mut Interner) -> Vec<SymbolNameComponent> {
    let mut out: Vec<SymbolNameComponent> = Vec::new();
    for (i, part) in list.iter().enumerate() {
        if *part == "::" {
            out.push(SymbolNameComponent::Root);
        } else if i + 1 == list.len() {
            out.push(SymbolNameComponent::Leaf(interner.intern(part)));
        } else {
            out.push(SymbolNameComponent::Component(interner.intern(part)));
        }
    }
    out
}

fn path(list: &[&str], interner: &mut Interner) -> SymbolPath {
    let list = components(list, interner);
    match SymbolPath::new(&list) {
        Ok(path) => path,
        Err(error) => panic!("not a path: {:?}", error),
    }
}

#[test]
fn interning_is_stable() {
    let mut interner = Interner::new();
    let a = interner.intern("a");
    let b = interner.intern("b");
    assert_ne!(a, b);
    assert_eq!(interner.intern("a"), a);
    assert_eq!(interner.as_str(a), "a");
    assert_eq!(interner.find("b"), Some(b));
    assert_eq!(interner.find("c"), None);
    assert_eq!(interner.as_str(Symbol::empty()), "");
}

#[test]
fn qualified_symbols_are_taken_apart() {
    let mut interner = Interner::new();
    let parts = parse("miden:base/account/types@1.0.0", &mut interner).ok().unwrap();
    assert!(parts.absolute);
    assert_eq!(parts.parts, vec![String::from("miden:base"), String::from("account")]);
    assert_eq!(parts.name, "types");
    let package = parse("wasi:clocks@0.2.0", &mut interner).ok().unwrap();
    assert!(package.parts.is_empty());
    assert_eq!(package.name, "wasi:clocks");
    let plain = parse("memcpy", &mut interner).ok().unwrap();
    assert!(!plain.absolute);
    assert_eq!(plain.name, "memcpy");
}

#[test]
fn malformed_symbols_are_refused() {
    assert_eq!(error_of(":base"), InvalidSymbolPathError::InvalidFormat);
    assert_eq!(error_of("miden:"), InvalidSymbolPathError::InvalidFormat);
    assert_eq!(error_of("miden:base/"), InvalidSymbolPathError::InvalidFormat);
    assert_eq!(error_of("base/account"), InvalidSymbolPathError::MissingPackage);
    assert_eq!(error_of("base@1.0"), InvalidSymbolPathError::UnexpectedVersion);
    assert_eq!(
        error_of("miden:base!"),
        InvalidSymbolPathError::UnexpectedToken { token: '!', pos: 10 }
    );
    assert_eq!(
        error_of("miden:base/account:x"),
        InvalidSymbolPathError::UnexpectedToken { token: ':', pos: 18 }
    );
}

#[test]
fn the_parts_of_a_symbol_come_in_order() {
    let mut interner = Interner::new();
    let mut parts = parse("miden:base/account", &mut interner).ok().unwrap();
    assert_eq!(parts.next(&mut interner), Some(SymbolNameComponent::Root));
    let package = interner.intern("miden:base");
    let account = interner.intern("account");
    assert_eq!(parts.next(&mut interner), Some(SymbolNameComponent::Component(package)));
    assert_eq!(parts.next(&mut interner), Some(SymbolNameComponent::Leaf(account)));
    assert_eq!(parts.next(&mut interner), None);
}

#[test]
fn a_path_has_its_root_first_and_its_leaf_last() {
    let mut interner = Interner::new();
    let leaf = SymbolNameComponent::Leaf(interner.intern("f"));
    let module = SymbolNameComponent::Component(interner.intern("m"));
    let root = SymbolNameComponent::Root;
    assert!(matches!(SymbolPath::new(&Vec::new()), Err(InvalidSymbolPathError::Empty)));
    assert!(matches!(
        SymbolPath::new(&vec![module, root, leaf]),
        Err(InvalidSymbolPathError::UnexpectedRootPlacement)
    ));
    assert!(matches!(
        SymbolPath::new(&vec![leaf, module]),
        Err(InvalidSymbolPathError::UnexpectedTrailingComponents)
    ));
    assert!(SymbolPath::new(&vec![root, module, leaf]).is_ok());
}

#[test]
fn a_path_is_shown_and_taken_apart() {
    let mut interner = Interner::new();
    let absolute = path(&["::", "a", "b", "f"], &mut interner);
    assert!(absolute.is_absolute());
    assert!(absolute.has_parent());
    assert_eq!(absolute.render(&interner), "a/b/f");
    assert_eq!(absolute.name(), interner.intern("f"));
    assert_eq!(absolute.namespace(), Some(interner.intern("a")));
    assert_eq!(absolute.components().len(), 4);
    let parent = absolute.parent().unwrap();
    assert_eq!(parent.render(&interner), "a/b");
    assert!(parent.is_prefix_of(&absolute));
    assert!(!absolute.is_prefix_of(&parent));
    let relative = path(&["f"], &mut interner);
    assert!(!relative.is_absolute());
    assert!(!relative.has_parent());
    assert_eq!(relative.render(&interner), "f");
}

#[test]
fn a_path_is_a_prefix_of_itself() {
    let mut interner = Interner::new();
    let a = path(&["::", "a", "f"], &mut interner);
    let same = path(&["::", "a", "f"], &mut interner);
    let other = path(&["::", "b", "f"], &mut interner);
    assert!(a.is_prefix_of(&same));
    assert!(!a.is_prefix_of(&other));
    assert!(a == same);
    assert!(a != other);
    assert!(a.is_prefixed_by(&vec![SymbolNameComponent::Root]));
    assert!(!a.is_prefixed_by(&vec![SymbolNameComponent::Leaf(interner.intern("a"))]));
}

#[test]
fn paths_are_ordered_by_their_parts() {
    let mut interner = Interner::new();
    let f = SymbolNameComponent::Component(interner.intern("f"));
    let g = SymbolNameComponent::Component(interner.intern("g"));
    let leaf = SymbolNameComponent::Leaf(interner.intern("a"));
    assert!(SymbolNameComponent::Root < f);
    assert!(f < g);
    assert!(f < leaf);
    assert!(!(g < f));
}

#[test]
fn the_name_of_a_path_can_be_set() {
    let mut interner = Interner::new();
    let g = interner.intern("g");
    let mut changed = path(&["::", "a", "f"], &mut interner);
    changed.set_name(g);
    assert_eq!(changed.render(&interner), "a/g");
    assert_eq!(changed.without_leaf().render(&interner), "a");
}

#[test]
fn identifiers_of_the_assembler_are_read() {
    let mut interner = Interner::new();
    let module = SymbolPath::from_masm_module_id("std::math::u64", &mut interner);
    assert_eq!(module.components().len(), 4);
    assert!(module.is_absolute());
    let id = FunctionIdent {
        module: interner.intern("std::math::u64"),
        function: interner.intern("checked_add"),
    };
    let function = SymbolPath::from_masm_function_id(id, &mut interner);
    assert_eq!(function.render(&interner), "std/math/u64/checked_add");
    assert_eq!(interner.as_str(function.name()), "checked_add");
}

#[test]
fn names_become_identifiers() {
    assert_eq!(sanitize_component("a:b/c@1.0.0#some-function"), "some_function");
    assert_eq!(sanitize_component("a:b/c@1.0.0"), "a_b_c");
    assert_eq!(sanitize_component("plain"), "plain");
}

#[test]
fn library_paths_go_through_the_assembler() {
    let mut interner = Interner::new();
    let relative = path(&["miden:base/account@1.0.0", "receive-asset"], &mut interner);
    assert_eq!(relative.library_source(&interner), "miden_base_account::receive_asset");
    let out = relative.to_library_path(&interner);
    assert!(out.ends_with("miden_base_account::receive_asset"));
    // An absolute path stays one, which its text alone does not show.
    let absolute = path(&["::", "std", "mem"], &mut interner);
    assert_eq!(absolute.library_source(&interner), "std::mem");
    assert_eq!(absolute.to_library_path(&interner), "::std::mem");
    let nested = path(&["::", "root", "intrinsics", "mem"], &mut interner);
    assert_eq!(nested.library_source(&interner), "intrinsics::mem");
    assert_eq!(nested.try_to_library_path(&interner), Some(String::from("::intrinsics::mem")));
}

#[test]
fn an_invalid_library_path_is_refused() {
    let mut interner = Interner::new();
    let long = "x".repeat(300);
    let bad = path(&[long.as_str(), "f"], &mut interner);
    assert!(bad.try_to_library_path(&interner).is_none());
    let good = path(&["x", "f"], &mut interner);
    assert!(good.try_to_library_path(&interner).is_some());
}

#[test]
fn symbols_become_names_and_paths() {
    let mut interner = Interner::new();
    let parts = parse("miden:base/account@1.0.0", &mut interner).ok().unwrap();
    assert_eq!(parts.len(), 3);
    let name = parts.into_symbol_name(&mut interner).unwrap();
    assert_eq!(interner.as_str(name), "miden:base/account");
    let parts = parse("miden:base/account", &mut interner).ok().unwrap();
    let path = parts.into_symbol_path(&mut interner).unwrap();
    assert!(path.is_absolute());
    assert_eq!(path.render(&interner), "miden:base/account");
    let mut local = parse("foo", &mut interner).ok().unwrap();
    assert_eq!(local.len(), 1);
    assert!(local.next(&mut interner).is_some());
    assert_eq!(local.len(), 0);
    let local = parse("foo", &mut interner).ok().unwrap();
    assert!(!local.into_symbol_path(&mut interner).unwrap().is_absolute());
}

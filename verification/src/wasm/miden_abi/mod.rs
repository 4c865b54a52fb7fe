//! The interface of the standard library and of the transaction kernel of Miden.
use vstd::prelude::*;
use crate::hir::path::{SymbolNameComponent, SymbolPath};
use crate::symbol::Interner;
use crate::text::same_text;
use crate::wasm::miden_abi::signature::{find_function_type, find_module, FunctionType, ModuleSignatures};

pub mod blake3;
pub mod mem;
pub mod results;
pub mod rpo;
pub mod rpo_falcon512;
pub mod sha256;
pub mod signature;
pub mod strategies;
pub mod transform;

verus! {

/// The path leads into the standard library: into `::std`, or into `::miden::core`.
pub open spec fn in_stdlib(path: Seq<SymbolNameComponent>, interner: &Interner) -> bool {
    &&& path.len() > 1
    &&& path[0] is Root
    &&& (path[1] is Component && interner.text(path[1].symbol()) == "std"@) || (path.len() > 2
        && interner.text(path[1].symbol()) == "miden"@ && interner.text(path[2].symbol())
        == "core"@)
}

/// Whether the path leads into the standard library.
pub fn is_stdlib_path(path: &SymbolPath, interner: &Interner) -> (b: bool)
    requires
        path.known(interner),
    ensures
        b == in_stdlib(path.path@, interner),
{
    let components = path.components();
    if components.len() < 2 || !components[0].is_root() {
        return false;
    }
    assert(interner.knows(path.path@[1].symbol()));
    let second = interner.as_str(components[1].as_symbol_name());
    if !components[1].is_leaf() && !components[1].is_root() && same_text(second, "std") {
        return true;
    }
    if components.len() < 3 {
        return false;
    }
    assert(interner.knows(path.path@[2].symbol()));
    let third = interner.as_str(components[2].as_symbol_name());
    same_text(second, "miden") && same_text(third, "core")
}

/// Whether the path leads into a module of the standard library or of the transaction kernel.
pub fn is_miden_abi_module(
    path: &SymbolPath,
    stdlib: &Vec<ModuleSignatures>,
    tx_kernel: &Vec<ModuleSignatures>,
) -> (b: bool)
    ensures
        b == (signature::module_at(stdlib@, signature::module_of(path.path@), 0) is Some
            || signature::module_at(tx_kernel@, signature::module_of(path.path@), 0) is Some),
{
    let path_of_module = path.without_leaf();
    find_module(stdlib, &path_of_module).is_some() || find_module(tx_kernel, &path_of_module).is_some()
}

/// The type of the function at the given path: from the standard library if the path leads
/// there, else from the transaction kernel.
pub fn miden_abi_function_type<'a>(
    path: &SymbolPath,
    stdlib: &'a Vec<ModuleSignatures>,
    tx_kernel: &'a Vec<ModuleSignatures>,
    interner: &Interner,
) -> (ty: &'a FunctionType)
    requires
        path.known(interner),
        path.path@.len() > 0,
        path.path@.last() is Leaf,
        in_stdlib(path.path@, interner) ==> signature::type_at(stdlib@, path.path@, interner) is Some,
        !in_stdlib(path.path@, interner) ==> signature::type_at(
            tx_kernel@,
            path.path@,
            interner,
        ) is Some,
    ensures
        Some(*ty) == if in_stdlib(path.path@, interner) {
            signature::type_at(stdlib@, path.path@, interner)
        } else {
            signature::type_at(tx_kernel@, path.path@, interner)
        },
{
    if is_stdlib_path(path, interner) {
        miden_stdlib_function_type(path, stdlib, interner)
    } else {
        miden_sdk_function_type(path, tx_kernel, interner)
    }
}

/// The type of the function of the transaction kernel at the given path.
pub fn miden_sdk_function_type<'a>(
    path: &SymbolPath,
    tx_kernel: &'a Vec<ModuleSignatures>,
    interner: &Interner,
) -> (ty: &'a FunctionType)
    requires
        path.known(interner),
        path.path@.len() > 0,
        path.path@.last() is Leaf,
        signature::type_at(tx_kernel@, path.path@, interner) is Some,
    ensures
        Some(*ty) == signature::type_at(tx_kernel@, path.path@, interner),
{
    find_function_type(tx_kernel, path, interner).unwrap()
}

/// The type of the function of the standard library at the given path.
pub fn miden_stdlib_function_type<'a>(
    path: &SymbolPath,
    stdlib: &'a Vec<ModuleSignatures>,
    interner: &Interner,
) -> (ty: &'a FunctionType)
    requires
        path.known(interner),
        path.path@.len() > 0,
        path.path@.last() is Leaf,
        signature::type_at(stdlib@, path.path@, interner) is Some,
    ensures
        Some(*ty) == signature::type_at(stdlib@, path.path@, interner),
{
    find_function_type(stdlib, path, interner).unwrap()
}

} // verus!

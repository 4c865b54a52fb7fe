//! The signatures of BLAKE3.
use vstd::prelude::*;
use crate::hir::path::{self, SymbolNameComponent, SymbolPath};
use crate::symbol::Interner;
use crate::text;
use crate::types::ScalarType;
use crate::wasm::miden_abi::signature::{self, append, FunctionSignature, ModuleSignatures};

verus! {

pub const MODULE_ID: &'static str = "miden::core::crypto::hashes::blake3";

pub const HASH_1TO1: &'static str = "hash_1to1";

pub const HASH_2TO1: &'static str = "hash_2to1";

/// The path of the module.
pub fn path_of_module(interner: &mut Interner) -> (path: SymbolPath)
    requires
        old(interner).wf(),
        old(interner)@.len() + 64 < u32::MAX,
    ensures
        final(interner).wf(),
        final(interner).extends(old(interner)),
        final(interner)@.len() <= old(interner)@.len() + 64,
        path.known(final(interner)),
        path.parts(final(interner)) == signature::module_parts(MODULE_ID@),
{
    proof {
        reveal_strlit("miden::core::crypto::hashes::blake3");
        reveal_strlit("::");
        text::pieces_are_few(MODULE_ID@, "::"@);
    }
    SymbolPath::from_masm_module_id(MODULE_ID, interner)
}

/// The components of the path of the module.
pub fn module_prefix(interner: &mut Interner) -> (prefix: Vec<SymbolNameComponent>)
    requires
        old(interner).wf(),
        old(interner)@.len() + 64 < u32::MAX,
    ensures
        final(interner).wf(),
        final(interner).extends(old(interner)),
        final(interner)@.len() <= old(interner)@.len() + 64,
        prefix@.map_values(|c: SymbolNameComponent| path::spelled(c, final(interner)))
            == signature::module_parts(MODULE_ID@),
{
    path_of_module(interner).components()
}

/// The names, parameters and results of the functions.
pub open spec fn table() -> Seq<signature::Entry> {
    seq![
        signature::entry(HASH_1TO1@, signature::repeated(ScalarType::I32, 8), signature::repeated(ScalarType::I32, 8)),
        signature::entry(HASH_2TO1@, signature::repeated(ScalarType::I32, 16), signature::repeated(ScalarType::I32, 8)),
    ]
}

/// The signatures of the functions of the module.
pub fn signatures(interner: &mut Interner) -> (module: ModuleSignatures)
    requires
        old(interner).wf(),
        old(interner)@.len() + 64 < u32::MAX,
    ensures
        final(interner).wf(),
        final(interner).extends(old(interner)),
        final(interner)@.len() <= old(interner)@.len() + 64,
        module.path.known(final(interner)),
        module.path.parts(final(interner)) == signature::module_parts(MODULE_ID@),
        module.entries() == table(),
{
    let path = path_of_module(interner);
    let mut functions: Vec<FunctionSignature> = Vec::new();
    let mut params: Vec<ScalarType> = Vec::new();
    append(&mut params, ScalarType::I32, 8);
    let mut results: Vec<ScalarType> = Vec::new();
    append(&mut results, ScalarType::I32, 8);
    functions.push(FunctionSignature::new(HASH_1TO1, params, results));
    let mut params: Vec<ScalarType> = Vec::new();
    append(&mut params, ScalarType::I32, 16);
    let mut results: Vec<ScalarType> = Vec::new();
    append(&mut results, ScalarType::I32, 8);
    functions.push(FunctionSignature::new(HASH_2TO1, params, results));
    let module = ModuleSignatures { path, functions };
    assert(module.entries() =~~= table());
    module
}

} // verus!

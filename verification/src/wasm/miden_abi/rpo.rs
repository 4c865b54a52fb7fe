//! The signatures of RPO.
use vstd::prelude::*;
use crate::hir::path::{SymbolPath};
use crate::symbol::Interner;
use crate::text;
use crate::types::ScalarType;
use crate::wasm::miden_abi::signature::{self, append, FunctionSignature, ModuleSignatures};

verus! {

pub const MODULE_ID: &'static str = "miden::core::crypto::hashes::rpo256";

pub const HASH_MEMORY: &'static str = "hash_memory";

pub const HASH_MEMORY_WORDS: &'static str = "hash_memory_words";

/// The path of the module.
pub fn path_of_module(interner: &mut Interner) -> (path: SymbolPath)
    requires
        old(interner).wf(),
        old(interner)@.len() + 64 < u32::MAX,
    ensures
        final(interner).wf(),
        final(interner).extends(old(interner)),
        final(interner)@.len() <= old(interner)@.len() + 64,
        path.known(final(interner)),
        path.parts(final(interner)) == signature::module_parts(MODULE_ID@),
{
    proof {
        reveal_strlit("miden::core::crypto::hashes::rpo256");
        reveal_strlit("::");
        text::pieces_are_few(MODULE_ID@, "::"@);
    }
    SymbolPath::from_masm_module_id(MODULE_ID, interner)
}

/// The names, parameters and results of the functions.
pub open spec fn table() -> Seq<signature::Entry> {
    seq![
        signature::entry(HASH_MEMORY@, signature::repeated(ScalarType::I32, 2), signature::repeated(ScalarType::Felt, 4)),
        signature::entry(HASH_MEMORY_WORDS@, signature::repeated(ScalarType::I32, 2), signature::repeated(ScalarType::Felt, 4)),
    ]
}

/// The signatures of the functions of the module.
pub fn signatures(interner: &mut Interner) -> (module: ModuleSignatures)
    requires
        old(interner).wf(),
        old(interner)@.len() + 64 < u32::MAX,
    ensures
        final(interner).wf(),
        final(interner).extends(old(interner)),
        final(interner)@.len() <= old(interner)@.len() + 64,
        module.path.known(final(interner)),
        module.path.parts(final(interner)) == signature::module_parts(MODULE_ID@),
        module.entries() == table(),
{
    let path = path_of_module(interner);
    let mut functions: Vec<FunctionSignature> = Vec::new();
    let mut params: Vec<ScalarType> = Vec::new();
    append(&mut params, ScalarType::I32, 2);
    let mut results: Vec<ScalarType> = Vec::new();
    append(&mut results, ScalarType::Felt, 4);
    functions.push(FunctionSignature::new(HASH_MEMORY, params, results));
    let mut params: Vec<ScalarType> = Vec::new();
    append(&mut params, ScalarType::I32, 2);
    let mut results: Vec<ScalarType> = Vec::new();
    append(&mut results, ScalarType::Felt, 4);
    functions.push(FunctionSignature::new(HASH_MEMORY_WORDS, params, results));
    let module = ModuleSignatures { path, functions };
    assert(module.entries() =~~= table());
    module
}

} // verus!

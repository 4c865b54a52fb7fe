//! The signatures of operations on memory.
use vstd::prelude::*;
use crate::hir::path::{self, SymbolNameComponent, SymbolPath};
use crate::symbol::Interner;
use crate::text;
use crate::types::ScalarType;
use crate::wasm::miden_abi::signature::{self, append, FunctionSignature, ModuleSignatures};

verus! {

pub const MODULE_ID: &'static str = "miden::core::mem";

pub const PIPE_WORDS_TO_MEMORY: &'static str = "pipe_words_to_memory";

pub const PIPE_DOUBLE_WORDS_TO_MEMORY: &'static str = "pipe_double_words_to_memory";

pub const PIPE_PREIMAGE_TO_MEMORY: &'static str = "pipe_preimage_to_memory";

/// The path of the module.
pub fn path_of_module(interner: &mut Interner) -> (path: SymbolPath)
    requires
        old(interner).wf(),
        old(interner)@.len() + 64 < u32::MAX,
    ensures
        final(interner).wf(),
        final(interner).extends(old(interner)),
        final(interner)@.len() <= old(interner)@.len() + 64,
        path.known(final(interner)),
        path.parts(final(interner)) == signature::module_parts(MODULE_ID@),
{
    proof {
        reveal_strlit("miden::core::mem");
        reveal_strlit("::");
        text::pieces_are_few(MODULE_ID@, "::"@);
    }
    SymbolPath::from_masm_module_id(MODULE_ID, interner)
}

/// The components of the path of the module.
pub fn module_prefix(interner: &mut Interner) -> (prefix: Vec<SymbolNameComponent>)
    requires
        old(interner).wf(),
        old(interner)@.len() + 64 < u32::MAX,
    ensures
        final(interner).wf(),
        final(interner).extends(old(interner)),
        final(interner)@.len() <= old(interner)@.len() + 64,
        prefix@.map_values(|c: SymbolNameComponent| path::spelled(c, final(interner)))
            == signature::module_parts(MODULE_ID@),
{
    path_of_module(interner).components()
}

/// The names, parameters and results of the functions.
pub open spec fn table() -> Seq<signature::Entry> {
    seq![
        signature::entry(PIPE_WORDS_TO_MEMORY@, signature::repeated(ScalarType::Felt, 1) + signature::repeated(ScalarType::I32, 1), signature::repeated(ScalarType::Felt, 4) + signature::repeated(ScalarType::I32, 1)),
        signature::entry(PIPE_DOUBLE_WORDS_TO_MEMORY@, signature::repeated(ScalarType::Felt, 12) + signature::repeated(ScalarType::I32, 2), signature::repeated(ScalarType::Felt, 12) + signature::repeated(ScalarType::I32, 1)),
        signature::entry(PIPE_PREIMAGE_TO_MEMORY@, signature::repeated(ScalarType::Felt, 1) + signature::repeated(ScalarType::I32, 1) + signature::repeated(ScalarType::Felt, 4), signature::repeated(ScalarType::I32, 1)),
    ]
}

/// The signatures of the functions of the module.
pub fn signatures(interner: &mut Interner) -> (module: ModuleSignatures)
    requires
        old(interner).wf(),
        old(interner)@.len() + 64 < u32::MAX,
    ensures
        final(interner).wf(),
        final(interner).extends(old(interner)),
        final(interner)@.len() <= old(interner)@.len() + 64,
        module.path.known(final(interner)),
        module.path.parts(final(interner)) == signature::module_parts(MODULE_ID@),
        module.entries() == table(),
{
    let path = path_of_module(interner);
    let mut functions: Vec<FunctionSignature> = Vec::new();
    let mut params: Vec<ScalarType> = Vec::new();
    append(&mut params, ScalarType::Felt, 1);
    append(&mut params, ScalarType::I32, 1);
    let mut results: Vec<ScalarType> = Vec::new();
    append(&mut results, ScalarType::Felt, 4);
    append(&mut results, ScalarType::I32, 1);
    functions.push(FunctionSignature::new(PIPE_WORDS_TO_MEMORY, params, results));
    let mut params: Vec<ScalarType> = Vec::new();
    append(&mut params, ScalarType::Felt, 12);
    append(&mut params, ScalarType::I32, 2);
    let mut results: Vec<ScalarType> = Vec::new();
    append(&mut results, ScalarType::Felt, 12);
    append(&mut results, ScalarType::I32, 1);
    functions.push(FunctionSignature::new(PIPE_DOUBLE_WORDS_TO_MEMORY, params, results));
    let mut params: Vec<ScalarType> = Vec::new();
    append(&mut params, ScalarType::Felt, 1);
    append(&mut params, ScalarType::I32, 1);
    append(&mut params, ScalarType::Felt, 4);
    let mut results: Vec<ScalarType> = Vec::new();
    append(&mut results, ScalarType::I32, 1);
    functions.push(FunctionSignature::new(PIPE_PREIMAGE_TO_MEMORY, params, results));
    let module = ModuleSignatures { path, functions };
    assert(module.entries() =~~= table());
    module
}

} // verus!

//! The signatures of Falcon signatures.
use vstd::prelude::*;
use crate::hir::path::{SymbolPath};
use crate::symbol::Interner;
use crate::text;
use crate::types::ScalarType;
use crate::wasm::miden_abi::signature::{self, append, FunctionSignature, ModuleSignatures};

verus! {

pub const MODULE_ID: &'static str = "miden::core::crypto::dsa::falcon512rpo";

pub const RPO_FALCON512_VERIFY: &'static str = "verify";

/// The path of the module.
pub fn path_of_module(interner: &mut Interner) -> (path: SymbolPath)
    requires
        old(interner).wf(),
        old(interner)@.len() + 64 < u32::MAX,
    ensures
        final(interner).wf(),
        final(interner).extends(old(interner)),
        final(interner)@.len() <= old(interner)@.len() + 64,
        path.known(final(interner)),
        path.parts(final(interner)) == signature::module_parts(MODULE_ID@),
{
    proof {
        reveal_strlit("miden::core::crypto::dsa::falcon512rpo");
        reveal_strlit("::");
        text::pieces_are_few(MODULE_ID@, "::"@);
    }
    SymbolPath::from_masm_module_id(MODULE_ID, interner)
}

/// The names, parameters and results of the functions.
pub open spec fn table() -> Seq<signature::Entry> {
    seq![
        signature::entry(RPO_FALCON512_VERIFY@, signature::repeated(ScalarType::Felt, 8), Seq::empty()),
    ]
}

/// The signatures of the functions of the module.
pub fn signatures(interner: &mut Interner) -> (module: ModuleSignatures)
    requires
        old(interner).wf(),
        old(interner)@.len() + 64 < u32::MAX,
    ensures
        final(interner).wf(),
        final(interner).extends(old(interner)),
        final(interner)@.len() <= old(interner)@.len() + 64,
        module.path.known(final(interner)),
        module.path.parts(final(interner)) == signature::module_parts(MODULE_ID@),
        module.entries() == table(),
{
    let path = path_of_module(interner);
    let mut functions: Vec<FunctionSignature> = Vec::new();
    let mut params: Vec<ScalarType> = Vec::new();
    append(&mut params, ScalarType::Felt, 8);
    let mut results: Vec<ScalarType> = Vec::new();
    functions.push(FunctionSignature::new(RPO_FALCON512_VERIFY, params, results));
    let module = ModuleSignatures { path, functions };
    assert(module.entries() =~~= table());
    module
}

} // verus!

//! The transformation of calls from the conventions of WebAssembly to those of Miden.
use vstd::prelude::*;
use crate::hir::path::{SymbolNameComponent, SymbolPath};
use crate::span::SourceSpan;
use crate::symbol::{Interner, Symbol};
use crate::text::{self, same_text, split};
use crate::types::{self, field_offsets, Immediate, ScalarType};
use crate::wasm::builder::{self, Built, FunctionBuilder};
use crate::wasm::ir::{BinaryOp, Conversion, Event, IrType, Value};

verus! {

/// How the call of a function is transformed.
#[derive(Clone, Copy, PartialEq, Eq, Debug, Structural)]
pub enum TransformStrategy {
    /// The function returns a length and a pointer, and only the length is wanted.
    ListReturn,
    /// The function returns on the stack, and the results are wanted where a pointer points.
    ReturnViaPointer,
    /// The call is left as it is.
    NoTransform,
}

/// The strategies for the functions of the module `std::mem`.
pub open spec fn memory_strategy(name: Seq<char>) -> Option<TransformStrategy> {
    if name == "pipe_words_to_memory"@ || name == "pipe_double_words_to_memory"@ {
        Some(TransformStrategy::ReturnViaPointer)
    } else if name == "pipe_preimage_to_memory"@ {
        Some(TransformStrategy::NoTransform)
    } else {
        None
    }
}

fn find_memory_strategy(name: &str) -> (strategy: Option<TransformStrategy>)
    ensures
        strategy == memory_strategy(name@),
{
    if same_text(name, "pipe_words_to_memory") || same_text(name, "pipe_double_words_to_memory") {
        Some(TransformStrategy::ReturnViaPointer)
    } else if same_text(name, "pipe_preimage_to_memory") {
        Some(TransformStrategy::NoTransform)
    } else {
        None
    }
}

/// The strategies for the functions of the module of BLAKE3.
pub open spec fn blake3_strategy(name: Seq<char>) -> Option<TransformStrategy> {
    if name == "hash_1to1"@ || name == "hash_2to1"@ {
        Some(TransformStrategy::ReturnViaPointer)
    } else {
        None
    }
}

fn find_blake3_strategy(name: &str) -> (strategy: Option<TransformStrategy>)
    ensures
        strategy == blake3_strategy(name@),
{
    if same_text(name, "hash_1to1") || same_text(name, "hash_2to1") {
        Some(TransformStrategy::ReturnViaPointer)
    } else {
        None
    }
}

/// The strategies for the functions of the module of SHA256.
pub open spec fn sha256_strategy(name: Seq<char>) -> Option<TransformStrategy> {
    if name == "hash_1to1"@ || name == "hash_2to1"@ {
        Some(TransformStrategy::ReturnViaPointer)
    } else {
        None
    }
}

fn find_sha256_strategy(name: &str) -> (strategy: Option<TransformStrategy>)
    ensures
        strategy == sha256_strategy(name@),
{
    if same_text(name, "hash_1to1") || same_text(name, "hash_2to1") {
        Some(TransformStrategy::ReturnViaPointer)
    } else {
        None
    }
}

/// The strategies for the functions of the module of RPO.
pub open spec fn rpo_strategy(name: Seq<char>) -> Option<TransformStrategy> {
    if name == "hash_memory"@ || name == "hash_memory_words"@ {
        Some(TransformStrategy::ReturnViaPointer)
    } else {
        None
    }
}

fn find_rpo_strategy(name: &str) -> (strategy: Option<TransformStrategy>)
    ensures
        strategy == rpo_strategy(name@),
{
    if same_text(name, "hash_memory") || same_text(name, "hash_memory_words") {
        Some(TransformStrategy::ReturnViaPointer)
    } else {
        None
    }
}

/// The strategies for the functions of the module of Falcon signatures.
pub open spec fn falcon_strategy(name: Seq<char>) -> Option<TransformStrategy> {
    if name == "verify"@ {
        Some(TransformStrategy::NoTransform)
    } else {
        None
    }
}

fn find_falcon_strategy(name: &str) -> (strategy: Option<TransformStrategy>)
    ensures
        strategy == falcon_strategy(name@),
{
    if same_text(name, "verify") {
        Some(TransformStrategy::NoTransform)
    } else {
        None
    }
}

/// The strategies for the functions of the module of sparse Merkle trees.
pub open spec fn smt_strategy(name: Seq<char>) -> Option<TransformStrategy> {
    if name == "get"@ || name == "set"@ {
        Some(TransformStrategy::ReturnViaPointer)
    } else {
        None
    }
}

fn find_smt_strategy(name: &str) -> (strategy: Option<TransformStrategy>)
    ensures
        strategy == smt_strategy(name@),
{
    if same_text(name, "get") || same_text(name, "set") {
        Some(TransformStrategy::ReturnViaPointer)
    } else {
        None
    }
}

/// The strategies for the functions of the native account.
pub open spec fn native_account_strategy(name: Seq<char>) -> Option<TransformStrategy> {
    if name == "add_asset"@ || name == "remove_asset"@ || name == "compute_delta_commitment"@ || name == "set_item"@ || name == "set_map_item"@ {
        Some(TransformStrategy::ReturnViaPointer)
    } else if name == "incr_nonce"@ || name == "was_procedure_called"@ {
        Some(TransformStrategy::NoTransform)
    } else {
        None
    }
}

fn find_native_account_strategy(name: &str) -> (strategy: Option<TransformStrategy>)
    ensures
        strategy == native_account_strategy(name@),
{
    if same_text(name, "add_asset") || same_text(name, "remove_asset") || same_text(name, "compute_delta_commitment") || same_text(name, "set_item") || same_text(name, "set_map_item") {
        Some(TransformStrategy::ReturnViaPointer)
    } else if same_text(name, "incr_nonce") || same_text(name, "was_procedure_called") {
        Some(TransformStrategy::NoTransform)
    } else {
        None
    }
}

/// The strategies for the functions of the active account.
pub open spec fn active_account_strategy(name: Seq<char>) -> Option<TransformStrategy> {
    if name == "get_nonce"@ || name == "get_balance"@ || name == "get_initial_balance"@ || name == "get_num_procedures"@ || name == "has_non_fungible_asset"@ || name == "has_procedure"@ {
        Some(TransformStrategy::NoTransform)
    } else if name == "get_id"@ || name == "get_initial_commitment"@ || name == "get_code_commitment"@ || name == "compute_commitment"@ || name == "get_initial_storage_commitment"@ || name == "compute_storage_commitment"@ || name == "get_item"@ || name == "get_initial_item"@ || name == "get_map_item"@ || name == "get_initial_map_item"@ || name == "get_initial_vault_root"@ || name == "get_vault_root"@ || name == "get_procedure_root"@ {
        Some(TransformStrategy::ReturnViaPointer)
    } else {
        None
    }
}

fn find_active_account_strategy(name: &str) -> (strategy: Option<TransformStrategy>)
    ensures
        strategy == active_account_strategy(name@),
{
    if same_text(name, "get_nonce") || same_text(name, "get_balance") || same_text(name, "get_initial_balance") || same_text(name, "get_num_procedures") || same_text(name, "has_non_fungible_asset") || same_text(name, "has_procedure") {
        Some(TransformStrategy::NoTransform)
    } else if same_text(name, "get_id") || same_text(name, "get_initial_commitment") || same_text(name, "get_code_commitment") || same_text(name, "compute_commitment") || same_text(name, "get_initial_storage_commitment") || same_text(name, "compute_storage_commitment") || same_text(name, "get_item") || same_text(name, "get_initial_item") || same_text(name, "get_map_item") || same_text(name, "get_initial_map_item") || same_text(name, "get_initial_vault_root") || same_text(name, "get_vault_root") || same_text(name, "get_procedure_root") {
        Some(TransformStrategy::ReturnViaPointer)
    } else {
        None
    }
}

/// The strategies for the functions of assets.
pub open spec fn asset_strategy(name: Seq<char>) -> Option<TransformStrategy> {
    if name == "build_fungible_asset"@ || name == "build_non_fungible_asset"@ {
        Some(TransformStrategy::ReturnViaPointer)
    } else {
        None
    }
}

fn find_asset_strategy(name: &str) -> (strategy: Option<TransformStrategy>)
    ensures
        strategy == asset_strategy(name@),
{
    if same_text(name, "build_fungible_asset") || same_text(name, "build_non_fungible_asset") {
        Some(TransformStrategy::ReturnViaPointer)
    } else {
        None
    }
}

/// The strategies for the functions of faucets.
pub open spec fn faucet_strategy(name: Seq<char>) -> Option<TransformStrategy> {
    if name == "create_fungible_asset"@ || name == "create_non_fungible_asset"@ || name == "mint"@ || name == "burn"@ {
        Some(TransformStrategy::ReturnViaPointer)
    } else if name == "get_total_issuance"@ || name == "is_non_fungible_asset_issued"@ {
        Some(TransformStrategy::NoTransform)
    } else {
        None
    }
}

fn find_faucet_strategy(name: &str) -> (strategy: Option<TransformStrategy>)
    ensures
        strategy == faucet_strategy(name@),
{
    if same_text(name, "create_fungible_asset") || same_text(name, "create_non_fungible_asset") || same_text(name, "mint") || same_text(name, "burn") {
        Some(TransformStrategy::ReturnViaPointer)
    } else if same_text(name, "get_total_issuance") || same_text(name, "is_non_fungible_asset_issued") {
        Some(TransformStrategy::NoTransform)
    } else {
        None
    }
}

/// The strategies for the functions of the active note.
pub open spec fn active_note_strategy(name: Seq<char>) -> Option<TransformStrategy> {
    if name == "get_inputs"@ || name == "get_assets"@ {
        Some(TransformStrategy::ListReturn)
    } else if name == "get_sender"@ || name == "get_recipient"@ || name == "get_script_root"@ || name == "get_serial_number"@ || name == "get_metadata"@ {
        Some(TransformStrategy::ReturnViaPointer)
    } else if name == "add_assets_to_account"@ {
        Some(TransformStrategy::NoTransform)
    } else {
        None
    }
}

fn find_active_note_strategy(name: &str) -> (strategy: Option<TransformStrategy>)
    ensures
        strategy == active_note_strategy(name@),
{
    if same_text(name, "get_inputs") || same_text(name, "get_assets") {
        Some(TransformStrategy::ListReturn)
    } else if same_text(name, "get_sender") || same_text(name, "get_recipient") || same_text(name, "get_script_root") || same_text(name, "get_serial_number") || same_text(name, "get_metadata") {
        Some(TransformStrategy::ReturnViaPointer)
    } else if same_text(name, "add_assets_to_account") {
        Some(TransformStrategy::NoTransform)
    } else {
        None
    }
}

/// The strategies for the functions of input notes.
pub open spec fn input_note_strategy(name: Seq<char>) -> Option<TransformStrategy> {
    if name == "get_assets"@ {
        Some(TransformStrategy::ListReturn)
    } else if name == "get_assets_info"@ || name == "get_recipient"@ || name == "get_metadata"@ || name == "get_sender"@ || name == "get_inputs_info"@ || name == "get_script_root"@ || name == "get_serial_number"@ {
        Some(TransformStrategy::ReturnViaPointer)
    } else {
        None
    }
}

fn find_input_note_strategy(name: &str) -> (strategy: Option<TransformStrategy>)
    ensures
        strategy == input_note_strategy(name@),
{
    if same_text(name, "get_assets") {
        Some(TransformStrategy::ListReturn)
    } else if same_text(name, "get_assets_info") || same_text(name, "get_recipient") || same_text(name, "get_metadata") || same_text(name, "get_sender") || same_text(name, "get_inputs_info") || same_text(name, "get_script_root") || same_text(name, "get_serial_number") {
        Some(TransformStrategy::ReturnViaPointer)
    } else {
        None
    }
}

/// The strategies for the functions of output notes.
pub open spec fn output_note_strategy(name: Seq<char>) -> Option<TransformStrategy> {
    if name == "create"@ || name == "add_asset"@ {
        Some(TransformStrategy::NoTransform)
    } else if name == "get_assets"@ {
        Some(TransformStrategy::ListReturn)
    } else if name == "get_assets_info"@ || name == "get_recipient"@ || name == "get_metadata"@ {
        Some(TransformStrategy::ReturnViaPointer)
    } else {
        None
    }
}

fn find_output_note_strategy(name: &str) -> (strategy: Option<TransformStrategy>)
    ensures
        strategy == output_note_strategy(name@),
{
    if same_text(name, "create") || same_text(name, "add_asset") {
        Some(TransformStrategy::NoTransform)
    } else if same_text(name, "get_assets") {
        Some(TransformStrategy::ListReturn)
    } else if same_text(name, "get_assets_info") || same_text(name, "get_recipient") || same_text(name, "get_metadata") {
        Some(TransformStrategy::ReturnViaPointer)
    } else {
        None
    }
}

/// The strategies for the functions of the transaction.
pub open spec fn tx_strategy(name: Seq<char>) -> Option<TransformStrategy> {
    if name == "get_block_number"@ || name == "get_block_timestamp"@ || name == "get_num_input_notes"@ || name == "get_num_output_notes"@ || name == "get_expiration_block_delta"@ || name == "update_expiration_block_delta"@ {
        Some(TransformStrategy::NoTransform)
    } else if name == "get_input_notes_commitment"@ || name == "get_output_notes_commitment"@ || name == "get_block_commitment"@ {
        Some(TransformStrategy::ReturnViaPointer)
    } else {
        None
    }
}

fn find_tx_strategy(name: &str) -> (strategy: Option<TransformStrategy>)
    ensures
        strategy == tx_strategy(name@),
{
    if same_text(name, "get_block_number") || same_text(name, "get_block_timestamp") || same_text(name, "get_num_input_notes") || same_text(name, "get_num_output_notes") || same_text(name, "get_expiration_block_delta") || same_text(name, "update_expiration_block_delta") {
        Some(TransformStrategy::NoTransform)
    } else if same_text(name, "get_input_notes_commitment") || same_text(name, "get_output_notes_commitment") || same_text(name, "get_block_commitment") {
        Some(TransformStrategy::ReturnViaPointer)
    } else {
        None
    }
}

/// The names of components.
pub open spec fn names_of(components: Seq<SymbolNameComponent>, interner: &Interner) -> Seq<
    Seq<char>,
> {
    components.map_values(|c: SymbolNameComponent| interner.text(c.symbol()))
}

/// The names of the module's path come first, and a leaf follows them.
pub open spec fn leaf_of(
    components: Seq<SymbolNameComponent>,
    module: Seq<char>,
    interner: &Interner,
) -> Option<Seq<char>> {
    let names = text::pieces(module, "::"@);
    if components.len() > names.len() && names_of(components, interner).take(names.len() as int)
        == names && components[names.len() as int] is Leaf {
        Some(interner.text(components[names.len() as int].symbol()))
    } else {
        None
    }
}

/// The strategy for the function at the given path, if there is one.
pub open spec fn strategy_of(
    components: Seq<SymbolNameComponent>,
    interner: &Interner,
) -> Option<TransformStrategy> {
    if let Some(name) = leaf_of(components, "std::mem"@, interner) {
        memory_strategy(name)
    } else if let Some(name) = leaf_of(components, "std::crypto::hashes::blake3"@, interner) {
        blake3_strategy(name)
    } else if let Some(name) = leaf_of(components, "std::crypto::hashes::sha256"@, interner) {
        sha256_strategy(name)
    } else if let Some(name) = leaf_of(components, "std::crypto::hashes::rpo"@, interner) {
        rpo_strategy(name)
    } else if let Some(name) = leaf_of(components, "std::crypto::dsa::rpo_falcon512"@, interner) {
        falcon_strategy(name)
    } else if let Some(name) = leaf_of(components, "std::collections::smt"@, interner) {
        smt_strategy(name)
    } else if let Some(name) = leaf_of(components, "miden::native_account"@, interner) {
        native_account_strategy(name)
    } else if let Some(name) = leaf_of(components, "miden::active_account"@, interner) {
        active_account_strategy(name)
    } else if let Some(name) = leaf_of(components, "miden::asset"@, interner) {
        asset_strategy(name)
    } else if let Some(name) = leaf_of(components, "miden::faucet"@, interner) {
        faucet_strategy(name)
    } else if let Some(name) = leaf_of(components, "miden::active_note"@, interner) {
        active_note_strategy(name)
    } else if let Some(name) = leaf_of(components, "miden::input_note"@, interner) {
        input_note_strategy(name)
    } else if let Some(name) = leaf_of(components, "miden::output_note"@, interner) {
        output_note_strategy(name)
    } else if let Some(name) = leaf_of(components, "miden::tx"@, interner) {
        tx_strategy(name)
    } else {
        None
    }
}

/// The name of the leaf that follows the path of the module, if one does.
fn find_leaf<'a>(
    components: &Vec<SymbolNameComponent>,
    module: &str,
    interner: &'a Interner,
) -> (name: Option<&'a str>)
    requires
        forall|i: int|
            0 <= i < components@.len() ==> interner.knows((#[trigger] components@[i]).symbol()),
    ensures
        match name {
            Some(name) => leaf_of(components@, module@, interner) == Some(name@),
            None => leaf_of(components@, module@, interner) is None,
        },
{
    proof {
        reveal_strlit("::");
    }
    let names = split(module, "::");
    let ghost all = names_of(components@, interner);
    if components.len() <= names.len() {
        return None;
    }
    let mut i: usize = 0;
    while i < names.len()
        invariant
            i <= names@.len() < components@.len(),
            all == names_of(components@, interner),
            text::texts(names@) == text::pieces(module@, "::"@),
            forall|i: int|
                0 <= i < components@.len() ==> interner.knows((#[trigger] components@[i]).symbol()),
            forall|j: int| 0 <= j < i ==> all[j] == text::texts(names@)[j],
        decreases names@.len() - i,
    {
        assert(all[i as int] == interner.text(components@[i as int].symbol()));
        if !same_text(interner.as_str(components[i].as_symbol_name()), names[i].as_str()) {
            assert(all.take(names@.len() as int)[i as int] != text::texts(names@)[i as int]);
            return None;
        }
        assert(text::texts(names@)[i as int] == names@[i as int]@);
        i = i + 1;
    }
    assert(all.take(names@.len() as int) == text::texts(names@));
    let leaf = components[names.len()];
    if leaf.is_leaf() {
        Some(interner.as_str(leaf.as_symbol_name()))
    } else {
        None
    }
}

/// The strategy for the function at the given path, if there is one.
pub fn get_transform_strategy(path: &SymbolPath, interner: &Interner) -> (strategy: Option<
    TransformStrategy,
>)
    requires
        path.known(interner),
    ensures
        strategy == strategy_of(path.unrooted(), interner),
{
    let mut components = path.components();
    if components.len() > 0 && components[0].is_root() {
        let _ = components.remove(0);
        assert(components@ == path.path@.skip(1));
    }
    assert(components@ == path.unrooted());
    assert forall|i: int| 0 <= i < components@.len() implies interner.knows(
        (#[trigger] components@[i]).symbol(),
    ) by {
        if path.path@.len() > 0 && path.path@[0] is Root {
            assert(components@[i] == path.path@[i + 1]);
        } else {
            assert(components@[i] == path.path@[i]);
        }
    }
    if let Some(name) = find_leaf(&components, "std::mem", interner) {
        return find_memory_strategy(name);
    }
    if let Some(name) = find_leaf(&components, "std::crypto::hashes::blake3", interner) {
        return find_blake3_strategy(name);
    }
    if let Some(name) = find_leaf(&components, "std::crypto::hashes::sha256", interner) {
        return find_sha256_strategy(name);
    }
    if let Some(name) = find_leaf(&components, "std::crypto::hashes::rpo", interner) {
        return find_rpo_strategy(name);
    }
    if let Some(name) = find_leaf(&components, "std::crypto::dsa::rpo_falcon512", interner) {
        return find_falcon_strategy(name);
    }
    if let Some(name) = find_leaf(&components, "std::collections::smt", interner) {
        return find_smt_strategy(name);
    }
    if let Some(name) = find_leaf(&components, "miden::native_account", interner) {
        return find_native_account_strategy(name);
    }
    if let Some(name) = find_leaf(&components, "miden::active_account", interner) {
        return find_active_account_strategy(name);
    }
    if let Some(name) = find_leaf(&components, "miden::asset", interner) {
        return find_asset_strategy(name);
    }
    if let Some(name) = find_leaf(&components, "miden::faucet", interner) {
        return find_faucet_strategy(name);
    }
    if let Some(name) = find_leaf(&components, "miden::active_note", interner) {
        return find_active_note_strategy(name);
    }
    if let Some(name) = find_leaf(&components, "miden::input_note", interner) {
        return find_input_note_strategy(name);
    }
    if let Some(name) = find_leaf(&components, "miden::output_note", interner) {
        return find_output_note_strategy(name);
    }
    if let Some(name) = find_leaf(&components, "miden::tx", interner) {
        return find_tx_strategy(name);
    }
    None
}

/// A function that is imported.
pub struct ImportedFunction {
    pub name: Symbol,
    pub span: SourceSpan,
    pub results: Vec<ScalarType>,
}

/// The call of an imported function.
pub open spec fn called(b: Built, import: &ImportedFunction, args: Seq<Value>) -> (
    Built,
    Seq<Value>,
) {
    let b = b.step(Event::At(import.span), 0);
    let results = b.fresh_list(import.results@);
    (b.step(Event::Exec { callee: import.name, args, results }, import.results@.len()), results)
}

fn call(import: &ImportedFunction, args: &[Value], builder: &mut FunctionBuilder) -> (results: Vec<
    Value,
>)
    requires
        old(builder)@.next + import.results@.len() <= u32::MAX,
    ensures
        (final(builder)@, results@) == called(old(builder)@, import, args@),
{
    builder.push(Event::At(import.span));
    let results = builder.values(import.results.as_slice());
    let held = builder::copy_values(results.as_slice());
    builder.push(
        Event::Exec { callee: import.name, args: builder::copy_values(args), results: held },
    );
    assert(builder@ =~= called(old(builder)@, import, args@).0);
    results
}

/// Calls the function with the arguments as they are.
pub fn no_transform(
    import: &ImportedFunction,
    args: &[Value],
    builder: &mut FunctionBuilder,
) -> (results: Vec<Value>)
    requires
        old(builder)@.next + import.results@.len() <= u32::MAX,
    ensures
        (final(builder)@, results@) == called(old(builder)@, import, args@),
{
    call(import, args, builder)
}

/// Calls a function that returns a length and a pointer, and keeps the length.
pub fn list_return(
    import: &ImportedFunction,
    args: &[Value],
    builder: &mut FunctionBuilder,
) -> (results: Vec<Value>)
    requires
        import.results@.len() == 2,
        old(builder)@.next + import.results@.len() <= u32::MAX,
    ensures
        final(builder)@ == called(old(builder)@, import, args@).0,
        results@ == called(old(builder)@, import, args@).1.take(1),
{
    let all = call(import, args, builder);
    let mut results: Vec<Value> = Vec::new();
    results.push(all[0]);
    assert(results@ == all@.take(1));
    results
}

/// The first `n` results, stored one after the other where `ptr` points.
pub open spec fn stored(b: Built, ptr: Value, results: Seq<Value>, types: Seq<ScalarType>, n: int)
    -> Built
    decreases n,
{
    if n <= 0 {
        b
    } else {
        let i = n - 1;
        let b = stored(b, ptr, results, types, i);
        let (b, at) = if i == 0 {
            (b, ptr)
        } else {
            let (b, offset) = b.imm(Immediate::U32(types::field_offset(types, i) as u32));
            b.binary(BinaryOp::Add, ptr, offset)
        };
        let (b, addr) = b.convert(Conversion::IntToPtr, at, IrType::Ptr(types[i]));
        b.step(Event::Store { addr, value: results[i] }, 0)
    }
}

proof fn stores_take_values(
    b: Built,
    ptr: Value,
    results: Seq<Value>,
    types: Seq<ScalarType>,
    n: int,
)
    requires
        0 <= n,
    ensures
        b.next <= stored(b, ptr, results, types, n).next <= b.next + 3 * n,
    decreases n,
{
    if n > 0 {
        stores_take_values(b, ptr, results, types, n - 1);
    }
}

/// The call of a function whose results are wanted where the last argument points.
pub open spec fn called_via_pointer(b: Built, import: &ImportedFunction, args: Seq<Value>) -> Built {
    let (b, results) = called(b, import, args.drop_last());
    let b = b.step(Event::At(SourceSpan::synthetic_span()), 0);
    let (b, ptr) = b.convert(Conversion::Bitcast, args.last(), IrType::Scalar(ScalarType::U32));
    stored(b, ptr, results, import.results@, import.results@.len() as int)
}

/// Calls a function that returns on the stack, and stores the results where the last argument
/// points.
pub fn return_via_pointer(
    import: &ImportedFunction,
    args: &[Value],
    builder: &mut FunctionBuilder,
) -> (results: Vec<Value>)
    requires
        args@.len() > 0,
        args@.last().ty == IrType::Scalar(ScalarType::I32),
        import.results@.len() <= 255,
        old(builder)@.next + 4 * import.results@.len() + 1 <= u32::MAX,
    ensures
        final(builder)@ == called_via_pointer(old(builder)@, import, args@),
        results@ == Seq::<Value>::empty(),
{
    let given = vstd::slice::slice_subrange(args, 0, args.len() - 1);
    assert(given@ == args@.drop_last());
    let results = call(import, given, builder);
    let span = SourceSpan::synthetic();
    builder.push(Event::At(span));
    let ptr = builder.convert(
        Conversion::Bitcast,
        args[args.len() - 1],
        IrType::Scalar(ScalarType::U32),
    );
    let ghost start = builder@;
    let offsets = field_offsets(&import.results);
    let mut i: usize = 0;
    while i < results.len()
        invariant
            i <= results@.len() == import.results@.len() <= 255,
            offsets@.len() == results@.len(),
            forall|j: int|
                0 <= j < offsets@.len() ==> #[trigger] offsets@[j] == types::field_offset(
                    import.results@,
                    j,
                ),
            builder@ == stored(start, ptr, results@, import.results@, i as int),
            start.next + 3 * results@.len() <= u32::MAX,
        decreases results@.len() - i,
    {
        proof {
            stores_take_values(start, ptr, results@, import.results@, i as int);
        }
        let at = if i == 0 {
            ptr
        } else {
            let offset = builder.imm(Immediate::U32(offsets[i]));
            builder.binary(BinaryOp::Add, ptr, offset)
        };
        let addr = builder.convert(Conversion::IntToPtr, at, IrType::Ptr(import.results[i]));
        builder.push(Event::Store { addr, value: results[i] });
        i = i + 1;
        assert(builder@ =~= stored(start, ptr, results@, import.results@, i as int));
    }
    Vec::new()
}

/// Calls an imported function the way the strategy for its path says, and hands back the results
/// that are left.
pub fn transform_miden_abi_call(
    import: &ImportedFunction,
    path: &SymbolPath,
    args: &[Value],
    builder: &mut FunctionBuilder,
    interner: &Interner,
) -> (results: Vec<Value>)
    requires
        path.known(interner),
        old(builder)@.next + 4 * import.results@.len() + 1 <= u32::MAX,
        match strategy_of(path.unrooted(), interner) {
            Some(TransformStrategy::NoTransform) => true,
            Some(TransformStrategy::ListReturn) => import.results@.len() == 2,
            Some(TransformStrategy::ReturnViaPointer) => args@.len() > 0 && args@.last().ty
                == IrType::Scalar(ScalarType::I32) && import.results@.len() <= 255,
            None => false,
        },
    ensures
        match strategy_of(path.unrooted(), interner) {
            Some(TransformStrategy::NoTransform) => (final(builder)@, results@) == called(
                old(builder)@,
                import,
                args@,
            ),
            Some(TransformStrategy::ListReturn) => final(builder)@ == called(
                old(builder)@,
                import,
                args@,
            ).0 && results@ == called(old(builder)@, import, args@).1.take(1),
            Some(TransformStrategy::ReturnViaPointer) => final(builder)@ == called_via_pointer(
                old(builder)@,
                import,
                args@,
            ) && results@.len() == 0,
            None => true,
        },
{
    match get_transform_strategy(path, interner) {
        Some(TransformStrategy::ListReturn) => list_return(import, args, builder),
        Some(TransformStrategy::ReturnViaPointer) => return_via_pointer(import, args, builder),
        _ => no_transform(import, args, builder),
    }
}

} // verus!

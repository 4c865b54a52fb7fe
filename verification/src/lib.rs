//! A verified core for a compiler that takes WebAssembly to Miden Assembly.
pub mod compile;
pub mod hir;
pub mod masm;
pub mod operands;
pub mod pass;
pub mod session;
pub mod sorting;
pub mod span;
pub mod symbol;
pub mod text;
pub mod types;
pub mod wasm;

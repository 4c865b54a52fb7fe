//! Translation of WebAssembly functions to the intermediate representation.
pub mod accesses;
pub mod bodies;
pub mod body;
pub mod builder;
pub mod control;
pub mod debug_info;
pub mod dwarf;
pub mod dwarf_locals;
pub mod flow;
pub mod function;
pub mod ir;
pub mod meaning;
pub mod memory;
pub mod miden_abi;
pub mod module;
pub mod nesting;
pub mod numeric;
pub mod operator;
pub mod readiness;
pub mod recipe;
pub mod sizes;
pub mod skipping;
pub mod state;
pub mod storage;
pub mod structures;
pub mod translate;
pub mod variables;

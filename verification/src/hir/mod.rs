//! The intermediate representation.
pub mod attribute_items;
pub mod attributes;
pub mod builtin;
pub mod component_symbol;
pub mod debug_attrs;
pub mod library_path;
pub mod operation;
pub mod path;
pub mod print;
pub mod sorted;
pub mod types;

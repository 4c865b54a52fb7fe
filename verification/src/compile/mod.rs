//! The driver of the compiler.
pub mod compiler;
pub mod debug_info;
pub mod debug_types;
pub mod planning;
pub mod stages;

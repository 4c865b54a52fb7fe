//! The configuration of a run of the compiler.
pub mod emit;
pub mod libs;
pub mod output;
pub mod session;
pub mod target;

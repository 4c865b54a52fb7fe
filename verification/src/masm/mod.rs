//! Miden Assembly: instructions, the emulated operand stack, and the code that is emitted.
pub mod artifact;
pub mod branching;
pub mod component;
pub mod constants;
pub mod emit;
pub mod hooks;
pub mod inst;
pub mod intrinsics;
pub mod looping;
pub mod lowering;
pub mod machine;
pub mod procedure;
pub mod program;
pub mod realize;
pub mod stack;
pub mod startup;

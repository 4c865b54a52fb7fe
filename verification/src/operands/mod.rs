//! Placement of the operands of an instruction on the operand stack.
pub mod graph;
pub mod linear;
pub mod operand_set;
pub mod scc;
pub mod solution;

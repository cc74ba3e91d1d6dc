//! Operand-stack engine for a stack-machine execution-trace builder.
//!
//! The engine simulates the operand stack of a stack-based virtual machine
//! cycle by cycle and materialises every cycle's stack state into a
//! fixed-width trace matrix: sixteen equal-length columns, one per stack-top
//! slot, plus an auxiliary overflow list for logical stack positions beyond
//! the top sixteen.

mod errors;
mod felt;
pub mod laws;
pub mod model;
mod stack;

pub use errors::ExecutionError;
pub use felt::Felt;
pub use model::StackView;
pub use stack::Stack;
pub use stack::STACK_TOP_SIZE;

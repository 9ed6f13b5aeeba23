//! A virtual machine for an extended tape-based esoteric language: the
//! eight classical operators plus a subroutine mechanism (define a block
//! under a numeric slot, call it by number, return from it).
//!
//! The engine's whole observable behaviour is pinned by the step relation
//! in [`semantics`]; the executable engine in [`vm`] is proved to follow
//! it, step by step. [`parser`] turns character streams into programs,
//! [`laws`] proves the general properties of the language, and [`error`]
//! collects messages for a shell around the engine.

pub mod error;
pub mod laws;
pub mod opcode;
pub mod parser;
pub mod program;
pub mod semantics;
pub mod vm;

pub use vm::FaultKind;
pub use vm::RuntimeError;
pub use vm::Vm;

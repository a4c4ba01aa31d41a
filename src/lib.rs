//! Runtime core of a small typed scripting language: a static type checker,
//! a compact bytecode format and a stack machine that executes it.
//!
//! Floats are carried as their IEEE-754 bit patterns. Comparisons, equality
//! and integer arithmetic run inside the machine; arithmetic that needs
//! binary64 rounding is handed to the caller as a `vm::FloatTask`, and the
//! machine carries on once the caller answers it.
pub mod span;
pub mod runtime_value;
pub mod errors;
pub mod ast;
pub mod bytecode;
pub mod vm;
pub mod type_checker;

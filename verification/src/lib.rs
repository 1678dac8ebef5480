//! Compilation-context manager for an assembler that translates modules of a
//! virtual machine's assembly language into a content-addressed intermediate
//! representation.
//!
//! The context tracks a nested stack of in-progress compilation units (modules
//! holding procedures), detects structural errors (circular module imports,
//! duplicate procedure names), accumulates the transitive call graph of each
//! procedure, enforces the privilege rules of trusted (kernel) modules, and
//! finalizes a compilation into either a kernel or a code block table.

pub mod callset;
pub mod code;
pub mod context;
pub mod errors;
pub mod kernel;
pub mod laws;
pub mod library;
pub mod procedures;
pub mod tables;

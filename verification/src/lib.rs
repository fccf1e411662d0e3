//! A WebAssembly (MVP) engine: binary codec, static validator, and a
//! stack-machine runtime.
//!
//! The crate is organised as a pipeline:
//! * [`elements`] holds the module AST together with a fully specified
//!   binary codec (LEB128 primitives, sections, opcodes);
//! * [`common`] holds the bounded stack shared by the validator and the
//!   runtime.

pub mod builder;
pub mod common;
pub mod elements;
pub mod interpreter;
pub mod validation;

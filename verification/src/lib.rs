//! Guard-code generation for a hand-written disassembler.
//!
//! The crate rebuilds structured expression trees from the flat, postfix
//! disassembly expressions of a processor description, renders them to
//! parenthesized infix text, and compiles each selected constructor's
//! pattern blocks into an emitted conditional statement together with an
//! operand-format directive.  Parsing of the description itself and all
//! I/O stay outside this crate; it works on a plain, already-resolved
//! in-memory model.

pub mod model;

pub mod expr;

pub mod render;

pub mod mapper;

pub mod codegen;

pub mod select;

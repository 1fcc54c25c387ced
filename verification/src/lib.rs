//! A two-pass assembler for the SISA 16-bit instruction set.
//!
//! The library takes an already-parsed program tree, computes the layout of
//! the `.text` and `.data` sections and the value of every symbol (pass 1),
//! and then encodes every statement into a flat little-endian byte image
//! (pass 2).  Every address lives in the 16-bit address space; cursor
//! arithmetic wraps around its end.

pub mod assembler;
pub mod encoding;
pub mod flags;
pub mod machine_code_generator;
pub mod message;
pub mod node;
pub mod nodes;
pub mod span;
pub mod symbol_table;
pub mod symbol_table_builder;
pub mod tokens;

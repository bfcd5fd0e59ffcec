//! Static binary translation of programs for a small 8-bit virtual machine
//! into x86-64 machine code, with an annotated listing of what was emitted.

pub mod encoding;
pub mod error;
pub mod listing;
pub mod mnemonic;
pub mod parser;
pub mod program;
pub mod state;
pub mod text;
pub mod translator;

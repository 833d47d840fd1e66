//! Core of a small Scheme-like language implementation: a slot-reusing value
//! arena, a lexical environment of scope frames, and a compiler that turns a
//! syntax tree into a flat bytecode stream with resolved variable addresses,
//! tail-call-aware calls and back-patched relative jumps.

pub mod arena;
pub mod ast;
pub mod compile;
pub mod environment;
pub mod laws;
pub mod vm;

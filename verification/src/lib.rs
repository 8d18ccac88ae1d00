//! The runtime core of a record-oriented text-processing language: lazy
//! strings, lenient conversions, keyed caches of compiled patterns, typed
//! maps, and a register machine that executes statically typed bytecode.
//!
//! The machine decides and the driver acts: whatever needs floating-point
//! arithmetic or input and output leaves the machine as work for its caller.

pub mod common;
pub mod convert;
pub mod fields;
pub mod float;
pub mod instr;
pub mod interp;
pub mod lazy_str;
pub mod machine;
pub mod maps;
pub mod regex_cache;
pub mod registry;
pub mod strton;

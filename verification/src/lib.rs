//! A verified compiler core that translates a small, statically typed,
//! indentation-based scripting language into an LLVM-style intermediate
//! representation aimed at 8-bit AVR microcontrollers.
//!
//! The crate owns the whole front end: the value and type model, symbol
//! scopes, overload name mangling, the runtime prototype table, the code
//! emitter and the compile orchestrator.  Parsing the surface language and
//! driving the downstream toolchain are left to callers.

pub mod arith;
pub mod ast;
pub mod avr;
pub mod cgexpr;
pub mod cgstmt;
pub mod codegen;
pub mod compiler;
pub mod convert;
pub mod errors;
pub mod flags;
pub mod ir;
pub mod mangler;
pub mod prototypes;
pub mod scope;
pub mod value;

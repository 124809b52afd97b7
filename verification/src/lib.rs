//! Analysis and execution core of a small statically typed scripting language.

pub mod arith;
pub mod ast;
pub mod environment;
pub mod error;
pub mod interpreter;
pub mod laws;
pub mod native_functions;
pub mod program;
pub mod sema;
pub mod text;
pub mod value;

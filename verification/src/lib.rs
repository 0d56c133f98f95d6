//! Back end of a small imperative-language compiler: lowers a three-address
//! IR into RV64G textual assembly, with a fixed stack slot per variable and a
//! simplified one-argument/one-return calling convention.

use vstd::prelude::*;

pub mod ast;
pub mod codegen;
pub mod emit;
pub mod rv64;
pub mod ident;
pub mod laws;
pub mod lex;
pub mod parse;
pub mod text;
pub mod tir;

pub use rv64::Register;
pub use ident::Id;

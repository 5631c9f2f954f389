use vstd::prelude::*;

pub mod text;
pub mod token;
pub mod diagnostic;
pub mod source_map;
pub mod config;
pub mod ast;
pub mod lexer;
pub mod scan;
pub mod parser;
pub mod decl_emit;
pub mod paths;
pub mod codegen;
pub mod type_checker;
pub mod compiler;
pub mod loader;

verus! {

} // verus!

use vstd::prelude::*;

pub mod text;
pub mod token;
pub mod ast;
pub mod object;
pub mod bytecode;
pub mod compiler;
pub mod vm;
pub mod lexer;
pub mod parser;
pub mod eval;
pub mod interpreter;

pub use self::interpreter::{Error, Interpreter, InterpreterResult};

verus! {
} // verus!

//! A JavaScript runtime: values, scopes, a compiler to a stack bytecode and
//! the machine that runs it.
use vstd::prelude::*;

pub mod number;
pub mod value;
pub mod props;
pub mod scope;
pub mod text;
pub mod ast;
pub mod compile;
pub mod numeric;
pub mod machine;
pub mod convert;
pub mod ops;
pub mod builtins;
pub mod methods;
pub mod json;
pub mod vm;
pub mod program;
pub mod walk;
pub mod jsvalue;
pub mod syntax;
pub mod ir;
pub mod lexer;
pub mod grammar;
pub mod parser;
pub mod lower;
pub mod emit;
pub mod script;
pub mod flow;
pub mod jumps;
pub mod agree;
pub mod roundtrip;
pub mod arrays;

verus! {
} // verus!

//! valua: a Lua 5.5 to Lua 5.1 / LuaJIT transpiler.

pub mod ast;
pub mod diagnostics;
pub mod polyfills;
pub mod walk;
pub mod transformer;
pub mod properties;
pub mod strip;
pub mod text;
pub mod unsupported;
pub mod const_mutation;
pub mod const_scoping;
pub mod lint;
pub mod lexer;
pub mod token;
pub mod fmt;
pub mod parser;
pub mod grammar;
pub mod copy;
pub mod close;
pub mod codegen;
pub mod passes;
pub mod compile;
pub mod bench;

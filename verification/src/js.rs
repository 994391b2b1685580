//! The script subsystem: lexer, parser and tree-walking interpreter.

pub mod ast;
pub mod runtime;
pub mod token;

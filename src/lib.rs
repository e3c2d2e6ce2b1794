//! A two-pass assembler for the Hack machine language: a lexer, a
//! recursive-descent parser, a symbol table and a code generator, each
//! specified over mathematical models and proved against them.

pub mod assembler;
pub mod base;
pub mod coder;
pub mod error;
pub mod hpu;
pub mod lexer;
pub mod parser;
pub mod strutil;
pub mod symbols;
pub mod tables;

//! A front end for a small Rust-like language: lexer, type and borrow checker,
//! and a C code generator for the `println!` subset.
pub mod ast;
pub mod codegen;
pub mod error;
pub mod laws;
pub mod lexer;
pub mod loc;
pub mod text;
pub mod names;
pub mod parser;
pub mod type_checker;

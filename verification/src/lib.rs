//! A compiler for a small scripting language, targeting the textual
//! assembly format of a stack-based virtual machine.
//!
//! The pipeline is: lexical analysis ([`syntax::lex`]), recursive-descent
//! parsing with precedence climbing ([`syntax::parse`]), and code
//! generation into a target module that is serialized to module text
//! ([`codegen::generate_assembly`]).

pub mod codegen;
pub mod syntax;

//! Front end for the Flow automation language: a lexer and an
//! indentation-sensitive recursive-descent parser that turn source text into
//! a validated abstract syntax tree of device declarations, named blocks and
//! the operations and condition trees inside them.
//!
//! The lexer ([`token`]) and the parser ([`parser`]) are each specified by
//! spec functions of the input alone, and the executable functions return
//! exactly what those spec functions say.  [`laws`] proves the headline
//! properties on top: every produced AST is well formed, parsing is
//! deterministic, indentation is exact, and empty `any`/`all` aggregates
//! are always rejected.

pub mod num;
pub mod token;
pub mod ast;
pub mod parser;
pub mod laws;

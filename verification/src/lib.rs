//! Ream: the lexer, parser and Core Erlang printer of the Ream language,
//! the data of its type checker, and the decisions of its command line,
//! with their contracts proved by Verus.

pub mod syntax_kind;
pub mod text;
pub mod core_erlang;
pub mod lang;
pub mod lexer;
pub mod logger;
pub mod parser;
pub mod typechecker;

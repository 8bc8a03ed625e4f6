pub mod ast;
pub mod combinator;
pub mod grammar;
pub mod parser;
pub mod pattern;
pub mod tree;

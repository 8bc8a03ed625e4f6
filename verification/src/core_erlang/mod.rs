pub mod render;
pub mod primitives;
pub mod bitstrings;
pub mod patterns;
pub mod clauses;
pub mod expr;
pub mod module;
pub mod printer;

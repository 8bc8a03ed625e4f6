//! Patterns: the left side of a match clause.

use crate::parser::ast::Expression;
use vstd::prelude::*;

verus! {

/// Left side of a pattern expression in a match statement, such as
/// `{ _, A, B }`, a literal, `[ _, 241, 244 ]` or `#{ tag: 0, length: _ }`.
pub enum Pattern {
    /// `:atom`
    Atom(String),
    /// `Int(value)`
    NamedType { named_type: String, binding_name: String },
    AtomKeyedMap(Vec<MapPair>),
    /// `{ _,  }`
    Tuple(Vec<Pattern>),
    /// `name`
    Binding(String),
    /// `_`
    Ignore,
}

pub enum MapPair {
    AtomKey { name: String, binding: Pattern },
    ExpressionKey { key: Expression, binding: Pattern },
    Spread(Pattern),
}

} // verus!

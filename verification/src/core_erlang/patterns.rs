//! Core Erlang patterns.

use crate::core_erlang::bitstrings::BitSegment;
use crate::core_erlang::primitives::{Literal, VarName};
use vstd::prelude::*;

verus! {

#[derive(Debug, PartialEq)]
pub enum Pattern {
    Var(VarName),
    Literal(Literal),
    Tuple(Vec<Pattern>),
    List { head: Box<Pattern>, tail: Box<Pattern> },
    Binary(Vec<BitSegment<Pattern>>),
    Alias { binding: VarName, pattern: Box<Pattern> },
}

impl Pattern {
    pub fn var(name: &str) -> (r: Self)
        ensures
            r matches Pattern::Var(v) && v.0@ == name@,
    {
        Pattern::Var(VarName(name.to_owned()))
    }

    pub fn atom(name: &str) -> (r: Self)
        ensures
            r matches Pattern::Literal(Literal::Atom(a)) && a@ == name@,
    {
        Pattern::Literal(Literal::Atom(name.to_owned()))
    }

    pub fn integer(value: i64) -> (r: Self)
        ensures
            r == Pattern::Literal(Literal::Integer(value)),
    {
        Pattern::Literal(Literal::Integer(value))
    }

    pub fn tuple(elements: Vec<Pattern>) -> (r: Self)
        ensures
            r == Pattern::Tuple(elements),
    {
        Pattern::Tuple(elements)
    }
}

} // verus!

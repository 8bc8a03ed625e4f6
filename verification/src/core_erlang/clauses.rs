//! Clauses of `case` and `receive`.

use crate::core_erlang::expr::Expr;
use crate::core_erlang::patterns::Pattern;
use vstd::prelude::*;

verus! {

#[derive(Debug, PartialEq)]
pub struct CaseClause {
    pub patterns: Vec<Pattern>,
    pub guard: Expr,
    pub body: Expr,
}

} // verus!

//! Core Erlang expressions.

use crate::core_erlang::bitstrings::BitSegment;
use crate::core_erlang::clauses::CaseClause;
use crate::core_erlang::module::LocalFunctionDef;
use crate::core_erlang::primitives::{FunctionName, Literal, VarName};
use vstd::prelude::*;

verus! {

#[derive(Debug, PartialEq)]
pub enum Expr {
    Var(VarName),
    Literal(Literal),
    FunctionName(FunctionName),
    Tuple(Vec<Expr>),
    List { head: Box<Expr>, tail: Box<Expr> },
    Binary(Vec<BitSegment<Expr>>),
    Values(Vec<Expr>),
    /// Function abstraction
    Fun { parameters: Vec<VarName>, body: Box<Expr> },
    /// Bindings
    Let { variables: Vec<VarName>, value: Box<Expr>, body: Box<Expr> },
    LetRec { definitions: Vec<LocalFunctionDef>, body: Box<Expr> },
    /// Control flow
    Case { expression: Box<Expr>, clauses: Vec<CaseClause> },
    Receive { clauses: Vec<CaseClause>, timeout_duration: Box<Expr>, timeout_body: Box<Expr> },
    Try {
        expression: Box<Expr>,
        success_variables: Vec<VarName>,
        success_body: Box<Expr>,
        catch_variables: Vec<VarName>,
        catch_body: Box<Expr>,
    },
    /// Calls
    Apply { callee: Box<Expr>, arguments: Vec<Expr> },
    Call { module: Box<Expr>, function: Box<Expr>, arguments: Vec<Expr> },
    PrimOp { name: String, arguments: Vec<Expr> },
    /// Annotations
    Annotated { expr: Box<Expr>, annotations: Vec<Literal> },
}

impl Expr {
    pub fn var(name: &str) -> (r: Self)
        ensures
            r matches Expr::Var(v) && v.0@ == name@,
    {
        Expr::Var(VarName(name.to_owned()))
    }

    pub fn atom(name: &str) -> (r: Self)
        ensures
            r matches Expr::Literal(Literal::Atom(a)) && a@ == name@,
    {
        Expr::Literal(Literal::Atom(name.to_owned()))
    }

    pub fn integer(value: i64) -> (r: Self)
        ensures
            r == Expr::Literal(Literal::Integer(value)),
    {
        Expr::Literal(Literal::Integer(value))
    }

    pub fn tuple(elements: Vec<Expr>) -> (r: Self)
        ensures
            r == Expr::Tuple(elements),
    {
        Expr::Tuple(elements)
    }

    fn vars_of(names: Vec<&str>) -> (r: Vec<VarName>)
        ensures
            r@.len() == names@.len(),
            forall|i: int| 0 <= i < r@.len() ==> #[trigger] r@[i].0@ == names@[i]@,
    {
        let mut r: Vec<VarName> = Vec::new();
        let mut i: usize = 0;
        while i < names.len()
            invariant
                i <= names@.len(),
                r@.len() == i,
                forall|j: int| 0 <= j < i ==> #[trigger] r@[j].0@ == names@[j]@,
            decreases names@.len() - i,
        {
            r.push(VarName(names[i].to_owned()));
            i = i + 1;
        }
        r
    }

    pub fn fun(parameters: Vec<&str>, body: Expr) -> (r: Self)
        ensures
            r matches Expr::Fun { parameters: ps, body: b } && *b == body && ps@.len()
                == parameters@.len() && forall|i: int|
                0 <= i < ps@.len() ==> #[trigger] ps@[i].0@ == parameters@[i]@,
    {
        Expr::Fun { parameters: Self::vars_of(parameters), body: Box::new(body) }
    }

    pub fn let_bind(variables: Vec<&str>, value: Expr, body: Expr) -> (r: Self)
        ensures
            r matches Expr::Let { variables: vs, value: v, body: b } && *v == value && *b == body
                && vs@.len() == variables@.len() && forall|i: int|
                0 <= i < vs@.len() ==> #[trigger] vs@[i].0@ == variables@[i]@,
    {
        Expr::Let {
            variables: Self::vars_of(variables),
            value: Box::new(value),
            body: Box::new(body),
        }
    }

    pub fn call(module: Expr, function: Expr, arguments: Vec<Expr>) -> (r: Self)
        ensures
            r == (Expr::Call { module: Box::new(module), function: Box::new(function), arguments }),
    {
        Expr::Call { module: Box::new(module), function: Box::new(function), arguments }
    }

    pub fn apply(callee: Expr, arguments: Vec<Expr>) -> (r: Self)
        ensures
            r == (Expr::Apply { callee: Box::new(callee), arguments }),
    {
        Expr::Apply { callee: Box::new(callee), arguments }
    }

    pub fn case_expr(expr: Expr, clauses: Vec<CaseClause>) -> (r: Self)
        ensures
            r == (Expr::Case { expression: Box::new(expr), clauses }),
    {
        Expr::Case { expression: Box::new(expr), clauses }
    }
}

} // verus!

//! Variable names, function names and literals of Core Erlang.

use crate::core_erlang::render::{decimal, push_char, push_decimal, push_signed_decimal, push_str, signed_decimal};
use vstd::prelude::*;

verus! {

#[derive(Debug, Clone, PartialEq, Eq)]
pub struct VarName(pub String);

impl VarName {
    /// The Core Erlang text of the variable: its name.
    pub open spec fn text(&self) -> Seq<char> {
        self.0@
    }

    pub fn write_to(&self, out: &mut String)
        ensures
            final(out)@ == old(out)@ + self.text(),
    {
        push_str(out, self.0.as_str());
    }

    pub fn to_string(&self) -> (r: String)
        ensures
            r@ == self.text(),
    {
        let mut out = String::new();
        self.write_to(&mut out);
        proof {
            assert(out@ =~= self.text());
        }
        out
    }
}

/// A function named by its name and arity.
#[derive(Debug, Clone, PartialEq, Eq)]
pub struct FunctionName {
    pub name: String,
    pub arity: usize,
}

impl FunctionName {
    /// `'name'/arity`
    pub open spec fn text(&self) -> Seq<char> {
        "'"@ + self.name@ + "'/"@ + decimal(self.arity as nat)
    }

    pub fn write_to(&self, out: &mut String)
        ensures
            final(out)@ == old(out)@ + self.text(),
    {
        push_str(out, "'");
        push_str(out, self.name.as_str());
        push_str(out, "'/");
        push_decimal(out, self.arity as u64);
        proof {
            assert(final(out)@ =~= old(out)@ + self.text());
        }
    }

    pub fn to_string(&self) -> (r: String)
        ensures
            r@ == self.text(),
    {
        let mut out = String::new();
        self.write_to(&mut out);
        proof {
            assert(out@ =~= self.text());
        }
        out
    }
}

#[derive(Debug, Clone, PartialEq)]
pub enum Literal {
    Atom(String),
    Integer(i64),
    /// A floating-point number, held as the decimal text that Rust's
    /// `Display` gives of its `f64`.
    Float(String),
    Char(char),
    Nil,
}

impl Literal {
    /// `'atom'`, a decimal integer, the float's text, `$c` or `[]`.
    pub open spec fn text(&self) -> Seq<char> {
        match self {
            Literal::Atom(name) => "'"@ + name@ + "'"@,
            Literal::Integer(value) => signed_decimal(*value as int),
            Literal::Float(value) => value@,
            Literal::Char(character) => "$"@ + seq![*character],
            Literal::Nil => "[]"@,
        }
    }

    pub fn write_to(&self, out: &mut String)
        ensures
            final(out)@ == old(out)@ + self.text(),
    {
        match self {
            Literal::Atom(name) => {
                push_str(out, "'");
                push_str(out, name.as_str());
                push_str(out, "'");
            },
            Literal::Integer(value) => push_signed_decimal(out, *value),
            Literal::Float(value) => push_str(out, value.as_str()),
            Literal::Char(character) => {
                push_str(out, "$");
                push_char(out, *character);
            },
            Literal::Nil => push_str(out, "[]"),
        }
        proof {
            assert(final(out)@ =~= old(out)@ + self.text());
        }
    }

    pub fn to_string(&self) -> (r: String)
        ensures
            r@ == self.text(),
    {
        let mut out = String::new();
        self.write_to(&mut out);
        proof {
            assert(out@ =~= self.text());
        }
        out
    }
}

} // verus!

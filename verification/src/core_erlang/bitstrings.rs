//! Bit-syntax segments of Core Erlang binaries.

use crate::core_erlang::expr::Expr;
use crate::core_erlang::render::push_str;
use vstd::prelude::*;

verus! {

#[derive(Debug, Clone, PartialEq, Eq)]
pub enum BitType {
    Integer,
    Float,
    Binary,
    Utf8,
    Utf16,
    Utf32,
}

impl BitType {
    pub open spec fn text(&self) -> Seq<char> {
        match self {
            BitType::Integer => "integer"@,
            BitType::Float => "float"@,
            BitType::Binary => "binary"@,
            BitType::Utf8 => "utf8"@,
            BitType::Utf16 => "utf16"@,
            BitType::Utf32 => "utf32"@,
        }
    }

    pub fn write_to(&self, out: &mut String)
        ensures
            final(out)@ == old(out)@ + self.text(),
    {
        match self {
            BitType::Integer => push_str(out, "integer"),
            BitType::Float => push_str(out, "float"),
            BitType::Binary => push_str(out, "binary"),
            BitType::Utf8 => push_str(out, "utf8"),
            BitType::Utf16 => push_str(out, "utf16"),
            BitType::Utf32 => push_str(out, "utf32"),
        }
    }

    pub fn to_string(&self) -> (r: String)
        ensures
            r@ == self.text(),
    {
        let mut out = String::new();
        self.write_to(&mut out);
        proof {
            assert(out@ =~= self.text());
        }
        out
    }
}

#[derive(Debug, Clone, PartialEq, Eq)]
pub enum Signedness {
    Signed,
    Unsigned,
}

impl Signedness {
    pub open spec fn text(&self) -> Seq<char> {
        match self {
            Signedness::Signed => "signed"@,
            Signedness::Unsigned => "unsigned"@,
        }
    }

    pub fn write_to(&self, out: &mut String)
        ensures
            final(out)@ == old(out)@ + self.text(),
    {
        match self {
            Signedness::Signed => push_str(out, "signed"),
            Signedness::Unsigned => push_str(out, "unsigned"),
        }
    }

    pub fn to_string(&self) -> (r: String)
        ensures
            r@ == self.text(),
    {
        let mut out = String::new();
        self.write_to(&mut out);
        proof {
            assert(out@ =~= self.text());
        }
        out
    }
}

#[derive(Debug, Clone, PartialEq, Eq)]
pub enum Endianness {
    Big,
    Little,
    Native,
}

impl Endianness {
    pub open spec fn text(&self) -> Seq<char> {
        match self {
            Endianness::Big => "big"@,
            Endianness::Little => "little"@,
            Endianness::Native => "native"@,
        }
    }

    pub fn write_to(&self, out: &mut String)
        ensures
            final(out)@ == old(out)@ + self.text(),
    {
        match self {
            Endianness::Big => push_str(out, "big"),
            Endianness::Little => push_str(out, "little"),
            Endianness::Native => push_str(out, "native"),
        }
    }

    pub fn to_string(&self) -> (r: String)
        ensures
            r@ == self.text(),
    {
        let mut out = String::new();
        self.write_to(&mut out);
        proof {
            assert(out@ =~= self.text());
        }
        out
    }
}

/// One segment of a binary: a value (an expression or a pattern) with its
/// size, count, type, signedness and endianness.
#[derive(Debug, PartialEq)]
pub struct BitSegment<T> {
    pub value: Box<T>,
    pub bit_size: Option<Box<Expr>>,
    pub item_count: Option<u64>,
    pub segment_type: BitType,
    pub signedness: Option<Signedness>,
    pub endianness: Option<Endianness>,
}

} // verus!

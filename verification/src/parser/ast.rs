//! The abstract syntax of Ream.

use vstd::prelude::*;

verus! {

/// Arbitrary-precision integers of dashu-int, carried as they are.
#[verifier::external_type_specification]
#[verifier::external_body]
pub struct ExIBig(dashu_int::IBig);

pub enum Expression {
    BinaryOperation(Box<Expression>, BinaryOperator, Box<Expression>),
    UnaryOperation(UnaryOperator, Box<Expression>),
    Literal(Literal),
    Match,
    Function { args: Vec<(String, Type)>, body: Box<Expression>, return_type: Option<Type> },
    FunctionCall { callee: Box<Expression>, args: Vec<Expression> },
    VariableAccess(String),
    FieldAccess { on: Box<Expression>, field: String },
    IndexAccess { on: Box<Expression>, index: Box<Expression> },
}

pub enum Type {
    /// `Int`, `String`, ...
    Named(String),
    /// `SomeType[Type, Type, Type]`
    GenericApplication(Box<Type>, Vec<Type>),
    Atom(String),
    /// `#{ key: Type, key: Type }`
    AtomMap(Vec<(String, Type)>),
    /// `T1 | T2 | T3 ...`
    Union(Vec<Type>),
    /// `T1 & T2 & T3 ...`
    Intersection(Vec<Type>),
    /// `!`
    Never,
    /// `*`
    Any,
}

pub enum Literal {
    Atom(String),
    Int(dashu_int::IBig),
    /// A floating-point literal, held as the IEEE-754 bits of its `f64`.
    Float(u64),
    String(String),
    List(Vec<Expression>),
    Tuple(Vec<Expression>),
    AtomKeyedMap(Vec<MapPair>),
    BitString(Vec<BitStringSegment>),
}

pub enum MapPair {
    /// atom: value
    AtomKey(String, Expression),
    /// `(expression): value`
    ExpressionKey(Expression, Expression),
    /// `..map`
    Spread(Expression),
}

pub enum BitStringSegment {
    Expression { body: Expression, encoding: BitStringEncoding },
    /// ..expr
    Spread(Expression),
}

pub enum BitStringEncoding {
    /// :size#endianness#signedness
    Numeric { size: Option<Expression>, endianness: Endianness, signedness: Signedness },
    /// #endianness#encoding
    String { encoding: StringEncoding, endianness: Option<Endianness> },
}

pub enum StringEncoding {
    /// Extended ASCII / ISO-8859-1 (0-255)
    Ascii,
    Utf8,
    Utf16,
    Utf32,
}

pub enum Signedness {
    Unsigned,
    Signed,
}

pub enum Endianness {
    Big,
    Native,
    Little,
}

pub enum UnaryOperator {
    Negative,
    LogicalNot,
    BitwiseNot,
}

pub enum BinaryOperator {
    Addition,
    Subtraction,
    Multiplication,
    Division,
    Modulus,
    BitwiseXOR,
    BitwiseAND,
    BitwiseOR,
    Pipe,
    LogicalAND,
    LogicalOR,
    GreaterThan,
    GreaterThanEq,
    LessThan,
    LessThanEq,
    EqualTo,
    NotEqualTo,
    Comparision,
}

} // verus!

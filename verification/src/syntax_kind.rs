use vstd::prelude::*;

verus! {

/// Every kind of token and syntax node of Ream.
#[derive(Debug, Clone, Copy, PartialEq, Eq, Structural, PartialOrd, Ord, Hash)]
#[allow(non_camel_case_types)]
pub enum SyntaxKind {
    /// Emitted when the lexer is unable to handle a grapheme
    BAD_TOKEN,
    /// Trivia: a run of whitespace
    WHITESPACE,
    /// Trivia: `// a comment that is ignored`
    COMMENT,
    /// Trivia: `/// documentation for an item`
    DOC_COMMENT,
    /// Trivia: `//! documentation for the parent item`
    SUPER_DOC_COMMENT,
    IDENTIFIER,
    ATOM,
    INTEGER,
    FRACTIONAL,
    BOOLEAN,
    ERROR,
    /// Punctuation
    COLON,
    DOT,
    COMMA,
    AT,
    ARROW,
    FAT_ARROW,
    EQUAL,
    /// Parenthesis
    LBRACE,
    RBRACE,
    LPAREN,
    RPAREN,
    LBRACKET,
    RBRACKET,
    MAP_BRACE,
    TUPLE_PAREN,
    /// Operators
    PLUS,
    HYPHEN,
    ASTERISK,
    SLASH,
    PERCENT,
    EXCLAMATION_POINT,
    PIPE,
    AMPERSAND,
    /// Keywords
    AS,
    FN,
    IF,
    FOR,
    LET,
    IMPL,
    TYPE,
    MATCH,
    TRAIT,
    IMPORT,
    /// Derived nodes
    OPERATION,
    MAP,
    MAP_PAIR,
    TUPLE,
    TUPLE_ITEM,
    GENERIC_INTRODUCTION,
    GENERIC_ARGS,
    GENERIC_ARG,
    FN_ARG,
    FN_ARGS,
    TYPE_UNION,
    TYPE_INTERSECTION,
    /// Kinds the grammar names beyond what the lexer produces
    STRING,
    TILDE,
    CARET,
    LEFTSHIFT,
    RIGHTSHIFT,
    URIGHTSHIFT,
    LESS_THAN,
    LESS_THAN_EQ,
    GREATER_THAN,
    GREATER_THAN_EQ,
    EQUALITY,
    NOTEQUAL,
    SPACESHIP,
    LOGICAL_AND,
    LOGICAL_OR,
    PIPE_OPERATOR,
    PATTERN,
    EXPRESSION,
    MATCH_CLAUSE,
    ROOT,
}

impl SyntaxKind {
    /// Whitespace and comments: tokens that carry no meaning for the grammar.
    pub open spec fn spec_is_trivia(&self) -> bool {
        ||| *self == SyntaxKind::WHITESPACE
        ||| *self == SyntaxKind::COMMENT
        ||| *self == SyntaxKind::DOC_COMMENT
        ||| *self == SyntaxKind::SUPER_DOC_COMMENT
    }

    /// Kinds that mark input the lexer or the parser could not handle.
    pub open spec fn spec_is_error(self) -> bool {
        self == SyntaxKind::BAD_TOKEN || self == SyntaxKind::ERROR
    }

    #[verifier::when_used_as_spec(spec_is_trivia)]
    pub fn is_trivia(&self) -> (r: bool)
        ensures
            r == self.spec_is_trivia(),
    {
        match self {
            SyntaxKind::WHITESPACE | SyntaxKind::COMMENT | SyntaxKind::DOC_COMMENT
            | SyntaxKind::SUPER_DOC_COMMENT => true,
            _ => false,
        }
    }

    #[verifier::when_used_as_spec(spec_is_error)]
    pub fn is_error(self) -> (r: bool)
        ensures
            r == self.spec_is_error(),
    {
        match self {
            SyntaxKind::BAD_TOKEN | SyntaxKind::ERROR => true,
            _ => false,
        }
    }

    /// The number of this kind, counting from `BAD_TOKEN` in declaration
    /// order; `ROOT` has the largest.
    pub open spec fn spec_to_raw(self) -> u16 {
        match self {
            SyntaxKind::BAD_TOKEN => 0,
            SyntaxKind::WHITESPACE => 1,
            SyntaxKind::COMMENT => 2,
            SyntaxKind::DOC_COMMENT => 3,
            SyntaxKind::SUPER_DOC_COMMENT => 4,
            SyntaxKind::IDENTIFIER => 5,
            SyntaxKind::ATOM => 6,
            SyntaxKind::INTEGER => 7,
            SyntaxKind::FRACTIONAL => 8,
            SyntaxKind::BOOLEAN => 9,
            SyntaxKind::ERROR => 10,
            SyntaxKind::COLON => 11,
            SyntaxKind::DOT => 12,
            SyntaxKind::COMMA => 13,
            SyntaxKind::AT => 14,
            SyntaxKind::ARROW => 15,
            SyntaxKind::FAT_ARROW => 16,
            SyntaxKind::EQUAL => 17,
            SyntaxKind::LBRACE => 18,
            SyntaxKind::RBRACE => 19,
            SyntaxKind::LPAREN => 20,
            SyntaxKind::RPAREN => 21,
            SyntaxKind::LBRACKET => 22,
            SyntaxKind::RBRACKET => 23,
            SyntaxKind::MAP_BRACE => 24,
            SyntaxKind::TUPLE_PAREN => 25,
            SyntaxKind::PLUS => 26,
            SyntaxKind::HYPHEN => 27,
            SyntaxKind::ASTERISK => 28,
            SyntaxKind::SLASH => 29,
            SyntaxKind::PERCENT => 30,
            SyntaxKind::EXCLAMATION_POINT => 31,
            SyntaxKind::PIPE => 32,
            SyntaxKind::AMPERSAND => 33,
            SyntaxKind::AS => 34,
            SyntaxKind::FN => 35,
            SyntaxKind::IF => 36,
            SyntaxKind::FOR => 37,
            SyntaxKind::LET => 38,
            SyntaxKind::IMPL => 39,
            SyntaxKind::TYPE => 40,
            SyntaxKind::MATCH => 41,
            SyntaxKind::TRAIT => 42,
            SyntaxKind::IMPORT => 43,
            SyntaxKind::OPERATION => 44,
            SyntaxKind::MAP => 45,
            SyntaxKind::MAP_PAIR => 46,
            SyntaxKind::TUPLE => 47,
            SyntaxKind::TUPLE_ITEM => 48,
            SyntaxKind::GENERIC_INTRODUCTION => 49,
            SyntaxKind::GENERIC_ARGS => 50,
            SyntaxKind::GENERIC_ARG => 51,
            SyntaxKind::FN_ARG => 52,
            SyntaxKind::FN_ARGS => 53,
            SyntaxKind::TYPE_UNION => 54,
            SyntaxKind::TYPE_INTERSECTION => 55,
            SyntaxKind::STRING => 56,
            SyntaxKind::TILDE => 57,
            SyntaxKind::CARET => 58,
            SyntaxKind::LEFTSHIFT => 59,
            SyntaxKind::RIGHTSHIFT => 60,
            SyntaxKind::URIGHTSHIFT => 61,
            SyntaxKind::LESS_THAN => 62,
            SyntaxKind::LESS_THAN_EQ => 63,
            SyntaxKind::GREATER_THAN => 64,
            SyntaxKind::GREATER_THAN_EQ => 65,
            SyntaxKind::EQUALITY => 66,
            SyntaxKind::NOTEQUAL => 67,
            SyntaxKind::SPACESHIP => 68,
            SyntaxKind::LOGICAL_AND => 69,
            SyntaxKind::LOGICAL_OR => 70,
            SyntaxKind::PIPE_OPERATOR => 71,
            SyntaxKind::PATTERN => 72,
            SyntaxKind::EXPRESSION => 73,
            SyntaxKind::MATCH_CLAUSE => 74,
            SyntaxKind::ROOT => 75,
        }
    }

    /// The number of this kind.
    #[verifier::when_used_as_spec(spec_to_raw)]
    pub fn to_raw(self) -> (r: u16)
        ensures
            r == self.spec_to_raw(),
    {
        match self {
            SyntaxKind::BAD_TOKEN => 0,
            SyntaxKind::WHITESPACE => 1,
            SyntaxKind::COMMENT => 2,
            SyntaxKind::DOC_COMMENT => 3,
            SyntaxKind::SUPER_DOC_COMMENT => 4,
            SyntaxKind::IDENTIFIER => 5,
            SyntaxKind::ATOM => 6,
            SyntaxKind::INTEGER => 7,
            SyntaxKind::FRACTIONAL => 8,
            SyntaxKind::BOOLEAN => 9,
            SyntaxKind::ERROR => 10,
            SyntaxKind::COLON => 11,
            SyntaxKind::DOT => 12,
            SyntaxKind::COMMA => 13,
            SyntaxKind::AT => 14,
            SyntaxKind::ARROW => 15,
            SyntaxKind::FAT_ARROW => 16,
            SyntaxKind::EQUAL => 17,
            SyntaxKind::LBRACE => 18,
            SyntaxKind::RBRACE => 19,
            SyntaxKind::LPAREN => 20,
            SyntaxKind::RPAREN => 21,
            SyntaxKind::LBRACKET => 22,
            SyntaxKind::RBRACKET => 23,
            SyntaxKind::MAP_BRACE => 24,
            SyntaxKind::TUPLE_PAREN => 25,
            SyntaxKind::PLUS => 26,
            SyntaxKind::HYPHEN => 27,
            SyntaxKind::ASTERISK => 28,
            SyntaxKind::SLASH => 29,
            SyntaxKind::PERCENT => 30,
            SyntaxKind::EXCLAMATION_POINT => 31,
            SyntaxKind::PIPE => 32,
            SyntaxKind::AMPERSAND => 33,
            SyntaxKind::AS => 34,
            SyntaxKind::FN => 35,
            SyntaxKind::IF => 36,
            SyntaxKind::FOR => 37,
            SyntaxKind::LET => 38,
            SyntaxKind::IMPL => 39,
            SyntaxKind::TYPE => 40,
            SyntaxKind::MATCH => 41,
            SyntaxKind::TRAIT => 42,
            SyntaxKind::IMPORT => 43,
            SyntaxKind::OPERATION => 44,
            SyntaxKind::MAP => 45,
            SyntaxKind::MAP_PAIR => 46,
            SyntaxKind::TUPLE => 47,
            SyntaxKind::TUPLE_ITEM => 48,
            SyntaxKind::GENERIC_INTRODUCTION => 49,
            SyntaxKind::GENERIC_ARGS => 50,
            SyntaxKind::GENERIC_ARG => 51,
            SyntaxKind::FN_ARG => 52,
            SyntaxKind::FN_ARGS => 53,
            SyntaxKind::TYPE_UNION => 54,
            SyntaxKind::TYPE_INTERSECTION => 55,
            SyntaxKind::STRING => 56,
            SyntaxKind::TILDE => 57,
            SyntaxKind::CARET => 58,
            SyntaxKind::LEFTSHIFT => 59,
            SyntaxKind::RIGHTSHIFT => 60,
            SyntaxKind::URIGHTSHIFT => 61,
            SyntaxKind::LESS_THAN => 62,
            SyntaxKind::LESS_THAN_EQ => 63,
            SyntaxKind::GREATER_THAN => 64,
            SyntaxKind::GREATER_THAN_EQ => 65,
            SyntaxKind::EQUALITY => 66,
            SyntaxKind::NOTEQUAL => 67,
            SyntaxKind::SPACESHIP => 68,
            SyntaxKind::LOGICAL_AND => 69,
            SyntaxKind::LOGICAL_OR => 70,
            SyntaxKind::PIPE_OPERATOR => 71,
            SyntaxKind::PATTERN => 72,
            SyntaxKind::EXPRESSION => 73,
            SyntaxKind::MATCH_CLAUSE => 74,
            SyntaxKind::ROOT => 75,
        }
    }

    /// The kind with the number `raw`, which must be one of a kind.
    pub fn from_raw(raw: u16) -> (r: SyntaxKind)
        requires
            raw <= SyntaxKind::ROOT.spec_to_raw(),
        ensures
            r.spec_to_raw() == raw,
    {
        match raw {
            0 => SyntaxKind::BAD_TOKEN,
            1 => SyntaxKind::WHITESPACE,
            2 => SyntaxKind::COMMENT,
            3 => SyntaxKind::DOC_COMMENT,
            4 => SyntaxKind::SUPER_DOC_COMMENT,
            5 => SyntaxKind::IDENTIFIER,
            6 => SyntaxKind::ATOM,
            7 => SyntaxKind::INTEGER,
            8 => SyntaxKind::FRACTIONAL,
            9 => SyntaxKind::BOOLEAN,
            10 => SyntaxKind::ERROR,
            11 => SyntaxKind::COLON,
            12 => SyntaxKind::DOT,
            13 => SyntaxKind::COMMA,
            14 => SyntaxKind::AT,
            15 => SyntaxKind::ARROW,
            16 => SyntaxKind::FAT_ARROW,
            17 => SyntaxKind::EQUAL,
            18 => SyntaxKind::LBRACE,
            19 => SyntaxKind::RBRACE,
            20 => SyntaxKind::LPAREN,
            21 => SyntaxKind::RPAREN,
            22 => SyntaxKind::LBRACKET,
            23 => SyntaxKind::RBRACKET,
            24 => SyntaxKind::MAP_BRACE,
            25 => SyntaxKind::TUPLE_PAREN,
            26 => SyntaxKind::PLUS,
            27 => SyntaxKind::HYPHEN,
            28 => SyntaxKind::ASTERISK,
            29 => SyntaxKind::SLASH,
            30 => SyntaxKind::PERCENT,
            31 => SyntaxKind::EXCLAMATION_POINT,
            32 => SyntaxKind::PIPE,
            33 => SyntaxKind::AMPERSAND,
            34 => SyntaxKind::AS,
            35 => SyntaxKind::FN,
            36 => SyntaxKind::IF,
            37 => SyntaxKind::FOR,
            38 => SyntaxKind::LET,
            39 => SyntaxKind::IMPL,
            40 => SyntaxKind::TYPE,
            41 => SyntaxKind::MATCH,
            42 => SyntaxKind::TRAIT,
            43 => SyntaxKind::IMPORT,
            44 => SyntaxKind::OPERATION,
            45 => SyntaxKind::MAP,
            46 => SyntaxKind::MAP_PAIR,
            47 => SyntaxKind::TUPLE,
            48 => SyntaxKind::TUPLE_ITEM,
            49 => SyntaxKind::GENERIC_INTRODUCTION,
            50 => SyntaxKind::GENERIC_ARGS,
            51 => SyntaxKind::GENERIC_ARG,
            52 => SyntaxKind::FN_ARG,
            53 => SyntaxKind::FN_ARGS,
            54 => SyntaxKind::TYPE_UNION,
            55 => SyntaxKind::TYPE_INTERSECTION,
            56 => SyntaxKind::STRING,
            57 => SyntaxKind::TILDE,
            58 => SyntaxKind::CARET,
            59 => SyntaxKind::LEFTSHIFT,
            60 => SyntaxKind::RIGHTSHIFT,
            61 => SyntaxKind::URIGHTSHIFT,
            62 => SyntaxKind::LESS_THAN,
            63 => SyntaxKind::LESS_THAN_EQ,
            64 => SyntaxKind::GREATER_THAN,
            65 => SyntaxKind::GREATER_THAN_EQ,
            66 => SyntaxKind::EQUALITY,
            67 => SyntaxKind::NOTEQUAL,
            68 => SyntaxKind::SPACESHIP,
            69 => SyntaxKind::LOGICAL_AND,
            70 => SyntaxKind::LOGICAL_OR,
            71 => SyntaxKind::PIPE_OPERATOR,
            72 => SyntaxKind::PATTERN,
            73 => SyntaxKind::EXPRESSION,
            74 => SyntaxKind::MATCH_CLAUSE,
            _ => SyntaxKind::ROOT,
        }
    }
}

/// Numbering kinds loses nothing: no two kinds share a number, and none
/// is numbered above `ROOT`.
pub proof fn lemma_raw_round_trip(kind: SyntaxKind)
    ensures
        kind.spec_to_raw() <= SyntaxKind::ROOT.spec_to_raw(),
        forall|other: SyntaxKind| other.spec_to_raw() == kind.spec_to_raw() ==> other == kind,
{
}

} // verus!

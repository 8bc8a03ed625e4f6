//! The lexer: cuts source text into tokens, losslessly.

pub mod span;

use crate::lexer::span::{
    char_at, grapheme_at, grapheme_len, lemma_grapheme_len_positive, walks_graphemes, Span, Token,
};
use crate::syntax_kind::SyntaxKind;
use crate::text::{
    is_alphabetic, is_alphabetic_char, is_ascii_digit, is_emoji, is_emoji_text, is_whitespace,
    lowercased, spec_is_ascii_digit, spec_is_whitespace, text_equals, to_lowercase,
};
use vstd::prelude::*;

verus! {

/// The first position at or after `p` whose character `f` rejects (or the
/// end of `t`).
pub open spec fn scan_chars(t: Seq<char>, p: int, f: spec_fn(char) -> bool) -> int
    decreases (if t.len() > p { t.len() - p } else { 0 }),
{
    if 0 <= p < t.len() && f(t[p]) {
        scan_chars(t, p + 1, f)
    } else {
        p
    }
}

/// The first grapheme boundary at or after `p` whose grapheme `f` rejects (or
/// the end of `t`).
pub open spec fn scan_graphemes(t: Seq<char>, p: int, f: spec_fn(Seq<char>) -> bool) -> int
    decreases (if t.len() > p { t.len() - p } else { 0 }),
{
    if 0 <= p < t.len() && f(grapheme_at(t, p)) {
        proof {
            lemma_grapheme_len_positive(t, p);
        }
        scan_graphemes(t, p + grapheme_len(t, p), f)
    } else {
        p
    }
}

/// A grapheme that may begin an identifier.
pub open spec fn starts_identifier_text(g: Seq<char>) -> bool {
    g.len() > 0 && (g[0] == '_' || is_alphabetic_char(g[0]) || is_emoji_text(g))
}

/// A grapheme that may continue an identifier.
pub open spec fn continues_identifier_text(g: Seq<char>) -> bool {
    g.len() > 0 && (g[0] == '_' || is_alphabetic_char(g[0]) || spec_is_ascii_digit(g[0])
        || is_emoji_text(g))
}

pub open spec fn is_not_newline(c: char) -> bool {
    c != '\n'
}

pub open spec fn whitespace_class() -> spec_fn(char) -> bool {
    |c: char| spec_is_whitespace(c)
}

pub open spec fn digit_class() -> spec_fn(char) -> bool {
    |c: char| spec_is_ascii_digit(c)
}

pub open spec fn comment_class() -> spec_fn(char) -> bool {
    |c: char| is_not_newline(c)
}

pub open spec fn identifier_class() -> spec_fn(Seq<char>) -> bool {
    |g: Seq<char>| continues_identifier_text(g)
}

/// The kind of a word, given its lower-cased text: a keyword, a boolean, or
/// an identifier.
pub open spec fn keyword_kind(s: Seq<char>) -> SyntaxKind {
    if s == "as"@ {
        SyntaxKind::AS
    } else if s == "fn"@ {
        SyntaxKind::FN
    } else if s == "if"@ {
        SyntaxKind::IF
    } else if s == "for"@ {
        SyntaxKind::FOR
    } else if s == "let"@ {
        SyntaxKind::LET
    } else if s == "impl"@ {
        SyntaxKind::IMPL
    } else if s == "type"@ {
        SyntaxKind::TYPE
    } else if s == "match"@ {
        SyntaxKind::MATCH
    } else if s == "trait"@ {
        SyntaxKind::TRAIT
    } else if s == "import"@ {
        SyntaxKind::IMPORT
    } else if s == "true"@ || s == "false"@ {
        SyntaxKind::BOOLEAN
    } else {
        SyntaxKind::IDENTIFIER
    }
}

/// The kind of a one-character punctuation or operator token.
pub open spec fn punctuation_kind(c: char) -> Option<SyntaxKind> {
    if c == '{' {
        Some(SyntaxKind::LBRACE)
    } else if c == '}' {
        Some(SyntaxKind::RBRACE)
    } else if c == '(' {
        Some(SyntaxKind::LPAREN)
    } else if c == ')' {
        Some(SyntaxKind::RPAREN)
    } else if c == '[' {
        Some(SyntaxKind::LBRACKET)
    } else if c == ']' {
        Some(SyntaxKind::RBRACKET)
    } else if c == '.' {
        Some(SyntaxKind::DOT)
    } else if c == ',' {
        Some(SyntaxKind::COMMA)
    } else if c == '@' {
        Some(SyntaxKind::AT)
    } else if c == '=' {
        Some(SyntaxKind::EQUAL)
    } else if c == '+' {
        Some(SyntaxKind::PLUS)
    } else if c == '-' {
        Some(SyntaxKind::HYPHEN)
    } else if c == '*' {
        Some(SyntaxKind::ASTERISK)
    } else if c == '/' {
        Some(SyntaxKind::SLASH)
    } else if c == '%' {
        Some(SyntaxKind::PERCENT)
    } else if c == '!' {
        Some(SyntaxKind::EXCLAMATION_POINT)
    } else if c == '|' {
        Some(SyntaxKind::PIPE)
    } else if c == '&' {
        Some(SyntaxKind::AMPERSAND)
    } else {
        None
    }
}

/// The character that a one-character punctuation or operator kind is
/// written as, if the kind is one.
pub open spec fn punctuation_symbol(kind: SyntaxKind) -> Option<char> {
    match kind {
        SyntaxKind::LBRACE => Some('{'),
        SyntaxKind::RBRACE => Some('}'),
        SyntaxKind::LPAREN => Some('('),
        SyntaxKind::RPAREN => Some(')'),
        SyntaxKind::LBRACKET => Some('['),
        SyntaxKind::RBRACKET => Some(']'),
        SyntaxKind::DOT => Some('.'),
        SyntaxKind::COMMA => Some(','),
        SyntaxKind::AT => Some('@'),
        SyntaxKind::EQUAL => Some('='),
        SyntaxKind::PLUS => Some('+'),
        SyntaxKind::HYPHEN => Some('-'),
        SyntaxKind::ASTERISK => Some('*'),
        SyntaxKind::SLASH => Some('/'),
        SyntaxKind::PERCENT => Some('%'),
        SyntaxKind::EXCLAMATION_POINT => Some('!'),
        SyntaxKind::PIPE => Some('|'),
        SyntaxKind::AMPERSAND => Some('&'),
        _ => None,
    }
}

/// Each punctuation or operator character has a kind of its own: the kind
/// that is written as exactly that character. So no two characters share a
/// kind (`%` is `PERCENT`, and only `/` is `SLASH`), and every such kind
/// has its character.
pub proof fn law_punctuation_kinds(c: char, kind: SyntaxKind)
    ensures
        punctuation_kind(c) == Some(kind) <==> punctuation_symbol(kind) == Some(c),
        forall|d: char| punctuation_kind(c) is Some && #[trigger] punctuation_kind(d) == punctuation_kind(c) ==> d == c,
{
}

/// A token of a punctuation or operator kind is exactly the character that
/// the kind is written as: wherever the lexer makes a `PERCENT` token, the
/// text there is `%`, and a `SLASH` token is always `/`.
pub proof fn law_punctuation_token(t: Seq<char>, p: int)
    ensures
        match token_at(t, p) {
            Some((kind, e)) => punctuation_symbol(kind) is Some ==> {
                &&& e == p + 1
                &&& t[p] == punctuation_symbol(kind)->0
            },
            None => true,
        },
{
    if let Some((kind, e)) = token_at(t, p) {
        if punctuation_symbol(kind) is Some {
            if 0 <= p < t.len() {
                let c = t[p];
                if !spec_is_whitespace(c) && c != ':' && !spec_is_ascii_digit(c)
                    && !starts_identifier_text(grapheme_at(t, p))
                    && !text_at(t, p, "//"@) && !text_at(t, p, "->"@) && !text_at(t, p, "=>"@)
                    && !text_at(t, p, "#{"@) && !text_at(t, p, "#("@)
                    && punctuation_kind(c) is Some {
                    law_punctuation_kinds(c, kind);
                }
            }
        }
    }
}

/// Each step of `tokens_from` is the token that `token_at` gives there.
pub proof fn lemma_tokens_from_steps(t: Seq<char>, p: int)
    ensures
        forall|i: int|
            0 <= i < tokens_from(t, p).len() ==> token_at(t, #[trigger] tokens_from(t, p)[i].1)
                == Some((tokens_from(t, p)[i].0, tokens_from(t, p)[i].2)),
    decreases (if t.len() > p { t.len() - p } else { 0 }),
{
    match token_at(t, p) {
        None => {},
        Some((k, e)) => {
            if p < e <= t.len() {
                lemma_tokens_from_steps(t, e);
                let rest = tokens_from(t, e);
                assert forall|i: int| 0 <= i < tokens_from(t, p).len() implies token_at(
                    t,
                    #[trigger] tokens_from(t, p)[i].1,
                ) == Some((tokens_from(t, p)[i].0, tokens_from(t, p)[i].2)) by {
                    if i > 0 {
                        assert(tokens_from(t, p)[i] == rest[i - 1]);
                    }
                }
            }
        },
    }
}

/// `s` stands in `t` at position `p`.
pub open spec fn text_at(t: Seq<char>, p: int, s: Seq<char>) -> bool {
    p + s.len() <= t.len() && t.subrange(p, p + s.len()) == s
}

/// The kind of a comment, from the character after its `//`.
pub open spec fn comment_kind(t: Seq<char>, p: int, e: int) -> SyntaxKind {
    if p + 2 < e && t[p + 2] == '/' {
        SyntaxKind::DOC_COMMENT
    } else if p + 2 < e && t[p + 2] == '!' {
        SyntaxKind::SUPER_DOC_COMMENT
    } else {
        SyntaxKind::COMMENT
    }
}

/// The token that starts at position `p` of `t`: its kind and the position
/// just past it. `None` at the end of the text.
pub open spec fn token_at(t: Seq<char>, p: int) -> Option<(SyntaxKind, int)> {
    if p < 0 || p >= t.len() {
        None
    } else if spec_is_whitespace(t[p]) {
        Some((SyntaxKind::WHITESPACE, scan_chars(t, p, whitespace_class())))
    } else if t[p] == ':' {
        let q = p + 1;
        if q < t.len() && continues_identifier_text(grapheme_at(t, q)) {
            Some(
                (
                    SyntaxKind::ATOM,
                    scan_graphemes(
                        t,
                        q + grapheme_len(t, q),
                        identifier_class(),
                    ),
                ),
            )
        } else {
            Some((SyntaxKind::COLON, q))
        }
    } else if spec_is_ascii_digit(t[p]) {
        let i = scan_chars(t, p, digit_class());
        if i < t.len() && t[i] == '.' && scan_chars(t, i + 1, digit_class())
            > i + 1 {
            Some((SyntaxKind::FRACTIONAL, scan_chars(t, i + 1, digit_class())))
        } else {
            Some((SyntaxKind::INTEGER, i))
        }
    } else if starts_identifier_text(grapheme_at(t, p)) {
        let e = scan_graphemes(
            t,
            p + grapheme_len(t, p),
            identifier_class(),
        );
        Some((keyword_kind(lowercased(t.subrange(p, e))), e))
    } else if text_at(t, p, "//"@) {
        let i = scan_chars(t, p + "//"@.len(), comment_class());
        let e = if i < t.len() {
            i + 1
        } else {
            i
        };
        Some((comment_kind(t, p, e), e))
    } else if text_at(t, p, "->"@) {
        Some((SyntaxKind::ARROW, p + "->"@.len()))
    } else if text_at(t, p, "=>"@) {
        Some((SyntaxKind::FAT_ARROW, p + "=>"@.len()))
    } else if text_at(t, p, "#{"@) {
        Some((SyntaxKind::MAP_BRACE, p + "#{"@.len()))
    } else if text_at(t, p, "#("@) {
        Some((SyntaxKind::TUPLE_PAREN, p + "#("@.len()))
    } else if punctuation_kind(t[p]) is Some {
        Some((punctuation_kind(t[p])->0, p + 1))
    } else {
        Some((SyntaxKind::BAD_TOKEN, p + grapheme_len(t, p)))
    }
}

/// The outcome of one step of the lexer at position `p`: `r` is the token
/// that `token_at` gives and `q` the position after it.
pub open spec fn step_outcome(t: Seq<char>, p: int, r: Option<Token>, q: int) -> bool {
    match token_at(t, p) {
        None => r is None && q == p,
        Some((kind, e)) => {
            &&& q == e
            &&& r is Some
            &&& r->0.kind == kind
            &&& r->0.contents@ == t.subrange(p, e)
        },
    }
}

pub proof fn lemma_scan_chars_exact(t: Seq<char>, p: int, e: int, f: spec_fn(char) -> bool)
    requires
        0 <= p <= e <= t.len(),
        forall|i: int| p <= i < e ==> f(t[i]),
        e < t.len() ==> !f(t[e]),
    ensures
        scan_chars(t, p, f) == e,
    decreases e - p,
{
    if p < e {
        lemma_scan_chars_exact(t, p + 1, e, f);
    }
}

pub proof fn lemma_scan_chars_bounds(t: Seq<char>, p: int, f: spec_fn(char) -> bool)
    requires
        0 <= p <= t.len(),
    ensures
        p <= scan_chars(t, p, f) <= t.len(),
    decreases t.len() - p,
{
    if p < t.len() && f(t[p]) {
        lemma_scan_chars_bounds(t, p + 1, f);
    }
}

pub proof fn lemma_scan_graphemes_bounds(t: Seq<char>, p: int, f: spec_fn(Seq<char>) -> bool)
    requires
        0 <= p <= t.len(),
    ensures
        p <= scan_graphemes(t, p, f) <= t.len(),
    decreases t.len() - p,
{
    lemma_grapheme_len_positive(t, p);
    if p < t.len() && f(grapheme_at(t, p)) {
        lemma_scan_graphemes_bounds(t, p + grapheme_len(t, p), f);
    }
}

/// A grapheme walk of accepted graphemes that stops on a rejected grapheme (or
/// the end) is the scan.
pub proof fn lemma_walk_is_scan(
    t: Seq<char>,
    p: int,
    e: int,
    accept: spec_fn(Seq<char>) -> bool,
    f: spec_fn(Seq<char>) -> bool,
)
    requires
        0 <= p <= e <= t.len(),
        walks_graphemes(t, p, e, accept),
        forall|g: Seq<char>| #[trigger] accept(g) ==> f(g),
        e < t.len() ==> !f(grapheme_at(t, e)),
    ensures
        scan_graphemes(t, p, f) == e,
    decreases e - p,
{
    lemma_grapheme_len_positive(t, p);
    if p < e {
        let next = p + grapheme_len(t, p);
        assert(walks_graphemes(t, next, e, accept));
        assert(next <= e);
        lemma_walk_is_scan(t, next, e, accept, f);
    }
}

/// Every token covers at least one character, inside the text.
pub proof fn lemma_token_progress(t: Seq<char>, p: int)
    ensures
        token_at(t, p) matches Some((k, e)) ==> p < e <= t.len(),
        token_at(t, p) is None <==> (p < 0 || p >= t.len()),
{
    reveal_strlit("//");
    reveal_strlit("->");
    reveal_strlit("=>");
    reveal_strlit("#{");
    reveal_strlit("#(");
    if 0 <= p < t.len() {
        lemma_grapheme_len_positive(t, p);
        lemma_scan_chars_bounds(t, p, whitespace_class());
        lemma_scan_chars_bounds(t, p, digit_class());
        lemma_scan_chars_bounds(t, p + 1, whitespace_class());
        lemma_scan_chars_bounds(t, p + 1, digit_class());
        let i = scan_chars(t, p, digit_class());
        if i < t.len() {
            lemma_scan_chars_bounds(t, i + 1, digit_class());
        }
        if p + 1 < t.len() {
            lemma_grapheme_len_positive(t, p + 1);
            lemma_scan_graphemes_bounds(
                t,
                p + 1 + grapheme_len(t, p + 1),
                identifier_class(),
            );
        }
        lemma_scan_graphemes_bounds(
            t,
            p + grapheme_len(t, p),
            identifier_class(),
        );
        if p + 2 <= t.len() {
            lemma_scan_chars_bounds(t, p + 2, comment_class());
        }
    }
}

/// The tokens of `t` from position `p` on: kind, start and end of each.
pub open spec fn tokens_from(t: Seq<char>, p: int) -> Seq<(SyntaxKind, int, int)>
    decreases (if t.len() > p { t.len() - p } else { 0 }),
{
    match token_at(t, p) {
        None => Seq::empty(),
        Some((k, e)) => if p < e <= t.len() {
            seq![(k, p, e)] + tokens_from(t, e)
        } else {
            Seq::empty()
        },
    }
}

/// The texts of `tokens`, one after the other.
pub open spec fn joined(tokens: Seq<Token>) -> Seq<char>
    decreases tokens.len(),
{
    if tokens.len() == 0 {
        Seq::empty()
    } else {
        joined(tokens.drop_last()) + tokens.last().contents@
    }
}

pub proof fn lemma_tokens_from_end(t: Seq<char>)
    ensures
        tokens_from(t, t.len() as int) == Seq::<(SyntaxKind, int, int)>::empty(),
{
}

/// Lexes the whole of `body`. Lexing is lossless: the tokens' texts, one
/// after the other, give back `body`, and no token is empty.
pub fn lex<'source>(body: &'source str) -> (r: Vec<Token<'source>>)
    ensures
        r@.len() == tokens_from(body@, 0).len(),
        forall|i: int|
            0 <= i < r@.len() ==> {
                &&& #[trigger] r@[i].kind == tokens_from(body@, 0)[i].0
                &&& r@[i].contents@ == body@.subrange(
                    tokens_from(body@, 0)[i].1,
                    tokens_from(body@, 0)[i].2,
                )
            },
        joined(r@) == body@,
        forall|i: int| 0 <= i < r@.len() ==> #[trigger] r@[i].contents@.len() > 0,
        forall|i: int|
            0 <= i < r@.len() && punctuation_symbol(#[trigger] r@[i].kind) is Some
                ==> r@[i].contents@ == seq![punctuation_symbol(r@[i].kind)->0],
{
    let mut lexer = Lexer::new(body);
    let mut tokens: Vec<Token<'source>> = Vec::new();
    let ghost t = body@;
    let ghost mut done: Seq<(SyntaxKind, int, int)> = Seq::empty();
    loop
        invariant
            lexer.wf(),
            lexer.source() == t,
            0 <= lexer.position() <= t.len(),
            done.len() == tokens@.len(),
            tokens_from(t, 0) == done + tokens_from(t, lexer.position()),
            forall|i: int|
                0 <= i < tokens@.len() ==> {
                    &&& #[trigger] tokens@[i].kind == done[i].0
                    &&& tokens@[i].contents@ == t.subrange(done[i].1, done[i].2)
                    &&& 0 <= done[i].1 < done[i].2 <= t.len()
                },
            joined(tokens@) == t.subrange(0, lexer.position()),
        ensures
            lexer.position() == t.len(),
            done.len() == tokens@.len(),
            tokens_from(t, 0) == done,
            forall|i: int|
                0 <= i < tokens@.len() ==> {
                    &&& #[trigger] tokens@[i].kind == done[i].0
                    &&& tokens@[i].contents@ == t.subrange(done[i].1, done[i].2)
                    &&& 0 <= done[i].1 < done[i].2 <= t.len()
                },
            joined(tokens@) == t.subrange(0, lexer.position()),
        decreases t.len() - lexer.position(),
    {
        let ghost p = lexer.position();
        proof {
            lemma_token_progress(t, p);
        }
        match lexer.next() {
            Some(token) => {
                let ghost e = lexer.position();
                let ghost before = tokens@;
                tokens.push(token);
                proof {
                    let k = token.kind;
                    assert(tokens_from(t, p) == seq![(k, p, e)] + tokens_from(t, e));
                    done = done.push((k, p, e));
                    assert(tokens@.drop_last() == before);
                    assert(t.subrange(0, e) =~= t.subrange(0, p) + t.subrange(p, e));
                    assert(tokens_from(t, 0) =~= done + tokens_from(t, e));
                }
            },
            None => {
                proof {
                    assert(tokens_from(t, p) == Seq::<(SyntaxKind, int, int)>::empty());
                    assert(done + tokens_from(t, p) =~= done);
                }
                break ;
            },
        }
    }
    proof {
        assert(t.subrange(0, t.len() as int) =~= t);
        assert forall|i: int| 0 <= i < tokens@.len() implies #[trigger] tokens@[i].contents@.len()
            > 0 by {
            assert(tokens@[i].kind == done[i].0);
        }
        lemma_tokens_from_steps(t, 0);
        assert forall|i: int|
            0 <= i < tokens@.len() && punctuation_symbol(#[trigger] tokens@[i].kind) is Some
                implies tokens@[i].contents@ == seq![punctuation_symbol(tokens@[i].kind)->0] by {
            assert(tokens@[i].kind == done[i].0);
            let s = done[i].1;
            assert(token_at(t, s) == Some((done[i].0, done[i].2)));
            law_punctuation_token(t, s);
            assert(tokens@[i].contents@ =~= seq![t[s]]);
        }
    }
    tokens
}

/// Cuts a source text into tokens.
pub struct Lexer<'source> {
    cursor: Span<'source>,
}

impl<'source> Lexer<'source> {
    /// The text being lexed.
    pub closed spec fn source(&self) -> Seq<char> {
        self.cursor.text()
    }

    /// Where the next token starts.
    pub closed spec fn position(&self) -> int {
        self.cursor.end_pos()
    }

    pub closed spec fn cursor(&self) -> Span<'source> {
        self.cursor
    }

    /// The cursor is valid and holds no pending characters.
    pub open spec fn wf(&self) -> bool {
        &&& self.cursor().wf()
        &&& self.cursor().start_pos() == self.position()
        &&& self.cursor().text() == self.source()
    }

    pub fn new(body: &'source str) -> (s: Self)
        ensures
            s.wf(),
            s.source() == body@,
            s.position() == 0,
    {
        Self { cursor: Span::new(body) }
    }

    fn starts_identifier(grapheme: &str) -> (r: bool)
        ensures
            r == starts_identifier_text(grapheme@),
    {
        if grapheme.unicode_len() == 0 {
            return false;
        }
        let first_character = grapheme.get_char(0);
        first_character == '_' || is_alphabetic(first_character) || is_emoji(grapheme)
    }

    fn continues_identifier(grapheme: &str) -> (r: bool)
        ensures
            r == continues_identifier_text(grapheme@),
    {
        if grapheme.unicode_len() == 0 {
            return false;
        }
        let first_character = grapheme.get_char(0);
        first_character == '_' || is_alphabetic(first_character) || is_ascii_digit(
            first_character,
        ) || is_emoji(grapheme)
    }

    fn not_newline(c: char) -> (r: bool)
        ensures
            r == is_not_newline(c),
    {
        c != '\n'
    }

    /// The kind of a word whose lower-cased text is `lowered`.
    pub fn keyword_kind_of(lowered: &str) -> (r: SyntaxKind)
        ensures
            r == keyword_kind(lowered@),
    {
        if text_equals(lowered, "as") {
            SyntaxKind::AS
        } else if text_equals(lowered, "fn") {
            SyntaxKind::FN
        } else if text_equals(lowered, "if") {
            SyntaxKind::IF
        } else if text_equals(lowered, "for") {
            SyntaxKind::FOR
        } else if text_equals(lowered, "let") {
            SyntaxKind::LET
        } else if text_equals(lowered, "impl") {
            SyntaxKind::IMPL
        } else if text_equals(lowered, "type") {
            SyntaxKind::TYPE
        } else if text_equals(lowered, "match") {
            SyntaxKind::MATCH
        } else if text_equals(lowered, "trait") {
            SyntaxKind::TRAIT
        } else if text_equals(lowered, "import") {
            SyntaxKind::IMPORT
        } else if text_equals(lowered, "true") || text_equals(lowered, "false") {
            SyntaxKind::BOOLEAN
        } else {
            SyntaxKind::IDENTIFIER
        }
    }

    fn map_keyword(contents: &str) -> (r: SyntaxKind)
        ensures
            r == keyword_kind(lowercased(contents@)),
    {
        let lowered = to_lowercase(contents);
        Self::keyword_kind_of(lowered.as_str())
    }

    fn punctuation(c: char) -> (r: Option<SyntaxKind>)
        ensures
            r == punctuation_kind(c),
    {
        match c {
            '{' => Some(SyntaxKind::LBRACE),
            '}' => Some(SyntaxKind::RBRACE),
            '(' => Some(SyntaxKind::LPAREN),
            ')' => Some(SyntaxKind::RPAREN),
            '[' => Some(SyntaxKind::LBRACKET),
            ']' => Some(SyntaxKind::RBRACKET),
            '.' => Some(SyntaxKind::DOT),
            ',' => Some(SyntaxKind::COMMA),
            '@' => Some(SyntaxKind::AT),
            '=' => Some(SyntaxKind::EQUAL),
            '+' => Some(SyntaxKind::PLUS),
            '-' => Some(SyntaxKind::HYPHEN),
            '*' => Some(SyntaxKind::ASTERISK),
            '/' => Some(SyntaxKind::SLASH),
            '%' => Some(SyntaxKind::PERCENT),
            '!' => Some(SyntaxKind::EXCLAMATION_POINT),
            '|' => Some(SyntaxKind::PIPE),
            '&' => Some(SyntaxKind::AMPERSAND),
            _ => None,
        }
    }

    /// The next token, or `None` at the end of the text.
    pub fn next(&mut self) -> (r: Option<Token<'source>>)
        requires
            old(self).wf(),
        ensures
            final(self).wf(),
            final(self).source() == old(self).source(),
            step_outcome(old(self).source(), old(self).position(), r, final(self).position()),
    {
        let ghost t = self.source();
        let ghost p = self.position();
        if self.cursor.take_while_and_require_advancement(is_whitespace) {
            proof {
                lemma_scan_chars_exact(t, p, self.cursor.end_pos(), whitespace_class());
            }
            let span = self.cursor;
            return Some(self.make_token(span, SyntaxKind::WHITESPACE));
        }
        if self.cursor.has_character(':') {
            return Some(self.next_atom_or_colon());
        }
        let starts_number = match self.cursor.current_character() {
            Some(c) => is_ascii_digit(c),
            None => false,
        };
        if starts_number {
            return Some(self.next_number());
        }
        let starts_word = match self.cursor.current_grapheme() {
            Some(grapheme) => Self::starts_identifier(grapheme),
            None => false,
        };
        if starts_word {
            return Some(self.next_word());
        }
        self.next_symbol()
    }

    /// `:` followed by an identifier is an atom; otherwise a colon.
    fn next_atom_or_colon(&mut self) -> (r: Token<'source>)
        requires
            old(self).wf(),
            char_at(old(self).source(), old(self).position()) == Some(':'),
        ensures
            final(self).wf(),
            final(self).source() == old(self).source(),
            step_outcome(old(self).source(), old(self).position(), Some(r), final(self).position()),
    {
        let ghost t = self.source();
        let ghost p = self.position();
        self.cursor.bump_for_character(':');
        match self.cursor.current_grapheme() {
            Some(grapheme) => {
                if Self::continues_identifier(grapheme) {
                    self.cursor.bump_for_string(grapheme);
                    let ghost a = self.cursor.end_pos();
                    self.cursor.take_while_grapheme(Self::continues_identifier);
                    proof {
                        Self::lemma_identifier_walk(t, a, self.cursor.end_pos());
                    }
                    let span = self.cursor;
                    return self.make_token(span, SyntaxKind::ATOM);
                }
            },
            None => {},
        }
        let span = self.cursor;
        self.make_token(span, SyntaxKind::COLON)
    }

    /// What `take_while_grapheme(continues_identifier)` guarantees is the scan
    /// over identifier graphemes.
    proof fn lemma_identifier_walk(t: Seq<char>, a: int, e: int)
        requires
            0 <= a <= e <= t.len(),
            walks_graphemes(
                t,
                a,
                e,
                |g: Seq<char>|
                    exists|s: &str|
                        s@ == g && call_ensures(Self::continues_identifier, (s,), true),
            ),
            e < t.len() ==> exists|s: &str|
                s@ == grapheme_at(t, e) && call_ensures(Self::continues_identifier, (s,), false),
        ensures
            scan_graphemes(t, a, identifier_class()) == e,
    {
        let accept = |g: Seq<char>|
            exists|s: &str| s@ == g && call_ensures(Self::continues_identifier, (s,), true);
        assert forall|g: Seq<char>| #[trigger] accept(g) implies identifier_class()(g) by {
            let s = choose|s: &str|
                s@ == g && call_ensures(Self::continues_identifier, (s,), true);
        }
        if e < t.len() {
            let s = choose|s: &str|
                s@ == grapheme_at(t, e) && call_ensures(Self::continues_identifier, (s,), false);
        }
        lemma_walk_is_scan(t, a, e, accept, identifier_class());
    }

    /// Digits, and a fractional part when digits follow a `.`.
    fn next_number(&mut self) -> (r: Token<'source>)
        requires
            old(self).wf(),
            old(self).position() < old(self).source().len(),
            spec_is_ascii_digit(old(self).source()[old(self).position()]),
            !spec_is_whitespace(old(self).source()[old(self).position()]),
            old(self).source()[old(self).position()] != ':',
        ensures
            final(self).wf(),
            final(self).source() == old(self).source(),
            step_outcome(old(self).source(), old(self).position(), Some(r), final(self).position()),
    {
        let ghost t = self.source();
        let ghost p = self.position();
        self.cursor.take_while_and_require_advancement(is_ascii_digit);
        let ghost i = self.cursor.end_pos();
        proof {
            lemma_scan_chars_exact(t, p, i, digit_class());
        }
        if self.cursor.has_character('.') {
            let integer = self.cursor;
            self.cursor.bump_for_character('.');
            if self.cursor.take_while_and_require_advancement(is_ascii_digit) {
                proof {
                    lemma_scan_chars_exact(t, i + 1, self.cursor.end_pos(), digit_class());
                }
                let span = self.cursor;
                return self.make_token(span, SyntaxKind::FRACTIONAL);
            }
            proof {
                lemma_scan_chars_exact(t, i + 1, i + 1, digit_class());
            }
            // Unconsume the `.`: it is not part of the number.
            self.cursor = integer;
        }
        let span = self.cursor;
        self.make_token(span, SyntaxKind::INTEGER)
    }

    /// An identifier, a keyword or a boolean.
    fn next_word(&mut self) -> (r: Token<'source>)
        requires
            old(self).wf(),
            old(self).position() < old(self).source().len(),
            starts_identifier_text(grapheme_at(old(self).source(), old(self).position())),
            !spec_is_whitespace(old(self).source()[old(self).position()]),
            old(self).source()[old(self).position()] != ':',
            !spec_is_ascii_digit(old(self).source()[old(self).position()]),
        ensures
            final(self).wf(),
            final(self).source() == old(self).source(),
            step_outcome(old(self).source(), old(self).position(), Some(r), final(self).position()),
    {
        let ghost t = self.source();
        let ghost p = self.position();
        let grapheme = self.cursor.current_grapheme().unwrap();
        self.cursor.bump_for_string(grapheme);
        let ghost a = self.cursor.end_pos();
        self.cursor.take_while_grapheme(Self::continues_identifier);
        proof {
            Self::lemma_identifier_walk(t, a, self.cursor.end_pos());
        }
        let kind = Self::map_keyword(self.cursor.as_str());
        let span = self.cursor;
        self.make_token(span, kind)
    }

    /// Comments, two-character and one-character symbols, and anything else
    /// as a bad token, one grapheme long.
    fn next_symbol(&mut self) -> (r: Option<Token<'source>>)
        requires
            old(self).wf(),
            old(self).position() < old(self).source().len() ==> {
                &&& !spec_is_whitespace(old(self).source()[old(self).position()])
                &&& old(self).source()[old(self).position()] != ':'
                &&& !spec_is_ascii_digit(old(self).source()[old(self).position()])
                &&& !starts_identifier_text(
                    grapheme_at(old(self).source(), old(self).position()),
                )
            },
        ensures
            final(self).wf(),
            final(self).source() == old(self).source(),
            step_outcome(old(self).source(), old(self).position(), r, final(self).position()),
    {
        let ghost t = self.source();
        let ghost p = self.position();
        if self.cursor.has_string("//") {
            proof {
                reveal_strlit("//");
            }
            self.cursor.bump_for_string("//");
            self.cursor.take_while(Self::not_newline);
            proof {
                lemma_scan_chars_exact(t, p + 2, self.cursor.end_pos(), comment_class());
            }
            if self.cursor.has_character('\n') {
                self.cursor.bump_for_character('\n');
            }
            let contents = self.cursor.as_str();
            let kind = if contents.unicode_len() > 2 {
                let third = contents.get_char(2);
                if third == '/' {
                    SyntaxKind::DOC_COMMENT
                } else if third == '!' {
                    SyntaxKind::SUPER_DOC_COMMENT
                } else {
                    SyntaxKind::COMMENT
                }
            } else {
                SyntaxKind::COMMENT
            };
            let span = self.cursor;
            return Some(self.make_token(span, kind));
        }
        if self.cursor.has_string("->") {
            proof {
                reveal_strlit("->");
            }
            self.cursor.bump_for_string("->");
            let span = self.cursor;
            return Some(self.make_token(span, SyntaxKind::ARROW));
        }
        if self.cursor.has_string("=>") {
            proof {
                reveal_strlit("=>");
            }
            self.cursor.bump_for_string("=>");
            let span = self.cursor;
            return Some(self.make_token(span, SyntaxKind::FAT_ARROW));
        }
        if self.cursor.has_string("#{") {
            proof {
                reveal_strlit("#{");
            }
            self.cursor.bump_for_string("#{");
            let span = self.cursor;
            return Some(self.make_token(span, SyntaxKind::MAP_BRACE));
        }
        if self.cursor.has_string("#(") {
            proof {
                reveal_strlit("#(");
            }
            self.cursor.bump_for_string("#(");
            let span = self.cursor;
            return Some(self.make_token(span, SyntaxKind::TUPLE_PAREN));
        }
        match self.cursor.current_character() {
            Some(c) => {
                match Self::punctuation(c) {
                    Some(kind) => {
                        self.cursor.bump_for_character(c);
                        let span = self.cursor;
                        return Some(self.make_token(span, kind));
                    },
                    None => {},
                }
            },
            None => {},
        }
        match self.cursor.current_grapheme() {
            Some(grapheme) => {
                self.cursor.bump_for_string(grapheme);
                let span = self.cursor;
                Some(self.make_token(span, SyntaxKind::BAD_TOKEN))
            },
            None => None,
        }
    }

    /// A token of `kind` over the text of `span`; the cursor then starts
    /// afresh at its end.
    pub fn make_token(&mut self, span: Span<'source>, kind: SyntaxKind) -> (r: Token<'source>)
        requires
            span.wf(),
            old(self).cursor().wf(),
        ensures
            r.kind == kind,
            r.contents@ == span.contents(),
            final(self).wf(),
            final(self).source() == old(self).source(),
            final(self).position() == old(self).position(),
    {
        let token = Token { kind, contents: span.as_str() };
        self.cursor.yank();
        token
    }
}

} // verus!

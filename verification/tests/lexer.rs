use ream::lexer::lex;
use ream::lexer::span::Token;
use ream::syntax_kind::SyntaxKind;

fn lex_string(body: &'static str) -> Vec<Token<'static>> {
    lex(body)
}

fn no_tokens_are_errors(tokens: Vec<Token<'static>>) {
    for token in tokens {
        assert!(!token.is_error(), "{token:?} was an error");
    }
}

fn token(kind: SyntaxKind, contents: &'static str) -> Token<'static> {
    Token { kind, contents }
}

#[test]
fn lex_empty_string() {
    assert_eq!(lex_string(""), vec![]);
}

#[test]
fn lex_emoji() {
    assert_eq!(lex_string("🥴"), vec![token(SyntaxKind::IDENTIFIER, "🥴")]);
}

#[test]
fn lex_comments() {
    assert_eq!(
        lex_string(
            "// awa
/// gwah
//! wawa
"
        ),
        vec![
            token(SyntaxKind::COMMENT, "// awa\n"),
            token(SyntaxKind::DOC_COMMENT, "/// gwah\n"),
            token(SyntaxKind::SUPER_DOC_COMMENT, "//! wawa\n"),
        ]
    );
}

#[test]
fn lex_unicode_identifier() {
    assert_eq!(
        lex_string("привет"),
        vec![token(SyntaxKind::IDENTIFIER, "привет")]
    );
}

#[test]
fn lexer_lex_tuple() {
    assert_eq!(
        lex_string(" { :awa, gwah } "),
        vec![
            token(SyntaxKind::WHITESPACE, " "),
            token(SyntaxKind::LBRACE, "{"),
            token(SyntaxKind::WHITESPACE, " "),
            token(SyntaxKind::ATOM, ":awa"),
            token(SyntaxKind::COMMA, ","),
            token(SyntaxKind::WHITESPACE, " "),
            token(SyntaxKind::IDENTIFIER, "gwah"),
            token(SyntaxKind::WHITESPACE, " "),
            token(SyntaxKind::RBRACE, "}"),
            token(SyntaxKind::WHITESPACE, " "),
        ]
    );
}

#[test]
fn lex_function() {
    assert_eq!(
        lex_string("fn awa(a: B) -> C {}"),
        vec![
            token(SyntaxKind::FN, "fn"),
            token(SyntaxKind::WHITESPACE, " "),
            token(SyntaxKind::IDENTIFIER, "awa"),
            token(SyntaxKind::LPAREN, "("),
            token(SyntaxKind::IDENTIFIER, "a"),
            token(SyntaxKind::COLON, ":"),
            token(SyntaxKind::WHITESPACE, " "),
            token(SyntaxKind::IDENTIFIER, "B"),
            token(SyntaxKind::RPAREN, ")"),
            token(SyntaxKind::WHITESPACE, " "),
            token(SyntaxKind::ARROW, "->"),
            token(SyntaxKind::WHITESPACE, " "),
            token(SyntaxKind::IDENTIFIER, "C"),
            token(SyntaxKind::WHITESPACE, " "),
            token(SyntaxKind::LBRACE, "{"),
            token(SyntaxKind::RBRACE, "}"),
        ]
    );
}

#[test]
fn lex_program() {
    no_tokens_are_errors(lex_string(
        "
import std/io
import std/string
import std/async as async

type Status
    = :online
    | :idle
    | :offline

type Option[T]
    = { :some, T }
    | { :none }

type User = #{
    name: String,
    status: Status,
    display_name: Option[String]
}

fn has_display_name(user: User) -> bool {
    match user.display_name {
        { :some, _ } => true,
        { :none } => false,
    }
}
",
    ));
}

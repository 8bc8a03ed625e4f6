use ream::lexer::lex;
use ream::lexer::span::Token;
use ream::syntax_kind::SyntaxKind;

fn kinds_and_texts(body: &str) -> Vec<(SyntaxKind, &str)> {
    lex(body).into_iter().map(|token: Token| (token.kind, token.contents)).collect()
}

#[test]
fn lex_fractional_number() {
    assert_eq!(kinds_and_texts("1.5"), vec![(SyntaxKind::FRACTIONAL, "1.5")]);
}

#[test]
fn lex_integer_then_dot_when_no_digit_follows() {
    assert_eq!(kinds_and_texts("12."), vec![(SyntaxKind::INTEGER, "12"), (SyntaxKind::DOT, ".")]);
}

#[test]
fn lex_colon_alone_and_atom() {
    assert_eq!(
        kinds_and_texts(": :ok"),
        vec![(SyntaxKind::COLON, ":"), (SyntaxKind::WHITESPACE, " "), (SyntaxKind::ATOM, ":ok")]
    );
}

#[test]
fn lex_keywords_ignore_case() {
    assert_eq!(
        kinds_and_texts("FN Let TRUE false"),
        vec![
            (SyntaxKind::FN, "FN"),
            (SyntaxKind::WHITESPACE, " "),
            (SyntaxKind::LET, "Let"),
            (SyntaxKind::WHITESPACE, " "),
            (SyntaxKind::BOOLEAN, "TRUE"),
            (SyntaxKind::WHITESPACE, " "),
            (SyntaxKind::BOOLEAN, "false"),
        ]
    );
}

#[test]
fn lex_braces_of_maps_and_tuples() {
    assert_eq!(
        kinds_and_texts("#{#(->=>"),
        vec![
            (SyntaxKind::MAP_BRACE, "#{"),
            (SyntaxKind::TUPLE_PAREN, "#("),
            (SyntaxKind::ARROW, "->"),
            (SyntaxKind::FAT_ARROW, "=>"),
        ]
    );
}

#[test]
fn lex_unknown_characters_as_bad_tokens() {
    assert_eq!(
        kinds_and_texts("$#"),
        vec![(SyntaxKind::BAD_TOKEN, "$"), (SyntaxKind::BAD_TOKEN, "#")]
    );
}

#[test]
fn lex_comment_without_newline() {
    assert_eq!(kinds_and_texts("//! end"), vec![(SyntaxKind::SUPER_DOC_COMMENT, "//! end")]);
}

#[test]
fn lex_is_lossless() {
    for body in ["fn a(b: C) -> D { :e + 1.25 * f.g }", "  \n\t// x\n", "привет 🥴 $", ""] {
        let joined: String = lex(body).iter().map(|token| token.contents).collect();
        assert_eq!(joined, body);
        assert!(lex(body).iter().all(|token| !token.contents.is_empty()));
    }
}

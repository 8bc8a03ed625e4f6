use ream::parser::parser::parse;
use ream::syntax_kind::SyntaxKind;
use ream::syntax_kind::SyntaxKind::{
    AS, ASTERISK, ATOM, COLON, COMMA, DOT, EQUAL, ERROR, EXPRESSION, FN, FN_ARGS, GENERIC_ARG, GENERIC_ARGS,
    GENERIC_INTRODUCTION, IDENTIFIER, IMPORT, INTEGER, LBRACE, LBRACKET, LPAREN, MAP, MAP_BRACE, MAP_PAIR, PIPE, PLUS,
    RBRACE, RBRACKET, ROOT, RPAREN, SLASH, TUPLE, TUPLE_ITEM, TUPLE_PAREN, TYPE, TYPE_INTERSECTION, TYPE_UNION,
    WHITESPACE,
};
use rowan::{GreenNode, GreenNodeBuilder, NodeOrToken};

/// A tree written out by hand: a node with its children, or a token.
enum Tree {
    Node(SyntaxKind, Vec<Tree>),
    Token(SyntaxKind, &'static str),
}

fn node(kind: SyntaxKind, children: Vec<Tree>) -> Tree {
    Tree::Node(kind, children)
}

fn tok(kind: SyntaxKind, text: &'static str) -> Tree {
    Tree::Token(kind, text)
}

fn raw(kind: SyntaxKind) -> rowan::SyntaxKind {
    rowan::SyntaxKind(kind.to_raw())
}

fn add(builder: &mut GreenNodeBuilder<'static>, tree: &Tree) {
    match tree {
        Tree::Node(kind, children) => {
            builder.start_node(raw(*kind));
            for child in children {
                add(builder, child);
            }
            builder.finish_node();
        }
        Tree::Token(kind, text) => builder.token(raw(*kind), text),
    }
}

fn green(tree: Tree) -> GreenNode {
    let mut builder = GreenNodeBuilder::new();
    add(&mut builder, &tree);
    builder.finish()
}

fn dump(node: &rowan::GreenNodeData, depth: usize, out: &mut String) {
    out.push_str(&format!("{}{:?}\r\n", "    ".repeat(depth), SyntaxKind::from_raw(node.kind().0)));
    for child in node.children() {
        match child {
            NodeOrToken::Node(inner) => dump(inner, depth + 1, out),
            NodeOrToken::Token(token) => out.push_str(&format!(
                "{}{:?}: {:?}\r\n",
                "    ".repeat(depth + 1),
                SyntaxKind::from_raw(token.kind().0),
                token.text()
            )),
        }
    }
}

fn stringify(node: &GreenNode) -> String {
    let mut out = String::new();
    dump(node, 0, &mut out);
    out
}

fn parse_and_compare(body: &str, parsed_as: Tree) {
    let parse = parse(body);
    assert_eq!(parse.errors(), &Vec::<String>::new());
    let expected = green(parsed_as);
    let actual_text = stringify(parse.green_node());
    let expected_text = stringify(&expected);
    let actual_lines: Vec<&str> = actual_text.lines().collect();
    let expected_lines: Vec<&str> = expected_text.lines().collect();
    for i in 0..actual_lines.len().max(expected_lines.len()) {
        let a = actual_lines.get(i).copied().unwrap_or("<none>");
        let e = expected_lines.get(i).copied().unwrap_or("<none>");
        if a != e {
            let from = i.saturating_sub(6);
            let to = (i + 6).min(actual_lines.len());
            panic!(
                "trees differ at line {i}: got {a:?}, expected {e:?}; got around it:\n{}",
                actual_lines[from..to].join("\n")
            );
        }
    }
    assert_eq!(parse.green_node(), &expected);
}

#[test]
fn parse_import() {
    parse_and_compare(
        "import std/io as io
import std/fs as fs",
        node(ROOT, vec![
            node(IMPORT, vec![
                tok(IMPORT, "import"),
                tok(WHITESPACE, " "),
                tok(IDENTIFIER, "std"),
                tok(SLASH, "/"),
                tok(IDENTIFIER, "io"),
                tok(WHITESPACE, " "),
                tok(AS, "as"),
                tok(WHITESPACE, " "),
                tok(IDENTIFIER, "io"),
            ]),
            tok(WHITESPACE, "\n"),
            node(IMPORT, vec![
                tok(IMPORT, "import"),
                tok(WHITESPACE, " "),
                tok(IDENTIFIER, "std"),
                tok(SLASH, "/"),
                tok(IDENTIFIER, "fs"),
                tok(WHITESPACE, " "),
                tok(AS, "as"),
                tok(WHITESPACE, " "),
                tok(IDENTIFIER, "fs"),
            ]),
        ]),
    );
}

fn union(children: Vec<Tree>) -> Tree {
    node(TYPE_UNION, children)
}

fn intersection(children: Vec<Tree>) -> Tree {
    node(TYPE_INTERSECTION, children)
}

fn type_head(name: &'static str) -> Vec<Tree> {
    vec![tok(TYPE, "type"), tok(WHITESPACE, " "), tok(IDENTIFIER, name)]
}

fn type_definition(head: Vec<Tree>, rest: Vec<Tree>) -> Tree {
    let mut children = head;
    children.extend(rest);
    node(TYPE, children)
}

fn simple_field(name: &'static str, field_type: &'static str) -> Tree {
    node(MAP_PAIR, vec![
        tok(IDENTIFIER, name),
        tok(COLON, ":"),
        tok(WHITESPACE, " "),
        union(vec![intersection(vec![tok(IDENTIFIER, field_type)])]),
    ])
}

#[test]
fn parse_types() {
    parse_and_compare(
        "type Status
    = :online
    | :idle
    | :offline

type never = Never

type Option[T]
    = { :some, T }
    | { :none }

type User = #{
    name: String,
    status: Status,
    display_name: Option[String]
}",
        node(ROOT, vec![
            type_definition(type_head("Status"), vec![
                tok(WHITESPACE, "\n    "),
                tok(EQUAL, "="),
                tok(WHITESPACE, " "),
                union(vec![
                    intersection(vec![tok(ATOM, ":online"), tok(WHITESPACE, "\n    ")]),
                    tok(PIPE, "|"),
                    tok(WHITESPACE, " "),
                    union(vec![
                        intersection(vec![tok(ATOM, ":idle"), tok(WHITESPACE, "\n    ")]),
                        tok(PIPE, "|"),
                        tok(WHITESPACE, " "),
                        union(vec![intersection(vec![tok(ATOM, ":offline"), tok(WHITESPACE, "\n\n")])]),
                    ]),
                ]),
            ]),
            type_definition(type_head("never"), vec![
                tok(WHITESPACE, " "),
                tok(EQUAL, "="),
                tok(WHITESPACE, " "),
                union(vec![intersection(vec![tok(IDENTIFIER, "Never"), tok(WHITESPACE, "\n\n")])]),
            ]),
            type_definition(type_head("Option"), vec![
                node(GENERIC_INTRODUCTION, vec![
                    tok(LBRACKET, "["),
                    union(vec![intersection(vec![tok(IDENTIFIER, "T")])]),
                    tok(RBRACKET, "]"),
                ]),
                tok(WHITESPACE, "\n    "),
                tok(EQUAL, "="),
                tok(WHITESPACE, " "),
                union(vec![
                    intersection(vec![
                        node(TUPLE, vec![
                            tok(LBRACE, "{"),
                            tok(WHITESPACE, " "),
                            node(TUPLE_ITEM, vec![union(vec![intersection(vec![tok(ATOM, ":some")])])]),
                            tok(COMMA, ","),
                            tok(WHITESPACE, " "),
                            node(TUPLE_ITEM, vec![union(vec![intersection(vec![
                                tok(IDENTIFIER, "T"),
                                tok(WHITESPACE, " "),
                            ])])]),
                            tok(RBRACE, "}"),
                        ]),
                        tok(WHITESPACE, "\n    "),
                    ]),
                    tok(PIPE, "|"),
                    tok(WHITESPACE, " "),
                    union(vec![intersection(vec![
                        node(TUPLE, vec![
                            tok(LBRACE, "{"),
                            tok(WHITESPACE, " "),
                            node(TUPLE_ITEM, vec![union(vec![intersection(vec![
                                tok(ATOM, ":none"),
                                tok(WHITESPACE, " "),
                            ])])]),
                            tok(RBRACE, "}"),
                        ]),
                        tok(WHITESPACE, "\n\n"),
                    ])]),
                ]),
            ]),
            type_definition(type_head("User"), vec![
                tok(WHITESPACE, " "),
                tok(EQUAL, "="),
                tok(WHITESPACE, " "),
                union(vec![intersection(vec![node(MAP, vec![
                    tok(MAP_BRACE, "#{"),
                    tok(WHITESPACE, "\n    "),
                    simple_field("name", "String"),
                    tok(COMMA, ","),
                    tok(WHITESPACE, "\n    "),
                    simple_field("status", "Status"),
                    tok(COMMA, ","),
                    tok(WHITESPACE, "\n    "),
                    node(MAP_PAIR, vec![
                        tok(IDENTIFIER, "display_name"),
                        tok(COLON, ":"),
                        tok(WHITESPACE, " "),
                        union(vec![intersection(vec![
                            tok(IDENTIFIER, "Option"),
                            node(GENERIC_ARGS, vec![
                                tok(LBRACKET, "["),
                                node(GENERIC_ARG, vec![union(vec![intersection(vec![tok(IDENTIFIER, "String")])])]),
                                tok(RBRACKET, "]"),
                            ]),
                            tok(WHITESPACE, "\n"),
                        ])]),
                    ]),
                    tok(RBRACE, "}"),
                ])])]),
            ]),
        ]),
    );
}

fn tree_text(node: &rowan::GreenNodeData, out: &mut String) {
    for child in node.children() {
        match child {
            NodeOrToken::Node(inner) => tree_text(inner, out),
            NodeOrToken::Token(token) => out.push_str(token.text()),
        }
    }
}

fn assert_same_tree(body: &str, expected: Tree, errors: Vec<&str>) {
    let parse = parse(body);
    let expected = green(expected);
    assert_eq!(stringify(parse.green_node()), stringify(&expected));
    assert_eq!(parse.errors(), &errors.into_iter().map(String::from).collect::<Vec<_>>());
}

#[test]
fn parse_empty_text() {
    assert_same_tree("", node(ROOT, vec![]), vec![]);
}

#[test]
fn parse_only_whitespace() {
    assert_same_tree("  \n", node(ROOT, vec![tok(WHITESPACE, "  \n")]), vec![]);
}

#[test]
fn parse_reports_a_stray_token() {
    assert_same_tree(
        "}",
        node(ROOT, vec![node(ERROR, vec![tok(RBRACE, "}")])]),
        vec!["unexpected token: Token { kind: RBRACE, contents: \"}\" }"],
    );
}

#[test]
fn parse_recovers_after_each_stray_token() {
    let parse = parse("} ) import a");
    assert_eq!(parse.errors().len(), 2);
    assert_eq!(parse.errors()[1], "unexpected token: Token { kind: RPAREN, contents: \")\" }");
    let mut text = String::new();
    tree_text(parse.green_node(), &mut text);
    assert_eq!(text, "} ) import a");
}

#[test]
fn parse_stops_at_the_end_inside_a_definition() {
    let parse = parse("fn");
    assert_eq!(parse.errors(), &Vec::<String>::new());
    assert_eq!(
        stringify(parse.green_node()),
        stringify(&green(node(ROOT, vec![node(FN, vec![tok(FN, "fn")])])))
    );
}

#[test]
fn parse_binary_operators_in_a_function_body() {
    assert_same_tree(
        "fn main() { 1 + 2 * x }",
        node(ROOT, vec![node(FN, vec![
            tok(FN, "fn"),
            tok(WHITESPACE, " "),
            tok(IDENTIFIER, "main"),
            tok(LPAREN, "("),
            node(FN_ARGS, vec![]),
            tok(RPAREN, ")"),
            tok(WHITESPACE, " "),
            tok(LBRACE, "{"),
            tok(WHITESPACE, " "),
            node(EXPRESSION, vec![
                tok(INTEGER, "1"),
                tok(WHITESPACE, " "),
                tok(PLUS, "+"),
                tok(WHITESPACE, " "),
                tok(INTEGER, "2"),
                tok(WHITESPACE, " "),
                tok(ASTERISK, "*"),
                tok(WHITESPACE, " "),
                tok(IDENTIFIER, "x"),
            ]),
            tok(WHITESPACE, " "),
            tok(RBRACE, "}"),
        ])]),
        vec![],
    );
}

#[test]
fn parse_keeps_every_character_of_a_program() {
    let program = "import std/io as io

type Pair[A, B] = { A, B }

trait Show[T] {
    fn show(value: T) -> String
}

fn main(args: List[String]) -> Int {
    let x: Int = 1 + 2
    match x { 1 => :one 2 => :two }
    #( x, y )
    #{ name: 1, other: 2 }
    io.print(x, y)
}
";
    let parse = parse(program);
    let mut text = String::new();
    tree_text(parse.green_node(), &mut text);
    assert_eq!(text, program);
    assert_eq!(SyntaxKind::from_raw(parse.green_node().kind().0), ROOT);
}

fn expression(children: Vec<Tree>) -> Tree {
    node(EXPRESSION, children)
}

fn item(children: Vec<Tree>) -> Tree {
    node(TUPLE_ITEM, vec![expression(children)])
}

fn function(name: &'static str, body: Vec<Tree>) -> Tree {
    let mut children = vec![
        tok(FN, "fn"),
        tok(WHITESPACE, " "),
        tok(IDENTIFIER, name),
        tok(LPAREN, "("),
        node(FN_ARGS, vec![]),
        tok(RPAREN, ")"),
        tok(WHITESPACE, " "),
        tok(LBRACE, "{"),
    ];
    children.extend(body);
    node(FN, children)
}

fn three_item_tuple(name: &'static str) -> Tree {
    function(name, vec![
        tok(WHITESPACE, " "),
        expression(vec![node(TUPLE, vec![
            tok(TUPLE_PAREN, "#("),
            tok(WHITESPACE, " "),
            item(vec![tok(IDENTIFIER, "tuple")]),
            tok(COMMA, ","),
            tok(WHITESPACE, " "),
            item(vec![tok(IDENTIFIER, "and")]),
            tok(COMMA, ","),
            item(vec![tok(WHITESPACE, " "), tok(IDENTIFIER, "friends")]),
            tok(WHITESPACE, " "),
            tok(RPAREN, ")"),
        ])]),
        tok(WHITESPACE, " "),
        tok(RBRACE, "}"),
    ])
}

#[test]
fn parse_ambigous_block() {
    let test = "
fn block() { { blocky } }
fn tuple() { #( tuple, ) }
fn tuple_3() { #( tuple, and, friends ) }
fn tuple_3_trailing() { #( tuple, and, friends ) }
";
    parse_and_compare(
        test,
        node(ROOT, vec![
            tok(WHITESPACE, "\n"),
            function("block", vec![
                tok(WHITESPACE, " "),
                expression(vec![
                    tok(LBRACE, "{"),
                    tok(WHITESPACE, " "),
                    expression(vec![tok(IDENTIFIER, "blocky")]),
                    tok(WHITESPACE, " "),
                    tok(RBRACE, "}"),
                ]),
                tok(WHITESPACE, " "),
                tok(RBRACE, "}"),
            ]),
            tok(WHITESPACE, "\n"),
            function("tuple", vec![
                tok(WHITESPACE, " "),
                expression(vec![node(TUPLE, vec![
                    tok(TUPLE_PAREN, "#("),
                    tok(WHITESPACE, " "),
                    item(vec![tok(IDENTIFIER, "tuple")]),
                    tok(COMMA, ","),
                    tok(WHITESPACE, " "),
                    tok(RPAREN, ")"),
                ])]),
                tok(WHITESPACE, " "),
                tok(RBRACE, "}"),
            ]),
            tok(WHITESPACE, "\n"),
            three_item_tuple("tuple_3"),
            tok(WHITESPACE, "\n"),
            three_item_tuple("tuple_3_trailing"),
            tok(WHITESPACE, "\n"),
        ]),
    );
}

#[test]
fn parse_tuples() {
    parse_and_compare(
        "fn tuples() {
    #()
    #( :3, )
    #( :3, :gwah )
}",
        node(ROOT, vec![function("tuples", vec![
            tok(WHITESPACE, "\n    "),
            expression(vec![node(TUPLE, vec![tok(TUPLE_PAREN, "#("), tok(RPAREN, ")")])]),
            tok(WHITESPACE, "\n    "),
            expression(vec![node(TUPLE, vec![
                tok(TUPLE_PAREN, "#("),
                tok(WHITESPACE, " "),
                item(vec![tok(ATOM, ":3")]),
                tok(COMMA, ","),
                tok(WHITESPACE, " "),
                tok(RPAREN, ")"),
            ])]),
            tok(WHITESPACE, "\n    "),
            expression(vec![node(TUPLE, vec![
                tok(TUPLE_PAREN, "#("),
                tok(WHITESPACE, " "),
                item(vec![tok(ATOM, ":3")]),
                tok(COMMA, ","),
                tok(WHITESPACE, " "),
                item(vec![tok(ATOM, ":gwah")]),
                tok(WHITESPACE, " "),
                tok(RPAREN, ")"),
            ])]),
            tok(WHITESPACE, "\n"),
            tok(RBRACE, "}"),
        ])]),
    );
}

#[test]
fn parse_accessor_keeps_trailing_trivia_outside() {
    assert_same_tree(
        "fn f() { a . b }",
        node(ROOT, vec![function("f", vec![
            tok(WHITESPACE, " "),
            expression(vec![
                tok(IDENTIFIER, "a"),
                tok(WHITESPACE, " "),
                tok(DOT, "."),
                tok(WHITESPACE, " "),
                tok(IDENTIFIER, "b"),
            ]),
            tok(WHITESPACE, " "),
            tok(RBRACE, "}"),
        ])]),
        vec![],
    );
}

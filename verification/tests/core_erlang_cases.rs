use ream::core_erlang::clauses::CaseClause;
use ream::core_erlang::expr::Expr;
use ream::core_erlang::patterns::Pattern;
use ream::core_erlang::primitives::Literal;

#[test]
fn print_tuple_and_negative_integer() {
    assert_eq!(Expr::tuple(vec![Expr::integer(-3), Expr::atom("ok")]).to_string(), "{-3, 'ok'}");
}

#[test]
fn print_let_and_apply() {
    assert_eq!(
        Expr::let_bind(vec!["X", "Y"], Expr::integer(1), Expr::apply(Expr::var("F"), vec![Expr::var("X")])).to_string(),
        "let <X, Y> = 1 in\n  apply F(X)"
    );
}

#[test]
fn print_case_with_clause() {
    let clause = CaseClause {
        patterns: vec![Pattern::tuple(vec![Pattern::atom("ok"), Pattern::var("V")]), Pattern::integer(0)],
        guard: Expr::atom("true"),
        body: Expr::var("V"),
    };
    assert_eq!(
        Expr::case_expr(Expr::var("R"), vec![clause]).to_string(),
        "case R of\n  <{'ok', V}, 0> when 'true' ->\n    V\nend"
    );
}

#[test]
fn print_literals() {
    assert_eq!(Literal::Char('a').to_string(), "$a");
    assert_eq!(Literal::Nil.to_string(), "[]");
    assert_eq!(Literal::Integer(i64::MIN).to_string(), "-9223372036854775808");
}

#[test]
fn builder_keeps_calls_in_order() {
    let module = ream::core_erlang::module::Module::builder("m")
        .export("a", 0)
        .function_and_export("b", 1, Expr::integer(1))
        .attribute("vsn", Literal::Integer(2))
        .function("a", 0, Expr::atom("ok"))
        .build();
    assert_eq!(module.name, "m");
    let exports: Vec<(String, usize)> = module.exports.iter().map(|f| (f.name.clone(), f.arity)).collect();
    assert_eq!(exports, vec![("a".to_string(), 0), ("b".to_string(), 1)]);
    let functions: Vec<(String, usize)> = module.functions.iter().map(|f| (f.name.name.clone(), f.name.arity)).collect();
    assert_eq!(functions, vec![("b".to_string(), 1), ("a".to_string(), 0)]);
    assert_eq!(module.attributes.len(), 1);
    assert_eq!(module.attributes[0].name, "vsn");
}

//! The grammar of Ream, as combinator values. The parser builds the same
//! values at run time (see `parser::Parser`), and its contract speaks of
//! these.

use crate::parser::combinator::bindings_read_to_a_token;
use crate::parser::combinator::ends_on_token;
use crate::parser::combinator::lemma_reads_to_a_token;
use crate::parser::combinator::numbers_bound_once;
use crate::parser::combinator::consumed;
use crate::parser::combinator::group_ended;
use crate::parser::combinator::group_started;
use crate::parser::combinator::lemma_trivia_skipped;
use crate::parser::combinator::outcome;
use crate::parser::combinator::trivia_skipped;
use crate::parser::combinator::reads_to_a_token;
use crate::parser::combinator::Bindings;
use crate::parser::combinator::ParseModel;
use crate::parser::combinator::ParseResult;
use crate::parser::combinator::ParserCombinator;
use crate::syntax_kind::SyntaxKind;
use vstd::prelude::*;

verus! {

/// Tells the recursive parts of the grammar apart.
pub const TYPE_ID: usize = 1;
pub const TYPE_INTERSECTION_ID: usize = 2;
pub const TYPE_UNION_ID: usize = 3;
pub const ACCESSOR_ID: usize = 4;
pub const EXPRESSION_ID: usize = 10;

/// The binary operators, loosest last, each with the number of its
/// recursive level.
pub open spec fn operator_levels() -> Seq<(usize, SyntaxKind)> {
    seq![
        (11usize, SyntaxKind::ASTERISK),
        (12usize, SyntaxKind::SLASH),
        (13usize, SyntaxKind::PERCENT),
        (14usize, SyntaxKind::PLUS),
        (15usize, SyntaxKind::HYPHEN),
        (16usize, SyntaxKind::LEFTSHIFT),
        (17usize, SyntaxKind::RIGHTSHIFT),
        (18usize, SyntaxKind::URIGHTSHIFT),
        (19usize, SyntaxKind::LESS_THAN),
        (20usize, SyntaxKind::LESS_THAN_EQ),
        (21usize, SyntaxKind::GREATER_THAN),
        (22usize, SyntaxKind::GREATER_THAN_EQ),
        (23usize, SyntaxKind::EQUALITY),
        (24usize, SyntaxKind::NOTEQUAL),
        (25usize, SyntaxKind::SPACESHIP),
        (26usize, SyntaxKind::AMPERSAND),
        (27usize, SyntaxKind::CARET),
        (28usize, SyntaxKind::PIPE),
        (29usize, SyntaxKind::LOGICAL_AND),
        (30usize, SyntaxKind::LOGICAL_OR),
        (31usize, SyntaxKind::PIPE_OPERATOR),
    ]
}

pub open spec fn token(kind: SyntaxKind) -> ParserCombinator {
    ParserCombinator::spec_just(kind)
}

/// `identifier | atom | integer`, as a `PATTERN` node.
pub open spec fn pattern_grammar() -> ParserCombinator {
    token(SyntaxKind::IDENTIFIER).spec_or(token(SyntaxKind::ATOM)).spec_or(token(SyntaxKind::INTEGER)).spec_group_as(
        SyntaxKind::PATTERN,
    )
}

/// One level of a right-associative binary operator: an operand, then,
/// where the operator follows, the operator and this level again. Trivia
/// after the operand is read only where the operator follows it.
pub open spec fn binary_body(operand: ParserCombinator, operator: SyntaxKind, level: ParserCombinator) -> ParserCombinator {
    operand.spec_and_maybe(token(operator).spec_and_then(level))
}

pub open spec fn binary_level(id: usize, operand: ParserCombinator, operator: SyntaxKind) -> ParserCombinator {
    ParserCombinator::spec_recursive(id, binary_body(operand, operator, ParserCombinator::stand_in(id)))
}

/// The operator levels from the `k`th on, above `operand`.
pub open spec fn operator_chain(operand: ParserCombinator, k: nat) -> ParserCombinator
    decreases operator_levels().len() - k,
{
    if k >= operator_levels().len() {
        operand
    } else {
        operator_chain(binary_level(operator_levels()[k as int].0, operand, operator_levels()[k as int].1), k + 1)
    }
}

pub open spec fn intersection_body(atom: ParserCombinator, level: ParserCombinator) -> ParserCombinator {
    atom.spec_and_then(token(SyntaxKind::AMPERSAND).spec_and_then(level).spec_optional()).spec_group_as(
        SyntaxKind::TYPE_INTERSECTION,
    )
}

pub open spec fn union_body(intersection: ParserCombinator, level: ParserCombinator) -> ParserCombinator {
    intersection.spec_and_then(token(SyntaxKind::PIPE).spec_and_then(level).spec_optional()).spec_group_as(
        SyntaxKind::TYPE_UNION,
    )
}

/// The atoms of a type: a name with optional generic arguments, an atom,
/// a map or a tuple; `ty` stands for a whole type.
pub open spec fn type_atom(ty: ParserCombinator) -> ParserCombinator {
    let map_pair = token(SyntaxKind::IDENTIFIER).spec_and_then(token(SyntaxKind::COLON)).spec_and_then(
        ty,
    ).spec_group_as(SyntaxKind::MAP_PAIR);
    let map = map_pair.spec_repeated_with_trailing_separator(SyntaxKind::COMMA, SyntaxKind::RBRACE).spec_delimited(
        SyntaxKind::MAP_BRACE,
        SyntaxKind::RBRACE,
    ).spec_group_as(SyntaxKind::MAP);
    let tuple = ty.spec_group_as(SyntaxKind::TUPLE_ITEM).spec_repeated_with_trailing_separator(
        SyntaxKind::COMMA,
        SyntaxKind::RBRACE,
    ).spec_delimited(SyntaxKind::LBRACE, SyntaxKind::RBRACE).spec_group_as(SyntaxKind::TUPLE);
    let generic_application = token(SyntaxKind::IDENTIFIER).spec_and_then(
        ty.spec_group_as(SyntaxKind::GENERIC_ARG).spec_repeated_with_trailing_separator(
            SyntaxKind::COMMA,
            SyntaxKind::RBRACKET,
        ).spec_delimited(SyntaxKind::LBRACKET, SyntaxKind::RBRACKET).spec_group_as(
            SyntaxKind::GENERIC_ARGS,
        ).spec_optional(),
    );
    generic_application.spec_or(token(SyntaxKind::ATOM)).spec_or(map).spec_or(tuple)
}

/// A type, where `ty` stands for a whole type: a union of intersections
/// of atoms.
pub open spec fn type_body(ty: ParserCombinator) -> ParserCombinator {
    let intersection = ParserCombinator::spec_recursive(
        TYPE_INTERSECTION_ID,
        intersection_body(type_atom(ty), ParserCombinator::stand_in(TYPE_INTERSECTION_ID)),
    );
    ParserCombinator::spec_recursive(
        TYPE_UNION_ID,
        union_body(intersection, ParserCombinator::stand_in(TYPE_UNION_ID)),
    )
}

pub open spec fn type_grammar() -> ParserCombinator {
    ParserCombinator::spec_recursive(TYPE_ID, type_body(ParserCombinator::stand_in(TYPE_ID)))
}

/// Names separated by dots, where `accessor` stands for the whole list: a
/// name, then, where a dot follows, the dot and more names.
pub open spec fn accessor_body(accessor: ParserCombinator) -> ParserCombinator {
    token(SyntaxKind::IDENTIFIER).spec_and_maybe(token(SyntaxKind::DOT).spec_and_then(accessor))
}

/// The atoms of an expression; `expression` stands for a whole expression.
pub open spec fn expression_atom(expression: ParserCombinator) -> ParserCombinator {
    let let_expression = token(SyntaxKind::LET).spec_and_then(pattern_grammar()).spec_and_then(
        token(SyntaxKind::COLON).spec_and_then(type_grammar()).spec_optional(),
    ).spec_and_then(token(SyntaxKind::EQUAL)).spec_and_then(expression).spec_group_as(SyntaxKind::LET);
    let tuple = expression.spec_group_as(SyntaxKind::TUPLE_ITEM).spec_repeated_with_mandatory_trailing_separator_for_one_item(
        SyntaxKind::COMMA,
        SyntaxKind::RPAREN,
    ).spec_delimited(SyntaxKind::TUPLE_PAREN, SyntaxKind::RPAREN).spec_group_as(SyntaxKind::TUPLE);
    let block = expression.spec_repeated(SyntaxKind::RBRACE).spec_delimited(SyntaxKind::LBRACE, SyntaxKind::RBRACE);
    let map_pair = token(SyntaxKind::IDENTIFIER).spec_or(expression).spec_and_then(token(SyntaxKind::COLON)).spec_and_then(
        expression,
    ).spec_group_as(SyntaxKind::MAP_PAIR);
    let map = map_pair.spec_repeated_with_trailing_separator(SyntaxKind::COMMA, SyntaxKind::RBRACE).spec_delimited(
        SyntaxKind::MAP_BRACE,
        SyntaxKind::RBRACE,
    ).spec_group_as(SyntaxKind::MAP);
    let match_clause = pattern_grammar().spec_and_then(
        token(SyntaxKind::IF).spec_and_then(expression).spec_optional(),
    ).spec_and_then(token(SyntaxKind::FAT_ARROW)).spec_and_then(expression).spec_group_as(SyntaxKind::MATCH_CLAUSE);
    let match_expression = token(SyntaxKind::MATCH).spec_and_then(expression).spec_and_then(
        match_clause.spec_repeated(SyntaxKind::RBRACE).spec_delimited(SyntaxKind::LBRACE, SyntaxKind::RBRACE),
    ).spec_group_as(SyntaxKind::MATCH);
    let accessor = ParserCombinator::spec_recursive(
        ACCESSOR_ID,
        accessor_body(ParserCombinator::stand_in(ACCESSOR_ID)),
    );
    accessor.spec_or(token(SyntaxKind::IDENTIFIER)).spec_or(token(SyntaxKind::INTEGER)).spec_or(
        token(SyntaxKind::FRACTIONAL),
    ).spec_or(token(SyntaxKind::ATOM)).spec_or(token(SyntaxKind::STRING)).spec_or(let_expression).spec_or(
        tuple,
    ).spec_or(map).spec_or(block).spec_or(
        expression.spec_delimited(SyntaxKind::LPAREN, SyntaxKind::RPAREN),
    ).spec_or(match_expression)
}

/// An atom with an optional call, after an optional prefix operator. An
/// expression ends at its last token: the trivia after it is left to
/// whatever reads next.
pub open spec fn unary_expression(expression: ParserCombinator) -> ParserCombinator {
    let atom = expression_atom(expression);
    let function_call = token(SyntaxKind::LPAREN).spec_and_then(
        atom.spec_repeated_with_separator(SyntaxKind::COMMA).spec_optional(),
    ).spec_and_then(token(SyntaxKind::RPAREN));
    let call = atom.spec_and_maybe(function_call);
    token(SyntaxKind::EXCLAMATION_POINT).spec_or(token(SyntaxKind::HYPHEN)).spec_or(token(SyntaxKind::TILDE)).spec_and_then(
        call,
    ).spec_or(call)
}

pub open spec fn expression_body(expression: ParserCombinator) -> ParserCombinator {
    operator_chain(unary_expression(expression), 0).spec_group_as(SyntaxKind::EXPRESSION)
}

pub open spec fn expression_grammar() -> ParserCombinator {
    ParserCombinator::spec_recursive(EXPRESSION_ID, expression_body(ParserCombinator::stand_in(EXPRESSION_ID)))
}

/// `[` types `]`, as a `GENERIC_INTRODUCTION` node.
pub open spec fn generic_introduction_grammar() -> ParserCombinator {
    type_grammar().spec_repeated_with_trailing_separator(SyntaxKind::COMMA, SyntaxKind::RBRACKET).spec_delimited(
        SyntaxKind::LBRACKET,
        SyntaxKind::RBRACKET,
    ).spec_group_as(SyntaxKind::GENERIC_INTRODUCTION)
}

/// A keyword, then a name.
pub open spec fn keyword_and_name(keyword: SyntaxKind) -> ParserCombinator {
    ParserCombinator::spec_when(keyword, token(keyword).spec_and_then(token(SyntaxKind::IDENTIFIER)))
}

/// `import a/b/c as d`. The trivia after the keyword is skipped by the
/// sequencing that follows it.
pub open spec fn import_grammar() -> ParserCombinator {
    ParserCombinator::spec_when(SyntaxKind::IMPORT, token(SyntaxKind::IMPORT)).spec_and_then(
        ParserCombinator::spec_immediately_just(SyntaxKind::IDENTIFIER).spec_repeated_with_separator(SyntaxKind::SLASH),
    ).spec_and_then(token(SyntaxKind::AS).spec_and_then(token(SyntaxKind::IDENTIFIER)).spec_optional()).spec_group_as(
        SyntaxKind::IMPORT,
    )
}

/// `type Name[generics] = type`.
pub open spec fn type_definition_grammar() -> ParserCombinator {
    keyword_and_name(SyntaxKind::TYPE).spec_and_then(generic_introduction_grammar().spec_optional()).spec_and_then(
        token(SyntaxKind::EQUAL),
    ).spec_and_then(type_grammar()).spec_group_as(SyntaxKind::TYPE)
}

/// `fn name[generics](arg: type, ...) -> type { expressions }`.
pub open spec fn function_definition_grammar() -> ParserCombinator {
    let argument = token(SyntaxKind::IDENTIFIER).spec_and_then(token(SyntaxKind::COLON)).spec_and_then(
        type_grammar(),
    ).spec_group_as(SyntaxKind::FN_ARG);
    keyword_and_name(SyntaxKind::FN).spec_and_then(generic_introduction_grammar().spec_optional()).spec_and_then(
        argument.spec_repeated_with_trailing_separator(SyntaxKind::COMMA, SyntaxKind::RPAREN).spec_optional().spec_group_as(
            SyntaxKind::FN_ARGS,
        ).spec_delimited(SyntaxKind::LPAREN, SyntaxKind::RPAREN),
    ).spec_and_then(token(SyntaxKind::ARROW).spec_and_then(type_grammar()).spec_optional()).spec_and_then(
        expression_grammar().spec_repeated(SyntaxKind::RBRACE).spec_delimited(SyntaxKind::LBRACE, SyntaxKind::RBRACE).spec_optional(),
    ).spec_group_as(SyntaxKind::FN)
}

/// `trait Name[generics] { type and function definitions }`.
pub open spec fn trait_grammar() -> ParserCombinator {
    keyword_and_name(SyntaxKind::TRAIT).spec_and_then(generic_introduction_grammar().spec_optional()).spec_and_then(
        type_definition_grammar().spec_or(function_definition_grammar()).spec_repeated(SyntaxKind::RBRACE).spec_delimited(
            SyntaxKind::LBRACE,
            SyntaxKind::RBRACE,
        ),
    ).spec_group_as(SyntaxKind::TRAIT)
}

/// One top-level definition.
pub open spec fn definition_grammar() -> ParserCombinator {
    import_grammar().spec_or(trait_grammar()).spec_or(type_definition_grammar()).spec_or(function_definition_grammar())
}

/// An expression ends at its last token: whenever the expression grammar
/// succeeds, the last token it read is not trivia, so the trivia after an
/// expression stays outside its `EXPRESSION` node.
pub proof fn lemma_expression_ends_on_token(env: Bindings, m: ParseModel)
    requires
        bindings_read_to_a_token(env),
    ensures
        outcome(expression_grammar(), env, m).0 == ParseResult::Success ==> ends_on_token(
            outcome(expression_grammar(), env, m).1.events.skip(m.events.len() as int),
        ),
{
    lemma_expression_grammar_reads_to_a_token();
    lemma_reads_to_a_token(expression_grammar(), env, m);
}

proof fn lemma_chain_reads_to_a_token(operand: ParserCombinator, k: nat)
    requires
        reads_to_a_token(operand),
    ensures
        reads_to_a_token(operator_chain(operand, k)),
    decreases operator_levels().len() - k,
{
    if k < operator_levels().len() {
        let (id, operator) = operator_levels()[k as int];
        let level = binary_level(id, operand, operator);
        assert(reads_to_a_token(ParserCombinator::stand_in(id)));
        assert(reads_to_a_token(token(operator).spec_and_then(ParserCombinator::stand_in(id))));
        assert(reads_to_a_token(binary_body(operand, operator, ParserCombinator::stand_in(id))));
        assert(reads_to_a_token(level));
        lemma_chain_reads_to_a_token(level, k + 1);
    }
}

proof fn lemma_expression_grammar_reads_to_a_token()
    ensures
        reads_to_a_token(expression_grammar()),
{
    let e = ParserCombinator::stand_in(EXPRESSION_ID);
    reveal_with_fuel(reads_to_a_token, 16);
    assert(reads_to_a_token(e));
    assert(reads_to_a_token(
        ParserCombinator::spec_recursive(ACCESSOR_ID, accessor_body(ParserCombinator::stand_in(ACCESSOR_ID))),
    ));
    assert(reads_to_a_token(expression_atom(e)));
    assert(reads_to_a_token(unary_expression(e)));
    lemma_chain_reads_to_a_token(unary_expression(e), 0);
    assert(reads_to_a_token(expression_body(e)));
}

proof fn lemma_level_number(k: int)
    requires
        0 <= k < operator_levels().len(),
    ensures
        operator_levels()[k].0 == 11 + k,
{
    if k == 0 {
        assert(operator_levels()[0].0 == 11);
    } else if k == 1 {
        assert(operator_levels()[1].0 == 12);
    } else if k == 2 {
        assert(operator_levels()[2].0 == 13);
    } else if k == 3 {
        assert(operator_levels()[3].0 == 14);
    } else if k == 4 {
        assert(operator_levels()[4].0 == 15);
    } else if k == 5 {
        assert(operator_levels()[5].0 == 16);
    } else if k == 6 {
        assert(operator_levels()[6].0 == 17);
    } else if k == 7 {
        assert(operator_levels()[7].0 == 18);
    } else if k == 8 {
        assert(operator_levels()[8].0 == 19);
    } else if k == 9 {
        assert(operator_levels()[9].0 == 20);
    } else if k == 10 {
        assert(operator_levels()[10].0 == 21);
    } else if k == 11 {
        assert(operator_levels()[11].0 == 22);
    } else if k == 12 {
        assert(operator_levels()[12].0 == 23);
    } else if k == 13 {
        assert(operator_levels()[13].0 == 24);
    } else if k == 14 {
        assert(operator_levels()[14].0 == 25);
    } else if k == 15 {
        assert(operator_levels()[15].0 == 26);
    } else if k == 16 {
        assert(operator_levels()[16].0 == 27);
    } else if k == 17 {
        assert(operator_levels()[17].0 == 28);
    } else if k == 18 {
        assert(operator_levels()[18].0 == 29);
    } else if k == 19 {
        assert(operator_levels()[19].0 == 30);
    } else if k == 20 {
        assert(operator_levels()[20].0 == 31);
    }
}

/// The numbers of the operator levels from the `k`th on.
spec fn level_numbers(k: nat) -> Set<usize> {
    Set::new(|id: usize| 11 + k <= id <= 31)
}

proof fn lemma_chain_numbers(operand: ParserCombinator, k: nat, bound: Set<usize>)
    requires
        k <= operator_levels().len(),
        forall|id: usize| bound.contains(id) ==> id < 11 || id > 31,
        numbers_bound_once(operand, bound.union(level_numbers(k))),
    ensures
        numbers_bound_once(operator_chain(operand, k), bound),
    decreases operator_levels().len() - k,
{
    reveal_with_fuel(numbers_bound_once, 3);
    if k < operator_levels().len() {
        lemma_level_number(k as int);
        let (id, operator) = operator_levels()[k as int];
        let outer = bound.union(level_numbers(k + 1));
        assert(outer.insert(id) =~= bound.union(level_numbers(k)));
        assert(!outer.contains(id));
        let level = binary_level(id, operand, operator);
        assert(numbers_bound_once(token(operator).spec_and_then(ParserCombinator::stand_in(id)), outer.insert(id)));
        assert(numbers_bound_once(binary_body(operand, operator, ParserCombinator::stand_in(id)), outer.insert(id)));
        assert(numbers_bound_once(level, outer));
        lemma_chain_numbers(level, k + 1, bound);
    } else {
        assert(bound.union(level_numbers(k)) =~= bound);
    }
}

proof fn lemma_type_numbers(bound: Set<usize>)
    requires
        !bound.contains(TYPE_ID),
        !bound.contains(TYPE_INTERSECTION_ID),
        !bound.contains(TYPE_UNION_ID),
    ensures
        numbers_bound_once(type_grammar(), bound),
{
    reveal_with_fuel(numbers_bound_once, 12);
    let b1 = bound.insert(TYPE_ID);
    let b2 = b1.insert(TYPE_UNION_ID);
    let ty = ParserCombinator::stand_in(TYPE_ID);
    assert(numbers_bound_once(type_atom(ty), b2.insert(TYPE_INTERSECTION_ID)));
    let intersection = ParserCombinator::spec_recursive(
        TYPE_INTERSECTION_ID,
        intersection_body(type_atom(ty), ParserCombinator::stand_in(TYPE_INTERSECTION_ID)),
    );
    assert(numbers_bound_once(intersection, b2));
    assert(numbers_bound_once(type_body(ty), b1));
}

proof fn lemma_pattern_numbers(bound: Set<usize>)
    ensures
        numbers_bound_once(pattern_grammar(), bound),
{
    reveal_with_fuel(numbers_bound_once, 4);
}

proof fn lemma_expression_numbers(bound: Set<usize>)
    requires
        forall|id: usize| bound.contains(id) ==> id < 10 && id != ACCESSOR_ID && id != TYPE_ID && id != TYPE_INTERSECTION_ID && id != TYPE_UNION_ID,
    ensures
        numbers_bound_once(expression_grammar(), bound),
{
    let e = ParserCombinator::stand_in(EXPRESSION_ID);
    let b1 = bound.insert(EXPRESSION_ID);
    let inner = b1.union(level_numbers(0));
    lemma_type_numbers(inner);
    lemma_pattern_numbers(inner);
    reveal_with_fuel(numbers_bound_once, 12);
    assert(numbers_bound_once(
        ParserCombinator::spec_recursive(ACCESSOR_ID, accessor_body(ParserCombinator::stand_in(ACCESSOR_ID))),
        inner,
    ));
    let t = token(SyntaxKind::IDENTIFIER);
    let let_expression = token(SyntaxKind::LET).spec_and_then(pattern_grammar()).spec_and_then(
        token(SyntaxKind::COLON).spec_and_then(type_grammar()).spec_optional(),
    ).spec_and_then(token(SyntaxKind::EQUAL)).spec_and_then(e).spec_group_as(SyntaxKind::LET);
    assert(numbers_bound_once(let_expression, inner));
    let map_pair = t.spec_or(e).spec_and_then(token(SyntaxKind::COLON)).spec_and_then(e).spec_group_as(
        SyntaxKind::MAP_PAIR,
    );
    assert(numbers_bound_once(map_pair, inner));
    let match_clause = pattern_grammar().spec_and_then(token(SyntaxKind::IF).spec_and_then(e).spec_optional()).spec_and_then(
        token(SyntaxKind::FAT_ARROW),
    ).spec_and_then(e).spec_group_as(SyntaxKind::MATCH_CLAUSE);
    assert(numbers_bound_once(match_clause, inner));
    assert(numbers_bound_once(expression_atom(e), inner));
    assert(numbers_bound_once(unary_expression(e), inner));
    lemma_chain_numbers(unary_expression(e), 0, b1);
    assert(numbers_bound_once(expression_body(e), b1));
}

/// In the grammar, every stand-in is bound by a recursive combinator that
/// encloses it, and no recursive combinator reuses the number of one that
/// encloses it: each stand-in reaches the body it was made for.
pub proof fn law_grammar_numbers_bound_once()
    ensures
        numbers_bound_once(definition_grammar(), Set::empty()),
{
    let none = Set::<usize>::empty();
    lemma_type_numbers(none);
    lemma_expression_numbers(none);
    reveal_with_fuel(numbers_bound_once, 12);
    assert(numbers_bound_once(generic_introduction_grammar(), none));
    assert(numbers_bound_once(import_grammar(), none));
    assert(numbers_bound_once(type_definition_grammar(), none));
    assert(numbers_bound_once(function_definition_grammar(), none));
    assert(numbers_bound_once(trait_grammar(), none));
}

/// A pattern is one identifier, atom or integer: where the first token
/// after the trivia is one of these, the pattern rule succeeds and reads
/// exactly the trivia and that token, into a `PATTERN` node; on any other
/// token, or at the end of the input, it fails.
pub proof fn law_pattern(env: Bindings, m: ParseModel)
    ensures
        ({
            let inside = trivia_skipped(group_started(m, SyntaxKind::PATTERN));
            let (r, after) = outcome(pattern_grammar(), env, m);
            if inside.tokens.len() > 0 && (inside.tokens[0].0 == SyntaxKind::IDENTIFIER || inside.tokens[0].0
                == SyntaxKind::ATOM || inside.tokens[0].0 == SyntaxKind::INTEGER) {
                r == ParseResult::Success && after == group_ended(consumed(inside))
            } else {
                r != ParseResult::Success
            }
        }),
{
    let m0 = group_started(m, SyntaxKind::PATTERN);
    let inside = trivia_skipped(m0);
    lemma_trivia_skipped(m0);
    let identifier = token(SyntaxKind::IDENTIFIER);
    let atom = token(SyntaxKind::ATOM);
    let integer = token(SyntaxKind::INTEGER);
    let names = identifier.spec_or(atom);
    let choice = names.spec_or(integer);
    assert(identifier.prefixes() =~= seq![SyntaxKind::IDENTIFIER]);
    assert(atom.prefixes() =~= seq![SyntaxKind::ATOM]);
    assert(integer.prefixes() =~= seq![SyntaxKind::INTEGER]);
    assert(names.prefixes() =~= seq![SyntaxKind::IDENTIFIER, SyntaxKind::ATOM]);
    assert(trivia_skipped(inside) == inside);
    let found = inside.tokens.len() > 0 && (inside.tokens[0].0 == SyntaxKind::IDENTIFIER || inside.tokens[0].0
        == SyntaxKind::ATOM || inside.tokens[0].0 == SyntaxKind::INTEGER);
    if inside.tokens.len() > 0 {
        let kind = inside.tokens[0].0;
        if kind == SyntaxKind::IDENTIFIER {
            assert(identifier.prefixes()[0] == kind);
            assert(names.prefixes()[0] == kind);
            assert(outcome(identifier, env, inside) == (ParseResult::Success, consumed(inside)));
            assert(outcome(names, env, inside) == (ParseResult::Success, consumed(inside)));
        } else if kind == SyntaxKind::ATOM {
            assert(atom.prefixes()[0] == kind);
            assert(names.prefixes()[1] == kind);
            assert(!identifier.prefixes().contains(kind));
            assert(outcome(atom, env, inside) == (ParseResult::Success, consumed(inside)));
            assert(outcome(names, env, inside) == (ParseResult::Success, consumed(inside)));
        } else {
            assert(!names.prefixes().contains(kind));
            if kind == SyntaxKind::INTEGER {
                assert(integer.prefixes()[0] == kind);
                assert(outcome(integer, env, inside) == (ParseResult::Success, consumed(inside)));
            } else {
                assert(!integer.prefixes().contains(kind));
            }
        }
    }
    if found {
        assert(outcome(choice, env, m0) == (ParseResult::Success, consumed(inside)));
    } else {
        assert(outcome(choice, env, m0).0 != ParseResult::Success);
    }

}

} // verus!

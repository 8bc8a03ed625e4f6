//! The parser: runs the grammar over the tokens of a text and builds a
//! `rowan` tree of it.

use crate::lexer::lex;
use crate::lexer::span::Token;
use crate::lexer::tokens_from;
use crate::lexer::joined;
use crate::parser::combinator::consumed;
use crate::parser::combinator::extends;
use crate::parser::combinator::lemma_balanced_group;
use crate::parser::combinator::lemma_consumed;
use crate::parser::combinator::lemma_extends_trans;
use crate::parser::combinator::lemma_leaves_push;
use crate::parser::combinator::lemma_outcome;
use crate::parser::combinator::lemma_trivia_extends;
use crate::parser::combinator::lemma_trivia_skipped;
use crate::parser::combinator::stream;
use crate::parser::combinator::depth;
use crate::parser::combinator::group_ended;
use crate::parser::combinator::group_started;
use crate::parser::combinator::leaves;
use crate::parser::combinator::outcome;
use crate::parser::combinator::peek_kind_of;
use crate::parser::combinator::trivia_skipped;
use crate::parser::combinator::ParseModel;
use crate::parser::combinator::ParseResult;
use crate::parser::combinator::ParserCombinator;
use crate::parser::combinator::ParserState;
use crate::parser::combinator::TreeEvent;
use crate::parser::grammar::accessor_body;
use crate::parser::grammar::binary_body;
use crate::parser::grammar::binary_level;
use crate::parser::grammar::definition_grammar;
use crate::parser::grammar::expression_atom;
use crate::parser::grammar::expression_body;
use crate::parser::grammar::expression_grammar;
use crate::parser::grammar::function_definition_grammar;
use crate::parser::grammar::generic_introduction_grammar;
use crate::parser::grammar::import_grammar;
use crate::parser::grammar::intersection_body;
use crate::parser::grammar::operator_chain;
use crate::parser::grammar::operator_levels;
use crate::parser::grammar::pattern_grammar;
use crate::parser::grammar::trait_grammar;
use crate::parser::grammar::type_atom;
use crate::parser::grammar::type_body;
use crate::parser::grammar::type_definition_grammar;
use crate::parser::grammar::type_grammar;
use crate::parser::grammar::unary_expression;
use crate::parser::grammar::union_body;
use crate::parser::grammar::ACCESSOR_ID;
use crate::parser::grammar::EXPRESSION_ID;
use crate::parser::grammar::TYPE_ID;
use crate::parser::grammar::TYPE_INTERSECTION_ID;
use crate::parser::grammar::TYPE_UNION_ID;
use crate::parser::tree::finish;
use crate::parser::tree::finish_node;
use crate::parser::tree::lemma_single_tree;
use crate::parser::tree::lemma_text_of_prefix;
use crate::parser::tree::lemma_text_of_push;
use crate::parser::tree::new_builder;
use crate::parser::tree::add_token;
use crate::parser::tree::recorded;
use crate::parser::tree::single_tree;
use crate::parser::tree::start_node;
use crate::parser::tree::text_of;
use crate::parser::tree::tree_events;
use crate::parser::tree::utf8_len;
use crate::syntax_kind::SyntaxKind;
use rowan::GreenNode;
use vstd::prelude::*;

verus! {

/// One step of building the tree, as the parser records it.
#[derive(Clone, Copy)]
enum Step<'source> {
    Start(SyntaxKind),
    Leaf(SyntaxKind, &'source str),
    Finish,
}

impl<'source> View for Step<'source> {
    type V = TreeEvent;

    closed spec fn view(&self) -> TreeEvent {
        match *self {
            Step::Start(kind) => TreeEvent::Start(kind),
            Step::Leaf(kind, text) => TreeEvent::Leaf(kind, text@),
            Step::Finish => TreeEvent::Finish,
        }
    }
}

spec fn steps_view(steps: Seq<Step>) -> Seq<TreeEvent> {
    Seq::new(steps.len(), |i: int| steps[i]@)
}

/// The tokens still to read, next first, from a stack that holds the next
/// one last.
spec fn pending(stack: Seq<Token>) -> Seq<(SyntaxKind, Seq<char>)> {
    Seq::new(stack.len(), |i: int| (stack[stack.len() - 1 - i].kind, stack[stack.len() - 1 - i].contents@))
}

/// The kind of the first token that is not trivia.
spec fn first_after_trivia(tokens: Seq<(SyntaxKind, Seq<char>)>) -> Option<SyntaxKind>
    decreases tokens.len(),
{
    if tokens.len() == 0 {
        None
    } else if tokens[0].0.spec_is_trivia() {
        first_after_trivia(tokens.drop_first())
    } else {
        Some(tokens[0].0)
    }
}

proof fn lemma_first_after_trivia(m: ParseModel)
    ensures
        peek_kind_of(trivia_skipped(m)) == first_after_trivia(m.tokens),
    decreases m.tokens.len(),
{
    if m.tokens.len() > 0 && m.tokens[0].0.spec_is_trivia() {
        lemma_first_after_trivia(consumed(m));
    }
}

/// The tokens of `text`, each as its kind and its text.
pub open spec fn lexed(text: Seq<char>) -> Seq<(SyntaxKind, Seq<char>)> {
    Seq::new(
        tokens_from(text, 0).len(),
        |i: int| (tokens_from(text, 0)[i].0, text.subrange(tokens_from(text, 0)[i].1, tokens_from(text, 0)[i].2)),
    )
}

/// Definitions, one after the other, to the end of the input. Where the
/// grammar fails, or succeeds without reading a token, the next token goes
/// into an `ERROR` node and is reported (as `None` at the end of input).
pub open spec fn definitions(grammar: ParserCombinator, m: ParseModel) -> (ParseModel, Seq<Option<(SyntaxKind, Seq<char>)>>)
    decreases m.tokens.len(),
{
    let (r, m1) = outcome(grammar, Seq::empty(), m);
    if r == ParseResult::Eof {
        (m1, Seq::empty())
    } else if r == ParseResult::Success && m1.tokens.len() < m.tokens.len() {
        definitions(grammar, m1)
    } else {
        let bad = if m1.tokens.len() > 0 {
            Some(m1.tokens[0])
        } else {
            None
        };
        let m2 = group_ended(consumed(group_started(m1, SyntaxKind::ERROR)));
        if m2.tokens.len() < m.tokens.len() {
            let (m3, rest) = definitions(grammar, m2);
            (m3, seq![bad] + rest)
        } else {
            (m2, seq![bad])
        }
    }
}

/// The tree events and the reported tokens of parsing the tokens of `m`:
/// a `ROOT` node around the definitions and any trivia after them.
pub open spec fn parsed(m: ParseModel) -> (Seq<TreeEvent>, Seq<Option<(SyntaxKind, Seq<char>)>>) {
    let (m1, bad) = definitions(definition_grammar(), group_started(m, SyntaxKind::ROOT));
    (group_ended(trivia_skipped(m1)).events, bad)
}

/// The text that `format!("{:?}")` gives for a token of `kind` with `text`.
pub uninterp spec fn debug_text(kind: SyntaxKind, text: Seq<char>) -> Seq<char>;

/// The error reported for a token that no definition can start with.
pub open spec fn error_message(bad: Option<(SyntaxKind, Seq<char>)>) -> Seq<char> {
    "unexpected token: "@ + match bad {
        Some((kind, text)) => debug_text(kind, text),
        None => "end of file"@,
    }
}

/// `format!("{token:?}")`: the derived `Debug` text of a token.
#[verifier::external_body]
fn describe(token: Token) -> (r: String)
    ensures
        r@ == debug_text(token.kind, token.contents@),
{
    format!("{token:?}")
}

/// A parsed text: its syntax tree, and an error for each token that no
/// definition could start with.
#[derive(Debug)]
pub struct Parse {
    green_node: GreenNode,
    errors: Vec<String>,
}

impl Parse {
    /// The events that build the tree.
    pub closed spec fn events(&self) -> Seq<TreeEvent> {
        crate::parser::tree::tree_events(self.green_node)
    }

    /// The error messages, in the order of the text.
    pub closed spec fn messages(&self) -> Seq<Seq<char>> {
        Seq::new(self.errors@.len(), |i: int| self.errors@[i]@)
    }

    pub fn green_node(&self) -> (r: &GreenNode)
        ensures
            crate::parser::tree::tree_events(*r) == self.events(),
    {
        &self.green_node
    }

    pub fn errors(&self) -> (r: &Vec<String>)
        ensures
            r@.len() == self.messages().len(),
            forall|i: int| 0 <= i < r@.len() ==> #[trigger] r@[i]@ == self.messages()[i],
    {
        &self.errors
    }
}

struct Parser<'source> {
    /// The tokens still to read, the next one last.
    tokens: Vec<Token<'source>>,
    steps: Vec<Step<'source>>,
    open: Ghost<nat>,
}

impl<'source> ParserState for Parser<'source> {
    closed spec fn model(&self) -> ParseModel {
        ParseModel { tokens: pending(self.tokens@), events: steps_view(self.steps@), open: self.open@ }
    }

    fn peek_kind(&self) -> (r: Option<SyntaxKind>) {
        let n = self.tokens.len();
        if n > 0 {
            Some(self.tokens[n - 1].kind)
        } else {
            None
        }
    }

    fn peek_kind_after_trivia(&self) -> (r: Option<SyntaxKind>) {
        let ghost all = self.model().tokens;
        let n = self.tokens.len();
        let mut k = n;
        proof {
            lemma_first_after_trivia(self.model());
            assert(all.skip(0) =~= all);
        }
        loop
            invariant
                k <= n,
                n == self.tokens.len(),
                all == pending(self.tokens@),
                all == self.model().tokens,
                peek_kind_of(trivia_skipped(self.model())) == first_after_trivia(all),
                first_after_trivia(all) == first_after_trivia(all.skip(n - k)),
            decreases k,
        {
            if k == 0 {
                proof {
                    assert(all.skip(n - k) =~= Seq::<(SyntaxKind, Seq<char>)>::empty());
                }
                return None;
            }
            let kind = self.tokens[k - 1].kind;
            proof {
                assert(all.skip(n - k)[0] == all[n - k]);
                assert(all.skip(n - k).drop_first() =~= all.skip(n - k + 1));
            }
            if !kind.is_trivia() {
                return Some(kind);
            }
            k = k - 1;
        }
    }

    fn is_at_eof(&self) -> (r: bool) {
        self.tokens.len() == 0
    }

    fn remaining(&self) -> (r: usize) {
        self.tokens.len()
    }

    fn start_group(&mut self, kind: SyntaxKind) {
        self.steps.push(Step::Start(kind));
        self.open = Ghost((self.open@ + 1) as nat);
        proof {
            assert(steps_view(self.steps@) =~= steps_view(old(self).steps@).push(TreeEvent::Start(kind)));
        }
    }

    fn end_group(&mut self) {
        self.steps.push(Step::Finish);
        self.open = Ghost((self.open@ - 1) as nat);
        proof {
            assert(steps_view(self.steps@) =~= steps_view(old(self).steps@).push(TreeEvent::Finish));
        }
    }

    fn consume_trivia(&mut self) {
        let ghost start = self.model();
        loop
            invariant
                trivia_skipped(self.model()) == trivia_skipped(start),
            ensures
                self.model() == trivia_skipped(start),
            decreases self.tokens.len(),
        {
            let n = self.tokens.len();
            if n == 0 || !self.tokens[n - 1].kind.is_trivia() {
                break;
            }
            proof {
                assert(self.model().tokens.len() == n);
            }
            self.consume();
            proof {
                assert(self.model().tokens.len() == self.tokens.len());
            }
        }
    }

    /// Moves the next token into the tree.
    fn consume(&mut self) {
        let ghost before = self.model();
        match self.tokens.pop() {
            Some(token) => {
                self.steps.push(Step::Leaf(token.kind, token.contents));
                proof {
                    assert(pending(self.tokens@) =~= before.tokens.drop_first());
                    assert(steps_view(self.steps@) =~= before.events.push(
                        TreeEvent::Leaf(token.kind, token.contents@),
                    ));
                }
            },
            None => {},
        }
    }

    fn expect(&mut self, kind: SyntaxKind) -> (r: ParseResult) {
        self.consume_trivia();
        self.expect_immediate(kind)
    }

    fn expect_immediate(&mut self, kind: SyntaxKind) -> (r: ParseResult) {
        let n = self.tokens.len();
        if n > 0 && self.tokens[n - 1].kind == kind {
            self.consume();
            ParseResult::Success
        } else if n == 0 {
            ParseResult::Eof
        } else {
            ParseResult::UnexpectedToken
        }
    }
}

fn just(kind: SyntaxKind) -> (r: ParserCombinator)
    ensures
        r == ParserCombinator::spec_just(kind),
{
    ParserCombinator::just(kind)
}

fn pattern() -> (r: ParserCombinator)
    ensures
        r == pattern_grammar(),
{
    just(SyntaxKind::IDENTIFIER).or(just(SyntaxKind::ATOM)).or(just(SyntaxKind::INTEGER)).group_as(SyntaxKind::PATTERN)
}

fn type_atom_of(ty: ParserCombinator) -> (r: ParserCombinator)
    ensures
        r == type_atom(ty),
{
    let map_pair = just(SyntaxKind::IDENTIFIER).and_then(just(SyntaxKind::COLON)).and_then(ty.clone()).group_as(
        SyntaxKind::MAP_PAIR,
    );
    let map = map_pair.repeated_with_trailing_separator(SyntaxKind::COMMA, SyntaxKind::RBRACE).delimited(
        SyntaxKind::MAP_BRACE,
        SyntaxKind::RBRACE,
    ).group_as(SyntaxKind::MAP);
    let tuple = ty.clone().group_as(SyntaxKind::TUPLE_ITEM).repeated_with_trailing_separator(
        SyntaxKind::COMMA,
        SyntaxKind::RBRACE,
    ).delimited(SyntaxKind::LBRACE, SyntaxKind::RBRACE).group_as(SyntaxKind::TUPLE);
    let generic_application = just(SyntaxKind::IDENTIFIER).and_then(
        ty.group_as(SyntaxKind::GENERIC_ARG).repeated_with_trailing_separator(
            SyntaxKind::COMMA,
            SyntaxKind::RBRACKET,
        ).delimited(SyntaxKind::LBRACKET, SyntaxKind::RBRACKET).group_as(SyntaxKind::GENERIC_ARGS).optional(),
    );
    generic_application.or(just(SyntaxKind::ATOM)).or(map).or(tuple)
}

fn type_body_of(ty: ParserCombinator) -> (r: ParserCombinator)
    ensures
        r == type_body(ty),
{
    let atom = type_atom_of(ty);
    let intersection_of = move |level: ParserCombinator| -> (r: ParserCombinator)
        ensures
            r == intersection_body(atom, level),
        {
            atom.and_then(just(SyntaxKind::AMPERSAND).and_then(level).optional()).group_as(
                SyntaxKind::TYPE_INTERSECTION,
            )
        };
    let intersection = ParserCombinator::recursive(TYPE_INTERSECTION_ID, intersection_of);
    let union_of = move |level: ParserCombinator| -> (r: ParserCombinator)
        ensures
            r == union_body(intersection, level),
        {
            intersection.and_then(just(SyntaxKind::PIPE).and_then(level).optional()).group_as(SyntaxKind::TYPE_UNION)
        };
    ParserCombinator::recursive(TYPE_UNION_ID, union_of)
}

/// A type: a union of intersections of atoms.
fn type_rule() -> (r: ParserCombinator)
    ensures
        r == type_grammar(),
{
    let body_of = |ty: ParserCombinator| -> (r: ParserCombinator)
        ensures
            r == type_body(ty),
        { type_body_of(ty) };
    ParserCombinator::recursive(TYPE_ID, body_of)
}

fn expression_atom_of(expression: ParserCombinator) -> (r: ParserCombinator)
    ensures
        r == expression_atom(expression),
{
    let let_expression = just(SyntaxKind::LET).and_then(pattern()).and_then(
        just(SyntaxKind::COLON).and_then(type_rule()).optional(),
    ).and_then(just(SyntaxKind::EQUAL)).and_then(expression.clone()).group_as(SyntaxKind::LET);
    let tuple = expression.clone().group_as(SyntaxKind::TUPLE_ITEM).repeated_with_mandatory_trailing_separator_for_one_item(
        SyntaxKind::COMMA,
        SyntaxKind::RPAREN,
    ).delimited(SyntaxKind::TUPLE_PAREN, SyntaxKind::RPAREN).group_as(SyntaxKind::TUPLE);
    let block = expression.clone().repeated(SyntaxKind::RBRACE).delimited(SyntaxKind::LBRACE, SyntaxKind::RBRACE);
    let map_pair = just(SyntaxKind::IDENTIFIER).or(expression.clone()).and_then(just(SyntaxKind::COLON)).and_then(
        expression.clone(),
    ).group_as(SyntaxKind::MAP_PAIR);
    let map = map_pair.repeated_with_trailing_separator(SyntaxKind::COMMA, SyntaxKind::RBRACE).delimited(
        SyntaxKind::MAP_BRACE,
        SyntaxKind::RBRACE,
    ).group_as(SyntaxKind::MAP);
    let match_clause = pattern().and_then(just(SyntaxKind::IF).and_then(expression.clone()).optional()).and_then(
        just(SyntaxKind::FAT_ARROW),
    ).and_then(expression.clone()).group_as(SyntaxKind::MATCH_CLAUSE);
    let match_expression = just(SyntaxKind::MATCH).and_then(expression.clone()).and_then(
        match_clause.repeated(SyntaxKind::RBRACE).delimited(SyntaxKind::LBRACE, SyntaxKind::RBRACE),
    ).group_as(SyntaxKind::MATCH);
    let accessor_of = |accessor: ParserCombinator| -> (r: ParserCombinator)
        ensures
            r == accessor_body(accessor),
        { just(SyntaxKind::IDENTIFIER).and_maybe(just(SyntaxKind::DOT).and_then(accessor)) };
    let accessor = ParserCombinator::recursive(ACCESSOR_ID, accessor_of);
    accessor.or(just(SyntaxKind::IDENTIFIER)).or(just(SyntaxKind::INTEGER)).or(just(SyntaxKind::FRACTIONAL)).or(
        just(SyntaxKind::ATOM),
    ).or(just(SyntaxKind::STRING)).or(let_expression).or(tuple).or(map).or(block).or(
        expression.delimited(SyntaxKind::LPAREN, SyntaxKind::RPAREN),
    ).or(match_expression)
}

fn unary_expression_of(expression: ParserCombinator) -> (r: ParserCombinator)
    ensures
        r == unary_expression(expression),
{
    let atom = expression_atom_of(expression);
    let function_call = just(SyntaxKind::LPAREN).and_then(
        atom.clone().repeated_with_separator(SyntaxKind::COMMA).optional(),
    ).and_then(just(SyntaxKind::RPAREN));
    let call = atom.and_maybe(function_call);
    just(SyntaxKind::EXCLAMATION_POINT).or(just(SyntaxKind::HYPHEN)).or(just(SyntaxKind::TILDE)).and_then(
        call.clone(),
    ).or(call)
}

fn binary_level_of(id: usize, operand: ParserCombinator, operator: SyntaxKind) -> (r: ParserCombinator)
    ensures
        r == binary_level(id, operand, operator),
{
    let body_of = move |level: ParserCombinator| -> (r: ParserCombinator)
        ensures
            r == binary_body(operand, operator, level),
        { operand.and_maybe(just(operator).and_then(level)) };
    ParserCombinator::recursive(id, body_of)
}

fn operator_chain_of(operand: ParserCombinator) -> (r: ParserCombinator)
    ensures
        r == operator_chain(operand, 0),
{
    let levels: Vec<(usize, SyntaxKind)> = vec![
        (11usize, SyntaxKind::ASTERISK),
        (12usize, SyntaxKind::SLASH),
        (13usize, SyntaxKind::PERCENT),
        (14usize, SyntaxKind::PLUS),
        (15usize, SyntaxKind::HYPHEN),
        (16usize, SyntaxKind::LEFTSHIFT),
        (17usize, SyntaxKind::RIGHTSHIFT),
        (18usize, SyntaxKind::URIGHTSHIFT),
        (19usize, SyntaxKind::LESS_THAN),
        (20usize, SyntaxKind::LESS_THAN_EQ),
        (21usize, SyntaxKind::GREATER_THAN),
        (22usize, SyntaxKind::GREATER_THAN_EQ),
        (23usize, SyntaxKind::EQUALITY),
        (24usize, SyntaxKind::NOTEQUAL),
        (25usize, SyntaxKind::SPACESHIP),
        (26usize, SyntaxKind::AMPERSAND),
        (27usize, SyntaxKind::CARET),
        (28usize, SyntaxKind::PIPE),
        (29usize, SyntaxKind::LOGICAL_AND),
        (30usize, SyntaxKind::LOGICAL_OR),
        (31usize, SyntaxKind::PIPE_OPERATOR),
    ];
    proof {
        assert(levels@ =~= operator_levels());
    }
    let ghost start = operand;
    let mut chain = operand;
    let mut k: usize = 0;
    while k < levels.len()
        invariant
            levels@ == operator_levels(),
            k <= levels.len(),
            operator_chain(chain, k as nat) == operator_chain(start, 0),
        decreases levels.len() - k,
    {
        let (id, operator) = levels[k];
        chain = binary_level_of(id, chain, operator);
        k = k + 1;
    }
    chain
}

/// An expression: prefix operators, calls and the binary operators, from
/// the tightest to the loosest, over the atoms.
fn expression() -> (r: ParserCombinator)
    ensures
        r == expression_grammar(),
{
    let body_of = |expression: ParserCombinator| -> (r: ParserCombinator)
        ensures
            r == expression_body(expression),
        { operator_chain_of(unary_expression_of(expression)).group_as(SyntaxKind::EXPRESSION) };
    ParserCombinator::recursive(EXPRESSION_ID, body_of)
}

fn generic_argument_introduction() -> (r: ParserCombinator)
    ensures
        r == generic_introduction_grammar(),
{
    type_rule().repeated_with_trailing_separator(SyntaxKind::COMMA, SyntaxKind::RBRACKET).delimited(
        SyntaxKind::LBRACKET,
        SyntaxKind::RBRACKET,
    ).group_as(SyntaxKind::GENERIC_INTRODUCTION)
}

fn keyword_and_name_of(keyword: SyntaxKind) -> (r: ParserCombinator)
    ensures
        r == crate::parser::grammar::keyword_and_name(keyword),
{
    ParserCombinator::when(keyword, just(keyword).and_then(just(SyntaxKind::IDENTIFIER)))
}

fn import_definition() -> (r: ParserCombinator)
    ensures
        r == import_grammar(),
{
    ParserCombinator::when(SyntaxKind::IMPORT, just(SyntaxKind::IMPORT)).and_then(
        ParserCombinator::immediately_just(SyntaxKind::IDENTIFIER).repeated_with_separator(SyntaxKind::SLASH),
    ).and_then(just(SyntaxKind::AS).and_then(just(SyntaxKind::IDENTIFIER)).optional()).group_as(SyntaxKind::IMPORT)
}

fn type_definition() -> (r: ParserCombinator)
    ensures
        r == type_definition_grammar(),
{
    keyword_and_name_of(SyntaxKind::TYPE).and_then(generic_argument_introduction().optional()).and_then(
        just(SyntaxKind::EQUAL),
    ).and_then(type_rule()).group_as(SyntaxKind::TYPE)
}

fn function_definition() -> (r: ParserCombinator)
    ensures
        r == function_definition_grammar(),
{
    let argument = just(SyntaxKind::IDENTIFIER).and_then(just(SyntaxKind::COLON)).and_then(type_rule()).group_as(
        SyntaxKind::FN_ARG,
    );
    keyword_and_name_of(SyntaxKind::FN).and_then(generic_argument_introduction().optional()).and_then(
        argument.repeated_with_trailing_separator(SyntaxKind::COMMA, SyntaxKind::RPAREN).optional().group_as(
            SyntaxKind::FN_ARGS,
        ).delimited(SyntaxKind::LPAREN, SyntaxKind::RPAREN),
    ).and_then(just(SyntaxKind::ARROW).and_then(type_rule()).optional()).and_then(
        expression().repeated(SyntaxKind::RBRACE).delimited(SyntaxKind::LBRACE, SyntaxKind::RBRACE).optional(),
    ).group_as(SyntaxKind::FN)
}

fn trait_definition() -> (r: ParserCombinator)
    ensures
        r == trait_grammar(),
{
    keyword_and_name_of(SyntaxKind::TRAIT).and_then(generic_argument_introduction().optional()).and_then(
        type_definition().or(function_definition()).repeated(SyntaxKind::RBRACE).delimited(
            SyntaxKind::LBRACE,
            SyntaxKind::RBRACE,
        ),
    ).group_as(SyntaxKind::TRAIT)
}

fn definition() -> (r: ParserCombinator)
    ensures
        r == definition_grammar(),
{
    import_definition().or(trait_definition()).or(type_definition()).or(function_definition())
}

/// An `ERROR` node around the next token moves it into the tree like any
/// other parsing.
pub proof fn lemma_error_node(m: ParseModel)
    ensures
        extends(m, group_ended(consumed(group_started(m, SyntaxKind::ERROR)))),
{
    let m0 = group_started(m, SyntaxKind::ERROR);
    let m1 = consumed(m0);
    let m2 = group_ended(m1);
    lemma_consumed(m0);
    lemma_leaves_push(m.events, TreeEvent::Start(SyntaxKind::ERROR));
    lemma_leaves_push(m1.events, TreeEvent::Finish);
    assert(m0.events.subrange(0, m.events.len() as int) =~= m.events);
    assert(m2.events.subrange(0, m1.events.len() as int) =~= m1.events);
    assert(m2.events.subrange(0, m.events.len() as int) =~= m1.events.subrange(0, m0.events.len() as int).subrange(0, m.events.len() as int));
    let inside = m1.events.skip(m0.events.len() as int);
    assert(m2.events.skip(m.events.len() as int) =~= seq![TreeEvent::Start(SyntaxKind::ERROR)] + inside + seq![TreeEvent::Finish]);
    lemma_balanced_group(SyntaxKind::ERROR, inside);
}

/// Parsing definitions reads the whole input, and only moves it into the
/// tree, in nodes that are all closed.
pub proof fn lemma_definitions(grammar: ParserCombinator, m: ParseModel)
    ensures
        extends(m, definitions(grammar, m).0),
        definitions(grammar, m).0.tokens.len() == 0,
    decreases m.tokens.len(),
{
    lemma_outcome(grammar, Seq::empty(), m);
    let (r, m1) = outcome(grammar, Seq::empty(), m);
    if r == ParseResult::Eof {
    } else if r == ParseResult::Success && m1.tokens.len() < m.tokens.len() {
        lemma_definitions(grammar, m1);
        lemma_extends_trans(m, m1, definitions(grammar, m1).0);
    } else {
        let m2 = group_ended(consumed(group_started(m1, SyntaxKind::ERROR)));
        lemma_error_node(m1);
        lemma_extends_trans(m, m1, m2);
        if m2.tokens.len() < m.tokens.len() {
            lemma_definitions(grammar, m2);
            lemma_extends_trans(m, m2, definitions(grammar, m2).0);
        }
    }
}

/// What parsing the tokens of `m` (with no tree yet) gives is one `ROOT`
/// node that holds every token, in order.
pub proof fn lemma_parsed(m: ParseModel)
    requires
        m.events.len() == 0,
    ensures
        single_tree(parsed(m).0),
        parsed(m).0[0] == TreeEvent::Start(SyntaxKind::ROOT),
        leaves(parsed(m).0) == m.tokens,
{
    let ms = group_started(m, SyntaxKind::ROOT);
    let ml = definitions(definition_grammar(), ms).0;
    let mt = trivia_skipped(ml);
    lemma_definitions(definition_grammar(), ms);
    lemma_trivia_extends(ml);
    lemma_extends_trans(ms, ml, mt);
    assert(ms.events =~= seq![TreeEvent::Start(SyntaxKind::ROOT)]);
    let inside = mt.events.skip(1);
    assert(mt.events =~= seq![TreeEvent::Start(SyntaxKind::ROOT)] + inside);
    assert(parsed(m).0 =~= seq![TreeEvent::Start(SyntaxKind::ROOT)] + inside + seq![TreeEvent::Finish]);
    lemma_single_tree(SyntaxKind::ROOT, inside);
    lemma_leaves_push(m.events, TreeEvent::Start(SyntaxKind::ROOT));
    lemma_leaves_push(mt.events, TreeEvent::Finish);
    assert(leaves(m.events) =~= Seq::<(SyntaxKind, Seq<char>)>::empty());
    assert(stream(ms) =~= m.tokens);
    assert(mt.tokens.len() == 0);
    assert(stream(mt) =~= leaves(mt.events));
}

/// Feeds the steps to a `rowan` builder, in order, and takes the tree.
fn build_tree(steps: &Vec<Step>) -> (node: GreenNode)
    requires
        single_tree(steps_view(steps@)),
        utf8_len(text_of(leaves(steps_view(steps@)))) <= u32::MAX,
    ensures
        tree_events(node) == steps_view(steps@),
{
    let ghost all = steps_view(steps@);
    let mut builder = new_builder();
    let mut i: usize = 0;
    while i < steps.len()
        invariant
            i <= steps.len(),
            all == steps_view(steps@),
            single_tree(all),
            utf8_len(text_of(leaves(all))) <= u32::MAX,
            recorded(builder) == all.take(i as int),
        decreases steps.len() - i,
    {
        proof {
            assert(all.take(i + 1) =~= all.take(i as int).push(all[i as int]));
            assert(all.take(i + 1).drop_last() =~= all.take(i as int));
        }
        match steps[i] {
            Step::Start(kind) => start_node(&mut builder, kind),
            Step::Leaf(kind, text) => add_token(&mut builder, kind, text),
            Step::Finish => {
                proof {
                    if i + 1 < all.len() {
                        assert(depth(all.take(i + 1)) > 0);
                    } else {
                        assert(all.take(i + 1) =~= all);
                    }
                    lemma_text_of_prefix(all, i as int);
                }
                finish_node(&mut builder);
            },
        }
        i = i + 1;
    }
    proof {
        assert(all.take(i as int) =~= all);
    }
    finish(builder)
}

impl<'source> Parser<'source> {
    /// The next token, if any.
    fn peek(&self) -> (r: Option<Token<'source>>)
        ensures
            match r {
                Some(token) => self.model().tokens.len() > 0 && self.model().tokens[0] == (
                    token.kind,
                    token.contents@,
                ),
                None => self.model().tokens.len() == 0,
            },
    {
        let n = self.tokens.len();
        if n > 0 {
            Some(self.tokens[n - 1])
        } else {
            None
        }
    }

    /// The error for the next token, which no definition could start with.
    fn error_for_next(&self) -> (r: String)
        ensures
            r@ == error_message(
                if self.model().tokens.len() > 0 {
                    Some(self.model().tokens[0])
                } else {
                    None
                },
            ),
    {
        let mut message = String::new();
        message.append("unexpected token: ");
        match self.peek() {
            Some(token) => {
                let description = describe(token);
                message.append(description.as_str());
            },
            None => message.append("end of file"),
        }
        message
    }

    fn parse(self) -> (p: Parse)
        requires
            self.model().events.len() == 0,
            self.model().open == 0,
            utf8_len(text_of(self.model().tokens)) <= u32::MAX,
        ensures
            p.events() == parsed(self.model()).0,
            p.messages() == Seq::new(parsed(self.model()).1.len(), |i: int| error_message(parsed(self.model()).1[i])),
    {
        let mut this = self;
        let ghost m0 = this.model();
        this.start_group(SyntaxKind::ROOT);
        let grammar = definition();
        let ghost target = definitions(definition_grammar(), this.model());
        let ghost mut bad: Seq<Option<(SyntaxKind, Seq<char>)>> = Seq::empty();
        let mut errors: Vec<String> = Vec::new();
        loop
            invariant_except_break
                grammar == definition_grammar(),
                definitions(definition_grammar(), this.model()).0 == target.0,
                bad + definitions(definition_grammar(), this.model()).1 == target.1,
            invariant
                errors@.len() == bad.len(),
                forall|i: int| 0 <= i < bad.len() ==> #[trigger] errors@[i]@ == error_message(bad[i]),
            ensures
                this.model() == target.0,
                bad == target.1,
            decreases this.tokens.len(),
        {
            let ghost m = this.model();
            let before = this.remaining();
            let r = grammar.run(&mut this);
            if r == ParseResult::Eof {
                proof {
                    assert(bad + Seq::<Option<(SyntaxKind, Seq<char>)>>::empty() =~= bad);
                }
                break;
            }
            if r == ParseResult::Success && this.remaining() < before {
                continue;
            }
            let ghost m1 = this.model();
            let ghost next = if m1.tokens.len() > 0 {
                Some(m1.tokens[0])
            } else {
                None
            };
            this.start_group(SyntaxKind::ERROR);
            let message = this.error_for_next();
            errors.push(message);
            this.consume();
            this.end_group();
            proof {
                assert((bad.push(next) + definitions(definition_grammar(), this.model()).1) =~= (bad + (seq![next] + definitions(definition_grammar(), this.model()).1)));
                bad = bad.push(next);
            }
            if this.remaining() >= before {
                break;
            }
        }
        proof {
            lemma_definitions(definition_grammar(), group_started(m0, SyntaxKind::ROOT));
            lemma_trivia_skipped(this.model());
        }
        this.consume_trivia();
        this.end_group();
        proof {
            lemma_parsed(m0);
        }
        let green_node = build_tree(&this.steps);
        Parse { green_node, errors }
    }
}

/// The tokens, each as its kind and its text.
pub open spec fn token_views(tokens: Seq<Token>) -> Seq<(SyntaxKind, Seq<char>)> {
    Seq::new(tokens.len(), |i: int| (tokens[i].kind, tokens[i].contents@))
}

proof fn lemma_joined_text(tokens: Seq<Token>)
    ensures
        text_of(token_views(tokens)) == joined(tokens),
    decreases tokens.len(),
{
    if tokens.len() > 0 {
        lemma_joined_text(tokens.drop_last());
        assert(token_views(tokens) =~= token_views(tokens.drop_last()).push(
            (tokens.last().kind, tokens.last().contents@),
        ));
        lemma_text_of_push(token_views(tokens.drop_last()), (tokens.last().kind, tokens.last().contents@));
    } else {
        assert(token_views(tokens) =~= Seq::<(SyntaxKind, Seq<char>)>::empty());
    }
}

/// The state that parsing `text` starts from: its tokens, and no tree yet.
pub open spec fn start_of(text: Seq<char>) -> ParseModel {
    ParseModel { tokens: lexed(text), events: Seq::empty(), open: 0 }
}

/// Parses `text` into a tree with a `ROOT` node at the top, reporting each
/// token that no definition could start with.
///
/// The tree is lossless: its tokens are those of `text`, in order, so
/// their texts give `text` back. `text` may be at most `u32::MAX` bytes
/// long, as `rowan` keeps lengths in 32 bits.
pub fn parse(text: &str) -> (p: Parse)
    requires
        utf8_len(text@) <= u32::MAX,
    ensures
        p.events() == parsed(start_of(text@)).0,
        p.messages() == Seq::new(
            parsed(start_of(text@)).1.len(),
            |i: int| error_message(parsed(start_of(text@)).1[i]),
        ),
        single_tree(p.events()),
        p.events()[0] == TreeEvent::Start(SyntaxKind::ROOT),
        leaves(p.events()) == lexed(text@),
        text_of(leaves(p.events())) == text@,
{
    let mut forward = lex(text);
    let ghost original = forward@;
    let ghost n = original.len();
    proof {
        assert(token_views(original) =~= lexed(text@));
        lemma_joined_text(original);
    }
    let mut stack: Vec<Token> = Vec::new();
    while forward.len() > 0
        invariant
            n == original.len(),
            forward@.len() + stack@.len() == n,
            forward@ == original.take(forward@.len() as int),
            forall|j: int| 0 <= j < stack@.len() ==> #[trigger] stack@[j] == original[n - 1 - j],
        decreases forward.len(),
    {
        let ghost k = forward@.len() as int;
        match forward.pop() {
            Some(token) => {
                proof {
                    assert(token == original[k - 1]);
                }
                stack.push(token);
            },
            None => {},
        }
        proof {
            assert(forward@ =~= original.take(k - 1));
        }
    }
    proof {
        assert(pending(stack@) =~= lexed(text@));
    }
    let parser = Parser { tokens: stack, steps: Vec::new(), open: Ghost(0) };
    proof {
        assert(parser.model().events =~= Seq::<TreeEvent>::empty());
        assert(parser.model() == start_of(text@));
        lemma_parsed(start_of(text@));
    }
    parser.parse()
}

} // verus!

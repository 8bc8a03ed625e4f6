//! Parser combinators over a token stream that builds a syntax tree.
//!
//! A combinator is data: a rule over smaller combinators. What it means is
//! the spec function `outcome`, which `ParserCombinator::run` is proved to
//! carry out on any `ParserState`.

use crate::syntax_kind::SyntaxKind;
use vstd::prelude::*;

verus! {

/// How running a combinator ended: it read what it expected, it met the end
/// of the input, or it met a token that it cannot start with.
#[derive(Clone, Copy, PartialEq, Eq, Structural, Debug)]
pub enum ParseResult {
    Success,
    Eof,
    UnexpectedToken,
}

impl From<Option<ParseResult>> for ParseResult {
    fn from(value: Option<ParseResult>) -> (r: Self) {
        match value {
            Some(result) => result,
            None => ParseResult::Success,
        }
    }
}

impl vstd::std_specs::convert::FromSpecImpl<Option<ParseResult>> for ParseResult {
    open spec fn obeys_from_spec() -> bool {
        true
    }

    open spec fn from_spec(value: Option<ParseResult>) -> ParseResult {
        match value {
            Some(result) => result,
            None => ParseResult::Success,
        }
    }
}

/// One step of building a syntax tree.
pub ghost enum TreeEvent {
    /// Opens a node of the kind.
    Start(SyntaxKind),
    /// Adds a token of the kind with its text.
    Leaf(SyntaxKind, Seq<char>),
    /// Closes the most recently opened node.
    Finish,
}

/// What a parser state is: the tokens still to read (next first), the tree
/// events so far, and how many nodes are open.
pub ghost struct ParseModel {
    pub tokens: Seq<(SyntaxKind, Seq<char>)>,
    pub events: Seq<TreeEvent>,
    pub open: nat,
}

pub open spec fn peek_kind_of(m: ParseModel) -> Option<SyntaxKind> {
    if m.tokens.len() > 0 {
        Some(m.tokens[0].0)
    } else {
        None
    }
}

/// The next token moved into the tree (nothing happens at the end).
pub open spec fn consumed(m: ParseModel) -> ParseModel {
    if m.tokens.len() > 0 {
        ParseModel {
            tokens: m.tokens.drop_first(),
            events: m.events.push(TreeEvent::Leaf(m.tokens[0].0, m.tokens[0].1)),
            open: m.open,
        }
    } else {
        m
    }
}

/// Every leading trivia token moved into the tree.
pub open spec fn trivia_skipped(m: ParseModel) -> ParseModel
    decreases m.tokens.len(),
{
    if m.tokens.len() > 0 && m.tokens[0].0.spec_is_trivia() {
        trivia_skipped(consumed(m))
    } else {
        m
    }
}

/// The next token if it is of `kind`; otherwise the end of input or an
/// unexpected token, with nothing consumed.
pub open spec fn expected_immediately(m: ParseModel, kind: SyntaxKind) -> (ParseResult, ParseModel) {
    if peek_kind_of(m) == Some(kind) {
        (ParseResult::Success, consumed(m))
    } else if m.tokens.len() == 0 {
        (ParseResult::Eof, m)
    } else {
        (ParseResult::UnexpectedToken, m)
    }
}

/// Leading trivia, then a token of `kind`.
pub open spec fn expected(m: ParseModel, kind: SyntaxKind) -> (ParseResult, ParseModel) {
    expected_immediately(trivia_skipped(m), kind)
}

pub open spec fn group_started(m: ParseModel, kind: SyntaxKind) -> ParseModel {
    ParseModel { tokens: m.tokens, events: m.events.push(TreeEvent::Start(kind)), open: m.open + 1 }
}

pub open spec fn group_ended(m: ParseModel) -> ParseModel {
    ParseModel { tokens: m.tokens, events: m.events.push(TreeEvent::Finish), open: (m.open - 1) as nat }
}

/// Skipping trivia reads no more than there is, opens nothing, and stops at
/// a token that is not trivia; skipping again does nothing.
pub proof fn lemma_trivia_skipped(m: ParseModel)
    ensures
        trivia_skipped(m).tokens.len() <= m.tokens.len(),
        trivia_skipped(m).open == m.open,
        trivia_skipped(trivia_skipped(m)) == trivia_skipped(m),
        trivia_skipped(m).tokens.len() > 0 ==> !trivia_skipped(m).tokens[0].0.spec_is_trivia(),
    decreases m.tokens.len(),
{
    if m.tokens.len() > 0 && m.tokens[0].0.spec_is_trivia() {
        lemma_trivia_skipped(consumed(m));
    }
}

pub proof fn lemma_expected(m: ParseModel, kind: SyntaxKind)
    ensures
        expected(m, kind).1.tokens.len() <= m.tokens.len(),
        expected(m, kind).0 == ParseResult::Success ==> expected(m, kind).1.tokens.len() < m.tokens.len(),
        expected(m, kind).0 == ParseResult::Eof ==> expected(m, kind).1.tokens.len() == 0,
        expected(m, kind).1.open == m.open,
{
    lemma_trivia_skipped(m);
}

/// A token stream that a parser reads, building a syntax tree as it goes.
pub trait ParserState {
    spec fn model(&self) -> ParseModel;

    fn peek_kind(&self) -> (r: Option<SyntaxKind>)
        ensures
            r == peek_kind_of(self.model()),
    ;

    fn is_at_eof(&self) -> (r: bool)
        ensures
            r == (self.model().tokens.len() == 0),
    ;

    /// How many tokens are left.
    fn remaining(&self) -> (r: usize)
        ensures
            r == self.model().tokens.len(),
    ;

    fn start_group(&mut self, kind: SyntaxKind)
        ensures
            final(self).model() == group_started(old(self).model(), kind),
    ;

    fn end_group(&mut self)
        requires
            old(self).model().open > 0,
        ensures
            final(self).model() == group_ended(old(self).model()),
    ;

    fn consume_trivia(&mut self)
        ensures
            final(self).model() == trivia_skipped(old(self).model()),
    ;

    fn consume(&mut self)
        ensures
            final(self).model() == consumed(old(self).model()),
    ;

    fn expect(&mut self, kind: SyntaxKind) -> (r: ParseResult)
        ensures
            (r, final(self).model()) == expected(old(self).model(), kind),
    ;

    /// The kind of the first token that is not trivia.
    fn peek_kind_after_trivia(&self) -> (r: Option<SyntaxKind>)
        ensures
            r == peek_kind_of(trivia_skipped(self.model())),
    ;

    fn expect_immediate(&mut self, kind: SyntaxKind) -> (r: ParseResult)
        ensures
            (r, final(self).model()) == expected_immediately(old(self).model(), kind),
    ;
}

/// What a combinator does.
pub enum Rule {
    /// A token of the kind, after trivia.
    Just(SyntaxKind),
    /// A token of the kind, with no trivia before it.
    ImmediatelyJust(SyntaxKind),
    /// Whatever the predicate does; announced as starting with the kind.
    When(SyntaxKind, Box<ParserCombinator>),
    /// The inner combinator, inside a node of the kind.
    GroupAs(Box<ParserCombinator>, SyntaxKind),
    /// The first alternative that can start at the next token.
    Or(Box<ParserCombinator>, Box<ParserCombinator>),
    /// Items separated by the separator (first kind), which may also end
    /// the list just before the end (second kind).
    RepeatedWithTrailingSeparator(Box<ParserCombinator>, SyntaxKind, SyntaxKind),
    /// Items each followed by the separator (first kind) up to the end
    /// (second kind); the separator is required after a single item only.
    RepeatedWithMandatoryTrailingSeparatorForOneItem(Box<ParserCombinator>, SyntaxKind, SyntaxKind),
    /// Items separated by the separator.
    RepeatedWithSeparator(Box<ParserCombinator>, SyntaxKind),
    /// Items up to (not including) a token of the kind.
    Repeated(Box<ParserCombinator>, SyntaxKind),
    /// The inner combinator between tokens of the two kinds.
    Delimited(Box<ParserCombinator>, SyntaxKind, SyntaxKind),
    /// One combinator, trivia, then the other.
    Then(Box<ParserCombinator>, Box<ParserCombinator>),
    /// One combinator; then, only where the first token after the trivia
    /// can start the other, the trivia and the other. Otherwise nothing
    /// more is read, so no trivia is left behind the first.
    AndMaybe(Box<ParserCombinator>, Box<ParserCombinator>),
    /// The inner combinator when it can start at the next token.
    Optional(Box<ParserCombinator>),
    /// Binds the number to the body, which may refer to itself by it.
    Recursive(usize, Box<ParserCombinator>),
    /// The body bound to the number by the nearest enclosing `Recursive`.
    Recurse(usize),
}

/// A parser combinator: what it does, as a rule over smaller combinators.
pub struct ParserCombinator {
    pub rule: Rule,
}

/// The recursive bindings in force: number, body, and how many tokens were
/// left when the body was last entered.
pub type Bindings = Seq<(usize, ParserCombinator, nat)>;

/// How many bindings were last entered with more than `n` tokens left.
pub open spec fn bindings_above(env: Bindings, n: nat) -> nat
    decreases env.len(),
{
    if env.len() == 0 {
        0
    } else {
        bindings_above(env.drop_last(), n) + if env.last().2 > n {
            1nat
        } else {
            0nat
        }
    }
}

/// The position of the innermost binding of `id` among the first `k`, or -1.
pub open spec fn binding_below(env: Bindings, id: usize, k: int) -> int
    decreases k,
{
    if k <= 0 {
        -1
    } else if env[k - 1].0 == id {
        k - 1
    } else {
        binding_below(env, id, k - 1)
    }
}

/// The position of the innermost binding of `id`, or -1.
pub open spec fn binding_of(env: Bindings, id: usize) -> int {
    binding_below(env, id, env.len() as int)
}

pub proof fn lemma_binding_below(env: Bindings, id: usize, k: int)
    requires
        0 <= k <= env.len(),
    ensures
        -1 <= binding_below(env, id, k) < k,
        binding_below(env, id, k) >= 0 ==> env[binding_below(env, id, k)].0 == id,
    decreases k,
{
    if k > 0 && env[k - 1].0 != id {
        lemma_binding_below(env, id, k - 1);
    }
}

pub proof fn lemma_bindings_above_push(env: Bindings, b: (usize, ParserCombinator, nat), n: nat)
    ensures
        bindings_above(env.push(b), n) == bindings_above(env, n) + if b.2 > n {
            1nat
        } else {
            0nat
        },
{
    assert(env.push(b).drop_last() =~= env);
}

pub proof fn lemma_bindings_above_update(env: Bindings, i: int, b: (usize, ParserCombinator, nat), n: nat)
    requires
        0 <= i < env.len(),
        env[i].2 > n,
        b.2 <= n,
    ensures
        bindings_above(env.update(i, b), n) < bindings_above(env, n),
    decreases env.len(),
{
    if i < env.len() - 1 {
        assert(env.update(i, b).drop_last() =~= env.drop_last().update(i, b));
        lemma_bindings_above_update(env.drop_last(), i, b, n);
    } else {
        assert(env.update(i, b).drop_last() =~= env.drop_last());
    }
}

impl ParserCombinator {
    /// The token kinds this combinator expects to start with.
    pub open spec fn prefixes(self) -> Seq<SyntaxKind>
        decreases self,
    {
        match self.rule {
            Rule::Just(kind) => seq![kind],
            Rule::ImmediatelyJust(kind) => seq![kind],
            Rule::When(kind, _) => seq![kind],
            Rule::GroupAs(inner, _) => inner.prefixes(),
            Rule::Or(first, second) => first.prefixes() + second.prefixes(),
            Rule::RepeatedWithTrailingSeparator(item, _, _) => item.prefixes(),
            Rule::RepeatedWithMandatoryTrailingSeparatorForOneItem(item, _, _) => item.prefixes(),
            Rule::RepeatedWithSeparator(item, _) => item.prefixes(),
            Rule::Repeated(item, _) => item.prefixes(),
            Rule::Delimited(_, before, _) => seq![before],
            Rule::Then(first, _) => first.prefixes(),
            Rule::AndMaybe(first, _) => first.prefixes(),
            Rule::Optional(inner) => inner.prefixes(),
            Rule::Recursive(_, body) => body.prefixes(),
            Rule::Recurse(_) => seq![],
        }
    }

    /// Whether the next token can start this combinator.
    pub open spec fn applicable(self, m: ParseModel) -> bool {
        match peek_kind_of(m) {
            Some(kind) => self.prefixes().contains(kind),
            None => false,
        }
    }
}

impl Clone for ParserCombinator {
    fn clone(&self) -> (r: Self)
        ensures
            r == *self,
        decreases *self,
    {
        let rule = match &self.rule {
            Rule::Just(kind) => Rule::Just(*kind),
            Rule::ImmediatelyJust(kind) => Rule::ImmediatelyJust(*kind),
            Rule::When(kind, predicate) => Rule::When(*kind, Box::new((**predicate).clone())),
            Rule::GroupAs(inner, kind) => Rule::GroupAs(Box::new((**inner).clone()), *kind),
            Rule::Or(first, second) => Rule::Or(Box::new((**first).clone()), Box::new((**second).clone())),
            Rule::RepeatedWithTrailingSeparator(item, separator, end) => Rule::RepeatedWithTrailingSeparator(
                Box::new((**item).clone()),
                *separator,
                *end,
            ),
            Rule::RepeatedWithMandatoryTrailingSeparatorForOneItem(item, separator, end) => {
                Rule::RepeatedWithMandatoryTrailingSeparatorForOneItem(Box::new((**item).clone()), *separator, *end)
            },
            Rule::RepeatedWithSeparator(item, separator) => Rule::RepeatedWithSeparator(
                Box::new((**item).clone()),
                *separator,
            ),
            Rule::Repeated(item, end) => Rule::Repeated(Box::new((**item).clone()), *end),
            Rule::Delimited(item, before, after) => Rule::Delimited(Box::new((**item).clone()), *before, *after),
            Rule::Then(first, second) => Rule::Then(Box::new((**first).clone()), Box::new((**second).clone())),
            Rule::AndMaybe(first, second) => Rule::AndMaybe(Box::new((**first).clone()), Box::new((**second).clone())),
            Rule::Optional(inner) => Rule::Optional(Box::new((**inner).clone())),
            Rule::Recursive(id, body) => Rule::Recursive(*id, Box::new((**body).clone())),
            Rule::Recurse(id) => Rule::Recurse(*id),
        };
        ParserCombinator { rule }
    }
}

/// What running `c` on `m` gives, with the recursive bindings `env` in
/// force.
///
/// Two cases have no result in terms of the rules themselves, because the
/// rules alone would run forever there: a `Recurse` reached again with as
/// many tokens left as when its body was last entered, and a `Repeated`
/// item that succeeds without consuming a token. Both are answered with
/// `UnexpectedToken`. A `Recurse` with no binding in force is answered the
/// same way.
pub open spec fn outcome(c: ParserCombinator, env: Bindings, m: ParseModel) -> (ParseResult, ParseModel)
    decreases m.tokens.len(), bindings_above(env, m.tokens.len()), c, 0nat,
{
    match c.rule {
        Rule::Just(kind) => expected(m, kind),
        Rule::ImmediatelyJust(kind) => expected_immediately(m, kind),
        Rule::When(_, predicate) => outcome(*predicate, env, m),
        Rule::GroupAs(inner, kind) => {
            let (r, m1) = outcome(*inner, env, group_started(m, kind));
            (r, group_ended(m1))
        },
        Rule::Or(first, second) => {
            let m1 = trivia_skipped(m);
            proof {
                lemma_trivia_skipped(m);
            }
            if first.applicable(m1) {
                outcome(*first, env, m1)
            } else if second.applicable(m1) {
                outcome(*second, env, m1)
            } else if m1.tokens.len() == 0 {
                (ParseResult::Eof, m1)
            } else {
                (ParseResult::UnexpectedToken, m1)
            }
        },
        Rule::RepeatedWithTrailingSeparator(item, separator, end) => {
            let m1 = trivia_skipped(m);
            proof {
                lemma_trivia_skipped(m);
            }
            let (r, m2) = outcome(*item, env, m1);
            let m3 = trivia_skipped(m2);
            proof {
                lemma_trivia_skipped(m2);
            }
            if r != ParseResult::Success {
                (r, m2)
            } else if m3.tokens.len() <= m.tokens.len() {
                trailing_loop(*item, separator, end, env, m3)
            } else {
                (r, m3)
            }
        },
        Rule::RepeatedWithMandatoryTrailingSeparatorForOneItem(item, separator, end) => {
            let m1 = trivia_skipped(m);
            proof {
                lemma_trivia_skipped(m);
            }
            if peek_kind_of(m1) == Some(end) {
                (ParseResult::Success, m1)
            } else {
                let (r, m2) = outcome(*item, env, m1);
                if r != ParseResult::Success {
                    (r, m2)
                } else {
                    let (r2, m3) = expected(m2, separator);
                    let m4 = trivia_skipped(m3);
                    proof {
                        lemma_trivia_skipped(m3);
                    }
                    if r2 != ParseResult::Success {
                        (r2, m3)
                    } else if peek_kind_of(m4) == Some(end) {
                        (ParseResult::Success, m4)
                    } else if m4.tokens.len() <= m.tokens.len() {
                        mandatory_loop(*item, separator, end, env, m4)
                    } else {
                        (r2, m4)
                    }
                }
            }
        },
        Rule::RepeatedWithSeparator(item, separator) => {
            let m1 = trivia_skipped(m);
            proof {
                lemma_trivia_skipped(m);
            }
            let (r, m2) = outcome(*item, env, m1);
            let m3 = trivia_skipped(m2);
            proof {
                lemma_trivia_skipped(m2);
            }
            if r != ParseResult::Success {
                (r, m2)
            } else if m3.tokens.len() <= m.tokens.len() {
                separated_loop(*item, separator, env, m3)
            } else {
                (r, m3)
            }
        },
        Rule::Repeated(item, end) => {
            let m1 = trivia_skipped(m);
            proof {
                lemma_trivia_skipped(m);
            }
            repeated_loop(*item, end, env, m1)
        },
        Rule::Delimited(item, before, after) => {
            let (r, m1) = expected(m, before);
            proof {
                lemma_expected(m, before);
            }
            if r != ParseResult::Success {
                (r, m1)
            } else {
                let (r2, m2) = outcome(*item, env, m1);
                if r2 != ParseResult::Success {
                    (r2, m2)
                } else {
                    expected(m2, after)
                }
            }
        },
        Rule::Then(first, second) => {
            let (r, m1) = outcome(*first, env, m);
            let m2 = trivia_skipped(m1);
            proof {
                lemma_trivia_skipped(m1);
            }
            if r != ParseResult::Success {
                (r, m1)
            } else if m2.tokens.len() <= m.tokens.len() {
                outcome(*second, env, m2)
            } else {
                (r, m2)
            }
        },
        Rule::AndMaybe(first, second) => {
            let (r, m1) = outcome(*first, env, m);
            let m2 = trivia_skipped(m1);
            proof {
                lemma_trivia_skipped(m1);
            }
            if r != ParseResult::Success {
                (r, m1)
            } else if second.applicable(m2) && m2.tokens.len() <= m.tokens.len() {
                outcome(*second, env, m2)
            } else {
                (r, m1)
            }
        },
        Rule::Optional(inner) => {
            if inner.applicable(m) {
                outcome(*inner, env, m)
            } else {
                (ParseResult::Success, m)
            }
        },
        Rule::Recursive(id, body) => {
            let n = m.tokens.len();
            proof {
                lemma_bindings_above_push(env, (id, *body, n), n);
            }
            outcome(*body, env.push((id, *body, n)), m)
        },
        Rule::Recurse(id) => {
            let n = m.tokens.len();
            let i = binding_of(env, id);
            if 0 <= i < env.len() && n < env[i].2 {
                proof {
                    lemma_bindings_above_update(env, i, (id, env[i].1, n), n);
                }
                outcome(env[i].1, env.update(i, (id, env[i].1, n)), m)
            } else {
                (ParseResult::UnexpectedToken, m)
            }
        },
    }
}

/// The loop of `Repeated`, from a state with its trivia skipped.
pub open spec fn repeated_loop(item: ParserCombinator, end: SyntaxKind, env: Bindings, m: ParseModel) -> (ParseResult, ParseModel)
    decreases m.tokens.len(), bindings_above(env, m.tokens.len()), item, 1nat,
{
    match peek_kind_of(m) {
        Some(kind) => if kind != end {
            let (r, m1) = outcome(item, env, m);
            let m2 = trivia_skipped(m1);
            if r != ParseResult::Success {
                (r, m1)
            } else if m2.tokens.len() < m.tokens.len() {
                repeated_loop(item, end, env, m2)
            } else {
                (ParseResult::UnexpectedToken, m2)
            }
        } else {
            (ParseResult::Success, m)
        },
        None => (ParseResult::Success, m),
    }
}

/// The loop of `RepeatedWithSeparator`: another item after each separator.
pub open spec fn separated_loop(item: ParserCombinator, separator: SyntaxKind, env: Bindings, m: ParseModel) -> (ParseResult, ParseModel)
    decreases m.tokens.len(), bindings_above(env, m.tokens.len()), item, 1nat,
{
    if peek_kind_of(m) == Some(separator) {
        let m1 = trivia_skipped(consumed(m));
        proof {
            lemma_trivia_skipped(consumed(m));
        }
        let (r, m2) = outcome(item, env, m1);
        let m3 = trivia_skipped(m2);
        if r != ParseResult::Success {
            (r, m2)
        } else if m3.tokens.len() < m.tokens.len() {
            separated_loop(item, separator, env, m3)
        } else {
            (r, m3)
        }
    } else {
        (ParseResult::Success, m)
    }
}

/// The loop of `RepeatedWithTrailingSeparator`: after each separator,
/// either the end or another item.
pub open spec fn trailing_loop(item: ParserCombinator, separator: SyntaxKind, end: SyntaxKind, env: Bindings, m: ParseModel) -> (ParseResult, ParseModel)
    decreases m.tokens.len(), bindings_above(env, m.tokens.len()), item, 1nat,
{
    if peek_kind_of(m) == Some(separator) {
        let m1 = trivia_skipped(consumed(m));
        proof {
            lemma_trivia_skipped(consumed(m));
        }
        if peek_kind_of(m1) == Some(end) {
            (ParseResult::Success, m1)
        } else {
            let (r, m2) = outcome(item, env, m1);
            let m3 = trivia_skipped(m2);
            if r != ParseResult::Success {
                (r, m2)
            } else if m3.tokens.len() < m.tokens.len() {
                trailing_loop(item, separator, end, env, m3)
            } else {
                (r, m3)
            }
        }
    } else {
        (ParseResult::Success, m)
    }
}

/// The loop of `RepeatedWithMandatoryTrailingSeparatorForOneItem`, from the
/// second item on: an item, then the end, or a separator and another round.
pub open spec fn mandatory_loop(item: ParserCombinator, separator: SyntaxKind, end: SyntaxKind, env: Bindings, m: ParseModel) -> (ParseResult, ParseModel)
    decreases m.tokens.len(), bindings_above(env, m.tokens.len()), item, 1nat,
{
    let (r, m1) = outcome(item, env, m);
    let m2 = trivia_skipped(m1);
    if r != ParseResult::Success {
        (r, m1)
    } else {
        match peek_kind_of(m2) {
            Some(kind) => if kind == end {
                (ParseResult::Success, m2)
            } else {
                let (r2, m3) = expected(m2, separator);
                if r2 != ParseResult::Success {
                    (r2, m3)
                } else if m3.tokens.len() < m.tokens.len() {
                    mandatory_loop(item, separator, end, env, m3)
                } else {
                    (r2, m3)
                }
            },
            None => (ParseResult::Eof, m2),
        }
    }
}

/// The tokens that the tree holds, in order.
pub open spec fn leaves(events: Seq<TreeEvent>) -> Seq<(SyntaxKind, Seq<char>)>
    decreases events.len(),
{
    if events.len() == 0 {
        seq![]
    } else {
        leaves(events.drop_last()) + match events.last() {
            TreeEvent::Leaf(kind, text) => seq![(kind, text)],
            _ => seq![],
        }
    }
}

/// Every token of a state: those already in the tree, then those left.
pub open spec fn stream(m: ParseModel) -> Seq<(SyntaxKind, Seq<char>)> {
    leaves(m.events) + m.tokens
}

/// How many nodes the events leave open: starts less finishes.
pub open spec fn depth(events: Seq<TreeEvent>) -> int
    decreases events.len(),
{
    if events.len() == 0 {
        0
    } else {
        depth(events.drop_last()) + match events.last() {
            TreeEvent::Start(_) => 1int,
            TreeEvent::Finish => -1int,
            TreeEvent::Leaf(_, _) => 0int,
        }
    }
}

/// The events close every node they open, and never one they did not
/// open.
pub open spec fn balanced(events: Seq<TreeEvent>) -> bool {
    &&& depth(events) == 0
    &&& forall|k: int| 0 <= k <= events.len() ==> depth(#[trigger] events.take(k)) >= 0
}

pub proof fn lemma_depth_concat(s1: Seq<TreeEvent>, s2: Seq<TreeEvent>)
    ensures
        depth(s1 + s2) == depth(s1) + depth(s2),
    decreases s2.len(),
{
    if s2.len() == 0 {
        assert(s1 + s2 =~= s1);
    } else {
        assert((s1 + s2).drop_last() =~= s1 + s2.drop_last());
        lemma_depth_concat(s1, s2.drop_last());
    }
}

pub proof fn lemma_balanced_concat(s1: Seq<TreeEvent>, s2: Seq<TreeEvent>)
    requires
        balanced(s1),
        balanced(s2),
    ensures
        balanced(s1 + s2),
{
    lemma_depth_concat(s1, s2);
    assert forall|k: int| 0 <= k <= (s1 + s2).len() implies depth(#[trigger] (s1 + s2).take(k)) >= 0 by {
        if k <= s1.len() {
            assert((s1 + s2).take(k) =~= s1.take(k));
        } else {
            assert((s1 + s2).take(k) =~= s1 + s2.take(k - s1.len()));
            lemma_depth_concat(s1, s2.take(k - s1.len()));
            assert(s1.take(s1.len() as int) =~= s1);
        }
    }
}

pub proof fn lemma_balanced_group(kind: SyntaxKind, s: Seq<TreeEvent>)
    requires
        balanced(s),
    ensures
        balanced(seq![TreeEvent::Start(kind)] + s + seq![TreeEvent::Finish]),
{
    let open = seq![TreeEvent::Start(kind)];
    let close = seq![TreeEvent::Finish];
    let all = open + s + close;
    assert(open.drop_last() =~= Seq::<TreeEvent>::empty());
    assert(close.drop_last() =~= Seq::<TreeEvent>::empty());
    assert(depth(Seq::<TreeEvent>::empty()) == 0);
    assert(depth(open) == depth(open.drop_last()) + 1);
    assert(depth(close) == depth(close.drop_last()) - 1);
    lemma_depth_concat(open, s);
    lemma_depth_concat(open + s, close);
    assert forall|k: int| 0 <= k <= all.len() implies depth(#[trigger] all.take(k)) >= 0 by {
        if k == 0 {
            assert(all.take(k) =~= Seq::<TreeEvent>::empty());
        } else if k <= s.len() + 1 {
            assert(all.take(k) =~= open + s.take(k - 1));
            lemma_depth_concat(open, s.take(k - 1));
            assert(depth(s.take(k - 1)) >= 0);
        } else {
            assert(all.take(k) =~= all);
        }
    }
}

pub proof fn lemma_balanced_single(e: TreeEvent)
    ensures
        !(e is Start) && !(e is Finish) ==> balanced(seq![e]),
        balanced(Seq::<TreeEvent>::empty()),
{
    assert(seq![e].drop_last() =~= Seq::<TreeEvent>::empty());
    assert(depth(Seq::<TreeEvent>::empty()) == 0);
    assert(depth(seq![e]) == depth(seq![e].drop_last()) + match e {
        TreeEvent::Start(_) => 1int,
        TreeEvent::Finish => -1int,
        TreeEvent::Leaf(_, _) => 0int,
    });
    if !(e is Start) && !(e is Finish) {
        assert forall|k: int| 0 <= k <= 1 implies depth(#[trigger] seq![e].take(k)) >= 0 by {
            if k == 0 {
                assert(seq![e].take(k) =~= Seq::<TreeEvent>::empty());
            } else {
                assert(seq![e].take(k) =~= seq![e]);
            }
        }
    }
    assert forall|k: int| 0 <= k <= 0 implies depth(#[trigger] Seq::<TreeEvent>::empty().take(k)) >= 0 by {
        assert(Seq::<TreeEvent>::empty().take(k) =~= Seq::<TreeEvent>::empty());
    }
}

/// `later` is what `earlier` can become by parsing: the same tokens in the
/// same order, some of them moved from the input into the tree, the tree
/// only added to, by events that close every node they open, and as many
/// nodes open.
pub open spec fn extends(earlier: ParseModel, later: ParseModel) -> bool {
    &&& later.open == earlier.open
    &&& later.tokens.len() <= earlier.tokens.len()
    &&& stream(later) == stream(earlier)
    &&& earlier.events.len() <= later.events.len()
    &&& later.events.subrange(0, earlier.events.len() as int) == earlier.events
    &&& balanced(later.events.skip(earlier.events.len() as int))
}

pub proof fn lemma_leaves_push(events: Seq<TreeEvent>, e: TreeEvent)
    ensures
        leaves(events.push(e)) == leaves(events) + match e {
            TreeEvent::Leaf(kind, text) => seq![(kind, text)],
            _ => seq![],
        },
{
    assert(events.push(e).drop_last() =~= events);
}

pub proof fn lemma_extends_refl(m: ParseModel)
    ensures
        extends(m, m),
{
    assert(m.events.subrange(0, m.events.len() as int) =~= m.events);
    assert(m.events.skip(m.events.len() as int) =~= Seq::<TreeEvent>::empty());
    lemma_balanced_single(TreeEvent::Finish);
}

pub proof fn lemma_extends_trans(a: ParseModel, b: ParseModel, c: ParseModel)
    requires
        extends(a, b),
        extends(b, c),
    ensures
        extends(a, c),
{
    assert(c.events.subrange(0, a.events.len() as int) =~= c.events.subrange(0, b.events.len() as int).subrange(0, a.events.len() as int));
    assert(c.events.skip(a.events.len() as int) =~= b.events.skip(a.events.len() as int) + c.events.skip(b.events.len() as int));
    lemma_balanced_concat(b.events.skip(a.events.len() as int), c.events.skip(b.events.len() as int));
}

pub proof fn lemma_consumed(m: ParseModel)
    ensures
        extends(m, consumed(m)),
        m.tokens.len() > 0 ==> consumed(m).tokens.len() == m.tokens.len() - 1,
{
    if m.tokens.len() > 0 {
        let e = TreeEvent::Leaf(m.tokens[0].0, m.tokens[0].1);
        lemma_leaves_push(m.events, e);
        assert(stream(consumed(m)) =~= stream(m));
        assert(consumed(m).events.subrange(0, m.events.len() as int) =~= m.events);
        assert(consumed(m).events.skip(m.events.len() as int) =~= seq![e]);
        lemma_balanced_single(e);
    } else {
        lemma_extends_refl(m);
    }
}

pub proof fn lemma_trivia_extends(m: ParseModel)
    ensures
        extends(m, trivia_skipped(m)),
    decreases m.tokens.len(),
{
    if m.tokens.len() > 0 && m.tokens[0].0.spec_is_trivia() {
        lemma_consumed(m);
        lemma_trivia_extends(consumed(m));
        lemma_extends_trans(m, consumed(m), trivia_skipped(consumed(m)));
    } else {
        lemma_extends_refl(m);
    }
}

proof fn lemma_expected_extends(m: ParseModel, kind: SyntaxKind)
    ensures
        extends(m, expected(m, kind).1),
        extends(m, expected_immediately(m, kind).1),
        expected_immediately(m, kind).0 == ParseResult::Eof ==> expected_immediately(m, kind).1.tokens.len() == 0,
        expected_immediately(m, kind).0 == ParseResult::Success ==> expected_immediately(m, kind).1.tokens.len() < m.tokens.len(),
{
    lemma_trivia_extends(m);
    lemma_consumed(m);
    lemma_consumed(trivia_skipped(m));
    lemma_extends_refl(m);
    lemma_extends_refl(trivia_skipped(m));
    lemma_extends_trans(m, trivia_skipped(m), consumed(trivia_skipped(m)));
}

/// Whatever a combinator does, it only moves tokens from the input into
/// the tree, in their order, leaves as many nodes open as it found, and
/// answers `Eof` only when no input is left.
pub proof fn lemma_outcome(c: ParserCombinator, env: Bindings, m: ParseModel)
    ensures
        extends(m, outcome(c, env, m).1),
        outcome(c, env, m).0 == ParseResult::Eof ==> outcome(c, env, m).1.tokens.len() == 0,
    decreases m.tokens.len(), bindings_above(env, m.tokens.len()), c, 0nat,
{
    let out = outcome(c, env, m);
    match c.rule {
        Rule::Just(kind) => {
            lemma_expected_extends(m, kind);
            lemma_expected_extends(trivia_skipped(m), kind);
        },
        Rule::ImmediatelyJust(kind) => {
            lemma_expected_extends(m, kind);
        },
        Rule::When(_, predicate) => {
            lemma_outcome(*predicate, env, m);
        },
        Rule::GroupAs(inner, kind) => {
            let m0 = group_started(m, kind);
            lemma_outcome(*inner, env, m0);
            let m1 = outcome(*inner, env, m0).1;
            lemma_leaves_push(m.events, TreeEvent::Start(kind));
            lemma_leaves_push(m1.events, TreeEvent::Finish);
            assert(m0.events.subrange(0, m.events.len() as int) =~= m.events);
            assert(group_ended(m1).events.subrange(0, m1.events.len() as int) =~= m1.events);
            assert(group_ended(m1).events.subrange(0, m.events.len() as int) =~= m1.events.subrange(0, m0.events.len() as int).subrange(0, m.events.len() as int));
            let inside = m1.events.skip(m0.events.len() as int);
            assert(group_ended(m1).events.skip(m.events.len() as int) =~= seq![TreeEvent::Start(kind)] + inside + seq![TreeEvent::Finish]);
            lemma_balanced_group(kind, inside);
        },
        Rule::Or(first, second) => {
            let m1 = trivia_skipped(m);
            lemma_trivia_skipped(m);
            lemma_trivia_extends(m);
            if first.applicable(m1) {
                lemma_outcome(*first, env, m1);
                lemma_extends_trans(m, m1, out.1);
            } else if second.applicable(m1) {
                lemma_outcome(*second, env, m1);
                lemma_extends_trans(m, m1, out.1);
            }
        },
        Rule::RepeatedWithTrailingSeparator(item, separator, end) => {
            let m1 = trivia_skipped(m);
            lemma_trivia_skipped(m);
            lemma_trivia_extends(m);
            lemma_outcome(*item, env, m1);
            let (r, m2) = outcome(*item, env, m1);
            lemma_extends_trans(m, m1, m2);
            let m3 = trivia_skipped(m2);
            lemma_trivia_extends(m2);
            lemma_extends_trans(m, m2, m3);
            if r == ParseResult::Success {
                lemma_trailing_loop(*item, separator, end, env, m3);
                lemma_extends_trans(m, m3, out.1);
            }
        },
        Rule::RepeatedWithMandatoryTrailingSeparatorForOneItem(item, separator, end) => {
            let m1 = trivia_skipped(m);
            lemma_trivia_skipped(m);
            lemma_trivia_extends(m);
            if peek_kind_of(m1) != Some(end) {
                lemma_outcome(*item, env, m1);
                let (r, m2) = outcome(*item, env, m1);
                lemma_extends_trans(m, m1, m2);
                if r == ParseResult::Success {
                    let (r2, m3) = expected(m2, separator);
                    lemma_expected(m2, separator);
                    lemma_expected_extends(m2, separator);
                    lemma_extends_trans(m, m2, m3);
                    let m4 = trivia_skipped(m3);
                    lemma_trivia_extends(m3);
                    lemma_extends_trans(m, m3, m4);
                    if r2 == ParseResult::Success && peek_kind_of(m4) != Some(end) {
                        lemma_mandatory_loop(*item, separator, end, env, m4);
                        lemma_extends_trans(m, m4, out.1);
                    }
                }
            }
        },
        Rule::RepeatedWithSeparator(item, separator) => {
            let m1 = trivia_skipped(m);
            lemma_trivia_skipped(m);
            lemma_trivia_extends(m);
            lemma_outcome(*item, env, m1);
            let (r, m2) = outcome(*item, env, m1);
            lemma_extends_trans(m, m1, m2);
            let m3 = trivia_skipped(m2);
            lemma_trivia_extends(m2);
            lemma_extends_trans(m, m2, m3);
            if r == ParseResult::Success {
                lemma_separated_loop(*item, separator, env, m3);
                lemma_extends_trans(m, m3, out.1);
            }
        },
        Rule::Repeated(item, end) => {
            let m1 = trivia_skipped(m);
            lemma_trivia_skipped(m);
            lemma_trivia_extends(m);
            lemma_repeated_loop(*item, end, env, m1);
            lemma_extends_trans(m, m1, out.1);
        },
        Rule::Delimited(item, before, after) => {
            let (r, m1) = expected(m, before);
            lemma_expected(m, before);
            lemma_expected_extends(m, before);
            if r == ParseResult::Success {
                lemma_outcome(*item, env, m1);
                let (r2, m2) = outcome(*item, env, m1);
                lemma_extends_trans(m, m1, m2);
                if r2 == ParseResult::Success {
                    lemma_expected(m2, after);
                    lemma_expected_extends(m2, after);
                    lemma_extends_trans(m, m2, out.1);
                }
            }
        },
        Rule::Then(first, second) => {
            lemma_outcome(*first, env, m);
            let (r, m1) = outcome(*first, env, m);
            let m2 = trivia_skipped(m1);
            lemma_trivia_extends(m1);
            lemma_extends_trans(m, m1, m2);
            if r == ParseResult::Success {
                lemma_outcome(*second, env, m2);
                lemma_extends_trans(m, m2, out.1);
            }
        },
        Rule::AndMaybe(first, second) => {
            lemma_outcome(*first, env, m);
            let (r, m1) = outcome(*first, env, m);
            let m2 = trivia_skipped(m1);
            lemma_trivia_extends(m1);
            lemma_extends_trans(m, m1, m2);
            if r == ParseResult::Success && second.applicable(m2) {
                lemma_outcome(*second, env, m2);
                lemma_extends_trans(m, m2, out.1);
            }
        },
        Rule::Optional(inner) => {
            if inner.applicable(m) {
                lemma_outcome(*inner, env, m);
            } else {
                lemma_extends_refl(m);
            }
        },
        Rule::Recursive(id, body) => {
            let n = m.tokens.len();
            lemma_bindings_above_push(env, (id, *body, n), n);
            lemma_outcome(*body, env.push((id, *body, n)), m);
        },
        Rule::Recurse(id) => {
            let n = m.tokens.len();
            let i = binding_of(env, id);
            if 0 <= i < env.len() && n < env[i].2 {
                lemma_bindings_above_update(env, i, (id, env[i].1, n), n);
                lemma_outcome(env[i].1, env.update(i, (id, env[i].1, n)), m);
            } else {
                lemma_extends_refl(m);
            }
        },
    }
}

proof fn lemma_repeated_loop(item: ParserCombinator, end: SyntaxKind, env: Bindings, m: ParseModel)
    ensures
        extends(m, repeated_loop(item, end, env, m).1),
        repeated_loop(item, end, env, m).0 == ParseResult::Eof ==> repeated_loop(item, end, env, m).1.tokens.len() == 0,
    decreases m.tokens.len(), bindings_above(env, m.tokens.len()), item, 1nat,
{
    let out = repeated_loop(item, end, env, m);
    lemma_extends_refl(m);
    if peek_kind_of(m) is Some && peek_kind_of(m) != Some(end) {
        lemma_outcome(item, env, m);
        let (r, m1) = outcome(item, env, m);
        let m2 = trivia_skipped(m1);
        lemma_trivia_extends(m1);
        lemma_extends_trans(m, m1, m2);
        if r == ParseResult::Success && m2.tokens.len() < m.tokens.len() {
            lemma_repeated_loop(item, end, env, m2);
            lemma_extends_trans(m, m2, out.1);
        }
    }
}

proof fn lemma_separated_loop(item: ParserCombinator, separator: SyntaxKind, env: Bindings, m: ParseModel)
    ensures
        extends(m, separated_loop(item, separator, env, m).1),
        separated_loop(item, separator, env, m).0 == ParseResult::Eof ==> separated_loop(item, separator, env, m).1.tokens.len() == 0,
    decreases m.tokens.len(), bindings_above(env, m.tokens.len()), item, 1nat,
{
    let out = separated_loop(item, separator, env, m);
    lemma_extends_refl(m);
    if peek_kind_of(m) == Some(separator) {
        lemma_consumed(m);
        lemma_trivia_skipped(consumed(m));
        lemma_trivia_extends(consumed(m));
        let m1 = trivia_skipped(consumed(m));
        lemma_extends_trans(m, consumed(m), m1);
        lemma_outcome(item, env, m1);
        let (r, m2) = outcome(item, env, m1);
        lemma_extends_trans(m, m1, m2);
        let m3 = trivia_skipped(m2);
        lemma_trivia_extends(m2);
        lemma_extends_trans(m, m2, m3);
        if r == ParseResult::Success && m3.tokens.len() < m.tokens.len() {
            lemma_separated_loop(item, separator, env, m3);
            lemma_extends_trans(m, m3, out.1);
        }
    }
}

proof fn lemma_trailing_loop(item: ParserCombinator, separator: SyntaxKind, end: SyntaxKind, env: Bindings, m: ParseModel)
    ensures
        extends(m, trailing_loop(item, separator, end, env, m).1),
        trailing_loop(item, separator, end, env, m).0 == ParseResult::Eof ==> trailing_loop(item, separator, end, env, m).1.tokens.len() == 0,
    decreases m.tokens.len(), bindings_above(env, m.tokens.len()), item, 1nat,
{
    let out = trailing_loop(item, separator, end, env, m);
    lemma_extends_refl(m);
    if peek_kind_of(m) == Some(separator) {
        lemma_consumed(m);
        lemma_trivia_skipped(consumed(m));
        lemma_trivia_extends(consumed(m));
        let m1 = trivia_skipped(consumed(m));
        lemma_extends_trans(m, consumed(m), m1);
        if peek_kind_of(m1) != Some(end) {
            lemma_outcome(item, env, m1);
            let (r, m2) = outcome(item, env, m1);
            lemma_extends_trans(m, m1, m2);
            let m3 = trivia_skipped(m2);
            lemma_trivia_extends(m2);
            lemma_extends_trans(m, m2, m3);
            if r == ParseResult::Success && m3.tokens.len() < m.tokens.len() {
                lemma_trailing_loop(item, separator, end, env, m3);
                lemma_extends_trans(m, m3, out.1);
            }
        }
    }
}

proof fn lemma_mandatory_loop(item: ParserCombinator, separator: SyntaxKind, end: SyntaxKind, env: Bindings, m: ParseModel)
    ensures
        extends(m, mandatory_loop(item, separator, end, env, m).1),
        mandatory_loop(item, separator, end, env, m).0 == ParseResult::Eof ==> mandatory_loop(item, separator, end, env, m).1.tokens.len() == 0,
    decreases m.tokens.len(), bindings_above(env, m.tokens.len()), item, 1nat,
{
    let out = mandatory_loop(item, separator, end, env, m);
    lemma_outcome(item, env, m);
    let (r, m1) = outcome(item, env, m);
    let m2 = trivia_skipped(m1);
    lemma_trivia_extends(m1);
    lemma_trivia_skipped(m1);
    lemma_extends_trans(m, m1, m2);
    if r == ParseResult::Success && peek_kind_of(m2) is Some && peek_kind_of(m2) != Some(end) {
        let (r2, m3) = expected(m2, separator);
        lemma_expected(m2, separator);
        lemma_expected_extends(m2, separator);
        lemma_extends_trans(m, m2, m3);
        if r2 == ParseResult::Success && m3.tokens.len() < m.tokens.len() {
            lemma_mandatory_loop(item, separator, end, env, m3);
            lemma_extends_trans(m, m3, out.1);
        }
    }
}

/// The kind of the last token among the events, if there is one.
pub open spec fn last_token_kind(events: Seq<TreeEvent>) -> Option<SyntaxKind>
    decreases events.len(),
{
    if events.len() == 0 {
        None
    } else {
        match events.last() {
            TreeEvent::Leaf(kind, _) => Some(kind),
            _ => last_token_kind(events.drop_last()),
        }
    }
}

/// The events hold a token, and the last of them is not trivia.
pub open spec fn ends_on_token(events: Seq<TreeEvent>) -> bool {
    match last_token_kind(events) {
        Some(kind) => !kind.spec_is_trivia(),
        None => false,
    }
}

pub proof fn lemma_last_token_concat(s1: Seq<TreeEvent>, s2: Seq<TreeEvent>)
    ensures
        last_token_kind(s1 + s2) == if last_token_kind(s2) is Some {
            last_token_kind(s2)
        } else {
            last_token_kind(s1)
        },
    decreases s2.len(),
{
    if s2.len() == 0 {
        assert(s1 + s2 =~= s1);
    } else {
        assert((s1 + s2).drop_last() =~= s1 + s2.drop_last());
        lemma_last_token_concat(s1, s2.drop_last());
    }
}

/// A combinator that, whenever it succeeds, has read a token that is not
/// trivia, and has read no trivia after the last such token.
pub open spec fn reads_to_a_token(c: ParserCombinator) -> bool
    decreases c,
{
    match c.rule {
        Rule::Just(kind) => !kind.spec_is_trivia(),
        Rule::ImmediatelyJust(kind) => !kind.spec_is_trivia(),
        Rule::When(_, predicate) => reads_to_a_token(*predicate),
        Rule::GroupAs(inner, _) => reads_to_a_token(*inner),
        Rule::Or(first, second) => reads_to_a_token(*first) && reads_to_a_token(*second),
        Rule::Delimited(_, before, after) => !before.spec_is_trivia() && !after.spec_is_trivia(),
        Rule::Then(_, second) => reads_to_a_token(*second),
        Rule::AndMaybe(first, second) => reads_to_a_token(*first) && reads_to_a_token(*second),
        Rule::Recursive(_, body) => reads_to_a_token(*body),
        Rule::Recurse(_) => true,
        _ => false,
    }
}

/// Every recursive body in force reads to a token.
pub open spec fn bindings_read_to_a_token(env: Bindings) -> bool {
    forall|i: int| 0 <= i < env.len() ==> reads_to_a_token(#[trigger] env[i].1)
}

/// What the success of a combinator that reads to a token adds to the tree
/// ends on a token that is not trivia: trivia after its last token is left
/// to whatever reads next.
pub proof fn lemma_reads_to_a_token(c: ParserCombinator, env: Bindings, m: ParseModel)
    requires
        reads_to_a_token(c),
        bindings_read_to_a_token(env),
    ensures
        outcome(c, env, m).0 == ParseResult::Success ==> ends_on_token(
            outcome(c, env, m).1.events.skip(m.events.len() as int),
        ),
    decreases m.tokens.len(), bindings_above(env, m.tokens.len()), c, 0nat,
{
    let out = outcome(c, env, m);
    lemma_outcome(c, env, m);
    match c.rule {
        Rule::Just(kind) => {
            lemma_expected_token(m, kind);
        },
        Rule::ImmediatelyJust(kind) => {
            lemma_expected_token(m, kind);
        },
        Rule::When(_, predicate) => {
            lemma_reads_to_a_token(*predicate, env, m);
        },
        Rule::GroupAs(inner, kind) => {
            let m0 = group_started(m, kind);
            lemma_reads_to_a_token(*inner, env, m0);
            lemma_outcome(*inner, env, m0);
            let m1 = outcome(*inner, env, m0).1;
            let inside = m1.events.skip(m0.events.len() as int);
            assert(out.1.events.skip(m.events.len() as int) =~= (seq![TreeEvent::Start(kind)] + inside).push(TreeEvent::Finish));
            assert((seq![TreeEvent::Start(kind)] + inside).push(TreeEvent::Finish).drop_last() =~= seq![TreeEvent::Start(kind)] + inside);
            lemma_last_token_concat(seq![TreeEvent::Start(kind)], inside);
        },
        Rule::Or(first, second) => {
            let m1 = trivia_skipped(m);
            lemma_trivia_skipped(m);
            lemma_trivia_extends(m);
            if first.applicable(m1) {
                lemma_reads_to_a_token(*first, env, m1);
                lemma_outcome(*first, env, m1);
                if out.0 == ParseResult::Success {
                    lemma_suffix_concat(m, m1, out.1);
                }
            } else if second.applicable(m1) {
                lemma_reads_to_a_token(*second, env, m1);
                lemma_outcome(*second, env, m1);
                if out.0 == ParseResult::Success {
                    lemma_suffix_concat(m, m1, out.1);
                }
            }
        },
        Rule::Delimited(item, before, after) => {
            let (r, m1) = expected(m, before);
            lemma_expected(m, before);
            lemma_expected_extends(m, before);
            if r == ParseResult::Success {
                lemma_outcome(*item, env, m1);
                let (r2, m2) = outcome(*item, env, m1);
                lemma_extends_trans(m, m1, m2);
                if r2 == ParseResult::Success {
                    lemma_expected_token(m2, after);
                    lemma_expected_extends(m2, after);
                    if out.0 == ParseResult::Success {
                        lemma_suffix_concat(m, m2, out.1);
                    }
                }
            }
        },
        Rule::Then(first, second) => {
            lemma_outcome(*first, env, m);
            let (r, m1) = outcome(*first, env, m);
            let m2 = trivia_skipped(m1);
            lemma_trivia_skipped(m1);
            lemma_trivia_extends(m1);
            lemma_extends_trans(m, m1, m2);
            if r == ParseResult::Success {
                lemma_reads_to_a_token(*second, env, m2);
                lemma_outcome(*second, env, m2);
                if out.0 == ParseResult::Success {
                    lemma_suffix_concat(m, m2, out.1);
                }
            }
        },
        Rule::AndMaybe(first, second) => {
            lemma_reads_to_a_token(*first, env, m);
            lemma_outcome(*first, env, m);
            let (r, m1) = outcome(*first, env, m);
            let m2 = trivia_skipped(m1);
            lemma_trivia_skipped(m1);
            lemma_trivia_extends(m1);
            lemma_extends_trans(m, m1, m2);
            if r == ParseResult::Success && second.applicable(m2) {
                lemma_reads_to_a_token(*second, env, m2);
                lemma_outcome(*second, env, m2);
                if out.0 == ParseResult::Success {
                    lemma_suffix_concat(m, m2, out.1);
                }
            }
        },
        Rule::Recursive(id, body) => {
            let n = m.tokens.len();
            lemma_bindings_above_push(env, (id, *body, n), n);
            assert(bindings_read_to_a_token(env.push((id, *body, n))));
            lemma_reads_to_a_token(*body, env.push((id, *body, n)), m);
        },
        Rule::Recurse(id) => {
            let n = m.tokens.len();
            let i = binding_of(env, id);
            if 0 <= i < env.len() && n < env[i].2 {
                lemma_bindings_above_update(env, i, (id, env[i].1, n), n);
                let updated = env.update(i, (id, env[i].1, n));
                assert(bindings_read_to_a_token(updated));
                lemma_reads_to_a_token(env[i].1, updated, m);
            }
        },
        _ => {},
    }
}

/// When `later` extends `middle`, what `later` adds to `earlier` is what
/// `middle` added, then what `later` added to `middle`; so it ends on a
/// token when the second part does.
proof fn lemma_suffix_concat(earlier: ParseModel, middle: ParseModel, later: ParseModel)
    requires
        extends(earlier, middle),
        extends(middle, later),
        ends_on_token(later.events.skip(middle.events.len() as int)),
    ensures
        ends_on_token(later.events.skip(earlier.events.len() as int)),
{
    let first = middle.events.skip(earlier.events.len() as int);
    let second = later.events.skip(middle.events.len() as int);
    assert(later.events.skip(earlier.events.len() as int) =~= first + second);
    lemma_last_token_concat(first, second);
}

/// A token of a kind that is not trivia, once expected and found, is the
/// last token of what was added.
proof fn lemma_expected_token(m: ParseModel, kind: SyntaxKind)
    requires
        !kind.spec_is_trivia(),
    ensures
        expected(m, kind).0 == ParseResult::Success ==> ends_on_token(
            expected(m, kind).1.events.skip(m.events.len() as int),
        ),
        expected_immediately(m, kind).0 == ParseResult::Success ==> ends_on_token(
            expected_immediately(m, kind).1.events.skip(m.events.len() as int),
        ),
{
    lemma_trivia_extends(m);
    let t = trivia_skipped(m);
    if expected(m, kind).0 == ParseResult::Success {
        let s = consumed(t).events.skip(m.events.len() as int);
        assert(s.last() == TreeEvent::Leaf(t.tokens[0].0, t.tokens[0].1));
    }
    if expected_immediately(m, kind).0 == ParseResult::Success {
        let s = consumed(m).events.skip(m.events.len() as int);
        assert(s.last() == TreeEvent::Leaf(m.tokens[0].0, m.tokens[0].1));
    }
}

/// No trivia is next: skipping it would do nothing.
pub open spec fn settled(m: ParseModel) -> bool {
    trivia_skipped(m) == m
}

proof fn lemma_settled(m: ParseModel)
    ensures
        settled(trivia_skipped(m)),
        settled(m) <==> !(m.tokens.len() > 0 && m.tokens[0].0.spec_is_trivia()),
{
    lemma_trivia_skipped(m);
}

proof fn lemma_repeated_loop_ends(item: ParserCombinator, end: SyntaxKind, env: Bindings, m: ParseModel)
    requires
        settled(m),
    ensures
        repeated_loop(item, end, env, m).0 == ParseResult::Success ==> {
            let after = repeated_loop(item, end, env, m).1;
            &&& settled(after)
            &&& (peek_kind_of(after) is None || peek_kind_of(after) == Some(end))
        },
    decreases m.tokens.len(),
{
    if peek_kind_of(m) is Some && peek_kind_of(m) != Some(end) {
        let (r, m1) = outcome(item, env, m);
        let m2 = trivia_skipped(m1);
        lemma_settled(m1);
        if r == ParseResult::Success && m2.tokens.len() < m.tokens.len() {
            lemma_repeated_loop_ends(item, end, env, m2);
        }
    }
}

/// `item.repeated(end)` succeeds only where the input ends or a token of
/// `end` is next, with no trivia before it; `end` is left unread.
pub proof fn law_repeated(item: ParserCombinator, end: SyntaxKind, env: Bindings, m: ParseModel)
    ensures
        ({
            let (r, after) = outcome(item.spec_repeated(end), env, m);
            r == ParseResult::Success ==> settled(after) && (peek_kind_of(after) is None || peek_kind_of(after) == Some(end))
        }),
{
    lemma_settled(m);
    lemma_repeated_loop_ends(item, end, env, trivia_skipped(m));
}

proof fn lemma_separated_loop_ends(item: ParserCombinator, separator: SyntaxKind, env: Bindings, m: ParseModel)
    requires
        settled(m),
    ensures
        separated_loop(item, separator, env, m).0 == ParseResult::Success ==> {
            let after = separated_loop(item, separator, env, m).1;
            settled(after) && peek_kind_of(after) != Some(separator)
        },
    decreases m.tokens.len(),
{
    if peek_kind_of(m) == Some(separator) {
        let m1 = trivia_skipped(consumed(m));
        let (r, m2) = outcome(item, env, m1);
        let m3 = trivia_skipped(m2);
        lemma_settled(m2);
        lemma_consumed(m);
        lemma_trivia_skipped(consumed(m));
        lemma_trivia_skipped(m2);
        lemma_outcome(item, env, m1);
        if r == ParseResult::Success && m3.tokens.len() < m.tokens.len() {
            lemma_separated_loop_ends(item, separator, env, m3);
        }
    }
}

/// `item.repeated_with_separator(separator)` succeeds only where no
/// separator is next, with no trivia before what is next.
pub proof fn law_repeated_with_separator(item: ParserCombinator, separator: SyntaxKind, env: Bindings, m: ParseModel)
    ensures
        ({
            let (r, after) = outcome(item.spec_repeated_with_separator(separator), env, m);
            r == ParseResult::Success ==> settled(after) && peek_kind_of(after) != Some(separator)
        }),
{
    let m1 = trivia_skipped(m);
    let (r, m2) = outcome(item, env, m1);
    lemma_settled(m2);
    lemma_trivia_skipped(m);
    lemma_trivia_skipped(m2);
    lemma_outcome(item, env, m1);
    if r == ParseResult::Success {
        lemma_separated_loop_ends(item, separator, env, trivia_skipped(m2));
    }
}

proof fn lemma_trailing_loop_ends(item: ParserCombinator, separator: SyntaxKind, end: SyntaxKind, env: Bindings, m: ParseModel)
    requires
        settled(m),
        separator != end,
    ensures
        trailing_loop(item, separator, end, env, m).0 == ParseResult::Success ==> {
            let after = trailing_loop(item, separator, end, env, m).1;
            settled(after) && peek_kind_of(after) != Some(separator)
        },
    decreases m.tokens.len(),
{
    if peek_kind_of(m) == Some(separator) {
        let m1 = trivia_skipped(consumed(m));
        lemma_settled(consumed(m));
        if peek_kind_of(m1) != Some(end) {
            let (r, m2) = outcome(item, env, m1);
            let m3 = trivia_skipped(m2);
            lemma_settled(m2);
            lemma_consumed(m);
            lemma_trivia_skipped(consumed(m));
            lemma_trivia_skipped(m2);
            lemma_outcome(item, env, m1);
            if r == ParseResult::Success && m3.tokens.len() < m.tokens.len() {
                lemma_trailing_loop_ends(item, separator, end, env, m3);
            }
        }
    }
}

/// `item.repeated_with_trailing_separator(separator, end)` succeeds only
/// where no separator is next (a separator just before `end` has been
/// read, `end` has not), with no trivia before what is next.
pub proof fn law_repeated_with_trailing_separator(
    item: ParserCombinator,
    separator: SyntaxKind,
    end: SyntaxKind,
    env: Bindings,
    m: ParseModel,
)
    requires
        separator != end,
    ensures
        ({
            let (r, after) = outcome(item.spec_repeated_with_trailing_separator(separator, end), env, m);
            r == ParseResult::Success ==> settled(after) && peek_kind_of(after) != Some(separator)
        }),
{
    let m1 = trivia_skipped(m);
    let (r, m2) = outcome(item, env, m1);
    lemma_settled(m2);
    lemma_trivia_skipped(m);
    lemma_trivia_skipped(m2);
    lemma_outcome(item, env, m1);
    if r == ParseResult::Success {
        lemma_trailing_loop_ends(item, separator, end, env, trivia_skipped(m2));
    }
}

proof fn lemma_mandatory_loop_ends(item: ParserCombinator, separator: SyntaxKind, end: SyntaxKind, env: Bindings, m: ParseModel)
    ensures
        mandatory_loop(item, separator, end, env, m).0 == ParseResult::Success ==> {
            let after = mandatory_loop(item, separator, end, env, m).1;
            settled(after) && peek_kind_of(after) == Some(end)
        },
    decreases m.tokens.len(),
{
    let (r, m1) = outcome(item, env, m);
    let m2 = trivia_skipped(m1);
    lemma_settled(m1);
    lemma_outcome(item, env, m);
    lemma_trivia_skipped(m1);
    if r == ParseResult::Success && peek_kind_of(m2) is Some && peek_kind_of(m2) != Some(end) {
        let (r2, m3) = expected(m2, separator);
        lemma_expected(m2, separator);
        if r2 == ParseResult::Success && m3.tokens.len() < m.tokens.len() {
            lemma_mandatory_loop_ends(item, separator, end, env, m3);
        }
    }
}

/// `item.repeated_with_mandatory_trailing_separator_for_one_item(separator,
/// end)` succeeds only where a token of `end` is next, unread, with no
/// trivia before it.
pub proof fn law_repeated_with_mandatory_trailing_separator_for_one_item(
    item: ParserCombinator,
    separator: SyntaxKind,
    end: SyntaxKind,
    env: Bindings,
    m: ParseModel,
)
    ensures
        ({
            let (r, after) = outcome(
                item.spec_repeated_with_mandatory_trailing_separator_for_one_item(separator, end),
                env,
                m,
            );
            r == ParseResult::Success ==> settled(after) && peek_kind_of(after) == Some(end)
        }),
{
    let m1 = trivia_skipped(m);
    lemma_settled(m);
    if peek_kind_of(m1) != Some(end) {
        let (r, m2) = outcome(item, env, m1);
        lemma_trivia_skipped(m);
        lemma_outcome(item, env, m1);
        if r == ParseResult::Success {
            let (r2, m3) = expected(m2, separator);
            lemma_expected(m2, separator);
            lemma_trivia_skipped(m3);
            lemma_settled(m3);
            if r2 == ParseResult::Success && peek_kind_of(trivia_skipped(m3)) != Some(end) {
                lemma_mandatory_loop_ends(item, separator, end, env, trivia_skipped(m3));
            }
        }
    }
}

/// `recursive(id, builder)` does what the body that `builder` made does,
/// with that body bound to `id` for the stand-ins inside it.
pub proof fn law_recursive(id: usize, body: ParserCombinator, env: Bindings, m: ParseModel)
    ensures
        outcome(ParserCombinator::spec_recursive(id, body), env, m) == outcome(
            body,
            env.push((id, body, m.tokens.len())),
            m,
        ),
{
}

/// A stand-in runs the body bound to its number by the innermost
/// `recursive` with that number, as the whole recursive combinator would:
/// with the same bindings, that binding now counted from here. Only where
/// nothing has been read since that body was last entered is it refused,
/// as `UnexpectedToken`, since running it again would never end.
pub proof fn law_stand_in(id: usize, env: Bindings, m: ParseModel)
    ensures
        ({
            let i = binding_of(env, id);
            outcome(ParserCombinator::stand_in(id), env, m) == if 0 <= i < env.len() && m.tokens.len() < env[i].2 {
                outcome(env[i].1, env.update(i, (id, env[i].1, m.tokens.len())), m)
            } else {
                (ParseResult::UnexpectedToken, m)
            }
        }),
        binding_of(env, id) >= 0 ==> env[binding_of(env, id)].0 == id,
        forall|j: int| binding_of(env, id) < j < env.len() ==> #[trigger] env[j].0 != id,
{
    lemma_binding_below(env, id, env.len() as int);
    lemma_binding_innermost(env, id, env.len() as int);
}

proof fn lemma_binding_innermost(env: Bindings, id: usize, k: int)
    requires
        0 <= k <= env.len(),
    ensures
        forall|j: int| binding_below(env, id, k) < j < k ==> #[trigger] env[j].0 != id,
    decreases k,
{
    if k > 0 && env[k - 1].0 != id {
        lemma_binding_innermost(env, id, k - 1);
    }
}

/// Every stand-in in `c` is bound by a recursive combinator that encloses
/// it, or by one of the numbers in `bound`; and no recursive combinator
/// takes a number that an enclosing one (or `bound`) already has. Then each
/// stand-in reaches the body it was made for.
pub open spec fn numbers_bound_once(c: ParserCombinator, bound: Set<usize>) -> bool
    decreases c,
{
    match c.rule {
        Rule::Just(_) => true,
        Rule::ImmediatelyJust(_) => true,
        Rule::When(_, predicate) => numbers_bound_once(*predicate, bound),
        Rule::GroupAs(inner, _) => numbers_bound_once(*inner, bound),
        Rule::Or(first, second) => numbers_bound_once(*first, bound) && numbers_bound_once(*second, bound),
        Rule::RepeatedWithTrailingSeparator(item, _, _) => numbers_bound_once(*item, bound),
        Rule::RepeatedWithMandatoryTrailingSeparatorForOneItem(item, _, _) => numbers_bound_once(*item, bound),
        Rule::RepeatedWithSeparator(item, _) => numbers_bound_once(*item, bound),
        Rule::Repeated(item, _) => numbers_bound_once(*item, bound),
        Rule::Delimited(item, _, _) => numbers_bound_once(*item, bound),
        Rule::Then(first, second) => numbers_bound_once(*first, bound) && numbers_bound_once(*second, bound),
        Rule::AndMaybe(first, second) => numbers_bound_once(*first, bound) && numbers_bound_once(*second, bound),
        Rule::Optional(inner) => numbers_bound_once(*inner, bound),
        Rule::Recursive(id, body) => !bound.contains(id) && numbers_bound_once(*body, bound.insert(id)),
        Rule::Recurse(id) => bound.contains(id),
    }
}

/// The bindings that the interpreter keeps, as the semantics sees them.
pub open spec fn bindings_view(env: Seq<(usize, &ParserCombinator, usize)>) -> Bindings {
    Seq::new(env.len(), |i: int| (env[i].0, *env[i].1, env[i].2 as nat))
}

fn peek_is<PS: ParserState>(state: &PS, kind: SyntaxKind) -> (r: bool)
    ensures
        r == (peek_kind_of(state.model()) == Some(kind)),
{
    match state.peek_kind() {
        Some(next) => next == kind,
        None => false,
    }
}

fn find_binding(env: &Vec<(usize, &ParserCombinator, usize)>, id: usize) -> (r: Option<usize>)
    ensures
        match r {
            Some(i) => i < env.len() && i == binding_of(bindings_view(env@), id),
            None => binding_of(bindings_view(env@), id) == -1,
        },
{
    let ghost view = bindings_view(env@);
    let mut k: usize = env.len();
    while k > 0
        invariant
            k <= env.len(),
            view == bindings_view(env@),
            binding_of(view, id) == binding_below(view, id, k as int),
        decreases k,
    {
        if env[k - 1].0 == id {
            return Some(k - 1);
        }
        k = k - 1;
    }
    None
}

impl ParserCombinator {
    pub open spec fn spec_just(kind: SyntaxKind) -> Self {
        ParserCombinator { rule: Rule::Just(kind) }
    }

    pub open spec fn spec_immediately_just(kind: SyntaxKind) -> Self {
        ParserCombinator { rule: Rule::ImmediatelyJust(kind) }
    }

    pub open spec fn spec_when(kind: SyntaxKind, predicate: Self) -> Self {
        ParserCombinator { rule: Rule::When(kind, Box::new(predicate)) }
    }

    pub open spec fn spec_group_as(self, kind: SyntaxKind) -> Self {
        ParserCombinator { rule: Rule::GroupAs(Box::new(self), kind) }
    }

    pub open spec fn spec_or(self, other: Self) -> Self {
        ParserCombinator { rule: Rule::Or(Box::new(self), Box::new(other)) }
    }

    pub open spec fn spec_repeated_with_trailing_separator(self, separator: SyntaxKind, end: SyntaxKind) -> Self {
        ParserCombinator { rule: Rule::RepeatedWithTrailingSeparator(Box::new(self), separator, end) }
    }

    pub open spec fn spec_repeated_with_mandatory_trailing_separator_for_one_item(self, separator: SyntaxKind, end: SyntaxKind) -> Self {
        ParserCombinator { rule: Rule::RepeatedWithMandatoryTrailingSeparatorForOneItem(Box::new(self), separator, end) }
    }

    pub open spec fn spec_repeated_with_separator(self, separator: SyntaxKind) -> Self {
        ParserCombinator { rule: Rule::RepeatedWithSeparator(Box::new(self), separator) }
    }

    pub open spec fn spec_repeated(self, end: SyntaxKind) -> Self {
        ParserCombinator { rule: Rule::Repeated(Box::new(self), end) }
    }

    pub open spec fn spec_delimited(self, before: SyntaxKind, after: SyntaxKind) -> Self {
        ParserCombinator { rule: Rule::Delimited(Box::new(self), before, after) }
    }

    pub open spec fn spec_and_then(self, next: Self) -> Self {
        ParserCombinator { rule: Rule::Then(Box::new(self), Box::new(next)) }
    }

    pub open spec fn spec_and_maybe(self, next: Self) -> Self {
        ParserCombinator { rule: Rule::AndMaybe(Box::new(self), Box::new(next)) }
    }

    pub open spec fn spec_optional(self) -> Self {
        ParserCombinator { rule: Rule::Optional(Box::new(self)) }
    }

    /// The stand-in that `recursive` hands its builder.
    pub open spec fn stand_in(id: usize) -> Self {
        ParserCombinator { rule: Rule::Recurse(id) }
    }

    /// What `recursive` makes of a body built around `stand_in(id)`.
    pub open spec fn spec_recursive(id: usize, body: Self) -> Self {
        ParserCombinator { rule: Rule::Recursive(id, Box::new(body)) }
    }

    /// Expects a token of `kind`, after any trivia.
    #[verifier::when_used_as_spec(spec_just)]
    pub fn just(kind: SyntaxKind) -> (r: Self)
        ensures
            r == (ParserCombinator { rule: Rule::Just(kind) }),
    {
        ParserCombinator { rule: Rule::Just(kind) }
    }

    /// Expects a token of `kind` right away, with no trivia before it.
    #[verifier::when_used_as_spec(spec_immediately_just)]
    pub fn immediately_just(kind: SyntaxKind) -> (r: Self)
        ensures
            r == (ParserCombinator { rule: Rule::ImmediatelyJust(kind) }),
    {
        ParserCombinator { rule: Rule::ImmediatelyJust(kind) }
    }

    /// Runs `predicate`, announcing that it starts with a token of `kind`.
    #[verifier::when_used_as_spec(spec_when)]
    pub fn when(kind: SyntaxKind, predicate: Self) -> (r: Self)
        ensures
            r == (ParserCombinator { rule: Rule::When(kind, Box::new(predicate)) }),
    {
        ParserCombinator { rule: Rule::When(kind, Box::new(predicate)) }
    }

    /// Wraps whatever this combinator reads in a node of `kind`.
    #[verifier::when_used_as_spec(spec_group_as)]
    pub fn group_as(self, kind: SyntaxKind) -> (r: Self)
        ensures
            r == (ParserCombinator { rule: Rule::GroupAs(Box::new(self), kind) }),
    {
        ParserCombinator { rule: Rule::GroupAs(Box::new(self), kind) }
    }

    /// Whether this combinator can start with a token of `kind`.
    pub fn starts_with(&self, kind: SyntaxKind) -> (r: bool)
        ensures
            r == self.prefixes().contains(kind),
        decreases *self,
    {
        proof {
            broadcast use vstd::seq_lib::lemma_seq_concat_contains_all_elements;
            assert forall|k: SyntaxKind| #[trigger] seq![k].contains(kind) == (k == kind) by {
                if k == kind {
                    assert(seq![k][0] == kind);
                }
            }
        }
        match &self.rule {
            Rule::Just(k) => *k == kind,
            Rule::ImmediatelyJust(k) => *k == kind,
            Rule::When(k, _) => *k == kind,
            Rule::GroupAs(inner, _) => inner.starts_with(kind),
            Rule::Or(first, second) => first.starts_with(kind) || second.starts_with(kind),
            Rule::RepeatedWithTrailingSeparator(item, _, _) => item.starts_with(kind),
            Rule::RepeatedWithMandatoryTrailingSeparatorForOneItem(item, _, _) => item.starts_with(kind),
            Rule::RepeatedWithSeparator(item, _) => item.starts_with(kind),
            Rule::Repeated(item, _) => item.starts_with(kind),
            Rule::Delimited(_, before, _) => *before == kind,
            Rule::Then(first, _) => first.starts_with(kind),
            Rule::AndMaybe(first, _) => first.starts_with(kind),
            Rule::Optional(inner) => inner.starts_with(kind),
            Rule::Recursive(_, body) => body.starts_with(kind),
            Rule::Recurse(_) => false,
        }
    }

    /// Whether the next token can start this combinator.
    pub fn is_applicable<PS: ParserState>(&self, state: &PS) -> (r: bool)
        ensures
            r == self.applicable(state.model()),
    {
        match state.peek_kind() {
            Some(kind) => self.starts_with(kind),
            None => false,
        }
    }

    /// This combinator if it can start at the next token, else `other`.
    #[verifier::when_used_as_spec(spec_or)]
    pub fn or(self, other: Self) -> (r: Self)
        ensures
            r == (ParserCombinator { rule: Rule::Or(Box::new(self), Box::new(other)) }),
    {
        ParserCombinator { rule: Rule::Or(Box::new(self), Box::new(other)) }
    }

    /// Items separated by `separator`; a separator just before `end` ends
    /// the list.
    #[verifier::when_used_as_spec(spec_repeated_with_trailing_separator)]
    pub fn repeated_with_trailing_separator(self, separator: SyntaxKind, end: SyntaxKind) -> (r: Self)
        ensures
            r == (ParserCombinator { rule: Rule::RepeatedWithTrailingSeparator(Box::new(self), separator, end) }),
    {
        ParserCombinator { rule: Rule::RepeatedWithTrailingSeparator(Box::new(self), separator, end) }
    }

    /// Items up to `end`, separated by `separator`; a single item must be
    /// followed by the separator.
    #[verifier::when_used_as_spec(spec_repeated_with_mandatory_trailing_separator_for_one_item)]
    pub fn repeated_with_mandatory_trailing_separator_for_one_item(self, separator: SyntaxKind, end: SyntaxKind) -> (r: Self)
        ensures
            r == (ParserCombinator {
                rule: Rule::RepeatedWithMandatoryTrailingSeparatorForOneItem(Box::new(self), separator, end),
            }),
    {
        ParserCombinator {
            rule: Rule::RepeatedWithMandatoryTrailingSeparatorForOneItem(Box::new(self), separator, end),
        }
    }

    /// One or more items separated by `separator`.
    #[verifier::when_used_as_spec(spec_repeated_with_separator)]
    pub fn repeated_with_separator(self, separator: SyntaxKind) -> (r: Self)
        ensures
            r == (ParserCombinator { rule: Rule::RepeatedWithSeparator(Box::new(self), separator) }),
    {
        ParserCombinator { rule: Rule::RepeatedWithSeparator(Box::new(self), separator) }
    }

    /// Items until a token of `end` (which is left in the input).
    #[verifier::when_used_as_spec(spec_repeated)]
    pub fn repeated(self, end: SyntaxKind) -> (r: Self)
        ensures
            r == (ParserCombinator { rule: Rule::Repeated(Box::new(self), end) }),
    {
        ParserCombinator { rule: Rule::Repeated(Box::new(self), end) }
    }

    /// This combinator between a token of `before` and one of `after`.
    #[verifier::when_used_as_spec(spec_delimited)]
    pub fn delimited(self, before: SyntaxKind, after: SyntaxKind) -> (r: Self)
        ensures
            r == (ParserCombinator { rule: Rule::Delimited(Box::new(self), before, after) }),
    {
        ParserCombinator { rule: Rule::Delimited(Box::new(self), before, after) }
    }

    /// This combinator, trivia, then `next`.
    #[verifier::when_used_as_spec(spec_and_then)]
    pub fn and_then(self, next: Self) -> (r: Self)
        ensures
            r == (ParserCombinator { rule: Rule::Then(Box::new(self), Box::new(next)) }),
    {
        ParserCombinator { rule: Rule::Then(Box::new(self), Box::new(next)) }
    }

    /// This combinator when it can start at the next token; otherwise
    /// success with nothing read.
    #[verifier::when_used_as_spec(spec_optional)]
    pub fn optional(self) -> (r: Self)
        ensures
            r == (ParserCombinator { rule: Rule::Optional(Box::new(self)) }),
    {
        ParserCombinator { rule: Rule::Optional(Box::new(self)) }
    }

    /// This combinator, then `next` where the first token after the
    /// trivia can start it (the trivia goes with `next`); otherwise nothing
    /// more, so that no trivia is read after this combinator's last token.
    #[verifier::when_used_as_spec(spec_and_maybe)]
    pub fn and_maybe(self, next: Self) -> (r: Self)
        ensures
            r == (ParserCombinator { rule: Rule::AndMaybe(Box::new(self), Box::new(next)) }),
    {
        ParserCombinator { rule: Rule::AndMaybe(Box::new(self), Box::new(next)) }
    }

    /// This combinator, trivia, then what `next` does.
    pub fn then_expr(self, next: Self) -> (r: Self)
        ensures
            r == (ParserCombinator { rule: Rule::Then(Box::new(self), Box::new(next)) }),
    {
        self.and_then(next)
    }

    /// A combinator that may refer to itself: `builder` gets a stand-in
    /// (`Recurse(id)`, which starts with no token kind of its own) that
    /// runs the finished combinator. `id` tells this combinator apart from
    /// the other recursive ones that enclose it: a stand-in runs the body of
    /// the innermost enclosing recursive combinator with its number (see
    /// `law_stand_in`), so nested recursive combinators need distinct
    /// numbers to reach each its own body.
    pub fn recursive<F>(id: usize, builder: F) -> (r: Self)
        where
            F: FnOnce(Self) -> Self,
        requires
            builder.requires((ParserCombinator { rule: Rule::Recurse(id) },)),
        ensures
            r.rule matches Rule::Recursive(bound, body) && bound == id
                && call_ensures(builder, (ParserCombinator { rule: Rule::Recurse(id) },), *body),
    {
        let stand_in = ParserCombinator { rule: Rule::Recurse(id) };
        let body = builder(stand_in);
        ParserCombinator { rule: Rule::Recursive(id, Box::new(body)) }
    }

    /// Runs this combinator on `state`.
    pub fn run<PS: ParserState>(&self, state: &mut PS) -> (r: ParseResult)
        ensures
            (r, final(state).model()) == outcome(*self, Seq::empty(), old(state).model()),
    {
        let mut env: Vec<(usize, &ParserCombinator, usize)> = Vec::new();
        proof {
            assert(bindings_view(env@) =~= Seq::<(usize, ParserCombinator, nat)>::empty());
        }
        self.run_in(state, &mut env)
    }

    #[verifier::rlimit(50)]
    #[verifier::spinoff_prover]
    fn run_in<'a, PS: ParserState>(&'a self, state: &mut PS, env: &mut Vec<(usize, &'a ParserCombinator, usize)>) -> (r: ParseResult)
        ensures
            (r, final(state).model()) == outcome(*self, bindings_view(old(env)@), old(state).model()),
            final(env)@ == old(env)@,
        decreases old(state).model().tokens.len(), bindings_above(bindings_view(old(env)@), old(state).model().tokens.len()), *self, 0nat,
    {
        let ghost m = state.model();
        let ghost view = bindings_view(env@);
        match &self.rule {
            Rule::Just(kind) => state.expect(*kind),
            Rule::ImmediatelyJust(kind) => state.expect_immediate(*kind),
            Rule::When(_, predicate) => predicate.run_in(state, env),
            Rule::GroupAs(inner, kind) => {
                state.start_group(*kind);
                let r = inner.run_in(state, env);
                proof {
                    lemma_outcome(**inner, view, group_started(m, *kind));
                }
                state.end_group();
                r
            },
            Rule::Or(first, second) => {
                state.consume_trivia();
                proof {
                    lemma_trivia_skipped(m);
                }
                if first.is_applicable(state) {
                    first.run_in(state, env)
                } else if second.is_applicable(state) {
                    second.run_in(state, env)
                } else if state.is_at_eof() {
                    ParseResult::Eof
                } else {
                    ParseResult::UnexpectedToken
                }
            },
            Rule::RepeatedWithTrailingSeparator(item, separator, end) => {
                state.consume_trivia();
                let ghost m1 = state.model();
                proof {
                    lemma_trivia_skipped(m);
                }
                let r = item.run_in(state, env);
                if r != ParseResult::Success {
                    return r;
                }
                let ghost m2 = state.model();
                state.consume_trivia();
                proof {
                    lemma_outcome(**item, view, m1);
                    lemma_trivia_skipped(m2);
                }
                run_trailing(item, *separator, *end, state, env)
            },
            Rule::RepeatedWithMandatoryTrailingSeparatorForOneItem(item, separator, end) => {
                state.consume_trivia();
                let ghost m1 = state.model();
                proof {
                    lemma_trivia_skipped(m);
                }
                if peek_is(state, *end) {
                    return ParseResult::Success;
                }
                let r = item.run_in(state, env);
                if r != ParseResult::Success {
                    return r;
                }
                let ghost m2 = state.model();
                let r2 = state.expect(*separator);
                if r2 != ParseResult::Success {
                    return r2;
                }
                let ghost m3 = state.model();
                state.consume_trivia();
                proof {
                    lemma_outcome(**item, view, m1);
                    lemma_expected(m2, *separator);
                    lemma_trivia_skipped(m3);
                }
                if peek_is(state, *end) {
                    return ParseResult::Success;
                }
                run_mandatory(item, *separator, *end, state, env)
            },
            Rule::RepeatedWithSeparator(item, separator) => {
                state.consume_trivia();
                let ghost m1 = state.model();
                proof {
                    lemma_trivia_skipped(m);
                }
                let r = item.run_in(state, env);
                if r != ParseResult::Success {
                    return r;
                }
                let ghost m2 = state.model();
                state.consume_trivia();
                proof {
                    lemma_outcome(**item, view, m1);
                    lemma_trivia_skipped(m2);
                }
                run_separated(item, *separator, state, env)
            },
            Rule::Repeated(item, end) => {
                state.consume_trivia();
                proof {
                    lemma_trivia_skipped(m);
                }
                run_repeated(item, *end, state, env)
            },
            Rule::Delimited(item, before, after) => {
                let r = state.expect(*before);
                proof {
                    lemma_expected(m, *before);
                }
                if r != ParseResult::Success {
                    return r;
                }
                let r2 = item.run_in(state, env);
                if r2 != ParseResult::Success {
                    return r2;
                }
                state.expect(*after)
            },
            Rule::Then(first, second) => {
                let r = first.run_in(state, env);
                if r != ParseResult::Success {
                    return r;
                }
                let ghost m1 = state.model();
                state.consume_trivia();
                proof {
                    lemma_outcome(**first, view, m);
                    lemma_trivia_skipped(m1);
                }
                second.run_in(state, env)
            },
            Rule::AndMaybe(first, second) => {
                let r = first.run_in(state, env);
                if r != ParseResult::Success {
                    return r;
                }
                let ghost m1 = state.model();
                proof {
                    lemma_outcome(**first, view, m);
                    lemma_trivia_skipped(m1);
                }
                let applies = match state.peek_kind_after_trivia() {
                    Some(kind) => second.starts_with(kind),
                    None => false,
                };
                if applies {
                    state.consume_trivia();
                    second.run_in(state, env)
                } else {
                    r
                }
            },
            Rule::Optional(inner) => {
                if inner.is_applicable(state) {
                    inner.run_in(state, env)
                } else {
                    ParseResult::Success
                }
            },
            Rule::Recursive(id, body) => {
                let n = state.remaining();
                let body_ref: &'a ParserCombinator = body;
                env.push((*id, body_ref, n));
                proof {
                    assert(bindings_view(env@) =~= view.push((*id, **body, n as nat)));
                    lemma_bindings_above_push(view, (*id, **body, n as nat), n as nat);
                }
                let r = body_ref.run_in(state, env);
                env.pop();
                proof {
                    assert(env@ =~= old(env)@);
                }
                r
            },
            Rule::Recurse(id) => {
                match find_binding(env, *id) {
                    Some(i) => {
                        let entry = env[i];
                        let n = state.remaining();
                        if n < entry.2 {
                            proof {
                                lemma_binding_below(view, *id, view.len() as int);
                            }
                            env.set(i, (entry.0, entry.1, n));
                            proof {
                                assert(bindings_view(env@) =~= view.update(i as int, (*id, *entry.1, n as nat)));
                                lemma_bindings_above_update(view, i as int, (*id, *entry.1, n as nat), n as nat);
                            }
                            let r = entry.1.run_in(state, env);
                            env.set(i, entry);
                            proof {
                                assert(env@ =~= old(env)@);
                            }
                            r
                        } else {
                            ParseResult::UnexpectedToken
                        }
                    },
                    None => ParseResult::UnexpectedToken,
                }
            },
        }
    }
}

fn run_repeated<'a, PS: ParserState>(item: &'a ParserCombinator, end: SyntaxKind, state: &mut PS, env: &mut Vec<(usize, &'a ParserCombinator, usize)>) -> (r: ParseResult)
    ensures
        (r, final(state).model()) == repeated_loop(*item, end, bindings_view(old(env)@), old(state).model()),
        final(env)@ == old(env)@,
    decreases old(state).model().tokens.len(), bindings_above(bindings_view(old(env)@), old(state).model().tokens.len()), *item, 1nat,
{
    match state.peek_kind() {
        Some(kind) => {
            if kind != end {
                let before = state.remaining();
                let r = item.run_in(state, env);
                if r != ParseResult::Success {
                    return r;
                }
                state.consume_trivia();
                if state.remaining() < before {
                    run_repeated(item, end, state, env)
                } else {
                    ParseResult::UnexpectedToken
                }
            } else {
                ParseResult::Success
            }
        },
        None => ParseResult::Success,
    }
}

fn run_separated<'a, PS: ParserState>(item: &'a ParserCombinator, separator: SyntaxKind, state: &mut PS, env: &mut Vec<(usize, &'a ParserCombinator, usize)>) -> (r: ParseResult)
    ensures
        (r, final(state).model()) == separated_loop(*item, separator, bindings_view(old(env)@), old(state).model()),
        final(env)@ == old(env)@,
    decreases old(state).model().tokens.len(), bindings_above(bindings_view(old(env)@), old(state).model().tokens.len()), *item, 1nat,
{
    let ghost m = state.model();
    if peek_is(state, separator) {
        let before = state.remaining();
        state.consume();
        state.consume_trivia();
        proof {
            lemma_trivia_skipped(consumed(m));
        }
        let r = item.run_in(state, env);
        if r != ParseResult::Success {
            return r;
        }
        state.consume_trivia();
        if state.remaining() < before {
            run_separated(item, separator, state, env)
        } else {
            r
        }
    } else {
        ParseResult::Success
    }
}

fn run_trailing<'a, PS: ParserState>(item: &'a ParserCombinator, separator: SyntaxKind, end: SyntaxKind, state: &mut PS, env: &mut Vec<(usize, &'a ParserCombinator, usize)>) -> (r: ParseResult)
    ensures
        (r, final(state).model()) == trailing_loop(*item, separator, end, bindings_view(old(env)@), old(state).model()),
        final(env)@ == old(env)@,
    decreases old(state).model().tokens.len(), bindings_above(bindings_view(old(env)@), old(state).model().tokens.len()), *item, 1nat,
{
    let ghost m = state.model();
    if peek_is(state, separator) {
        let before = state.remaining();
        state.consume();
        state.consume_trivia();
        proof {
            lemma_trivia_skipped(consumed(m));
        }
        if peek_is(state, end) {
            return ParseResult::Success;
        }
        state.consume_trivia();
        let r = item.run_in(state, env);
        if r != ParseResult::Success {
            return r;
        }
        state.consume_trivia();
        if state.remaining() < before {
            run_trailing(item, separator, end, state, env)
        } else {
            r
        }
    } else {
        ParseResult::Success
    }
}

fn run_mandatory<'a, PS: ParserState>(item: &'a ParserCombinator, separator: SyntaxKind, end: SyntaxKind, state: &mut PS, env: &mut Vec<(usize, &'a ParserCombinator, usize)>) -> (r: ParseResult)
    ensures
        (r, final(state).model()) == mandatory_loop(*item, separator, end, bindings_view(old(env)@), old(state).model()),
        final(env)@ == old(env)@,
    decreases old(state).model().tokens.len(), bindings_above(bindings_view(old(env)@), old(state).model().tokens.len()), *item, 1nat,
{
    let before = state.remaining();
    let r = item.run_in(state, env);
    if r != ParseResult::Success {
        return r;
    }
    state.consume_trivia();
    match state.peek_kind() {
        Some(kind) => {
            if kind == end {
                ParseResult::Success
            } else {
                let r2 = state.expect(separator);
                if r2 != ParseResult::Success {
                    return r2;
                }
                if state.remaining() < before {
                    run_mandatory(item, separator, end, state, env)
                } else {
                    r2
                }
            }
        },
        None => ParseResult::Eof,
    }
}

} // verus!

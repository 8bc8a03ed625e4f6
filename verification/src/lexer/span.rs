//! A cursor over source text: a window `start..end` of character positions
//! that the lexer widens as it recognises a token.

use crate::syntax_kind::SyntaxKind;
use crate::text::{first_grapheme, leading_grapheme, text_equals};
use vstd::prelude::*;

verus! {

/// The character at position `p` of `t`, if there is one.
pub open spec fn char_at(t: Seq<char>, p: int) -> Option<char> {
    if 0 <= p < t.len() {
        Some(t[p])
    } else {
        None
    }
}

/// The number of characters of the grapheme cluster that starts at `p`
/// (at least one, so that every walk over graphemes makes progress).
pub open spec fn grapheme_len(t: Seq<char>, p: int) -> int {
    let g = leading_grapheme(t.subrange(p, t.len() as int));
    if 0 < g.len() && p + g.len() <= t.len() {
        g.len() as int
    } else {
        1
    }
}

/// Every grapheme cluster holds at least one character.
pub proof fn lemma_grapheme_len_positive(t: Seq<char>, p: int)
    ensures
        grapheme_len(t, p) >= 1,
{
}

/// The grapheme cluster that starts at position `p` of `t`.
pub open spec fn grapheme_at(t: Seq<char>, p: int) -> Seq<char> {
    t.subrange(p, p + grapheme_len(t, p))
}

/// Going grapheme by grapheme from `from`, every grapheme is accepted and the
/// walk lands exactly on `to`.
pub open spec fn walks_graphemes(
    t: Seq<char>,
    from: int,
    to: int,
    accept: spec_fn(Seq<char>) -> bool,
) -> bool
    decreases (if to > from { to - from } else { 0 }),
{
    if from >= to {
        from == to
    } else {
        proof {
            lemma_grapheme_len_positive(t, from);
        }
        accept(grapheme_at(t, from)) && walks_graphemes(
            t,
            from + grapheme_len(t, from),
            to,
            accept,
        )
    }
}

/// A walk that reached `to` and accepts the grapheme there reaches past it.
pub proof fn lemma_walk_extend(
    t: Seq<char>,
    from: int,
    to: int,
    accept: spec_fn(Seq<char>) -> bool,
)
    requires
        from <= to,
        walks_graphemes(t, from, to, accept),
        accept(grapheme_at(t, to)),
    ensures
        walks_graphemes(t, from, to + grapheme_len(t, to), accept),
    decreases to - from,
{
    lemma_grapheme_len_positive(t, from);
    lemma_grapheme_len_positive(t, to);
    if from < to {
        let next = from + grapheme_len(t, from);
        assert(walks_graphemes(t, next, to, accept));
        assert(next <= to);
        lemma_walk_extend(t, next, to, accept);
    } else {
        reveal_with_fuel(walks_graphemes, 2);
    }
}

/// A window `start..end` over `body`, both positions counted in characters.
#[derive(Clone, Copy)]
pub struct Span<'source> {
    body: &'source str,
    len: usize,
    start: usize,
    end: usize,
}

/// A token: its kind and the slice of the source that it covers.
#[derive(Debug, Clone, Copy, PartialEq, Eq)]
pub struct Token<'source> {
    pub kind: SyntaxKind,
    pub contents: &'source str,
}

impl Token<'_> {
    pub fn is_trivia(&self) -> (r: bool)
        ensures
            r == self.kind.spec_is_trivia(),
    {
        self.kind.is_trivia()
    }

    pub fn is_error(&self) -> (r: bool)
        ensures
            r == self.kind.spec_is_error(),
    {
        self.kind.is_error()
    }
}

impl<'source> Span<'source> {
    /// The whole source text.
    pub closed spec fn text(&self) -> Seq<char> {
        self.body@
    }

    pub closed spec fn start_pos(&self) -> int {
        self.start as int
    }

    pub closed spec fn end_pos(&self) -> int {
        self.end as int
    }

    pub closed spec fn length_known(&self) -> bool {
        self.len as int == self.body@.len()
    }

    /// The positions lie inside the text, in order.
    pub open spec fn wf(&self) -> bool {
        &&& self.length_known()
        &&& 0 <= self.start_pos() <= self.end_pos() <= self.text().len()
    }

    /// `other` is this span with its end moved to `end`.
    pub open spec fn moved_to(&self, other: Span<'source>, end: int) -> bool {
        &&& other.wf()
        &&& other.text() == self.text()
        &&& other.start_pos() == self.start_pos()
        &&& other.end_pos() == end
    }

    /// The characters of the window.
    pub open spec fn contents(&self) -> Seq<char> {
        self.text().subrange(self.start_pos(), self.end_pos())
    }

    pub fn new(body: &'source str) -> (s: Self)
        ensures
            s.wf(),
            s.text() == body@,
            s.start_pos() == 0,
            s.end_pos() == 0,
    {
        Self { body, len: body.unicode_len(), start: 0, end: 0 }
    }

    pub fn current_character(&self) -> (r: Option<char>)
        requires
            self.wf(),
        ensures
            r == char_at(self.text(), self.end_pos()),
    {
        if self.end < self.len {
            Some(self.body.get_char(self.end))
        } else {
            None
        }
    }

    pub fn has_character(&self, character: char) -> (r: bool)
        requires
            self.wf(),
        ensures
            r == (char_at(self.text(), self.end_pos()) == Some(character)),
    {
        match self.current_character() {
            Some(c) => c == character,
            None => false,
        }
    }

    pub fn current_grapheme(&self) -> (r: Option<&'source str>)
        requires
            self.wf(),
        ensures
            r is None <==> self.end_pos() == self.text().len(),
            r matches Some(g) ==> {
                &&& g@ == grapheme_at(self.text(), self.end_pos())
                &&& g@.len() == grapheme_len(self.text(), self.end_pos())
                &&& g@ == leading_grapheme(
                    self.text().subrange(self.end_pos(), self.text().len() as int),
                )
            },
    {
        let rest = self.body.substring_char(self.end, self.len);
        let r = first_grapheme(rest);
        proof {
            if let Some(g) = r {
                assert(g@ =~= self.text().subrange(
                    self.end_pos(),
                    self.end_pos() + g@.len(),
                ));
            }
        }
        r
    }

    pub fn has_grapheme(&self, grapheme: &str) -> (r: bool)
        requires
            self.wf(),
        ensures
            r == (self.end_pos() < self.text().len() && grapheme@ == grapheme_at(
                self.text(),
                self.end_pos(),
            )),
    {
        match self.current_grapheme() {
            Some(g) => text_equals(g, grapheme),
            None => false,
        }
    }

    pub fn has_string(&self, sequence: &str) -> (r: bool)
        requires
            self.wf(),
        ensures
            r == (self.end_pos() + sequence@.len() <= self.text().len() && self.text().subrange(
                self.end_pos(),
                self.end_pos() + sequence@.len(),
            ) == sequence@),
    {
        let n = sequence.unicode_len();
        if n > self.len - self.end {
            return false;
        }
        let window = self.body.substring_char(self.end, self.end + n);
        text_equals(window, sequence)
    }

    pub fn bump_by(&mut self, length: usize)
        requires
            old(self).wf(),
            old(self).end_pos() + length <= old(self).text().len(),
        ensures
            old(self).moved_to(*final(self), old(self).end_pos() + length),
    {
        self.end = self.end + length;
    }

    pub fn bump_for_string(&mut self, string: &str)
        requires
            old(self).wf(),
            old(self).end_pos() + string@.len() <= old(self).text().len(),
        ensures
            old(self).moved_to(*final(self), old(self).end_pos() + string@.len()),
    {
        self.end = self.end + string.unicode_len();
    }

    pub fn bump_for_character(&mut self, character: char)
        requires
            old(self).wf(),
            old(self).end_pos() < old(self).text().len(),
        ensures
            old(self).moved_to(*final(self), old(self).end_pos() + 1),
    {
        self.end = self.end + 1;
    }

    /// Moves the end past every character that `predicate` accepts.
    pub fn take_while(&mut self, predicate: impl Fn(char) -> bool)
        requires
            old(self).wf(),
            forall|c: char| predicate.requires((c,)),
        ensures
            old(self).moved_to(*final(self), final(self).end_pos()),
            old(self).end_pos() <= final(self).end_pos(),
            forall|i: int|
                old(self).end_pos() <= i < final(self).end_pos() ==> predicate.ensures(
                    (old(self).text()[i],),
                    true,
                ),
            final(self).end_pos() < old(self).text().len() ==> predicate.ensures(
                (old(self).text()[final(self).end_pos()],),
                false,
            ),
    {
        let ghost first = self.end_pos();
        loop
            invariant
                old(self).moved_to(*self, self.end_pos()),
                first == old(self).end_pos(),
                first <= self.end_pos(),
                forall|c: char| predicate.requires((c,)),
                forall|i: int|
                    first <= i < self.end_pos() ==> predicate.ensures((old(self).text()[i],), true),
            ensures
                old(self).moved_to(*self, self.end_pos()),
                first <= self.end_pos(),
                forall|i: int|
                    first <= i < self.end_pos() ==> predicate.ensures((old(self).text()[i],), true),
                self.end_pos() < old(self).text().len() ==> predicate.ensures(
                    (old(self).text()[self.end_pos()],),
                    false,
                ),
            decreases old(self).text().len() - self.end_pos(),
        {
            match self.current_character() {
                Some(character) => {
                    if predicate(character) {
                        self.bump_for_character(character);
                    } else {
                        break ;
                    }
                },
                None => {
                    break ;
                },
            }
        }
    }

    /// Moves the end past every grapheme cluster that `predicate` accepts.
    pub fn take_while_grapheme(&mut self, predicate: impl Fn(&str) -> bool)
        requires
            old(self).wf(),
            forall|g: &str| predicate.requires((g,)),
        ensures
            old(self).moved_to(*final(self), final(self).end_pos()),
            walks_graphemes(
                old(self).text(),
                old(self).end_pos(),
                final(self).end_pos(),
                |g: Seq<char>| exists|s: &str| s@ == g && predicate.ensures((s,), true),
            ),
            final(self).end_pos() < old(self).text().len() ==> exists|s: &str|
                s@ == grapheme_at(old(self).text(), final(self).end_pos())
                    && predicate.ensures((s,), false),
    {
        let ghost first = self.end_pos();
        let ghost accept = |g: Seq<char>| exists|s: &str| s@ == g && predicate.ensures((s,), true);
        loop
            invariant
                old(self).moved_to(*self, self.end_pos()),
                first == old(self).end_pos(),
                first <= self.end_pos(),
                forall|g: &str| predicate.requires((g,)),
                accept == (|g: Seq<char>| exists|s: &str| s@ == g && predicate.ensures((s,), true)),
                walks_graphemes(old(self).text(), first, self.end_pos(), accept),
            ensures
                old(self).moved_to(*self, self.end_pos()),
                walks_graphemes(old(self).text(), first, self.end_pos(), accept),
                self.end_pos() < old(self).text().len() ==> exists|s: &str|
                    s@ == grapheme_at(old(self).text(), self.end_pos())
                        && predicate.ensures((s,), false),
            decreases old(self).text().len() - self.end_pos(),
        {
            match self.current_grapheme() {
                Some(grapheme) => {
                    if predicate(grapheme) {
                        proof {
                            assert(accept(grapheme_at(old(self).text(), self.end_pos())));
                            lemma_walk_extend(old(self).text(), first, self.end_pos(), accept);
                        }
                        self.bump_for_string(grapheme);
                    } else {
                        break ;
                    }
                },
                None => {
                    break ;
                },
            }
        }
    }

    /// Moves the end past every character that `predicate` accepts, and tells
    /// whether it moved at all.
    pub fn take_while_and_require_advancement(&mut self, predicate: impl Fn(char) -> bool) -> (advanced: bool)
        requires
            old(self).wf(),
            forall|c: char| predicate.requires((c,)),
        ensures
            old(self).moved_to(*final(self), final(self).end_pos()),
            old(self).end_pos() <= final(self).end_pos(),
            forall|i: int|
                old(self).end_pos() <= i < final(self).end_pos() ==> predicate.ensures(
                    (old(self).text()[i],),
                    true,
                ),
            final(self).end_pos() < old(self).text().len() ==> predicate.ensures(
                (old(self).text()[final(self).end_pos()],),
                false,
            ),
            advanced == (final(self).end_pos() > old(self).end_pos()),
    {
        let original_end = self.end;
        self.take_while(predicate);
        original_end != self.end
    }

    /// Starts the window afresh at its end.
    pub fn yank(&mut self)
        requires
            old(self).wf(),
        ensures
            final(self).wf(),
            final(self).text() == old(self).text(),
            final(self).start_pos() == old(self).end_pos(),
            final(self).end_pos() == old(self).end_pos(),
    {
        self.start = self.end;
    }

    pub fn as_str(&self) -> (r: &'source str)
        requires
            self.wf(),
        ensures
            r@ == self.contents(),
    {
        self.body.substring_char(self.start, self.end)
    }

    /// The kind with the window's text; the window then starts afresh.
    pub fn make_token(&mut self, kind: SyntaxKind) -> (r: (SyntaxKind, &'source str))
        requires
            old(self).wf(),
        ensures
            r.0 == kind,
            r.1@ == old(self).contents(),
            final(self).wf(),
            final(self).text() == old(self).text(),
            final(self).start_pos() == old(self).end_pos(),
            final(self).end_pos() == old(self).end_pos(),
    {
        let result = (kind, self.as_str());
        self.yank();
        result
    }

    pub fn is_at_end(&self) -> (r: bool)
        requires
            self.wf(),
        ensures
            r == (self.end_pos() >= self.text().len()),
    {
        self.end >= self.len
    }
}

} // verus!

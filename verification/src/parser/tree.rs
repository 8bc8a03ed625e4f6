//! Syntax trees of `rowan`, as the events that build them.

use crate::parser::combinator::balanced;
use crate::parser::combinator::depth;
use crate::parser::combinator::lemma_depth_concat;
use crate::parser::combinator::lemma_leaves_push;
use crate::parser::combinator::leaves;
use crate::parser::combinator::TreeEvent;
use crate::syntax_kind::SyntaxKind;
use rowan::GreenNode;
use rowan::GreenNodeBuilder;
use vstd::prelude::*;

verus! {

#[verifier::external_type_specification]
#[verifier::external_body]
pub struct ExGreenNodeBuilder<'cache>(GreenNodeBuilder<'cache>);

#[verifier::external_type_specification]
#[verifier::external_body]
pub struct ExGreenNode(GreenNode);

/// The events that a builder has recorded, in the order of the calls.
pub uninterp spec fn recorded(builder: GreenNodeBuilder<'static>) -> Seq<TreeEvent>;

/// The events that build a tree: a start for each node, a leaf for each
/// token, a finish after the last child of each node, in the order of the
/// text.
pub uninterp spec fn tree_events(node: GreenNode) -> Seq<TreeEvent>;

/// How many bytes UTF-8 takes for `c`.
pub open spec fn utf8_width(c: char) -> nat {
    if (c as u32) < 0x80 {
        1
    } else if (c as u32) < 0x800 {
        2
    } else if (c as u32) < 0x10000 {
        3
    } else {
        4
    }
}

/// How many bytes UTF-8 takes for `text`: what `str::len` gives for it.
pub open spec fn utf8_len(text: Seq<char>) -> nat
    decreases text.len(),
{
    if text.len() == 0 {
        0
    } else {
        utf8_len(text.drop_last()) + utf8_width(text.last())
    }
}

pub proof fn lemma_utf8_len_concat(a: Seq<char>, b: Seq<char>)
    ensures
        utf8_len(a + b) == utf8_len(a) + utf8_len(b),
    decreases b.len(),
{
    if b.len() == 0 {
        assert(a + b =~= a);
    } else {
        assert((a + b).drop_last() =~= a + b.drop_last());
        lemma_utf8_len_concat(a, b.drop_last());
    }
}

/// The text of the tokens, one after the other.
pub open spec fn text_of(tokens: Seq<(SyntaxKind, Seq<char>)>) -> Seq<char>
    decreases tokens.len(),
{
    if tokens.len() == 0 {
        Seq::empty()
    } else {
        text_of(tokens.drop_last()) + tokens.last().1
    }
}

/// The events build exactly one node: they open it first, close it last,
/// and leave it open in between.
pub open spec fn single_tree(events: Seq<TreeEvent>) -> bool {
    &&& events.len() >= 2
    &&& depth(events) == 0
    &&& forall|k: int| 0 < k < events.len() ==> depth(#[trigger] events.take(k)) > 0
}

/// A node around events that close what they open is a single tree.
pub proof fn lemma_single_tree(kind: SyntaxKind, s: Seq<TreeEvent>)
    requires
        balanced(s),
    ensures
        single_tree(seq![TreeEvent::Start(kind)] + s + seq![TreeEvent::Finish]),
{
    let open = seq![TreeEvent::Start(kind)];
    let close = seq![TreeEvent::Finish];
    let all = open + s + close;
    assert(open.drop_last() =~= Seq::<TreeEvent>::empty());
    assert(close.drop_last() =~= Seq::<TreeEvent>::empty());
    assert(depth(Seq::<TreeEvent>::empty()) == 0);
    assert(depth(open) == depth(open.drop_last()) + 1);
    assert(depth(close) == depth(close.drop_last()) - 1);
    lemma_depth_concat(open, s);
    lemma_depth_concat(open + s, close);
    assert forall|k: int| 0 < k < all.len() implies depth(#[trigger] all.take(k)) > 0 by {
        assert(all.take(k) =~= open + s.take(k - 1));
        lemma_depth_concat(open, s.take(k - 1));
        assert(depth(s.take(k - 1)) >= 0);
    }
}

pub proof fn lemma_text_of_push(tokens: Seq<(SyntaxKind, Seq<char>)>, token: (SyntaxKind, Seq<char>))
    ensures
        text_of(tokens.push(token)) == text_of(tokens) + token.1,
{
    assert(tokens.push(token).drop_last() =~= tokens);
}

/// The tokens of the first `k` events hold no more text than those of all.
pub proof fn lemma_text_of_prefix(events: Seq<TreeEvent>, k: int)
    requires
        0 <= k <= events.len(),
    ensures
        utf8_len(text_of(leaves(events.take(k)))) <= utf8_len(text_of(leaves(events))),
    decreases events.len() - k,
{
    if k < events.len() {
        lemma_text_of_prefix(events, k + 1);
        let shorter = events.take(k);
        assert(events.take(k + 1) =~= shorter.push(events[k]));
        lemma_leaves_push(shorter, events[k]);
        match events[k] {
            TreeEvent::Leaf(kind, text) => {
                assert(leaves(shorter) + seq![(kind, text)] =~= leaves(shorter).push((kind, text)));
                lemma_text_of_push(leaves(shorter), (kind, text));
                lemma_utf8_len_concat(text_of(leaves(shorter)), text);
            },
            _ => {
                assert(leaves(shorter) + Seq::<(SyntaxKind, Seq<char>)>::empty() =~= leaves(shorter));
            },
        }
    } else {
        assert(events.take(k) =~= events);
    }
}

/// `GreenNodeBuilder::new`: a builder that has recorded nothing.
#[verifier::external_body]
pub(crate) fn new_builder() -> (builder: GreenNodeBuilder<'static>)
    ensures
        recorded(builder) == Seq::<TreeEvent>::empty(),
{
    GreenNodeBuilder::new()
}

/// `GreenNodeBuilder::start_node`: records the start of a node of `kind`.
#[verifier::external_body]
pub(crate) fn start_node(builder: &mut GreenNodeBuilder<'static>, kind: SyntaxKind)
    ensures
        recorded(*final(builder)) == recorded(*old(builder)).push(TreeEvent::Start(kind)),
{
    builder.start_node(rowan::SyntaxKind(kind.to_raw()));
}

/// `GreenNodeBuilder::token`: records a token of `kind` with `text`.
#[verifier::external_body]
pub(crate) fn add_token(builder: &mut GreenNodeBuilder<'static>, kind: SyntaxKind, text: &str)
    ensures
        recorded(*final(builder)) == recorded(*old(builder)).push(TreeEvent::Leaf(kind, text@)),
{
    builder.token(rowan::SyntaxKind(kind.to_raw()), text);
}

/// `GreenNodeBuilder::finish_node`: records the end of the innermost open
/// node. It panics when no node is open, or when the text of the node does
/// not fit in 32 bits (its length in bytes, as `rowan` counts it, is a
/// `u32`).
#[verifier::external_body]
pub(crate) fn finish_node(builder: &mut GreenNodeBuilder<'static>)
    requires
        depth(recorded(*old(builder))) > 0,
        utf8_len(text_of(leaves(recorded(*old(builder))))) <= u32::MAX,
    ensures
        recorded(*final(builder)) == recorded(*old(builder)).push(TreeEvent::Finish),
{
    builder.finish_node();
}

/// `GreenNodeBuilder::finish`: the tree that the recorded events build. It
/// panics unless they build exactly one node.
#[verifier::external_body]
pub(crate) fn finish(builder: GreenNodeBuilder<'static>) -> (node: GreenNode)
    requires
        single_tree(recorded(builder)),
    ensures
        tree_events(node) == recorded(builder),
{
    builder.finish()
}

} // verus!

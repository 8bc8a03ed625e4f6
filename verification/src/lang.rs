//! Ream as a language of `rowan` trees: its kinds, numbered.

use crate::syntax_kind::SyntaxKind;
use vstd::prelude::*;

verus! {

/// The Ream language, as `rowan` sees it: each kind is numbered as
/// `SyntaxKind::to_raw` numbers it.
#[derive(Debug, Clone, Copy, PartialEq, Eq, Structural, PartialOrd, Ord, Hash)]
pub struct ReamSyntax;

impl ReamSyntax {
    /// The kind that `raw` numbers; `raw` must number a kind.
    pub fn kind_from_raw(raw: u16) -> (r: SyntaxKind)
        requires
            raw <= SyntaxKind::ROOT.spec_to_raw(),
        ensures
            r.spec_to_raw() == raw,
    {
        SyntaxKind::from_raw(raw)
    }

    /// The number of `kind`.
    pub fn kind_to_raw(kind: SyntaxKind) -> (r: u16)
        ensures
            r == kind.spec_to_raw(),
    {
        kind.to_raw()
    }
}

} // verus!

//! Character and grapheme classification used by the lexer, and small
//! verified helpers on string slices.

use unicode_segmentation::UnicodeSegmentation;
use vstd::prelude::*;

verus! {

/// The first extended grapheme cluster of `text`, as unicode-segmentation
/// segments it (UAX #29).
pub uninterp spec fn leading_grapheme(text: Seq<char>) -> Seq<char>;

/// Whether emojis' table of emoji holds `text` exactly.
pub uninterp spec fn is_emoji_text(text: Seq<char>) -> bool;

/// Whether the character has Unicode's Alphabetic property.
pub uninterp spec fn is_alphabetic_char(c: char) -> bool;

/// The lower-case mapping of `text` that `str::to_lowercase` computes.
pub uninterp spec fn lowercased(text: Seq<char>) -> Seq<char>;

/// Calls `UnicodeSegmentation::graphemes(text, true).next()` from
/// unicode-segmentation. Claimed: the iterator yields nothing for an empty
/// text, and otherwise yields first a non-empty slice that is a prefix of the
/// text (the grapheme iterator cuts the text into consecutive non-empty
/// slices); that prefix is named by `leading_grapheme`. An ASCII
/// character followed by the end or by another ASCII character is a
/// grapheme of its own, except a carriage return before a line feed
/// (UAX #29: only CR LF, and extending or joining marks, none of which is
/// ASCII, hold an ASCII character together with the next).
#[verifier::external_body]
pub(crate) fn first_grapheme(text: &str) -> (r: Option<&str>)
    ensures
        r is None <==> text@.len() == 0,
        r matches Some(g) ==> (ascii_grapheme_first(text@) ==> g@ == text@.subrange(0, 1)),
        r matches Some(g) ==> {
            &&& g@ == leading_grapheme(text@)
            &&& 0 < g@.len() <= text@.len()
            &&& g@ == text@.subrange(0, g@.len() as int)
        },
{
    text.graphemes(true).next()
}

/// Calls `emojis::get(text).is_some()`. Claimed: the answer is a function of
/// the text alone, named `is_emoji_text`; and no single ASCII character is
/// in the table (every key of its map holds a character above ASCII).
#[verifier::external_body]
pub(crate) fn is_emoji(text: &str) -> (r: bool)
    ensures
        r == is_emoji_text(text@),
        text@.len() == 1 && (text@[0] as u32) < 0x80 ==> !r,
{
    emojis::get(text).is_some()
}

/// Calls `char::is_alphabetic`. Claimed: the answer is a function of the
/// character alone, named `is_alphabetic_char`; among ASCII characters the
/// Alphabetic ones are exactly the letters.
#[verifier::external_body]
pub(crate) fn is_alphabetic(c: char) -> (r: bool)
    ensures
        r == is_alphabetic_char(c),
        (c as u32) < 0x80 ==> (r <==> (('a' <= c && c <= 'z') || ('A' <= c && c <= 'Z'))),
{
    c.is_alphabetic()
}

/// Calls `str::to_lowercase`. Claimed: the result is a function of the text
/// alone, named `lowercased`; on ASCII text it lowers `A` to `Z` and keeps
/// every other character (ASCII letters have one-letter lower cases, and
/// no other ASCII character has a lower case).
#[verifier::external_body]
pub(crate) fn to_lowercase(text: &str) -> (r: String)
    ensures
        r@ == lowercased(text@),
        (forall|i: int| 0 <= i < text@.len() ==> (#[trigger] text@[i] as u32) < 0x80) ==> r@ == ascii_lowercase(
            text@,
        ),
{
    text.to_lowercase()
}

/// The text starts with an ASCII character followed by the end or by
/// another ASCII character, and not with a carriage return before a line
/// feed.
pub open spec fn ascii_grapheme_first(text: Seq<char>) -> bool {
    &&& text.len() > 0
    &&& (text[0] as u32) < 0x80
    &&& (text.len() == 1 || ((text[1] as u32) < 0x80 && !(text[0] == '\r' && text[1] == '\n')))
}

/// ASCII lower-casing: `A` to `Z` become `a` to `z`, the rest stays.
pub open spec fn ascii_lowercase(text: Seq<char>) -> Seq<char> {
    text.map_values(
        |c: char|
            if 'A' <= c && c <= 'Z' {
                ((c as u32) + 32) as char
            } else {
                c
            },
    )
}

/// Unicode's White_Space property, which `char::is_whitespace` tests.
pub open spec fn spec_is_whitespace(c: char) -> bool {
    let v = c as u32;
    ||| 0x09 <= v <= 0x0D
    ||| v == 0x20
    ||| v == 0x85
    ||| v == 0xA0
    ||| v == 0x1680
    ||| 0x2000 <= v <= 0x200A
    ||| v == 0x2028
    ||| v == 0x2029
    ||| v == 0x202F
    ||| v == 0x205F
    ||| v == 0x3000
}

/// The ten ASCII decimal digits.
pub open spec fn spec_is_ascii_digit(c: char) -> bool {
    '0' <= c <= '9'
}

pub fn is_whitespace(c: char) -> (r: bool)
    ensures
        r == spec_is_whitespace(c),
{
    let v = c as u32;
    (0x09 <= v && v <= 0x0D) || v == 0x20 || v == 0x85 || v == 0xA0 || v == 0x1680 || (0x2000
        <= v && v <= 0x200A) || v == 0x2028 || v == 0x2029 || v == 0x202F || v == 0x205F || v
        == 0x3000
}

pub fn is_ascii_digit(c: char) -> (r: bool)
    ensures
        r == spec_is_ascii_digit(c),
{
    '0' <= c && c <= '9'
}

/// Whether two string slices hold the same characters.
pub fn text_equals(a: &str, b: &str) -> (r: bool)
    ensures
        r == (a@ == b@),
{
    let n = a.unicode_len();
    let m = b.unicode_len();
    if n != m {
        return false;
    }
    let mut i: usize = 0;
    while i < n
        invariant
            n == a@.len(),
            m == b@.len(),
            n == m,
            i <= n,
            forall|j: int| 0 <= j < i ==> a@[j] == b@[j],
        decreases n - i,
    {
        if a.get_char(i) != b.get_char(i) {
            return false;
        }
        i = i + 1;
    }
    assert(a@ =~= b@);
    true
}

} // verus!

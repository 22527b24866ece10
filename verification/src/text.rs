//! Comparisons on text that the bridge's rules are written in.

use vstd::prelude::*;

verus! {

/// `text` ends with `suffix`.
pub open spec fn ends_with(text: Seq<char>, suffix: Seq<char>) -> bool {
    suffix.len() <= text.len() && text.subrange(text.len() - suffix.len(), text.len() as int)
        == suffix
}

/// Tells whether two pieces of text hold the same characters.
pub fn same_text(left: &str, right: &str) -> (same: bool)
    ensures
        same == (left@ == right@),
{
    String::from_str(left) == String::from_str(right)
}

/// Tells whether `text` ends with `suffix`.
pub fn has_suffix(text: &str, suffix: &str) -> (found: bool)
    ensures
        found == ends_with(text@, suffix@),
{
    let length = text.unicode_len();
    let tail = suffix.unicode_len();
    if tail > length {
        false
    } else {
        same_text(text.substring_char(length - tail, length), suffix)
    }
}

} // verus!

//! Grapheme segmentation of a line of text.

use unicode_segmentation::UnicodeSegmentation;
use vstd::prelude::*;

verus! {

/// The extended grapheme clusters of `text`, in order, as the Unicode text
/// segmentation rules cut them.
pub uninterp spec fn grapheme_clusters(text: Seq<char>) -> Seq<Seq<char>>;

/// Number of grapheme clusters in `text`.
pub open spec fn grapheme_count(text: Seq<char>) -> nat {
    grapheme_clusters(text).len()
}

/// `at` brought into the range `0..=n`.
pub open spec fn clamp_index(at: int, n: nat) -> int {
    if at < 0 {
        0
    } else if at > n {
        n as int
    } else {
        at
    }
}

/// The position in `text`, counted in characters, at which cluster number
/// `at` begins: the length of all the clusters before it. For `at` at or
/// past the number of clusters it is the end of the text, and it is never
/// past that end.
pub open spec fn grapheme_boundary(text: Seq<char>, at: int) -> int {
    let clusters = grapheme_clusters(text);
    let offset = clusters.take(clamp_index(at, clusters.len())).flatten().len() as int;
    if offset <= text.len() {
        offset
    } else {
        text.len() as int
    }
}

/// Calls `UnicodeSegmentation::graphemes(text, true)` and collects the slices
/// it yields into owned strings.
///
/// Trusted: the strings are the extended grapheme clusters of `text`. The
/// iterator hands out consecutive slices `text[start..next]`, from the start
/// of the text to its end, so together the clusters spell `text`.
#[verifier::external_body]
pub(crate) fn graphemes(text: &str) -> (parts: Vec<String>)
    ensures
        parts.deep_view() == grapheme_clusters(text@),
        parts.deep_view().flatten() == text@,
{
    UnicodeSegmentation::graphemes(text, true).map(String::from).collect()
}

/// Number of grapheme clusters in `text`.
pub fn count(text: &str) -> (n: usize)
    ensures
        n == grapheme_count(text@),
{
    let parts = graphemes(text);
    parts.len()
}

} // verus!

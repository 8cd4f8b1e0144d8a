//! Text segmentation and display width, from the unicode crates.
use vstd::prelude::*;

verus! {

/// The extended grapheme clusters of a text, in order.
pub uninterp spec fn grapheme_clusters(s: Seq<char>) -> Seq<Seq<char>>;

/// The number of terminal columns a text occupies.
pub uninterp spec fn display_width(s: Seq<char>) -> usize;

/// Relies on `unicode_segmentation::UnicodeSegmentation::graphemes` with
/// extended clusters: the clusters of `s`, in order, each copied into a
/// `String`.
#[verifier::external_body]
pub(crate) fn graphemes(s: &str) -> (r: Vec<String>)
    ensures
        r@.len() == grapheme_clusters(s@).len(),
        forall|i: int| 0 <= i < r@.len() ==> (#[trigger] r@[i])@ == grapheme_clusters(s@)[i],
{
    unicode_segmentation::UnicodeSegmentation::graphemes(s, true).map(String::from).collect()
}

/// Relies on `unicode_width::UnicodeWidthStr::width`: the display width of
/// `s` in columns.
#[verifier::external_body]
pub(crate) fn width(s: &str) -> (r: usize)
    ensures
        r == display_width(s@),
{
    unicode_width::UnicodeWidthStr::width(s)
}

} // verus!

//! Annotations of EPUB books: a highlight marks a passage between two EPUB
//! canonical fragment identifiers (CFIs) with a kind and a comment.
use vstd::prelude::*;
use crate::text::copy_text;

verus! {

/// Why a passage was highlighted.
#[derive(PartialEq, Eq, Structural, Clone, Copy, Debug)]
pub enum HighlightType {
    Actionable,
    Example,
    Important,
    Interesting,
    KeyConcept,
    Reread,
    Question,
}

/// A highlighted passage.
#[derive(Debug, PartialEq, Eq)]
pub struct Highlight {
    pub highlight_type: HighlightType,
    pub comment: String,
    pub start_cfi: String,
    pub end_cfi: String,
}

/// A highlight of the given kind with the comment, from `start_cfi` to
/// `end_cfi`. The highlighted text itself is not stored: the CFIs locate it.
pub fn highlight(
    highlight_type: HighlightType,
    text_to_highlight: &str,
    comment: &str,
    start_cfi: &str,
    end_cfi: &str,
) -> (r: Highlight)
    ensures
        r.highlight_type == highlight_type,
        r.comment@ == comment@,
        r.start_cfi@ == start_cfi@,
        r.end_cfi@ == end_cfi@,
{
    Highlight {
        highlight_type,
        comment: copy_text(comment),
        start_cfi: copy_text(start_cfi),
        end_cfi: copy_text(end_cfi),
    }
}

/// Highlighting a whole book is not defined yet: the function does nothing.
pub fn highlight_epub() {
}

} // verus!

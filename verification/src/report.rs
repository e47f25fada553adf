//! What the rules hand back: text edits that make up a fix.
use vstd::prelude::*;

verus! {

/// Replace the source bytes `start..end` with `replacement` (an insertion when
/// the range is empty).
pub struct TextEdit {
    pub start: usize,
    pub end: usize,
    pub replacement: String,
}

/// An edit, as plain values.
pub open spec fn edit_is(e: TextEdit, start: int, end: int, replacement: Seq<char>) -> bool {
    e.start == start && e.end == end && e.replacement@ == replacement
}

/// An edit as a triple of plain values.
pub open spec fn edit_view(e: TextEdit) -> (int, int, Seq<char>) {
    (e.start as int, e.end as int, e.replacement@)
}

/// A list of edits as triples of plain values.
pub open spec fn edits_view(s: Seq<TextEdit>) -> Seq<(int, int, Seq<char>)> {
    s.map_values(|e: TextEdit| edit_view(e))
}

} // verus!

//! The boundary to the line-offset index.
//!
//! The index translates between byte offsets and zero-based (line, column)
//! pairs for a document snapshot. Both directions are functions of the text
//! alone, so each is named by an uninterpreted spec function and performed by
//! a trusted wrapper that rebuilds the index from the text it is given. The
//! index addresses the text with 32-bit offsets, so both wrappers admit only
//! texts below [`crate::parser::MAX_TEXT_LEN`] characters.

use vstd::prelude::*;

use line_index::{LineCol, LineIndex, TextSize};

use crate::parser::MAX_TEXT_LEN;

verus! {

/// The (line, column) pair of byte offset `offset` inside `text`, or none
/// when the offset lies outside the text or in the middle of a character.
pub uninterp spec fn line_col_of(text: Seq<char>, offset: u32) -> Option<(u32, u32)>;

/// The byte offset of the zero-based position (`line`, `character`) inside
/// `text`, or none when the text has no such line or the line's start plus
/// `character` does not fit a 32-bit offset. The column is not checked
/// against the line's length; the offset is the line start plus `character`,
/// as the index computes it.
pub uninterp spec fn offset_of(text: Seq<char>, line: u32, character: u32) -> Option<u32>;

/// Relies on `line_index::LineIndex::try_line_col`: the (line, column) of an
/// offset is a function of the text alone.
#[verifier::external_body]
pub fn line_col_at(text: &str, offset: u32) -> (r: Option<(u32, u32)>)
    requires
        text@.len() < MAX_TEXT_LEN,
    ensures
        r == line_col_of(text@, offset),
{
    LineIndex::new(text).try_line_col(TextSize::new(offset)).map(|lc| (lc.line, lc.col))
}

/// Relies on `line_index::LineIndex::offset` for the line's start offset; the
/// column is then added with a checked addition, so a position whose offset
/// would not fit 32 bits is answered with none rather than escaping the
/// offset range.
#[verifier::external_body]
pub fn offset_at(text: &str, line: u32, character: u32) -> (r: Option<u32>)
    requires
        text@.len() < MAX_TEXT_LEN,
    ensures
        r == offset_of(text@, line, character),
{
    let index = LineIndex::new(text);
    match index.offset(LineCol { line, col: 0 }) {
        Some(start) => u32::from(start).checked_add(character),
        None => None,
    }
}

} // verus!

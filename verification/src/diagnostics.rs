//! Editor-facing positions, ranges and diagnostics, as plain values.
//!
//! A `Position` counts lines and columns from zero; the column is a byte
//! offset within its line, as the line-offset index reports it. Diagnostics
//! carry a range, a severity and a message; the library only ever produces
//! error-severity diagnostics, one per syntax error of the parsed text.

use vstd::prelude::*;

use crate::lines::{line_col_at, line_col_of};
use crate::parser::MAX_TEXT_LEN;

verus! {

/// A zero-based (line, column) position inside a document.
#[derive(Clone, Copy, PartialEq, Eq, Structural, Debug)]
pub struct Position {
    pub line: u32,
    pub character: u32,
}

/// A half-open span between two positions.
#[derive(Clone, Copy, PartialEq, Eq, Structural, Debug)]
pub struct Range {
    pub start: Position,
    pub end: Position,
}

/// How severe a diagnostic is. Syntax errors are the only diagnostics this
/// library produces, and they are always errors.
#[derive(Clone, Copy, PartialEq, Eq, Structural, Debug)]
pub enum DiagnosticSeverity {
    Error,
}

/// View of a [`Diagnostic`].
#[verifier::ext_equal]
pub ghost struct DiagnosticV {
    pub range: Range,
    pub severity: DiagnosticSeverity,
    pub message: Seq<char>,
}

/// One editor-visible diagnostic.
#[derive(Debug)]
pub struct Diagnostic {
    pub range: Range,
    pub severity: DiagnosticSeverity,
    pub message: String,
}

impl View for Diagnostic {
    type V = DiagnosticV;

    open spec fn view(&self) -> DiagnosticV {
        DiagnosticV { range: self.range, severity: self.severity, message: self.message@ }
    }
}

impl DeepView for Diagnostic {
    type V = DiagnosticV;

    open spec fn deep_view(&self) -> DiagnosticV {
        self.view()
    }
}

/// The position that the line-offset index of `text` reports for byte offset
/// `offset`; the zero position when the offset is invalid (the update
/// pipeline only converts offsets that the parser produced for the same
/// text, which are always valid).
pub open spec fn position_of(text: Seq<char>, offset: u32) -> Position {
    match line_col_of(text, offset) {
        Some(lc) => Position { line: lc.0, character: lc.1 },
        None => Position { line: 0, character: 0 },
    }
}

/// The (line, column) range of the byte range `start..end` of `text`.
pub open spec fn range_of(text: Seq<char>, start: u32, end: u32) -> Range {
    Range { start: position_of(text, start), end: position_of(text, end) }
}

/// Converts a byte range of `text` into a (line, column) range through the
/// line-offset index.
pub fn range_at(text: &str, start: u32, end: u32) -> (r: Range)
    requires
        text@.len() < MAX_TEXT_LEN,
    ensures
        r == range_of(text@, start, end),
{
    let s = match line_col_at(text, start) {
        Some(lc) => Position { line: lc.0, character: lc.1 },
        None => Position { line: 0, character: 0 },
    };
    let e = match line_col_at(text, end) {
        Some(lc) => Position { line: lc.0, character: lc.1 },
        None => Position { line: 0, character: 0 },
    };
    Range { start: s, end: e }
}

} // verus!

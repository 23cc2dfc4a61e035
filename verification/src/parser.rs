//! The boundary to the syntax-tree parser.
//!
//! The parser is consumed as a black box: it turns a full document text into
//! a tree plus a list of syntax errors with byte ranges. What the library's
//! logic reads of the tree — the module declarations and type definitions it
//! contains, in preorder, and the token under an offset — is a function of
//! the text alone, so each extraction is named by an uninterpreted spec
//! function and performed by a trusted wrapper.
//!
//! The syntax tree and the line-offset index both address the text with
//! 32-bit byte offsets, so every boundary function admits only texts below
//! [`MAX_TEXT_LEN`] characters; a character encodes to at most four bytes, so
//! such a text's byte offsets always fit.

use vstd::prelude::*;

use ra_ap_syntax::ast::HasName;
use ra_ap_syntax::{AstNode, Edition, NodeOrToken, SourceFile, SyntaxKind, TextRange, TextSize, ast};

verus! {

/// The largest document size, in characters, that the parser and line-offset
/// boundaries accept: anything longer could overflow the 32-bit byte offsets
/// both use.
pub const MAX_TEXT_LEN: usize = 0x40000000;

/// What kind of item a scanned syntax node is.
#[derive(Clone, Copy, PartialEq, Eq, Structural, Debug)]
pub enum ItemKind {
    /// A module declaration naming a child module.
    ModuleDecl,
    /// A struct-like type definition.
    StructDef,
    /// An enum-like type definition.
    EnumDef,
}

/// View of a [`FlatItem`].
#[verifier::ext_equal]
pub ghost struct FlatItemV {
    pub kind: ItemKind,
    pub name: Option<Seq<char>>,
    pub start: u32,
    pub end: u32,
}

/// One interesting node of a file's syntax tree, read into plain values: its
/// kind, its name token's text when the node has one (a malformed node may
/// not), and the byte range of the whole node.
#[derive(Debug)]
pub struct FlatItem {
    pub kind: ItemKind,
    pub name: Option<String>,
    pub start: u32,
    pub end: u32,
}

impl View for FlatItem {
    type V = FlatItemV;

    open spec fn view(&self) -> FlatItemV {
        FlatItemV {
            kind: self.kind,
            name: self.name.deep_view(),
            start: self.start,
            end: self.end,
        }
    }
}

impl DeepView for FlatItem {
    type V = FlatItemV;

    open spec fn deep_view(&self) -> FlatItemV {
        self.view()
    }
}

/// View of a [`ParseError`].
#[verifier::ext_equal]
pub ghost struct ParseErrorV {
    pub start: u32,
    pub end: u32,
    pub message: Seq<char>,
}

/// One syntax error of a parsed text: the byte range of the smallest syntax
/// node fully covering the reported error, and the parser's message.
#[derive(Debug)]
pub struct ParseError {
    pub start: u32,
    pub end: u32,
    pub message: String,
}

impl View for ParseError {
    type V = ParseErrorV;

    open spec fn view(&self) -> ParseErrorV {
        ParseErrorV { start: self.start, end: self.end, message: self.message@ }
    }
}

impl DeepView for ParseError {
    type V = ParseErrorV;

    open spec fn deep_view(&self) -> ParseErrorV {
        self.view()
    }
}

/// The module declarations and type definitions of the syntax tree of `text`,
/// in preorder.
pub uninterp spec fn parsed_items_of(text: Seq<char>) -> Seq<FlatItemV>;

/// The syntax errors of `text`, each widened to the smallest covering node.
pub uninterp spec fn parse_errors_of(text: Seq<char>) -> Seq<ParseErrorV>;

/// The text of the token of `text`'s syntax tree at byte offset `offset`, or
/// none when the offset is out of range or covered by no single token.
pub uninterp spec fn token_text_at(text: Seq<char>, offset: u32) -> Option<Seq<char>>;

/// Relies on `ra_ap_syntax::SourceFile::parse` and the node accessors `kind`,
/// `name` and `text_range`: the parse tree, and hence the flat list of module
/// declarations and type definitions drawn from it in preorder, is a function
/// of the text alone.
#[verifier::external_body]
pub fn parse_flat_items(text: &str) -> (r: Vec<FlatItem>)
    requires
        text@.len() < MAX_TEXT_LEN,
    ensures
        r.deep_view() == parsed_items_of(text@),
{
    let parse = SourceFile::parse(text, Edition::Edition2024);
    parse.syntax_node().descendants().filter_map(|node| {
        let kind = match node.kind() {
            SyntaxKind::MODULE => ItemKind::ModuleDecl,
            SyntaxKind::STRUCT => ItemKind::StructDef,
            SyntaxKind::ENUM => ItemKind::EnumDef,
            _ => return None,
        };
        let name = ast::AnyHasName::cast(node.clone()).and_then(|n| n.name());
        let (start, end) = (node.text_range().start().into(), node.text_range().end().into());
        Some(FlatItem { kind, name: name.map(|n| n.text().to_string()), start, end })
    }).collect()
}

/// Relies on `ra_ap_syntax::SourceFile::parse`, `Parse::errors` and
/// `SyntaxNode::covering_element`: the error list is a function of the text
/// alone, and each error's range is widened to the smallest node fully
/// covering it.
#[verifier::external_body]
pub fn parse_errors(text: &str) -> (r: Vec<ParseError>)
    requires
        text@.len() < MAX_TEXT_LEN,
    ensures
        r.deep_view() == parse_errors_of(text@),
{
    let parse = SourceFile::parse(text, Edition::Edition2024);
    let root = parse.syntax_node();
    parse.errors().iter().map(|e| {
        let range = root.covering_element(e.range()).text_range();
        ParseError {
            start: range.start().into(),
            end: range.end().into(),
            message: e.to_string(),
        }
    }).collect()
}

/// Relies on `ra_ap_syntax::SourceFile::parse` and
/// `SyntaxNode::covering_element`: the element covering an empty range at
/// `offset` is a function of the text and the offset alone; its token text is
/// returned, or none when the offset lies outside the text or the covering
/// element is not a single token.
#[verifier::external_body]
pub fn token_at(text: &str, offset: u32) -> (r: Option<String>)
    requires
        text@.len() < MAX_TEXT_LEN,
    ensures
        r.deep_view() == token_text_at(text@, offset),
{
    let parse = SourceFile::parse(text, Edition::Edition2024);
    let root = parse.syntax_node();
    if offset > root.text_range().end().into() {
        return None;
    }
    match root.covering_element(TextRange::empty(TextSize::new(offset))) {
        NodeOrToken::Token(t) => Some(t.text().to_string()),
        NodeOrToken::Node(_) => None,
    }
}

} // verus!

//! Go-to-definition: from a cursor position to the owning file and range of
//! the type definition named by the token under the cursor.
//!
//! The token's literal text forms a flat symbol key (no scope narrowing), and
//! the key is looked up in the global type-definition table. A name collision
//! anywhere resolves to whichever definition currently occupies the key. A
//! position outside the document, a position covered by no single token, and
//! a name with no definition all resolve to an explicit "no result".

use vstd::prelude::*;

use crate::database::{
    Database, FileUrl, FileUrlV, ItemPath, ItemPathV, ModulePath, TypeDefDataV, file_data_of,
    has_file, tds_view, tdv_lookup,
};
use crate::database::ast_scan::item_key_of;
use crate::diagnostics::Range;
use crate::lines::{offset_at, offset_of};
use crate::parser::{token_at, token_text_at};

verus! {

/// View of a [`Location`].
#[verifier::ext_equal]
pub ghost struct LocationV {
    pub file: FileUrlV,
    pub range: Range,
}

/// Where a definition lives: the owning file and the definition's range.
#[derive(Debug)]
pub struct Location {
    pub file: FileUrl,
    pub range: Range,
}

impl View for Location {
    type V = LocationV;

    open spec fn view(&self) -> LocationV {
        LocationV { file: self.file@, range: self.range }
    }
}

impl DeepView for Location {
    type V = LocationV;

    open spec fn deep_view(&self) -> LocationV {
        self.view()
    }
}

/// What go-to-definition answers for a cursor at (`line`, `character`) in a
/// document with text `text`, against the symbol table `tds`: the location
/// under the token's flat key, or nothing when the position is invalid, no
/// single token covers it, or the name has no live definition.
pub open spec fn definition_spec(
    tds: Seq<(ItemPathV, TypeDefDataV)>,
    text: Seq<char>,
    line: u32,
    character: u32,
) -> Option<LocationV> {
    match offset_of(text, line, character) {
        None => None,
        Some(off) => match token_text_at(text, off) {
            None => None,
            Some(tok) => match tdv_lookup(tds, item_key_of(tok)) {
                Some(d) => Some(LocationV { file: d.file_path, range: d.range }),
                None => None,
            },
        },
    }
}

/// Answers a go-to-definition query for the document `file` at the given
/// position (see [`definition_spec`]); nothing when the document has no
/// record. The caller loads `file` first when it wants the lazy-load
/// behaviour.
pub fn definition(db: &Database, file: &FileUrl, line: u32, character: u32) -> (r: Option<Location>)
    requires
        db.wf(),
    ensures
        r.deep_view() == (if has_file(db.files@, file@.segments) {
            definition_spec(
                tds_view(db.type_defs@),
                file_data_of(db.files@, file@.segments).text,
                line,
                character,
            )
        } else {
            None::<LocationV>
        }),
{
    let rec = match db.get_file(file) {
        Some(d) => d,
        None => {
            return None;
        },
    };
    let off = match offset_at(rec.text.as_str(), line, character) {
        Some(o) => o,
        None => {
            return None;
        },
    };
    let tok = match token_at(rec.text.as_str(), off) {
        Some(t) => t,
        None => {
            return None;
        },
    };
    let path = ItemPath {
        module: ModulePath { crate_: "crate".to_owned(), segments: Vec::new() },
        name: tok,
    };
    proof {
        assert(path.module.segments.deep_view() =~= Seq::<Seq<char>>::empty());
        assert(path@ =~= item_key_of(token_text_at(
            file_data_of(db.files@, file@.segments).text,
            off,
        )->Some_0));
    }
    match db.lookup_type_def(&path) {
        Some(d) => Some(Location { file: d.file_path.duplicate(), range: d.range }),
        None => None,
    }
}

} // verus!

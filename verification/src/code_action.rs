//! The quick-fix code action: offer to insert a module declaration for an
//! edited file into its resolved parent file.
//!
//! When the file has a resolved parent and the parent does not yet declare a
//! module named after the file's base name, two suggested edits are offered —
//! a private and a public module declaration — positioned immediately after
//! the parent's last existing module declaration, or at the very start of the
//! parent document when it has none. No suggestion is made when there is no
//! parent or the parent already declares the module.

use vstd::prelude::*;

use crate::database::{
    Database, FileEntry, FileUrl, FileUrlV, ModuleInclude, ModuleIncludeV, file_data_of, file_idx,
    has_file,
};
use crate::diagnostics::{Position, Range};
use crate::text_util::{stem_len, stem_of};

verus! {

/// View of a [`ModInsertion`].
#[verifier::ext_equal]
pub ghost struct ModInsertionV {
    pub title: Seq<char>,
    pub new_text: Seq<char>,
    pub range: Range,
    pub target: FileUrlV,
}

/// One suggested edit: a human-readable title, the text to insert, the range
/// of the parent document to insert it at, and the parent file to edit.
#[derive(Debug)]
pub struct ModInsertion {
    pub title: String,
    pub new_text: String,
    pub range: Range,
    pub target: FileUrl,
}

impl View for ModInsertion {
    type V = ModInsertionV;

    open spec fn view(&self) -> ModInsertionV {
        ModInsertionV {
            title: self.title@,
            new_text: self.new_text@,
            range: self.range,
            target: self.target@,
        }
    }
}

impl DeepView for ModInsertion {
    type V = ModInsertionV;

    open spec fn deep_view(&self) -> ModInsertionV {
        self.view()
    }
}

/// Where a new module declaration is inserted in the parent: immediately
/// after the last existing declaration, or at the very start of the document
/// when there is none.
pub open spec fn insertion_range_of(modules: Seq<ModuleIncludeV>) -> Range {
    if modules.len() == 0 {
        Range {
            start: Position { line: 0, character: 0 },
            end: Position { line: 0, character: 0 },
        }
    } else {
        Range { start: modules.last().range.end, end: modules.last().range.end }
    }
}

/// Whether the parent's module records already declare a module named `stem`.
pub open spec fn parent_declares(modules: Seq<ModuleIncludeV>, stem: Seq<char>) -> bool {
    exists|i: int| 0 <= i < modules.len() && modules[i].name == stem
}

/// The title of the private-declaration suggestion.
pub open spec fn private_title_of(stem: Seq<char>) -> Seq<char> {
    "Insert `mod "@ + stem + ";`"@
}

/// The text the private-declaration suggestion inserts.
pub open spec fn private_text_of(stem: Seq<char>) -> Seq<char> {
    "\nmod "@ + stem + ";"@
}

/// The title of the public-declaration suggestion.
pub open spec fn public_title_of(stem: Seq<char>) -> Seq<char> {
    "Insert `pub mod "@ + stem + ";`"@
}

/// The text the public-declaration suggestion inserts.
pub open spec fn public_text_of(stem: Seq<char>) -> Seq<char> {
    "\npub mod "@ + stem + ";"@
}

/// The suggested edits for the file at `segs`: none when its record or parent
/// is missing or the parent already declares the module; otherwise the
/// private and the public declaration of the file's base name, in that order,
/// both aimed at the parent.
pub open spec fn mod_insertions_of(files: Seq<FileEntry>, segs: Seq<Seq<char>>) -> Seq<
    ModInsertionV,
> {
    if !has_file(files, segs) {
        Seq::empty()
    } else {
        let rec = file_data_of(files, segs);
        match rec.parent {
            None => Seq::empty(),
            Some(p) => {
                let prec = file_data_of(files, p.segments);
                let stem = stem_of(segs.last());
                if parent_declares(prec.modules, stem) {
                    Seq::empty()
                } else {
                    seq![
                        ModInsertionV {
                            title: private_title_of(stem),
                            new_text: private_text_of(stem),
                            range: insertion_range_of(prec.modules),
                            target: p,
                        },
                        ModInsertionV {
                            title: public_title_of(stem),
                            new_text: public_text_of(stem),
                            range: insertion_range_of(prec.modules),
                            target: p,
                        },
                    ]
                }
            },
        }
    }
}

/// Whether some module record is named `stem`, decided over the views.
fn contains_module_name(modules: &Vec<ModuleInclude>, stem: &str) -> (r: bool)
    ensures
        r == parent_declares(modules.deep_view(), stem@),
{
    let mut i: usize = 0;
    while i < modules.len()
        invariant
            i <= modules@.len(),
            forall|j: int| 0 <= j < i ==> modules@[j].name@ != stem@,
        decreases modules@.len() - i,
    {
        if crate::text_util::str_eq(modules[i].name.as_str(), stem) {
            proof {
                assert(modules.deep_view()[i as int].name == stem@);
            }
            return true;
        }
        i += 1;
    }
    proof {
        if parent_declares(modules.deep_view(), stem@) {
            let w = choose|w: int|
                0 <= w < modules.deep_view().len() && modules.deep_view()[w].name == stem@;
            assert(modules@[w].name@ == stem@);
        }
    }
    false
}

/// Computes the suggested `mod` / `pub mod` insertions for `file` (see
/// [`mod_insertions_of`]). The caller loads `file` first when it wants the
/// lazy-load behaviour, and turns each suggestion into an editor edit.
pub fn add_mod_to_parent(db: &Database, file: &FileUrl) -> (r: Vec<ModInsertion>)
    requires
        db.wf(),
        file.wf(),
    ensures
        r.deep_view() == mod_insertions_of(db.files@, file@.segments),
{
    let fi = match db.find_file_index(file) {
        Some(i) => i,
        None => {
            return Vec::new();
        },
    };
    proof {
        assert(file_idx(db.files@, file@.segments) == fi as int);
    }
    let parent = match &db.files[fi].data.parent {
        Some(p) => p,
        None => {
            return Vec::new();
        },
    };
    let pj = match db.find_file_index(parent) {
        Some(j) => j,
        None => {
            proof {
                assert(has_file(db.files@, parent@.segments));
            }
            return Vec::new();
        },
    };
    proof {
        assert(file_idx(db.files@, parent@.segments) == pj as int);
    }
    let fname = file.file_name();
    let k = stem_len(fname.as_str());
    proof {
        crate::text_util::lemma_stem_len_bounds(fname@);
    }
    let stem = fname.as_str().substring_char(0, k);
    proof {
        assert(stem@ =~= stem_of(file@.segments.last()));
    }
    let parent_rec = &db.files[pj].data;
    if contains_module_name(&parent_rec.modules, stem) {
        return Vec::new();
    }
    let rng = if parent_rec.modules.len() == 0 {
        Range {
            start: Position { line: 0, character: 0 },
            end: Position { line: 0, character: 0 },
        }
    } else {
        let last = &parent_rec.modules[parent_rec.modules.len() - 1];
        proof {
            assert(parent_rec.modules.deep_view().last() == parent_rec.modules@[
                parent_rec.modules@.len() - 1]@);
        }
        Range { start: last.range.end, end: last.range.end }
    };
    let mut out: Vec<ModInsertion> = Vec::new();
    out.push(
        ModInsertion {
            title: "Insert `mod ".to_owned().concat(stem).concat(";`"),
            new_text: "\nmod ".to_owned().concat(stem).concat(";"),
            range: rng,
            target: parent.duplicate(),
        },
    );
    out.push(
        ModInsertion {
            title: "Insert `pub mod ".to_owned().concat(stem).concat(";`"),
            new_text: "\npub mod ".to_owned().concat(stem).concat(";"),
            range: rng,
            target: parent.duplicate(),
        },
    );
    proof {
        assert(out.deep_view() =~= mod_insertions_of(db.files@, file@.segments));
    }
    out
}

} // verus!

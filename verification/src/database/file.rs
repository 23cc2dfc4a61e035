//! Diagnostics derivation and the decisions of the initial workspace walk.
//!
//! Diagnostics: every syntax error of a parsed text becomes one
//! error-severity diagnostic whose range is the error's widened range
//! converted to (line, column), under a fixed message template; the complete
//! set is published with replace semantics, stamped with the triggering
//! document version. The walk decisions say which directory entries the
//! caller's filesystem walk recurses into, loads, or skips.

use vstd::prelude::*;

use crate::database::FileUrl;
use crate::diagnostics::{Diagnostic, DiagnosticSeverity, DiagnosticV, range_of, range_at};
use crate::parser::{MAX_TEXT_LEN, ParseErrorV, parse_errors, parse_errors_of};
use crate::text_util::{str_eq, stem_len_of, stem_len};

verus! {

/// The diagnostic derived from one widened syntax error of `text`.
pub open spec fn diagnostic_ofv(text: Seq<char>, e: ParseErrorV) -> DiagnosticV {
    DiagnosticV {
        range: range_of(text, e.start, e.end),
        severity: DiagnosticSeverity::Error,
        message: "Syntax Error: "@ + e.message,
    }
}

/// The complete diagnostic set of `text`: one error-severity diagnostic per
/// syntax error, in the parser's order.
pub open spec fn diagnostics_ofv(text: Seq<char>) -> Seq<DiagnosticV> {
    parse_errors_of(text).map_values(|e: ParseErrorV| diagnostic_ofv(text, e))
}

/// Derives the full diagnostic set of `text` — the first step of an update,
/// before the purge and rescan: the text is parsed, each error's range is
/// widened to the smallest covering node and converted to (line, column), and
/// one error-severity diagnostic is emitted per error.
pub fn get_file_diagnostics(text: &str) -> (r: Vec<Diagnostic>)
    requires
        text@.len() < MAX_TEXT_LEN,
    ensures
        r.deep_view() == diagnostics_ofv(text@),
{
    let errors = parse_errors(text);
    let mut out: Vec<Diagnostic> = Vec::new();
    let mut i: usize = 0;
    while i < errors.len()
        invariant
            text@.len() < MAX_TEXT_LEN,
            i <= errors@.len(),
            errors.deep_view() == parse_errors_of(text@),
            out@.len() == i,
            forall|j: int|
                0 <= j < i ==> (#[trigger] out@[j]).deep_view() == diagnostic_ofv(
                    text@,
                    errors.deep_view()[j],
                ),
        decreases errors@.len() - i,
    {
        let e = &errors[i];
        let rng = range_at(text, e.start, e.end);
        let d = Diagnostic {
            range: rng,
            severity: DiagnosticSeverity::Error,
            message: "Syntax Error: ".to_owned().concat(e.message.as_str()),
        };
        proof {
            assert(errors.deep_view()[i as int] == errors@[i as int]@);
            assert(d.deep_view() =~= diagnostic_ofv(text@, errors.deep_view()[i as int]));
        }
        out.push(d);
        i += 1;
    }
    proof {
        assert forall|j: int| 0 <= j < out.deep_view().len() implies out.deep_view()[j]
            == diagnostics_ofv(text@)[j] by {
            assert(out.deep_view()[j] == out@[j].deep_view());
        }
        assert(out.deep_view() =~= diagnostics_ofv(text@));
    }
    out
}

/// View of a [`DiagnosticsUpdate`].
#[verifier::ext_equal]
pub ghost struct DiagnosticsUpdateV {
    pub url: Seq<char>,
    pub diagnostics: Seq<DiagnosticV>,
    pub version: i32,
}

/// One publish-diagnostics payload: the file's URI, the complete diagnostic
/// set (replace semantics), and the document version it was derived from, so
/// a client can discard stale sets by version comparison.
#[derive(Debug)]
pub struct DiagnosticsUpdate {
    pub url: String,
    pub diagnostics: Vec<Diagnostic>,
    pub version: i32,
}

impl View for DiagnosticsUpdate {
    type V = DiagnosticsUpdateV;

    open spec fn view(&self) -> DiagnosticsUpdateV {
        DiagnosticsUpdateV {
            url: self.url@,
            diagnostics: self.diagnostics.deep_view(),
            version: self.version,
        }
    }
}

/// Assembles the publish payload for `file`: the complete set `diagnostics`,
/// stamped with the given document `version`. The caller sends it.
pub fn post_diagnostics(file: &FileUrl, diagnostics: Vec<Diagnostic>, version: i32) -> (r:
    DiagnosticsUpdate)
    ensures
        r@.url == file@.url,
        r@.diagnostics == diagnostics.deep_view(),
        r@.version == version,
{
    DiagnosticsUpdate { url: file.url().clone(), diagnostics, version }
}

/// Whether a file name carries the analyzed-language extension: it has an
/// extension and that extension is `rs`.
pub open spec fn has_rs_extension(name: Seq<char>) -> bool {
    stem_len_of(name) < name.len() && name.skip(stem_len_of(name) + 1) == "rs"@
}

/// Decides [`has_rs_extension`] for a file name.
pub fn is_rs_file(name: &str) -> (r: bool)
    ensures
        r == has_rs_extension(name@),
{
    let n = name.unicode_len();
    let d = stem_len(name);
    if d >= n {
        return false;
    }
    let ext = name.substring_char(d + 1, n);
    proof {
        assert(ext@ =~= name@.skip(d + 1));
    }
    str_eq(ext, "rs")
}

/// What the workspace walk does with one directory entry.
#[derive(Clone, Copy, PartialEq, Eq, Structural, Debug)]
pub enum WalkAction {
    /// A directory to walk into.
    Recurse,
    /// A source file to load into the database.
    LoadFile,
    /// An entry the walk passes over.
    Ignore,
    /// A symbolic link: unsupported, reported and never followed.
    ReportSymlink,
}

/// The walk's decision for an entry named `name` with the given filesystem
/// kind: `.git` directories are skipped, other directories are walked into,
/// files with the analyzed-language extension are loaded, symbolic links are
/// only reported, everything else is passed over.
pub open spec fn classify_entry_spec(
    name: Seq<char>,
    is_dir: bool,
    is_file: bool,
    is_symlink: bool,
) -> WalkAction {
    if is_dir {
        if name == ".git"@ {
            WalkAction::Ignore
        } else {
            WalkAction::Recurse
        }
    } else if is_file {
        if has_rs_extension(name) {
            WalkAction::LoadFile
        } else {
            WalkAction::Ignore
        }
    } else if is_symlink {
        WalkAction::ReportSymlink
    } else {
        WalkAction::Ignore
    }
}

/// Decides [`classify_entry_spec`] for one directory entry.
pub fn classify_entry(name: &str, is_dir: bool, is_file: bool, is_symlink: bool) -> (r: WalkAction)
    ensures
        r == classify_entry_spec(name@, is_dir, is_file, is_symlink),
{
    if is_dir {
        if str_eq(name, ".git") {
            WalkAction::Ignore
        } else {
            WalkAction::Recurse
        }
    } else if is_file {
        if is_rs_file(name) {
            WalkAction::LoadFile
        } else {
            WalkAction::Ignore
        }
    } else if is_symlink {
        WalkAction::ReportSymlink
    } else {
        WalkAction::Ignore
    }
}

/// Whether a directory is marked as a cache and skipped whole: some regular
/// file among its entries — their names given here — is the well-known cache
/// marker.
pub fn should_skip_dir(file_names: &Vec<String>) -> (r: bool)
    ensures
        r == file_names.deep_view().contains("CACHEDIR.TAG"@),
{
    let mut i: usize = 0;
    while i < file_names.len()
        invariant
            i <= file_names@.len(),
            forall|j: int| 0 <= j < i ==> file_names@[j]@ != "CACHEDIR.TAG"@,
        decreases file_names@.len() - i,
    {
        if str_eq(file_names[i].as_str(), "CACHEDIR.TAG") {
            proof {
                assert(file_names.deep_view()[i as int] == "CACHEDIR.TAG"@);
            }
            return true;
        }
        i += 1;
    }
    proof {
        if file_names.deep_view().contains("CACHEDIR.TAG"@) {
            let w = choose|w: int|
                0 <= w < file_names.deep_view().len() && file_names.deep_view()[w]
                    == "CACHEDIR.TAG"@;
            assert(file_names@[w]@ == "CACHEDIR.TAG"@);
        }
    }
    false
}

} // verus!

//! The module-parent resolution heuristic.
//!
//! Given a file, its logical parent module file is searched by directory
//! convention: a crate-root file has no parent; a directory-module file
//! searches one directory above itself; any other file searches among its
//! siblings; the directory-module sibling wins over the library-root sibling,
//! which wins over the binary-root sibling; last, one directory further up, a
//! file sharing the search directory's name is tried. This module computes
//! the ordered candidate list; the caller checks each candidate in order,
//! lazily loading it, and commits the first hit through [`set_parent`].
//!
//! A candidate that would be the filesystem root itself is never a loadable
//! file and is left off the list.

use vstd::prelude::*;

use crate::database::{Database, FileUrl, file_idx, has_file, opt_file_url_view};
use crate::text_util::{str_eq, stem_of, with_rs_extension};

verus! {

/// The path `p` with its last segment replaced by `n`, or — for the root,
/// which has no segments — the path whose one segment is `n`.
pub open spec fn with_file_namev(p: Seq<Seq<char>>, n: Seq<char>) -> Seq<Seq<char>> {
    if p.len() >= 1 {
        p.drop_last().push(n)
    } else {
        seq![n]
    }
}

/// The ordered candidate list of the parent search for the file at `segs`.
///
/// A file named after the crate-root conventions (`lib.rs`, `main.rs`) has no
/// candidates. A file named `mod.rs` searches from one directory above
/// itself; every other file searches its own directory. In the search
/// directory the candidates are `mod.rs`, then `lib.rs`, then `main.rs`;
/// last comes the file one directory further up that shares the search
/// directory's name with the `rs` extension.
pub open spec fn parent_candidates_spec(segs: Seq<Seq<char>>) -> Seq<Seq<Seq<char>>>
    recommends
        segs.len() >= 1,
{
    let name = segs.last();
    if name == "lib.rs"@ || name == "main.rs"@ {
        Seq::empty()
    } else {
        let base = if name == "mod.rs"@ {
            segs.drop_last()
        } else {
            segs
        };
        let head = seq![
            with_file_namev(base, "mod.rs"@),
            with_file_namev(base, "lib.rs"@),
            with_file_namev(base, "main.rs"@),
        ];
        if base.len() >= 2 {
            head.push(base.drop_last().drop_last().push(stem_of(base[base.len() - 2]) + ".rs"@))
        } else {
            head
        }
    }
}

/// The first `k` segments of `v`, copied.
fn prefix_clone(v: &Vec<String>, k: usize) -> (r: Vec<String>)
    requires
        k <= v@.len(),
    ensures
        r.deep_view() == v.deep_view().take(k as int),
{
    let mut r: Vec<String> = Vec::new();
    let mut i: usize = 0;
    while i < k
        invariant
            i <= k <= v@.len(),
            r@.len() == i,
            forall|j: int| 0 <= j < i ==> r@[j]@ == v@[j]@,
        decreases k - i,
    {
        r.push(v[i].clone());
        i += 1;
    }
    proof {
        assert(r.deep_view() =~= v.deep_view().take(k as int));
    }
    r
}

/// The first `keep` segments of `segs`, with `name` appended.
fn candidate_with_name(segs: &Vec<String>, keep: usize, name: &str) -> (r: Vec<String>)
    requires
        keep <= segs@.len(),
    ensures
        r.deep_view() == segs.deep_view().take(keep as int).push(name@),
{
    let mut r = prefix_clone(segs, keep);
    r.push(name.to_owned());
    proof {
        assert(r.deep_view() =~= segs.deep_view().take(keep as int).push(name@));
    }
    r
}

/// Computes the ordered parent candidates of `file` (see
/// [`parent_candidates_spec`]). The caller checks the candidates in order and
/// keeps the first one that names a loadable file.
pub fn parent_candidates(file: &FileUrl) -> (r: Vec<Vec<String>>)
    requires
        file.wf(),
    ensures
        r.deep_view() == parent_candidates_spec(file@.segments),
{
    let segs = file.path();
    let n = segs.len();
    proof {
        assert(segs.deep_view().len() == segs@.len());
        assert(segs.deep_view()[n - 1] == file@.segments.last());
    }
    let name = &segs[n - 1];
    if str_eq(name.as_str(), "lib.rs") || str_eq(name.as_str(), "main.rs") {
        return Vec::new();
    }
    let base_len: usize = if str_eq(name.as_str(), "mod.rs") {
        n - 1
    } else {
        n
    };
    let ghost base = file@.segments.take(base_len as int);
    proof {
        if base_len == n {
            assert(base =~= file@.segments);
        } else {
            assert(base =~= file@.segments.drop_last());
        }
    }
    let keep: usize = if base_len >= 1 {
        base_len - 1
    } else {
        0
    };
    proof {
        if base_len >= 1 {
            assert(base.drop_last() =~= file@.segments.take(keep as int));
        }
    }
    let mut out: Vec<Vec<String>> = Vec::new();
    out.push(candidate_with_name(segs, keep, "mod.rs"));
    out.push(candidate_with_name(segs, keep, "lib.rs"));
    out.push(candidate_with_name(segs, keep, "main.rs"));
    proof {
        if base_len == 0 {
            assert(out.deep_view()[0] =~= with_file_namev(base, "mod.rs"@));
            assert(out.deep_view()[1] =~= with_file_namev(base, "lib.rs"@));
            assert(out.deep_view()[2] =~= with_file_namev(base, "main.rs"@));
        }
    }
    if base_len >= 2 {
        let ext = with_rs_extension(segs[base_len - 2].as_str());
        let mut c4 = prefix_clone(segs, base_len - 2);
        c4.push(ext);
        proof {
            assert(base.drop_last().drop_last() =~= file@.segments.take(base_len - 2));
            assert(base[base_len - 2] == segs@[base_len - 2]@);
            assert(c4.deep_view() =~= base.drop_last().drop_last().push(
                stem_of(base[base_len - 2]) + ".rs"@,
            ));
        }
        out.push(c4);
    }
    proof {
        assert(out.deep_view() =~= parent_candidates_spec(file@.segments));
    }
    out
}

/// Files named after the library-root or binary-root conventions have no
/// parent: module resolution offers no candidate for them.
pub proof fn lemma_root_files_have_no_parent(segs: Seq<Seq<char>>)
    requires
        segs.len() >= 1,
        segs.last() == "lib.rs"@ || segs.last() == "main.rs"@,
    ensures
        parent_candidates_spec(segs).len() == 0,
{
}

/// For a file matching neither the crate-root nor the directory-module
/// conventions, the directory-module sibling is the first candidate, taking
/// priority over the library-root and binary-root siblings even when both
/// exist; those two follow in that order.
pub proof fn lemma_dir_module_sibling_first(segs: Seq<Seq<char>>)
    requires
        segs.len() >= 1,
        segs.last() != "lib.rs"@,
        segs.last() != "main.rs"@,
        segs.last() != "mod.rs"@,
    ensures
        parent_candidates_spec(segs).len() >= 3,
        parent_candidates_spec(segs)[0] == segs.drop_last().push("mod.rs"@),
        parent_candidates_spec(segs)[1] == segs.drop_last().push("lib.rs"@),
        parent_candidates_spec(segs)[2] == segs.drop_last().push("main.rs"@),
{
}

/// Commits the outcome of a parent search into `file`'s record, leaving every
/// other part of the record untouched; returns whether it was committed. The
/// parent, when one is given, must already be loaded: a missing record for
/// either file commits nothing.
pub fn set_parent(db: &mut Database, file: &FileUrl, parent: Option<&FileUrl>) -> (r: bool)
    requires
        old(db).wf(),
    ensures
        final(db).wf(),
        r == (has_file(old(db).files@, file@.segments) && (match parent {
            Some(p) => has_file(old(db).files@, p@.segments),
            None => true,
        })),
        !r ==> *final(db) == *old(db),
        r ==> {
            let i = file_idx(old(db).files@, file@.segments);
            &&& final(db).files@.len() == old(db).files@.len()
            &&& forall|j: int|
                0 <= j < final(db).files@.len() && j != i ==> final(db).files@[j] == old(
                    db,
                ).files@[j]
            &&& final(db).files@[i].file == old(db).files@[i].file
            &&& opt_file_url_view(final(db).files@[i].data.parent) == (match parent {
                Some(p) => Some(p@),
                None => None::<crate::database::FileUrlV>,
            })
            &&& final(db).files@[i].data.is_open == old(db).files@[i].data.is_open
            &&& final(db).files@[i].data.version == old(db).files@[i].data.version
            &&& final(db).files@[i].data.text == old(db).files@[i].data.text
            &&& final(db).files@[i].data.modules == old(db).files@[i].data.modules
            &&& final(db).files@[i].data.types == old(db).files@[i].data.types
            &&& final(db).type_defs@ == old(db).type_defs@
            &&& final(db).modules@ == old(db).modules@
        },
{
    let i = match db.find_file_index(file) {
        Some(i) => i,
        None => {
            return false;
        },
    };
    proof {
        assert(file_idx(db.files@, file@.segments) == i as int);
    }
    let new_parent: Option<FileUrl> = match parent {
        Some(p) => {
            match db.find_file_index(p) {
                Some(_) => {
                    proof {
                        assert(has_file(db.files@, p@.segments));
                    }
                    Some(p.duplicate())
                },
                None => {
                    return false;
                },
            }
        },
        None => None,
    };
    db.files[i].data.parent = new_parent;
    proof {
        let n = db.files@.len() as int;
        assert forall|a: int| 0 <= a < n implies match (#[trigger] db.files@[a]).data.parent {
            Some(p) => has_file(db.files@, p@.segments),
            None => true,
        } by {
            if a != i {
                assert(db.files@[a].data.parent == old(db).files@[a].data.parent);
                match old(db).files@[a].data.parent {
                    Some(p) => {
                        let w = file_idx(old(db).files@, p@.segments);
                        assert(db.files@[w].file@.segments == p@.segments);
                    },
                    None => {},
                }
            } else {
                match db.files@[a].data.parent {
                    Some(p) => {
                        let w = file_idx(old(db).files@, p@.segments);
                        assert(db.files@[w].file@.segments == p@.segments);
                    },
                    None => {},
                }
            }
        }
    }
    true
}

} // verus!

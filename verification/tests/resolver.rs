use rust_navigator::database::module::{parent_candidates, set_parent};
use rust_navigator::database::{Database, FileUrl};

fn url(segs: &[&str]) -> FileUrl {
    FileUrl::new(
        segs.iter().map(|s| s.to_string()).collect(),
        format!("file:///{}", segs.join("/")),
    )
}

fn segs(parts: &[&str]) -> Vec<String> {
    parts.iter().map(|s| s.to_string()).collect()
}

#[test]
fn library_root_has_no_candidates() {
    let file = url(&["home", "p", "src", "lib.rs"]);
    assert_eq!(parent_candidates(&file), Vec::<Vec<String>>::new());
}

#[test]
fn binary_root_has_no_candidates() {
    let file = url(&["home", "p", "src", "main.rs"]);
    assert_eq!(parent_candidates(&file), Vec::<Vec<String>>::new());
}

#[test]
fn plain_file_candidates_in_priority_order() {
    let file = url(&["home", "p", "src", "foo.rs"]);
    let cands = parent_candidates(&file);
    assert_eq!(
        cands,
        vec![
            segs(&["home", "p", "src", "mod.rs"]),
            segs(&["home", "p", "src", "lib.rs"]),
            segs(&["home", "p", "src", "main.rs"]),
            segs(&["home", "p", "src.rs"]),
        ]
    );
}

#[test]
fn dir_module_searches_one_directory_up() {
    // src/foo/mod.rs resolves its parent search starting in src/
    let file = url(&["home", "p", "src", "foo", "mod.rs"]);
    let cands = parent_candidates(&file);
    assert_eq!(
        cands,
        vec![
            segs(&["home", "p", "src", "mod.rs"]),
            segs(&["home", "p", "src", "lib.rs"]),
            segs(&["home", "p", "src", "main.rs"]),
            segs(&["home", "p", "src.rs"]),
        ]
    );
}

/// The resolution loop a caller runs: the first candidate with a record wins.
fn resolve(db: &mut Database, file: &FileUrl) -> Option<FileUrl> {
    for cand in parent_candidates(file) {
        let cand_url = FileUrl::new(cand.clone(), format!("file:///{}", cand.join("/")));
        if db.get_file(&cand_url).is_some() {
            return Some(cand_url);
        }
    }
    None
}

#[test]
fn dir_module_finds_library_root_when_no_dir_module_sibling() {
    // src/foo/mod.rs finds src/lib.rs when no src/mod.rs exists
    let mut db = Database::new();
    let lib = url(&["home", "p", "src", "lib.rs"]);
    let file = url(&["home", "p", "src", "foo", "mod.rs"]);
    db.ensure_record(&lib);
    db.ensure_record(&file);
    let parent = resolve(&mut db, &file).expect("a parent should be found");
    assert!(parent.same_file(&lib));
    assert!(set_parent(&mut db, &file, Some(&parent)));
    let rec = db.get_file(&file).unwrap();
    assert!(rec.parent.as_ref().unwrap().same_file(&lib));
}

#[test]
fn dir_module_sibling_takes_priority_over_roots() {
    let mut db = Database::new();
    let modrs = url(&["home", "p", "src", "mod.rs"]);
    let lib = url(&["home", "p", "src", "lib.rs"]);
    let main = url(&["home", "p", "src", "main.rs"]);
    let file = url(&["home", "p", "src", "foo.rs"]);
    db.ensure_record(&modrs);
    db.ensure_record(&lib);
    db.ensure_record(&main);
    db.ensure_record(&file);
    let parent = resolve(&mut db, &file).expect("a parent should be found");
    assert!(parent.same_file(&modrs));
}

#[test]
fn orphan_file_resolves_to_none() {
    let mut db = Database::new();
    let file = url(&["home", "p", "src", "foo.rs"]);
    db.ensure_record(&file);
    assert!(resolve(&mut db, &file).is_none());
}

#[test]
fn file_directly_under_the_root_has_no_upward_candidate() {
    let file = url(&["foo.rs"]);
    let cands = parent_candidates(&file);
    assert_eq!(
        cands,
        vec![segs(&["mod.rs"]), segs(&["lib.rs"]), segs(&["main.rs"])]
    );
}


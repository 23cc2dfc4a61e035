use rust_navigator::database::{Database, FileUrl, ItemPath, ModulePath};

fn url(segs: &[&str]) -> FileUrl {
    FileUrl::new(
        segs.iter().map(|s| s.to_string()).collect(),
        format!("file:///{}", segs.join("/")),
    )
}

fn key(name: &str) -> ItemPath {
    ItemPath {
        module: ModulePath { crate_: "crate".to_string(), segments: Vec::new() },
        name: name.to_string(),
    }
}

#[test]
fn scan_records_struct_and_enum_definitions() {
    let mut db = Database::new();
    let file = url(&["ws", "src", "a.rs"]);
    db.ensure_record(&file);
    let warnings = db
        .update_file(&file, 1, "struct Point { x: i32 }\nenum Shade { Dark }", None)
        .expect("the record exists");
    assert_eq!(warnings, Vec::<String>::new());
    let point = db.lookup_type_def(&key("Point")).expect("Point is defined");
    assert!(point.file_path.same_file(&file));
    assert_eq!(point.name, "Point");
    assert_eq!(point.range.start.line, 0);
    assert_eq!(point.range.start.character, 0);
    assert_eq!(point.range.end.line, 0);
    assert_eq!(point.range.end.character, 23);
    let shade = db.lookup_type_def(&key("Shade")).expect("Shade is defined");
    assert_eq!(shade.range.start.line, 1);
    assert!(db.lookup_type_def(&key("Missing")).is_none());
}

#[test]
fn scan_records_module_declarations() {
    let mut db = Database::new();
    let file = url(&["ws", "src", "lib.rs"]);
    db.ensure_record(&file);
    db.update_file(&file, 1, "mod foo;\npub mod bar;\n", None).unwrap();
    let rec = db.get_file(&file).unwrap();
    assert_eq!(rec.modules.len(), 2);
    assert_eq!(rec.modules[0].name, "foo");
    assert_eq!(rec.modules[1].name, "bar");
    assert_eq!(rec.modules[0].range.start.line, 0);
    assert_eq!(rec.modules[1].range.start.line, 1);
    assert_eq!(rec.version, 1);
}

#[test]
fn update_is_idempotent_on_unchanged_text() {
    let mut db = Database::new();
    let file = url(&["ws", "src", "a.rs"]);
    db.ensure_record(&file);
    let text = "struct Point { x: i32 }\nstruct Other;";
    db.update_file(&file, 1, text, None).unwrap();
    let p1 = db.lookup_type_def(&key("Point")).unwrap();
    let (p1_range, p1_name) = (p1.range, p1.name.clone());
    let count1 = db.type_defs.len();
    db.update_file(&file, 2, text, None).unwrap();
    let p2 = db.lookup_type_def(&key("Point")).unwrap();
    assert_eq!(p2.range, p1_range);
    assert_eq!(p2.name, p1_name);
    assert!(p2.file_path.same_file(&file));
    assert!(db.lookup_type_def(&key("Other")).is_some());
    assert_eq!(db.type_defs.len(), count1);
    assert_eq!(db.get_file(&file).unwrap().version, 2);
}

#[test]
fn colliding_definitions_keep_one_survivor_and_warn_once() {
    let mut db = Database::new();
    let a = url(&["ws", "src", "a.rs"]);
    let b = url(&["ws", "src", "b.rs"]);
    db.ensure_record(&a);
    db.ensure_record(&b);
    let w1 = db.update_file(&a, 1, "struct Point { x: i32 }", None).unwrap();
    assert_eq!(w1.len(), 0);
    let w2 = db.update_file(&b, 1, "struct Point { y: u8 }", None).unwrap();
    assert_eq!(w2.len(), 1);
    assert_eq!(
        w2[0],
        "discarding type def `Point`; conflicting type name encountered"
    );
    // exactly one survivor: the most recently scanned
    let survivor = db.lookup_type_def(&key("Point")).unwrap();
    assert!(survivor.file_path.same_file(&b));
    let live = db
        .type_defs
        .iter()
        .filter(|e| e.path.name == "Point")
        .count();
    assert_eq!(live, 1);
}

#[test]
fn opening_marks_the_record_open_and_updates_preserve_it() {
    let mut db = Database::new();
    let file = url(&["ws", "src", "a.rs"]);
    db.ensure_record(&file);
    assert!(!db.get_file(&file).unwrap().is_open);
    assert!(db.open_file(&file));
    assert!(db.get_file(&file).unwrap().is_open);
    db.update_file(&file, 1, "struct Point;", None).unwrap();
    assert!(db.get_file(&file).unwrap().is_open);
    let ghost_file = url(&["ws", "src", "missing.rs"]);
    assert!(!db.open_file(&ghost_file));
}

#[test]
fn closing_keeps_the_record_queryable() {
    let mut db = Database::new();
    let file = url(&["ws", "src", "a.rs"]);
    db.ensure_record(&file);
    db.open_file(&file);
    db.update_file(&file, 3, "struct Point;", None).unwrap();
    assert!(db.get_file(&file).unwrap().is_open);
    assert!(db.close_file(&file));
    let rec = db.get_file(&file).expect("the record survives a close");
    assert!(!rec.is_open);
    assert_eq!(rec.version, 3);
    assert!(db.lookup_type_def(&key("Point")).is_some());
    let ghost_file = url(&["ws", "src", "missing.rs"]);
    assert!(!db.close_file(&ghost_file));
}

#[test]
fn nameless_definitions_are_skipped_without_aborting_the_scan() {
    let mut db = Database::new();
    let file = url(&["ws", "src", "a.rs"]);
    db.ensure_record(&file);
    // the first struct lacks a name; the second must still be recorded
    db.update_file(&file, 1, "struct { x: i32 }\nstruct Good;", None).unwrap();
    assert!(db.lookup_type_def(&key("Good")).is_some());
}

#[test]
fn update_of_missing_record_reports_inconsistency() {
    let mut db = Database::new();
    let file = url(&["ws", "src", "a.rs"]);
    assert!(db.update_file(&file, 1, "struct P;", None).is_none());
}

#[test]
fn rescan_purges_definitions_that_left_the_text() {
    let mut db = Database::new();
    let file = url(&["ws", "src", "a.rs"]);
    db.ensure_record(&file);
    db.update_file(&file, 1, "struct Point;\nstruct Kept;", None).unwrap();
    assert!(db.lookup_type_def(&key("Point")).is_some());
    db.update_file(&file, 2, "struct Kept;", None).unwrap();
    assert!(db.lookup_type_def(&key("Point")).is_none());
    assert!(db.lookup_type_def(&key("Kept")).is_some());
}

#[test]
fn rescan_does_not_purge_a_key_another_file_took_over() {
    // b.rs took the key over; a.rs's rescan must not remove b.rs's record
    let mut db = Database::new();
    let a = url(&["ws", "src", "a.rs"]);
    let b = url(&["ws", "src", "b.rs"]);
    db.ensure_record(&a);
    db.ensure_record(&b);
    db.update_file(&a, 1, "struct Point;", None).unwrap();
    db.update_file(&b, 1, "struct Point;", None).unwrap();
    db.update_file(&a, 2, "fn nothing() {}", None).unwrap();
    let survivor = db.lookup_type_def(&key("Point")).expect("the takeover survives");
    assert!(survivor.file_path.same_file(&b));
}


use rust_navigator::database::{Database, FileUrl};
use rust_navigator::definition::definition;

fn url(segs: &[&str]) -> FileUrl {
    FileUrl::new(
        segs.iter().map(|s| s.to_string()).collect(),
        format!("file:///{}", segs.join("/")),
    )
}

#[test]
fn definition_resolves_the_token_under_the_cursor() {
    let mut db = Database::new();
    let a = url(&["ws", "src", "a.rs"]);
    db.ensure_record(&a);
    db.update_file(&a, 1, "struct Point { x: i32 }\nfn f(p: Point) {}\n", None).unwrap();
    // cursor inside the `Point` of `p: Point` on the second line
    let loc = definition(&db, &a, 1, 9).expect("Point is defined");
    assert!(loc.file.same_file(&a));
    assert_eq!(loc.range.start.line, 0);
    assert_eq!(loc.range.start.character, 0);
    assert_eq!(loc.range.end.character, 23);
}

#[test]
fn unknown_name_yields_no_definition() {
    let mut db = Database::new();
    let a = url(&["ws", "src", "a.rs"]);
    db.ensure_record(&a);
    db.update_file(&a, 1, "fn f(p: Missing) {}\n", None).unwrap();
    assert!(definition(&db, &a, 0, 9).is_none());
}

#[test]
fn position_outside_the_document_yields_no_definition() {
    let mut db = Database::new();
    let a = url(&["ws", "src", "a.rs"]);
    db.ensure_record(&a);
    db.update_file(&a, 1, "struct Point;\n", None).unwrap();
    assert!(definition(&db, &a, 99, 0).is_none());
}

#[test]
fn collision_resolves_to_the_most_recently_scanned_definition() {
    // struct Point in file A, struct Point in file B scanned after A:
    // go-to-definition resolves to B's location, and one warning was logged
    let mut db = Database::new();
    let a = url(&["ws", "src", "a.rs"]);
    let b = url(&["ws", "src", "b.rs"]);
    db.ensure_record(&a);
    db.ensure_record(&b);
    let w1 = db.update_file(&a, 1, "struct Point { x: i32 }", None).unwrap();
    let w2 = db.update_file(&b, 1, "struct Point { y: u8 }\nfn g(q: Point) {}\n", None).unwrap();
    assert_eq!(w1.len() + w2.len(), 1);
    let loc = definition(&db, &b, 1, 9).expect("Point is defined");
    assert!(loc.file.same_file(&b));
    assert_eq!(loc.range.start.line, 0);
}

use rust_navigator::code_action::add_mod_to_parent;
use rust_navigator::database::module::set_parent;
use rust_navigator::database::{Database, FileUrl};

fn url(segs: &[&str]) -> FileUrl {
    FileUrl::new(
        segs.iter().map(|s| s.to_string()).collect(),
        format!("file:///{}", segs.join("/")),
    )
}

#[test]
fn undeclared_module_yields_two_insertions_then_none() {
    // workspace has lib.rs declaring no modules, and a sibling foo.rs
    let mut db = Database::new();
    let lib = url(&["ws", "src", "lib.rs"]);
    let foo = url(&["ws", "src", "foo.rs"]);
    db.ensure_record(&lib);
    db.update_file(&lib, 0, "", None).unwrap();
    db.ensure_record(&foo);
    db.update_file(&foo, 1, "fn work() {}", Some(&lib)).unwrap();

    let actions = add_mod_to_parent(&db, &foo);
    assert_eq!(actions.len(), 2);
    assert_eq!(actions[0].title, "Insert `mod foo;`");
    assert_eq!(actions[0].new_text, "\nmod foo;");
    assert_eq!(actions[1].title, "Insert `pub mod foo;`");
    assert_eq!(actions[1].new_text, "\npub mod foo;");
    // inserted at the document start: lib.rs has no module declarations
    assert_eq!(actions[0].range.start.line, 0);
    assert_eq!(actions[0].range.start.character, 0);
    assert_eq!(actions[0].range.end.line, 0);
    assert_eq!(actions[0].range.end.character, 0);
    assert!(actions[0].target.same_file(&lib));
    assert!(actions[1].target.same_file(&lib));

    // simulate applying the private insertion and rescanning lib.rs
    db.update_file(&lib, 1, "\nmod foo;", None).unwrap();
    let actions_after = add_mod_to_parent(&db, &foo);
    assert_eq!(actions_after.len(), 0);
}

#[test]
fn no_parent_yields_no_insertions() {
    let mut db = Database::new();
    let foo = url(&["ws", "src", "foo.rs"]);
    db.ensure_record(&foo);
    db.update_file(&foo, 1, "fn work() {}", None).unwrap();
    assert_eq!(add_mod_to_parent(&db, &foo).len(), 0);
}

#[test]
fn insertion_goes_after_the_last_module_declaration() {
    let mut db = Database::new();
    let lib = url(&["ws", "src", "lib.rs"]);
    let foo = url(&["ws", "src", "foo.rs"]);
    db.ensure_record(&lib);
    db.update_file(&lib, 0, "mod bar;\nmod baz;\n", None).unwrap();
    db.ensure_record(&foo);
    db.update_file(&foo, 1, "", None).unwrap();
    assert!(set_parent(&mut db, &foo, Some(&lib)));

    let actions = add_mod_to_parent(&db, &foo);
    assert_eq!(actions.len(), 2);
    // after `mod baz;` — its statement ends at line 1, column 8
    assert_eq!(actions[0].range.start.line, 1);
    assert_eq!(actions[0].range.start.character, 8);
    assert_eq!(actions[0].range.end.line, 1);
    assert_eq!(actions[0].range.end.character, 8);
}

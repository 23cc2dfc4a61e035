use rust_navigator::database::file::{get_file_diagnostics, post_diagnostics};
use rust_navigator::database::{Database, FileUrl};
use rust_navigator::diagnostics::DiagnosticSeverity;

fn url(segs: &[&str]) -> FileUrl {
    FileUrl::new(
        segs.iter().map(|s| s.to_string()).collect(),
        format!("file:///{}", segs.join("/")),
    )
}

#[test]
fn clean_text_yields_no_diagnostics() {
    let diags = get_file_diagnostics("fn main() {}\n");
    assert_eq!(diags.len(), 0);
}

#[test]
fn one_unterminated_construct_yields_one_error_diagnostic() {
    // a single unterminated block
    let text = "fn main() {\n";
    let diags = get_file_diagnostics(text);
    assert_eq!(diags.len(), 1);
    assert_eq!(diags[0].severity, DiagnosticSeverity::Error);
    assert!(diags[0].message.starts_with("Syntax Error: "));
    // the range covers the smallest enclosing construct: the block that was
    // opened at column 10 of the first line and never closed
    assert_eq!(diags[0].range.start.line, 0);
    assert_eq!(diags[0].range.start.character, 10);
}

#[test]
fn publish_payload_is_stamped_with_the_update_version() {
    let mut db = Database::new();
    let file = url(&["ws", "src", "a.rs"]);
    db.ensure_record(&file);
    let text = "fn main() {\n";
    let diags = get_file_diagnostics(text);
    db.update_file(&file, 7, text, None).unwrap();
    let payload = post_diagnostics(&file, diags, 7);
    assert_eq!(payload.version, 7);
    assert_eq!(payload.url, "file:///ws/src/a.rs");
    assert_eq!(payload.diagnostics.len(), 1);
    assert_eq!(db.get_file(&file).unwrap().version, 7);
}

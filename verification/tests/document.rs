use wright::document::{
    char_offset_to_utf16, path_to_uri, source_to_uri, span_to_range, uri_to_path, utf16_len,
    utf16_offset_to_char, Document, DocumentStore, Position,
};
use wright::ir;

#[test]
fn client_versions_are_preserved_on_open_and_change() {
    let mut store = DocumentStore::new("/project");
    store.open(Document::with_version("file:///a.opy", "rule \"a\":\n", "/project", 3));
    assert_eq!(store.document("file:///a.opy").unwrap().version, 3);
    assert!(
        store.change("file:///a.opy", "rule \"a\":\n    @Event global\n", 4),
        "newer client version applies"
    );
    assert_eq!(store.document("file:///a.opy").unwrap().version, 4);
}

#[test]
fn stale_or_out_of_order_versions_cannot_overwrite_newer_state() {
    let mut store = DocumentStore::new("/project");
    store.open(Document::with_version("file:///a.opy", "rule \"a\":\n", "/project", 5));
    // Equal and older versions are rejected.
    assert!(!store.change("file:///a.opy", "stale equal", 5));
    assert!(!store.change("file:///a.opy", "stale older", 4));
    assert_eq!(store.document("file:///a.opy").unwrap().text, "rule \"a\":\n");
    // A newer version applies.
    assert!(store.change("file:///a.opy", "newer", 6));
    assert_eq!(store.document("file:///a.opy").unwrap().text, "newer");
    assert_eq!(store.document("file:///a.opy").unwrap().version, 6);
}

#[test]
fn utf16_offsets_account_for_non_bmp_characters() {
    // 🎯 is U+1F3AF: one Rust char, two UTF-16 code units.
    let line = "🎯 score";
    assert_eq!(line.chars().count(), 7);
    assert_eq!(utf16_len(line), 8);
    assert_eq!(utf16_offset_to_char(line, 0), 0);
    assert_eq!(
        utf16_offset_to_char(line, 1),
        1,
        "an offset inside a surrogate pair rounds up to the next char boundary"
    );
    assert_eq!(utf16_offset_to_char(line, 2), 1);
    assert_eq!(char_offset_to_utf16(line, 0), 0);
    assert_eq!(char_offset_to_utf16(line, 1), 2, "one char becomes two UTF-16 units");
}

#[test]
fn uri_to_path_decodes_percent_encoding_spaces_and_unicode() {
    assert_eq!(uri_to_path("file:///tmp/my%20dir/main.opy"), Some("/tmp/my dir/main.opy".to_string()));
    assert_eq!(uri_to_path("file:///tmp/%E6%96%87%E4%BB%B6.opy"), Some("/tmp/文件.opy".to_string()));
    assert_eq!(uri_to_path("untitled:scratch"), None);
    assert_eq!(uri_to_path("https://example.com/a.opy"), None);
}

#[test]
fn span_to_range_uses_utf16_units_on_non_bmp_lines() {
    // 🎯 is one Rust char but two UTF-16 units, so `score` (1-based
    // column 16) starts at UTF-16 offset 16 and ends at 21.
    let source = "    debug(\"🎯\", score)\n";
    let range = span_to_range(ir::Position::new(1, 16), ir::Position::new(1, 21), source);
    assert_eq!(range.start.line, 0);
    assert_eq!(range.start.character, 16, "score starts at UTF-16 offset 16");
    assert_eq!(range.end.character, 21, "score ends at UTF-16 offset 21");
}

#[test]
fn path_to_uri_round_trips_spaces_and_unicode() {
    let encoded = path_to_uri("/tmp/my dir/文件.opy").unwrap();
    assert!(encoded.starts_with("file:///tmp/my%20dir/"), "{encoded}");
    assert!(encoded.contains("%E6%96%87%E4%BB%B6"), "{encoded}");
    assert_eq!(
        uri_to_path(&encoded),
        Some("/tmp/my dir/文件.opy".to_string()),
        "path -> URI -> path round-trips"
    );
}

#[test]
fn source_to_uri_normalizes_uris_and_paths_consistently() {
    let uri = source_to_uri("file:///tmp/my%20dir/%E6%96%87%E4%BB%B6.opy").unwrap();
    assert_eq!(uri_to_path(&uri), Some("/tmp/my dir/文件.opy".to_string()));
    let uri = source_to_uri("/tmp/my dir/文件.opy").unwrap();
    assert!(uri.starts_with("file:///tmp/my%20dir/"), "{uri}");
    assert_eq!(uri_to_path(&uri), Some("/tmp/my dir/文件.opy".to_string()));
    assert_eq!(source_to_uri("untitled:scratch"), None);
}

#[test]
fn windows_drive_paths_use_standard_file_uris() {
    let decoded = uri_to_path("file:///C:/work/main.opy").expect("file URI decodes");
    assert!(
        decoded.ends_with("C:/work/main.opy") || decoded.ends_with("C:\\work\\main.opy"),
        "{decoded:?}"
    );
}

#[test]
fn closing_forgets_a_document_and_listing_is_ordered() {
    let mut store = DocumentStore::new("/project");
    store.open(Document::new("file:///b.opy", "b", "/project"));
    store.open(Document::new("file:///a.opy", "a", "/project"));
    assert_eq!(store.uris(), vec!["file:///a.opy".to_string(), "file:///b.opy".to_string()]);
    store.close("file:///a.opy");
    assert!(store.document("file:///a.opy").is_none());
    assert!(!store.change("file:///a.opy", "x", 9), "a closed document takes no change");
    assert_eq!(store.uris(), vec!["file:///b.opy".to_string()]);
}

#[test]
fn positions_convert_to_one_based_columns_and_back_to_utf16() {
    let doc = Document::new("file:///a.opy", "first\n🎯x\n", "/project");
    // UTF-16 offset 2 on line 1 is just after the emoji: character 2.
    assert_eq!(doc.to_line_col(Position { line: 1, character: 2 }), (2, 2));
    let range = doc.from_span(ir::Position::new(2, 2), ir::Position::new(2, 3));
    assert_eq!((range.start.line, range.start.character), (1, 2));
    assert_eq!((range.end.line, range.end.character), (1, 3));
}

#[test]
fn open_text_for_path_reads_the_open_document_that_names_the_path() {
    let mut store = DocumentStore::new("/project");
    store.open(Document::new("file:///project/main.opy", "rule \"a\":\n", "/project"));
    assert_eq!(
        store.open_text_for_path("/project/main.opy"),
        Some("rule \"a\":\n".to_string())
    );
    assert_eq!(store.open_text_for_path("/project/other.opy"), None);
}

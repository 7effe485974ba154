use stumbling::collector::ResultCollector;
use stumbling::error::VaultError;
use stumbling::format::{format_with_frontmatter, frame_frontmatter};
use stumbling::frontmatter::{parse_note, read_note, split_frontmatter, NoteView};
use stumbling::metasearch::search_metadata;
use stumbling::search::{is_hidden_name, is_visible_note, scan_note, search_notes, NoteFile};
use stumbling::pattern::LinePattern;
use stumbling::text::split_lines;
use stumbling::value::{take_field, MetadataValue};
use stumbling::vault::{decimal_string, note_text, delete_note, trash_entry_name, write_message, DeleteAction};

fn note(path: &str, content: &str) -> NoteFile {
    NoteFile { path: path.to_string(), content: content.to_string() }
}

fn s(t: &str) -> MetadataValue {
    MetadataValue::Str(t.to_string())
}

fn obj(entries: Vec<(&str, MetadataValue)>) -> MetadataValue {
    MetadataValue::Object(entries.into_iter().map(|(k, v)| (k.to_string(), v)).collect())
}

fn scenario_vault() -> Vec<NoteFile> {
    vec![
        note("test.md", "---\ntitle: Test Note\ntags: [rust, mcp]\n---\n\n# Hello World\n\nThis is a test note about Gagagigo."),
        note("daily/2024-01-01.md", "# Daily Note\n\nGagagigo awakens!"),
        note("simple.md", "# Simple Note\n\nNo frontmatter here."),
    ]
}

#[test]
fn plain_text_is_read_back_unchanged() {
    let text = "plain\n---\nnot: frontmatter\n---\n";
    match read_note(text.to_string(), true) {
        NoteView::Raw(t) => assert_eq!(t, text),
        NoteView::Parsed { .. } => panic!("text without an opening delimiter was parsed"),
    }
}

#[test]
fn formatted_metadata_reads_back_equal() {
    let m = obj(vec![
        ("active", MetadataValue::Bool(false)),
        ("count", MetadataValue::Number("-7".to_string())),
        ("nested", obj(vec![("k", s("v"))])),
        ("ratio", MetadataValue::Number("0.5".to_string())),
        ("tags", MetadataValue::Array(vec![s("x"), MetadataValue::Number("1".to_string())])),
        ("title", s("A title")),
    ]);
    let text = format_with_frontmatter(&m, "Body text");
    match read_note(text, true) {
        NoteView::Parsed { metadata, body } => {
            assert_eq!(body, "Body text");
            assert_eq!(metadata, m);
        }
        NoteView::Raw(t) => panic!("not parsed: {:?}", t),
    }
}

#[test]
fn json_string_metadata_formats_as_the_value() {
    let m = obj(vec![("tags", MetadataValue::Array(vec![s("a"), s("b")])), ("title", s("Test"))]);
    let from_string = format_with_frontmatter(&s(r#"{"title": "Test", "tags": ["a", "b"]}"#), "B");
    assert_eq!(from_string, format_with_frontmatter(&m, "B"));
}

#[test]
fn string_that_is_not_json_is_kept() {
    let text = format_with_frontmatter(&s("just words"), "B");
    assert_eq!(text, "---\njust words\n---\n\nB");
}

#[test]
fn search_respects_the_cap_and_rejects_bad_patterns() {
    let vault = scenario_vault();
    assert_eq!(search_notes(&vault, "e", 1).unwrap().len(), 1);
    assert_eq!(search_notes(&vault, "e", 0).unwrap().len(), 0);
    match search_notes(&vault, "(", 5) {
        Err(VaultError::InvalidPattern { pattern }) => assert_eq!(pattern, "("),
        other => panic!("expected InvalidPattern, got {:?}", other),
    }
    match search_metadata(&vault, "title", "[z-a]", 5) {
        Err(VaultError::InvalidPattern { pattern }) => assert_eq!(pattern, "[z-a]"),
        other => panic!("expected InvalidPattern, got {:?}", other),
    }
}

#[test]
fn search_skips_hidden_paths() {
    let mut vault = scenario_vault();
    vault.push(note("a/.hidden/x.md", "Gagagigo"));
    vault.push(note(".trashy.md", "Gagagigo"));
    vault.push(note("notes.txt", "Gagagigo"));
    let results = search_notes(&vault, "Gagagigo", 10).unwrap();
    assert_eq!(results.len(), 2);
    assert!(results.iter().all(|r| !r.path.contains("/.") && !r.path.starts_with('.')));
    assert!(is_hidden_name(".obsidian"));
    assert!(!is_hidden_name("daily"));
    assert!(is_visible_note("a/b.c/d.md"));
    assert!(!is_visible_note("a/.b/d.md"));
    assert!(!is_visible_note("a/b.markdown"));
}

#[test]
fn nested_field_matches_only_object_parents() {
    let vault = vec![
        note("obj.md", "---\nauthor:\n  name: Ann\n---\nx"),
        note("flat.md", "---\nauthor: Ann\n---\nx"),
        note("other.md", "---\nauthor:\n  name: Bob\n---\nx"),
        note("list.md", "---\nauthor:\n  - name: Ann\n---\nx"),
    ];
    let results = search_metadata(&vault, "author.name", "Ann", 10).unwrap();
    assert_eq!(results.len(), 1);
    assert_eq!(results[0].path, "obj.md");
    assert_eq!(results[0].value, s("Ann"));
}

#[test]
fn metadata_numbers_and_booleans_match_by_text() {
    let vault = vec![note("n.md", "---\nlevel: 8\ndone: true\n---\nx")];
    assert_eq!(search_metadata(&vault, "level", "^8$", 10).unwrap().len(), 1);
    assert_eq!(search_metadata(&vault, "done", "^true$", 10).unwrap().len(), 1);
    assert_eq!(search_metadata(&vault, "done", "false", 10).unwrap().len(), 0);
}

#[test]
fn trash_entry_is_timestamp_and_name() {
    assert_eq!(trash_entry_name(12, "a.md"), "12_a.md");
    assert!(trash_entry_name(1700000000, "note.md").ends_with("note.md"));
    assert_eq!(decimal_string(0), "0");
    assert_eq!(decimal_string(18446744073709551615), "18446744073709551615");
    match delete_note(false, true, "gone.md", "gone.md", 3) {
        Err(VaultError::NotFound { path }) => assert_eq!(path, "gone.md"),
        other => panic!("expected NotFound, got {:?}", other),
    }
    match delete_note(true, false, "/v/x.md", "x.md", 42).unwrap() {
        DeleteAction::MoveToTrash { entry, trash_path, message } => {
            assert_eq!(entry, "42_x.md");
            assert_eq!(trash_path, ".trash/42_x.md");
            assert_eq!(message, "Moved to trash: .trash/42_x.md");
        }
        other => panic!("expected a move, got {:?}", other),
    }
}

#[test]
fn scenario_vault_searches() {
    let vault = scenario_vault();
    let hits = search_notes(&vault, "Gagagigo", 10).unwrap();
    assert_eq!(hits.len(), 2);
    assert_eq!(hits[0].path, "test.md");
    assert_eq!(hits[0].line_number, 8);
    assert_eq!(hits[0].line, "This is a test note about Gagagigo.");
    assert_eq!(hits[1].path, "daily/2024-01-01.md");
    assert_eq!(hits[1].line_number, 3);
    assert_eq!(search_notes(&vault, "Gagagigo", 1).unwrap().len(), 1);
    let meta = search_metadata(&vault, "title", "Test", 10).unwrap();
    assert_eq!(meta.len(), 1);
    assert_eq!(meta[0].path, "test.md");
    assert_eq!(meta[0].value, s("Test Note"));
}

#[test]
fn frontmatter_split_is_exact() {
    let (h, b) = split_frontmatter("---\na: 1\nb: 2\n---\n\n\n  body\n---\n").unwrap();
    assert_eq!(h, "a: 1\nb: 2");
    assert_eq!(b, "  body\n---\n");
    let (h, b) = split_frontmatter("---\n---\nrest").unwrap();
    assert_eq!(h, "");
    assert_eq!(b, "rest");
    assert!(split_frontmatter("---\na: 1\n----\n").is_none());
    assert!(split_frontmatter("--- \na: 1\n---\n").is_none());
    assert!(parse_note("no header").is_none());
}

#[test]
fn lines_follow_str_lines() {
    assert_eq!(split_lines("a\r\nb\n\nc\n"), vec!["a", "b", "", "c"]);
    assert!(split_lines("").is_empty());
    assert_eq!(split_lines("\n"), vec![""]);
    assert_eq!(split_lines("a\r"), vec!["a\r"]);
    assert_eq!(split_lines("a\r\nb\r"), vec!["a", "b\r"]);
}

#[test]
fn scan_note_numbers_lines_from_one() {
    let p = LinePattern::new("^x").unwrap();
    let hits = scan_note(&p, &note("n.md", "x1\ny\nx3"));
    assert_eq!(hits.len(), 2);
    assert_eq!((hits[0].line_number, hits[0].line.as_str()), (1, "x1"));
    assert_eq!((hits[1].line_number, hits[1].line.as_str()), (3, "x3"));
}

#[test]
fn frame_strips_exactly_one_newline() {
    assert_eq!(frame_frontmatter("a: 1\n\n", "B"), "---\na: 1\n\n---\n\nB");
    assert_eq!(frame_frontmatter("a: 1", " B"), "---\na: 1\n---\n\n B");
}

#[test]
fn write_texts_and_messages() {
    assert_eq!(write_message(false, "n.md"), "Created n.md");
    assert_eq!(write_message(true, "n.md"), "Overwrote n.md");
    assert_eq!(note_text("raw".to_string(), None), "raw");
    let m = obj(vec![("title", s("T"))]);
    assert_eq!(note_text("body".to_string(), Some(&m)), "---\ntitle: T\n---\n\nbody");
}

#[test]
fn collector_never_exceeds_its_cap() {
    let mut c = ResultCollector::new(2);
    assert!(c.offer(1));
    assert!(!c.is_full());
    assert!(c.offer(2));
    assert!(c.is_full());
    assert!(!c.offer(3));
    assert_eq!(c.into_items(), vec![1, 2]);
}

#[test]
fn field_path_resolution() {
    let m = obj(vec![("a", obj(vec![("b", s("deep"))])), ("c", s("top"))]);
    assert_eq!(take_field(m, &vec!["a".to_string(), "b".to_string()]), Some(s("deep")));
    let m = obj(vec![("c", s("top"))]);
    assert_eq!(take_field(m, &vec!["c".to_string(), "d".to_string()]), None);
}

#[test]
fn repeated_keys_resolve_to_the_first() {
    let m = obj(vec![("k", s("first")), ("k", s("second"))]);
    assert_eq!(take_field(m, &vec!["k".to_string()]), Some(s("first")));
    let m = obj(vec![("k", s("v"))]);
    assert_eq!(take_field(m, &Vec::new()), Some(obj(vec![("k", s("v"))])));
}

#[test]
fn body_keeps_indentation_of_its_first_line() {
    let (_, b) = split_frontmatter("---\na: 1\n---\n\n  x").unwrap();
    assert_eq!(b, "  x");
    let (_, b) = split_frontmatter("---\na: 1\n---\n \t\r\n\n\tindented\n").unwrap();
    assert_eq!(b, "\tindented\n");
    let (_, b) = split_frontmatter("---\na: 1\n---\n  \n  ").unwrap();
    assert_eq!(b, "");
    match read_note("---\na: 1\n---\n\n  x".to_string(), true) {
        NoteView::Parsed { body, .. } => assert_eq!(body, "  x"),
        NoteView::Raw(t) => panic!("not parsed: {:?}", t),
    }
}

#[test]
fn indented_body_survives_format_and_read() {
    let m = obj(vec![("title", s("T"))]);
    let text = format_with_frontmatter(&m, "    code block");
    match read_note(text, true) {
        NoteView::Parsed { metadata, body } => {
            assert_eq!(metadata, m);
            assert_eq!(body, "    code block");
        }
        NoteView::Raw(t) => panic!("not parsed: {:?}", t),
    }
}

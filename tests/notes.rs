use stumbling::format::format_with_frontmatter;
use stumbling::frontmatter::{read_note, NoteView};
use stumbling::metasearch::search_metadata;
use stumbling::search::{search_notes, NoteFile};
use stumbling::value::MetadataValue;
use stumbling::vault::{delete_note, DeleteAction};

const NOTE1: &str = "---
title: Test Note
tags: [rust, mcp]
---

# Hello World

This is a test note about Gagagigo.";
const NOTE2: &str = "# Simple Note\n\nNo frontmatter here.";
const NOTE3: &str = "# Daily Note\n\nGagagigo awakens!";

fn note(path: &str, content: &str) -> NoteFile {
    NoteFile { path: path.to_string(), content: content.to_string() }
}

fn setup_test_vault() -> Vec<NoteFile> {
    vec![note("test.md", NOTE1), note("simple.md", NOTE2), note("daily/2024-01-01.md", NOTE3)]
}

fn s(t: &str) -> MetadataValue {
    MetadataValue::Str(t.to_string())
}

fn num(t: &str) -> MetadataValue {
    MetadataValue::Number(t.to_string())
}

fn obj(entries: Vec<(&str, MetadataValue)>) -> MetadataValue {
    MetadataValue::Object(entries.into_iter().map(|(k, v)| (k.to_string(), v)).collect())
}

fn field<'a>(m: &'a MetadataValue, key: &str) -> Option<&'a MetadataValue> {
    match m {
        MetadataValue::Object(es) => es.iter().find(|(k, _)| k == key).map(|(_, v)| v),
        _ => None,
    }
}

fn parsed(view: NoteView) -> (MetadataValue, String) {
    match view {
        NoteView::Parsed { metadata, body } => (metadata, body),
        NoteView::Raw(t) => panic!("expected parsed frontmatter, got raw text {:?}", t),
    }
}

fn raw(view: NoteView) -> String {
    match view {
        NoteView::Raw(t) => t,
        NoteView::Parsed { .. } => panic!("expected raw text"),
    }
}

fn str_of(m: Option<&MetadataValue>) -> Option<&str> {
    m.and_then(|v| v.as_str())
}

#[test]
fn test_read_note_without_frontmatter() {
    let result = raw(read_note(NOTE2.to_string(), false));
    assert!(result.contains("# Simple Note"));
}

#[test]
fn test_read_note_with_frontmatter_parsing() {
    let (meta, body) = parsed(read_note(NOTE1.to_string(), true));
    assert_eq!(str_of(field(&meta, "title")), Some("Test Note"));
    assert!(body.contains("Hello World"));
}

#[test]
fn test_search_notes() {
    let results = search_notes(&setup_test_vault(), "Gagagigo", 10).unwrap();
    assert_eq!(results.len(), 2);
}

#[test]
fn test_search_notes_with_limit() {
    let results = search_notes(&setup_test_vault(), "Gagagigo", 1).unwrap();
    assert_eq!(results.len(), 1);
}

#[test]
fn test_search_notes_regex() {
    let results = search_notes(&setup_test_vault(), r"#\s+\w+", 10).unwrap();
    assert!(!results.is_empty());
}

#[test]
fn test_delete_note_to_trash() {
    match delete_note(true, false, "/vault/simple.md", "simple.md", 1700000000).unwrap() {
        DeleteAction::MoveToTrash { entry, trash_path, message } => {
            assert!(message.contains("Moved to trash"));
            assert!(trash_path.starts_with(".trash"));
            assert_eq!(entry, "1700000000_simple.md");
        }
        other => panic!("expected a move to the trash, got {:?}", other),
    }
}

#[test]
fn test_delete_note_permanent() {
    match delete_note(true, true, "/vault/simple.md", "simple.md", 1700000000).unwrap() {
        DeleteAction::Unlink { message } => {
            assert!(message.contains("Permanently deleted"));
            assert_eq!(message, "Permanently deleted /vault/simple.md");
        }
        other => panic!("expected removal, got {:?}", other),
    }
}

#[test]
fn test_read_note_empty_file() {
    let result = raw(read_note(String::new(), false));
    assert_eq!(result, "");
}

#[test]
fn test_read_note_frontmatter_only() {
    let (meta, body) = parsed(read_note("---\ntitle: Only FM\n---\n".to_string(), true));
    assert_eq!(str_of(field(&meta, "title")), Some("Only FM"));
    assert_eq!(body, "");
}

#[test]
fn test_read_note_invalid_yaml() {
    let result = raw(read_note("---\n: invalid yaml [[\n---\n\nBody here".to_string(), true));
    assert!(result.contains(": invalid yaml"));
}

#[test]
fn test_read_note_unclosed_frontmatter() {
    let result = raw(read_note("---\ntitle: Unclosed\n\nNo closing delimiter".to_string(), true));
    assert!(result.contains("No closing delimiter"));
}

#[test]
fn test_read_note_no_frontmatter_with_parse_flag() {
    let result = raw(read_note(NOTE2.to_string(), true));
    assert!(result.contains("# Simple Note"));
}

#[test]
fn test_search_notes_empty_vault() {
    let results = search_notes(&Vec::new(), "anything", 10).unwrap();
    assert!(results.is_empty());
}

#[test]
fn test_search_notes_no_matches() {
    let results = search_notes(&setup_test_vault(), "zzz_no_match_zzz", 10).unwrap();
    assert!(results.is_empty());
}

#[test]
fn test_search_notes_invalid_regex() {
    let result = search_notes(&setup_test_vault(), "[invalid(regex", 10);
    assert!(result.is_err());
}

#[test]
fn test_search_notes_limit_zero() {
    let results = search_notes(&setup_test_vault(), "Gagagigo", 0).unwrap();
    assert!(results.is_empty());
}

#[test]
fn test_search_notes_skips_hidden_dirs() {
    let mut vault = setup_test_vault();
    vault.push(note(".obsidian/config.md", "# Hidden Gagagigo"));
    let results = search_notes(&vault, "Hidden Gagagigo", 10).unwrap();
    assert!(results.is_empty());
}

#[test]
fn test_delete_note_not_found() {
    let result = delete_note(false, false, "/vault/nonexistent.md", "nonexistent.md", 1);
    assert!(result.is_err());
}

#[test]
fn test_delete_note_in_subdirectory() {
    match delete_note(true, false, "/vault/daily/2024-01-01.md", "2024-01-01.md", 5).unwrap() {
        DeleteAction::MoveToTrash { trash_path, message, .. } => {
            assert!(message.contains("Moved to trash"));
            assert_eq!(trash_path, ".trash/5_2024-01-01.md");
        }
        other => panic!("expected a move to the trash, got {:?}", other),
    }
}

#[test]
fn test_format_with_frontmatter() {
    let metadata = obj(vec![("title", s("Test Note")), ("tags", MetadataValue::Array(vec![s("rust"), s("mcp")]))]);
    let body = "# Hello\n\nThis is content.";
    let result = format_with_frontmatter(&metadata, body);
    assert!(result.starts_with("---\n"));
    assert!(result.contains("title: Test Note"));
    assert!(result.contains("tags:"));
    assert!(result.contains("---\n\n# Hello"));
}

#[test]
fn test_format_with_frontmatter_empty_metadata() {
    let result = format_with_frontmatter(&obj(vec![]), "Just body content");
    assert!(result.starts_with("---\n"));
    assert!(result.contains("---\n\nJust body content"));
}

#[test]
fn test_format_with_frontmatter_string_metadata() {
    let metadata = s(r#"{"title": "Test", "tags": ["a", "b"]}"#);
    let result = format_with_frontmatter(&metadata, "Body");
    assert!(result.contains("title: Test"));
    assert!(result.contains("tags:"));
}

#[test]
fn test_write_note_with_frontmatter_roundtrip() {
    let content = format_with_frontmatter(&obj(vec![("title", s("Roundtrip Test"))]), "Body content here");
    let (meta, body) = parsed(read_note(content, true));
    assert_eq!(str_of(field(&meta, "title")), Some("Roundtrip Test"));
    assert!(body.contains("Body content here"));
}

#[test]
fn test_format_with_frontmatter_special_chars() {
    let metadata = obj(vec![
        ("title", s("Note: Important!")),
        ("description", s("Line1\nLine2")),
        ("path", s("foo/bar#baz")),
    ]);
    let result = format_with_frontmatter(&metadata, "Content");
    assert!(result.contains("title:"));
    assert!(result.contains("description:"));
    let (meta, _) = parsed(read_note(result, true));
    assert_eq!(str_of(field(&meta, "title")), Some("Note: Important!"));
    assert_eq!(str_of(field(&meta, "description")), Some("Line1\nLine2"));
}

#[test]
fn test_format_roundtrip_preserves_types() {
    let metadata = obj(vec![
        ("count", num("42")),
        ("ratio", num("3.14")),
        ("active", MetadataValue::Bool(true)),
        ("tags", MetadataValue::Array(vec![s("a"), s("b")])),
    ]);
    let content = format_with_frontmatter(&metadata, "Body");
    let (meta, _) = parsed(read_note(content, true));
    assert!(matches!(field(&meta, "count"), Some(MetadataValue::Number(t)) if t == "42"));
    assert!(matches!(field(&meta, "ratio"), Some(MetadataValue::Number(t)) if t == "3.14"));
    assert!(matches!(field(&meta, "active"), Some(MetadataValue::Bool(true))));
    assert!(matches!(field(&meta, "tags"), Some(MetadataValue::Array(_))));
}

#[test]
fn test_format_with_frontmatter_nested_objects() {
    let metadata = obj(vec![("author", obj(vec![("name", s("Gagagigo")), ("level", num("4"))]))]);
    let content = format_with_frontmatter(&metadata, "Body");
    let (meta, _) = parsed(read_note(content, true));
    let author = field(&meta, "author").unwrap();
    assert_eq!(str_of(field(author, "name")), Some("Gagagigo"));
    assert!(matches!(field(author, "level"), Some(MetadataValue::Number(t)) if t == "4"));
}

#[test]
fn test_search_metadata_by_title() {
    let results = search_metadata(&setup_test_vault(), "title", "Test", 10).unwrap();
    assert_eq!(results.len(), 1);
    assert_eq!(results[0].value.as_str(), Some("Test Note"));
}

#[test]
fn test_search_metadata_by_tags() {
    let results = search_metadata(&setup_test_vault(), "tags", "rust", 10).unwrap();
    assert_eq!(results.len(), 1);
    assert!(matches!(results[0].value, MetadataValue::Array(_)));
}

#[test]
fn test_search_metadata_no_match() {
    let results = search_metadata(&setup_test_vault(), "title", "NonExistent", 10).unwrap();
    assert!(results.is_empty());
}

#[test]
fn test_search_metadata_nested_field() {
    let mut vault = setup_test_vault();
    let content = format_with_frontmatter(
        &obj(vec![("author", obj(vec![("name", s("Gagagigo")), ("level", num("8"))]))]),
        "Body",
    );
    vault.push(note("nested_meta.md", &content));
    let results = search_metadata(&vault, "author.name", "Gagagigo", 10).unwrap();
    assert_eq!(results.len(), 1);
    assert_eq!(results[0].value.as_str(), Some("Gagagigo"));
}

#[test]
fn test_search_metadata_regex() {
    let results = search_metadata(&setup_test_vault(), "title", "^Test.*", 10).unwrap();
    assert_eq!(results.len(), 1);
}

#[test]
fn test_search_metadata_missing_field() {
    let results = search_metadata(&setup_test_vault(), "nonexistent_field", ".*", 10).unwrap();
    assert!(results.is_empty());
}

#[test]
fn test_search_metadata_limit() {
    let mut vault = setup_test_vault();
    for i in 0..5 {
        let content = format_with_frontmatter(
            &obj(vec![("tags", MetadataValue::Array(vec![s("common")]))]),
            &format!("Note {}", i),
        );
        vault.push(note(&format!("tagged_{}.md", i), &content));
    }
    let results = search_metadata(&vault, "tags", "common", 3).unwrap();
    assert_eq!(results.len(), 3);
}

use kb_mcp::document_index::{
    load_entry, may_load, normalize_rel_path, rel_path_from_full, validate_rel_path_key,
    DocumentEntry, DocumentIndex,
};
use kb_mcp::parser::Registry;

const SAMPLE: &str = r#"---
title: Hello
date: 2026-01-01
topic: mcp
tags: [a, b]
---

# Body

Content here.
"#;

fn load(rel: &str, content: &str) -> Option<DocumentEntry> {
    let ext = rel.rsplit('.').next().unwrap();
    load_entry(rel, ext, content, &Registry::defaults(), &[], None, None, None)
}

#[test]
fn test_normalize_rel_path_rejects_traversal() {
    assert!(normalize_rel_path("../secret.md").is_none());
    assert!(normalize_rel_path("docs//a.md").is_none());
    assert_eq!(
        normalize_rel_path("docs/a.md").as_deref(),
        Some("docs/a.md")
    );
}

#[test]
fn test_rebuild_from_kb_indexes_readable_docs() {
    let mut index = DocumentIndex::new();
    let n = index.rebuild_from_kb(vec![load("notes/a.md", SAMPLE).unwrap()]);
    assert_eq!(n, 1);
    assert_eq!(index.len(), 1);
    let entry = index.get("notes/a.md").expect("indexed");
    assert_eq!(entry.title.as_deref(), Some("Hello"));
    assert_eq!(entry.topic.as_deref(), Some("mcp"));
    assert_eq!(entry.tags, vec!["a", "b"]);
    assert!(entry.content.contains("# Body"));
    assert!(entry.body.as_ref().is_some_and(|b| b.contains("Content here")));
    assert!(!entry.content_hash.is_empty());
}

#[test]
fn test_upsert_and_remove_on_change() {
    let mut index = DocumentIndex::new();
    index.rebuild_from_kb(vec![load("a.md", SAMPLE).unwrap()]);
    assert!(index.contains("a.md"));

    let updated = r#"---
title: Updated
---

New body.
"#;
    assert!(index.upsert_from_rel("a.md", load("a.md", updated)));
    assert_eq!(
        index.get("a.md").unwrap().title.as_deref(),
        Some("Updated")
    );
    assert!(index.upsert_from_rel("a.md", None));
    assert!(!index.contains("a.md"));
    assert!(!index.upsert_from_rel("a.md", None));
}

#[test]
fn test_rename_updates_both_paths() {
    let mut index = DocumentIndex::new();
    index.rebuild_from_kb(vec![load("old.md", SAMPLE).unwrap()]);
    index.remove("old.md");
    index.upsert_from_rel("new.md", load("new.md", SAMPLE));
    assert!(!index.contains("old.md"));
    assert!(index.contains("new.md"));
}

#[test]
fn test_not_found_when_missing() {
    let index = DocumentIndex::new();
    assert!(index.get("missing.md").is_none());
}

#[test]
fn a_document_is_held_once() {
    let mut index = DocumentIndex::new();
    index.insert(load("a.md", "one\n").unwrap());
    index.insert(load("a.md", "two\n").unwrap());
    index.insert(load("b.md", "three\n").unwrap());
    assert_eq!(index.len(), 2);
    assert_eq!(index.get("a.md").unwrap().content, "two\n");
    // the document of the new path gives way
    assert!(index.rename("a.md", "b.md"));
    assert_eq!(index.len(), 1);
    let b = index.get("b.md").unwrap();
    assert_eq!(b.content, "two\n");
    assert_eq!(b.path, "b.md");
    assert!(!index.rename("a.md", "c.md"));
    assert!(index.rename("b.md", "b.md"));
    assert_eq!(index.len(), 1);
}

#[test]
fn a_document_carries_the_hash_of_its_text() {
    let e = load("a.md", "abc").unwrap();
    assert_eq!(
        e.content_hash,
        "ba7816bf8f01cfea414140de5dae2223b00361a396177a9cb410ff61f20015ad"
    );
    assert!(load("a.pdf", "abc").is_none());
    assert_eq!(e.path, "a.md");
    assert_eq!(e.content, "abc");
}

#[test]
fn what_the_document_leaves_out_comes_from_its_path() {
    let of = |content: &str| {
        load_entry(
            "deep-dive/mcp/a.md",
            "md",
            content,
            &Registry::defaults(),
            &[],
            Some("deep-dive".to_string()),
            Some("from-path".to_string()),
            Some(7),
        )
        .unwrap()
    };
    let with = of(SAMPLE);
    assert_eq!(with.topic.as_deref(), Some("mcp"));
    assert_eq!(with.category.as_deref(), Some("deep-dive"));
    assert_eq!(with.last_modified, Some(7));
    assert_eq!(with.date.as_deref(), Some("2026-01-01"));
    assert_eq!(of("text\n").topic.as_deref(), Some("from-path"));
}

#[test]
fn only_plain_paths_are_accepted() {
    for bad in ["", "  ", "/a.md", "a\\b.md", "a/..", "a/"] {
        assert_eq!(normalize_rel_path(bad), None, "{bad:?}");
    }
    assert_eq!(normalize_rel_path(" a/b.md ").as_deref(), Some("a/b.md"));
    let reg = Registry::defaults();
    assert!(validate_rel_path_key("a/b.md", &reg).is_ok());
    assert!(validate_rel_path_key("../b.md", &reg)
        .unwrap_err()
        .starts_with("File not found: ../b.md. Path should be relative"));
    assert!(validate_rel_path_key("a/b.txt", &reg)
        .unwrap_err()
        .starts_with("Access denied: extension \"txt\" is not in the indexed parser registry."));
}

#[test]
fn a_path_is_told_from_its_base() {
    assert_eq!(rel_path_from_full("/kb", "/kb/a/b.md"), "a/b.md");
    assert_eq!(rel_path_from_full("/kb", "/else/b.md"), "/else/b.md");
    assert_eq!(rel_path_from_full("/kb", "x\\y.md"), "x/y.md");
}

#[test]
fn only_files_of_the_knowledge_base_are_read() {
    let inside = Some("/kb/a.md".to_string());
    assert!(may_load(false, &inside, "/kb", Some(10), 10));
    assert!(!may_load(true, &inside, "/kb", Some(10), 10));
    assert!(!may_load(false, &None, "/kb", Some(10), 10));
    assert!(!may_load(false, &Some("/other/a.md".to_string()), "/kb", Some(10), 10));
    assert!(!may_load(false, &inside, "/kb", Some(11), 10));
    assert!(!may_load(false, &inside, "/kb", None, 10));
}

#[test]
fn renaming_back_and_forth_changes_nothing() {
    let mut index = DocumentIndex::new();
    index.insert(load("a.md", "one\n").unwrap());
    index.insert(load("b.md", "two\n").unwrap());
    let before = index.get("a.md").unwrap().clone();
    assert!(index.rename("a.md", "c.md"));
    assert_eq!(index.get("c.md").unwrap().path, "c.md");
    assert!(index.rename("c.md", "a.md"));
    assert_eq!(index.get("a.md").unwrap(), &before);
    assert_eq!(index.get("b.md").unwrap().content, "two\n");
    assert_eq!(index.len(), 2);
    assert!(index.remove("a.md"));
    assert!(index.get("a.md").is_none());
    assert!(index.contains("b.md"));
}

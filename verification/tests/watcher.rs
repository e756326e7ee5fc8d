use kb_mcp::document_index::{DocumentEntry, DocumentIndex};
use kb_mcp::parser::Registry;
use kb_mcp::watcher::{
    after_deindex, after_reindex, after_rename, classify, handle_events, is_under_excluded_dir,
    next_backoff, should_process, to_rel, watch_step, Classified, DeindexOutcome, EventKind, ReindexOutcome,
    RenameMode, RenameOutcome, WatchAction, WatchConfig, WatchEvent, WatchPath,
    WatchHealth, WatchStep, FIRST_BACKOFF_SECS, MAX_BACKOFF_SECS, PROBE_SECS,
};

#[test]
fn test_watch_config_default() {
    let c = WatchConfig::default();
    assert!(c.enabled);
    assert_eq!(c.debounce_ms, 500);
    assert!(c.starts());
    assert!(!WatchConfig { enabled: false, ..c }.starts());
}

fn default_exclude_dirs() -> Vec<String> {
    vec![".obsidian".to_string()]
}

#[test]
fn test_should_process_lite_md_ok() {
    let reg = Registry::defaults();
    assert!(should_process("notes/a.md", "/tmp/a/notes/a.md", &reg, &default_exclude_dirs()));
}

#[test]
fn test_should_process_lite_obsidian_rejected() {
    let reg = Registry::defaults();
    assert!(!should_process(
        ".obsidian/workspace.md",
        "/tmp/a/.obsidian/workspace.md",
        &reg,
        &default_exclude_dirs()
    ));
    assert!(!should_process(
        "sub/.obsidian/x.md",
        "/tmp/a/sub/.obsidian/x.md",
        &reg,
        &default_exclude_dirs()
    ));
}

#[test]
fn test_should_process_lite_wrong_extension() {
    let reg = Registry::defaults();
    assert!(!should_process("notes/a.txt", "/tmp/a/notes/a.txt", &reg, &default_exclude_dirs()));
}

#[test]
fn test_should_process_lite_txt_accepted_when_opted_in() {
    let reg = Registry::from_enabled(&["md".into(), "txt".into()]).unwrap();
    assert!(should_process("notes/a.txt", "/tmp/a/notes/a.txt", &reg, &default_exclude_dirs()));
    assert!(should_process("notes/a.TXT", "/tmp/a/notes/a.TXT", &reg, &default_exclude_dirs()));
}

#[test]
fn test_should_process_lite_db_file_rejected() {
    let reg = Registry::defaults();
    assert!(!should_process(".kb-mcp.db", "/tmp/a/.kb-mcp.db", &reg, &default_exclude_dirs()));
}

#[test]
fn test_to_rel_basic() {
    assert_eq!(
        to_rel("/tmp/kb", "/tmp/kb/notes/a.md", &None),
        Some("notes/a.md".to_string())
    );
    assert_eq!(to_rel("/tmp/kb", "/tmp/kb2/a.md", &None), None);
    assert_eq!(
        to_rel("/tmp/kb", "/link/a.md", &Some("/tmp/kb/a.md".to_string())),
        Some("a.md".to_string())
    );
}

fn path(full: &str) -> WatchPath {
    WatchPath { full: full.to_string(), rel: to_rel("/tmp", full, &None) }
}

fn mk_evt(kind: EventKind, paths: Vec<WatchPath>) -> WatchEvent {
    WatchEvent { kind, paths }
}

fn renaming(mode: RenameMode, paths: &[&str]) -> WatchEvent {
    mk_evt(
        EventKind::ModifyName { mode },
        paths.iter().map(|p| path(p)).collect(),
    )
}

#[test]
fn test_classify_create_is_reindex() {
    let evt = mk_evt(EventKind::Create, vec![path("/tmp/a.md")]);
    assert_eq!(classify(&evt), Classified::Reindex);
    assert_eq!(evt.paths.len(), 1);
}

#[test]
fn test_classify_modify_data_is_reindex() {
    let evt = mk_evt(EventKind::Modify, vec![path("/tmp/a.md")]);
    assert!(matches!(classify(&evt), Classified::Reindex));
}

#[test]
fn test_classify_remove_is_deindex() {
    let evt = mk_evt(EventKind::Remove, vec![path("/tmp/a.md")]);
    assert!(matches!(classify(&evt), Classified::Deindex));
}

#[test]
fn test_classify_rename_both_two_paths_is_rename() {
    let evt = renaming(RenameMode::Both, &["/tmp/from.md", "/tmp/to.md"]);
    assert!(matches!(classify(&evt), Classified::Rename));
    match &handle_events(&vec![evt], &Registry::defaults(), &[])[..] {
        [WatchAction::Rename { old_rel, new_rel }] => {
            assert_eq!(old_rel, "from.md");
            assert_eq!(new_rel, "to.md");
        }
        other => panic!("expected Rename, got {other:?}"),
    }
}

#[test]
fn test_classify_rename_from_only_is_deindex() {
    let evt = renaming(RenameMode::From, &["/tmp/from.md"]);
    assert!(matches!(classify(&evt), Classified::Deindex));
}

#[test]
fn test_classify_rename_to_only_is_reindex() {
    let evt = renaming(RenameMode::To, &["/tmp/to.md"]);
    assert!(matches!(classify(&evt), Classified::Reindex));
}

#[test]
fn test_classify_rename_name_any_two_paths_is_rename() {
    let evt = renaming(RenameMode::Any, &["/tmp/from.md", "/tmp/to.md"]);
    assert!(matches!(classify(&evt), Classified::Rename));
}

#[test]
fn test_classify_rename_both_event_does_not_also_trigger_reindex() {
    let evt = renaming(RenameMode::Both, &["/tmp/from.md", "/tmp/to.md"]);
    let c = classify(&evt);
    assert!(
        !matches!(c, Classified::Reindex),
        "Modify(Name(Both)) must never be Reindex: {c:?}"
    );
    let actions = handle_events(&vec![evt], &Registry::defaults(), &[]);
    assert_eq!(actions.len(), 1);
}

#[test]
fn test_classify_access_is_ignore() {
    let evt = mk_evt(EventKind::Access, vec![path("/tmp/a.md")]);
    assert!(matches!(classify(&evt), Classified::Ignore));
}

#[test]
fn a_batch_becomes_requests_in_order() {
    let events = vec![
        mk_evt(EventKind::Create, vec![path("/tmp/a.md"), path("/tmp/a.pdf"), path("/else/b.md")]),
        mk_evt(EventKind::Remove, vec![path("/tmp/.obsidian/x.md"), path("/tmp/c.md")]),
        mk_evt(EventKind::Other, vec![path("/tmp/d.md")]),
        renaming(RenameMode::Both, &["/tmp/e.md", "/tmp/.obsidian/e.md"]),
        renaming(RenameMode::Both, &["/tmp/.obsidian/f.md", "/tmp/f.md"]),
    ];
    let actions = handle_events(&events, &Registry::defaults(), &default_exclude_dirs());
    let words: Vec<String> = actions.iter().map(|a| format!("{a:?}")).collect();
    assert_eq!(words[0], "Reindex { rel: \"a.md\" }");
    assert_eq!(words[1], "Deindex { rel: \"c.md\" }");
    assert!(words.iter().all(|w| !w.contains("d.md")));
}

#[test]
fn excluded_directories_count_at_any_depth() {
    let dirs = default_exclude_dirs();
    assert!(is_under_excluded_dir(".obsidian/a.md", &dirs));
    assert!(is_under_excluded_dir("x/.obsidian/y/a.md", &dirs));
    assert!(!is_under_excluded_dir("x/obsidian/a.md", &dirs));
    assert!(!is_under_excluded_dir("x/a.md", &[]));
}

#[test]
fn waiting_doubles_up_to_a_limit() {
    let mut secs = FIRST_BACKOFF_SECS;
    let mut seen = vec![secs];
    for _ in 0..6 {
        secs = next_backoff(secs);
        seen.push(secs);
    }
    assert_eq!(seen, vec![1, 2, 4, 8, 16, 30, 30]);
    assert_eq!(MAX_BACKOFF_SECS, 30);
    assert_eq!(next_backoff(u64::MAX), 30);
}

#[test]
fn the_command_line_wins_over_the_watch_section() {
    let c = WatchConfig { enabled: true, debounce_ms: 500 };
    let o = c.overridden(true, Some(250));
    assert!(!o.enabled);
    assert_eq!(o.debounce_ms, 250);
    assert_eq!(c.overridden(false, None), c);
    let off = WatchConfig { enabled: false, debounce_ms: 1 };
    assert!(!off.overridden(false, None).enabled);
}

fn entry(path: &str) -> DocumentEntry {
    DocumentEntry {
        path: path.to_string(),
        title: Some(format!("title of {path}")),
        date: None,
        topic: None,
        category: None,
        tags: Vec::new(),
        content: String::new(),
        body: None,
        content_hash: String::new(),
        last_modified: None,
    }
}

fn index(paths: &[&str]) -> DocumentIndex {
    let mut i = DocumentIndex::new();
    for p in paths {
        i.insert(entry(p));
    }
    i
}

#[test]
fn the_index_follows_the_indexer() {
    let mut i = index(&["a.md", "b.md", "c.md"]);
    let f = after_reindex(&mut i, "a.md", &ReindexOutcome::Updated { chunks: 2 });
    assert!(f.refresh);
    assert_eq!(f.line.as_deref(), Some("watcher: reindexed a.md (2 chunks)"));
    let f = after_reindex(&mut i, "a.md", &ReindexOutcome::Unchanged);
    assert!(!f.refresh && f.line.is_none());
    let f = after_reindex(&mut i, "a.md", &ReindexOutcome::Skipped { reason: "big".to_string() });
    assert_eq!(f.line.as_deref(), Some("watcher: skipped a.md (big)"));
    assert!(!i.contains("a.md"));
    let f = after_reindex(&mut i, "b.md", &ReindexOutcome::Failed { error: "e".to_string() });
    assert_eq!(f.line.as_deref(), Some("watcher: reindex b.md failed: e"));
    assert!(i.contains("b.md"));
    let line = after_deindex(&mut i, "b.md", &DeindexOutcome::Removed);
    assert_eq!(line.as_deref(), Some("watcher: deindexed b.md"));
    assert!(!i.contains("b.md"));
    assert_eq!(after_deindex(&mut i, "c.md", &DeindexOutcome::NotIndexed), None);
    assert!(i.contains("c.md"));
}

#[test]
fn a_renaming_moves_the_document() {
    let mut i = index(&["a.md"]);
    let f = after_rename(&mut i, "a.md", "b.md", &RenameOutcome::Renamed);
    assert!(!f.refresh);
    assert_eq!(f.line.as_deref(), Some("watcher: renamed a.md -> b.md"));
    assert!(!i.contains("a.md"));
    assert_eq!(i.get("b.md").unwrap().title.as_deref(), Some("title of a.md"));
    let f = after_rename(&mut i, "x.md", "y.md", &RenameOutcome::Renamed);
    assert!(f.refresh);
    let f = after_rename(&mut i, "b.md", "c.md", &RenameOutcome::RenamedAndReindexed { chunks: 1 });
    assert!(f.refresh && !i.contains("b.md"));
    assert_eq!(
        f.line.as_deref(),
        Some("watcher: renamed+reindexed b.md -> c.md (1 chunks)")
    );
    let f = after_rename(&mut i, "o.md", "n.md", &RenameOutcome::OldPathMissing);
    assert_eq!(
        f.line.as_deref(),
        Some("watcher: rename target o.md not in DB, indexed n.md")
    );
    let f = after_rename(&mut i, "o.md", "n.md", &RenameOutcome::Failed { error: "e".to_string() });
    assert!(!f.refresh);
    assert_eq!(f.line.as_deref(), Some("watcher: rename o.md -> n.md failed: e"));
}

#[test]
fn what_happens_in_an_excluded_directory_calls_for_nothing() {
    let at = |rel: &str| WatchPath {
        full: format!("/kb/{rel}"),
        rel: Some(rel.to_string()),
    };
    let reg = Registry::defaults();
    let dirs = default_exclude_dirs();
    let inside = vec![
        mk_evt(EventKind::Create, vec![at(".obsidian/a.md")]),
        mk_evt(EventKind::Remove, vec![at("sub/.obsidian/a.md")]),
        mk_evt(
            EventKind::ModifyName { mode: RenameMode::Both },
            vec![at(".obsidian/a.md"), at(".obsidian/b.md")],
        ),
    ];
    assert!(handle_events(&inside, &reg, &dirs).is_empty());
    let out_of_it = vec![mk_evt(
        EventKind::ModifyName { mode: RenameMode::Both },
        vec![at(".obsidian/a.md"), at("notes/a.md")],
    )];
    let actions = handle_events(&out_of_it, &reg, &dirs);
    assert_eq!(actions.len(), 1);
    assert!(matches!(
        &actions[0],
        WatchAction::Rename { old_rel, new_rel }
            if old_rel == ".obsidian/a.md" && new_rel == "notes/a.md"
    ));
}

#[test]
fn a_watch_is_set_up_anew_when_it_breaks() {
    let mut wait = FIRST_BACKOFF_SECS;
    let mut waits = Vec::new();
    for _ in 0..7 {
        let (next, step) = watch_step(wait, WatchHealth::Failed);
        waits.push(match step {
            WatchStep::Retry { after_secs } => after_secs,
            _ => unreachable!(),
        });
        wait = next;
    }
    assert_eq!(waits, vec![1, 2, 4, 8, 16, 30, 30]);
    let probe = WatchStep::Probe { after_secs: PROBE_SECS };
    assert_eq!(watch_step(wait, WatchHealth::Started), (FIRST_BACKOFF_SECS, probe));
    assert_eq!(watch_step(4, WatchHealth::Alive), (4, probe));
    assert_eq!(watch_step(4, WatchHealth::Vanished), (4, WatchStep::Rebuild));
}

use kb_mcp::indexer::progress::{
    should_emit, ProgressAction, ProgressMode, ProgressReporter, ProgressState,
};

#[test]
fn test_from_cli_flags_default() {
    let r = ProgressReporter::from_cli_flags(false, false);
    assert!(matches!(r.state, ProgressState::Verbose));
}

#[test]
fn test_from_cli_flags_quiet() {
    let r = ProgressReporter::from_cli_flags(true, false);
    assert!(matches!(r.state, ProgressState::Quiet));
}

#[test]
fn test_from_cli_flags_progress() {
    let r = ProgressReporter::from_cli_flags(false, true);
    assert!(matches!(r.state, ProgressState::AutoPending));
}

#[test]
fn test_new_quiet_explicit() {
    let r = ProgressReporter::new(ProgressMode::Quiet);
    assert!(matches!(r.state, ProgressState::Quiet));
}

#[test]
fn test_start_indexing_zero_is_noop() {
    let mut r = ProgressReporter::new(ProgressMode::Auto);
    assert_eq!(r.start_indexing(0, true), None);
    assert!(matches!(r.state, ProgressState::AutoPending));
}

#[test]
fn test_quiet_report_does_not_panic() {
    let mut r = ProgressReporter::new(ProgressMode::Quiet);
    assert!(matches!(r.report_indexed("foo.md", 3), ProgressAction::Nothing));
    assert!(matches!(r.report_renamed("a.md", "b.md"), ProgressAction::Nothing));
    assert!(matches!(r.report_deleted("c.md"), ProgressAction::Nothing));
    assert!(!r.finish());
}

#[test]
fn test_should_emit_basic() {
    assert!(!should_emit(0, 320, 16), "count=0 must not emit");
    assert!(should_emit(16, 320, 16), "first step boundary");
    assert!(should_emit(32, 320, 16));
    assert!(!should_emit(15, 320, 16));
    assert!(!should_emit(17, 320, 16));
    assert!(should_emit(320, 320, 16), "100% always emits");
}

#[test]
fn test_should_emit_small_total() {
    assert!(!should_emit(0, 5, 1));
    assert!(should_emit(1, 5, 1));
    assert!(should_emit(5, 5, 1));
}

#[test]
fn test_should_emit_total_zero_never_called() {
    assert!(!should_emit(0, 0, 1));
    assert!(!should_emit(1, 0, 1));
}

#[test]
fn test_nontty_report_indexed_emits_at_boundary() {
    let mut r = ProgressReporter {
        state: ProgressState::NonTty { total: 5, step: 1, count: 0 },
    };
    r.report_indexed("foo.md", 3);
    assert!(matches!(r.state, ProgressState::NonTty { count: 1, .. }));
}

#[test]
fn test_nontty_report_unchanged_also_ticks_count() {
    let mut r = ProgressReporter {
        state: ProgressState::NonTty { total: 3, step: 1, count: 0 },
    };
    r.report_indexed("a.md", 1);
    r.report_unchanged("b.md");
    r.report_unchanged("c.md");
    assert!(matches!(r.state, ProgressState::NonTty { count: 3, .. }));
}

#[test]
fn test_verbose_report_unchanged_does_not_emit() {
    let mut r = ProgressReporter::new(ProgressMode::Verbose);
    assert!(matches!(r.report_unchanged("foo.md"), ProgressAction::Nothing));
}

fn printed(action: ProgressAction) -> String {
    match action {
        ProgressAction::Print { line } => line,
        other => panic!("nothing printed: {other:?}"),
    }
}

#[test]
fn verbose_reports_name_the_file() {
    let mut r = ProgressReporter::new(ProgressMode::Verbose);
    assert_eq!(printed(r.report_indexed("a.md", 3)), "  indexed: a.md (3 chunks)");
    assert_eq!(printed(r.report_renamed("a.md", "b.md")), "  renamed: a.md -> b.md");
    assert_eq!(printed(r.report_deleted("b.md")), "  deleted: b.md");
}

#[test]
fn a_run_without_a_terminal_ends_at_all() {
    let mut r = ProgressReporter::new(ProgressMode::Auto);
    assert_eq!(r.start_indexing(40, false), None);
    let mut lines = Vec::new();
    for _ in 0..40 {
        if let ProgressAction::Print { line } = r.report_unchanged("x.md") {
            lines.push(line);
        }
    }
    assert_eq!(lines.len(), 20);
    assert!(lines.last().unwrap().contains("100%"), "{lines:?}");
    assert!(!r.finish());
}

#[test]
fn a_terminal_gets_a_bar() {
    let mut r = ProgressReporter::new(ProgressMode::Auto);
    assert_eq!(r.start_indexing(40, true), Some(40));
    assert!(matches!(
        r.report_indexed("a.md", 2),
        ProgressAction::Tick { message: Some(m) } if m == "a.md (2 chunks)"
    ));
    assert!(matches!(r.report_unchanged("a.md"), ProgressAction::Tick { message: None }));
    assert!(r.finish());
}

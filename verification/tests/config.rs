use kb_mcp::config::{
    alongside_of, default_exclude_dirs, expand_tilde, load_context, missing_message,
    resolve_relative, BestPracticeConfig, Config, ConfigError, ConfigSearch, ConfigSource,
    EvalConfig, MmrConfig, ParentRetrieverConfig, SearchConfig, SearchOverrides, SearchStage,
};
use kb_mcp::parser::ParsersConfig;
use kb_mcp::path::{is_absolute, PathStyle};

fn search_section(document: &str) -> SearchConfig {
    let value: toml::Value = toml::from_str(document).unwrap();
    let mut s = SearchConfig::default();
    if let Some(mmr) = value.get("search").and_then(|t| t.get("mmr")) {
        if let Some(b) = mmr.get("enabled") {
            s.mmr.enabled = b.as_bool().unwrap();
        }
        if let Some(x) = mmr.get("lambda") {
            s.mmr.lambda_bits = (x.as_float().unwrap() as f32).to_bits();
        }
        if let Some(x) = mmr.get("same_doc_penalty") {
            s.mmr.same_doc_penalty_bits = (x.as_float().unwrap() as f32).to_bits();
        }
    }
    if let Some(parent) = value.get("search").and_then(|t| t.get("parent_retriever")) {
        if let Some(b) = parent.get("enabled") {
            s.parent_retriever.enabled = b.as_bool().unwrap();
        }
        if let Some(n) = parent.get("whole_doc_threshold_tokens") {
            s.parent_retriever.whole_doc_threshold_tokens = n.as_integer().unwrap() as u32;
        }
        if let Some(n) = parent.get("max_expanded_tokens") {
            s.parent_retriever.max_expanded_tokens = n.as_integer().unwrap() as u32;
        }
    }
    s
}

fn config(document: &str) -> Config {
    Config { search: Some(search_section(document)), ..Config::default() }
}

#[test]
fn test_best_practice_default_is_empty() {
    let cfg = BestPracticeConfig::default();
    assert!(cfg.path_templates.is_empty());
}

#[test]
fn test_mmr_config_defaults() {
    let cfg = MmrConfig::default();
    assert!(!cfg.enabled);
    assert!((f32::from_bits(cfg.lambda_bits) - 0.7).abs() < 1e-6);
    assert_eq!(f32::from_bits(cfg.same_doc_penalty_bits), 0.0);
}

#[test]
fn test_mmr_lambda_out_of_range_rejected() {
    let cfg = config(
        r#"
[search.mmr]
enabled = true
lambda = 1.5
"#,
    );
    let result = cfg.validate();
    assert!(result.is_err(), "lambda > 1.0 should fail validate");
    assert_eq!(
        result.unwrap_err().message("1.5"),
        "[search.mmr].lambda must be in 0.0..=1.0, got 1.5"
    );
}

#[test]
fn test_mmr_same_doc_penalty_out_of_range_rejected() {
    let cfg = config(
        r#"
[search.mmr]
enabled = true
same_doc_penalty = -0.1
"#,
    );
    let result = cfg.validate();
    assert!(
        result.is_err(),
        "negative same_doc_penalty should fail validate"
    );
    assert_eq!(
        result.unwrap_err().message("-0.1"),
        "[search.mmr].same_doc_penalty must be in 0.0..=1.0, got -0.1"
    );
}

#[test]
fn test_parent_retriever_config_defaults() {
    let cfg = ParentRetrieverConfig::default();
    assert!(!cfg.enabled);
    assert_eq!(cfg.whole_doc_threshold_tokens, 100);
    assert_eq!(cfg.max_expanded_tokens, 2000);
}

#[test]
fn test_parent_retriever_validates_max_expanded_gt_threshold() {
    let cfg = config(
        r#"
[search.parent_retriever]
enabled = true
whole_doc_threshold_tokens = 500
max_expanded_tokens = 500
"#,
    );
    let result = cfg.validate();
    assert!(
        result.is_err(),
        "max_expanded_tokens <= threshold should fail"
    );
    assert_eq!(
        result.unwrap_err().message(""),
        "[search.parent_retriever].max_expanded_tokens (500) must be > whole_doc_threshold_tokens (500)"
    );
}

#[test]
fn test_parent_retriever_max_expanded_capped_at_8192() {
    let cfg = config(
        r#"
[search.parent_retriever]
enabled = true
max_expanded_tokens = 9000
"#,
    );
    let result = cfg.validate();
    assert!(
        result.is_err(),
        "max_expanded_tokens > 8192 (BGE-M3 ctx) should fail"
    );
    assert_eq!(
        result.unwrap_err().message(""),
        "[search.parent_retriever].max_expanded_tokens must be <= 8192 (BGE-M3 context window), got 9000"
    );
}

#[test]
fn test_search_overrides_resolve_parent_retriever_thresholds() {
    let search_cfg = search_section(
        r#"
[search.parent_retriever]
enabled = true
whole_doc_threshold_tokens = 50
max_expanded_tokens = 1500
"#,
    );
    let overrides = SearchOverrides::default();
    let resolved = overrides.resolve(&search_cfg);
    assert!(resolved.parent_retriever_enabled);
    assert_eq!(resolved.parent_whole_doc_threshold_tokens, 50);
    assert_eq!(resolved.parent_max_expanded_tokens, 1500);
}

#[test]
fn test_search_overrides_resolve_per_call_beats_toml() {
    let search_cfg = search_section(
        r#"
[search.mmr]
enabled = false
lambda = 0.7
"#,
    );
    let overrides = SearchOverrides {
        mmr: Some(true),
        mmr_lambda_bits: Some(0.3f32.to_bits()),
        mmr_same_doc_penalty_bits: None,
        parent_retriever: None,
    };
    let resolved = overrides.resolve(&search_cfg);
    assert!(resolved.mmr_enabled);
    assert!((f32::from_bits(resolved.mmr_lambda_bits) - 0.3).abs() < 1e-6);
}

#[test]
fn test_search_overrides_resolve_toml_default_when_none() {
    let search_cfg = search_section(
        r#"
[search.mmr]
enabled = true
lambda = 0.5
"#,
    );
    let overrides = SearchOverrides::default();
    let resolved = overrides.resolve(&search_cfg);
    assert!(resolved.mmr_enabled);
    assert!((f32::from_bits(resolved.mmr_lambda_bits) - 0.5).abs() < 1e-6);
}

#[test]
fn test_search_overrides_resolve_uses_default_when_toml_missing() {
    let search_cfg = SearchConfig::default();
    let overrides = SearchOverrides::default();
    let resolved = overrides.resolve(&search_cfg);
    assert!(!resolved.mmr_enabled);
    assert!((f32::from_bits(resolved.mmr_lambda_bits) - 0.7).abs() < 1e-6);
    assert_eq!(f32::from_bits(resolved.mmr_same_doc_penalty_bits), 0.0);
}

#[test]
fn test_search_overrides_resolve_warn_emitted_when_mmr_off_with_lambda() {
    let search_cfg = SearchConfig::default();
    let overrides = SearchOverrides {
        mmr: None,
        mmr_lambda_bits: Some(0.3f32.to_bits()),
        mmr_same_doc_penalty_bits: None,
        parent_retriever: None,
    };
    let resolved = overrides.resolve(&search_cfg);
    assert!(!resolved.mmr_enabled);
    assert!(overrides.has_ignored_values(&search_cfg));
    let on = SearchOverrides { mmr: Some(true), ..overrides };
    assert!(!on.has_ignored_values(&search_cfg));
    assert!(!SearchOverrides::default().has_ignored_values(&search_cfg));
}

#[test]
fn test_parsers_omitted_uses_md_default() {
    let cfg = Config::default();
    assert!(cfg.parsers.is_none());
    let reg = cfg.build_parser_registry().unwrap();
    assert_eq!(reg.extensions(), vec!["md"]);
}

#[test]
fn test_parsers_config_empty_array_is_rejected() {
    let cfg = Config {
        parsers: Some(ParsersConfig { enabled: Vec::new() }),
        ..Config::default()
    };
    let err = cfg.load_from("/c/kb-mcp.toml", PathStyle::Unix).expect_err("must reject empty array");
    let full = err.message("");
    assert!(
        full.contains("empty array") || full.contains("at least one id"),
        "error should mention empty config, got: {full}"
    );
}

#[test]
fn test_parsers_unknown_id_is_rejected() {
    let cfg = Config {
        parsers: Some(ParsersConfig { enabled: vec!["pdf".to_string()] }),
        ..Config::default()
    };
    let err = cfg.build_parser_registry().expect_err("unknown id must fail");
    assert!(err.message().contains("pdf"));
}

#[test]
fn test_config_source_variants_are_distinguishable() {
    let variants = [
        ConfigSource::Explicit,
        ConfigSource::Cwd,
        ConfigSource::GitRoot,
        ConfigSource::AlongsideBinary,
        ConfigSource::NotFound,
    ];
    let labels: Vec<String> = variants.iter().map(|v| format!("{v:?}")).collect();
    let unique: std::collections::HashSet<_> = labels.iter().collect();
    assert_eq!(
        unique.len(),
        variants.len(),
        "all variants must be distinct"
    );
}

#[test]
fn test_relative_paths_resolve_against_config_dir() {
    let cfg = Config {
        kb_path: Some("./knowledge-base".to_string()),
        fastembed_cache_dir: Some("cache/hf".to_string()),
        eval: Some(EvalConfig { golden: Some("g.yml".to_string()), ..EvalConfig::default() }),
        ..Config::default()
    };
    let cfg = cfg.load_from("/home/u/cfg/kb-mcp.toml", PathStyle::Unix).unwrap();
    let kb = cfg.kb_path.expect("kb_path must be Some");
    assert!(kb.starts_with("/home/u/cfg/"), "kb_path not rebased: {kb:?}");
    assert!(kb.ends_with("knowledge-base"));
    assert_eq!(cfg.fastembed_cache_dir.unwrap(), "/home/u/cfg/cache/hf");
    assert_eq!(cfg.eval.unwrap().golden.unwrap(), "/home/u/cfg/g.yml");
}

#[test]
fn test_absolute_paths_are_not_rebased() {
    let unix = |p| resolve_relative("/some/base", p, PathStyle::Unix);
    assert_eq!(unix("/absolute/foo"), "/absolute/foo");
    assert_eq!(unix("rel/foo"), "/some/base/rel/foo");
    assert_eq!(unix("C:/absolute/foo"), "/some/base/C:/absolute/foo");
    let windows = |p| resolve_relative("/some/base", p, PathStyle::Windows);
    assert_eq!(windows("C:/absolute/foo"), "C:/absolute/foo");
    assert_eq!(windows("rel/foo"), r"/some/base\rel/foo");
}

#[test]
fn test_windows_unc_and_verbatim_paths_not_rebased() {
    let base = "C:/some/base";
    let absolute =
        [r"\\server\share\foo", r"\\?\C:\verbatim\bar", "//server/share", r"\\.\COM1", r"D:\kb"];
    for p in absolute {
        assert!(is_absolute(p, PathStyle::Windows), "{p}");
        assert_eq!(resolve_relative(base, p, PathStyle::Windows), p);
    }
    for p in ["kb", "C:kb", r"\kb", "/kb", r"\\server", "1:/kb", ""] {
        assert!(!is_absolute(p, PathStyle::Windows), "{p}");
    }
    let from = |base, p| resolve_relative(base, p, PathStyle::Windows);
    assert_eq!(from(base, r"\kb"), r"C:\kb");
    assert_eq!(from(base, "/kb"), "C:/kb");
    assert_eq!(from(r"\\server\share\x", "/kb"), r"\\server\share/kb");
    assert_eq!(from(base, "D:kb"), "D:kb");
    assert_eq!(from(base, "kb"), r"C:/some/base\kb");
    assert_eq!(from("C:", "kb"), "C:kb");
    assert_eq!(from(r"C:\", "kb"), r"C:\kb");
    // a verbatim base knows no dots and no other separator
    let v = r"\\?\C:\some\base";
    assert_eq!(from(v, "kb/notes"), r"\\?\C:\some\base\kb\notes");
    assert_eq!(from(v, r"..\.\kb\..\x"), r"\\?\C:\some\x");
    assert_eq!(from(v, "../../../x"), r"\\?\C:\x");
    assert_eq!(from(v, "/kb"), r"\\?\C:\kb");
    assert_eq!(from(v, "."), v);
    assert_eq!(from(v, ""), r"\\?\C:\some\base\");
    assert_eq!(from(r"\\?\C:", "kb"), r"\\?\C:\kb");
    assert_eq!(from(r"\\?\UNC\server\share\x", "/kb"), r"\\?\UNC\server\share\kb");
    assert_eq!(from(r"\\?\UNC\server\share\x", "kb"), r"\\?\UNC\server\share\x\kb");
    assert_eq!(from(r"\\?\name\a/b", ".."), r"\\?\name\");
    assert_eq!(from(v, r"D:\kb"), r"D:\kb");
    let cfg = Config { kb_path: Some(r"\\server\share\kb".to_string()), ..Config::default() };
    let cfg = cfg.load_from("C:/cfg/kb-mcp.toml", PathStyle::Windows).unwrap();
    assert_eq!(cfg.kb_path.unwrap(), r"\\server\share\kb");
}

#[test]
fn test_apply_cache_dir_env_respects_existing_env() {
    let cfg = Config {
        fastembed_cache_dir: Some("/from-config".to_string()),
        ..Default::default()
    };
    assert_eq!(cfg.cache_dir_to_set(true), None);
    assert_eq!(cfg.cache_dir_to_set(false), Some("/from-config".to_string()));
    assert_eq!(Config::default().cache_dir_to_set(false), None);
}

#[test]
fn test_expand_tilde_with_home() {
    let home = Some("/home/u");
    let expanded = expand_tilde("~/.kb-mcp.toml", home);
    assert!(expanded.starts_with("/home/u"), "expanded={expanded:?}");
    assert_eq!(expanded, "/home/u/.kb-mcp.toml");
    assert_eq!(expand_tilde("~", home), "/home/u");
    assert_eq!(expand_tilde("~/.kb-mcp.toml", None), "~/.kb-mcp.toml");
    assert_eq!(expand_tilde("/a/~/b", home), "/a/~/b");
    assert_eq!(expand_tilde("~other/b", home), "~other/b");
    assert_eq!(expand_tilde("", home), "");
}

fn run(mut search: ConfigSearch, files: &[&str]) -> ConfigSearch {
    while !matches!(search.stage, SearchStage::Missing | SearchStage::Found { .. }) {
        let there = files.contains(&search.path.as_str());
        search.answer(there);
    }
    search
}

fn discover(
    explicit: Option<&str>,
    cwd: &str,
    alongside: Option<&str>,
    files: &[&str],
) -> Option<(ConfigSource, String)> {
    let search = run(
        ConfigSearch::discover(
            explicit,
            Some("/home/u"),
            cwd,
            alongside.map(String::from),
            PathStyle::Unix,
        ),
        files,
    );
    match search.stage {
        SearchStage::Found { source } => Some((source, search.path)),
        _ => None,
    }
}

fn found(source: ConfigSource, path: &str) -> Option<(ConfigSource, String)> {
    Some((source, path.to_string()))
}

#[test]
fn test_find_git_root_returns_dir_when_git_present() {
    assert_eq!(
        discover(None, "/r/a/b/c", None, &["/r/.git", "/r/kb-mcp.toml"]),
        found(ConfigSource::GitRoot, "/r/kb-mcp.toml")
    );
}

#[test]
fn test_find_git_root_returns_none_when_not_in_repo() {
    assert_eq!(
        discover(None, "/r/a", None, &["/r/kb-mcp.toml"]),
        found(ConfigSource::NotFound, "")
    );
}

#[test]
fn test_find_git_root_caps_at_20_levels() {
    let deep = |n: usize| {
        let mut p = "/r".to_string();
        for i in 0..n {
            p.push_str(&format!("/d{i}"));
        }
        p
    };
    let files = ["/r/.git", "/r/kb-mcp.toml"];
    // the directory itself and 19 above it are looked at
    assert_eq!(
        discover(None, &deep(19), None, &files),
        found(ConfigSource::GitRoot, "/r/kb-mcp.toml")
    );
    assert_eq!(discover(None, &deep(20), None, &files), found(ConfigSource::NotFound, ""));
    assert_eq!(discover(None, &deep(30), None, &files), found(ConfigSource::NotFound, ""));
}

#[test]
fn test_discover_explicit_takes_priority_over_cwd() {
    let files = ["/w/kb-mcp.toml", "/w/explicit.toml"];
    assert_eq!(
        discover(Some("/w/explicit.toml"), "/w", None, &files),
        found(ConfigSource::Explicit, "/w/explicit.toml")
    );
    assert_eq!(
        discover(Some("explicit.toml"), "/w", None, &files),
        found(ConfigSource::Explicit, "/w/explicit.toml")
    );
}

#[test]
fn test_discover_explicit_missing_fails_fast() {
    let files = ["/w/kb-mcp.toml"];
    assert_eq!(discover(Some("/w/does-not-exist.toml"), "/w", None, &files), None);
    let msg = missing_message("/w/does-not-exist.toml");
    assert!(
        msg.contains("--config"),
        "error must mention --config: {msg}"
    );
    assert!(msg.contains("not found"), "error must say not found: {msg}");
}

#[test]
fn test_discover_cwd_when_no_explicit() {
    assert_eq!(
        discover(None, "/w", None, &["/w/kb-mcp.toml"]),
        found(ConfigSource::Cwd, "/w/kb-mcp.toml")
    );
}

#[test]
fn test_discover_walks_to_git_root() {
    let files = ["/p/.git", "/p/kb-mcp.toml"];
    assert_eq!(
        discover(None, "/p/a/b/c", None, &files),
        found(ConfigSource::GitRoot, "/p/kb-mcp.toml")
    );
}

#[test]
fn test_discover_cwd_wins_over_git_root() {
    let files = ["/p/.git", "/p/kb-mcp.toml", "/p/project/sub/kb-mcp.toml"];
    assert_eq!(
        discover(None, "/p/project/sub", None, &files),
        found(ConfigSource::Cwd, "/p/project/sub/kb-mcp.toml")
    );
}

#[test]
fn test_discover_returns_default_when_none() {
    assert_eq!(
        discover(None, "/p", Some("/bin/there-is-no-toml-here.toml"), &[]),
        found(ConfigSource::NotFound, "")
    );
    assert!(Config::default().is_empty());
}

#[test]
fn test_discover_alongside_binary_when_no_higher_tier() {
    assert_eq!(
        discover(None, "/p", Some("/bin/kb-mcp.toml"), &["/bin/kb-mcp.toml"]),
        found(ConfigSource::AlongsideBinary, "/bin/kb-mcp.toml")
    );
    // a repository without the file does not hide it
    assert_eq!(
        discover(None, "/p", Some("/bin/kb-mcp.toml"), &["/p/.git", "/bin/kb-mcp.toml"]),
        found(ConfigSource::AlongsideBinary, "/bin/kb-mcp.toml")
    );
    assert_eq!(alongside_of("/bin/kb-mcp"), Some("/bin/kb-mcp.toml".to_string()));
}

#[test]
fn a_file_that_cannot_be_loaded_is_named() {
    assert_eq!(
        load_context(ConfigSource::Cwd, "/w/kb-mcp.toml"),
        "failed to load config from cwd /w/kb-mcp.toml"
    );
    assert_eq!(
        load_context(ConfigSource::Explicit, "x"),
        "failed to load config from --config x"
    );
    assert_eq!(
        load_context(ConfigSource::GitRoot, "x"),
        "failed to load config from git root x"
    );
    assert_eq!(
        load_context(ConfigSource::AlongsideBinary, "x"),
        "failed to load config alongside binary x"
    );
}

#[test]
fn directories_are_left_out_as_configured() {
    assert_eq!(Config::default().resolve_exclude_dirs(), default_exclude_dirs());
    assert_eq!(
        default_exclude_dirs(),
        vec![".obsidian", ".git", "node_modules", "target", ".vscode", ".idea"]
    );
    let none = Config { exclude_dirs: Some(Vec::new()), ..Config::default() };
    assert!(none.resolve_exclude_dirs().is_empty());
    let one = Config { exclude_dirs: Some(vec!["x".to_string()]), ..Config::default() };
    assert_eq!(one.resolve_exclude_dirs(), vec!["x"]);
    assert!(!one.is_empty());
}

#[test]
fn a_configuration_in_order_is_accepted() {
    assert!(config("").validate().is_ok());
    assert!(Config::default().validate().is_ok());
    let cfg = config("").load_from("kb-mcp.toml", PathStyle::Unix).unwrap();
    assert!(cfg.search.is_some());
    let nan = Config {
        search: Some(SearchConfig {
            mmr: MmrConfig { lambda_bits: f32::NAN.to_bits(), ..MmrConfig::default() },
            ..SearchConfig::default()
        }),
        ..Config::default()
    };
    assert!(matches!(nan.validate(), Err(ConfigError::LambdaOutOfRange { .. })));
}

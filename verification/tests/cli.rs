use kb_mcp::cli::{
    check_unit, plan_eval, plan_graph, plan_search, plan_serve, require_kb_path, EvalFlags,
    GraphFlags, PlanError, SearchFlags, ServeFlags,
};
use kb_mcp::config::{BestPracticeConfig, Config, EvalConfig, SearchConfig, SearchOverrides};
use kb_mcp::embedder::{ModelChoice, RerankerChoice};
use kb_mcp::graph::SeedStrategy;
use kb_mcp::parser::ParsersConfig;
use kb_mcp::quality::QualityFilterConfig;
use kb_mcp::report::{
    applied_filters, enters_directory, github_text, graph_text, is_markdown_extension,
    schema_outcome, SchemaLoad,
    no_color_for, search_text, slice, validate_document, validate_text, FilterValue, HitToPrint,
    SearchFilters, ValidateFormat, ValidateReport,
};
use kb_mcp::graph::{ConnectionGraph, GraphNode, GraphStats};
use kb_mcp::schema::{FieldRule, RawSchema, Schema, Violation};
use kb_mcp::transport::{HttpTransportConfig, Transport, TransportConfig, TransportKind};
use kb_mcp::watcher::WatchConfig;

fn serve() -> ServeFlags {
    ServeFlags {
        kb_path: Some("/kb".to_string()),
        model: None,
        reranker: None,
        rerank_by_default: None,
        no_watch: false,
        debounce_ms: None,
        transport: None,
        bind: None,
        port: None,
    }
}

#[test]
fn the_knowledge_base_has_to_be_named() {
    assert_eq!(require_kb_path(Some("a".to_string()), &Some("b".to_string())).unwrap(), "a");
    assert_eq!(require_kb_path(None, &Some("b".to_string())).unwrap(), "b");
    let e = require_kb_path(None, &None).unwrap_err();
    assert_eq!(
        e.message(),
        "--kb-path is required (pass on the command line or set `kb_path` in kb-mcp.toml)"
    );
    let flags = ServeFlags { kb_path: None, ..serve() };
    assert!(matches!(
        plan_serve(flags, &Config::default(), None),
        Err(PlanError::NoKbPath)
    ));
}

#[test]
fn serving_without_options_is_the_usual() {
    let plan = plan_serve(serve(), &Config::default(), None).unwrap();
    assert_eq!(plan.kb_path, "/kb");
    assert_eq!(plan.model, ModelChoice::BgeSmallEnV15);
    assert_eq!(plan.reranker, RerankerChoice::Disabled);
    assert!(plan.rerank_by_default);
    assert_eq!(plan.exclude_headings, None);
    assert_eq!(plan.exclude_dirs.len(), 6);
    assert_eq!(f32::from_bits(plan.quality_threshold_bits), 0.3);
    assert!(plan.best_practice_templates.is_empty());
    assert_eq!(plan.parsers.extensions(), vec!["md"]);
    assert_eq!(plan.watch, WatchConfig::default());
    assert_eq!(plan.transport, Transport::Stdio);
    assert_eq!(f32::from_bits(plan.min_confidence_ratio_bits), 1.5);
    assert_eq!(plan.search, SearchConfig::default());
}

#[test]
fn the_configuration_fills_what_flags_leave_open() {
    let cfg = Config {
        kb_path: Some("/cfg".to_string()),
        model: Some(ModelChoice::BgeM3),
        reranker: Some(RerankerChoice::BgeBase),
        rerank_by_default: Some(false),
        exclude_headings: Some(vec!["x".to_string()]),
        exclude_dirs: Some(Vec::new()),
        quality_filter: Some(QualityFilterConfig { enabled: false, threshold_bits: 1 }),
        best_practice: Some(BestPracticeConfig { path_templates: vec!["t".to_string()] }),
        watch: Some(WatchConfig { enabled: true, debounce_ms: 9 }),
        search: Some(SearchConfig {
            min_confidence_ratio_bits: Some(2.0f32.to_bits()),
            ..SearchConfig::default()
        }),
        ..Config::default()
    };
    let flags = ServeFlags { kb_path: None, no_watch: true, ..serve() };
    let plan = plan_serve(flags, &cfg, None).unwrap();
    assert_eq!(plan.kb_path, "/cfg");
    assert_eq!(plan.model, ModelChoice::BgeM3);
    assert_eq!(plan.reranker, RerankerChoice::BgeBase);
    assert!(!plan.rerank_by_default);
    assert_eq!(plan.exclude_headings, Some(vec!["x".to_string()]));
    assert!(plan.exclude_dirs.is_empty());
    assert_eq!(plan.quality_threshold_bits, 0);
    assert_eq!(plan.best_practice_templates, vec!["t"]);
    assert_eq!(plan.watch, WatchConfig { enabled: false, debounce_ms: 9 });
    assert_eq!(f32::from_bits(plan.min_confidence_ratio_bits), 2.0);
    let asked = ServeFlags {
        model: Some(ModelChoice::BgeSmallEnV15),
        rerank_by_default: Some(true),
        debounce_ms: Some(7),
        ..serve()
    };
    let plan = plan_serve(asked, &cfg, None).unwrap();
    assert_eq!(plan.kb_path, "/kb");
    assert_eq!(plan.model, ModelChoice::BgeSmallEnV15);
    assert!(plan.rerank_by_default);
    assert_eq!(plan.watch, WatchConfig { enabled: true, debounce_ms: 7 });
}

#[test]
fn faults_of_serve_come_in_order() {
    let bad = Config {
        parsers: Some(ParsersConfig { enabled: vec!["pdf".to_string()] }),
        transport: Some(TransportConfig {
            kind: None,
            http: Some(HttpTransportConfig {
                bind: Some("nowhere".to_string()),
                ..HttpTransportConfig::default()
            }),
        }),
        ..Config::default()
    };
    let read = || Some(Err("bad".to_string()));
    let e = plan_serve(serve(), &bad, read()).unwrap_err();
    assert!(e.message().contains("pdf"));
    assert!(matches!(e, PlanError::Parsers { .. }));
    let only_address = Config { parsers: None, ..bad };
    let e = plan_serve(serve(), &only_address, read()).unwrap_err();
    assert_eq!(
        e.message(),
        "[transport.http].bind is not a valid SocketAddr: nowhere: bad"
    );
    let flags = ServeFlags { port: Some(1), ..serve() };
    let e = plan_serve(flags, &Config::default(), None).unwrap_err();
    assert!(e.message().starts_with("--bind / --port require `--transport http`"));
    let flags = ServeFlags { port: Some(1), transport: Some(TransportKind::Http), ..serve() };
    assert!(plan_serve(flags, &Config::default(), None).is_ok());
}

#[test]
fn a_search_is_planned() {
    let flags = |min: Option<f32>, low: bool, ratio: Option<f32>| SearchFlags {
        kb_path: Some("/kb".to_string()),
        model: None,
        reranker: None,
        min_quality_bits: min.map(f32::to_bits),
        include_low_quality: low,
        min_confidence_ratio_bits: ratio.map(f32::to_bits),
    };
    let cfg = Config::default();
    let plan = plan_search(flags(None, false, None), &cfg).unwrap();
    assert_eq!(f32::from_bits(plan.min_quality_bits), 0.3);
    assert_eq!(f32::from_bits(plan.min_confidence_ratio_bits), 1.5);
    let plan = plan_search(flags(Some(0.9), true, Some(0.0)), &cfg).unwrap();
    assert_eq!(plan.min_quality_bits, 0);
    assert_eq!(plan.min_confidence_ratio_bits, 0);
    let none = SearchFlags { kb_path: None, ..flags(None, false, None) };
    assert!(plan_search(none, &cfg).is_err());
}

#[test]
fn a_graph_is_planned_within_limits() {
    let flags = GraphFlags {
        kb_path: Some("/kb".to_string()),
        model: None,
        depth: 9,
        fan_out: 99,
        min_similarity_bits: (-1.0f32).to_bits(),
        seed_strategy: SeedStrategy::Centroid,
        category: Some("c".to_string()),
        topic: None,
        exclude: vec!["x.md".to_string()],
        dedup_by_path: true,
    };
    let plan = plan_graph(flags, &Config::default()).unwrap();
    assert_eq!(plan.options.depth, 3);
    assert_eq!(plan.options.fan_out, 20);
    assert_eq!(f32::from_bits(plan.options.min_similarity_bits), 0.0);
    assert_eq!(plan.options.seed_strategy, SeedStrategy::Centroid);
    assert_eq!(plan.options.category.as_deref(), Some("c"));
    assert_eq!(plan.options.exclude_paths, vec!["x.md"]);
    assert!(plan.options.dedup_by_path);
    assert_eq!(f32::from_bits(plan.options.min_quality_bits), 0.3);
}

fn eval_flags() -> EvalFlags {
    EvalFlags {
        kb_path: Some("/kb".to_string()),
        golden: None,
        model: None,
        reranker: None,
        k: None,
        limit: None,
        no_history: false,
        overrides: SearchOverrides::default(),
    }
}

#[test]
fn an_evaluation_is_planned() {
    let opts = plan_eval(eval_flags(), &Config::default()).unwrap();
    assert_eq!(opts.golden_path, "/kb/.kb-mcp-eval.yml");
    assert_eq!(opts.k_values, vec![1, 5, 10]);
    assert_eq!(opts.limit, 10);
    assert!(opts.write_history);
    assert_eq!(opts.history_size, 10);
    assert_eq!(f64::from_bits(opts.regression_threshold_bits), 0.05);
    let cfg = Config {
        eval: Some(EvalConfig {
            golden: Some("/g.yml".to_string()),
            history_size: Some(3),
            k_values: Some(vec![2, 4]),
            regression_threshold_bits: Some(0.5f64.to_bits()),
        }),
        ..Config::default()
    };
    let opts = plan_eval(eval_flags(), &cfg).unwrap();
    assert_eq!(opts.golden_path, "/g.yml");
    assert_eq!(opts.k_values, vec![2, 4]);
    assert_eq!(opts.limit, 4);
    assert_eq!(opts.history_size, 3);
    assert_eq!(f64::from_bits(opts.regression_threshold_bits), 0.5);
    let asked = EvalFlags {
        golden: Some("/h.yml".to_string()),
        k: Some(vec![7]),
        limit: Some(1),
        no_history: true,
        ..eval_flags()
    };
    let opts = plan_eval(asked, &cfg).unwrap();
    assert_eq!(opts.golden_path, "/h.yml");
    assert_eq!(opts.k_values, vec![7]);
    assert_eq!(opts.limit, 1);
    assert!(!opts.write_history);
}

#[test]
fn numbers_from_the_command_line_lie_in_range() {
    let check = |x: f32| check_unit(x.to_bits());
    assert_eq!(check(0.5), Ok(0.5f32.to_bits()));
    assert_eq!(check(1.0), Ok(1.0f32.to_bits()));
    assert_eq!(check(1.5).unwrap_err(), "must be in [0.0, 1.0]");
    assert_eq!(check(-0.1).unwrap_err(), "must be in [0.0, 1.0]");
    assert_eq!(check(f32::NAN).unwrap_err(), "must be finite");
    assert_eq!(check(f32::INFINITY).unwrap_err(), "must be finite");
}

fn titled() -> Schema {
    let mut raw = RawSchema { fields: Vec::new() };
    raw.insert(
        "title",
        FieldRule {
            required: true,
            field_type: None,
            pattern: None,
            enum_values: None,
            min_length: None,
            max_length: None,
            allow_empty: false,
        },
    );
    Schema::compile(raw).unwrap()
}

#[test]
fn documents_are_validated_and_reported() {
    let schema = titled();
    let mut report = ValidateReport::new();
    assert_eq!(validate_text(&report, true), "kb-mcp validate: 0 files OK\n");
    let good = validate_document("---\ntitle: T\n---\nbody\n", "a.md", &schema);
    assert!(!report.record("a.md".to_string(), good));
    report.skip();
    assert_eq!(report.exit_code(), 0);
    assert_eq!(validate_text(&report, true), "kb-mcp validate: 2 files OK\n");
    let bad = validate_document("body\n", "b.md", &schema);
    assert!(report.record("b.md".to_string(), bad));
    assert_eq!(report.exit_code(), 1);
    assert_eq!(report.ok(), 2);
    assert_eq!(report.violated, 1);
    assert_eq!(
        validate_text(&report, true),
        "kb-mcp validate — 1 file(s) with violations (2 OK)\n\nb.md\n  title is required but missing (or empty)\n"
    );
    assert_eq!(
        validate_text(&report, false),
        "\x1b[1;31mkb-mcp validate — 1 file(s) with violations (2 OK)\x1b[0m\n\n\x1b[1;34mb.md\x1b[0m\n  title is required but missing (or empty)\n"
    );
    assert_eq!(
        github_text(&report),
        "::error file=b.md,line=1,title=frontmatter::title is required but missing (or empty)\n"
    );
}

#[test]
fn annotations_are_single_lines() {
    let mut report = ValidateReport::new();
    let v = Violation::TypeMismatch {
        field: "f".to_string(),
        expected: "a\nb".to_string(),
        actual: "c".to_string(),
    };
    report.record("x.md".to_string(), vec![v.clone(), v]);
    assert_eq!(
        github_text(&report),
        "::error file=x.md,line=1,title=frontmatter::f expected a b but got c\n".repeat(2)
    );
}

#[test]
fn colours_are_for_terminals() {
    assert!(!no_color_for(false, ValidateFormat::Text, true));
    assert!(no_color_for(true, ValidateFormat::Text, true));
    assert!(no_color_for(false, ValidateFormat::Text, false));
    assert!(no_color_for(false, ValidateFormat::Json, true));
    assert!(no_color_for(false, ValidateFormat::Github, true));
    assert!(is_markdown_extension("MD") && !is_markdown_extension("mdx"));
    assert!(!enters_directory(".git", false, &vec![".git".to_string()]));
    assert!(enters_directory("notes", false, &vec![".git".to_string()]));
    assert!(!enters_directory("notes", true, &vec![]));
}

#[test]
fn a_graph_is_printed() {
    let node = |id: usize, parent: Option<usize>, title: Option<&str>| GraphNode {
        node_id: id,
        parent_id: parent,
        depth: id as u32,
        chunk_id: 0,
        score_bits: 0,
        path: format!("p{id}.md"),
        heading: title.map(|t| format!("h-{t}")),
        title: title.map(String::from),
        topic: None,
        snippet: "snip".to_string(),
    };
    let g = ConnectionGraph {
        start_path: "p0.md".to_string(),
        nodes: vec![node(0, None, None), node(1, Some(0), Some("T"))],
        stats: GraphStats {
            total_nodes: 2,
            max_depth_reached: 1,
            knn_queries: 1,
            duration_ms: 5,
        },
    };
    let scores = vec!["1.000".to_string(), "0.500".to_string()];
    assert_eq!(
        graph_text(&g, &scores),
        "# Connection graph from: p0.md\nnodes=2 max_depth=1 knn_queries=1 duration_ms=5\n\
         \n[  0] depth=0 parent=- score=1.000  p0.md#\n     snip\n\
         \n[  1] depth=1 parent=0 score=0.500  p1.md#h-T\n     title: T\n     snip\n"
    );
}

#[test]
fn hits_are_printed() {
    let content = "日本語 text";
    let hit = HitToPrint {
        title: None,
        path: "a.md".to_string(),
        heading: Some("H".to_string()),
        score: "0.5000".to_string(),
        tags: vec!["x".to_string(), "y".to_string()],
        match_spans: Some(vec![(0, 3), (1, 2), (10, 14), (0, 1)]),
        content: content.to_string(),
    };
    let plain = HitToPrint {
        title: Some("T".to_string()),
        heading: Some(String::new()),
        tags: Vec::new(),
        match_spans: None,
        ..hit.clone()
    };
    assert_eq!(
        search_text(true, "1.5", &vec![hit, plain]),
        "[low_confidence: top1 / mean ratio < 1.5]\n\n\
         # (no title)\na.md#H\nscore: 0.5000\ntags: x, y\nmatch_spans: \"日\", \"text\"\n\n日本語 text\n\
         \n---\n\n# T\na.md\nscore: 0.5000\n\n日本語 text\n"
    );
    assert_eq!(search_text(false, "1.5", &Vec::new()), "");
}

#[test]
fn places_in_bytes_are_what_std_takes_them_for() {
    let s = "aé日𝄞z";
    for start in 0..=s.len() + 1 {
        for end in 0..=s.len() + 1 {
            assert_eq!(slice(s, start, end).as_deref(), s.get(start..end), "{start}..{end}");
        }
    }
    assert_eq!(slice("", 0, 0).as_deref(), Some(""));
    assert_eq!(slice("a", usize::MAX, usize::MAX), None);
}

#[test]
fn only_filters_that_say_something_are_echoed() {
    let none = SearchFilters {
        category: None,
        topic: None,
        path_globs: Vec::new(),
        tags_any: Vec::new(),
        tags_all: Vec::new(),
        date_from: None,
        date_to: None,
        min_confidence_ratio_bits: None,
    };
    assert!(applied_filters(&none).is_empty());
    let some = SearchFilters {
        topic: Some("mcp".to_string()),
        tags_all: vec!["a".to_string()],
        min_confidence_ratio_bits: Some(0),
        ..none
    };
    let r = applied_filters(&some);
    assert_eq!(r.len(), 3);
    assert!(matches!(&r[0], ("topic", FilterValue::Text { value }) if value == "mcp"));
    assert!(matches!(&r[1], ("tags_all", FilterValue::List { values }) if values.len() == 1));
    assert!(matches!(&r[2], ("min_confidence_ratio", FilterValue::Number { bits: 0 })));
}

#[test]
fn the_schema_decides_before_any_document() {
    let (line, code) = schema_outcome(&SchemaLoad::Missing, "/kb/s.toml").unwrap();
    assert_eq!(line, "kb-mcp validate: no schema found at /kb/s.toml (skipping)");
    assert_eq!(code, 0);
    let bad = SchemaLoad::Unusable { reason: "no TOML".to_string() };
    let (line, code) = schema_outcome(&bad, "/kb/s.toml").unwrap();
    assert_eq!(line, "kb-mcp validate: schema load error: no TOML");
    assert_eq!(code, 2);
    assert!(schema_outcome(&SchemaLoad::Loaded, "/kb/s.toml").is_none());
}

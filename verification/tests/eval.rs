use kb_mcp::config::{Config, SearchConfig, SearchOverrides};
use kb_mcp::embedder::{ModelChoice, RerankerChoice};
use kb_mcp::eval::{
    aggregate_metrics, cap_gain, compute_query_metrics, default_history_path, default_limit,
    diff_enabled, evaluate_query, fetch_count, format_text, is_hit, no_index_message, normalize_heading,
    query_id, query_pairs, rank_hits, regression_pairs, render_diff, report_pairs,
    resolve_k_values, AggregateMetrics, ChangeText, ConfigFingerprint, EvalRun, ExpectedHit,
    FoundHit, GoldenQuery, GoldenSet, History, HitRecord, MetricText, MmrFingerprint, NdcgTerms,
    ParentRetrieverFingerprint, QueryMetrics, QueryResult, QueryScores, QueryText, Ratio, RunOpts,
};
use std::collections::BTreeMap;

fn ratio(r: Ratio) -> f64 {
    r.part as f64 / r.whole as f64
}

fn gain(rank: usize) -> f64 {
    1.0 / ((rank as f64) + 1.0).log2()
}

fn ndcg(t: &NdcgTerms) -> f64 {
    let ideal: f64 = (1..=t.ideal_count).map(gain).sum();
    if ideal == 0.0 {
        return 0.0;
    }
    let found = t.hit_ranks.iter().map(|r| gain(*r)).sum::<f64>();
    f64::from_bits(cap_gain(found.to_bits(), ideal.to_bits())) / ideal
}

fn recall_at_k(expected: &[ExpectedHit], top: &[HitRecord], k: usize) -> f64 {
    ratio(kb_mcp::eval::recall_at_k(&expected.to_vec(), &top.to_vec(), k))
}

fn reciprocal_rank(expected: &[ExpectedHit], top: &[HitRecord]) -> f64 {
    ratio(kb_mcp::eval::reciprocal_rank(&expected.to_vec(), &top.to_vec()))
}

fn ndcg_at_k(expected: &[ExpectedHit], top: &[HitRecord], k: usize) -> f64 {
    ndcg(&kb_mcp::eval::ndcg_at_k(&expected.to_vec(), &top.to_vec(), k))
}

fn recorded(s: &QueryScores) -> QueryMetrics {
    QueryMetrics {
        recall_at_k: s.recall_at_k.iter().map(|(k, v)| (*k, ratio(*v).to_bits())).collect(),
        reciprocal_rank: ratio(s.reciprocal_rank).to_bits(),
        ndcg_at_k: s.ndcg_at_k.iter().map(|(k, v)| (*k, ndcg(v).to_bits())).collect(),
    }
}

fn metrics(expected: &[ExpectedHit], top: &[HitRecord], ks: &[usize]) -> QueryMetrics {
    recorded(&compute_query_metrics(&expected.to_vec(), &top.to_vec(), &ks.to_vec()))
}

fn mean(values: &[u64]) -> f64 {
    if values.is_empty() {
        return 0.0;
    }
    values.iter().map(|b| f64::from_bits(*b)).sum::<f64>() / values.len() as f64
}

fn aggregate(queries: Vec<QueryResult>, ks: &[usize]) -> AggregateMetrics {
    let parts = aggregate_metrics(&queries, &ks.to_vec());
    AggregateMetrics {
        recall_at_k: parts.recall_at_k.iter().map(|(k, v)| (*k, mean(v).to_bits())).collect(),
        mrr: mean(&parts.reciprocal_ranks).to_bits(),
        ndcg_at_k: parts.ndcg_at_k.iter().map(|(k, v)| (*k, mean(v).to_bits())).collect(),
        query_count: parts.query_count,
    }
}

fn is_regression(now: &EvalRun, prev: &EvalRun, threshold: f64) -> bool {
    regression_pairs(now, prev).iter().any(|(n, p)| {
        let (n, p) = (f64::from_bits(*n), f64::from_bits(*p));
        n.is_finite() && p - n > threshold
    })
}

fn report(run: &EvalRun, previous: Option<&EvalRun>, use_color: bool, threshold: f64) -> String {
    let texts: Vec<MetricText> = report_pairs(run, previous)
        .iter()
        .map(|(now, before)| {
            let now = f64::from_bits(*now);
            MetricText {
                value: format!("{now:.3}"),
                change: before.map(|b| {
                    let d = now - f64::from_bits(b);
                    ChangeText {
                        negligible: d.abs() < 1e-9,
                        up: d > 0.0,
                        worse: d < -threshold,
                        better: d > threshold,
                        size: format!("{:.3}", d.abs()),
                    }
                }),
            }
        })
        .collect();
    let queries: Vec<QueryText> = query_pairs(run, previous)
        .iter()
        .map(|(now, before)| {
            let now = f64::from_bits(*now);
            let before = before.map(f64::from_bits);
            QueryText {
                zero: now == 0.0,
                dropped: before.is_some_and(|b| b - now > threshold),
                now: format!("{now:.2}"),
                before: before.map(|b| format!("{b:.2}")),
            }
        })
        .collect();
    format_text(run, previous, &texts, &queries, use_color)
}

fn hit(rank: usize, path: &str, heading: Option<&str>) -> HitRecord {
    HitRecord {
        rank,
        path: path.into(),
        heading: heading.map(|s| s.into()),
        score_bits: 1.0f32.to_bits(),
    }
}

fn exp(path: &str, heading: Option<&str>) -> ExpectedHit {
    ExpectedHit { path: path.into(), heading: heading.map(|s| s.into()) }
}

#[test]
fn test_types_compile() {
    let _ = ExpectedHit { path: "x".into(), heading: None };
}

#[test]
fn test_is_hit_path_only() {
    assert!(is_hit(&exp("a.md", None), &hit(1, "a.md", Some("H1"))));
    assert!(!is_hit(&exp("a.md", None), &hit(1, "b.md", Some("H1"))));
}

#[test]
fn test_is_hit_heading_match_case_and_whitespace() {
    assert!(is_hit(
        &exp("a.md", Some("Data Flow")),
        &hit(1, "a.md", Some("  data flow "))
    ));
}

#[test]
fn test_is_hit_heading_mismatch() {
    assert!(!is_hit(&exp("a.md", Some("X")), &hit(1, "a.md", Some("Y"))));
    assert!(!is_hit(&exp("a.md", Some("X")), &hit(1, "a.md", None)));
}

#[test]
fn test_recall_at_k_all_hit() {
    let expected = vec![exp("a.md", None), exp("b.md", None)];
    let top = vec![
        hit(1, "a.md", None),
        hit(2, "b.md", None),
        hit(3, "c.md", None),
    ];
    assert!((recall_at_k(&expected, &top, 5) - 1.0).abs() < 1e-9);
}

#[test]
fn test_recall_at_k_partial_within_k() {
    let expected = vec![exp("a.md", None), exp("b.md", None)];
    let top = vec![
        hit(1, "a.md", None),
        hit(2, "x.md", None),
        hit(3, "b.md", None),
    ];
    assert!((recall_at_k(&expected, &top, 2) - 0.5).abs() < 1e-9);
}

#[test]
fn test_recall_at_k_no_expected_is_nan_sentinel() {
    let top = vec![hit(1, "a.md", None)];
    assert_eq!(recall_at_k(&[], &top, 5), 0.0);
}

#[test]
fn test_recall_at_k_empty_top() {
    let expected = vec![exp("a.md", None)];
    assert_eq!(recall_at_k(&expected, &[], 5), 0.0);
}

#[test]
fn test_reciprocal_rank_first_hit() {
    let expected = vec![exp("a.md", None)];
    let top = vec![
        hit(1, "x.md", None),
        hit(2, "a.md", None),
        hit(3, "b.md", None),
    ];
    assert!((reciprocal_rank(&expected, &top) - 0.5).abs() < 1e-9);
}

#[test]
fn test_reciprocal_rank_no_hit() {
    let expected = vec![exp("a.md", None)];
    let top = vec![hit(1, "x.md", None)];
    assert_eq!(reciprocal_rank(&expected, &top), 0.0);
}

#[test]
fn test_reciprocal_rank_empty() {
    assert_eq!(reciprocal_rank(&[], &[]), 0.0);
}

#[test]
fn test_reciprocal_rank_rank_zero_returns_zero_not_inf() {
    let expected = vec![exp("a.md", None)];
    let top = vec![hit(0, "a.md", None)];
    let r = reciprocal_rank(&expected, &top);
    assert_eq!(r, 0.0);
    assert!(r.is_finite());
}

#[test]
fn test_ndcg_ideal_order() {
    let expected = vec![exp("a.md", None), exp("b.md", None)];
    let top = vec![
        hit(1, "a.md", None),
        hit(2, "b.md", None),
        hit(3, "x.md", None),
    ];
    assert!((ndcg_at_k(&expected, &top, 5) - 1.0).abs() < 1e-9);
}

#[test]
fn test_ndcg_reversed() {
    let expected = vec![exp("a.md", None), exp("b.md", None)];
    let top = vec![
        hit(1, "x.md", None),
        hit(2, "a.md", None),
        hit(3, "b.md", None),
    ];
    let score = ndcg_at_k(&expected, &top, 5);
    assert!(
        score > 0.0 && score < 1.0,
        "expected 0<score<1, got {score}"
    );
}

#[test]
fn test_ndcg_no_hit() {
    let expected = vec![exp("a.md", None)];
    let top = vec![hit(1, "x.md", None), hit(2, "y.md", None)];
    assert_eq!(ndcg_at_k(&expected, &top, 5), 0.0);
}

#[test]
fn test_ndcg_empty_expected() {
    let top = vec![hit(1, "a.md", None)];
    assert_eq!(ndcg_at_k(&[], &top, 5), 0.0);
}

#[test]
fn test_ndcg_multi_chunk_per_expected_capped_at_one() {
    let expected = vec![exp("docs/X.md", None)];
    let top = vec![
        hit(1, "docs/X.md", Some("Section A")),
        hit(2, "docs/X.md", Some("Section B")),
        hit(3, "docs/X.md", Some("Section C")),
        hit(4, "other.md", None),
        hit(5, "other2.md", None),
    ];
    let score = ndcg_at_k(&expected, &top, 10);
    assert!(score <= 1.0 + 1e-9, "nDCG must not exceed 1.0, got {score}");
    assert!(
        (score - 1.0).abs() < 1e-9,
        "expected exactly 1.0, got {score}"
    );
}

#[test]
fn test_ndcg_two_expected_one_with_multiple_chunk_hits() {
    let expected = vec![exp("a.md", None), exp("b.md", None)];
    let top = vec![
        hit(1, "a.md", Some("Intro")),
        hit(2, "a.md", Some("Body")),
        hit(3, "b.md", Some("Concl")),
        hit(4, "x.md", None),
    ];
    let score = ndcg_at_k(&expected, &top, 5);
    assert!(score <= 1.0 + 1e-9, "nDCG must not exceed 1.0, got {score}");
}

#[test]
fn test_compute_query_metrics() {
    let expected = vec![exp("a.md", None), exp("b.md", None)];
    let top = vec![
        hit(1, "a.md", None),
        hit(2, "x.md", None),
        hit(3, "b.md", None),
    ];
    let m = metrics(&expected, &top, &[1, 3, 5]);
    assert!((f64::from_bits(m.recall_at_k[&1]) - 0.5).abs() < 1e-9);
    assert!((f64::from_bits(m.recall_at_k[&3]) - 1.0).abs() < 1e-9);
    assert!((f64::from_bits(m.reciprocal_rank) - 1.0).abs() < 1e-9);
    let ndcg3 = f64::from_bits(m.ndcg_at_k[&3]);
    assert!(ndcg3 > 0.7 && ndcg3 < 1.0, "ndcg@3 = {ndcg3}");
}

fn query(id: &str, expected: Vec<ExpectedHit>, top_k: Vec<HitRecord>, ks: &[usize]) -> QueryResult {
    QueryResult {
        id: id.into(),
        query: format!("q{id}"),
        metrics: metrics(&expected, &top_k, ks),
        expected,
        top_k,
    }
}

#[test]
fn test_aggregate_metrics_mean() {
    let q1 = query("1", vec![exp("a.md", None)], vec![hit(1, "a.md", None)], &[1, 5]);
    let q2 = query("2", vec![exp("b.md", None)], vec![hit(1, "x.md", None)], &[1, 5]);
    let agg = aggregate(vec![q1, q2], &[1, 5]);
    assert!((f64::from_bits(agg.recall_at_k[&1]) - 0.5).abs() < 1e-9);
    assert!((f64::from_bits(agg.mrr) - 0.5).abs() < 1e-9);
    assert_eq!(agg.query_count, 2);
}

#[test]
fn test_aggregate_metrics_skips_empty_expected() {
    let q_empty = query("e", vec![], vec![hit(1, "a.md", None)], &[1]);
    let q_ok = query("o", vec![exp("a.md", None)], vec![hit(1, "a.md", None)], &[1]);
    let agg = aggregate(vec![q_empty, q_ok], &[1]);
    assert_eq!(agg.query_count, 1);
    assert!((f64::from_bits(agg.recall_at_k[&1]) - 1.0).abs() < 1e-9);
}

fn fingerprint(model: &str, k_values: Vec<usize>, golden_hash: &str) -> ConfigFingerprint {
    ConfigFingerprint {
        model: model.into(),
        reranker: None,
        limit: 10,
        k_values,
        golden_hash: golden_hash.into(),
        mmr: None,
        parent_retriever: None,
    }
}

fn run_of(timestamp: &str, fingerprint: ConfigFingerprint, aggregate: AggregateMetrics) -> EvalRun {
    EvalRun { timestamp: timestamp.into(), fingerprint, per_query: vec![], aggregate }
}

#[test]
fn test_history_push_front_truncates_to_size() {
    let mut h = History::default();
    for i in 0..15 {
        let run = run_of(
            &format!("{i}"),
            fingerprint("bge-m3", vec![1, 5, 10], "deadbeef"),
            AggregateMetrics::default(),
        );
        h.push_front(run, 10);
    }
    assert_eq!(h.runs.len(), 10);
    assert_eq!(h.runs.front().unwrap().timestamp, "14");
    assert_eq!(h.previous().unwrap().timestamp, "14");
    assert_eq!(h.runs.back().unwrap().timestamp, "5");
}

#[test]
fn test_format_text_single_run_has_aggregate_header() {
    let mut agg = AggregateMetrics::default();
    agg.recall_at_k.insert(1, 0.5f64.to_bits());
    agg.recall_at_k.insert(5, 0.8f64.to_bits());
    agg.ndcg_at_k.insert(5, 0.7f64.to_bits());
    agg.mrr = 0.6f64.to_bits();
    agg.query_count = 2;
    let run = run_of("now", fingerprint("bge-m3", vec![1, 5], "h"), agg);
    let out = report(&run, None, false, 0.05);
    assert!(out.contains("model: bge-m3"));
    assert!(out.contains("queries: 2"));
    assert!(out.contains("recall@1"));
    assert!(out.contains("recall@5"));
    assert!(out.contains("MRR"));
    assert!(out.contains("nDCG@5"));
    assert!(!out.contains("previous run"));
    assert_eq!(
        out,
        "kb-mcp eval — now\n  model: bge-m3    reranker: none    limit: 10    queries: 2\n\n\
         Aggregate\n  recall@1   0.500\n  recall@5   0.800\n  MRR        0.600\n  nDCG@5     0.700\n"
    );
}

#[test]
fn test_format_text_diff_arrows() {
    let fp = fingerprint("m", vec![5], "h");
    let mut a_now = AggregateMetrics::default();
    a_now.recall_at_k.insert(5, 0.8f64.to_bits());
    a_now.ndcg_at_k.insert(5, 0.7f64.to_bits());
    a_now.query_count = 1;
    let mut a_prev = AggregateMetrics::default();
    a_prev.recall_at_k.insert(5, 0.6f64.to_bits());
    a_prev.ndcg_at_k.insert(5, 0.7f64.to_bits());
    a_prev.query_count = 1;
    let now = run_of("t2", fp.clone(), a_now);
    let prev = run_of("t1", fp, a_prev);
    let out = report(&now, Some(&prev), false, 0.05);
    assert!(out.contains("↑") || out.contains("0.200"));
    assert!(out.contains("previous run"));
    assert!(out.contains("Aggregate (previous run: t1)\n"));
    assert!(out.contains("  recall@5   0.800  (↑ 0.200)\n"));
    let nothing = format!("  nDCG@5     0.700  (— {:>6})\n", "");
    assert!(out.contains(&nothing), "{out}");
}

#[test]
fn test_format_text_fingerprint_mismatch_shows_warning() {
    let mut agg = AggregateMetrics::default();
    agg.recall_at_k.insert(5, 0.8f64.to_bits());
    agg.query_count = 1;
    let now = run_of("t2", fingerprint("m", vec![5], "AAA"), agg.clone());
    let prev = run_of("t1", fingerprint("m", vec![5], "BBB"), agg);
    let out = report(&now, Some(&prev), false, 0.05);
    assert!(out.contains("golden changed"));
    assert!(!diff_enabled(&now, Some(&prev)));
    assert!(!diff_enabled(&now, None));
}

#[test]
fn misses_and_drops_are_listed() {
    let ks = vec![5];
    let found = vec![hit(1, "a.md", None)];
    let miss = vec![hit(1, "x.md", None)];
    let mut now = run_of("t2", fingerprint("m", ks.clone(), "h"), AggregateMetrics::default());
    now.per_query = vec![
        query("good", vec![exp("a.md", None)], found.clone(), &ks),
        query("half", vec![exp("a.md", None), exp("b.md", None)], found.clone(), &ks),
        query("bad", vec![exp("a.md", None)], miss, &ks),
        query("open", vec![], found.clone(), &ks),
    ];
    let mut prev = run_of("t1", fingerprint("m", ks.clone(), "h"), AggregateMetrics::default());
    let both = vec![hit(1, "a.md", None), hit(2, "b.md", None)];
    prev.per_query =
        vec![query("half", vec![exp("a.md", None), exp("b.md", None)], both, &ks)];
    let out = report(&now, Some(&prev), true, 0.05);
    assert!(out.contains("Per-query (regressions and misses, 3 of 4)\n"), "{out}");
    assert!(out.contains(&format!("  ↓ {:<24} recall@5: 1.00 → 0.50\n", "half")), "{out}");
    assert!(out.contains(&format!("  ✗ {:<24} recall@5: 0.00\n", "bad")), "{out}");
    assert!(out.contains(&format!("  ✗ {:<24} recall@5: 0.00\n", "open")), "{out}");
    assert!(!out.contains("good"), "{out}");
}

#[test]
fn changes_are_coloured() {
    let change = |up: bool, worse: bool, better: bool| {
        Some(ChangeText { negligible: false, up, worse, better, size: "0.100".to_string() })
    };
    assert_eq!(render_diff(&None, true), "");
    assert_eq!(render_diff(&change(true, false, true), true), "  (\x1b[32m↑ 0.100\x1b[0m)");
    assert_eq!(render_diff(&change(false, true, false), true), "  (\x1b[31m↓ 0.100\x1b[0m)");
    assert_eq!(render_diff(&change(false, false, false), true), "  (\x1b[90m↓ 0.100\x1b[0m)");
    assert_eq!(render_diff(&change(false, true, false), false), "  (↓ 0.100)");
}

fn synthetic_run(
    recall: BTreeMap<usize, u64>,
    mrr: f64,
    ndcg: BTreeMap<usize, u64>,
    golden_hash: &str,
) -> EvalRun {
    let k_values = recall.keys().copied().collect();
    run_of(
        "now",
        fingerprint("bge-small-en-v1.5", k_values, golden_hash),
        AggregateMetrics {
            recall_at_k: recall,
            mrr: mrr.to_bits(),
            ndcg_at_k: ndcg,
            query_count: 0,
        },
    )
}

fn map_one(k: usize, v: f64) -> BTreeMap<usize, u64> {
    let mut m = BTreeMap::new();
    m.insert(k, v.to_bits());
    m
}

#[test]
fn test_is_regression_improvement_returns_false() {
    let prev = synthetic_run(map_one(5, 0.7), 0.6, map_one(10, 0.5), "h");
    let now = synthetic_run(map_one(5, 0.8), 0.7, map_one(10, 0.6), "h");
    assert!(!is_regression(&now, &prev, 0.05));
}

#[test]
fn test_is_regression_no_change_returns_false() {
    let prev = synthetic_run(map_one(5, 0.7), 0.6, map_one(10, 0.5), "h");
    let now = synthetic_run(map_one(5, 0.7), 0.6, map_one(10, 0.5), "h");
    assert!(!is_regression(&now, &prev, 0.05));
}

#[test]
fn test_is_regression_within_threshold_returns_false() {
    let prev = synthetic_run(map_one(5, 0.7), 0.6, map_one(10, 0.5), "h");
    let now = synthetic_run(map_one(5, 0.66), 0.6, map_one(10, 0.5), "h");
    assert!(!is_regression(&now, &prev, 0.05));
}

#[test]
fn test_is_regression_recall_drop_returns_true() {
    let prev = synthetic_run(map_one(5, 0.8), 0.6, map_one(10, 0.5), "h");
    let now = synthetic_run(map_one(5, 0.6), 0.6, map_one(10, 0.5), "h");
    assert!(is_regression(&now, &prev, 0.05));
}

#[test]
fn test_is_regression_mrr_drop_returns_true() {
    let prev = synthetic_run(map_one(5, 0.7), 0.9, map_one(10, 0.5), "h");
    let now = synthetic_run(map_one(5, 0.7), 0.8, map_one(10, 0.5), "h");
    assert!(is_regression(&now, &prev, 0.05));
}

#[test]
fn test_is_regression_ndcg_drop_returns_true() {
    let prev = synthetic_run(map_one(5, 0.7), 0.6, map_one(10, 0.9), "h");
    let now = synthetic_run(map_one(5, 0.7), 0.6, map_one(10, 0.7), "h");
    assert!(is_regression(&now, &prev, 0.05));
}

#[test]
fn test_is_regression_non_finite_returns_false() {
    let prev = synthetic_run(map_one(5, f64::NAN), 0.6, map_one(10, 0.5), "h");
    let now = synthetic_run(map_one(5, 0.0), 0.6, map_one(10, 0.5), "h");
    assert!(!is_regression(&now, &prev, 0.05));
}

#[test]
fn test_previous_compatible_matching_fingerprint() {
    let mut h = History::default();
    let prev = synthetic_run(map_one(5, 0.7), 0.6, map_one(10, 0.5), "golden_xyz");
    let now = synthetic_run(map_one(5, 0.6), 0.6, map_one(10, 0.5), "golden_xyz");
    h.push_front(prev, 10);
    assert!(h.previous_compatible(&now).is_some());
}

#[test]
fn test_previous_compatible_mismatched_fingerprint_returns_none() {
    let mut h = History::default();
    let prev = synthetic_run(map_one(5, 0.9), 0.9, map_one(10, 0.9), "golden_OLD");
    let now = synthetic_run(map_one(5, 0.5), 0.5, map_one(10, 0.5), "golden_NEW");
    h.push_front(prev, 10);
    assert!(h.previous_compatible(&now).is_none());
}

fn search_config(document: &str) -> Config {
    let value: toml::Value = toml::from_str(document).unwrap();
    let mut s = SearchConfig::default();
    let get = |section: &str, key: &str| {
        value
            .get("search")
            .and_then(|t| t.get(section))
            .and_then(|t| t.get(key))
            .cloned()
    };
    let number = |section: &str, key: &str| {
        get(section, key).map(|v| (v.as_float().unwrap() as f32).to_bits())
    };
    if let Some(b) = get("mmr", "enabled") {
        s.mmr.enabled = b.as_bool().unwrap();
    }
    if let Some(x) = number("mmr", "lambda") {
        s.mmr.lambda_bits = x;
    }
    if let Some(x) = number("mmr", "same_doc_penalty") {
        s.mmr.same_doc_penalty_bits = x;
    }
    if let Some(b) = get("parent_retriever", "enabled") {
        s.parent_retriever.enabled = b.as_bool().unwrap();
    }
    if let Some(n) = get("parent_retriever", "whole_doc_threshold_tokens") {
        s.parent_retriever.whole_doc_threshold_tokens = n.as_integer().unwrap() as u32;
    }
    if let Some(n) = get("parent_retriever", "max_expanded_tokens") {
        s.parent_retriever.max_expanded_tokens = n.as_integer().unwrap() as u32;
    }
    Config { search: Some(s), ..Config::default() }
}

fn fingerprint_of(document: &str) -> ConfigFingerprint {
    ConfigFingerprint::from_config(
        &search_config(document),
        "bge-m3".to_string(),
        None,
        10,
        vec![1, 5, 10],
        "deadbeef".to_string(),
    )
}

#[test]
fn test_fingerprint_mmr_off_serializes_as_none() {
    let fp = fingerprint_of(
        r#"
[search.mmr]
enabled = false
"#,
    );
    assert!(fp.mmr.is_none());
}

#[test]
fn test_fingerprint_mmr_on_serializes_as_some() {
    let fp = fingerprint_of(
        r#"
[search.mmr]
enabled = true
lambda = 0.5
same_doc_penalty = 0.1
"#,
    );
    let mmr = fp.mmr.expect("mmr should be Some");
    assert!((f32::from_bits(mmr.lambda_bits) - 0.5).abs() < 1e-6);
    assert!((f32::from_bits(mmr.same_doc_penalty_bits) - 0.1).abs() < 1e-6);
}

#[test]
fn test_fingerprint_parent_retriever_off_serializes_as_none() {
    let fp = fingerprint_of(
        r#"
[search.parent_retriever]
enabled = false
"#,
    );
    assert!(fp.parent_retriever.is_none());
}

#[test]
fn test_fingerprint_parent_retriever_on_serializes_as_some() {
    let fp = fingerprint_of(
        r#"
[search.parent_retriever]
enabled = true
whole_doc_threshold_tokens = 50
max_expanded_tokens = 1500
"#,
    );
    let p = fp.parent_retriever.expect("parent_retriever should be Some");
    assert_eq!(p.whole_doc_threshold_tokens, 50);
    assert_eq!(p.max_expanded_tokens, 1500);
}

#[test]
fn fingerprints_compare_numbers_as_numbers() {
    let with = |lambda: f32, penalty: f32| ConfigFingerprint {
        mmr: Some(MmrFingerprint {
            lambda_bits: lambda.to_bits(),
            same_doc_penalty_bits: penalty.to_bits(),
        }),
        ..fingerprint("m", vec![1], "h")
    };
    assert!(with(0.5, 0.0).same(&with(0.5, -0.0)));
    assert!(!with(0.5, 0.0).same(&with(0.6, 0.0)));
    assert!(!with(0.5, 0.0).same(&fingerprint("m", vec![1], "h")));
    assert!(!with(f32::NAN, 0.0).same(&with(f32::NAN, 0.0)));
    let plain = fingerprint("m", vec![1], "h");
    assert!(plain.same(&plain.clone()));
    assert!(!plain.same(&ConfigFingerprint { limit: 11, ..plain.clone() }));
    assert!(!plain.same(&ConfigFingerprint { k_values: vec![1, 2], ..plain.clone() }));
    assert!(!plain.same(&ConfigFingerprint { reranker: Some("r".into()), ..plain.clone() }));
    let parent = ParentRetrieverFingerprint { whole_doc_threshold_tokens: 1, max_expanded_tokens: 2 };
    assert!(!plain.same(&ConfigFingerprint { parent_retriever: Some(parent), ..plain.clone() }));
}

fn opts() -> RunOpts {
    RunOpts {
        kb_path: "/kb".into(),
        golden_path: "/g.yml".into(),
        model_choice: ModelChoice::BgeM3,
        reranker_choice: RerankerChoice::BgeBase,
        k_values: vec![1, 5],
        limit: 5,
        write_history: true,
        history_size: 10,
        regression_threshold_bits: 0.05f64.to_bits(),
        overrides: SearchOverrides::default(),
        search_config: SearchConfig::default(),
    }
}

#[test]
fn a_run_is_known_by_what_it_did() {
    let fp = ConfigFingerprint::of_run(&opts(), "hash");
    assert_eq!(fp.model, "bge-m3");
    assert_eq!(fp.reranker.as_deref(), Some("bge-reranker-base"));
    assert_eq!(fp.limit, 5);
    assert_eq!(fp.k_values, vec![1, 5]);
    assert_eq!(fp.golden_hash, "hash");
    assert!(fp.mmr.is_none() && fp.parent_retriever.is_none());
    let flagged = RunOpts {
        reranker_choice: RerankerChoice::Disabled,
        overrides: SearchOverrides {
            mmr: Some(true),
            mmr_lambda_bits: Some(0.25f32.to_bits()),
            ..SearchOverrides::default()
        },
        ..opts()
    };
    let fp = ConfigFingerprint::of_run(&flagged, "hash");
    assert_eq!(fp.reranker, None);
    assert_eq!(fp.mmr.unwrap().lambda_bits, 0.25f32.to_bits());
    assert_eq!(fp.mmr.unwrap().same_doc_penalty_bits, 0);
}

#[test]
fn hits_are_ranked_and_judged() {
    let found: Vec<FoundHit> = ["x.md", "a.md"]
        .iter()
        .map(|p| FoundHit { path: p.to_string(), heading: None, score_bits: 0 })
        .collect();
    let ranked = rank_hits(&found);
    assert_eq!(ranked[0].rank, 1);
    assert_eq!(ranked[1].rank, 2);
    assert_eq!(ranked[1].path, "a.md");
    let q = GoldenQuery {
        id: None,
        query: "a question that is longer than thirty-two characters".to_string(),
        expected: vec![exp("a.md", None)],
        tags: None,
    };
    assert_eq!(query_id(&q), "a question that is longer than t");
    let r = evaluate_query(&q, &found, &vec![1, 2]);
    assert_eq!(r.id, query_id(&q));
    assert_eq!(ratio(r.scores.recall_at_k[&1]), 0.0);
    assert_eq!(ratio(r.scores.recall_at_k[&2]), 1.0);
    assert_eq!(ratio(r.scores.reciprocal_rank), 0.5);
    assert_eq!(r.scores.ndcg_at_k[&2].hit_ranks, vec![2]);
    let named = GoldenQuery { id: Some("q1".to_string()), ..q };
    assert_eq!(query_id(&named), "q1");
}

#[test]
fn cut_offs_and_limits_have_their_defaults() {
    assert_eq!(resolve_k_values(None, None), vec![1, 5, 10]);
    assert_eq!(resolve_k_values(None, Some(vec![3])), vec![3]);
    assert_eq!(resolve_k_values(Some(vec![7]), Some(vec![3])), vec![7]);
    assert_eq!(default_limit(&vec![1, 20, 5]), 20);
    assert_eq!(default_limit(&vec![]), 10);
    assert_eq!(default_limit(&vec![0x1_0000_0003]), 3);
    assert_eq!(fetch_count(&vec![1, 5], 3), 5);
    assert_eq!(fetch_count(&vec![1, 5], 30), 30);
    assert_eq!(fetch_count(&vec![], 3), 10);
    assert_eq!(default_history_path("/kb"), "/kb/.kb-mcp-eval-history.json");
    assert_eq!(
        no_index_message("/x/.kb-mcp.db", "/x/kb"),
        "No index found at /x/.kb-mcp.db. Run `kb-mcp index --kb-path /x/kb` first."
    );
    assert_eq!(normalize_heading("  Ärger Ω "), "ärger ω");
}

#[test]
fn bytes_are_hashed() {
    assert_eq!(
        GoldenSet::hash_bytes(b""),
        "e3b0c44298fc1c149afbf4c8996fb92427ae41e4649b934ca495991b7852b855"
    );
    assert_ne!(GoldenSet::hash_bytes(b"a"), GoldenSet::hash_bytes(b"b"));
}

#[test]
fn a_run_with_a_number_that_is_not_finite_is_not_comparable() {
    let now = synthetic_run(map_one(5, 0.1), 0.1, map_one(10, 0.1), "h");
    for bad in [f64::NAN, f64::INFINITY, f64::NEG_INFINITY] {
        let prev = synthetic_run(map_one(5, bad), 0.9, map_one(10, 0.9), "h");
        assert!(regression_pairs(&now, &prev).is_empty());
        assert!(!is_regression(&now, &prev, 0.05));
        let prev = synthetic_run(map_one(5, 0.9), bad, map_one(10, 0.9), "h");
        assert!(regression_pairs(&now, &prev).is_empty());
        let prev = synthetic_run(map_one(5, 0.9), 0.9, map_one(10, bad), "h");
        assert!(regression_pairs(&now, &prev).is_empty());
    }
    let prev = synthetic_run(map_one(5, -0.0), 0.9, map_one(10, 0.9), "h");
    assert_eq!(regression_pairs(&now, &prev).len(), 3);
}

/// Expected hits, hits and cut-offs, spread over what may come.
fn spread() -> Vec<(Vec<ExpectedHit>, Vec<HitRecord>, usize)> {
    let names = ["a.md", "bb.md", "ccc.md", "dddd.md"];
    let headings = [None, Some("A"), Some("BB")];
    let mut out = Vec::new();
    let mut seed: u64 = 7;
    for case in 0..256 {
        let mut next = |n: u64| {
            seed = seed.wrapping_mul(6364136223846793005).wrapping_add(1442695040888963407);
            ((seed >> 33) % n) as usize
        };
        let mut expected = Vec::new();
        for _ in 0..next(6) {
            expected.push(exp(names[next(4)], headings[next(3)]));
        }
        let mut top = Vec::new();
        for i in 0..next(12) {
            top.push(hit(i + 1, names[next(4)], headings[next(3)]));
        }
        out.push((expected, top, case % 15));
    }
    out
}

#[test]
fn prop_recall_at_k_in_unit_range() {
    for (expected, top, k) in spread() {
        let score = recall_at_k(&expected, &top, k);
        assert!(score.is_finite() && (0.0..=1.0).contains(&score), "recall@{k} = {score}");
    }
}

#[test]
fn prop_ndcg_at_k_in_unit_range() {
    for (expected, top, k) in spread() {
        let score = ndcg_at_k(&expected, &top, k);
        assert!(score.is_finite() && (0.0..=1.0).contains(&score), "nDCG@{k} = {score}");
    }
}

#[test]
fn prop_reciprocal_rank_in_unit_range() {
    for (expected, top, _) in spread() {
        let score = reciprocal_rank(&expected, &top);
        assert!(score.is_finite() && (0.0..=1.0).contains(&score), "RR = {score}");
    }
}

#[test]
fn ndcg_is_capped_where_the_sums_exceed_one() {
    let expected = vec![exp("a.md", None), exp("a.md", Some("Intro"))];
    let at = |rank: usize| {
        let mut top: Vec<HitRecord> = (1..rank).map(|r| hit(r, "x.md", None)).collect();
        top.push(hit(rank, "a.md", Some("Intro")));
        top
    };
    let terms = kb_mcp::eval::ndcg_at_k(&expected, &at(1), 5);
    assert_eq!(terms.hit_ranks, vec![1, 1]);
    assert_eq!(terms.ideal_count, 2);
    assert_eq!(ndcg_at_k(&expected, &at(1), 5), 1.0);
    // below the cap the formula stands
    let third = ndcg_at_k(&expected, &at(3), 5);
    assert!((third - 1.0 / (1.0 + 1.0 / 3f64.log2())).abs() < 1e-9, "{third}");
    assert!((third - 0.613).abs() < 1e-3, "{third}");
    // a rank of 0 is worth more than any sum
    assert_eq!(ndcg_at_k(&expected, &[hit(0, "a.md", None)], 5), 1.0);
    let bits = |a: f64, b: f64| f64::from_bits(cap_gain(a.to_bits(), b.to_bits()));
    assert_eq!(bits(2.0, 1.5), 1.5);
    assert_eq!(bits(1.0, 1.5), 1.0);
    assert_eq!(bits(f64::INFINITY, 1.5), 1.5);
    assert_eq!(bits(0.0, 1.5), 0.0);
}

#[test]
fn the_report_without_its_colours_is_the_plain_one() {
    let mut now = synthetic_run(map_one(5, 0.1), 0.9, map_one(5, 0.5), "h");
    let mut prev = synthetic_run(map_one(5, 0.9), 0.1, map_one(5, 0.51), "h");
    now.fingerprint.k_values = vec![5];
    prev.fingerprint.k_values = vec![5];
    let coloured = report(&now, Some(&prev), true, 0.05);
    let plain = report(&now, Some(&prev), false, 0.05);
    assert!(coloured.contains('\x1b'));
    assert!(!plain.contains('\x1b'));
    let mut bare = coloured;
    for code in ["\x1b[31m", "\x1b[32m", "\x1b[90m", "\x1b[0m"] {
        bare = bare.replace(code, "");
    }
    assert_eq!(bare, plain);
}

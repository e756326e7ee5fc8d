use kb_mcp::ieee;
use kb_mcp::quality::{
    clamp, is_boilerplate_only, passes_quality_filter, resolve_effective_threshold,
    QualityFilterConfig, DEFAULT_QUALITY_THRESHOLD_BITS,
};

fn chunk_quality_score(heading: Option<&str>, content: &str) -> f32 {
    f32::from_bits(kb_mcp::quality::chunk_quality_score(heading, content))
}

fn passes(score: f32, threshold: f32) -> bool {
    passes_quality_filter(score.to_bits(), threshold.to_bits())
}

fn effective(include_low: bool, min: Option<f32>, default: f32) -> f32 {
    f32::from_bits(resolve_effective_threshold(
        include_low,
        min.map(f32::to_bits),
        default.to_bits(),
    ))
}

fn config(enabled: bool, threshold: f32) -> QualityFilterConfig {
    QualityFilterConfig { enabled, threshold_bits: threshold.to_bits() }
}

#[test]
fn test_score_normal_rich_content_is_high() {
    let content = "これは十分な長さを持つ通常のチャンク本文です。\n\
                   複数行にわたり、定型語ではなく具体的な情報を含み、\n\
                   技術的な詳細も書かれています。文字数は 100 を軽く超えます。\n\
                   よって品質スコアは最大値の 1.0 になるはずです。";
    let score = chunk_quality_score(Some("Overview"), content);
    assert!((score - 1.0).abs() < 1e-5, "got {score}");
}

#[test]
fn test_score_very_short_content_drops_by_length() {
    let score = chunk_quality_score(None, "短い本文。");
    assert!(score < 0.2, "got {score}");
}

#[test]
fn test_score_boilerplate_only_is_near_zero() {
    let score = chunk_quality_score(None, "TBD");
    assert_eq!(score, 0.0);
    let score = chunk_quality_score(None, "TODO。");
    assert_eq!(score, 0.0);
    let score = chunk_quality_score(None, "詳細は後述");
    assert_eq!(score, 0.0);
}

#[test]
fn test_score_boilerplate_case_insensitive() {
    let score = chunk_quality_score(None, "todo");
    assert_eq!(score, 0.0);
}

#[test]
fn test_score_structure_only_deduction() {
    let content = "これはちょうど三十文字を少しだけ超える程度の説明文で、改行はない。";
    let score = chunk_quality_score(None, content);
    assert!(
        (score - 0.7).abs() < 1e-5,
        "structure-only deduction should be 0.7, got {score}"
    );
}

#[test]
fn test_score_long_single_line_no_penalty() {
    let content: String = "あ".repeat(100);
    let score = chunk_quality_score(None, &content);
    assert!((score - 1.0).abs() < 1e-5, "got {score}");
}

#[test]
fn test_score_long_boilerplate_sentence_not_penalized_for_boilerplate() {
    let content = "TBD について議論した結果をまとめる、今後の課題も含めて十分な文字数を確保した本文。\n\
                   さらに後続の段落を付け加えることで、構造減点も回避できる長さの文章となっている。\n\
                   すなわち定型語の部分一致ヒットは起きないことを確認したい。";
    let score = chunk_quality_score(None, content);
    assert!(
        (score - 1.0).abs() < 1e-5,
        "boilerplate partial-match should not deduct: got {score}"
    );
}

#[test]
fn test_score_empty_content() {
    let score = chunk_quality_score(None, "");
    assert!((score - 0.1).abs() < 1e-5, "got {score}");
}

#[test]
fn test_passes_quality_filter_threshold_zero_always_true() {
    assert!(passes(0.0, 0.0));
    assert!(passes(0.1, 0.0));
    assert!(passes(1.0, 0.0));
    assert!(passes(0.0, -0.5));
}

#[test]
fn test_passes_quality_filter_above_and_below() {
    assert!(passes(0.3, 0.3), "equal must pass");
    assert!(passes(0.31, 0.3));
    assert!(!passes(0.29, 0.3));
}

#[test]
fn test_resolve_effective_threshold_priority_order() {
    assert_eq!(
        effective(true, Some(0.8), 0.5),
        0.0,
        "include_low_quality must override min_quality + default"
    );
    assert_eq!(effective(true, None, 0.5), 0.0);
    assert_eq!(effective(false, Some(0.7), 0.3), 0.7);
    assert_eq!(effective(false, Some(1.5), 0.3), 1.0);
    assert_eq!(effective(false, Some(-0.1), 0.3), 0.0);
    assert_eq!(effective(false, None, 0.3), 0.3);
}

#[test]
fn test_resolve_effective_threshold_nan_falls_back_to_default() {
    assert_eq!(effective(false, Some(f32::NAN), 0.42), 0.42);
    assert_eq!(effective(false, Some(f32::INFINITY), 0.42), 0.42);
    assert_eq!(effective(false, Some(f32::NEG_INFINITY), 0.42), 0.42);
    assert_eq!(effective(true, Some(f32::NAN), 0.42), 0.0);
}

#[test]
fn test_config_default() {
    let c = QualityFilterConfig::default();
    assert!(c.enabled);
    assert_eq!(c.threshold_bits, DEFAULT_QUALITY_THRESHOLD_BITS);
    assert_eq!(DEFAULT_QUALITY_THRESHOLD_BITS, 0.3f32.to_bits());
}

#[test]
fn test_config_effective_threshold_disabled() {
    assert_eq!(f32::from_bits(config(false, 0.9).effective_threshold()), 0.0);
}

#[test]
fn test_config_effective_threshold_clamps() {
    assert_eq!(f32::from_bits(config(true, 1.5).effective_threshold()), 1.0);
    assert_eq!(f32::from_bits(config(true, -0.5).effective_threshold()), 0.0);
}

#[test]
fn scores_are_what_single_precision_gives() {
    let short = 0.6f32;
    let placeholder = 0.5f32;
    let unstructured = 0.3f32;
    // a short chunk of two lines
    assert_eq!(chunk_quality_score(None, "a\nb"), 1.0 - short);
    // a short line
    assert_eq!(chunk_quality_score(None, "a"), 1.0 - short - unstructured);
    // a line of middle length
    assert_eq!(chunk_quality_score(None, &"a".repeat(30)), 1.0 - unstructured);
    assert_eq!(chunk_quality_score(None, &"a".repeat(79)), 1.0 - unstructured);
    assert_eq!(chunk_quality_score(None, &"a".repeat(80)), 1.0);
    // a long placeholder, made so by marks behind it
    let marked = format!("TBD{}", ".".repeat(40));
    assert_eq!(chunk_quality_score(None, &marked), 1.0 - placeholder - unstructured);
    let longer = format!("TBD{}", ".".repeat(90));
    assert_eq!(chunk_quality_score(None, &longer), 1.0 - placeholder);
    assert!(is_boilerplate_only("  coming SOON. "));
    assert!(!is_boilerplate_only("...") && !is_boilerplate_only("TBD or not"));
}

#[test]
fn comparisons_by_bits_agree_with_the_machine() {
    let samples = [
        f32::NEG_INFINITY,
        -1.5,
        -f32::MIN_POSITIVE,
        -0.0,
        0.0,
        f32::from_bits(1),
        f32::MIN_POSITIVE,
        0.3,
        0.7,
        1.0,
        1.0000001,
        2.0,
        f32::MAX,
        f32::INFINITY,
        f32::NAN,
        -f32::NAN,
    ];
    for a in samples {
        assert_eq!(ieee::is_finite(a.to_bits()), a.is_finite(), "{a}");
        assert_eq!(ieee::in_unit_range(a.to_bits()), (0.0..=1.0).contains(&a), "{a}");
        if !a.is_nan() {
            assert_eq!(f32::from_bits(clamp(a.to_bits())), a.clamp(0.0, 1.0), "{a}");
        }
        for b in samples {
            assert_eq!(ieee::less(a.to_bits(), b.to_bits()), a < b, "{a} < {b}");
            assert_eq!(ieee::at_most(a.to_bits(), b.to_bits()), a <= b, "{a} <= {b}");
            assert_eq!(ieee::equal(a.to_bits(), b.to_bits()), a == b, "{a} == {b}");
            assert_eq!(passes(a, b), b <= 0.0 || a >= b, "{a} passes {b}");
        }
    }
}

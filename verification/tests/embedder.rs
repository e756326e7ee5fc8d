use kb_mcp::embedder::{
    apply_rerank, resolve_cache_dir, ModelChoice, RerankScore, RerankerChoice, Reranked,
};

#[test]
fn test_model_choice_values() {
    assert_eq!(ModelChoice::BgeSmallEnV15.model_id(), "bge-small-en-v1.5");
    assert_eq!(ModelChoice::BgeSmallEnV15.dimension(), 384);
    assert_eq!(ModelChoice::BgeM3.model_id(), "bge-m3");
    assert_eq!(ModelChoice::BgeM3.dimension(), 1024);
    assert_eq!(ModelChoice::default(), ModelChoice::BgeSmallEnV15);
}

#[test]
fn test_model_choice_batch_size_is_smaller_for_large_model() {
    assert!(
        ModelChoice::BgeM3.batch_size() < ModelChoice::BgeSmallEnV15.batch_size(),
        "BGE-M3 batch must be smaller than BGE-small-en-v1.5 batch"
    );
    assert!(ModelChoice::BgeM3.batch_size() > 0);
}

#[test]
fn test_reranker_choice_values() {
    assert!(!RerankerChoice::Disabled.is_enabled());
    assert!(RerankerChoice::BgeV2M3.is_enabled());
    assert!(RerankerChoice::JinaV2Multilingual.is_enabled());
    assert!(RerankerChoice::BgeBase.is_enabled());
    assert_eq!(RerankerChoice::default(), RerankerChoice::Disabled);
    assert_eq!(RerankerChoice::BgeV2M3.model_id(), "bge-reranker-v2-m3");
    assert_eq!(RerankerChoice::BgeV2M3.approx_download_mb(), 2300);
}

#[test]
fn test_reranker_value_enum_tag_matches_bench_arg() {
    assert_eq!(RerankerChoice::from_name("bge-v2-m3"), Some(RerankerChoice::BgeV2M3));
    assert_eq!(RerankerChoice::from_name("bge-reranker-v2-m3"), None);
    assert_eq!(RerankerChoice::from_name("bge-base"), Some(RerankerChoice::BgeBase));
    assert_eq!(
        RerankerChoice::from_name("jina-v2-ml"),
        Some(RerankerChoice::JinaV2Multilingual)
    );
    assert_eq!(RerankerChoice::from_name("none"), Some(RerankerChoice::Disabled));
}

#[test]
fn models_are_known_by_name() {
    assert_eq!(ModelChoice::from_name("bge-m3"), Some(ModelChoice::BgeM3));
    assert_eq!(ModelChoice::from_name("bge-small-en-v1.5"), Some(ModelChoice::BgeSmallEnV15));
    assert_eq!(ModelChoice::from_name("BGE-M3"), None);
    assert_eq!(ModelChoice::BgeSmallEnV15.approx_download_mb(), 130);
    assert_eq!(ModelChoice::BgeM3.approx_download_mb(), 2300);
    assert_eq!(ModelChoice::BgeM3.batch_size(), 32);
    assert_eq!(RerankerChoice::Disabled.model_id(), "none");
    assert_eq!(RerankerChoice::Disabled.approx_download_mb(), 0);
    assert_eq!(RerankerChoice::JinaV2Multilingual.approx_download_mb(), 1200);
    assert_eq!(RerankerChoice::BgeBase.model_id(), "bge-reranker-base");
    assert_eq!(RerankerChoice::BgeBase.approx_download_mb(), 280);
}

#[test]
fn models_are_kept_where_the_environment_says() {
    assert_eq!(resolve_cache_dir(Some("/env".to_string()), Some("/cache")), "/env");
    assert_eq!(resolve_cache_dir(None, Some("/cache")), "/cache/fastembed");
    assert_eq!(resolve_cache_dir(None, None), ".fastembed_cache");
}

fn score(index: usize, value: f32) -> RerankScore {
    RerankScore { index, score_bits: value.to_bits() }
}

#[test]
fn reranking_puts_the_best_first() {
    let ids = vec![10, 20, 30];
    let scores = vec![score(2, 0.9), score(7, 0.8), score(0, 0.5), score(1, 0.1)];
    let all: Vec<i64> = apply_rerank(&ids, &scores, 10).iter().map(|r: &Reranked| r.chunk_id).collect();
    assert_eq!(all, vec![30, 10, 20]);
    // an index beyond the candidates takes up one of the places
    let two = apply_rerank(&ids, &scores, 2);
    assert_eq!(two.len(), 1);
    assert_eq!(two[0].chunk_id, 30);
    assert_eq!(two[0].score_bits, 0.9f32.to_bits());
    assert!(apply_rerank(&ids, &scores, 0).is_empty());
    assert!(apply_rerank(&Vec::new(), &scores, 5).is_empty());
}

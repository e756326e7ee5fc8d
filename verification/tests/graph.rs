use kb_mcp::graph::{
    clamp_depth, clamp_fan_out, make_snippet, Candidate, ChunkInfo, ConnectionGraph, GraphAction,
    GraphBuilder, GraphError, GraphOptions, SeedStrategy, SNIPPET_MAX_CHARS,
};

const DIM: usize = 384;

struct Stored {
    info: ChunkInfo,
    embedding: Vec<f32>,
}

struct Index {
    chunks: Vec<Stored>,
}

fn setup_db() -> Index {
    Index { chunks: Vec::new() }
}

fn insert_chunk(db: &mut Index, path: &str, heading: &str, content: &str, val: f32) {
    let info = ChunkInfo {
        chunk_id: db.chunks.len() as i64 + 1,
        path: path.to_string(),
        heading: Some(heading.to_string()),
        title: Some(heading.to_string()),
        topic: None,
        content: content.to_string(),
    };
    db.chunks.push(Stored { info, embedding: vec![val; DIM] });
}

fn distance(a: &[f32], b: &[f32]) -> f32 {
    a.iter().zip(b).map(|(x, y)| (x - y) * (x - y)).sum::<f32>().sqrt()
}

fn distance_to_cos_sim(distance: f32) -> f32 {
    (1.0 - (distance * distance) / 2.0).clamp(0.0, 1.0)
}

impl Index {
    fn nearest(&self, embedding: &[f32], k: u32) -> Vec<Candidate> {
        let mut all: Vec<(f32, &Stored)> =
            self.chunks.iter().map(|c| (distance(embedding, &c.embedding), c)).collect();
        all.sort_by(|a, b| a.0.partial_cmp(&b.0).unwrap());
        all.into_iter()
            .take(k as usize)
            .map(|(d, c)| Candidate {
                chunk: c.info.clone(),
                score_bits: distance_to_cos_sim(d).to_bits(),
            })
            .collect()
    }
}

fn build(db: &Index, start: &str, opts: &GraphOptions) -> Result<ConnectionGraph, GraphError> {
    let seeds: Vec<&Stored> = db.chunks.iter().filter(|c| c.info.path == start).collect();
    let infos: Vec<ChunkInfo> = seeds.iter().map(|c| c.info.clone()).collect();
    let mut builder = GraphBuilder::new(start, &infos, opts.clone())?;
    let mut embeddings: Vec<Vec<f32>> = match opts.seed_strategy {
        SeedStrategy::AllChunks => seeds.iter().map(|c| c.embedding.clone()).collect(),
        SeedStrategy::Centroid => {
            let mut sum = vec![0f32; DIM];
            for s in &seeds {
                for (i, v) in s.embedding.iter().enumerate() {
                    sum[i] += *v;
                }
            }
            vec![sum.iter().map(|v| v / seeds.len() as f32).collect()]
        }
    };
    loop {
        match builder.next_action() {
            GraphAction::Done => break,
            GraphAction::Search { parent_id, fetch_k, .. } => {
                builder.found(db.nearest(&embeddings[parent_id], fetch_k));
            }
            GraphAction::Fetch { chunk_id } => {
                match db.chunks.iter().find(|c| c.info.chunk_id == chunk_id) {
                    Some(c) => {
                        embeddings.push(c.embedding.clone());
                        builder.fetched(true);
                    }
                    None => builder.fetched(false),
                }
            }
        }
    }
    Ok(builder.finish(0))
}

fn options(depth: u32, fan_out: u32, min_similarity: f32) -> GraphOptions {
    GraphOptions {
        depth,
        fan_out,
        min_similarity_bits: min_similarity.to_bits(),
        ..Default::default()
    }
}

#[test]
fn test_graph_start_path_not_found() {
    let db = setup_db();
    let err = build(&db, "does/not/exist.md", &GraphOptions::default()).expect_err("must fail");
    assert!(err.message().contains("document not found"));
}

#[test]
fn test_graph_two_hop_bfs() {
    let mut db = setup_db();
    insert_chunk(&mut db, "s.md", "seed", "seed body", 0.10);
    insert_chunk(&mut db, "a1.md", "a1", "a1 body", 0.11);
    insert_chunk(&mut db, "a2.md", "a2", "a2 body", 0.12);
    insert_chunk(&mut db, "a3.md", "a3", "a3 body", 0.13);
    insert_chunk(&mut db, "b1.md", "b1", "b1 body", 0.111);

    let g = build(&db, "s.md", &options(2, 3, 0.0)).unwrap();
    assert!(g.nodes.len() >= 5, "got {} nodes", g.nodes.len());
    assert_eq!(g.nodes[0].depth, 0);
    assert_eq!(g.nodes[0].parent_id, None);
    assert_eq!(g.nodes[0].path, "s.md");
    assert_eq!(f32::from_bits(g.nodes[0].score_bits), 1.0);
    let dup = g
        .nodes
        .iter()
        .filter(|n| n.path == "s.md" && n.depth > 0)
        .count();
    assert_eq!(dup, 0, "start path must not reappear at depth>0");
    for n in g.nodes.iter().filter(|n| n.depth > 0) {
        let pid = n.parent_id.expect("non-seed has parent");
        assert!(pid < g.nodes.len(), "parent_id out of range");
    }
    assert!(g.stats.max_depth_reached >= 1);
    assert!(g.stats.knn_queries >= 1);
}

#[test]
fn test_graph_respects_depth_limit() {
    let mut db = setup_db();
    insert_chunk(&mut db, "s.md", "s", "s body", 0.10);
    insert_chunk(&mut db, "a.md", "a", "a body", 0.11);
    insert_chunk(&mut db, "b.md", "b", "b body", 0.111);

    let g = build(&db, "s.md", &options(1, 5, 0.0)).unwrap();
    for n in &g.nodes {
        assert!(n.depth <= 1, "depth must not exceed 1, got {}", n.depth);
    }
    assert_eq!(g.stats.max_depth_reached, 1);
}

#[test]
fn test_graph_dedupes_visited() {
    let mut db = setup_db();
    insert_chunk(&mut db, "s.md", "s", "s body", 0.10);
    insert_chunk(&mut db, "a.md", "a", "a body", 0.11);
    insert_chunk(&mut db, "b.md", "b", "b body", 0.12);

    let g = build(&db, "s.md", &options(3, 5, 0.0)).unwrap();
    let mut chunk_ids: Vec<i64> = g.nodes.iter().map(|n| n.chunk_id).collect();
    chunk_ids.sort();
    let unique_len = {
        let mut c = chunk_ids.clone();
        c.dedup();
        c.len()
    };
    assert_eq!(
        chunk_ids.len(),
        unique_len,
        "chunk ids must be unique across nodes"
    );
}

#[test]
fn test_graph_respects_min_similarity() {
    let mut db = setup_db();
    insert_chunk(&mut db, "s.md", "s", "s body", 0.0);
    insert_chunk(&mut db, "close.md", "c", "c body", 0.001);
    insert_chunk(&mut db, "far.md", "f", "f body", 0.5);

    let g = build(&db, "s.md", &options(1, 10, 0.9)).unwrap();
    assert!(
        !g.nodes.iter().any(|n| n.path == "far.md"),
        "far.md should be pruned by min_similarity"
    );
    assert!(g.nodes.iter().any(|n| n.path == "close.md"));
}

#[test]
fn test_graph_fan_out_limit() {
    let mut db = setup_db();
    insert_chunk(&mut db, "s.md", "s", "s body", 0.0);
    for i in 1..=10 {
        insert_chunk(&mut db, &format!("a{i}.md"), "a", "a body", 0.001 * i as f32);
    }
    let g = build(&db, "s.md", &options(1, 3, 0.0)).unwrap();
    assert!(g.nodes.len() <= 4, "got {}", g.nodes.len());
    assert_eq!(g.nodes.len(), 4);
}

#[test]
fn test_graph_excludes_paths() {
    let mut db = setup_db();
    insert_chunk(&mut db, "s.md", "s", "s body", 0.0);
    insert_chunk(&mut db, "blocked.md", "b", "b body", 0.001);
    insert_chunk(&mut db, "allowed.md", "a", "a body", 0.002);

    let opts = GraphOptions {
        exclude_paths: vec!["blocked.md".into()],
        ..options(1, 5, 0.0)
    };
    let g = build(&db, "s.md", &opts).unwrap();
    assert!(!g.nodes.iter().any(|n| n.path == "blocked.md"));
    assert!(g.nodes.iter().any(|n| n.path == "allowed.md"));
}

#[test]
fn test_graph_snippet_is_truncated() {
    let mut db = setup_db();
    insert_chunk(&mut db, "s.md", "s", &"x".repeat(500), 0.0);

    let g = build(&db, "s.md", &options(0, 1, 0.0)).unwrap();
    assert_eq!(g.nodes.len(), 1);
    assert!(g.nodes[0].snippet.ends_with('…'));
    assert!(g.nodes[0].snippet.chars().count() <= SNIPPET_MAX_CHARS + 1);
}

#[test]
fn test_graph_centroid_seed_single_node() {
    let mut db = setup_db();
    insert_chunk(&mut db, "s.md", "h1", "c1", 0.0);
    insert_chunk(&mut db, "s.md", "h2", "c2", 0.1);
    insert_chunk(&mut db, "x.md", "x", "x", 0.05);

    let opts = GraphOptions {
        seed_strategy: SeedStrategy::Centroid,
        ..options(1, 3, 0.0)
    };
    let g = build(&db, "s.md", &opts).unwrap();
    let seed_count = g.nodes.iter().filter(|n| n.depth == 0).count();
    assert_eq!(seed_count, 1, "centroid seed should be exactly 1 node");
    assert_eq!(g.nodes[0].chunk_id, 1);
    assert_eq!(g.nodes.len(), 2);
}

#[test]
fn test_graph_fan_out_zero_returns_seeds_only() {
    let mut db = setup_db();
    insert_chunk(&mut db, "s.md", "s", "s body", 0.0);
    insert_chunk(&mut db, "a.md", "a", "a body", 0.01);
    let g = build(&db, "s.md", &options(2, 0, 0.0)).unwrap();
    assert_eq!(
        g.nodes.len(),
        1,
        "only seed should be present when fan_out=0"
    );
    assert_eq!(g.stats.knn_queries, 0);
    assert_eq!(g.stats.max_depth_reached, 0);
}

#[test]
fn test_graph_dedup_by_path_collapses_same_doc_chunks() {
    let mut db = setup_db();
    insert_chunk(&mut db, "s.md", "s", "s body", 0.0);
    insert_chunk(&mut db, "a.md", "h1", "c1", 0.001);
    insert_chunk(&mut db, "a.md", "h2", "c2", 0.002);

    let dedup = GraphOptions { dedup_by_path: true, ..options(1, 5, 0.0) };
    let g = build(&db, "s.md", &dedup).unwrap();
    let a_count = g.nodes.iter().filter(|n| n.path == "a.md").count();
    assert_eq!(a_count, 1, "dedup_by_path=true should collapse a.md");

    let g = build(&db, "s.md", &options(1, 5, 0.0)).unwrap();
    let a_count = g.nodes.iter().filter(|n| n.path == "a.md").count();
    assert!(
        a_count >= 2,
        "dedup_by_path=false should allow multiple chunks from a.md, got {a_count}"
    );
}

#[test]
fn test_distance_to_cos_sim_clamps() {
    assert!((distance_to_cos_sim(0.0) - 1.0).abs() < 1e-6);
    let orth = distance_to_cos_sim(2f32.sqrt());
    assert!(orth.abs() < 1e-6, "got {orth}");
    assert_eq!(distance_to_cos_sim(100.0), 0.0);
}

#[test]
fn a_chunk_without_an_embedding_is_passed_over() {
    let mut b = GraphBuilder::new(
        "s.md",
        &vec![ChunkInfo {
            chunk_id: 1,
            path: "s.md".to_string(),
            heading: None,
            title: None,
            topic: None,
            content: String::new(),
        }],
        options(1, 2, 0.0),
    )
    .unwrap();
    let candidate = |id: i64, path: &str| Candidate {
        chunk: ChunkInfo {
            chunk_id: id,
            path: path.to_string(),
            heading: None,
            title: None,
            topic: None,
            content: String::new(),
        },
        score_bits: 0.5f32.to_bits(),
    };
    assert_eq!(b.next_action(), GraphAction::Search { parent_id: 0, depth: 0, fetch_k: 4 });
    b.found(vec![candidate(2, "a.md"), candidate(3, "b.md"), candidate(3, "b.md")]);
    assert_eq!(b.next_action(), GraphAction::Fetch { chunk_id: 2 });
    b.fetched(false);
    assert_eq!(b.next_action(), GraphAction::Fetch { chunk_id: 3 });
    b.fetched(true);
    assert_eq!(b.next_action(), GraphAction::Done);
    let g = b.finish(17);
    assert_eq!(g.stats.total_nodes, 2);
    assert_eq!(g.stats.duration_ms, 17);
    assert_eq!(g.stats.knn_queries, 1);
    assert_eq!(g.nodes[1].parent_id, Some(0));
}

#[test]
fn limits_and_snippets() {
    assert_eq!(clamp_depth(2), 2);
    assert_eq!(clamp_depth(9), 3);
    assert_eq!(clamp_fan_out(20), 20);
    assert_eq!(clamp_fan_out(99), 20);
    assert_eq!(make_snippet("short"), "short");
    let exact: String = "あ".repeat(SNIPPET_MAX_CHARS);
    assert_eq!(make_snippet(&exact), exact);
    assert_eq!(make_snippet(&format!("{exact}い")), format!("{exact}…"));
}

#[test]
fn each_node_above_the_greatest_depth_is_searched_from_once() {
    let mut db = setup_db();
    for (i, path) in ["s.md", "a.md", "b.md", "c.md", "d.md", "e.md"].iter().enumerate() {
        insert_chunk(&mut db, path, path, "body", 0.1 + 0.01 * i as f32);
    }
    let g = build(&db, "s.md", &options(2, 2, 0.0)).unwrap();
    let above = g.nodes.iter().filter(|n| n.depth < 2).count();
    assert_eq!(above, 3);
    assert_eq!(g.stats.knn_queries, 3);
    assert!(g.nodes.len() > above);
}

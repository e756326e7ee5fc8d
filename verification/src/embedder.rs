//! The models that texts are embedded and reranked with.
use vstd::prelude::*;

use crate::path;
use crate::text;

verus! {

/// The embedding models.
#[derive(Debug, Clone, Copy, PartialEq, Eq, Structural)]
pub enum ModelChoice {
    /// BAAI/bge-small-en-v1.5: 384 dimensions, English.
    BgeSmallEnV15,
    /// BAAI/bge-m3: 1024 dimensions, multilingual.
    BgeM3,
}

impl Default for ModelChoice {
    fn default() -> (r: Self)
        ensures
            r == ModelChoice::BgeSmallEnV15,
    {
        ModelChoice::BgeSmallEnV15
    }
}

impl ModelChoice {
    /// The model's name in an index.
    pub open spec fn id(self) -> Seq<char> {
        match self {
            ModelChoice::BgeSmallEnV15 => "bge-small-en-v1.5"@,
            ModelChoice::BgeM3 => "bge-m3"@,
        }
    }

    /// The model's name in an index.
    pub fn model_id(self) -> (r: &'static str)
        ensures
            r@ == self.id(),
    {
        match self {
            ModelChoice::BgeSmallEnV15 => "bge-small-en-v1.5",
            ModelChoice::BgeM3 => "bge-m3",
        }
    }

    /// The number of dimensions of an embedding.
    pub fn dimension(self) -> (r: usize)
        ensures
            r == match self {
                ModelChoice::BgeSmallEnV15 => 384usize,
                ModelChoice::BgeM3 => 1024usize,
            },
    {
        match self {
            ModelChoice::BgeSmallEnV15 => 384,
            ModelChoice::BgeM3 => 1024,
        }
    }

    /// About how many megabytes the first use downloads.
    pub fn approx_download_mb(self) -> (r: u32)
        ensures
            r == match self {
                ModelChoice::BgeSmallEnV15 => 130u32,
                ModelChoice::BgeM3 => 2300u32,
            },
    {
        match self {
            ModelChoice::BgeSmallEnV15 => 130,
            ModelChoice::BgeM3 => 2300,
        }
    }

    /// How many texts to embed at once: fewer for a model that needs more memory for each.
    pub fn batch_size(self) -> (r: usize)
        ensures
            r == match self {
                ModelChoice::BgeSmallEnV15 => 256usize,
                ModelChoice::BgeM3 => 32usize,
            },
    {
        match self {
            ModelChoice::BgeSmallEnV15 => 256,
            ModelChoice::BgeM3 => 32,
        }
    }

    /// The model with a given name on the command line or in the configuration.
    pub fn from_name(name: &str) -> (r: Option<ModelChoice>)
        ensures
            r == if name@ == "bge-small-en-v1.5"@ {
                Some(ModelChoice::BgeSmallEnV15)
            } else if name@ == "bge-m3"@ {
                Some(ModelChoice::BgeM3)
            } else {
                None
            },
    {
        if *name == *"bge-small-en-v1.5" {
            Some(ModelChoice::BgeSmallEnV15)
        } else if *name == *"bge-m3" {
            Some(ModelChoice::BgeM3)
        } else {
            None
        }
    }
}

/// The directory that models are kept in: the one that the environment names, else one below
/// the system's directory for such files, else one in the working directory.
pub fn resolve_cache_dir(from_env: Option<String>, system: Option<&str>) -> (r: String)
    ensures
        r@ == match (from_env, system) {
            (Some(dir), _) => dir@,
            (None, Some(base)) => path::join_spec(base@, "fastembed"@),
            (None, None) => ".fastembed_cache"@,
        },
{
    match from_env {
        Some(dir) => dir,
        None => match system {
            Some(base) => path::join(base, "fastembed"),
            None => text::copy(".fastembed_cache"),
        },
    }
}

/// The rerankers, and the choice of none.
#[derive(Debug, Clone, Copy, PartialEq, Eq, Structural)]
pub enum RerankerChoice {
    /// Results stay in the order in which the search gives them.
    Disabled,
    /// BAAI/bge-reranker-v2-m3, multilingual.
    BgeV2M3,
    /// jinaai/jina-reranker-v2-base-multilingual, lighter and multilingual.
    JinaV2Multilingual,
    /// BAAI/bge-reranker-base, English and Chinese.
    BgeBase,
}

impl Default for RerankerChoice {
    fn default() -> (r: Self)
        ensures
            r == RerankerChoice::Disabled,
    {
        RerankerChoice::Disabled
    }
}

impl RerankerChoice {
    /// The model's name.
    pub open spec fn id(self) -> Seq<char> {
        match self {
            RerankerChoice::Disabled => "none"@,
            RerankerChoice::BgeV2M3 => "bge-reranker-v2-m3"@,
            RerankerChoice::JinaV2Multilingual => "jina-reranker-v2-base-multilingual"@,
            RerankerChoice::BgeBase => "bge-reranker-base"@,
        }
    }

    /// The model's name.
    pub fn model_id(self) -> (r: &'static str)
        ensures
            r@ == self.id(),
    {
        match self {
            RerankerChoice::Disabled => "none",
            RerankerChoice::BgeV2M3 => "bge-reranker-v2-m3",
            RerankerChoice::JinaV2Multilingual => "jina-reranker-v2-base-multilingual",
            RerankerChoice::BgeBase => "bge-reranker-base",
        }
    }

    /// Whether results are reranked.
    pub fn is_enabled(self) -> (r: bool)
        ensures
            r == (self != RerankerChoice::Disabled),
    {
        match self {
            RerankerChoice::Disabled => false,
            _ => true,
        }
    }

    /// About how many megabytes the first use downloads.
    pub fn approx_download_mb(self) -> (r: u32)
        ensures
            r == match self {
                RerankerChoice::Disabled => 0u32,
                RerankerChoice::BgeV2M3 => 2300u32,
                RerankerChoice::JinaV2Multilingual => 1200u32,
                RerankerChoice::BgeBase => 280u32,
            },
    {
        match self {
            RerankerChoice::Disabled => 0,
            RerankerChoice::BgeV2M3 => 2300,
            RerankerChoice::JinaV2Multilingual => 1200,
            RerankerChoice::BgeBase => 280,
        }
    }

    /// The reranker with a given name on the command line or in the configuration.
    pub fn from_name(name: &str) -> (r: Option<RerankerChoice>)
        ensures
            r == if name@ == "none"@ {
                Some(RerankerChoice::Disabled)
            } else if name@ == "bge-v2-m3"@ {
                Some(RerankerChoice::BgeV2M3)
            } else if name@ == "jina-v2-ml"@ {
                Some(RerankerChoice::JinaV2Multilingual)
            } else if name@ == "bge-base"@ {
                Some(RerankerChoice::BgeBase)
            } else {
                None
            },
    {
        if *name == *"none" {
            Some(RerankerChoice::Disabled)
        } else if *name == *"bge-v2-m3" {
            Some(RerankerChoice::BgeV2M3)
        } else if *name == *"jina-v2-ml" {
            Some(RerankerChoice::JinaV2Multilingual)
        } else if *name == *"bge-base" {
            Some(RerankerChoice::BgeBase)
        } else {
            None
        }
    }
}

/// A result of a reranking model: which of the candidates, and its new score as the bits of a
/// single-precision number.
#[derive(Debug, Clone, Copy, PartialEq, Eq, Structural)]
pub struct RerankScore {
    pub index: usize,
    pub score_bits: u32,
}

/// A candidate that is kept: its chunk, its place among the candidates, and its new score.
#[derive(Debug, Clone, Copy, PartialEq, Eq, Structural)]
pub struct Reranked {
    pub chunk_id: i64,
    pub index: usize,
    pub score_bits: u32,
}

/// The candidates in the order of the model's results. A result that names no candidate gives
/// none.
pub open spec fn reranked(ids: Seq<i64>, scores: Seq<RerankScore>) -> Seq<Reranked>
    decreases scores.len(),
{
    if scores.len() == 0 {
        seq![]
    } else {
        let rest = reranked(ids, scores.drop_last());
        let s = scores.last();
        if s.index < ids.len() {
            rest.push(
                Reranked {
                    chunk_id: ids[s.index as int],
                    index: s.index,
                    score_bits: s.score_bits,
                },
            )
        } else {
            rest
        }
    }
}

/// The first `limit` results.
pub open spec fn first(scores: Seq<RerankScore>, limit: nat) -> Seq<RerankScore> {
    if limit < scores.len() {
        scores.take(limit as int)
    } else {
        scores
    }
}

/// Puts candidates into the order of a reranking model's results, of which the best come first,
/// and keeps the best `limit`.
pub fn apply_rerank(ids: &Vec<i64>, scores: &Vec<RerankScore>, limit: u32) -> (r: Vec<Reranked>)
    ensures
        r@ == reranked(ids@, first(scores@, limit as nat)),
{
    let n: usize = if (limit as usize) < scores.len() {
        limit as usize
    } else {
        scores.len()
    };
    let ghost kept = first(scores@, limit as nat);
    assert(kept =~= scores@.take(n as int));
    let mut out: Vec<Reranked> = Vec::new();
    let mut i: usize = 0;
    assert(out@ =~= reranked(ids@, kept.take(0)));
    while i < n
        invariant
            i <= n <= scores@.len(),
            kept == scores@.take(n as int),
            out@ == reranked(ids@, kept.take(i as int)),
        decreases n - i,
    {
        assert(kept.take(i + 1).drop_last() =~= kept.take(i as int));
        let s = scores[i];
        if s.index < ids.len() {
            out.push(
                Reranked { chunk_id: ids[s.index], index: s.index, score_bits: s.score_bits },
            );
        }
        i += 1;
    }
    assert(kept.take(i as int) =~= kept);
    out
}

/// Reranking gives the candidates that the model's best results name, as many as asked for and in
/// the model's order, each with the score that the model gave it.
pub proof fn reranking_keeps_the_order_of_the_model(
    ids: Seq<i64>,
    scores: Seq<RerankScore>,
    limit: nat,
)
    ensures
        reranked(ids, first(scores, limit)) == scores.take(
            if limit < scores.len() {
                limit as int
            } else {
                scores.len() as int
            },
        ).filter(|s: RerankScore| s.index < ids.len()).map_values(
            |s: RerankScore|
                Reranked {
                    chunk_id: ids[s.index as int],
                    index: s.index,
                    score_bits: s.score_bits,
                },
        ),
{
    assert(scores.take(scores.len() as int) =~= scores);
    results_in_order(ids, first(scores, limit));
}

proof fn results_in_order(ids: Seq<i64>, scores: Seq<RerankScore>)
    ensures
        reranked(ids, scores) == scores.filter(|s: RerankScore| s.index < ids.len()).map_values(
            |s: RerankScore|
                Reranked {
                    chunk_id: ids[s.index as int],
                    index: s.index,
                    score_bits: s.score_bits,
                },
        ),
    decreases scores.len(),
{
    reveal(Seq::filter);
    if scores.len() > 0 {
        results_in_order(ids, scores.drop_last());
    }
    assert(reranked(ids, scores) =~= scores.filter(
        |s: RerankScore| s.index < ids.len(),
    ).map_values(
        |s: RerankScore|
            Reranked { chunk_id: ids[s.index as int], index: s.index, score_bits: s.score_bits },
    ));
}

/// The models, and the rerankers, have names that tell them apart.
pub proof fn names_tell_models_apart(a: ModelChoice, b: ModelChoice)
    ensures
        a.id() == b.id() ==> a == b,
{
    reveal_strlit("bge-small-en-v1.5");
    reveal_strlit("bge-m3");
    assert("bge-small-en-v1.5"@.len() == 17);
    assert("bge-m3"@.len() == 6);
}

/// The rerankers have names that tell them apart.
pub proof fn names_tell_rerankers_apart(a: RerankerChoice, b: RerankerChoice)
    ensures
        a.id() == b.id() ==> a == b,
{
    reveal_strlit("none");
    reveal_strlit("bge-reranker-v2-m3");
    reveal_strlit("jina-reranker-v2-base-multilingual");
    reveal_strlit("bge-reranker-base");
    assert("none"@.len() == 4);
    assert("bge-reranker-v2-m3"@.len() == 18);
    assert("jina-reranker-v2-base-multilingual"@.len() == 34);
    assert("bge-reranker-base"@.len() == 17);
}

/// Reranking returns at most `limit` candidates, and only candidates it was given; exactly as
/// many as there are results, up to `limit`, where each result names a candidate.
pub proof fn reranking_keeps_to_its_candidates(
    ids: Seq<i64>,
    scores: Seq<RerankScore>,
    limit: nat,
)
    ensures
        ({
            let r = reranked(ids, first(scores, limit));
            &&& r.len() <= limit
            &&& forall|i: int|
                0 <= i < r.len() ==> (#[trigger] r[i]).index < ids.len() && r[i].chunk_id
                    == ids[r[i].index as int]
            &&& (forall|i: int| 0 <= i < scores.len() ==> (#[trigger] scores[i]).index < ids.len())
                ==> r.len() == first(scores, limit).len()
        }),
{
    candidates_only(ids, first(scores, limit));
}

proof fn candidates_only(ids: Seq<i64>, scores: Seq<RerankScore>)
    ensures
        reranked(ids, scores).len() <= scores.len(),
        forall|i: int|
            0 <= i < reranked(ids, scores).len() ==> (#[trigger] reranked(ids, scores)[i]).index
                < ids.len() && reranked(ids, scores)[i].chunk_id
                == ids[reranked(ids, scores)[i].index as int],
        (forall|i: int| 0 <= i < scores.len() ==> (#[trigger] scores[i]).index < ids.len())
            ==> reranked(ids, scores).len() == scores.len(),
    decreases scores.len(),
{
    if scores.len() > 0 {
        candidates_only(ids, scores.drop_last());
        assert(scores[scores.len() - 1] == scores.last());
    }
}

} // verus!

//! How well searching finds what it should.
//!
//! A golden set lists queries with the hits that are expected of each. This module decides what
//! counts as a hit and where it stands, keeps the history of runs, and lays out the report.
//! Metrics are fractions of two counts, or ranks and a count; what is computed from them in
//! floating point is carried here as the bits of a double-precision number and never looked
//! into. The bits 0 are the number 0.0.
use std::collections::BTreeMap;
use std::collections::VecDeque;
use vstd::prelude::*;

use crate::config::{Config, SearchConfig, SearchOverrides, or_else};
use crate::embedder::{ModelChoice, RerankerChoice};
use crate::ieee;
use crate::path;
use crate::text;

verus! {

// ---------------------------------------------------------------------------
// Golden sets
// ---------------------------------------------------------------------------
/// A hit that a query should find: a document, or a section of one.
#[derive(Debug, Clone, PartialEq)]
pub struct ExpectedHit {
    pub path: String,
    pub heading: Option<String>,
}

/// Options of a golden set.
#[derive(Debug)]
pub struct GoldenDefaults {
    pub limit: Option<u32>,
    pub rerank: Option<bool>,
}

/// A query with what it should find.
#[derive(Debug)]
pub struct GoldenQuery {
    pub id: Option<String>,
    pub query: String,
    pub expected: Vec<ExpectedHit>,
    pub tags: Option<Vec<String>>,
}

/// Queries to judge a search by.
#[derive(Debug)]
pub struct GoldenSet {
    pub defaults: Option<GoldenDefaults>,
    pub queries: Vec<GoldenQuery>,
}

/// What `sha2::Sha256` and the `{:x}` form make of some bytes: their SHA-256 digest in
/// hexadecimal.
pub uninterp spec fn sha256_hex_spec(bytes: Seq<u8>) -> Seq<char>;

/// `sha2::Sha256::digest`, in lowercase hexadecimal: two digits for each of its 32 bytes. The
/// digest is a function of the bytes; the SHA-256 algorithm is not restated here.
#[verifier::external_body]
pub(crate) fn sha256_hex(bytes: &[u8]) -> (r: String)
    ensures
        r@ == sha256_hex_spec(bytes@),
        r@.len() == 64,
{
    format!("{:x}", <sha2::Sha256 as sha2::Digest>::digest(bytes))
}

impl GoldenSet {
    /// The SHA-256 digest of a golden file, in hexadecimal.
    pub fn hash_bytes(bytes: &[u8]) -> (r: String)
        ensures
            r@ == sha256_hex_spec(bytes@),
            r@.len() == 64,
    {
        sha256_hex(bytes)
    }
}

// ---------------------------------------------------------------------------
// Hits
// ---------------------------------------------------------------------------
/// A hit of a search. Ranks count from 1.
#[derive(Debug, Clone)]
pub struct HitRecord {
    pub rank: usize,
    pub path: String,
    pub heading: Option<String>,
    /// The score, as the bits of a single-precision number.
    pub score_bits: u32,
}

/// What an [`ExpectedHit`] holds.
pub struct ExpectedModel {
    pub path: Seq<char>,
    pub heading: Option<Seq<char>>,
}

/// What a [`HitRecord`] holds.
pub struct HitModel {
    pub rank: usize,
    pub path: Seq<char>,
    pub heading: Option<Seq<char>>,
    pub score_bits: u32,
}

impl View for ExpectedHit {
    type V = ExpectedModel;

    open spec fn view(&self) -> ExpectedModel {
        ExpectedModel { path: self.path@, heading: text::opt_view(self.heading) }
    }
}

impl View for HitRecord {
    type V = HitModel;

    open spec fn view(&self) -> HitModel {
        HitModel {
            rank: self.rank,
            path: self.path@,
            heading: text::opt_view(self.heading),
            score_bits: self.score_bits,
        }
    }
}

/// The models of a list of expected hits.
pub open spec fn expected_models(v: Seq<ExpectedHit>) -> Seq<ExpectedModel> {
    Seq::new(v.len(), |i: int| v[i]@)
}

/// The models of a list of hits.
pub open spec fn hit_models(v: Seq<HitRecord>) -> Seq<HitModel> {
    Seq::new(v.len(), |i: int| v[i]@)
}

/// A heading in the form in which headings are compared: trimmed, in lower case.
pub open spec fn heading_key(s: Seq<char>) -> Seq<char> {
    text::lowercase_spec(text::trim_spec(s))
}

/// A heading in the form in which headings are compared.
pub fn normalize_heading(s: &str) -> (r: String)
    ensures
        r@ == heading_key(s@),
{
    let t = text::trim(s);
    text::lowercase(t.as_str())
}

/// Whether a hit is the expected one: the same document and, where a heading is expected, the
/// same heading. Headings are given in the form in which they are compared.
pub open spec fn agrees_spec(
    expected_path: Seq<char>,
    expected_key: Option<Seq<char>>,
    path: Seq<char>,
    key: Option<Seq<char>>,
) -> bool {
    expected_path == path && (expected_key is None || expected_key == key)
}

/// An optional heading in the form in which headings are compared.
pub open spec fn opt_key(heading: Option<Seq<char>>) -> Option<Seq<char>> {
    match heading {
        Some(h) => Some(heading_key(h)),
        None => None,
    }
}

/// Whether a hit is the expected one.
pub open spec fn is_hit_spec(expected: ExpectedModel, hit: HitModel) -> bool {
    agrees_spec(expected.path, opt_key(expected.heading), hit.path, opt_key(hit.heading))
}

/// Whether a hit is the expected one, by headings in the form in which they are compared.
pub fn agrees(
    expected_path: &str,
    expected_key: &Option<String>,
    path: &str,
    key: &Option<String>,
) -> (r: bool)
    ensures
        r == agrees_spec(
            expected_path@,
            text::opt_view(*expected_key),
            path@,
            text::opt_view(*key),
        ),
{
    if *expected_path != *path {
        return false;
    }
    match (expected_key, key) {
        (Some(e), Some(h)) => *e == *h,
        (Some(_), None) => false,
        (None, _) => true,
    }
}

fn key_of(heading: &Option<String>) -> (r: Option<String>)
    ensures
        text::opt_view(r) == opt_key(text::opt_view(*heading)),
{
    match heading {
        Some(h) => Some(normalize_heading(h.as_str())),
        None => None,
    }
}

/// Whether a hit is the expected one.
pub fn is_hit(expected: &ExpectedHit, hit: &HitRecord) -> (r: bool)
    ensures
        r == is_hit_spec(expected@, hit@),
        r <==> expected.path@ == hit.path@ && match (expected.heading, hit.heading) {
            (None, _) => true,
            (Some(_), None) => false,
            (Some(e), Some(h)) => text::lowercase_spec(text::trim_spec(e@))
                == text::lowercase_spec(text::trim_spec(h@)),
        },
{
    let e = key_of(&expected.heading);
    let h = key_of(&hit.heading);
    agrees(expected.path.as_str(), &e, hit.path.as_str(), &h)
}

/// The first `k` hits.
pub open spec fn window(top: Seq<HitModel>, k: nat) -> Seq<HitModel> {
    if k < top.len() {
        top.take(k as int)
    } else {
        top
    }
}

/// The first of the hits that is the expected one.
pub open spec fn first_hit(expected: ExpectedModel, hits: Seq<HitModel>) -> Option<HitModel>
    decreases hits.len(),
{
    if hits.len() == 0 {
        None
    } else if is_hit_spec(expected, hits[0]) {
        Some(hits[0])
    } else {
        first_hit(expected, hits.drop_first())
    }
}

/// How many of the expected hits are found.
pub open spec fn matched(expected: Seq<ExpectedModel>, hits: Seq<HitModel>) -> nat
    decreases expected.len(),
{
    if expected.len() == 0 {
        0
    } else {
        matched(expected.drop_last(), hits) + if first_hit(expected.last(), hits) is Some {
            1nat
        } else {
            0nat
        }
    }
}

/// The ranks at which the expected hits are first found, in the order in which they are
/// expected; one that is not found gives none.
pub open spec fn found_ranks(expected: Seq<ExpectedModel>, hits: Seq<HitModel>) -> Seq<usize>
    decreases expected.len(),
{
    if expected.len() == 0 {
        seq![]
    } else {
        let rest = found_ranks(expected.drop_last(), hits);
        match first_hit(expected.last(), hits) {
            Some(h) => rest.push(h.rank),
            None => rest,
        }
    }
}

/// Whether a hit is one of the expected ones.
pub open spec fn is_expected(expected: Seq<ExpectedModel>, hit: HitModel) -> bool {
    exists|i: int| 0 <= i < expected.len() && is_hit_spec(#[trigger] expected[i], hit)
}

/// The first of the hits that is one of the expected ones.
pub open spec fn first_expected(expected: Seq<ExpectedModel>, hits: Seq<HitModel>) -> Option<
    HitModel,
>
    decreases hits.len(),
{
    if hits.len() == 0 {
        None
    } else if is_expected(expected, hits[0]) {
        Some(hits[0])
    } else {
        first_expected(expected, hits.drop_first())
    }
}

/// The rank of the first of the first `n` hits that is the expected one.
fn find_hit(expected: &ExpectedHit, top: &Vec<HitRecord>, n: usize) -> (r: Option<usize>)
    requires
        n <= top@.len(),
    ensures
        match r {
            Some(rank) => first_hit(expected@, hit_models(top@).take(n as int)) matches Some(h)
                && h.rank == rank,
            None => first_hit(expected@, hit_models(top@).take(n as int)) is None,
        },
{
    let ghost hits = hit_models(top@).take(n as int);
    let mut i: usize = 0;
    assert(hits.skip(0) =~= hits);
    while i < n
        invariant
            n <= top@.len(),
            i <= n,
            hits == hit_models(top@).take(n as int),
            first_hit(expected@, hits) == first_hit(expected@, hits.skip(i as int)),
        decreases n - i,
    {
        assert(hits.skip(i as int)[0] == top@[i as int]@);
        if is_hit(expected, &top[i]) {
            return Some(top[i].rank);
        }
        assert(hits.skip(i as int).drop_first() =~= hits.skip(i + 1));
        i += 1;
    }
    None
}

/// How many of `top` are looked at for a cut-off `k`.
fn window_len(top: &Vec<HitRecord>, k: usize) -> (r: usize)
    ensures
        r <= top@.len(),
        window(hit_models(top@), k as nat) == hit_models(top@).take(r as int),
{
    if k < top.len() {
        k
    } else {
        assert(hit_models(top@) =~= hit_models(top@).take(top@.len() as int));
        top.len()
    }
}

// ---------------------------------------------------------------------------
// Metrics
// ---------------------------------------------------------------------------
/// The fraction `part / whole`. `whole` is never 0.
#[derive(Debug, Clone, Copy, PartialEq, Eq, Structural)]
pub struct Ratio {
    pub part: usize,
    pub whole: usize,
}

/// What nDCG is computed from: it is the sum of `1 / log2(rank + 1)` over the ranks of the
/// hits, divided by the same sum over the ranks `1..=ideal_count`; and 0 where that is empty. It
/// is at most 1: where the first sum is greater, it counts as much as the second ([`cap_gain`]).
#[derive(Debug, Clone)]
pub struct NdcgTerms {
    pub hit_ranks: Vec<usize>,
    pub ideal_count: usize,
}

/// recall@k: how many of the expected hits stand among the first `k`, out of how many. It is 0
/// where nothing is expected.
pub open spec fn recall_spec(expected: Seq<ExpectedModel>, top: Seq<HitModel>, k: nat) -> (
    nat,
    nat,
) {
    if expected.len() == 0 {
        (0, 1)
    } else {
        (matched(expected, window(top, k)), expected.len())
    }
}

/// recall@k: how many of the expected hits stand among the first `k`, out of how many.
pub fn recall_at_k(expected: &Vec<ExpectedHit>, top: &Vec<HitRecord>, k: usize) -> (r: Ratio)
    ensures
        (r.part as nat, r.whole as nat) == recall_spec(
            expected_models(expected@),
            hit_models(top@),
            k as nat,
        ),
        r.part <= r.whole,
        r.whole >= 1,
{
    if expected.len() == 0 {
        return Ratio { part: 0, whole: 1 };
    }
    let n: usize = window_len(top, k);
    let ghost all = expected_models(expected@);
    let ghost hits = hit_models(top@).take(n as int);
    let mut count: usize = 0;
    let mut i: usize = 0;
    while i < expected.len()
        invariant
            n <= top@.len(),
            hits == hit_models(top@).take(n as int),
            all == expected_models(expected@),
            count <= i <= expected@.len(),
            count == matched(all.take(i as int), hits),
        decreases expected@.len() - i,
    {
        assert(all.take(i + 1).drop_last() =~= all.take(i as int));
        assert(all.take(i + 1).last() == expected@[i as int]@);
        if find_hit(&expected[i], top, n).is_some() {
            count += 1;
        }
        i += 1;
    }
    assert(all.take(i as int) =~= all);
    Ratio { part: count, whole: expected.len() }
}

/// The reciprocal of the rank of the first hit that is expected; 0 where there is none, or
/// where its rank is 0.
pub open spec fn reciprocal_rank_spec(expected: Seq<ExpectedModel>, top: Seq<HitModel>) -> (
    nat,
    nat,
) {
    match first_expected(expected, top) {
        Some(h) => if h.rank == 0 {
            (0, 1)
        } else {
            (1, h.rank as nat)
        },
        None => (0, 1),
    }
}

/// The reciprocal of the rank of the first hit that is expected.
pub fn reciprocal_rank(expected: &Vec<ExpectedHit>, top: &Vec<HitRecord>) -> (r: Ratio)
    ensures
        (r.part as nat, r.whole as nat) == reciprocal_rank_spec(
            expected_models(expected@),
            hit_models(top@),
        ),
        r.part <= r.whole,
        r.whole >= 1,
{
    let ghost all = expected_models(expected@);
    let ghost hits = hit_models(top@);
    let mut i: usize = 0;
    assert(hits.skip(0) =~= hits);
    while i < top.len()
        invariant
            all == expected_models(expected@),
            hits == hit_models(top@),
            i <= top@.len(),
            first_expected(all, hits) == first_expected(all, hits.skip(i as int)),
        decreases top@.len() - i,
    {
        assert(hits.skip(i as int)[0] == top@[i as int]@);
        let mut j: usize = 0;
        while j < expected.len()
            invariant
                all == expected_models(expected@),
                hits == hit_models(top@),
                i < top@.len(),
                j <= expected@.len(),
                first_expected(all, hits) == first_expected(all, hits.skip(i as int)),
                hits.skip(i as int).len() > 0,
                hits.skip(i as int)[0] == top@[i as int]@,
                forall|m: int| 0 <= m < j ==> !is_hit_spec(#[trigger] all[m], top@[i as int]@),
            decreases expected@.len() - j,
        {
            if is_hit(&expected[j], &top[i]) {
                assert(is_hit_spec(all[j as int], top@[i as int]@));
                assert(is_expected(all, top@[i as int]@));
                let rank: usize = top[i].rank;
                if rank == 0 {
                    return Ratio { part: 0, whole: 1 };
                }
                return Ratio { part: 1, whole: rank };
            }
            assert(all[j as int] == expected@[j as int]@);
            j += 1;
        }
        assert(!is_expected(all, top@[i as int]@));
        assert(hits.skip(i as int).drop_first() =~= hits.skip(i + 1));
        i += 1;
    }
    Ratio { part: 0, whole: 1 }
}

/// What nDCG@k is computed from. Nothing, where nothing is expected, found or looked at.
pub open spec fn ndcg_spec(expected: Seq<ExpectedModel>, top: Seq<HitModel>, k: nat) -> (
    Seq<usize>,
    nat,
) {
    if expected.len() == 0 || top.len() == 0 || k == 0 {
        (seq![], 0)
    } else {
        (
            found_ranks(expected, window(top, k)),
            if expected.len() < k {
                expected.len()
            } else {
                k
            },
        )
    }
}

/// What nDCG@k is computed from: each expected hit counts once, at the rank at which it is
/// first found among the first `k`.
pub fn ndcg_at_k(expected: &Vec<ExpectedHit>, top: &Vec<HitRecord>, k: usize) -> (r: NdcgTerms)
    ensures
        (r.hit_ranks@, r.ideal_count as nat) == ndcg_spec(
            expected_models(expected@),
            hit_models(top@),
            k as nat,
        ),
        r.ideal_count <= k,
        r.ideal_count <= expected@.len(),
        r.hit_ranks@.len() <= expected@.len(),
        top@.len() > 0 ==> r.ideal_count == k || r.ideal_count == expected@.len(),
        top@.len() == 0 ==> r.ideal_count == 0 && r.hit_ranks@.len() == 0,
{
    proof {
        ndcg_ranks_each_expected_hit_once(
            expected_models(expected@),
            hit_models(top@),
            k as nat,
            0,
            0,
        );
    }
    let mut ranks: Vec<usize> = Vec::new();
    if expected.len() == 0 || top.len() == 0 || k == 0 {
        assert(ranks@ =~= seq![]);
        return NdcgTerms { hit_ranks: ranks, ideal_count: 0 };
    }
    let n: usize = window_len(top, k);
    let ghost all = expected_models(expected@);
    let ghost hits = hit_models(top@).take(n as int);
    let mut i: usize = 0;
    assert(ranks@ =~= found_ranks(all.take(0), hits));
    while i < expected.len()
        invariant
            n <= top@.len(),
            hits == hit_models(top@).take(n as int),
            all == expected_models(expected@),
            i <= expected@.len(),
            ranks@ == found_ranks(all.take(i as int), hits),
        decreases expected@.len() - i,
    {
        assert(all.take(i + 1).drop_last() =~= all.take(i as int));
        assert(all.take(i + 1).last() == expected@[i as int]@);
        if let Some(rank) = find_hit(&expected[i], top, n) {
            ranks.push(rank);
        }
        i += 1;
    }
    assert(all.take(i as int) =~= all);
    let ideal: usize = if expected.len() < k {
        expected.len()
    } else {
        k
    };
    NdcgTerms { hit_ranks: ranks, ideal_count: ideal }
}

/// What the hits are worth for nDCG, by the bits of double-precision numbers: the sum over their
/// ranks, but no more than the ideal sum.
pub fn cap_gain(found: u64, ideal: u64) -> (r: u64)
    ensures
        r == if ieee::less_64_spec(ideal, found) {
            ideal
        } else {
            found
        },
        !ieee::less_64_spec(ideal, r),
{
    if ieee::less_64(ideal, found) {
        ideal
    } else {
        found
    }
}

/// The metrics of one query: recall and nDCG for each cut-off, and the reciprocal rank.
#[derive(Debug, Clone)]
pub struct QueryScores {
    pub recall_at_k: BTreeMap<usize, Ratio>,
    pub reciprocal_rank: Ratio,
    pub ndcg_at_k: BTreeMap<usize, NdcgTerms>,
}

/// The metrics of one query for each of the cut-offs `k_values`.
pub fn compute_query_metrics(
    expected: &Vec<ExpectedHit>,
    top: &Vec<HitRecord>,
    k_values: &Vec<usize>,
) -> (r: QueryScores)
    ensures
        forall|k: usize|
            (#[trigger] r.recall_at_k@.dom().contains(k)) <==> k_values@.contains(k),
        forall|k: usize|
            (#[trigger] r.ndcg_at_k@.dom().contains(k)) <==> k_values@.contains(k),
        forall|k: usize|
            k_values@.contains(k) ==> {
                let v = #[trigger] r.recall_at_k@[k];
                (v.part as nat, v.whole as nat) == recall_spec(
                    expected_models(expected@),
                    hit_models(top@),
                    k as nat,
                )
            },
        forall|k: usize|
            k_values@.contains(k) ==> {
                let v = #[trigger] r.ndcg_at_k@[k];
                (v.hit_ranks@, v.ideal_count as nat) == ndcg_spec(
                    expected_models(expected@),
                    hit_models(top@),
                    k as nat,
                )
            },
        (r.reciprocal_rank.part as nat, r.reciprocal_rank.whole as nat) == reciprocal_rank_spec(
            expected_models(expected@),
            hit_models(top@),
        ),
{
    let mut recall: BTreeMap<usize, Ratio> = BTreeMap::new();
    let mut ndcg: BTreeMap<usize, NdcgTerms> = BTreeMap::new();
    let mut i: usize = 0;
    while i < k_values.len()
        invariant
            i <= k_values@.len(),
            forall|k: usize|
                (#[trigger] recall@.dom().contains(k)) <==> k_values@.take(i as int).contains(k),
            forall|k: usize|
                (#[trigger] ndcg@.dom().contains(k)) <==> k_values@.take(i as int).contains(k),
            forall|k: usize|
                recall@.dom().contains(k) ==> {
                    let v = #[trigger] recall@[k];
                    (v.part as nat, v.whole as nat) == recall_spec(
                        expected_models(expected@),
                        hit_models(top@),
                        k as nat,
                    )
                },
            forall|k: usize|
                ndcg@.dom().contains(k) ==> {
                    let v = #[trigger] ndcg@[k];
                    (v.hit_ranks@, v.ideal_count as nat) == ndcg_spec(
                        expected_models(expected@),
                        hit_models(top@),
                        k as nat,
                    )
                },
        decreases k_values@.len() - i,
    {
        broadcast use vstd::std_specs::btree::group_btree_axioms;

        let k: usize = k_values[i];
        let ghost before = k_values@.take(i as int);
        let ghost after = k_values@.take(i + 1);
        assert(after =~= before.push(k));
        proof {
            assert forall|x: usize| after.contains(x) <==> (before.contains(x) || x == k) by {
                if before.contains(x) {
                    let m = choose|m: int| 0 <= m < before.len() && before[m] == x;
                    assert(after[m] == x);
                }
                if x == k {
                    assert(after[i as int] == x);
                }
            }
        }
        recall.insert(k, recall_at_k(expected, top, k));
        ndcg.insert(k, ndcg_at_k(expected, top, k));
        i += 1;
    }
    assert(k_values@.take(i as int) =~= k_values@);
    QueryScores {
        recall_at_k: recall,
        reciprocal_rank: reciprocal_rank(expected, top),
        ndcg_at_k: ndcg,
    }
}

// ---------------------------------------------------------------------------
// Runs
// ---------------------------------------------------------------------------
/// The metrics of one query, as numbers.
#[derive(Debug, Clone)]
pub struct QueryMetrics {
    pub recall_at_k: BTreeMap<usize, u64>,
    pub reciprocal_rank: u64,
    pub ndcg_at_k: BTreeMap<usize, u64>,
}

/// The means of the metrics over all queries, as numbers.
#[derive(Debug, Clone)]
pub struct AggregateMetrics {
    pub recall_at_k: BTreeMap<usize, u64>,
    pub mrr: u64,
    pub ndcg_at_k: BTreeMap<usize, u64>,
    pub query_count: usize,
}

impl Default for AggregateMetrics {
    fn default() -> (r: Self)
        ensures
            r.recall_at_k@ == Map::<usize, u64>::empty(),
            r.mrr == 0,
            r.ndcg_at_k@ == Map::<usize, u64>::empty(),
            r.query_count == 0,
    {
        AggregateMetrics {
            recall_at_k: BTreeMap::new(),
            mrr: 0,
            ndcg_at_k: BTreeMap::new(),
            query_count: 0,
        }
    }
}

/// One query of a run.
#[derive(Debug, Clone)]
pub struct QueryResult {
    pub id: String,
    pub query: String,
    pub expected: Vec<ExpectedHit>,
    pub top_k: Vec<HitRecord>,
    pub metrics: QueryMetrics,
}

/// The settings of maximal marginal relevance, as the bits of single-precision numbers.
#[derive(Debug, Clone, Copy, PartialEq, Eq, Structural)]
pub struct MmrFingerprint {
    pub lambda_bits: u32,
    pub same_doc_penalty_bits: u32,
}

/// The settings of the parent retriever.
#[derive(Debug, Clone, Copy, PartialEq, Eq, Structural)]
pub struct ParentRetrieverFingerprint {
    pub whole_doc_threshold_tokens: u32,
    pub max_expanded_tokens: u32,
}

/// What the numbers of a run depend on. Only runs with equal fingerprints can be compared.
#[derive(Debug, Clone)]
pub struct ConfigFingerprint {
    pub model: String,
    pub reranker: Option<String>,
    pub limit: u32,
    pub k_values: Vec<usize>,
    pub golden_hash: String,
    /// Present only where maximal marginal relevance is on.
    pub mmr: Option<MmrFingerprint>,
    /// Present only where the parent retriever is on.
    pub parent_retriever: Option<ParentRetrieverFingerprint>,
}

/// What a [`ConfigFingerprint`] holds.
pub struct FingerprintModel {
    pub model: Seq<char>,
    pub reranker: Option<Seq<char>>,
    pub limit: u32,
    pub k_values: Seq<usize>,
    pub golden_hash: Seq<char>,
    pub mmr: Option<MmrFingerprint>,
    pub parent_retriever: Option<ParentRetrieverFingerprint>,
}

impl FingerprintModel {
    /// Whether two fingerprints are the same. Numbers are compared as numbers.
    pub open spec fn agrees(self, other: FingerprintModel) -> bool {
        &&& self.model == other.model
        &&& self.reranker == other.reranker
        &&& self.limit == other.limit
        &&& self.k_values == other.k_values
        &&& self.golden_hash == other.golden_hash
        &&& match (self.mmr, other.mmr) {
            (Some(a), Some(b)) => ieee::equal_spec(a.lambda_bits, b.lambda_bits)
                && ieee::equal_spec(a.same_doc_penalty_bits, b.same_doc_penalty_bits),
            (None, None) => true,
            _ => false,
        }
        &&& self.parent_retriever == other.parent_retriever
    }
}

impl View for ConfigFingerprint {
    type V = FingerprintModel;

    open spec fn view(&self) -> FingerprintModel {
        FingerprintModel {
            model: self.model@,
            reranker: text::opt_view(self.reranker),
            limit: self.limit,
            k_values: self.k_values@,
            golden_hash: self.golden_hash@,
            mmr: self.mmr,
            parent_retriever: self.parent_retriever,
        }
    }
}

/// Whether two optional strings are the same.
fn same_opt(a: &Option<String>, b: &Option<String>) -> (r: bool)
    ensures
        r == (text::opt_view(*a) == text::opt_view(*b)),
{
    match (a, b) {
        (Some(x), Some(y)) => *x == *y,
        (None, None) => true,
        _ => false,
    }
}

/// Whether two lists of numbers are the same.
fn same_numbers(a: &Vec<usize>, b: &Vec<usize>) -> (r: bool)
    ensures
        r == (a@ == b@),
{
    if a.len() != b.len() {
        return false;
    }
    let mut i: usize = 0;
    while i < a.len()
        invariant
            a@.len() == b@.len(),
            i <= a@.len(),
            forall|j: int| 0 <= j < i ==> a@[j] == b@[j],
        decreases a@.len() - i,
    {
        if a[i] != b[i] {
            return false;
        }
        i += 1;
    }
    assert(a@ =~= b@);
    true
}

impl ConfigFingerprint {
    /// The fingerprint of a run. What is switched off leaves no trace, so that such a run
    /// compares with older ones.
    fn assemble(
        model: &str,
        reranker: Option<String>,
        limit: u32,
        k_values: Vec<usize>,
        golden_hash: &str,
        mmr_enabled: bool,
        mmr: MmrFingerprint,
        parent_enabled: bool,
        parent: ParentRetrieverFingerprint,
    ) -> (r: ConfigFingerprint)
        ensures
            r@ == (FingerprintModel {
                model: model@,
                reranker: text::opt_view(reranker),
                limit,
                k_values: k_values@,
                golden_hash: golden_hash@,
                mmr: if mmr_enabled {
                    Some(mmr)
                } else {
                    None
                },
                parent_retriever: if parent_enabled {
                    Some(parent)
                } else {
                    None
                },
            }),
    {
        ConfigFingerprint {
            model: text::copy(model),
            reranker,
            limit,
            k_values,
            golden_hash: text::copy(golden_hash),
            mmr: if mmr_enabled {
                Some(mmr)
            } else {
                None
            },
            parent_retriever: if parent_enabled {
                Some(parent)
            } else {
                None
            },
        }
    }

    /// The fingerprint of a run under a configuration.
    pub fn from_config(
        cfg: &Config,
        model: String,
        reranker: Option<String>,
        limit: u32,
        k_values: Vec<usize>,
        golden_hash: String,
    ) -> (r: ConfigFingerprint)
        ensures
            r@ == (FingerprintModel {
                model: model@,
                reranker: text::opt_view(reranker),
                limit,
                k_values: k_values@,
                golden_hash: golden_hash@,
                mmr: match cfg.search {
                    Some(s) => if s.mmr.enabled {
                        Some(
                            MmrFingerprint {
                                lambda_bits: s.mmr.lambda_bits,
                                same_doc_penalty_bits: s.mmr.same_doc_penalty_bits,
                            },
                        )
                    } else {
                        None
                    },
                    None => None,
                },
                parent_retriever: match cfg.search {
                    Some(s) => if s.parent_retriever.enabled {
                        Some(
                            ParentRetrieverFingerprint {
                                whole_doc_threshold_tokens:
                                    s.parent_retriever.whole_doc_threshold_tokens,
                                max_expanded_tokens: s.parent_retriever.max_expanded_tokens,
                            },
                        )
                    } else {
                        None
                    },
                    None => None,
                },
            }),
    {
        let search = match cfg.search {
            Some(s) => s,
            None => SearchConfig::default(),
        };
        ConfigFingerprint::assemble(
            model.as_str(),
            reranker,
            limit,
            k_values,
            golden_hash.as_str(),
            search.mmr.enabled,
            MmrFingerprint {
                lambda_bits: search.mmr.lambda_bits,
                same_doc_penalty_bits: search.mmr.same_doc_penalty_bits,
            },
            search.parent_retriever.enabled,
            ParentRetrieverFingerprint {
                whole_doc_threshold_tokens: search.parent_retriever.whole_doc_threshold_tokens,
                max_expanded_tokens: search.parent_retriever.max_expanded_tokens,
            },
        )
    }

    /// The fingerprint of a run, by what it is asked to do. What a flag switches on or off
    /// counts, not only what the configuration says.
    pub fn of_run(opts: &RunOpts, golden_hash: &str) -> (r: ConfigFingerprint)
        ensures
            r@ == opts.fingerprint(golden_hash@),
    {
        let resolved = opts.overrides.resolve(&opts.search_config);
        let reranker = if opts.reranker_choice.is_enabled() {
            Some(text::copy(opts.reranker_choice.model_id()))
        } else {
            None
        };
        ConfigFingerprint::assemble(
            opts.model_choice.model_id(),
            reranker,
            opts.limit,
            copy_numbers(&opts.k_values),
            golden_hash,
            resolved.mmr_enabled,
            MmrFingerprint {
                lambda_bits: resolved.mmr_lambda_bits,
                same_doc_penalty_bits: resolved.mmr_same_doc_penalty_bits,
            },
            resolved.parent_retriever_enabled,
            ParentRetrieverFingerprint {
                whole_doc_threshold_tokens: resolved.parent_whole_doc_threshold_tokens,
                max_expanded_tokens: resolved.parent_max_expanded_tokens,
            },
        )
    }

    /// Whether two fingerprints are the same.
    pub fn same(&self, other: &ConfigFingerprint) -> (r: bool)
        ensures
            r == self@.agrees(other@),
    {
        let mmr_same = match (self.mmr, other.mmr) {
            (Some(a), Some(b)) => ieee::equal(a.lambda_bits, b.lambda_bits) && ieee::equal(
                a.same_doc_penalty_bits,
                b.same_doc_penalty_bits,
            ),
            (None, None) => true,
            _ => false,
        };
        let parent_same = match (self.parent_retriever, other.parent_retriever) {
            (Some(a), Some(b)) => a == b,
            (None, None) => true,
            _ => false,
        };
        self.model == other.model && same_opt(&self.reranker, &other.reranker) && self.limit
            == other.limit && same_numbers(&self.k_values, &other.k_values) && self.golden_hash
            == other.golden_hash && mmr_same && parent_same
    }
}

/// How many runs the history keeps where nobody says.
pub const DEFAULT_HISTORY_SIZE: usize = 10;

/// How much a metric may fall where nobody says, 0.05, as the bits of a double-precision number.
pub const DEFAULT_REGRESSION_THRESHOLD_BITS: u64 = 0x3fa9_9999_9999_999a;

/// What an evaluation is asked to do.
#[derive(Debug)]
pub struct RunOpts {
    pub kb_path: String,
    pub golden_path: String,
    pub model_choice: ModelChoice,
    pub reranker_choice: RerankerChoice,
    pub k_values: Vec<usize>,
    pub limit: u32,
    pub write_history: bool,
    pub history_size: usize,
    /// The bits of a double-precision number.
    pub regression_threshold_bits: u64,
    pub overrides: SearchOverrides,
    pub search_config: SearchConfig,
}

impl RunOpts {
    /// The fingerprint of a run with these options.
    pub open spec fn fingerprint(self, golden_hash: Seq<char>) -> FingerprintModel {
        let toml = self.search_config;
        FingerprintModel {
            model: self.model_choice.id(),
            reranker: if self.reranker_choice == RerankerChoice::Disabled {
                None
            } else {
                Some(self.reranker_choice.id())
            },
            limit: self.limit,
            k_values: self.k_values@,
            golden_hash,
            mmr: if or_else(self.overrides.mmr, toml.mmr.enabled) {
                Some(
                    MmrFingerprint {
                        lambda_bits: or_else(self.overrides.mmr_lambda_bits, toml.mmr.lambda_bits),
                        same_doc_penalty_bits: or_else(
                            self.overrides.mmr_same_doc_penalty_bits,
                            toml.mmr.same_doc_penalty_bits,
                        ),
                    },
                )
            } else {
                None
            },
            parent_retriever: if or_else(
                self.overrides.parent_retriever,
                toml.parent_retriever.enabled,
            ) {
                Some(
                    ParentRetrieverFingerprint {
                        whole_doc_threshold_tokens:
                            toml.parent_retriever.whole_doc_threshold_tokens,
                        max_expanded_tokens: toml.parent_retriever.max_expanded_tokens,
                    },
                )
            } else {
                None
            },
        }
    }
}

/// The file that holds the history of runs on a knowledge base.
pub fn default_history_path(kb_path: &str) -> (r: String)
    ensures
        r@ == path::join_spec(kb_path@, ".kb-mcp-eval-history.json"@),
{
    path::join(kb_path, ".kb-mcp-eval-history.json")
}

/// That there is no index, in words.
pub fn no_index_message(db_path: &str, kb_path: &str) -> (r: String)
    ensures
        r@ == "No index found at "@ + db_path@ + ". Run `kb-mcp index --kb-path "@ + kb_path@
            + "` first."@,
{
    let mut r = text::copy("No index found at ");
    r.append(db_path);
    r.append(". Run `kb-mcp index --kb-path ");
    r.append(kb_path);
    r.append("` first.");
    r
}

/// A copy of a list of numbers.
pub fn copy_numbers(v: &Vec<usize>) -> (r: Vec<usize>)
    ensures
        r@ == v@,
{
    let mut out: Vec<usize> = Vec::new();
    let mut i: usize = 0;
    while i < v.len()
        invariant
            i <= v@.len(),
            out@ == v@.take(i as int),
        decreases v@.len() - i,
    {
        out.push(v[i]);
        assert(out@ =~= v@.take(i + 1));
        i += 1;
    }
    assert(v@.take(i as int) =~= v@);
    out
}

/// One run of an evaluation. The time is written as RFC 3339 does.
#[derive(Debug, Clone)]
pub struct EvalRun {
    pub timestamp: String,
    pub fingerprint: ConfigFingerprint,
    pub per_query: Vec<QueryResult>,
    pub aggregate: AggregateMetrics,
}

/// A hit as a search returns it, best first.
#[derive(Debug, Clone)]
pub struct FoundHit {
    pub path: String,
    pub heading: Option<String>,
    pub score_bits: u32,
}

/// One query with its ranked hits and its metrics.
#[derive(Debug, Clone)]
pub struct QueryOutcome {
    pub id: String,
    pub query: String,
    pub expected: Vec<ExpectedHit>,
    pub top_k: Vec<HitRecord>,
    pub scores: QueryScores,
}

/// The greatest of some numbers.
pub open spec fn greatest(v: Seq<usize>) -> Option<usize>
    decreases v.len(),
{
    if v.len() == 0 {
        None
    } else {
        match greatest(v.drop_last()) {
            None => Some(v.last()),
            Some(m) => Some(
                if v.last() > m {
                    v.last()
                } else {
                    m
                },
            ),
        }
    }
}

/// The greatest of some numbers.
pub fn max_of(v: &Vec<usize>) -> (r: Option<usize>)
    ensures
        r == greatest(v@),
{
    let mut best: Option<usize> = None;
    let mut i: usize = 0;
    while i < v.len()
        invariant
            i <= v@.len(),
            best == greatest(v@.take(i as int)),
        decreases v@.len() - i,
    {
        assert(v@.take(i + 1).drop_last() =~= v@.take(i as int));
        let x: usize = v[i];
        best = match best {
            None => Some(x),
            Some(m) => if x > m {
                Some(x)
            } else {
                Some(m)
            },
        };
        i += 1;
    }
    assert(v@.take(i as int) =~= v@);
    best
}

/// The cut-off used where no cut-off is given.
pub const DEFAULT_K: usize = 10;

/// How many hits to search for: the greatest cut-off, or the limit if that is more.
pub open spec fn fetch_count_spec(k_values: Seq<usize>, limit: u32) -> nat {
    let k = match greatest(k_values) {
        Some(m) => m,
        None => DEFAULT_K,
    };
    if k < limit {
        limit as nat
    } else {
        k as nat
    }
}

/// How many hits to search for.
pub fn fetch_count(k_values: &Vec<usize>, limit: u32) -> (r: usize)
    ensures
        r == fetch_count_spec(k_values@, limit),
{
    let k: usize = match max_of(k_values) {
        Some(m) => m,
        None => DEFAULT_K,
    };
    if k < limit as usize {
        limit as usize
    } else {
        k
    }
}

/// The limit of a run that names none: the lower half of the greatest cut-off, which is the
/// cut-off itself unless it is enormous.
pub open spec fn default_limit_spec(k_values: Seq<usize>) -> int {
    match greatest(k_values) {
        Some(m) => m as int % 0x1_0000_0000,
        None => DEFAULT_K as int,
    }
}

/// The limit of a run that names none.
pub fn default_limit(k_values: &Vec<usize>) -> (r: u32)
    ensures
        r == default_limit_spec(k_values@),
{
    match max_of(k_values) {
        Some(m) => {
            let wide: u64 = m as u64;
            assert(wide & 0xffff_ffff <= 0xffff_ffff) by (bit_vector);
            assert(wide & 0xffff_ffff == wide % 0x1_0000_0000) by (bit_vector);
            (wide & 0xffff_ffff) as u32
        },
        None => DEFAULT_K as u32,
    }
}

/// The cut-offs of a run: those asked for, else those of the configuration, else 1, 5 and 10.
pub fn resolve_k_values(asked: Option<Vec<usize>>, configured: Option<Vec<usize>>) -> (r: Vec<
    usize,
>)
    ensures
        r@ == match asked {
            Some(v) => v@,
            None => match configured {
                Some(v) => v@,
                None => seq![1usize, 5, 10],
            },
        },
{
    match asked {
        Some(v) => v,
        None => match configured {
            Some(v) => v,
            None => {
                let mut v: Vec<usize> = Vec::new();
                v.push(1);
                v.push(5);
                v.push(10);
                assert(v@ =~= seq![1usize, 5, 10]);
                v
            },
        },
    }
}

/// How many characters of a query stand for it where it has no id.
pub const QUERY_ID_CHARS: usize = 32;

/// The name of a query: its id, or else its first characters.
pub open spec fn query_id_spec(id: Option<Seq<char>>, query: Seq<char>) -> Seq<char> {
    match id {
        Some(s) => s,
        None => if query.len() <= QUERY_ID_CHARS {
            query
        } else {
            query.take(QUERY_ID_CHARS as int)
        },
    }
}

/// The name of a query: its id, or else its first characters.
pub fn query_id(q: &GoldenQuery) -> (r: String)
    ensures
        r@ == query_id_spec(text::opt_view(q.id), q.query@),
{
    match &q.id {
        Some(s) => s.clone(),
        None => {
            let v = text::to_chars(q.query.as_str());
            let n: usize = if v.len() <= QUERY_ID_CHARS {
                v.len()
            } else {
                QUERY_ID_CHARS
            };
            let r = text::from_chars(&v, 0, n);
            assert(r@ =~= query_id_spec(None, q.query@));
            r
        },
    }
}

/// The hits of a search with their ranks, which count from 1.
pub open spec fn ranked(found: Seq<FoundHit>) -> Seq<HitModel> {
    Seq::new(
        found.len(),
        |i: int|
            HitModel {
                rank: (i + 1) as usize,
                path: found[i].path@,
                heading: text::opt_view(found[i].heading),
                score_bits: found[i].score_bits,
            },
    )
}

/// Gives the hits of a search their ranks.
pub fn rank_hits(found: &Vec<FoundHit>) -> (r: Vec<HitRecord>)
    ensures
        hit_models(r@) == ranked(found@),
{
    let mut out: Vec<HitRecord> = Vec::new();
    let mut i: usize = 0;
    while i < found.len()
        invariant
            i <= found@.len(),
            out@.len() == i,
            forall|j: int| 0 <= j < i ==> (#[trigger] out@[j])@ == ranked(found@)[j],
        decreases found@.len() - i,
    {
        out.push(
            HitRecord {
                rank: i + 1,
                path: found[i].path.clone(),
                heading: text::copy_opt(&found[i].heading),
                score_bits: found[i].score_bits,
            },
        );
        i += 1;
    }
    assert(hit_models(out@) =~= ranked(found@));
    out
}

/// A copy of a list of expected hits.
fn copy_expected(v: &Vec<ExpectedHit>) -> (r: Vec<ExpectedHit>)
    ensures
        expected_models(r@) == expected_models(v@),
{
    let mut out: Vec<ExpectedHit> = Vec::new();
    let mut i: usize = 0;
    while i < v.len()
        invariant
            i <= v@.len(),
            out@.len() == i,
            forall|j: int| 0 <= j < i ==> (#[trigger] out@[j])@ == v@[j]@,
        decreases v@.len() - i,
    {
        out.push(
            ExpectedHit { path: v[i].path.clone(), heading: text::copy_opt(&v[i].heading) },
        );
        i += 1;
    }
    assert(expected_models(out@) =~= expected_models(v@));
    out
}

/// Judges what a search found for one query of the golden set.
pub fn evaluate_query(q: &GoldenQuery, found: &Vec<FoundHit>, k_values: &Vec<usize>) -> (r:
    QueryOutcome)
    ensures
        r.id@ == query_id_spec(text::opt_view(q.id), q.query@),
        r.query@ == q.query@,
        expected_models(r.expected@) == expected_models(q.expected@),
        hit_models(r.top_k@) == ranked(found@),
        forall|k: usize|
            (#[trigger] r.scores.recall_at_k@.dom().contains(k)) <==> k_values@.contains(k),
        forall|k: usize|
            (#[trigger] r.scores.ndcg_at_k@.dom().contains(k)) <==> k_values@.contains(k),
        forall|k: usize|
            k_values@.contains(k) ==> {
                let v = #[trigger] r.scores.recall_at_k@[k];
                (v.part as nat, v.whole as nat) == recall_spec(
                    expected_models(q.expected@),
                    ranked(found@),
                    k as nat,
                )
            },
        forall|k: usize|
            k_values@.contains(k) ==> {
                let v = #[trigger] r.scores.ndcg_at_k@[k];
                (v.hit_ranks@, v.ideal_count as nat) == ndcg_spec(
                    expected_models(q.expected@),
                    ranked(found@),
                    k as nat,
                )
            },
        (
            r.scores.reciprocal_rank.part as nat,
            r.scores.reciprocal_rank.whole as nat,
        ) == reciprocal_rank_spec(expected_models(q.expected@), ranked(found@)),
{
    let top_k = rank_hits(found);
    let scores = compute_query_metrics(&q.expected, &top_k, k_values);
    QueryOutcome {
        id: query_id(q),
        query: q.query.clone(),
        expected: copy_expected(&q.expected),
        top_k,
        scores,
    }
}

/// The number recorded for `k`; 0.0 where there is none.
pub open spec fn value_at(m: Map<usize, u64>, k: usize) -> u64 {
    if m.dom().contains(k) {
        m[k]
    } else {
        0
    }
}

/// The number recorded for `k`; 0.0 where there is none.
fn metric(m: &BTreeMap<usize, u64>, k: usize) -> (r: u64)
    ensures
        r == value_at(m@, k),
{
    broadcast use vstd::std_specs::btree::group_btree_axioms;

    match m.get(&k) {
        Some(v) => *v,
        None => 0,
    }
}

/// The queries that count: those of which something is expected.
pub open spec fn counted(per_query: Seq<QueryResult>) -> Seq<QueryResult>
    decreases per_query.len(),
{
    if per_query.len() == 0 {
        seq![]
    } else if per_query.last().expected@.len() == 0 {
        counted(per_query.drop_last())
    } else {
        counted(per_query.drop_last()).push(per_query.last())
    }
}

/// What the means over all queries are taken of: for each cut-off, and for the reciprocal rank,
/// the numbers of the queries that count.
#[derive(Debug, Clone)]
pub struct AggregateParts {
    pub recall_at_k: Vec<(usize, Vec<u64>)>,
    pub reciprocal_ranks: Vec<u64>,
    pub ndcg_at_k: Vec<(usize, Vec<u64>)>,
    pub query_count: usize,
}

/// The recall of each query at `k`.
pub open spec fn recalls(queries: Seq<QueryResult>, k: usize) -> Seq<u64> {
    Seq::new(queries.len(), |i: int| value_at(queries[i].metrics.recall_at_k@, k))
}

/// The nDCG of each query at `k`.
pub open spec fn ndcgs(queries: Seq<QueryResult>, k: usize) -> Seq<u64> {
    Seq::new(queries.len(), |i: int| value_at(queries[i].metrics.ndcg_at_k@, k))
}

/// The reciprocal rank of each query.
pub open spec fn reciprocal_ranks(queries: Seq<QueryResult>) -> Seq<u64> {
    Seq::new(queries.len(), |i: int| queries[i].metrics.reciprocal_rank)
}

/// What the means over all queries are taken of. Where no query counts there is nothing to
/// take a mean of, at any cut-off.
pub fn aggregate_metrics(per_query: &Vec<QueryResult>, k_values: &Vec<usize>) -> (r:
    AggregateParts)
    ensures
        r.query_count == counted(per_query@).len(),
        r.reciprocal_ranks@ == reciprocal_ranks(counted(per_query@)),
        r.recall_at_k@.len() == r.ndcg_at_k@.len(),
        r.recall_at_k@.len() == if r.query_count == 0 {
            0
        } else {
            k_values@.len()
        },
        forall|i: int|
            0 <= i < r.recall_at_k@.len() ==> (#[trigger] r.recall_at_k@[i]).0 == k_values@[i]
                && r.recall_at_k@[i].1@ == recalls(counted(per_query@), k_values@[i]),
        forall|i: int|
            0 <= i < r.ndcg_at_k@.len() ==> (#[trigger] r.ndcg_at_k@[i]).0 == k_values@[i]
                && r.ndcg_at_k@[i].1@ == ndcgs(counted(per_query@), k_values@[i]),
{
    let ghost valid = counted(per_query@);
    let mut rr: Vec<u64> = Vec::new();
    let mut i: usize = 0;
    assert(rr@ =~= reciprocal_ranks(counted(per_query@.take(0))));
    while i < per_query.len()
        invariant
            i <= per_query@.len(),
            rr@ == reciprocal_ranks(counted(per_query@.take(i as int))),
        decreases per_query@.len() - i,
    {
        assert(per_query@.take(i + 1).drop_last() =~= per_query@.take(i as int));
        if per_query[i].expected.len() > 0 {
            rr.push(per_query[i].metrics.reciprocal_rank);
        }
        assert(rr@ =~= reciprocal_ranks(counted(per_query@.take(i + 1))));
        i += 1;
    }
    assert(per_query@.take(i as int) =~= per_query@);
    let n: usize = rr.len();
    let mut recall: Vec<(usize, Vec<u64>)> = Vec::new();
    let mut ndcg: Vec<(usize, Vec<u64>)> = Vec::new();
    if n > 0 {
        let mut j: usize = 0;
        while j < k_values.len()
            invariant
                valid == counted(per_query@),
                j <= k_values@.len(),
                recall@.len() == j,
                ndcg@.len() == j,
                forall|m: int|
                    0 <= m < j ==> (#[trigger] recall@[m]).0 == k_values@[m] && recall@[m].1@
                        == recalls(valid, k_values@[m]),
                forall|m: int|
                    0 <= m < j ==> (#[trigger] ndcg@[m]).0 == k_values@[m] && ndcg@[m].1@ == ndcgs(
                        valid,
                        k_values@[m],
                    ),
            decreases k_values@.len() - j,
        {
            let k: usize = k_values[j];
            let (a, b) = values_at(per_query, k);
            recall.push((k, a));
            ndcg.push((k, b));
            j += 1;
        }
    }
    AggregateParts {
        recall_at_k: recall,
        reciprocal_ranks: rr,
        ndcg_at_k: ndcg,
        query_count: n,
    }
}

/// The recall and the nDCG at `k` of the queries that count.
fn values_at(per_query: &Vec<QueryResult>, k: usize) -> (r: (Vec<u64>, Vec<u64>))
    ensures
        r.0@ == recalls(counted(per_query@), k),
        r.1@ == ndcgs(counted(per_query@), k),
{
    let mut recall: Vec<u64> = Vec::new();
    let mut ndcg: Vec<u64> = Vec::new();
    let mut i: usize = 0;
    assert(recall@ =~= recalls(counted(per_query@.take(0)), k));
    assert(ndcg@ =~= ndcgs(counted(per_query@.take(0)), k));
    while i < per_query.len()
        invariant
            i <= per_query@.len(),
            recall@ == recalls(counted(per_query@.take(i as int)), k),
            ndcg@ == ndcgs(counted(per_query@.take(i as int)), k),
        decreases per_query@.len() - i,
    {
        assert(per_query@.take(i + 1).drop_last() =~= per_query@.take(i as int));
        if per_query[i].expected.len() > 0 {
            recall.push(metric(&per_query[i].metrics.recall_at_k, k));
            ndcg.push(metric(&per_query[i].metrics.ndcg_at_k, k));
        }
        assert(recall@ =~= recalls(counted(per_query@.take(i + 1)), k));
        assert(ndcg@ =~= ndcgs(counted(per_query@.take(i + 1)), k));
        i += 1;
    }
    assert(per_query@.take(i as int) =~= per_query@);
    (recall, ndcg)
}

// ---------------------------------------------------------------------------
// History
// ---------------------------------------------------------------------------
/// Earlier runs, the newest first.
#[derive(Debug)]
pub struct History {
    pub runs: VecDeque<EvalRun>,
}

impl Default for History {
    fn default() -> (r: Self)
        ensures
            r.runs@.len() == 0,
    {
        History { runs: VecDeque::new() }
    }
}

impl History {
    /// Puts a run first and keeps at most `size` runs, the newest ones.
    pub fn push_front(&mut self, run: EvalRun, size: usize)
        ensures
            ({
                let all = seq![run] + old(self).runs@;
                final(self).runs@ == if all.len() <= size {
                    all
                } else {
                    all.take(size as int)
                }
            }),
    {
        let ghost all = seq![run] + self.runs@;
        self.runs.push_front(run);
        assert(self.runs@ =~= all);
        assert(all.take(all.len() as int) =~= all);
        while self.runs.len() > size
            invariant
                self.runs@ == all.take(self.runs@.len() as int),
                self.runs@.len() <= all.len(),
                all.len() <= size ==> self.runs@ == all,
                all.len() > size ==> self.runs@.len() >= size,
            decreases self.runs@.len(),
        {
            self.runs.pop_back();
            assert(self.runs@ =~= all.take(self.runs@.len() as int));
        }
    }

    /// The newest run.
    pub fn previous(&self) -> (r: Option<&EvalRun>)
        ensures
            r == if self.runs@.len() == 0 {
                None
            } else {
                Some(&self.runs@[0])
            },
    {
        if self.runs.len() == 0 {
            None
        } else {
            Some(&self.runs[0])
        }
    }

    /// The newest run, if it was made under the same conditions as `now`.
    pub fn previous_compatible(&self, now: &EvalRun) -> (r: Option<&EvalRun>)
        ensures
            r == if self.runs@.len() == 0 || !self.runs@[0].fingerprint@.agrees(
                now.fingerprint@,
            ) {
                None
            } else {
                Some(&self.runs@[0])
            },
    {
        if self.runs.len() == 0 {
            return None;
        }
        let p = &self.runs[0];
        if p.fingerprint.same(&now.fingerprint) {
            Some(p)
        } else {
            None
        }
    }
}

// ---------------------------------------------------------------------------
// Comparing runs
// ---------------------------------------------------------------------------
/// Whether the runs were made with one golden set, so that their numbers can be set side by
/// side.
pub open spec fn comparable(run: EvalRun, previous: Option<&EvalRun>) -> bool {
    previous is Some && previous->0.fingerprint@.golden_hash == run.fingerprint@.golden_hash
}

/// Whether the runs were made with one golden set.
pub fn diff_enabled(run: &EvalRun, previous: Option<&EvalRun>) -> (r: bool)
    ensures
        r == comparable(*run, previous),
{
    match previous {
        Some(p) => p.fingerprint.golden_hash == run.fingerprint.golden_hash,
        None => false,
    }
}

/// A number of a run and, where the runs can be compared, that of the run before.
pub open spec fn pair_spec(on: bool, now: u64, before: u64) -> (u64, Option<u64>) {
    (
        now,
        if on {
            Some(before)
        } else {
            None
        },
    )
}

/// Recall at each cut-off, now and before.
pub open spec fn recall_pairs(run: EvalRun, previous: Option<&EvalRun>) -> Seq<
    (u64, Option<u64>),
> {
    let ks = run.fingerprint.k_values@;
    Seq::new(
        ks.len(),
        |i: int|
            pair_spec(
                comparable(run, previous),
                value_at(run.aggregate.recall_at_k@, ks[i]),
                value_at(previous->0.aggregate.recall_at_k@, ks[i]),
            ),
    )
}

/// The numbers that a report shows, now and before: recall at each cut-off, the mean reciprocal
/// rank, and nDCG at the greatest cut-off if there is one.
pub open spec fn report_pairs_spec(run: EvalRun, previous: Option<&EvalRun>) -> Seq<
    (u64, Option<u64>),
> {
    let on = comparable(run, previous);
    let prev = previous->0.aggregate;
    let head = recall_pairs(run, previous).push(pair_spec(on, run.aggregate.mrr, prev.mrr));
    match greatest(run.fingerprint.k_values@) {
        Some(k) => head.push(
            pair_spec(on, value_at(run.aggregate.ndcg_at_k@, k), value_at(prev.ndcg_at_k@, k)),
        ),
        None => head,
    }
}

/// The numbers that a report shows, now and before.
pub fn report_pairs(run: &EvalRun, previous: Option<&EvalRun>) -> (r: Vec<(u64, Option<u64>)>)
    ensures
        r@ == report_pairs_spec(*run, previous),
{
    let base = if diff_enabled(run, previous) {
        previous
    } else {
        None
    };
    let mut out: Vec<(u64, Option<u64>)> = Vec::new();
    let mut i: usize = 0;
    while i < run.fingerprint.k_values.len()
        invariant
            i <= run.fingerprint.k_values@.len(),
            base is Some == comparable(*run, previous),
            base is Some ==> base == previous,
            out@ == recall_pairs(*run, previous).take(i as int),
        decreases run.fingerprint.k_values@.len() - i,
    {
        let k: usize = run.fingerprint.k_values[i];
        let now: u64 = metric(&run.aggregate.recall_at_k, k);
        let before: Option<u64> = match base {
            Some(p) => Some(metric(&p.aggregate.recall_at_k, k)),
            None => None,
        };
        out.push((now, before));
        assert(out@ =~= recall_pairs(*run, previous).take(i + 1));
        i += 1;
    }
    assert(recall_pairs(*run, previous).take(i as int) =~= recall_pairs(*run, previous));
    let before: Option<u64> = match base {
        Some(p) => Some(p.aggregate.mrr),
        None => None,
    };
    out.push((run.aggregate.mrr, before));
    if let Some(k) = max_of(&run.fingerprint.k_values) {
        let now: u64 = metric(&run.aggregate.ndcg_at_k, k);
        let before: Option<u64> = match base {
            Some(p) => Some(metric(&p.aggregate.ndcg_at_k, k)),
            None => None,
        };
        out.push((now, before));
    }
    out
}

/// The first of the queries with the name `id`.
pub open spec fn query_named(queries: Seq<QueryResult>, id: Seq<char>) -> Option<QueryResult>
    decreases queries.len(),
{
    if queries.len() == 0 {
        None
    } else if queries[0].id@ == id {
        Some(queries[0])
    } else {
        query_named(queries.drop_first(), id)
    }
}

/// The cut-off by which single queries are judged: the greatest one.
pub open spec fn query_k(run: EvalRun) -> usize {
    match greatest(run.fingerprint.k_values@) {
        Some(k) => k,
        None => DEFAULT_K,
    }
}

/// The recall of one query at the greatest cut-off, now and, where the runs can be compared and
/// the query was there before, before.
pub open spec fn query_pair(run: EvalRun, previous: Option<&EvalRun>, q: QueryResult) -> (
    u64,
    Option<u64>,
) {
    (
        value_at(q.metrics.recall_at_k@, query_k(run)),
        if comparable(run, previous) {
            match query_named(previous->0.per_query@, q.id@) {
                Some(p) => Some(value_at(p.metrics.recall_at_k@, query_k(run))),
                None => None,
            }
        } else {
            None
        },
    )
}

/// The recall of each query at the greatest cut-off, now and before.
pub open spec fn query_pairs_spec(run: EvalRun, previous: Option<&EvalRun>) -> Seq<
    (u64, Option<u64>),
> {
    Seq::new(run.per_query@.len(), |i: int| query_pair(run, previous, run.per_query@[i]))
}

/// The recall at `k` of the first of the queries with the name `id`.
fn recall_of(queries: &Vec<QueryResult>, id: &str, k: usize) -> (r: Option<u64>)
    ensures
        r == match query_named(queries@, id@) {
            Some(q) => Some(value_at(q.metrics.recall_at_k@, k)),
            None => None,
        },
{
    let mut i: usize = 0;
    assert(queries@.skip(0) =~= queries@);
    while i < queries.len()
        invariant
            i <= queries@.len(),
            query_named(queries@, id@) == query_named(queries@.skip(i as int), id@),
        decreases queries@.len() - i,
    {
        assert(queries@.skip(i as int)[0] == queries@[i as int]);
        if *queries[i].id.as_str() == *id {
            return Some(metric(&queries[i].metrics.recall_at_k, k));
        }
        assert(queries@.skip(i as int).drop_first() =~= queries@.skip(i + 1));
        i += 1;
    }
    None
}

/// The cut-off by which single queries are judged.
fn judged_k(run: &EvalRun) -> (r: usize)
    ensures
        r == query_k(*run),
{
    match max_of(&run.fingerprint.k_values) {
        Some(k) => k,
        None => DEFAULT_K,
    }
}

/// The recall of each query at the greatest cut-off, now and before.
pub fn query_pairs(run: &EvalRun, previous: Option<&EvalRun>) -> (r: Vec<(u64, Option<u64>)>)
    ensures
        r@ == query_pairs_spec(*run, previous),
{
    let base = if diff_enabled(run, previous) {
        previous
    } else {
        None
    };
    let k: usize = judged_k(run);
    let mut out: Vec<(u64, Option<u64>)> = Vec::new();
    let mut i: usize = 0;
    while i < run.per_query.len()
        invariant
            i <= run.per_query@.len(),
            k == query_k(*run),
            base is Some == comparable(*run, previous),
            base is Some ==> base == previous,
            out@ == query_pairs_spec(*run, previous).take(i as int),
        decreases run.per_query@.len() - i,
    {
        let q = &run.per_query[i];
        let now: u64 = metric(&q.metrics.recall_at_k, k);
        let before: Option<u64> = match base {
            Some(p) => recall_of(&p.per_query, q.id.as_str(), k),
            None => None,
        };
        out.push((now, before));
        assert(out@ =~= query_pairs_spec(*run, previous).take(i + 1));
        i += 1;
    }
    assert(query_pairs_spec(*run, previous).take(i as int) =~= query_pairs_spec(*run, previous));
    out
}

/// Whether all numbers of a map are finite.
pub open spec fn finite_values(m: Map<usize, u64>) -> bool {
    forall|k: usize| m.dom().contains(k) ==> ieee::finite_64_spec(#[trigger] m[k])
}

/// Whether all numbers of a run are finite, so that another can be held against it.
pub open spec fn can_be_compared_with(a: AggregateMetrics) -> bool {
    finite_values(a.recall_at_k@) && finite_values(a.ndcg_at_k@) && ieee::finite_64_spec(a.mrr)
}

fn all_finite(m: &BTreeMap<usize, u64>) -> (r: bool)
    ensures
        r == finite_values(m@),
{
    broadcast use vstd::std_specs::btree::group_btree_axioms;

    let iter = m.iter();
    let ghost items = vstd::std_specs::iter::IteratorSpec::remaining(&iter);
    for entry in it: iter
        invariant
            it.seq() == items,
            forall|j: int|
                0 <= j < items.len() ==> m@.contains_key(*(#[trigger] items[j]).0)
                    && m@[*items[j].0] == *items[j].1,
            forall|k: usize| #[trigger] m@.contains_key(k) ==> items.contains((&k, &m@[k])),
            forall|j: int|
                0 <= j < it.index() ==> ieee::finite_64_spec(*(#[trigger] items[j]).1),
    {
        let k: usize = *entry.0;
        let v: u64 = *entry.1;
        if !ieee::is_finite_64(v) {
            assert(m@.dom().contains(k) && !ieee::finite_64_spec(m@[k]));
            return false;
        }
    }
    proof {
        assert forall|k: usize| m@.dom().contains(k) implies ieee::finite_64_spec(
            #[trigger] m@[k],
        ) by {
            assert(m@.contains_key(k));
            let j = choose|j: int| 0 <= j < items.len() && items[j] == (&k, &m@[k]);
            assert(ieee::finite_64_spec(*items[j].1));
        }
    }
    true
}

/// Every number by which a run is judged against an earlier one, `(now, before)`: recall at
/// each cut-off that the run has, the mean reciprocal rank, and nDCG at each cut-off that the
/// run has. A run is a regression if one of them has dropped by more than is tolerated. With an
/// earlier run that has a number that is not finite nothing can be compared.
pub fn regression_pairs(now: &EvalRun, prev: &EvalRun) -> (r: Vec<(u64, u64)>)
    ensures
        !can_be_compared_with(prev.aggregate) ==> r@.len() == 0,
        can_be_compared_with(prev.aggregate) ==> forall|k: usize|
            now.aggregate.recall_at_k@.dom().contains(k) ==> r@.contains(
                #[trigger] judged_pair(now.aggregate.recall_at_k@, prev.aggregate.recall_at_k@, k),
            ),
        can_be_compared_with(prev.aggregate) ==> forall|k: usize|
            now.aggregate.ndcg_at_k@.dom().contains(k) ==> r@.contains(
                #[trigger] judged_pair(now.aggregate.ndcg_at_k@, prev.aggregate.ndcg_at_k@, k),
            ),
        can_be_compared_with(prev.aggregate) ==> r@.contains(
            (now.aggregate.mrr, prev.aggregate.mrr),
        ),
        forall|i: int|
            0 <= i < r@.len() ==> {
                ||| #[trigger] r@[i] == (now.aggregate.mrr, prev.aggregate.mrr)
                ||| is_judged_pair(
                    now.aggregate.recall_at_k@,
                    prev.aggregate.recall_at_k@,
                    r@[i],
                )
                ||| is_judged_pair(now.aggregate.ndcg_at_k@, prev.aggregate.ndcg_at_k@, r@[i])
            },
{
    if !(all_finite(&prev.aggregate.recall_at_k) && all_finite(&prev.aggregate.ndcg_at_k)
        && ieee::is_finite_64(prev.aggregate.mrr)) {
        return Vec::new();
    }
    let mut out: Vec<(u64, u64)> = Vec::new();
    let a = map_pairs(&now.aggregate.recall_at_k, &prev.aggregate.recall_at_k);
    let b = map_pairs(&now.aggregate.ndcg_at_k, &prev.aggregate.ndcg_at_k);
    let ghost m = (now.aggregate.mrr, prev.aggregate.mrr);
    let mut i: usize = 0;
    while i < a.len()
        invariant
            i <= a@.len(),
            out@ == a@.take(i as int),
        decreases a@.len() - i,
    {
        out.push(a[i]);
        assert(out@ =~= a@.take(i + 1));
        i += 1;
    }
    assert(out@ =~= a@);
    out.push((now.aggregate.mrr, prev.aggregate.mrr));
    let mut j: usize = 0;
    while j < b.len()
        invariant
            j <= b@.len(),
            out@ == a@ + seq![m] + b@.take(j as int),
        decreases b@.len() - j,
    {
        out.push(b[j]);
        assert(out@ =~= a@ + seq![m] + b@.take(j + 1));
        j += 1;
    }
    assert(out@ =~= a@ + seq![m] + b@);
    proof {
        assert(out@[a@.len() as int] == m);
        assert forall|k: usize| now.aggregate.recall_at_k@.dom().contains(k) implies out@.contains(
            #[trigger] judged_pair(now.aggregate.recall_at_k@, prev.aggregate.recall_at_k@, k),
        ) by {
            let p = judged_pair(now.aggregate.recall_at_k@, prev.aggregate.recall_at_k@, k);
            assert(a@.contains(p));
            let x = choose|x: int| 0 <= x < a@.len() && a@[x] == p;
            assert(out@[x] == p);
        }
        assert forall|k: usize| now.aggregate.ndcg_at_k@.dom().contains(k) implies out@.contains(
            #[trigger] judged_pair(now.aggregate.ndcg_at_k@, prev.aggregate.ndcg_at_k@, k),
        ) by {
            let p = judged_pair(now.aggregate.ndcg_at_k@, prev.aggregate.ndcg_at_k@, k);
            assert(b@.contains(p));
            let x = choose|x: int| 0 <= x < b@.len() && b@[x] == p;
            assert(out@[a@.len() + 1 + x] == p);
        }
        assert forall|i: int| 0 <= i < out@.len() implies {
            ||| #[trigger] out@[i] == m
            ||| is_judged_pair(now.aggregate.recall_at_k@, prev.aggregate.recall_at_k@, out@[i])
            ||| is_judged_pair(now.aggregate.ndcg_at_k@, prev.aggregate.ndcg_at_k@, out@[i])
        } by {
            if i < a@.len() {
                assert(out@[i] == a@[i]);
            } else if i > a@.len() {
                assert(out@[i] == b@[i - a@.len() - 1]);
            }
        }
    }
    out
}

/// The number for `k` now and before; 0.0 where there was none before.
pub open spec fn judged_pair(now: Map<usize, u64>, before: Map<usize, u64>, k: usize) -> (
    u64,
    u64,
) {
    (now[k], value_at(before, k))
}

/// Whether `p` is the number now and before for one of the `k` that `now` has.
pub open spec fn is_judged_pair(
    now: Map<usize, u64>,
    before: Map<usize, u64>,
    p: (u64, u64),
) -> bool {
    exists|k: usize| now.dom().contains(k) && p == #[trigger] judged_pair(now, before, k)
}

/// The numbers for each `k` that `now` has, now and before.
fn map_pairs(now: &BTreeMap<usize, u64>, before: &BTreeMap<usize, u64>) -> (r: Vec<(u64, u64)>)
    ensures
        forall|k: usize|
            now@.dom().contains(k) ==> r@.contains(#[trigger] judged_pair(now@, before@, k)),
        forall|i: int|
            0 <= i < r@.len() ==> is_judged_pair(now@, before@, #[trigger] r@[i]),
{
    broadcast use vstd::std_specs::btree::group_btree_axioms;

    let mut out: Vec<(u64, u64)> = Vec::new();
    let iter = now.iter();
    let ghost items = vstd::std_specs::iter::IteratorSpec::remaining(&iter);
    for entry in it: iter
        invariant
            it.seq() == items,
            out@.len() == it.index(),
            forall|j: int|
                0 <= j < items.len() ==> now@.contains_key(*(#[trigger] items[j]).0)
                    && now@[*items[j].0] == *items[j].1,
            forall|k: usize| #[trigger] now@.contains_key(k) ==> items.contains((&k, &now@[k])),
            forall|j: int|
                0 <= j < it.index() ==> (#[trigger] out@[j]) == (
                    *items[j].1,
                    value_at(before@, *items[j].0),
                ),
    {
        let k: usize = *entry.0;
        let v: u64 = *entry.1;
        out.push((v, metric(before, k)));
    }
    proof {
        assert forall|k: usize| now@.dom().contains(k) implies out@.contains(
            #[trigger] judged_pair(now@, before@, k),
        ) by {
            assert(now@.contains_key(k));
            let j = choose|j: int| 0 <= j < items.len() && items[j] == (&k, &now@[k]);
            assert(out@[j] == judged_pair(now@, before@, k));
        }
        assert forall|i: int| 0 <= i < out@.len() implies is_judged_pair(
            now@,
            before@,
            #[trigger] out@[i],
        ) by {
            let k = *items[i].0;
            assert(out@[i] == judged_pair(now@, before@, k));
        }
    }
    out
}

// ---------------------------------------------------------------------------
// The report
// ---------------------------------------------------------------------------
/// How a number has changed since the run before.
#[derive(Debug, Clone)]
pub struct ChangeText {
    /// Whether the change is too small to speak of.
    pub negligible: bool,
    /// Whether the number has grown.
    pub up: bool,
    /// Whether it has dropped by more than is tolerated.
    pub worse: bool,
    /// Whether it has grown by more than that.
    pub better: bool,
    /// The size of the change, with three decimals.
    pub size: String,
}

/// A number of a report, with its change where the runs can be compared.
#[derive(Debug, Clone)]
pub struct MetricText {
    /// The number, with three decimals.
    pub value: String,
    pub change: Option<ChangeText>,
}

/// The recall of one query, with that of the run before where there is one.
#[derive(Debug, Clone)]
pub struct QueryText {
    /// Whether the recall is 0.
    pub zero: bool,
    /// Whether it has dropped by more than is tolerated.
    pub dropped: bool,
    /// The recall, with two decimals.
    pub now: String,
    /// The recall of the run before, with two decimals.
    pub before: Option<String>,
}

/// A change in the form in which a report shows it.
pub open spec fn render_diff_spec(change: Option<ChangeText>, use_color: bool) -> Seq<char> {
    match change {
        None => ""@,
        Some(d) => if d.negligible {
            "  (—       )"@
        } else {
            "  ("@ + (if !use_color {
                ""@
            } else if d.worse {
                "\x1b[31m"@
            } else if d.better {
                "\x1b[32m"@
            } else {
                "\x1b[90m"@
            }) + (if d.up {
                "↑"@
            } else {
                "↓"@
            }) + " "@ + d.size@ + (if use_color {
                "\x1b[0m"@
            } else {
                ""@
            }) + ")"@
        },
    }
}

/// A change in the form in which a report shows it.
pub fn render_diff(change: &Option<ChangeText>, use_color: bool) -> (r: String)
    ensures
        r@ == render_diff_spec(*change, use_color),
{
    match change {
        None => text::copy(""),
        Some(d) => {
            if d.negligible {
                return text::copy("  (—       )");
            }
            let color = if !use_color {
                ""
            } else if d.worse {
                "\x1b[31m"
            } else if d.better {
                "\x1b[32m"
            } else {
                "\x1b[90m"
            };
            let arrow = if d.up {
                "↑"
            } else {
                "↓"
            };
            let reset = if use_color {
                "\x1b[0m"
            } else {
                ""
            };
            let mut r = text::copy("  (");
            r.append(color);
            r.append(arrow);
            r.append(" ");
            r.append(d.size.as_str());
            r.append(reset);
            r.append(")");
            r
        },
    }
}

/// One line of the report: a label, a number and its change.
pub open spec fn metric_line(label: Seq<char>, m: MetricText, use_color: bool) -> Seq<char> {
    "  "@ + text::pad_right_spec(label, 11) + m.value@ + render_diff_spec(m.change, use_color)
        + "\n"@
}

/// The lines for recall at each cut-off.
pub open spec fn recall_lines(ks: Seq<usize>, metrics: Seq<MetricText>, use_color: bool) -> Seq<
    char,
>
    decreases ks.len(),
{
    if ks.len() == 0 {
        ""@
    } else {
        recall_lines(ks.drop_last(), metrics, use_color) + metric_line(
            "recall@"@ + text::decimal_spec(ks.last() as nat),
            metrics[ks.len() - 1],
            use_color,
        )
    }
}

/// What the report says of the numbers: recall at each cut-off, the mean reciprocal rank, and
/// nDCG at the greatest cut-off.
pub open spec fn metric_lines(ks: Seq<usize>, metrics: Seq<MetricText>, use_color: bool) -> Seq<
    char,
> {
    recall_lines(ks, metrics, use_color) + metric_line(
        "MRR"@,
        metrics[ks.len() as int],
        use_color,
    ) + match greatest(ks) {
        Some(k) => metric_line(
            "nDCG@"@ + text::decimal_spec(k as nat),
            metrics[(ks.len() + 1) as int],
            use_color,
        ),
        None => ""@,
    }
}

/// Whether a query is worth a row: nothing is expected of it or found for it, or its recall has
/// dropped.
pub open spec fn noteworthy(q: QueryResult, t: QueryText) -> bool {
    q.expected@.len() == 0 || t.zero || (t.before is Some && t.dropped)
}

/// The row of one query.
pub open spec fn query_row(q: QueryResult, t: QueryText, k: usize) -> Seq<char> {
    let arrow = if t.zero {
        "✗"@
    } else if t.before is Some && t.dropped {
        "↓"@
    } else {
        "·"@
    };
    let numbers = match t.before {
        Some(b) => b@ + " → "@ + t.now@,
        None => t.now@,
    };
    "  "@ + arrow + " "@ + text::pad_right_spec(q.id@, 24) + " recall@"@ + text::decimal_spec(
        k as nat,
    ) + ": "@ + numbers
}

/// The rows of the queries that are worth one, in order.
pub open spec fn query_rows(queries: Seq<QueryResult>, texts: Seq<QueryText>, k: usize) -> Seq<
    Seq<char>,
>
    decreases queries.len(),
{
    if queries.len() == 0 {
        seq![]
    } else {
        let rest = query_rows(queries.drop_last(), texts, k);
        let t = texts[queries.len() - 1];
        if noteworthy(queries.last(), t) {
            rest.push(query_row(queries.last(), t, k))
        } else {
            rest
        }
    }
}

/// Lines, each with a line feed at its end.
pub open spec fn as_lines(rows: Seq<Seq<char>>) -> Seq<char>
    decreases rows.len(),
{
    if rows.len() == 0 {
        ""@
    } else {
        as_lines(rows.drop_last()) + rows.last() + "\n"@
    }
}

/// The head of a report.
pub open spec fn report_head(run: EvalRun) -> Seq<char> {
    "kb-mcp eval — "@ + run.timestamp@ + "\n  model: "@ + run.fingerprint.model@
        + "    reranker: "@ + (match run.fingerprint.reranker {
        Some(r) => r@,
        None => "none"@,
    }) + "    limit: "@ + text::decimal_spec(run.fingerprint.limit as nat) + "    queries: "@
        + text::decimal_spec(run.aggregate.query_count as nat) + "\n\n"@
}

/// What a report says of the run before.
pub open spec fn report_previous(run: EvalRun, previous: Option<&EvalRun>) -> Seq<char> {
    match previous {
        None => "Aggregate\n"@,
        Some(p) => if comparable(run, previous) {
            "Aggregate (previous run: "@ + p.timestamp@ + ")\n"@
        } else {
            "⚠️ golden changed since last run, diff disabled\nAggregate\n"@
        },
    }
}

/// What a report says of single queries.
pub open spec fn report_queries(rows: Seq<Seq<char>>, total: nat) -> Seq<char> {
    if rows.len() == 0 {
        ""@
    } else {
        "\nPer-query (regressions and misses, "@ + text::decimal_spec(rows.len()) + " of "@
            + text::decimal_spec(total) + ")\n"@ + as_lines(rows)
    }
}

/// The report on a run.
pub open spec fn format_text_spec(
    run: EvalRun,
    previous: Option<&EvalRun>,
    metrics: Seq<MetricText>,
    queries: Seq<QueryText>,
    use_color: bool,
) -> Seq<char> {
    report_head(run) + report_previous(run, previous) + metric_lines(
        run.fingerprint.k_values@,
        metrics,
        use_color,
    ) + report_queries(
        query_rows(run.per_query@, queries, query_k(run)),
        run.per_query@.len(),
    )
}

/// Appends one line of the report.
fn push_metric(out: &mut String, label: &str, m: &MetricText, use_color: bool)
    ensures
        final(out)@ == old(out)@ + metric_line(label@, *m, use_color),
{
    let ghost start = out@;
    out.append("  ");
    out.append(text::pad_right(label, 11).as_str());
    out.append(m.value.as_str());
    out.append(render_diff(&m.change, use_color).as_str());
    out.append("\n");
    assert(out@ =~= start + metric_line(label@, *m, use_color));
}

/// The row of one query.
fn row_text(q: &QueryResult, t: &QueryText, k: usize) -> (r: String)
    ensures
        r@ == query_row(*q, *t, k),
{
    let arrow = if t.zero {
        "✗"
    } else if t.before.is_some() && t.dropped {
        "↓"
    } else {
        "·"
    };
    let mut r = text::copy("  ");
    r.append(arrow);
    r.append(" ");
    r.append(text::pad_right(q.id.as_str(), 24).as_str());
    r.append(" recall@");
    r.append(text::decimal(k as u64).as_str());
    r.append(": ");
    let ghost head = r@;
    match &t.before {
        Some(b) => {
            r.append(b.as_str());
            r.append(" → ");
            r.append(t.now.as_str());
            assert(r@ =~= head + (b@ + " → "@ + t.now@));
        },
        None => {
            r.append(t.now.as_str());
        },
    }
    assert(r@ =~= query_row(*q, *t, k));
    r
}

/// The rows of the queries that are worth one.
fn rows_text(queries: &Vec<QueryResult>, texts: &Vec<QueryText>, k: usize) -> (r: Vec<String>)
    requires
        queries@.len() <= texts@.len(),
    ensures
        text::views(r@) == query_rows(queries@, texts@, k),
{
    let mut rows: Vec<String> = Vec::new();
    let mut i: usize = 0;
    assert(text::views(rows@) =~= query_rows(queries@.take(0), texts@, k));
    while i < queries.len()
        invariant
            i <= queries@.len() <= texts@.len(),
            text::views(rows@) == query_rows(queries@.take(i as int), texts@, k),
        decreases queries@.len() - i,
    {
        assert(queries@.take(i + 1).drop_last() =~= queries@.take(i as int));
        let q = &queries[i];
        let t = &texts[i];
        let ghost before = text::views(rows@);
        if q.expected.len() == 0 || t.zero || (t.before.is_some() && t.dropped) {
            let row = row_text(q, t, k);
            rows.push(row);
            assert(text::views(rows@) =~= before.push(row@));
        }
        i += 1;
    }
    assert(queries@.take(i as int) =~= queries@);
    rows
}

/// The head of a report.
fn head_text(run: &EvalRun) -> (r: String)
    ensures
        r@ == report_head(*run),
{
    let mut s = text::copy("kb-mcp eval — ");
    s.append(run.timestamp.as_str());
    s.append("\n  model: ");
    s.append(run.fingerprint.model.as_str());
    s.append("    reranker: ");
    match &run.fingerprint.reranker {
        Some(r) => {
            s.append(r.as_str());
        },
        None => {
            s.append("none");
        },
    }
    s.append("    limit: ");
    s.append(text::decimal(run.fingerprint.limit as u64).as_str());
    s.append("    queries: ");
    s.append(text::decimal(run.aggregate.query_count as u64).as_str());
    s.append("\n\n");
    s
}

/// What a report says of the run before.
fn previous_text(run: &EvalRun, previous: Option<&EvalRun>) -> (r: String)
    ensures
        r@ == report_previous(*run, previous),
{
    match previous {
        None => text::copy("Aggregate\n"),
        Some(p) => {
            if diff_enabled(run, previous) {
                let mut s = text::copy("Aggregate (previous run: ");
                s.append(p.timestamp.as_str());
                s.append(")\n");
                s
            } else {
                text::copy("⚠️ golden changed since last run, diff disabled\nAggregate\n")
            }
        },
    }
}

/// What the report says of the numbers.
fn metrics_text(ks: &Vec<usize>, metrics: &Vec<MetricText>, use_color: bool) -> (r: String)
    requires
        metrics@.len() == ks@.len() + if greatest(ks@) is Some {
            2int
        } else {
            1int
        },
    ensures
        r@ == metric_lines(ks@, metrics@, use_color),
{
    let mut s = text::copy("");
    let mut i: usize = 0;
    assert(s@ =~= recall_lines(ks@.take(0), metrics@, use_color));
    while i < ks.len()
        invariant
            i <= ks@.len(),
            ks@.len() < metrics@.len(),
            s@ == recall_lines(ks@.take(i as int), metrics@, use_color),
        decreases ks@.len() - i,
    {
        assert(ks@.take(i + 1).drop_last() =~= ks@.take(i as int));
        let mut label = text::copy("recall@");
        label.append(text::decimal(ks[i] as u64).as_str());
        push_metric(&mut s, label.as_str(), &metrics[i], use_color);
        i += 1;
    }
    assert(ks@.take(i as int) =~= ks@);
    push_metric(&mut s, "MRR", &metrics[i], use_color);
    match max_of(ks) {
        Some(k) => {
            let mut label = text::copy("nDCG@");
            label.append(text::decimal(k as u64).as_str());
            push_metric(&mut s, label.as_str(), &metrics[metrics.len() - 1], use_color);
        },
        None => {
            s.append("");
        },
    }
    s
}

/// What a report says of single queries.
fn queries_text(rows: &Vec<String>, total: usize) -> (r: String)
    ensures
        r@ == report_queries(text::views(rows@), total as nat),
{
    let ghost all = text::views(rows@);
    if rows.len() == 0 {
        return text::copy("");
    }
    let mut s = text::copy("\nPer-query (regressions and misses, ");
    s.append(text::decimal(rows.len() as u64).as_str());
    s.append(" of ");
    s.append(text::decimal(total as u64).as_str());
    s.append(")\n");
    let ghost head = s@;
    let mut j: usize = 0;
    proof {
        reveal_strlit("");
    }
    assert(s@ =~= head + as_lines(all.take(0)));
    while j < rows.len()
        invariant
            j <= rows@.len(),
            all == text::views(rows@),
            s@ == head + as_lines(all.take(j as int)),
        decreases rows@.len() - j,
    {
        assert(all.take(j + 1).drop_last() =~= all.take(j as int));
        s.append(rows[j].as_str());
        s.append("\n");
        assert(s@ =~= head + as_lines(all.take(j + 1)));
        j += 1;
    }
    assert(all.take(j as int) =~= all);
    s
}

/// The report on a run. `metrics` are the numbers of [`report_pairs`] in words, `queries` those
/// of [`query_pairs`].
pub fn format_text(
    run: &EvalRun,
    previous: Option<&EvalRun>,
    metrics: &Vec<MetricText>,
    queries: &Vec<QueryText>,
    use_color: bool,
) -> (r: String)
    requires
        metrics@.len() == report_pairs_spec(*run, previous).len(),
        queries@.len() == run.per_query@.len(),
        forall|i: int|
            0 <= i < metrics@.len() ==> (#[trigger] metrics@[i]).change is Some
                == report_pairs_spec(*run, previous)[i].1 is Some,
        forall|i: int|
            0 <= i < queries@.len() ==> (#[trigger] queries@[i]).before is Some
                == query_pairs_spec(*run, previous)[i].1 is Some,
    ensures
        r@ == format_text_spec(*run, previous, metrics@, queries@, use_color),
{
    let mut s = head_text(run);
    s.append(previous_text(run, previous).as_str());
    s.append(metrics_text(&run.fingerprint.k_values, metrics, use_color).as_str());
    let rows = rows_text(&run.per_query, queries, judged_k(run));
    s.append(queries_text(&rows, run.per_query.len()).as_str());
    s
}

// ---------------------------------------------------------------------------
// Laws
// ---------------------------------------------------------------------------
proof fn first_hit_in_longer(expected: ExpectedModel, hits: Seq<HitModel>, more: Seq<HitModel>)
    requires
        first_hit(expected, hits) is Some,
        hits.len() <= more.len(),
        more.take(hits.len() as int) == hits,
    ensures
        first_hit(expected, more) == first_hit(expected, hits),
    decreases hits.len(),
{
    assert(more[0] == hits[0]);
    if !is_hit_spec(expected, hits[0]) {
        assert(more.drop_first().take(hits.len() - 1) =~= hits.drop_first());
        first_hit_in_longer(expected, hits.drop_first(), more.drop_first());
    }
}

proof fn matched_in_longer(
    expected: Seq<ExpectedModel>,
    hits: Seq<HitModel>,
    more: Seq<HitModel>,
)
    requires
        hits.len() <= more.len(),
        more.take(hits.len() as int) == hits,
    ensures
        matched(expected, hits) <= matched(expected, more),
    decreases expected.len(),
{
    if expected.len() > 0 {
        matched_in_longer(expected.drop_last(), hits, more);
        if first_hit(expected.last(), hits) is Some {
            first_hit_in_longer(expected.last(), hits, more);
        }
    }
}

/// A hit is the expected one exactly where it is in the same document and, where a heading is
/// expected, has that heading; white space around a heading and the case of its letters do not
/// count.
pub proof fn a_hit_is_the_same_document_and_heading(expected: ExpectedModel, hit: HitModel)
    ensures
        is_hit_spec(expected, hit) <==> expected.path == hit.path && match (
            expected.heading,
            hit.heading,
        ) {
            (None, _) => true,
            (Some(_), None) => false,
            (Some(e), Some(h)) => text::lowercase_spec(text::trim_spec(e)) == text::lowercase_spec(
                text::trim_spec(h),
            ),
        },
{
}

/// Whether one of the first `k` hits is the expected one.
pub open spec fn found_within(expected: ExpectedModel, top: Seq<HitModel>, k: nat) -> bool {
    exists|j: int| 0 <= j < k && j < top.len() && #[trigger] is_hit_spec(expected, top[j])
}

/// Whether the hit at place `j` is the first that is the expected one.
pub open spec fn first_at(expected: ExpectedModel, top: Seq<HitModel>, j: int) -> bool {
    &&& 0 <= j < top.len()
    &&& is_hit_spec(expected, top[j])
    &&& forall|h: int| 0 <= h < j ==> !#[trigger] is_hit_spec(expected, top[h])
}

/// Whether the hit at place `j` is an expected one that no hit before it is.
pub open spec fn is_new_hit(expected: Seq<ExpectedModel>, top: Seq<HitModel>, j: int) -> bool {
    exists|i: int| 0 <= i < expected.len() && first_at(#[trigger] expected[i], top, j)
}

proof fn first_hit_is_the_first(expected: ExpectedModel, top: Seq<HitModel>, k: nat)
    ensures
        first_hit(expected, window(top, k)) is Some <==> found_within(expected, top, k),
        forall|j: int|
            j < k && #[trigger] first_at(expected, top, j) ==> first_hit(expected, window(top, k))
                == Some(top[j]),
{
    let hits = window(top, k);
    assert forall|j: int| 0 <= j < hits.len() implies hits[j] == top[j] by {}
    if first_hit(expected, hits) is Some {
        let at = first_hit_stands_somewhere(expected, hits);
        assert(is_hit_spec(expected, top[at]));
    }
    assert forall|j: int| j < k && #[trigger] first_at(expected, top, j) implies first_hit(
        expected,
        hits,
    ) == Some(top[j]) by {
        first_hit_by_place(expected, hits, j);
    }
    if found_within(expected, top, k) {
        let j = choose|j: int|
            0 <= j < k && j < top.len() && #[trigger] is_hit_spec(expected, top[j]);
        let f = earliest(expected, top, j);
        assert(first_at(expected, top, f));
    }
}

proof fn earliest(expected: ExpectedModel, top: Seq<HitModel>, j: int) -> (f: int)
    requires
        0 <= j < top.len(),
        is_hit_spec(expected, top[j]),
    ensures
        f <= j,
        first_at(expected, top, f),
    decreases j,
{
    if exists|h: int| 0 <= h < j && #[trigger] is_hit_spec(expected, top[h]) {
        let h = choose|h: int| 0 <= h < j && #[trigger] is_hit_spec(expected, top[h]);
        earliest(expected, top, h)
    } else {
        j
    }
}

proof fn first_hit_by_place(expected: ExpectedModel, hits: Seq<HitModel>, j: int)
    requires
        0 <= j < hits.len(),
        is_hit_spec(expected, hits[j]),
        forall|h: int| 0 <= h < j ==> !#[trigger] is_hit_spec(expected, hits[h]),
    ensures
        first_hit(expected, hits) == Some(hits[j]),
    decreases j,
{
    if j > 0 {
        assert(!is_hit_spec(expected, hits[0]));
        let rest = hits.drop_first();
        assert forall|h: int| 0 <= h < j - 1 implies !#[trigger] is_hit_spec(
            expected,
            rest[h],
        ) by {
            assert(rest[h] == hits[h + 1]);
        }
        first_hit_by_place(expected, rest, j - 1);
    }
}

/// recall@k counts the expected hits that are among the first `k`, each once, out of all that are
/// expected.
pub proof fn recall_counts_what_is_found(
    expected: Seq<ExpectedModel>,
    top: Seq<HitModel>,
    k: nat,
)
    ensures
        expected.len() > 0 ==> recall_spec(expected, top, k) == (
            expected.filter(|e: ExpectedModel| found_within(e, top, k)).len(),
            expected.len(),
        ),
        expected.len() == 0 ==> recall_spec(expected, top, k).0 == 0,
{
    matched_is_a_count(expected, top, k);
}

proof fn matched_is_a_count(expected: Seq<ExpectedModel>, top: Seq<HitModel>, k: nat)
    ensures
        matched(expected, window(top, k)) == expected.filter(
            |e: ExpectedModel| found_within(e, top, k),
        ).len(),
    decreases expected.len(),
{
    reveal(Seq::filter);
    if expected.len() > 0 {
        matched_is_a_count(expected.drop_last(), top, k);
        first_hit_is_the_first(expected.last(), top, k);
    }
}

/// nDCG@k ranks each expected hit that is among the first `k` once: at the rank of the first hit
/// that is it, in the order in which the hits are expected. The ideal list is as long as there are
/// expected hits, but no longer than `k`.
pub proof fn ndcg_ranks_each_expected_hit_once(
    expected: Seq<ExpectedModel>,
    top: Seq<HitModel>,
    k: nat,
    i: int,
    j: int,
)
    ensures
        ({
            let found = |e: ExpectedModel| found_within(e, top, k);
            let (ranks, ideal) = ndcg_spec(expected, top, k);
            &&& ranks.len() == expected.filter(found).len()
            &&& ranks.len() <= expected.len()
            &&& 0 <= i < expected.len() && j < k && first_at(expected[i], top, j) ==> {
                let m = expected.take(i).filter(found).len() as int;
                m < ranks.len() && ranks[m] == top[j].rank
            }
            &&& ideal <= k && ideal <= expected.len()
            &&& top.len() > 0 ==> ideal == k || ideal == expected.len()
            &&& top.len() == 0 ==> ideal == 0
        }),
{
    let found = |e: ExpectedModel| found_within(e, top, k);
    ranks_by_place(expected, top, k);
    expected.filter_lemma(found);
    if expected.len() == 0 || top.len() == 0 || k == 0 {
        nothing_is_found(expected, top, k);
    } else if 0 <= i < expected.len() && j < k && first_at(expected[i], top, j) {
        rank_at_place(expected, top, k, i, j);
    }
}

proof fn nothing_is_found(expected: Seq<ExpectedModel>, top: Seq<HitModel>, k: nat)
    requires
        expected.len() == 0 || top.len() == 0 || k == 0,
    ensures
        expected.filter(|e: ExpectedModel| found_within(e, top, k)).len() == 0,
    decreases expected.len(),
{
    reveal(Seq::filter);
    if expected.len() > 0 {
        nothing_is_found(expected.drop_last(), top, k);
    }
}

proof fn ranks_by_place(expected: Seq<ExpectedModel>, top: Seq<HitModel>, k: nat)
    ensures
        found_ranks(expected, window(top, k)).len() == expected.filter(
            |e: ExpectedModel| found_within(e, top, k),
        ).len(),
        found_ranks(expected, window(top, k)).len() <= expected.len(),
    decreases expected.len(),
{
    reveal(Seq::filter);
    if expected.len() > 0 {
        ranks_by_place(expected.drop_last(), top, k);
        first_hit_is_the_first(expected.last(), top, k);
    }
}

proof fn rank_at_place(
    expected: Seq<ExpectedModel>,
    top: Seq<HitModel>,
    k: nat,
    i: int,
    j: int,
)
    requires
        0 <= i < expected.len(),
        j < k,
        first_at(expected[i], top, j),
    ensures
        ({
            let ranks = found_ranks(expected, window(top, k));
            let m = expected.take(i).filter(|e: ExpectedModel| found_within(e, top, k)).len();
            m < ranks.len() && ranks[m as int] == top[j].rank
        }),
    decreases expected.len(),
{
    let rest = expected.drop_last();
    first_hit_is_the_first(expected.last(), top, k);
    if i < rest.len() {
        assert(rest.take(i) =~= expected.take(i));
        rank_at_place(rest, top, k, i, j);
    } else {
        assert(expected.take(i) =~= rest);
        ranks_by_place(rest, top, k);
    }
}

/// A perfect ranking is worth 1 at every cut-off, whatever a rank is worth: where each of the
/// first hits, as many as are expected or looked at, is an expected one, and another each time.
pub proof fn a_perfect_ranking_is_worth_one(
    expected: Seq<ExpectedModel>,
    top: Seq<HitModel>,
    k: nat,
    gain: spec_fn(nat) -> nat,
)
    requires
        ranks_are_places(top),
        expected_apart(expected, top),
        forall|j: int|
            0 <= j < k && j < expected.len() ==> #[trigger] is_new_hit(expected, top, j),
    ensures
        total_gain(gain, ndcg_spec(expected, top, k).0) == ideal_gain(
            gain,
            ndcg_spec(expected, top, k).1,
        ),
        ndcg_spec(expected, top, k).1 == if expected.len() < k {
            expected.len()
        } else {
            k
        },
{
    if expected.len() > 0 && k > 0 {
        assert(is_new_hit(expected, top, 0));
        assert(0 < top.len());
        let n = if expected.len() < k {
            expected.len()
        } else {
            k
        };
        assert(is_new_hit(expected, top, n - 1));
        assert(top[n - 1].rank == n);
        let hits = window(top, k);
        let ranks = found_ranks(expected, hits);
        assert forall|i: int| 0 <= i < hits.len() implies (#[trigger] hits[i]).rank == i + 1 by {
            assert(hits[i] == top[i]);
        }
        assert forall|i: int, j: int, h: int|
            0 <= i < j < expected.len() && 0 <= h < hits.len() implies !(is_hit_spec(
            #[trigger] expected[i],
            #[trigger] hits[h],
        ) && is_hit_spec(#[trigger] expected[j], hits[h])) by {
            assert(hits[h] == top[h]);
        }
        found_ranks_differ(expected, hits);
        let flat = |r: nat| 0nat;
        distinct_ranks_are_worth_no_more(flat, ranks, hits.len());
        assert(ranks.len() <= n);
        assert forall|j: int| 0 <= j < n implies ranks.contains(#[trigger] ((j + 1) as usize)) by {
            assert(is_new_hit(expected, top, j));
            let i = choose|i: int|
                0 <= i < expected.len() && first_at(#[trigger] expected[i], top, j);
            rank_at_place(expected, top, k, i, j);
            let m = expected.take(i).filter(|e: ExpectedModel| found_within(e, top, k)).len();
            assert(ranks[m as int] == top[j].rank);
            assert(top[j].rank == j + 1);
        }
        all_ranks_are_worth_the_ideal(gain, ranks, n);
    }
}

proof fn all_ranks_are_worth_the_ideal(gain: spec_fn(nat) -> nat, ranks: Seq<usize>, n: nat)
    requires
        ranks.len() <= n,
        n <= usize::MAX,
        forall|j: int| 0 <= j < n ==> ranks.contains(#[trigger] ((j + 1) as usize)),
    ensures
        total_gain(gain, ranks) == ideal_gain(gain, n),
    decreases n,
{
    if n > 0 {
        assert(ranks.contains((n - 1 + 1) as usize));
        let at = choose|at: int| 0 <= at < ranks.len() && ranks[at] == n as usize;
        let rest = ranks.remove(at);
        assert forall|j: int| 0 <= j < n - 1 implies rest.contains(
            #[trigger] ((j + 1) as usize),
        ) by {
            assert(ranks.contains((j + 1) as usize));
            let m = choose|m: int| 0 <= m < ranks.len() && ranks[m] == (j + 1) as usize;
            assert(m != at);
            if m < at {
                assert(rest[m] == ranks[m]);
            } else {
                assert(rest[m - 1] == ranks[m]);
            }
        }
        removing_splits_gain(gain, ranks, at);
        all_ranks_are_worth_the_ideal(gain, rest, (n - 1) as nat);
    }
}

/// The reciprocal rank goes by the first hit, however far down, that is any of the expected ones;
/// it is 0 where none is.
pub proof fn reciprocal_rank_goes_by_the_first_hit(
    expected: Seq<ExpectedModel>,
    top: Seq<HitModel>,
    j: int,
)
    ensures
        ({
            let good = |h: int|
                exists|i: int| 0 <= i < expected.len() && is_hit_spec(#[trigger] expected[i], top[h]);
            let r = reciprocal_rank_spec(expected, top);
            &&& 0 <= j < top.len() && top[j].rank > 0 && good(j) && (forall|h: int|
                0 <= h < j ==> !#[trigger] good(h)) ==> r == (1nat, top[j].rank as nat)
            &&& (forall|h: int| 0 <= h < top.len() ==> !#[trigger] good(h)) ==> r.0 == 0
        }),
{
    let good = |h: int|
        exists|i: int| 0 <= i < expected.len() && is_hit_spec(#[trigger] expected[i], top[h]);
    assert forall|h: int| 0 <= h < top.len() implies #[trigger] good(h) == is_expected(
        expected,
        top[h],
    ) by {}
    if forall|h: int| 0 <= h < top.len() ==> !#[trigger] good(h) {
        assert forall|h: int| 0 <= h < top.len() implies !is_expected(
            expected,
            #[trigger] top[h],
        ) by {
            assert(!good(h));
        }
        none_expected(expected, top);
    }
    if 0 <= j < top.len() && good(j) && (forall|h: int| 0 <= h < j ==> !#[trigger] good(h)) {
        assert forall|h: int| 0 <= h < j implies !is_expected(expected, #[trigger] top[h]) by {
            assert(!good(h));
        }
        first_expected_by_place(expected, top, j);
    }
}

proof fn none_expected(expected: Seq<ExpectedModel>, hits: Seq<HitModel>)
    requires
        forall|h: int| 0 <= h < hits.len() ==> !is_expected(expected, #[trigger] hits[h]),
    ensures
        first_expected(expected, hits) is None,
    decreases hits.len(),
{
    if hits.len() > 0 {
        assert(!is_expected(expected, hits[0]));
        none_expected(expected, hits.drop_first());
    }
}

proof fn first_expected_by_place(expected: Seq<ExpectedModel>, hits: Seq<HitModel>, j: int)
    requires
        0 <= j < hits.len(),
        is_expected(expected, hits[j]),
        forall|h: int| 0 <= h < j ==> !is_expected(expected, #[trigger] hits[h]),
    ensures
        first_expected(expected, hits) == Some(hits[j]),
    decreases j,
{
    if j > 0 {
        assert(!is_expected(expected, hits[0]));
        first_expected_by_place(expected, hits.drop_first(), j - 1);
    }
}

/// Recall is at most 1, and looking at more hits never lowers it.
pub proof fn recall_is_a_fraction_and_grows(
    expected: Seq<ExpectedModel>,
    top: Seq<HitModel>,
    k: nat,
    more: nat,
)
    requires
        k <= more,
    ensures
        recall_spec(expected, top, k).0 <= recall_spec(expected, top, k).1,
        recall_spec(expected, top, k).0 <= recall_spec(expected, top, more).0,
        recall_spec(expected, top, k).1 == recall_spec(expected, top, more).1,
{
    let a = window(top, k);
    let b = window(top, more);
    assert(b.take(a.len() as int) =~= a);
    matched_in_longer(expected, a, b);
    matched_is_bounded(expected, a);
}

proof fn matched_is_bounded(expected: Seq<ExpectedModel>, hits: Seq<HitModel>)
    ensures
        matched(expected, hits) <= expected.len(),
    decreases expected.len(),
{
    if expected.len() > 0 {
        matched_is_bounded(expected.drop_last(), hits);
    }
}

/// The reciprocal rank is at most 1.
pub proof fn reciprocal_rank_is_a_fraction(expected: Seq<ExpectedModel>, top: Seq<HitModel>)
    ensures
        reciprocal_rank_spec(expected, top).0 <= reciprocal_rank_spec(expected, top).1,
        reciprocal_rank_spec(expected, top).1 >= 1,
{
}

/// The sum of what the ranks `1..=n` are worth.
pub open spec fn ideal_gain(gain: spec_fn(nat) -> nat, n: nat) -> nat
    decreases n,
{
    if n == 0 {
        0
    } else {
        ideal_gain(gain, (n - 1) as nat) + gain(n)
    }
}

/// The sum of what some ranks are worth.
pub open spec fn total_gain(gain: spec_fn(nat) -> nat, ranks: Seq<usize>) -> nat
    decreases ranks.len(),
{
    if ranks.len() == 0 {
        0
    } else {
        total_gain(gain, ranks.drop_last()) + gain(ranks.last() as nat)
    }
}

/// Whether a later rank is never worth more.
pub open spec fn never_rises(gain: spec_fn(nat) -> nat) -> bool {
    forall|i: nat, j: nat| i <= j ==> #[trigger] gain(i) >= #[trigger] gain(j)
}

/// Whether ranks are the places of the hits, counted from 1.
pub open spec fn ranks_are_places(top: Seq<HitModel>) -> bool {
    forall|i: int| 0 <= i < top.len() ==> (#[trigger] top[i]).rank == i + 1
}

/// Whether no hit is expected twice.
pub open spec fn expected_apart(expected: Seq<ExpectedModel>, top: Seq<HitModel>) -> bool {
    forall|i: int, j: int, h: int|
        0 <= i < j < expected.len() && 0 <= h < top.len() ==> !(is_hit_spec(
            #[trigger] expected[i],
            #[trigger] top[h],
        ) && is_hit_spec(#[trigger] expected[j], top[h]))
}

proof fn first_hit_stands_somewhere(e: ExpectedModel, hits: Seq<HitModel>) -> (at: int)
    requires
        first_hit(e, hits) is Some,
    ensures
        0 <= at < hits.len(),
        first_hit(e, hits) == Some(hits[at]),
        is_hit_spec(e, hits[at]),
    decreases hits.len(),
{
    if is_hit_spec(e, hits[0]) {
        0
    } else {
        let at = first_hit_stands_somewhere(e, hits.drop_first());
        at + 1
    }
}

proof fn found_ranks_come_from_hits(
    expected: Seq<ExpectedModel>,
    hits: Seq<HitModel>,
    m: int,
) -> (r: (int, int))
    requires
        0 <= m < found_ranks(expected, hits).len(),
    ensures
        0 <= r.0 < expected.len(),
        0 <= r.1 < hits.len(),
        is_hit_spec(expected[r.0], hits[r.1]),
        found_ranks(expected, hits)[m] == hits[r.1].rank,
    decreases expected.len(),
{
    let rest = found_ranks(expected.drop_last(), hits);
    if m < rest.len() {
        found_ranks_come_from_hits(expected.drop_last(), hits, m)
    } else {
        let at = first_hit_stands_somewhere(expected.last(), hits);
        (expected.len() - 1, at)
    }
}

proof fn found_ranks_differ(expected: Seq<ExpectedModel>, hits: Seq<HitModel>)
    requires
        ranks_are_places(hits),
        expected_apart(expected, hits),
    ensures
        found_ranks(expected, hits).no_duplicates(),
        found_ranks(expected, hits).len() <= expected.len(),
        forall|m: int|
            0 <= m < found_ranks(expected, hits).len() ==> 1 <= #[trigger] found_ranks(
                expected,
                hits,
            )[m] <= hits.len(),
    decreases expected.len(),
{
    let all = found_ranks(expected, hits);
    if expected.len() > 0 {
        let first = expected.drop_last();
        assert(expected_apart(first, hits)) by {
            assert forall|i: int, j: int, h: int|
                0 <= i < j < first.len() && 0 <= h < hits.len() implies !(is_hit_spec(
                #[trigger] first[i],
                #[trigger] hits[h],
            ) && is_hit_spec(#[trigger] first[j], hits[h])) by {
                assert(first[i] == expected[i] && first[j] == expected[j]);
            }
        }
        found_ranks_differ(first, hits);
        let rest = found_ranks(first, hits);
        if first_hit(expected.last(), hits) is Some {
            let at = first_hit_stands_somewhere(expected.last(), hits);
            assert(hits[at].rank == at + 1);
            assert forall|m: int| 0 <= m < rest.len() implies rest[m] != all.last() by {
                let (e, h) = found_ranks_come_from_hits(first, hits, m);
                assert(first[e] == expected[e]);
                assert(hits[h].rank == h + 1);
                if h == at {
                    assert(is_hit_spec(expected[e], hits[h]) && is_hit_spec(
                        expected[expected.len() - 1],
                        hits[h],
                    ));
                }
            }
        }
    }
}

proof fn removing_splits_gain(gain: spec_fn(nat) -> nat, ranks: Seq<usize>, at: int)
    requires
        0 <= at < ranks.len(),
    ensures
        total_gain(gain, ranks) == total_gain(gain, ranks.remove(at)) + gain(ranks[at] as nat),
    decreases ranks.len(),
{
    let rest = ranks.remove(at);
    if at == ranks.len() - 1 {
        assert(rest =~= ranks.drop_last());
    } else {
        removing_splits_gain(gain, ranks.drop_last(), at);
        assert(rest.drop_last() =~= ranks.drop_last().remove(at));
        assert(rest.last() == ranks.last());
    }
}

proof fn distinct_ranks_are_worth_no_more(
    gain: spec_fn(nat) -> nat,
    ranks: Seq<usize>,
    bound: nat,
)
    requires
        never_rises(gain),
        ranks.no_duplicates(),
        forall|m: int| 0 <= m < ranks.len() ==> 1 <= #[trigger] ranks[m] <= bound,
    ensures
        ranks.len() <= bound,
        total_gain(gain, ranks) <= ideal_gain(gain, ranks.len()),
    decreases bound,
{
    if bound == 0 {
        if ranks.len() > 0 {
            assert(1 <= ranks[0] <= 0);
        }
    } else if exists|at: int| 0 <= at < ranks.len() && #[trigger] ranks[at] == bound {
        let at = choose|at: int| 0 <= at < ranks.len() && #[trigger] ranks[at] == bound;
        let rest = ranks.remove(at);
        assert forall|m: int| 0 <= m < rest.len() implies 1 <= #[trigger] rest[m] <= bound - 1 by {
            let m0 = if m < at {
                m
            } else {
                m + 1
            };
            assert(rest[m] == ranks[m0]);
            assert(ranks[m0] != ranks[at]);
        }
        assert(rest.no_duplicates()) by {
            assert forall|i: int, j: int|
                0 <= i < rest.len() && 0 <= j < rest.len() && i != j implies rest[i]
                != rest[j] by {
                let a = if i < at {
                    i
                } else {
                    i + 1
                };
                let b = if j < at {
                    j
                } else {
                    j + 1
                };
                assert(rest[i] == ranks[a] && rest[j] == ranks[b]);
            }
        }
        distinct_ranks_are_worth_no_more(gain, rest, (bound - 1) as nat);
        removing_splits_gain(gain, ranks, at);
        assert(gain(ranks.len()) >= gain(bound));
    } else {
        assert forall|m: int| 0 <= m < ranks.len() implies 1 <= #[trigger] ranks[m] <= bound
            - 1 by {
            assert(ranks[m] != bound);
        }
        distinct_ranks_are_worth_no_more(gain, ranks, (bound - 1) as nat);
    }
}

proof fn ideal_gain_grows(gain: spec_fn(nat) -> nat, n: nat, m: nat)
    requires
        n <= m,
    ensures
        ideal_gain(gain, n) <= ideal_gain(gain, m),
    decreases m,
{
    if n < m {
        ideal_gain_grows(gain, n, (m - 1) as nat);
    }
}

/// nDCG as a fraction, if `gain` says what a rank is worth: what the ranks of the hits are worth,
/// out of what the ideal ranks are worth. It is never more than the whole.
pub open spec fn ndcg_value(gain: spec_fn(nat) -> nat, terms: (Seq<usize>, nat)) -> (nat, nat) {
    let found = total_gain(gain, terms.0);
    let ideal = ideal_gain(gain, terms.1);
    (
        if ideal < found {
            ideal
        } else {
            found
        },
        ideal,
    )
}

/// nDCG is at most 1, whatever is expected and found and whatever a rank is worth; and it is what
/// the sums say wherever they do not exceed 1.
pub proof fn ndcg_is_at_most_one(
    expected: Seq<ExpectedModel>,
    top: Seq<HitModel>,
    k: nat,
    gain: spec_fn(nat) -> nat,
)
    ensures
        ({
            let terms = ndcg_spec(expected, top, k);
            let v = ndcg_value(gain, terms);
            &&& v.0 <= v.1
            &&& total_gain(gain, terms.0) <= ideal_gain(gain, terms.1) ==> v.0 == total_gain(
                gain,
                terms.0,
            )
        }),
{
}

/// Where no hit is expected twice, nDCG needs no cap: whatever a rank is worth, as long as a later
/// one is never worth more, the hits found are worth no more in all than the ideal ranking. Ranks
/// have to be places.
pub proof fn ndcg_needs_a_cap_only_for_shared_hits(
    expected: Seq<ExpectedModel>,
    top: Seq<HitModel>,
    k: nat,
    gain: spec_fn(nat) -> nat,
)
    requires
        ranks_are_places(top),
        expected_apart(expected, top),
        never_rises(gain),
    ensures
        total_gain(gain, ndcg_spec(expected, top, k).0) <= ideal_gain(
            gain,
            ndcg_spec(expected, top, k).1,
        ),
        ndcg_value(gain, ndcg_spec(expected, top, k)).0 == total_gain(
            gain,
            ndcg_spec(expected, top, k).0,
        ),
{
    if expected.len() > 0 && top.len() > 0 && k > 0 {
        let hits = window(top, k);
        assert forall|i: int| 0 <= i < hits.len() implies (#[trigger] hits[i]).rank == i + 1 by {
            assert(hits[i] == top[i]);
        }
        assert forall|i: int, j: int, h: int|
            0 <= i < j < expected.len() && 0 <= h < hits.len() implies !(is_hit_spec(
            #[trigger] expected[i],
            #[trigger] hits[h],
        ) && is_hit_spec(#[trigger] expected[j], hits[h])) by {
            assert(hits[h] == top[h]);
        }
        found_ranks_differ(expected, hits);
        let ranks = found_ranks(expected, hits);
        distinct_ranks_are_worth_no_more(gain, ranks, hits.len());
        ideal_gain_grows(gain, ranks.len(), ndcg_spec(expected, top, k).1);
    }
}

/// The hits of a search get their places as ranks.
pub proof fn ranked_hits_have_their_places(found: Seq<FoundHit>)
    requires
        found.len() < usize::MAX,
    ensures
        ranks_are_places(ranked(found)),
{
}

/// The greatest of some numbers is one of them, and none is greater.
pub proof fn the_greatest_is_one_of_them(v: Seq<usize>)
    ensures
        greatest(v) is None <==> v.len() == 0,
        greatest(v) matches Some(m) ==> v.contains(m) && forall|i: int|
            0 <= i < v.len() ==> #[trigger] v[i] <= m,
    decreases v.len(),
{
    if v.len() > 0 {
        let rest = v.drop_last();
        the_greatest_is_one_of_them(rest);
        assert(v[v.len() - 1] == v.last());
        let m = greatest(v)->0;
        assert forall|i: int| 0 <= i < v.len() implies #[trigger] v[i] <= m by {
            if i < rest.len() {
                assert(rest[i] == v[i]);
            }
        }
        if m != v.last() {
            let i = choose|i: int| 0 <= i < rest.len() && rest[i] == m;
            assert(v[i] == m);
        }
    }
}

/// A search is for enough hits for every cut-off and for the limit, and for no more than one of
/// them asks; ten where there is no cut-off and the limit is less. The limit of a run that names
/// none is the greatest of its cut-offs, where that fits.
pub proof fn a_search_is_for_enough_hits(k_values: Seq<usize>, limit: u32)
    ensures
        ({
            let n = fetch_count_spec(k_values, limit);
            &&& forall|i: int| 0 <= i < k_values.len() ==> #[trigger] k_values[i] <= n
            &&& limit <= n
            &&& n == limit || (exists|i: int| 0 <= i < k_values.len() && #[trigger] k_values[i] == n)
                || (k_values.len() == 0 && n == 10)
            &&& k_values.len() == 0 ==> n >= 10 && default_limit_spec(k_values) == 10
            &&& k_values.len() > 0 && (forall|i: int|
                0 <= i < k_values.len() ==> #[trigger] k_values[i] <= u32::MAX) ==> {
                &&& forall|i: int|
                    0 <= i < k_values.len() ==> #[trigger] k_values[i] <= default_limit_spec(
                        k_values,
                    )
                &&& exists|i: int|
                    0 <= i < k_values.len() && #[trigger] k_values[i] == default_limit_spec(
                        k_values,
                    )
            }
        }),
{
    the_greatest_is_one_of_them(k_values);
    if k_values.len() > 0 {
        let m = greatest(k_values)->0;
        let i = choose|i: int| 0 <= i < k_values.len() && k_values[i] == m;
        assert(k_values[i] == m);
    }
}

/// A query without an id goes by its beginning, up to thirty-two characters of it.
pub proof fn a_query_goes_by_its_id_or_its_beginning(id: Seq<char>, query: Seq<char>)
    ensures
        query_id_spec(Some(id), query) == id,
        exists|rest: Seq<char>| query == #[trigger] (query_id_spec(None, query) + rest),
        query_id_spec(None, query).len() <= 32,
        query_id_spec(None, query).len() == 32 || query_id_spec(None, query) == query,
{
    let name = query_id_spec(None, query);
    assert(query =~= name + query.skip(name.len() as int));
}

/// The hits of a search are ranked as they come, from 1 on, and are otherwise as they were.
pub proof fn hits_are_ranked_as_they_come(found: Seq<FoundHit>, i: int)
    requires
        0 <= i < found.len() < usize::MAX,
    ensures
        ranked(found).len() == found.len(),
        ranked(found)[i].rank == i + 1,
        ranked(found)[i].path == found[i].path@,
        ranked(found)[i].heading is Some <==> found[i].heading is Some,
        found[i].heading is Some ==> ranked(found)[i].heading->0 == found[i].heading->0@,
        ranked(found)[i].score_bits == found[i].score_bits,
{
}

/// Only queries of which something is expected count, all of them and in order, and each brings
/// the numbers recorded for it; 0 where none is.
pub proof fn means_are_of_what_is_expected(queries: Seq<QueryResult>, k: usize)
    ensures
        ({
            let count = queries.filter(|q: QueryResult| q.expected@.len() > 0);
            let zero_or = |m: Map<usize, u64>|
                if m.dom().contains(k) {
                    m[k]
                } else {
                    0
                };
            &&& counted(queries) == count
            &&& recalls(counted(queries), k) == count.map_values(
                |q: QueryResult| zero_or(q.metrics.recall_at_k@),
            )
            &&& ndcgs(counted(queries), k) == count.map_values(
                |q: QueryResult| zero_or(q.metrics.ndcg_at_k@),
            )
            &&& reciprocal_ranks(counted(queries)) == count.map_values(
                |q: QueryResult| q.metrics.reciprocal_rank,
            )
        }),
{
    counted_is_a_filter(queries);
    let count = queries.filter(|q: QueryResult| q.expected@.len() > 0);
    let zero_or = |m: Map<usize, u64>|
        if m.dom().contains(k) {
            m[k]
        } else {
            0
        };
    assert(recalls(count, k) =~= count.map_values(
        |q: QueryResult| zero_or(q.metrics.recall_at_k@),
    ));
    assert(ndcgs(count, k) =~= count.map_values(|q: QueryResult| zero_or(q.metrics.ndcg_at_k@)));
    assert(reciprocal_ranks(count) =~= count.map_values(
        |q: QueryResult| q.metrics.reciprocal_rank,
    ));
}

proof fn counted_is_a_filter(queries: Seq<QueryResult>)
    ensures
        counted(queries) == queries.filter(|q: QueryResult| q.expected@.len() > 0),
    decreases queries.len(),
{
    reveal(Seq::filter);
    if queries.len() > 0 {
        counted_is_a_filter(queries.drop_last());
    }
}

/// Runs can be compared exactly where everything that their numbers depend on is the same: no
/// part of it can differ. A fingerprint agrees with another if that agrees with it.
pub proof fn comparable_runs_differ_in_nothing(a: FingerprintModel, b: FingerprintModel)
    ensures
        a.agrees(b) == b.agrees(a),
        a.agrees(b) ==> a.model == b.model && a.reranker == b.reranker && a.limit == b.limit
            && a.k_values == b.k_values && a.golden_hash == b.golden_hash && a.parent_retriever
            == b.parent_retriever && (a.mmr is Some <==> b.mmr is Some),
        a.agrees(b) && a.mmr is Some ==> ieee::equal_spec(
            a.mmr->0.lambda_bits,
            b.mmr->0.lambda_bits,
        ) && ieee::equal_spec(
            a.mmr->0.same_doc_penalty_bits,
            b.mmr->0.same_doc_penalty_bits,
        ),
        a == b && (a.mmr matches Some(m) ==> ieee::finite_spec(m.lambda_bits) && ieee::finite_spec(
            m.same_doc_penalty_bits,
        )) ==> a.agrees(b),
{
}

/// The fingerprint of a run is of what it does: a flag counts before the configuration, and what
/// is off leaves no trace.
pub proof fn a_fingerprint_is_of_what_a_run_does(opts: RunOpts, hash: Seq<char>)
    ensures
        ({
            let f = opts.fingerprint(hash);
            let o = opts.overrides;
            let c = opts.search_config;
            let mmr_on = o.mmr == Some(true) || (o.mmr is None && c.mmr.enabled);
            let parent_on = o.parent_retriever == Some(true) || (o.parent_retriever is None
                && c.parent_retriever.enabled);
            &&& f.golden_hash == hash && f.limit == opts.limit && f.k_values == opts.k_values@
            &&& f.reranker is None <==> opts.reranker_choice == RerankerChoice::Disabled
            &&& f.mmr is Some <==> mmr_on
            &&& f.parent_retriever is Some <==> parent_on
            &&& mmr_on && o.mmr_lambda_bits is Some ==> f.mmr->0.lambda_bits
                == o.mmr_lambda_bits->0
            &&& mmr_on && o.mmr_lambda_bits is None ==> f.mmr->0.lambda_bits == c.mmr.lambda_bits
            &&& mmr_on && o.mmr_same_doc_penalty_bits is Some ==> f.mmr->0.same_doc_penalty_bits
                == o.mmr_same_doc_penalty_bits->0
            &&& mmr_on && o.mmr_same_doc_penalty_bits is None ==> f.mmr->0.same_doc_penalty_bits
                == c.mmr.same_doc_penalty_bits
            &&& parent_on ==> f.parent_retriever->0.whole_doc_threshold_tokens
                == c.parent_retriever.whole_doc_threshold_tokens
                && f.parent_retriever->0.max_expanded_tokens
                == c.parent_retriever.max_expanded_tokens
        }),
{
}

/// A report sets a number beside that of the run before exactly where there is one and the golden
/// set is the same. It has recall at each cut-off, in order, then the mean reciprocal rank, and
/// then nDCG at the greatest cut-off, if there is any.
pub proof fn a_report_compares_like_with_like(run: EvalRun, prev: EvalRun, i: int)
    ensures
        ({
            let ks = run.fingerprint.k_values@;
            let n = ks.len() as int;
            let same = prev.fingerprint.golden_hash@ == run.fingerprint.golden_hash@;
            let alone = report_pairs_spec(run, None);
            let pairs = report_pairs_spec(run, Some(&prev));
            &&& alone.len() == pairs.len()
            &&& pairs.len() == if n == 0 {
                1
            } else {
                n + 2
            }
            &&& 0 <= i < alone.len() ==> alone[i].1 is None && alone[i].0 == pairs[i].0
            &&& 0 <= i < pairs.len() ==> (pairs[i].1 is Some <==> same)
            &&& 0 <= i < n && run.aggregate.recall_at_k@.dom().contains(ks[i]) ==> pairs[i].0
                == run.aggregate.recall_at_k@[ks[i]]
            &&& 0 <= i < n && same && prev.aggregate.recall_at_k@.dom().contains(ks[i])
                ==> pairs[i].1 == Some(prev.aggregate.recall_at_k@[ks[i]])
            &&& pairs[n].0 == run.aggregate.mrr
            &&& same ==> pairs[n].1 == Some(prev.aggregate.mrr)
            &&& 0 <= i < n && (forall|j: int| 0 <= j < n ==> #[trigger] ks[j] <= ks[i]) ==> {
                &&& run.aggregate.ndcg_at_k@.dom().contains(ks[i]) ==> pairs[n + 1].0
                    == run.aggregate.ndcg_at_k@[ks[i]]
                &&& same && prev.aggregate.ndcg_at_k@.dom().contains(ks[i]) ==> pairs[n + 1].1
                    == Some(prev.aggregate.ndcg_at_k@[ks[i]])
            }
        }),
{
    let ks = run.fingerprint.k_values@;
    the_greatest_is_one_of_them(ks);
    if 0 <= i < ks.len() {
        let m = greatest(ks)->0;
        let j = choose|j: int| 0 <= j < ks.len() && ks[j] == m;
        assert(ks[j] == m);
        assert(ks[i] <= m);
    }
}

/// A query is set beside the first query of the same name of the run before.
pub proof fn queries_are_compared_by_name(
    run: EvalRun,
    prev: EvalRun,
    q: QueryResult,
    j: int,
)
    ensures
        ({
            let before = prev.per_query@;
            let same = prev.fingerprint.golden_hash@ == run.fingerprint.golden_hash@;
            let pair = query_pair(run, Some(&prev), q);
            let k = query_k(run);
            &&& query_pair(run, None, q).1 is None
            &&& !same ==> pair.1 is None
            &&& (forall|h: int| 0 <= h < before.len() ==> (#[trigger] before[h]).id@ != q.id@)
                ==> pair.1 is None
            &&& q.metrics.recall_at_k@.dom().contains(k) ==> pair.0 == q.metrics.recall_at_k@[k]
            &&& same && 0 <= j < before.len() && before[j].id@ == q.id@ && (forall|h: int|
                0 <= h < j ==> (#[trigger] before[h]).id@ != q.id@)
                && before[j].metrics.recall_at_k@.dom().contains(k) ==> pair.1 == Some(
                before[j].metrics.recall_at_k@[k],
            )
        }),
{
    let before = prev.per_query@;
    if forall|h: int| 0 <= h < before.len() ==> (#[trigger] before[h]).id@ != q.id@ {
        no_query_named(before, q.id@);
    }
    if 0 <= j < before.len() && before[j].id@ == q.id@ && (forall|h: int|
        0 <= h < j ==> (#[trigger] before[h]).id@ != q.id@) {
        query_named_by_place(before, q.id@, j);
    }
}

proof fn no_query_named(queries: Seq<QueryResult>, id: Seq<char>)
    requires
        forall|h: int| 0 <= h < queries.len() ==> (#[trigger] queries[h]).id@ != id,
    ensures
        query_named(queries, id) is None,
    decreases queries.len(),
{
    if queries.len() > 0 {
        assert(queries[0].id@ != id);
        no_query_named(queries.drop_first(), id);
    }
}

proof fn query_named_by_place(queries: Seq<QueryResult>, id: Seq<char>, j: int)
    requires
        0 <= j < queries.len(),
        queries[j].id@ == id,
        forall|h: int| 0 <= h < j ==> (#[trigger] queries[h]).id@ != id,
    ensures
        query_named(queries, id) == Some(queries[j]),
    decreases j,
{
    if j > 0 {
        assert(queries[0].id@ != id);
        query_named_by_place(queries.drop_first(), id, j - 1);
    }
}

/// A query gets a row exactly where nothing is expected of it, nothing is found for it, or its
/// recall has dropped since the run before; the rows come in the order of the queries.
pub proof fn rows_are_for_misses_and_regressions(
    queries: Seq<QueryResult>,
    q: QueryResult,
    texts: Seq<QueryText>,
    k: usize,
)
    requires
        texts.len() == queries.len() + 1,
    ensures
        ({
            let t = texts.last();
            let before = query_rows(queries, texts.drop_last(), k);
            let after = query_rows(queries.push(q), texts, k);
            if q.expected@.len() == 0 || t.zero || (t.before is Some && t.dropped) {
                after.len() == before.len() + 1 && after.drop_last() == before
                    && text::contains_spec(after.last(), q.id@) && text::ends_with_spec(
                    after.last(),
                    t.now@,
                ) && (t.before is Some ==> text::contains_spec(after.last(), t.before->0@))
            } else {
                after == before
            }
        }),
        query_rows(seq![], texts, k).len() == 0,
{
    let t = texts.last();
    assert(queries.push(q).drop_last() =~= queries);
    rows_go_by_their_texts(queries, texts.drop_last(), texts, k);
    let after = query_rows(queries.push(q), texts, k);
    if noteworthy(q, t) {
        assert(after.drop_last() =~= query_rows(queries, texts, k));
        a_row_shows_its_query(q, t, k);
    }
}

proof fn a_row_shows_its_query(q: QueryResult, t: QueryText, k: usize)
    ensures
        text::contains_spec(query_row(q, t, k), q.id@),
        text::ends_with_spec(query_row(q, t, k), t.now@),
        t.before is Some ==> text::contains_spec(query_row(q, t, k), t.before->0@),
{
    let row = query_row(q, t, k);
    let arrow = if t.zero {
        "✗"@
    } else if t.before is Some && t.dropped {
        "↓"@
    } else {
        "·"@
    };
    let numbers = match t.before {
        Some(b) => b@ + " → "@ + t.now@,
        None => t.now@,
    };
    let pad = text::spaces(text::shortfall(q.id@.len(), 24));
    row_in_parts(
        "  "@ + arrow + " "@,
        q.id@,
        pad,
        " recall@"@,
        text::decimal_spec(k as nat),
        ": "@,
        numbers,
    );
    let label = " recall@"@ + text::decimal_spec(k as nat) + ": "@;
    let front = "  "@ + arrow + " "@ + q.id@ + pad + label;
    text::parts_stand_in_a_text("  "@ + arrow + " "@, q.id@, pad + label + numbers);
    match t.before {
        Some(b) => {
            now_comes_last(front, b@, " → "@, t.now@);
        },
        None => {
            text::parts_stand_in_a_text(seq![], front, t.now@);
        },
    }
}

proof fn row_in_parts(
    head: Seq<char>,
    id: Seq<char>,
    pad: Seq<char>,
    name: Seq<char>,
    number: Seq<char>,
    colon: Seq<char>,
    numbers: Seq<char>,
)
    ensures
        ({
            let row = head + (id + pad) + name + number + colon + numbers;
            let label = name + number + colon;
            &&& row == head + id + (pad + label + numbers)
            &&& row == head + id + pad + label + numbers
        }),
{
    let row = head + (id + pad) + name + number + colon + numbers;
    let label = name + number + colon;
    assert(row =~= head + id + (pad + label + numbers));
    assert(row =~= head + id + pad + label + numbers);
}

proof fn now_comes_last(front: Seq<char>, before: Seq<char>, arrow: Seq<char>, now: Seq<char>)
    ensures
        text::ends_with_spec(front + (before + arrow + now), now),
        text::contains_spec(front + (before + arrow + now), before),
{
    let all = front + (before + arrow + now);
    assert(all =~= (front + before + arrow) + now);
    text::parts_stand_in_a_text(seq![], front + before + arrow, now);
    assert(all =~= front + before + (arrow + now));
    text::parts_stand_in_a_text(front, before, arrow + now);
}

proof fn rows_go_by_their_texts(
    queries: Seq<QueryResult>,
    a: Seq<QueryText>,
    b: Seq<QueryText>,
    k: usize,
)
    requires
        queries.len() <= a.len(),
        queries.len() <= b.len(),
        forall|i: int| 0 <= i < queries.len() ==> #[trigger] a[i] == b[i],
    ensures
        query_rows(queries, a, k) == query_rows(queries, b, k),
    decreases queries.len(),
{
    if queries.len() > 0 {
        assert(a[queries.len() - 1] == b[queries.len() - 1]);
        rows_go_by_their_texts(queries.drop_last(), a, b, k);
    }
}

/// What is expected, and what was found, is known entry by entry and in full.
pub proof fn hits_are_known_in_full(expected: Seq<ExpectedHit>, top: Seq<HitRecord>, i: int)
    ensures
        expected_models(expected).len() == expected.len(),
        hit_models(top).len() == top.len(),
        0 <= i < expected.len() ==> {
            let e = expected_models(expected)[i];
            &&& e.path == expected[i].path@
            &&& e.heading is Some <==> expected[i].heading is Some
            &&& e.heading is Some ==> e.heading->0 == expected[i].heading->0@
        },
        0 <= i < top.len() ==> {
            let h = hit_models(top)[i];
            &&& h.path == top[i].path@ && h.rank == top[i].rank
            &&& h.score_bits == top[i].score_bits
            &&& h.heading is Some <==> top[i].heading is Some
            &&& h.heading is Some ==> h.heading->0 == top[i].heading->0@
        },
{
}

/// A run can be held against another exactly where all its numbers are finite. Each of them is
/// then held against the one of the run before for the same cut-off, and against 0.0 where there
/// is none.
pub proof fn numbers_are_held_against_their_like(
    a: AggregateMetrics,
    now: Map<usize, u64>,
    before: Map<usize, u64>,
    k: usize,
)
    ensures
        can_be_compared_with(a) <==> ieee::finite_64_spec(a.mrr) && (forall|n: usize|
            a.recall_at_k@.dom().contains(n) ==> ieee::finite_64_spec(#[trigger] a.recall_at_k@[n]))
            && (forall|n: usize|
            a.ndcg_at_k@.dom().contains(n) ==> ieee::finite_64_spec(#[trigger] a.ndcg_at_k@[n])),
        judged_pair(now, before, k).0 == now[k],
        before.dom().contains(k) ==> judged_pair(now, before, k).1 == before[k],
        !before.dom().contains(k) ==> judged_pair(now, before, k).1 == 0,
{
}

/// A change is shown by an arrow up or down and its size; one that is negligible by a dash alone.
/// Colours are put around the arrow and the size where they are wanted: red for worse, green for
/// better, grey for neither.
pub proof fn a_change_is_shown_by_its_direction(change: ChangeText, up: ChangeText, use_color: bool)
    requires
        up == (ChangeText { up: true, ..change }),
    ensures
        render_diff_spec(None, use_color) == ""@,
        change.negligible ==> render_diff_spec(Some(change), true) == render_diff_spec(
            Some(change),
            false,
        ) && render_diff_spec(Some(change), true) == render_diff_spec(Some(up), true),
        !change.negligible && change.up ==> render_diff_spec(Some(change), false) == "  ("@ + "↑"@
            + " "@ + change.size@ + ")"@,
        !change.negligible && !change.up ==> render_diff_spec(Some(change), false) == "  ("@ + "↓"@
            + " "@ + change.size@ + ")"@,
        !change.negligible ==> {
            let arrow = if change.up {
                "↑"@
            } else {
                "↓"@
            };
            let red = "\x1b[31m"@;
            let green = "\x1b[32m"@;
            let grey = "\x1b[90m"@;
            let shown = render_diff_spec(Some(change), true);
            let body = arrow + " "@ + change.size@ + "\x1b[0m"@ + ")"@;
            &&& change.worse ==> shown == "  ("@ + red + body
            &&& !change.worse && change.better ==> shown == "  ("@ + green + body
            &&& !change.worse && !change.better ==> shown == "  ("@ + grey + body
        },
{
    reveal_strlit("");
    let none = ""@;
    let arrow = if change.up {
        "↑"@
    } else {
        "↓"@
    };
    if !change.negligible {
        let color = if change.worse {
            "\x1b[31m"@
        } else if change.better {
            "\x1b[32m"@
        } else {
            "\x1b[90m"@
        };
        six_in_a_row("  ("@, none, arrow, " "@, change.size@, none, ")"@);
        six_in_a_row("  ("@, color, arrow, " "@, change.size@, "\x1b[0m"@, ")"@);
    }
}

proof fn six_in_a_row(
    open: Seq<char>,
    color: Seq<char>,
    arrow: Seq<char>,
    space: Seq<char>,
    size: Seq<char>,
    back: Seq<char>,
    close: Seq<char>,
)
    ensures
        ({
            let all = open + color + arrow + space + size + back + close;
            &&& all == open + color + (arrow + space + size + back + close)
            &&& color.len() == 0 && back.len() == 0 ==> all == open + arrow + space + size + close
        }),
{
    let all = open + color + arrow + space + size + back + close;
    assert(all =~= open + color + (arrow + space + size + back + close));
    if color.len() == 0 && back.len() == 0 {
        assert(all =~= open + arrow + space + size + close);
    }
}

/// Each cut-off has a line of its own for its recall, in order, and each line has its label, its
/// number and its change.
pub proof fn each_number_has_its_line(
    ks: Seq<usize>,
    k: usize,
    metrics: Seq<MetricText>,
    use_color: bool,
)
    requires
        metrics.len() > ks.len(),
    ensures
        ({
            let m = metrics[ks.len() as int];
            recall_lines(ks.push(k), metrics, use_color) == recall_lines(ks, metrics, use_color)
                + ("  "@ + text::pad_right_spec("recall@"@ + text::decimal_spec(k as nat), 11)
                + m.value@ + render_diff_spec(m.change, use_color) + "\n"@)
        }),
        recall_lines(seq![], metrics, use_color) == ""@,
        metric_lines(seq![], metrics, use_color) == ""@ + ("  "@ + text::pad_right_spec("MRR"@, 11)
            + metrics[0].value@ + render_diff_spec(metrics[0].change, use_color) + "\n"@) + ""@,
{
    assert(ks.push(k).drop_last() =~= ks);
    assert(ks.push(k).last() == k);
}

/// A report says of the run before when that was, if the two can be compared; if not, that the
/// golden set has changed.
pub proof fn the_run_before_is_named(run: EvalRun, prev: EvalRun)
    ensures
        report_previous(run, None) == "Aggregate\n"@,
        prev.fingerprint.golden_hash@ == run.fingerprint.golden_hash@ ==> report_previous(
            run,
            Some(&prev),
        ) == "Aggregate (previous run: "@ + prev.timestamp@ + ")\n"@,
        prev.fingerprint.golden_hash@ != run.fingerprint.golden_hash@ ==> report_previous(
            run,
            Some(&prev),
        ) == "⚠️ golden changed since last run, diff disabled\nAggregate\n"@,
{
}

/// The rows of single queries stand below a line that says how many there are, each on a line of
/// its own; without rows nothing is said.
pub proof fn rows_stand_on_lines(rows: Seq<Seq<char>>, row: Seq<char>, total: nat)
    ensures
        report_queries(seq![], total) == ""@,
        as_lines(seq![]) == ""@,
        as_lines(rows.push(row)) == as_lines(rows) + row + "\n"@,
        report_queries(rows.push(row), total) == "\nPer-query (regressions and misses, "@
            + text::decimal_spec(rows.len() + 1) + " of "@ + text::decimal_spec(total) + ")\n"@
            + as_lines(rows.push(row)),
{
    assert(rows.push(row).drop_last() =~= rows);
}

/// The head of a report names the time, the model, the reranker if there is one, the limit and
/// the number of queries.
pub proof fn a_report_says_what_was_run(run: EvalRun)
    ensures
        ({
            let reranker = if run.fingerprint.reranker is Some {
                run.fingerprint.reranker->0@
            } else {
                "none"@
            };
            report_head(run) == "kb-mcp eval — "@ + run.timestamp@ + "\n  model: "@
                + run.fingerprint.model@ + "    reranker: "@ + reranker + "    limit: "@
                + text::decimal_spec(run.fingerprint.limit as nat) + "    queries: "@
                + text::decimal_spec(run.aggregate.query_count as nat) + "\n\n"@
        }),
{
}

} // verus!

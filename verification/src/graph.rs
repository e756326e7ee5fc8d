//! The connection graph: what is near a document, and what is near that.
//!
//! The search index and the embeddings live outside the library. [`GraphBuilder`] is the part
//! that decides: it says which search to run and which embedding to fetch next
//! ([`GraphAction`]), takes the answers, and grows the list of nodes breadth first.
use std::collections::HashSet;
use std::collections::VecDeque;
use vstd::prelude::*;

use crate::ieee;
use crate::quality;
use crate::text;

verus! {

/// The greatest depth that a request may ask for.
pub const MAX_DEPTH: u32 = 3;

/// The greatest fan-out that a request may ask for.
pub const MAX_FAN_OUT: u32 = 20;

/// The depth of a request that names none.
pub const DEFAULT_DEPTH: u32 = 2;

/// The fan-out of a request that names none.
pub const DEFAULT_FAN_OUT: u32 = 5;

/// How many characters of a chunk's content a node shows.
pub const SNIPPET_MAX_CHARS: usize = 200;

/// The similarity of a seed node, 1.0, as the bits of a single-precision number.
pub const SEED_SCORE_BITS: u32 = 0x3f80_0000;

/// Where the walk starts.
#[derive(Debug, Clone, Copy, PartialEq, Eq, Structural)]
pub enum SeedStrategy {
    /// At every chunk of the start document.
    AllChunks,
    /// At one node that stands for the mean of the chunks.
    Centroid,
}

impl Default for SeedStrategy {
    fn default() -> (r: Self)
        ensures
            r == SeedStrategy::AllChunks,
    {
        SeedStrategy::AllChunks
    }
}

/// The similarity limit of a request that names none, 0.3, as the bits of a single-precision
/// number.
pub const DEFAULT_MIN_SIMILARITY_BITS: u32 = 0x3e99_999a;

/// What to expand, and how far. Limits that are fractions are held as the bits of
/// single-precision numbers.
#[derive(Debug, Clone)]
pub struct GraphOptions {
    /// The greatest depth of a node; 1 means direct neighbours only.
    pub depth: u32,
    /// The most nodes to add below one node; 0 leaves the seeds alone.
    pub fan_out: u32,
    /// The least similarity of a neighbour to be taken in.
    pub min_similarity_bits: u32,
    pub seed_strategy: SeedStrategy,
    pub category: Option<String>,
    pub topic: Option<String>,
    /// Documents that never appear, besides the start document.
    pub exclude_paths: Vec<String>,
    /// Whether one document gives at most one node.
    pub dedup_by_path: bool,
    /// The least quality that a search for neighbours asks for. Seeds are not held to it.
    pub min_quality_bits: u32,
}

impl Default for GraphOptions {
    fn default() -> (r: Self)
        ensures
            r.depth == DEFAULT_DEPTH,
            r.fan_out == DEFAULT_FAN_OUT,
            r.min_similarity_bits == DEFAULT_MIN_SIMILARITY_BITS,
            r.depth == 2,
            r.fan_out == 5,
            r.min_similarity_bits == 0x3e99_999a,
            r.min_quality_bits == quality::DEFAULT_QUALITY_THRESHOLD_BITS,
            r.seed_strategy == SeedStrategy::AllChunks,
            r.category is None,
            r.topic is None,
            r.exclude_paths@.len() == 0,
            !r.dedup_by_path,
    {
        GraphOptions {
            depth: DEFAULT_DEPTH,
            fan_out: DEFAULT_FAN_OUT,
            min_similarity_bits: DEFAULT_MIN_SIMILARITY_BITS,
            min_quality_bits: quality::DEFAULT_QUALITY_THRESHOLD_BITS,
            seed_strategy: SeedStrategy::default(),
            category: None,
            topic: None,
            exclude_paths: Vec::new(),
            dedup_by_path: false,
        }
    }
}

/// A depth within what a request may ask for.
pub fn clamp_depth(depth: u32) -> (r: u32)
    ensures
        r == if depth < MAX_DEPTH {
            depth
        } else {
            MAX_DEPTH
        },
{
    if depth < MAX_DEPTH {
        depth
    } else {
        MAX_DEPTH
    }
}

/// A fan-out within what a request may ask for.
pub fn clamp_fan_out(fan_out: u32) -> (r: u32)
    ensures
        r == if fan_out < MAX_FAN_OUT {
            fan_out
        } else {
            MAX_FAN_OUT
        },
{
    if fan_out < MAX_FAN_OUT {
        fan_out
    } else {
        MAX_FAN_OUT
    }
}

/// A chunk as the index describes it.
#[derive(Debug, Clone)]
pub struct ChunkInfo {
    pub chunk_id: i64,
    pub path: String,
    pub heading: Option<String>,
    pub title: Option<String>,
    pub topic: Option<String>,
    pub content: String,
}

/// What a [`ChunkInfo`] holds.
pub struct ChunkModel {
    pub chunk_id: i64,
    pub path: Seq<char>,
    pub heading: Option<Seq<char>>,
    pub title: Option<Seq<char>>,
    pub topic: Option<Seq<char>>,
    pub content: Seq<char>,
}

impl View for ChunkInfo {
    type V = ChunkModel;

    open spec fn view(&self) -> ChunkModel {
        ChunkModel {
            chunk_id: self.chunk_id,
            path: self.path@,
            heading: text::opt_view(self.heading),
            title: text::opt_view(self.title),
            topic: text::opt_view(self.topic),
            content: self.content@,
        }
    }
}

/// A chunk that a search found.
#[derive(Debug, Clone)]
pub struct Candidate {
    pub chunk: ChunkInfo,
    /// The similarity to what was searched for, as the bits of a single-precision number.
    pub score_bits: u32,
}

/// What a [`Candidate`] holds.
pub struct CandidateModel {
    pub chunk: ChunkModel,
    pub score_bits: u32,
}

impl View for Candidate {
    type V = CandidateModel;

    open spec fn view(&self) -> CandidateModel {
        CandidateModel { chunk: self.chunk@, score_bits: self.score_bits }
    }
}

/// One node of the graph. `parent_id` is the index of the node it was reached from.
#[derive(Debug, Clone)]
pub struct GraphNode {
    pub node_id: usize,
    pub parent_id: Option<usize>,
    pub depth: u32,
    pub chunk_id: i64,
    /// The similarity to the parent, as the bits of a single-precision number.
    pub score_bits: u32,
    pub path: String,
    pub heading: Option<String>,
    pub title: Option<String>,
    pub topic: Option<String>,
    pub snippet: String,
}

/// What a [`GraphNode`] holds.
pub struct NodeModel {
    pub node_id: usize,
    pub parent_id: Option<usize>,
    pub depth: u32,
    pub chunk_id: i64,
    pub score_bits: u32,
    pub path: Seq<char>,
    pub heading: Option<Seq<char>>,
    pub title: Option<Seq<char>>,
    pub topic: Option<Seq<char>>,
    pub snippet: Seq<char>,
}

impl View for GraphNode {
    type V = NodeModel;

    open spec fn view(&self) -> NodeModel {
        NodeModel {
            node_id: self.node_id,
            parent_id: self.parent_id,
            depth: self.depth,
            chunk_id: self.chunk_id,
            score_bits: self.score_bits,
            path: self.path@,
            heading: text::opt_view(self.heading),
            title: text::opt_view(self.title),
            topic: text::opt_view(self.topic),
            snippet: self.snippet@,
        }
    }
}

/// The start of `content`: all of it up to the limit, else the limit and an ellipsis.
pub open spec fn snippet_spec(content: Seq<char>) -> Seq<char> {
    if content.len() <= SNIPPET_MAX_CHARS {
        content
    } else {
        content.take(SNIPPET_MAX_CHARS as int).push('…')
    }
}

/// The start of `content`, cut to a length that is cheap to show.
pub fn make_snippet(content: &str) -> (r: String)
    ensures
        r@ == snippet_spec(content@),
{
    let v = text::to_chars(content);
    if v.len() <= SNIPPET_MAX_CHARS {
        let out = text::from_chars(&v, 0, v.len());
        assert(out@ =~= content@);
        out
    } else {
        let mut out = text::from_chars(&v, 0, SNIPPET_MAX_CHARS);
        out.push('…');
        assert(out@ =~= snippet_spec(content@));
        out
    }
}

/// The node for a chunk.
pub open spec fn node_spec(
    node_id: usize,
    parent_id: Option<usize>,
    depth: u32,
    score_bits: u32,
    c: ChunkModel,
) -> NodeModel {
    NodeModel {
        node_id,
        parent_id,
        depth,
        chunk_id: c.chunk_id,
        score_bits,
        path: c.path,
        heading: c.heading,
        title: c.title,
        topic: c.topic,
        snippet: snippet_spec(c.content),
    }
}

/// The node for a chunk.
pub fn make_node(
    node_id: usize,
    parent_id: Option<usize>,
    depth: u32,
    score_bits: u32,
    c: &ChunkInfo,
) -> (r: GraphNode)
    ensures
        r@ == node_spec(node_id, parent_id, depth, score_bits, c@),
{
    GraphNode {
        node_id,
        parent_id,
        depth,
        chunk_id: c.chunk_id,
        score_bits,
        path: c.path.clone(),
        heading: text::copy_opt(&c.heading),
        title: text::copy_opt(&c.title),
        topic: text::copy_opt(&c.topic),
        snippet: make_snippet(c.content.as_str()),
    }
}

// ---------------------------------------------------------------------------
// The walk
// ---------------------------------------------------------------------------
/// Why no graph can be built.
#[derive(Debug, Clone)]
pub enum GraphError {
    /// The index holds no chunk of the start document.
    DocumentNotFound { path: String },
}

impl GraphError {
    /// The error in words.
    pub fn message(&self) -> (r: String)
        ensures
            self matches GraphError::DocumentNotFound { path } ==> r@
                == "document not found (no chunks for path): "@ + path@
                + ". Run `kb-mcp index` to (re)index the knowledge base."@,
    {
        match self {
            GraphError::DocumentNotFound { path } => {
                let mut r = text::copy("document not found (no chunks for path): ");
                r.append(path.as_str());
                r.append(". Run `kb-mcp index` to (re)index the knowledge base.");
                r
            },
        }
    }
}

/// What the walk needs from the index next.
#[derive(Debug, Clone, Copy, PartialEq, Eq, Structural)]
pub enum GraphAction {
    /// Search for the `fetch_k` chunks nearest to the embedding of node `parent_id`, and hand
    /// them over with [`GraphBuilder::found`]. `depth` is the depth of that node.
    Search { parent_id: usize, depth: u32, fetch_k: u32 },
    /// Fetch the embedding of a chunk, and say with [`GraphBuilder::fetched`] whether there is
    /// one.
    Fetch { chunk_id: i64 },
    /// The graph is complete.
    Done,
}

/// Where the walk stands.
#[derive(Debug, Clone, Copy, PartialEq, Eq, Structural)]
pub enum GraphStage {
    /// Between two nodes.
    Idle,
    /// Waiting for the neighbours of the current parent.
    Searching,
    /// Going through the neighbours of the current parent.
    Scanning,
    /// Waiting for the embedding of the current neighbour.
    Fetching,
}

/// The state of a walk.
pub struct GraphModel {
    pub start_path: Seq<char>,
    pub exclude_paths: Seq<Seq<char>>,
    pub max_depth: u32,
    pub fan_out: u32,
    pub min_similarity_bits: u32,
    pub dedup_by_path: bool,
    /// The nodes so far.
    pub nodes: Seq<NodeModel>,
    /// Nodes that are still to be expanded, with their depth.
    pub queue: Seq<(usize, u32)>,
    /// Chunks that were met already.
    pub visited: Set<i64>,
    /// Documents that give no further node.
    pub visited_paths: Seq<Seq<char>>,
    pub knn_queries: nat,
    pub max_depth_reached: u32,
    pub stage: GraphStage,
    /// The node being expanded, its depth, and how many nodes it gave.
    pub parent_id: usize,
    pub parent_depth: u32,
    pub added: nat,
    /// Its neighbours, and which of them comes next.
    pub candidates: Seq<CandidateModel>,
    pub next: nat,
}

/// How many neighbours to ask for: twice the fan-out, as far as the number goes.
pub open spec fn fetch_k_spec(fan_out: u32) -> u32 {
    if 2 * fan_out > u32::MAX {
        u32::MAX
    } else {
        (2 * fan_out) as u32
    }
}

/// How many neighbours to ask for, so that some may be dropped.
pub fn fetch_k(fan_out: u32) -> (r: u32)
    ensures
        r == fetch_k_spec(fan_out),
        r >= fan_out,
{
    if fan_out > u32::MAX / 2 {
        u32::MAX
    } else {
        2 * fan_out
    }
}

impl GraphModel {
    /// Whether a neighbour becomes a node: its chunk and its document are new, and it is
    /// similar enough.
    pub open spec fn admits(self, c: CandidateModel) -> bool {
        &&& !self.visited.contains(c.chunk.chunk_id)
        &&& !self.visited_paths.contains(c.chunk.path)
        &&& !ieee::less_spec(c.score_bits, self.min_similarity_bits)
    }

    /// The state with neighbour `c` marked as met.
    pub open spec fn mark(self, c: CandidateModel) -> GraphModel {
        GraphModel {
            visited: self.visited.insert(c.chunk.chunk_id),
            visited_paths: if self.dedup_by_path {
                self.visited_paths.push(c.chunk.path)
            } else {
                self.visited_paths
            },
            stage: GraphStage::Fetching,
            ..self
        }
    }

    /// The walk goes on by itself up to the next request to the index, or to its end.
    pub open spec fn settle(self) -> (GraphModel, GraphAction)
        decreases
                self.queue.len(),
                if self.stage == GraphStage::Scanning {
                    1 + if self.next < self.candidates.len() {
                        self.candidates.len() - self.next
                    } else {
                        0
                    }
                } else {
                    0
                },
    {
        match self.stage {
            GraphStage::Searching => (
                self,
                GraphAction::Search {
                    parent_id: self.parent_id,
                    depth: self.parent_depth,
                    fetch_k: fetch_k_spec(self.fan_out),
                },
            ),
            GraphStage::Fetching => (
                self,
                GraphAction::Fetch {
                    chunk_id: self.candidates[self.next as int].chunk.chunk_id,
                },
            ),
            GraphStage::Scanning => {
                if self.added >= self.fan_out || self.next >= self.candidates.len() {
                    GraphModel { stage: GraphStage::Idle, ..self }.settle()
                } else {
                    let c = self.candidates[self.next as int];
                    if self.admits(c) {
                        (self.mark(c), GraphAction::Fetch { chunk_id: c.chunk.chunk_id })
                    } else {
                        GraphModel { next: self.next + 1, ..self }.settle()
                    }
                }
            },
            GraphStage::Idle => {
                if self.fan_out == 0 || self.queue.len() == 0 {
                    (self, GraphAction::Done)
                } else {
                    let (node, depth) = self.queue[0];
                    let popped = GraphModel { queue: self.queue.drop_first(), ..self };
                    if depth >= self.max_depth {
                        popped.settle()
                    } else {
                        (
                            GraphModel {
                                stage: GraphStage::Searching,
                                parent_id: node,
                                parent_depth: depth,
                                knn_queries: self.knn_queries + 1,
                                ..popped
                            },
                            GraphAction::Search {
                                parent_id: node,
                                depth,
                                fetch_k: fetch_k_spec(self.fan_out),
                            },
                        )
                    }
                }
            },
        }
    }

    /// The state once the index has answered a search.
    pub open spec fn with_candidates(self, candidates: Seq<CandidateModel>) -> GraphModel {
        GraphModel { stage: GraphStage::Scanning, candidates, next: 0, added: 0, ..self }
    }

    /// The state once the index has said whether the current neighbour has an embedding: if it
    /// has, the neighbour is a node and will be expanded in turn.
    pub open spec fn with_embedding(self, present: bool) -> GraphModel {
        let next = self.next + 1;
        if present {
            let c = self.candidates[self.next as int];
            let depth = (self.parent_depth + 1) as u32;
            let node_id = self.nodes.len() as usize;
            GraphModel {
                stage: GraphStage::Scanning,
                next,
                nodes: self.nodes.push(
                    node_spec(node_id, Some(self.parent_id), depth, c.score_bits, c.chunk),
                ),
                queue: self.queue.push((node_id, depth)),
                added: self.added + 1,
                max_depth_reached: if self.max_depth_reached < depth {
                    depth
                } else {
                    self.max_depth_reached
                },
                ..self
            }
        } else {
            GraphModel { stage: GraphStage::Scanning, next, ..self }
        }
    }

    /// The state before the first request, for the chunks of the start document.
    pub open spec fn start(
        start_path: Seq<char>,
        seeds: Seq<ChunkModel>,
        options: GraphOptions,
    ) -> GraphModel {
        let shown = if options.seed_strategy == SeedStrategy::AllChunks {
            seeds
        } else {
            seeds.take(1)
        };
        GraphModel {
            start_path,
            exclude_paths: text::views(options.exclude_paths@),
            max_depth: options.depth,
            fan_out: options.fan_out,
            min_similarity_bits: options.min_similarity_bits,
            dedup_by_path: options.dedup_by_path,
            nodes: seed_nodes(shown),
            queue: Seq::new(shown.len(), |i: int| (i as usize, 0u32)),
            visited: seed_ids(seeds),
            visited_paths: seq![start_path] + text::views(options.exclude_paths@),
            knn_queries: 0,
            max_depth_reached: 0,
            stage: GraphStage::Idle,
            parent_id: 0,
            parent_depth: 0,
            added: 0,
            candidates: Seq::empty(),
            next: 0,
        }
    }
}

/// One node for each seed chunk, at depth 0 and without a parent.
pub open spec fn seed_nodes(seeds: Seq<ChunkModel>) -> Seq<NodeModel> {
    Seq::new(seeds.len(), |i: int| node_spec(i as usize, None, 0, SEED_SCORE_BITS, seeds[i]))
}

/// The chunks of a sequence of seeds.
pub open spec fn seed_ids(seeds: Seq<ChunkModel>) -> Set<i64> {
    Set::new(|id: i64| exists|i: int| 0 <= i < seeds.len() && #[trigger] seeds[i].chunk_id == id)
}

/// The models of a list of chunks.
pub open spec fn chunk_models(v: Seq<ChunkInfo>) -> Seq<ChunkModel> {
    Seq::new(v.len(), |i: int| v[i]@)
}

/// The models of a list of neighbours.
pub open spec fn candidate_models(v: Seq<Candidate>) -> Seq<CandidateModel> {
    Seq::new(v.len(), |i: int| v[i]@)
}

/// Whether the scores of all neighbours lie between 0.0 and 1.0.
pub open spec fn in_range(candidates: Seq<CandidateModel>) -> bool {
    forall|i: int|
        0 <= i < candidates.len() ==> ieee::in_unit_range_spec(
            (#[trigger] candidates[i]).score_bits,
        )
}

/// The models of a list of nodes.
pub open spec fn node_models(v: Seq<GraphNode>) -> Seq<NodeModel> {
    Seq::new(v.len(), |i: int| v[i]@)
}

/// A walk in progress.
pub struct GraphBuilder {
    pub start_path: String,
    pub options: GraphOptions,
    pub nodes: Vec<GraphNode>,
    pub queue: VecDeque<(usize, u32)>,
    pub visited: HashSet<i64>,
    pub visited_paths: Vec<String>,
    pub knn_queries: u32,
    pub max_depth_reached: u32,
    pub stage: GraphStage,
    pub parent_id: usize,
    pub parent_depth: u32,
    pub added: u32,
    pub candidates: Vec<Candidate>,
    pub next: usize,
}

impl View for GraphBuilder {
    type V = GraphModel;

    open spec fn view(&self) -> GraphModel {
        GraphModel {
            start_path: self.start_path@,
            exclude_paths: text::views(self.options.exclude_paths@),
            max_depth: self.options.depth,
            fan_out: self.options.fan_out,
            min_similarity_bits: self.options.min_similarity_bits,
            dedup_by_path: self.options.dedup_by_path,
            nodes: node_models(self.nodes@),
            queue: self.queue@,
            visited: self.visited@,
            visited_paths: text::views(self.visited_paths@),
            knn_queries: self.knn_queries as nat,
            max_depth_reached: self.max_depth_reached,
            stage: self.stage,
            parent_id: self.parent_id,
            parent_depth: self.parent_depth,
            added: self.added as nat,
            candidates: candidate_models(self.candidates@),
            next: self.next as nat,
        }
    }
}

/// Whether a node shows a neighbour as it was found: its chunk, its document, and its own
/// similarity. Of the content it shows the beginning.
pub open spec fn shows(node: GraphNode, c: Candidate) -> bool {
    &&& node.chunk_id == c.chunk.chunk_id
    &&& node.score_bits == c.score_bits
    &&& node.path@ == c.chunk.path@
    &&& text::opt_view(node.heading) == text::opt_view(c.chunk.heading)
    &&& text::opt_view(node.title) == text::opt_view(c.chunk.title)
    &&& text::opt_view(node.topic) == text::opt_view(c.chunk.topic)
    &&& is_beginning(node.snippet@, c.chunk.content@)
}

/// Whether `s` is the beginning of `content`: all of it, if that is not longer than two hundred
/// characters, else its first two hundred and an ellipsis.
pub open spec fn is_beginning(s: Seq<char>, content: Seq<char>) -> bool {
    if content.len() <= 200 {
        s == content
    } else {
        &&& s.len() == 201
        &&& s.last() == '…'
        &&& forall|i: int| 0 <= i < 200 ==> #[trigger] s[i] == content[i]
    }
}

/// Counts of a finished walk.
#[derive(Debug, Clone, Copy, PartialEq, Eq, Structural)]
pub struct GraphStats {
    pub total_nodes: usize,
    /// The greatest depth at which a node was added.
    pub max_depth_reached: u32,
    pub knn_queries: u32,
    pub duration_ms: u64,
}

/// A finished walk.
#[derive(Debug, Clone)]
pub struct ConnectionGraph {
    pub start_path: String,
    pub nodes: Vec<GraphNode>,
    pub stats: GraphStats,
}

impl GraphBuilder {
    /// Starts a walk at the chunks of `start_path`. There has to be at least one.
    pub fn new(start_path: &str, seeds: &Vec<ChunkInfo>, options: GraphOptions) -> (r: Result<
        GraphBuilder,
        GraphError,
    >)
        ensures
            r is Err <==> seeds@.len() == 0,
            r matches Err(GraphError::DocumentNotFound { path }) ==> path@ == start_path@,
            r matches Ok(b) ==> b@ == GraphModel::start(
                start_path@,
                chunk_models(seeds@),
                options,
            ) && b@.consistent() && b.options == options && b@.scores_in_range(),
    {
        broadcast use vstd::std_specs::hash::group_hash_axioms;

        if seeds.len() == 0 {
            return Err(GraphError::DocumentNotFound { path: text::copy(start_path) });
        }
        let ghost all = chunk_models(seeds@);
        let mut visited_paths: Vec<String> = Vec::new();
        visited_paths.push(text::copy(start_path));
        assert(text::views(visited_paths@) =~= seq![start_path@]);
        let mut i: usize = 0;
        while i < options.exclude_paths.len()
            invariant
                i <= options.exclude_paths@.len(),
                text::views(visited_paths@) == seq![start_path@] + text::views(
                    options.exclude_paths@,
                ).take(i as int),
            decreases options.exclude_paths@.len() - i,
        {
            let ghost before = text::views(visited_paths@);
            visited_paths.push(options.exclude_paths[i].clone());
            assert(text::views(visited_paths@) =~= before.push(options.exclude_paths@[i as int]@));
            assert(text::views(visited_paths@) =~= seq![start_path@] + text::views(
                options.exclude_paths@,
            ).take(i + 1));
            i += 1;
        }
        assert(text::views(options.exclude_paths@).take(i as int) =~= text::views(
            options.exclude_paths@,
        ));
        let mut visited: HashSet<i64> = HashSet::new();
        let mut k: usize = 0;
        while k < seeds.len()
            invariant
                k <= seeds@.len(),
                all == chunk_models(seeds@),
                visited@ == seed_ids(all.take(k as int)),
            decreases seeds@.len() - k,
        {
            broadcast use vstd::std_specs::hash::group_hash_axioms;

            let id: i64 = seeds[k].chunk_id;
            let ghost old_set = visited@;
            visited.insert(id);
            proof {
                let a = all.take(k as int);
                let b = all.take(k + 1);
                assert(b[k as int].chunk_id == id);
                assert forall|x: i64| seed_ids(b).contains(x) implies old_set.insert(id).contains(
                    x,
                ) by {
                    let j = choose|j: int| 0 <= j < b.len() && #[trigger] b[j].chunk_id == x;
                    if j < k {
                        assert(a[j].chunk_id == x);
                    }
                }
                assert forall|x: i64| old_set.insert(id).contains(x) implies seed_ids(b).contains(
                    x,
                ) by {
                    if x != id {
                        let j = choose|j: int| 0 <= j < a.len() && #[trigger] a[j].chunk_id == x;
                        assert(b[j].chunk_id == x);
                    }
                }
                assert(visited@ =~= seed_ids(b));
            }
            k += 1;
        }
        assert(all.take(k as int) =~= all);
        let shown: usize = match options.seed_strategy {
            SeedStrategy::AllChunks => seeds.len(),
            SeedStrategy::Centroid => 1,
        };
        let ghost part = if options.seed_strategy == SeedStrategy::AllChunks {
            all
        } else {
            all.take(1)
        };
        assert(part =~= all.take(shown as int));
        let mut nodes: Vec<GraphNode> = Vec::new();
        let mut queue: VecDeque<(usize, u32)> = VecDeque::new();
        let mut j: usize = 0;
        while j < shown
            invariant
                j <= shown <= seeds@.len(),
                all == chunk_models(seeds@),
                part == all.take(shown as int),
                node_models(nodes@) == seed_nodes(part).take(j as int),
                queue@ == Seq::new(j as nat, |i: int| (i as usize, 0u32)),
            decreases shown - j,
        {
            let ghost before = node_models(nodes@);
            nodes.push(make_node(j, None, 0, SEED_SCORE_BITS, &seeds[j]));
            assert(node_models(nodes@) =~= before.push(
                node_spec(j, None, 0, SEED_SCORE_BITS, seeds@[j as int]@),
            ));
            assert(node_models(nodes@) =~= seed_nodes(part).take(j + 1));
            queue.push_back((j, 0));
            assert(queue@ =~= Seq::new((j + 1) as nat, |i: int| (i as usize, 0u32)));
            j += 1;
        }
        assert(seed_nodes(part).take(j as int) =~= seed_nodes(part));
        let candidates: Vec<Candidate> = Vec::new();
        assert(candidate_models(candidates@) =~= Seq::<CandidateModel>::empty());
        let b = GraphBuilder {
            start_path: text::copy(start_path),
            options,
            nodes,
            queue,
            visited,
            visited_paths,
            knn_queries: 0,
            max_depth_reached: 0,
            stage: GraphStage::Idle,
            parent_id: 0,
            parent_depth: 0,
            added: 0,
            candidates,
            next: 0,
        };
        proof {
            start_is_consistent(start_path@, all, options);
        }
        Ok(b)
    }

    /// Goes on up to the next request to the index, or to the end.
    pub fn next_action(&mut self) -> (r: GraphAction)
        requires
            old(self)@.consistent(),
            old(self).knn_queries < u32::MAX,
        ensures
            (final(self)@, r) == old(self)@.settle(),
            final(self)@.consistent(),
            old(self)@.scores_in_range() ==> final(self)@.scores_in_range(),
            final(self).options == old(self).options,
            goes_on(old(self)@, final(self)@, r),
    {
        proof {
            settle_keeps_consistent(self@);
            settle_keeps_scores_in_range(self@);
            the_walk_goes_on_to_the_next_request(self@);
        }
        let ghost start = self@;
        loop
            invariant
                start == old(self)@,
                self.options == old(self).options,
                self@.settle() == start.settle(),
                self@.consistent(),
                self.knn_queries < u32::MAX,
                start.settle().0.consistent(),
                goes_on(start, start.settle().0, start.settle().1),
                start.scores_in_range() ==> start.settle().0.scores_in_range(),
            decreases
                    self.queue@.len(),
                    if self.stage == GraphStage::Scanning {
                        1 + self.candidates@.len() - self.next
                    } else {
                        0
                    },
        {
            broadcast use vstd::std_specs::hash::group_hash_axioms;

            let ghost m = self@;
            match self.stage {
                GraphStage::Searching => {
                    return GraphAction::Search {
                        parent_id: self.parent_id,
                        depth: self.parent_depth,
                        fetch_k: fetch_k(self.options.fan_out),
                    };
                },
                GraphStage::Fetching => {
                    return GraphAction::Fetch { chunk_id: self.candidates[self.next].chunk.chunk_id };
                },
                GraphStage::Scanning => {
                    if self.added >= self.options.fan_out || self.next >= self.candidates.len() {
                        proof {
                            scan_end_keeps_consistent(m);
                        }
                        self.stage = GraphStage::Idle;
                    } else {
                        let c = &self.candidates[self.next];
                        let id: i64 = c.chunk.chunk_id;
                        assert(m.candidates[self.next as int] == c@);
                        if !self.visited.contains(&id) && !text::list_contains(
                            &self.visited_paths,
                            c.chunk.path.as_str(),
                        ) && !ieee::less(c.score_bits, self.options.min_similarity_bits) {
                            assert(m.admits(c@));
                            let path = c.chunk.path.clone();
                            let ghost cm = c@;
                            self.visited.insert(id);
                            if self.options.dedup_by_path {
                                let ghost before = text::views(self.visited_paths@);
                                self.visited_paths.push(path);
                                assert(text::views(self.visited_paths@) =~= before.push(path@));
                            }
                            self.stage = GraphStage::Fetching;
                            assert(self@ == m.mark(cm));
                            return GraphAction::Fetch { chunk_id: id };
                        }
                        proof {
                            rejection_keeps_consistent(m);
                        }
                        self.next = self.next + 1;
                    }
                },
                GraphStage::Idle => {
                    if self.options.fan_out == 0 {
                        return GraphAction::Done;
                    }
                    match self.queue.pop_front() {
                        None => {
                            return GraphAction::Done;
                        },
                        Some((node, depth)) => {
                            assert(self.queue@ =~= m.queue.drop_first());
                            if depth < self.options.depth {
                                self.stage = GraphStage::Searching;
                                self.parent_id = node;
                                self.parent_depth = depth;
                                self.knn_queries = self.knn_queries + 1;
                                return GraphAction::Search {
                                    parent_id: node,
                                    depth,
                                    fetch_k: fetch_k(self.options.fan_out),
                                };
                            }
                            proof {
                                pop_keeps_consistent(m);
                            }
                        },
                    }
                },
            }
        }
    }

    /// Takes the answer to a search: the neighbours, nearest first.
    pub fn found(&mut self, candidates: Vec<Candidate>)
        requires
            old(self)@.consistent(),
            old(self).stage == GraphStage::Searching,
        ensures
            final(self)@ == old(self)@.with_candidates(candidate_models(candidates@)),
            final(self)@.consistent(),
            final(self).candidates == candidates,
            final(self).next == 0,
            final(self).added == 0,
            final(self).stage == GraphStage::Scanning,
            final(self).nodes == old(self).nodes,
            final(self).queue == old(self).queue,
            final(self).visited == old(self).visited,
            final(self).visited_paths == old(self).visited_paths,
            old(self)@.scores_in_range() && in_range(candidate_models(candidates@))
                ==> final(self)@.scores_in_range(),
            final(self).options == old(self).options,
    {
        let ghost m = self@;
        assert(candidates@.len() == candidates.len());
        self.candidates = candidates;
        self.next = 0;
        self.added = 0;
        self.stage = GraphStage::Scanning;
        proof {
            candidates_keep_consistent(m, candidate_models(candidates@));
        }
    }

    /// Takes the answer to a fetch: whether the chunk has an embedding.
    pub fn fetched(&mut self, present: bool)
        requires
            old(self)@.consistent(),
            old(self).stage == GraphStage::Fetching,
        ensures
            final(self)@ == old(self)@.with_embedding(present),
            final(self)@.consistent(),
            old(self)@.scores_in_range() ==> final(self)@.scores_in_range(),
            final(self).options == old(self).options,
            final(self).candidates == old(self).candidates,
            final(self).next == old(self).next + 1,
            !present ==> final(self).nodes == old(self).nodes && final(self).queue@ == old(
                self,
            ).queue@,
            present ==> final(self).nodes@.len() == old(self).nodes@.len() + 1
                && final(self).nodes@.drop_last() == old(self).nodes@ && shows(
                final(self).nodes@.last(),
                old(self).candidates@[old(self).next as int],
            ) && final(self).nodes@.last().parent_id == Some(old(self).parent_id)
                && final(self).nodes@.last().depth == old(self).parent_depth + 1
                && final(self).nodes@.last().node_id == old(self).nodes@.len()
                && final(self).queue@ == old(self).queue@.push(
                (final(self).nodes@.last().node_id, final(self).nodes@.last().depth),
            ),
    {
        let ghost m = self@;
        if present {
            let depth: u32 = self.parent_depth + 1;
            let node_id: usize = self.nodes.len();
            let c = &self.candidates[self.next];
            assert(m.candidates[self.next as int] == c@);
            let node = make_node(node_id, Some(self.parent_id), depth, c.score_bits, &c.chunk);
            let ghost before = node_models(self.nodes@);
            let ghost nodes = self.nodes@;
            assert(shows(node, *c)) by {
                a_snippet_is_the_beginning(c.chunk.content@);
            }
            self.nodes.push(node);
            assert(self.nodes@.drop_last() =~= nodes);
            assert(node_models(self.nodes@) =~= before.push(node@));
            assert(self.nodes.len() == m.nodes.len() + 1);
            self.queue.push_back((node_id, depth));
            self.added = self.added + 1;
            if self.max_depth_reached < depth {
                self.max_depth_reached = depth;
            }
        }
        self.next = self.next + 1;
        self.stage = GraphStage::Scanning;
        proof {
            embedding_keeps_consistent(m, present);
            if m.scores_in_range() {
                embedding_keeps_scores_in_range(m, present);
            }
        }
    }

    /// The graph as far as it has been walked.
    pub fn finish(self, duration_ms: u64) -> (r: ConnectionGraph)
        ensures
            r.start_path@ == self.start_path@,
            r.nodes == self.nodes,
            r.stats.total_nodes == self.nodes@.len(),
            r.stats.max_depth_reached == self.max_depth_reached,
            r.stats.knn_queries == self.knn_queries,
            r.stats.duration_ms == duration_ms,
    {
        ConnectionGraph {
            start_path: self.start_path,
            stats: GraphStats {
                total_nodes: self.nodes.len(),
                max_depth_reached: self.max_depth_reached,
                knn_queries: self.knn_queries,
                duration_ms,
            },
            nodes: self.nodes,
        }
    }
}

// ---------------------------------------------------------------------------
// What every walk keeps
// ---------------------------------------------------------------------------
/// How many of the nodes have the parent `p`.
pub open spec fn children(nodes: Seq<NodeModel>, p: int) -> nat
    decreases nodes.len(),
{
    if nodes.len() == 0 {
        0
    } else {
        children(nodes.drop_last(), p) + if nodes.last().parent_id == Some(p as usize) {
            1nat
        } else {
            0nat
        }
    }
}

/// How many of the first `n` nodes lie above a depth.
pub open spec fn above(nodes: Seq<NodeModel>, n: int, depth: u32) -> nat
    decreases n,
{
    if n <= 0 {
        0
    } else {
        above(nodes, n - 1, depth) + if nodes[n - 1].depth < depth {
            1nat
        } else {
            0nat
        }
    }
}

impl GraphModel {
    /// Node `i` is numbered `i`; its parent stands before it and is one level up; a node
    /// without a parent is at depth 0; no node lies deeper than asked for.
    pub open spec fn tree(self) -> bool {
        forall|i: int|
            0 <= i < self.nodes.len() ==> {
                let n = #[trigger] self.nodes[i];
                &&& n.node_id == i
                &&& match n.parent_id {
                    None => n.depth == 0,
                    Some(p) => p < i && n.depth == self.nodes[p as int].depth + 1 && n.depth
                        <= self.max_depth,
                }
            }
    }

    /// Nodes come in the order of their depth.
    pub open spec fn breadth_first(self) -> bool {
        forall|i: int, j: int|
            0 <= i <= j < self.nodes.len() ==> (#[trigger] self.nodes[i]).depth <= (
            #[trigger] self.nodes[j]).depth
    }

    /// A node that was reached from another shows a chunk that no node before it shows.
    pub open spec fn chunks_unique(self) -> bool {
        forall|i: int, j: int|
            0 <= i < j < self.nodes.len() && (#[trigger] self.nodes[j]).parent_id is Some ==> (
            #[trigger] self.nodes[i]).chunk_id != self.nodes[j].chunk_id
    }

    /// Neither the start document nor an excluded one shows up again.
    pub open spec fn paths_allowed(self) -> bool {
        forall|i: int|
            0 <= i < self.nodes.len() && (#[trigger] self.nodes[i]).parent_id is Some
                ==> self.nodes[i].path != self.start_path && !self.exclude_paths.contains(
                self.nodes[i].path,
            )
    }

    /// With one node per document asked for, no two nodes that were reached show one document.
    pub open spec fn paths_unique(self) -> bool {
        self.dedup_by_path ==> forall|i: int, j: int|
            0 <= i < j < self.nodes.len() && (#[trigger] self.nodes[i]).parent_id is Some && (
            #[trigger] self.nodes[j]).parent_id is Some ==> self.nodes[i].path
                != self.nodes[j].path
    }

    /// A node that was reached from another is similar enough to it; the others score 1.
    pub open spec fn similar_enough(self) -> bool {
        forall|i: int|
            0 <= i < self.nodes.len() ==> {
                let n = #[trigger] self.nodes[i];
                if n.parent_id is Some {
                    !ieee::less_spec(n.score_bits, self.min_similarity_bits)
                } else {
                    n.score_bits == SEED_SCORE_BITS
                }
            }
    }

    /// The scores of the nodes, and of the neighbours at hand, lie between 0.0 and 1.0.
    pub open spec fn scores_in_range(self) -> bool {
        &&& forall|i: int|
            0 <= i < self.nodes.len() ==> ieee::in_unit_range_spec(
                (#[trigger] self.nodes[i]).score_bits,
            )
        &&& in_range(self.candidates)
    }

    /// No node has more children than the fan-out.
    pub open spec fn fan_out_kept(self) -> bool {
        forall|p: int|
            0 <= p < self.nodes.len() ==> #[trigger] children(self.nodes, p) <= self.fan_out
    }

    /// The greatest depth reached is that of the last node, and there was one search for each
    /// node that has left the queue and may have children.
    pub open spec fn counts_right(self) -> bool {
        &&& self.nodes.len() >= 1
        &&& self.max_depth_reached == self.nodes.last().depth
        &&& self.knn_queries == above(
            self.nodes,
            self.nodes.len() - self.queue.len(),
            self.max_depth,
        )
    }

    /// Whether a node is being expanded.
    pub open spec fn expanding(self) -> bool {
        self.stage != GraphStage::Idle
    }

    /// The bookkeeping behind the walk: the queue is the tail of the node list, the node being
    /// expanded stands just before it, and everything shown has been marked as met.
    pub open spec fn bookkeeping(self) -> bool {
        let head = self.nodes.len() - self.queue.len();
        &&& 0 <= head
        &&& self.nodes.len() <= usize::MAX
        &&& forall|k: int|
            0 <= k < self.queue.len() ==> (#[trigger] self.queue[k]).0 == head + k
                && self.queue[k].1 == self.nodes[head + k].depth
        &&& forall|i: int|
            0 <= i < self.nodes.len() ==> self.visited.contains((#[trigger] self.nodes[i]).chunk_id)
        &&& self.visited_paths.contains(self.start_path)
        &&& forall|k: int|
            0 <= k < self.exclude_paths.len() ==> self.visited_paths.contains(
                #[trigger] self.exclude_paths[k],
            )
        &&& self.dedup_by_path ==> forall|i: int|
            0 <= i < self.nodes.len() && (#[trigger] self.nodes[i]).parent_id is Some
                ==> self.visited_paths.contains(self.nodes[i].path)
        &&& forall|i: int|
            0 <= i < self.nodes.len() && (#[trigger] self.nodes[i]).parent_id is Some
                ==> self.nodes[i].parent_id->0 < head
        &&& head < self.nodes.len() ==> self.nodes.last().depth <= self.nodes[head].depth + 1
        &&& self.expanding() ==> {
            &&& self.fan_out > 0
            &&& self.parent_id == head - 1
            &&& self.parent_depth == self.nodes[head - 1].depth
            &&& self.parent_depth < self.max_depth
            &&& self.nodes.last().depth <= self.parent_depth + 1
        }
        &&& self.stage == GraphStage::Searching ==> children(self.nodes, head - 1) == 0
        &&& self.stage == GraphStage::Scanning ==> {
            &&& self.next <= self.candidates.len() <= usize::MAX
            &&& self.added <= self.fan_out
            &&& children(self.nodes, head - 1) == self.added
        }
        &&& self.stage == GraphStage::Fetching ==> {
            let c = self.candidates[self.next as int];
            &&& self.next < self.candidates.len() <= usize::MAX
            &&& self.added < self.fan_out
            &&& children(self.nodes, head - 1) == self.added
            &&& self.visited.contains(c.chunk.chunk_id)
            &&& forall|i: int|
                0 <= i < self.nodes.len() ==> (#[trigger] self.nodes[i]).chunk_id
                    != c.chunk.chunk_id
            &&& c.chunk.path != self.start_path
            &&& !self.exclude_paths.contains(c.chunk.path)
            &&& !ieee::less_spec(c.score_bits, self.min_similarity_bits)
            &&& self.dedup_by_path ==> {
                &&& self.visited_paths.contains(c.chunk.path)
                &&& forall|i: int|
                    0 <= i < self.nodes.len() && (#[trigger] self.nodes[i]).parent_id is Some
                        ==> self.nodes[i].path != c.chunk.path
            }
        }
    }

    /// What holds of every walk at every moment.
    pub open spec fn consistent(self) -> bool {
        &&& self.tree()
        &&& self.breadth_first()
        &&& self.chunks_unique()
        &&& self.paths_allowed()
        &&& self.paths_unique()
        &&& self.similar_enough()
        &&& self.fan_out_kept()
        &&& self.counts_right()
        &&& self.bookkeeping()
    }
}

proof fn push_keeps_contains(s: Seq<Seq<char>>, x: Seq<char>, y: Seq<char>)
    ensures
        s.contains(x) ==> s.push(y).contains(x),
        s.push(y).contains(y),
{
    if s.contains(x) {
        let k = choose|k: int| 0 <= k < s.len() && s[k] == x;
        assert(s.push(y)[k] == x);
    }
    assert(s.push(y)[s.len() as int] == y);
}

proof fn no_children(nodes: Seq<NodeModel>, p: int)
    requires
        forall|i: int|
            0 <= i < nodes.len() ==> (#[trigger] nodes[i]).parent_id != Some(p as usize),
    ensures
        children(nodes, p) == 0,
    decreases nodes.len(),
{
    if nodes.len() > 0 {
        assert forall|i: int| 0 <= i < nodes.drop_last().len() implies (
        #[trigger] nodes.drop_last()[i]).parent_id != Some(p as usize) by {
            assert(nodes[i].parent_id != Some(p as usize));
        }
        no_children(nodes.drop_last(), p);
        assert(nodes[nodes.len() - 1].parent_id != Some(p as usize));
    }
}

proof fn above_of_longer(nodes: Seq<NodeModel>, x: NodeModel, n: int, depth: u32)
    requires
        n <= nodes.len(),
    ensures
        above(nodes.push(x), n, depth) == above(nodes, n, depth),
    decreases n,
{
    if n > 0 {
        above_of_longer(nodes, x, n - 1, depth);
    }
}

/// A walk starts out as it should.
pub proof fn start_is_consistent(
    start_path: Seq<char>,
    seeds: Seq<ChunkModel>,
    options: GraphOptions,
)
    requires
        1 <= seeds.len() <= usize::MAX,
    ensures
        GraphModel::start(start_path, seeds, options).consistent(),
{
    let m = GraphModel::start(start_path, seeds, options);
    let shown = if options.seed_strategy == SeedStrategy::AllChunks {
        seeds
    } else {
        seeds.take(1)
    };
    assert(m.nodes.len() == shown.len());
    assert forall|i: int| 0 <= i < m.nodes.len() implies {
        let n = #[trigger] m.nodes[i];
        &&& n.node_id == i
        &&& n.parent_id is None
        &&& n.depth == 0
        &&& m.visited.contains(n.chunk_id)
    } by {
        assert(seeds[i].chunk_id == m.nodes[i].chunk_id);
    }
    assert forall|p: int| 0 <= p < m.nodes.len() implies #[trigger] children(m.nodes, p)
        <= m.fan_out by {
        no_children(m.nodes, p);
    }
    assert(m.visited_paths[0] == start_path);
    assert forall|k: int| 0 <= k < m.exclude_paths.len() implies m.visited_paths.contains(
        #[trigger] m.exclude_paths[k],
    ) by {
        assert(m.visited_paths[k + 1] == m.exclude_paths[k]);
    }
}

proof fn scan_end_keeps_consistent(m: GraphModel)
    requires
        m.consistent(),
        m.stage == GraphStage::Scanning,
    ensures
        (GraphModel { stage: GraphStage::Idle, ..m }).consistent(),
{
}

proof fn rejection_keeps_consistent(m: GraphModel)
    requires
        m.consistent(),
        m.stage == GraphStage::Scanning,
        m.next < m.candidates.len(),
    ensures
        (GraphModel { next: m.next + 1, ..m }).consistent(),
{
}

proof fn pop_keeps_consistent(m: GraphModel)
    requires
        m.consistent(),
        m.stage == GraphStage::Idle,
        m.queue.len() > 0,
    ensures
        (GraphModel {
            queue: m.queue.drop_first(),
            knn_queries: m.knn_queries + if m.queue[0].1 < m.max_depth {
                1nat
            } else {
                0nat
            },
            ..m
        }).consistent(),
{
    let s = GraphModel { queue: m.queue.drop_first(), ..m };
    let head = m.nodes.len() - m.queue.len();
    assert(m.queue[0].1 == m.nodes[head].depth);
    assert forall|k: int| 0 <= k < s.queue.len() implies (#[trigger] s.queue[k]).0 == head + 1 + k
        && s.queue[k].1 == s.nodes[head + 1 + k].depth by {
        assert(s.queue[k] == m.queue[k + 1]);
    }
    if head + 1 < m.nodes.len() {
        assert(m.nodes[head].depth <= m.nodes[head + 1].depth);
    }
}

proof fn search_keeps_consistent(m: GraphModel)
    requires
        m.consistent(),
        m.stage == GraphStage::Idle,
        m.queue.len() > 0,
        m.fan_out > 0,
        m.queue[0].1 < m.max_depth,
    ensures
        (GraphModel {
            queue: m.queue.drop_first(),
            stage: GraphStage::Searching,
            parent_id: m.queue[0].0,
            parent_depth: m.queue[0].1,
            knn_queries: m.knn_queries + 1,
            ..m
        }).consistent(),
{
    pop_keeps_consistent(m);
    let head = m.nodes.len() - m.queue.len();
    assert(m.queue[0].0 == head);
    no_children(m.nodes, head);
}

proof fn mark_keeps_consistent(m: GraphModel)
    requires
        m.consistent(),
        m.stage == GraphStage::Scanning,
        m.next < m.candidates.len(),
        m.added < m.fan_out,
        m.admits(m.candidates[m.next as int]),
    ensures
        m.mark(m.candidates[m.next as int]).consistent(),
{
    let c = m.candidates[m.next as int];
    let s = m.mark(c);
    if m.exclude_paths.contains(c.chunk.path) {
        let k = choose|k: int|
            0 <= k < m.exclude_paths.len() && m.exclude_paths[k] == c.chunk.path;
        assert(m.visited_paths.contains(m.exclude_paths[k]));
    }
    push_keeps_contains(m.visited_paths, m.start_path, c.chunk.path);
    assert forall|k: int| 0 <= k < s.exclude_paths.len() implies s.visited_paths.contains(
        #[trigger] s.exclude_paths[k],
    ) by {
        push_keeps_contains(m.visited_paths, m.exclude_paths[k], c.chunk.path);
        assert(m.visited_paths.contains(m.exclude_paths[k]));
    }
    if m.dedup_by_path {
        assert forall|i: int|
            0 <= i < s.nodes.len() && (#[trigger] s.nodes[i]).parent_id is Some implies
            s.visited_paths.contains(s.nodes[i].path) by {
            assert(m.visited_paths.contains(m.nodes[i].path));
            push_keeps_contains(m.visited_paths, m.nodes[i].path, c.chunk.path);
        }
    }
}

proof fn candidates_keep_consistent(m: GraphModel, candidates: Seq<CandidateModel>)
    requires
        m.consistent(),
        m.stage == GraphStage::Searching,
        candidates.len() <= usize::MAX,
    ensures
        m.with_candidates(candidates).consistent(),
{
}

#[verifier::rlimit(40)]
proof fn embedding_keeps_consistent(m: GraphModel, present: bool)
    requires
        m.consistent(),
        m.stage == GraphStage::Fetching,
        present ==> m.nodes.len() < usize::MAX,
    ensures
        m.with_embedding(present).consistent(),
{
    let s = m.with_embedding(present);
    if present {
        let head = m.nodes.len() - m.queue.len();
        let n = s.nodes.last();
        let old_len = m.nodes.len() as int;
        assert(s.nodes.drop_last() =~= m.nodes);
        assert(forall|i: int| 0 <= i < old_len ==> s.nodes[i] == m.nodes[i]);
        assert(s.nodes[old_len] == n);
        assert(n.depth == m.nodes[head - 1].depth + 1);
        assert(s.tree());
        assert forall|i: int, j: int| 0 <= i <= j < s.nodes.len() implies (
        #[trigger] s.nodes[i]).depth <= (#[trigger] s.nodes[j]).depth by {
            if j == old_len && i < old_len {
                assert(m.nodes[i].depth <= m.nodes[old_len - 1].depth);
            }
        }
        assert forall|p: int| 0 <= p < s.nodes.len() implies #[trigger] children(s.nodes, p)
            <= s.fan_out by {
            if p == old_len {
                no_children(m.nodes, p);
            } else {
                assert(children(m.nodes, p) <= m.fan_out);
            }
        }
        assert forall|k: int| 0 <= k < s.queue.len() implies (#[trigger] s.queue[k]).0 == head + k
            && s.queue[k].1 == s.nodes[head + k].depth by {
            if k < m.queue.len() {
                assert(s.queue[k] == m.queue[k]);
            }
        }
        if m.queue.len() > 0 {
            assert(m.nodes[head - 1].depth <= m.nodes[head].depth);
        }
        above_of_longer(m.nodes, n, head, m.max_depth);
        assert(s.bookkeeping());
    }
}

/// Whatever the walk does by itself keeps it as it should be.
pub proof fn settle_keeps_consistent(m: GraphModel)
    requires
        m.consistent(),
    ensures
        m.settle().0.consistent(),
    decreases
            m.queue.len(),
            if m.stage == GraphStage::Scanning {
                1 + m.candidates.len() - m.next
            } else {
                0
            },
{
    match m.stage {
        GraphStage::Searching => {},
        GraphStage::Fetching => {},
        GraphStage::Scanning => {
            if m.added >= m.fan_out || m.next >= m.candidates.len() {
                scan_end_keeps_consistent(m);
                settle_keeps_consistent(GraphModel { stage: GraphStage::Idle, ..m });
            } else if m.admits(m.candidates[m.next as int]) {
                mark_keeps_consistent(m);
            } else {
                rejection_keeps_consistent(m);
                settle_keeps_consistent(GraphModel { next: m.next + 1, ..m });
            }
        },
        GraphStage::Idle => {
            if m.fan_out > 0 && m.queue.len() > 0 {
                if m.queue[0].1 >= m.max_depth {
                    pop_keeps_consistent(m);
                    settle_keeps_consistent(GraphModel { queue: m.queue.drop_first(), ..m });
                } else {
                    search_keeps_consistent(m);
                }
            }
        },
    }
}

/// What the walk does by itself keeps all scores between 0.0 and 1.0.
pub proof fn settle_keeps_scores_in_range(m: GraphModel)
    ensures
        m.settle().0.nodes == m.nodes,
        m.settle().0.candidates == m.candidates,
        m.scores_in_range() ==> m.settle().0.scores_in_range(),
    decreases
            m.queue.len(),
            if m.stage == GraphStage::Scanning {
                1 + if m.next < m.candidates.len() {
                    m.candidates.len() - m.next
                } else {
                    0
                }
            } else {
                0
            },
{
    match m.stage {
        GraphStage::Searching => {},
        GraphStage::Fetching => {},
        GraphStage::Scanning => {
            if m.added >= m.fan_out || m.next >= m.candidates.len() {
                settle_keeps_scores_in_range(GraphModel { stage: GraphStage::Idle, ..m });
            } else if !m.admits(m.candidates[m.next as int]) {
                settle_keeps_scores_in_range(GraphModel { next: m.next + 1, ..m });
            }
        },
        GraphStage::Idle => {
            if m.fan_out > 0 && m.queue.len() > 0 && m.queue[0].1 >= m.max_depth {
                settle_keeps_scores_in_range(GraphModel { queue: m.queue.drop_first(), ..m });
            }
        },
    }
}

/// A neighbour that becomes a node brings its score: where all scores lie between 0.0 and 1.0,
/// they still do.
pub proof fn embedding_keeps_scores_in_range(m: GraphModel, present: bool)
    requires
        m.scores_in_range(),
        m.next < m.candidates.len(),
    ensures
        m.with_embedding(present).scores_in_range(),
{
    let s = m.with_embedding(present);
    if present {
        assert forall|i: int| 0 <= i < s.nodes.len() implies ieee::in_unit_range_spec(
            (#[trigger] s.nodes[i]).score_bits,
        ) by {
            if i < m.nodes.len() {
                assert(s.nodes[i] == m.nodes[i]);
            } else {
                assert(s.nodes[i].score_bits == m.candidates[m.next as int].score_bits);
            }
        }
    }
}

/// Whether a neighbour is passed over: its chunk was met already, its document gives no further
/// node, or it is less similar than asked for.
pub open spec fn is_passed_over(m: GraphModel, c: CandidateModel) -> bool {
    ||| m.visited.contains(c.chunk.chunk_id)
    ||| exists|k: int|
        0 <= k < m.visited_paths.len() && #[trigger] m.visited_paths[k] == c.chunk.path
    ||| ieee::less_spec(c.score_bits, m.min_similarity_bits)
}

/// Whether no further neighbour of the current parent becomes a node: there are as many as the
/// fan-out allows, or each that is left is passed over.
pub open spec fn is_through(m: GraphModel) -> bool {
    m.stage == GraphStage::Scanning ==> m.added >= m.fan_out || forall|i: int|
        m.next <= i < m.candidates.len() ==> is_passed_over(m, #[trigger] m.candidates[i])
}

/// Whether `s` is a walk that went on from `m` to the request `r`. A fetch is for the first
/// neighbour that is not passed over, and that one is met now. A search is from the first node
/// that waits and may have children. It is done when no node waits that may, or none may ever.
pub open spec fn goes_on(m: GraphModel, s: GraphModel, r: GraphAction) -> bool {
    &&& s.nodes == m.nodes
    &&& match r {
        GraphAction::Fetch { chunk_id } => if m.stage == GraphStage::Fetching {
            s == m && chunk_id == m.candidates[m.next as int].chunk.chunk_id
        } else {
            let c = m.candidates[s.next as int];
            &&& m.stage == GraphStage::Scanning && s.stage == GraphStage::Fetching
            &&& m.added < m.fan_out && m.next <= s.next < m.candidates.len()
            &&& s.candidates == m.candidates && s.queue == m.queue
            &&& chunk_id == c.chunk.chunk_id && !is_passed_over(m, c)
            &&& forall|i: int|
                m.next <= i < s.next ==> is_passed_over(m, #[trigger] m.candidates[i])
            &&& s.visited == m.visited.insert(chunk_id)
            &&& s.visited_paths == if m.dedup_by_path {
                m.visited_paths.push(c.chunk.path)
            } else {
                m.visited_paths
            }
        },
        GraphAction::Search { parent_id, depth, fetch_k } => {
            &&& fetch_k == if 2 * m.fan_out <= u32::MAX {
                2 * m.fan_out
            } else {
                u32::MAX as int
            }
            &&& s.visited == m.visited && s.visited_paths == m.visited_paths
            &&& m.stage != GraphStage::Searching ==> {
                let n = m.queue.len() - s.queue.len();
                &&& is_through(m)
                &&& 1 <= n && m.fan_out > 0
                &&& s.queue == m.queue.skip(n)
                &&& m.queue[n - 1] == (parent_id, depth) && depth < m.max_depth
                &&& forall|i: int| 0 <= i < n - 1 ==> (#[trigger] m.queue[i]).1 >= m.max_depth
                &&& s.knn_queries == m.knn_queries + 1
            }
        },
        GraphAction::Done => {
            &&& is_through(m)
            &&& m.fan_out == 0 || forall|i: int|
                0 <= i < m.queue.len() ==> (#[trigger] m.queue[i]).1 >= m.max_depth
            &&& s.visited == m.visited && s.visited_paths == m.visited_paths
            &&& s.knn_queries == m.knn_queries
        },
    }
}

/// A walk goes on by itself to the next request, as [`goes_on`] says.
pub proof fn the_walk_goes_on_to_the_next_request(m: GraphModel)
    ensures
        goes_on(m, m.settle().0, m.settle().1),
    decreases
            m.queue.len(),
            if m.stage == GraphStage::Scanning {
                1 + if m.next < m.candidates.len() {
                    m.candidates.len() - m.next
                } else {
                    0
                }
            } else {
                0
            },
{
    match m.stage {
        GraphStage::Searching => {},
        GraphStage::Fetching => {},
        GraphStage::Scanning => {
            if m.added >= m.fan_out || m.next >= m.candidates.len() {
                the_walk_goes_on_to_the_next_request(GraphModel { stage: GraphStage::Idle, ..m });
            } else {
                let c = m.candidates[m.next as int];
                assert(m.admits(c) <==> !is_passed_over(m, c)) by {
                    if m.visited_paths.contains(c.chunk.path) {
                        let k = choose|k: int|
                            0 <= k < m.visited_paths.len() && m.visited_paths[k] == c.chunk.path;
                        assert(m.visited_paths[k] == c.chunk.path);
                    }
                }
                if !m.admits(c) {
                    let n = GraphModel { next: m.next + 1, ..m };
                    the_walk_goes_on_to_the_next_request(n);
                    let s = n.settle().0;
                    assert forall|i: int| 0 <= i < m.candidates.len() implies is_passed_over(
                        m,
                        #[trigger] m.candidates[i],
                    ) == is_passed_over(n, n.candidates[i]) by {}
                    if n.settle().1 is Fetch {
                        assert forall|i: int| m.next <= i < s.next implies is_passed_over(
                            m,
                            #[trigger] m.candidates[i],
                        ) by {
                            if i > m.next {
                                assert(is_passed_over(n, n.candidates[i]));
                            }
                        }
                    } else {
                        assert(is_through(m)) by {
                            if !(m.added >= m.fan_out) {
                                assert forall|i: int|
                                    m.next <= i < m.candidates.len() implies is_passed_over(
                                    m,
                                    #[trigger] m.candidates[i],
                                ) by {
                                    if i > m.next {
                                        assert(is_passed_over(n, n.candidates[i]));
                                    }
                                }
                            }
                        }
                    }
                }
            }
        },
        GraphStage::Idle => {
            if m.fan_out > 0 && m.queue.len() > 0 {
                if m.queue[0].1 >= m.max_depth {
                    let n = GraphModel { queue: m.queue.drop_first(), ..m };
                    the_walk_goes_on_to_the_next_request(n);
                    let s = n.settle().0;
                    match n.settle().1 {
                        GraphAction::Search { parent_id, depth, fetch_k } => {
                            let k = n.queue.len() - s.queue.len();
                            assert(n.queue.skip(k) =~= m.queue.skip(k + 1));
                            assert(n.queue[k - 1] == m.queue[k]);
                            assert forall|i: int| 0 <= i < k implies (#[trigger] m.queue[i]).1
                                >= m.max_depth by {
                                if i > 0 {
                                    assert(n.queue[i - 1] == m.queue[i]);
                                }
                            }
                        },
                        GraphAction::Done => {
                            assert forall|i: int| 0 <= i < m.queue.len() implies (
                            #[trigger] m.queue[i]).1 >= m.max_depth by {
                                if i > 0 {
                                    assert(n.queue[i - 1] == m.queue[i]);
                                }
                            }
                        },
                        GraphAction::Fetch { .. } => {},
                    }
                } else {
                    assert(m.queue.drop_first() =~= m.queue.skip(1));
                }
            }
        },
    }
}

/// A snippet is the beginning of the content.
pub proof fn a_snippet_is_the_beginning(content: Seq<char>)
    ensures
        is_beginning(snippet_spec(content), content),
{
}

/// A neighbour that has an embedding becomes a node with its own similarity, below the node that
/// was searched from, and waits to be expanded; one that has none changes nothing but that the
/// next neighbour comes.
pub proof fn a_neighbour_becomes_the_node_it_is(m: GraphModel)
    requires
        m.next < m.candidates.len(),
        m.nodes.len() < usize::MAX,
        m.parent_depth < u32::MAX,
    ensures
        ({
            let c = m.candidates[m.next as int];
            let with = m.with_embedding(true);
            let without = m.with_embedding(false);
            let n = with.nodes.last();
            &&& with.nodes.drop_last() == m.nodes && without.nodes == m.nodes
            &&& n.score_bits == c.score_bits && n.chunk_id == c.chunk.chunk_id
            &&& n.path == c.chunk.path && n.heading == c.chunk.heading
            &&& n.title == c.chunk.title && n.topic == c.chunk.topic
            &&& is_beginning(n.snippet, c.chunk.content)
            &&& n.parent_id == Some(m.parent_id) && n.depth == m.parent_depth + 1
            &&& n.node_id == m.nodes.len()
            &&& with.queue == m.queue.push((n.node_id, n.depth)) && without.queue == m.queue
            &&& with.next == m.next + 1 && without.next == m.next + 1
            &&& with.added == m.added + 1 && without.added == m.added
            &&& with.visited == m.visited && without.visited == m.visited
            &&& with.max_depth_reached >= n.depth && with.max_depth_reached
                >= m.max_depth_reached && (with.max_depth_reached == n.depth
                || with.max_depth_reached == m.max_depth_reached)
            &&& without.max_depth_reached == m.max_depth_reached
        }),
{
    let c = m.candidates[m.next as int];
    a_snippet_is_the_beginning(c.chunk.content);
    assert(m.with_embedding(true).nodes.drop_last() =~= m.nodes);
}

/// A walk starts at the chunks of the start document: with one node for each, or one for the
/// first that stands for all; none of its chunks is met again, and neither are it and the
/// excluded documents.
pub proof fn a_walk_starts_at_its_document(
    start_path: Seq<char>,
    seeds: Seq<ChunkModel>,
    options: GraphOptions,
    i: int,
)
    requires
        0 <= i < seeds.len() <= usize::MAX,
    ensures
        ({
            let m = GraphModel::start(start_path, seeds, options);
            let all = options.seed_strategy == SeedStrategy::AllChunks;
            &&& m.nodes.len() == if all {
                seeds.len()
            } else {
                1
            }
            &&& i < m.nodes.len() ==> {
                let n = m.nodes[i];
                &&& n.node_id == i && n.parent_id is None && n.depth == 0
                &&& n.score_bits == 0x3f80_0000 && n.chunk_id == seeds[i].chunk_id
                &&& n.path == seeds[i].path && n.heading == seeds[i].heading
                &&& n.title == seeds[i].title && n.topic == seeds[i].topic
                &&& is_beginning(n.snippet, seeds[i].content)
                &&& m.queue[i] == (i as usize, 0u32)
            }
            &&& m.queue.len() == m.nodes.len()
            &&& m.visited.contains(seeds[i].chunk_id)
            &&& m.visited_paths.contains(start_path)
            &&& forall|k: int|
                0 <= k < options.exclude_paths@.len() ==> m.visited_paths.contains(
                    #[trigger] options.exclude_paths@[k]@,
                )
            &&& forall|p: Seq<char>| #[trigger]
                m.visited_paths.contains(p) ==> p == start_path || exists|k: int|
                    0 <= k < options.exclude_paths@.len() && #[trigger] options.exclude_paths@[k]@
                        == p
            &&& forall|id: i64| #[trigger]
                m.visited.contains(id) ==> exists|k: int|
                    0 <= k < seeds.len() && (#[trigger] seeds[k]).chunk_id == id
            &&& m.max_depth == options.depth && m.fan_out == options.fan_out
            &&& m.min_similarity_bits == options.min_similarity_bits
            &&& m.dedup_by_path == options.dedup_by_path && m.knn_queries == 0
        }),
{
    let m = GraphModel::start(start_path, seeds, options);
    a_snippet_is_the_beginning(seeds[i].content);
    assert(seeds[i].chunk_id == seeds[i].chunk_id);
    assert(m.visited_paths[0] == start_path);
    assert forall|k: int| 0 <= k < options.exclude_paths@.len() implies m.visited_paths.contains(
        #[trigger] options.exclude_paths@[k]@,
    ) by {
        assert(m.visited_paths[k + 1] == options.exclude_paths@[k]@);
    }
    assert forall|p: Seq<char>| #[trigger] m.visited_paths.contains(p) implies p == start_path
        || exists|k: int|
        0 <= k < options.exclude_paths@.len() && #[trigger] options.exclude_paths@[k]@ == p by {
        let j = choose|j: int| 0 <= j < m.visited_paths.len() && m.visited_paths[j] == p;
        if j > 0 {
            assert(options.exclude_paths@[j - 1]@ == p);
        }
    }
}

/// A walk ends when nothing is left to expand: each node that may have children has been
/// searched from, and no other. With a fan-out of 0 no node has been.
pub proof fn a_walk_ends_with_every_node_expanded(m: GraphModel)
    requires
        m.consistent(),
        m.settle().1 == GraphAction::Done,
    ensures
        m.settle().0.nodes == m.nodes,
        m.fan_out > 0 ==> m.settle().0.queue.len() == 0 && m.settle().0.knn_queries == above(
            m.nodes,
            m.nodes.len() as int,
            m.max_depth,
        ),
        m.fan_out == 0 ==> m.settle().0 == m,
    decreases
            m.queue.len(),
            if m.stage == GraphStage::Scanning {
                1 + m.candidates.len() - m.next
            } else {
                0
            },
{
    settle_keeps_consistent(m);
    match m.stage {
        GraphStage::Searching => {},
        GraphStage::Fetching => {},
        GraphStage::Scanning => {
            if m.added >= m.fan_out || m.next >= m.candidates.len() {
                scan_end_keeps_consistent(m);
                a_walk_ends_with_every_node_expanded(GraphModel { stage: GraphStage::Idle, ..m });
            } else if !m.admits(m.candidates[m.next as int]) {
                rejection_keeps_consistent(m);
                a_walk_ends_with_every_node_expanded(GraphModel { next: m.next + 1, ..m });
            }
        },
        GraphStage::Idle => {
            if m.fan_out > 0 && m.queue.len() > 0 && m.queue[0].1 >= m.max_depth {
                pop_keeps_consistent(m);
                a_walk_ends_with_every_node_expanded(
                    GraphModel { queue: m.queue.drop_first(), ..m },
                );
            }
        },
    }
}

/// A walk, its nodes and its candidates are known in full.
pub proof fn a_walk_is_known_in_full(n: GraphNode, c: Candidate)
    ensures
        n@.node_id == n.node_id && n@.parent_id == n.parent_id && n@.depth == n.depth,
        n@.chunk_id == n.chunk_id && n@.score_bits == n.score_bits,
        n@.path == n.path@ && n@.snippet == n.snippet@,
        n@.heading is Some <==> n.heading is Some,
        n.heading is Some ==> n@.heading->0 == n.heading->0@,
        n@.title is Some <==> n.title is Some,
        n.title is Some ==> n@.title->0 == n.title->0@,
        n@.topic is Some <==> n.topic is Some,
        n.topic is Some ==> n@.topic->0 == n.topic->0@,
        c@.score_bits == c.score_bits && c@.chunk.chunk_id == c.chunk.chunk_id,
        c@.chunk.path == c.chunk.path@ && c@.chunk.content == c.chunk.content@,
        c@.chunk.heading is Some <==> c.chunk.heading is Some,
        c.chunk.heading is Some ==> c@.chunk.heading->0 == c.chunk.heading->0@,
        c@.chunk.title is Some <==> c.chunk.title is Some,
        c.chunk.title is Some ==> c@.chunk.title->0 == c.chunk.title->0@,
        c@.chunk.topic is Some <==> c.chunk.topic is Some,
        c.chunk.topic is Some ==> c@.chunk.topic->0 == c.chunk.topic->0@,
{
}

} // verus!

//! The configuration file: where it is found, what it says, and what is in force.
//!
//! Numbers that are fractions are held as the bits of single-precision numbers, or of a
//! double-precision number where that is said.
use vstd::prelude::*;

use crate::embedder::{ModelChoice, RerankerChoice};
use crate::ieee;
use crate::parser::registry::{AnyParser, RegistryError, enables};
use crate::parser::{ParsersConfig, Registry, no_parsers_text};
use crate::path;
use crate::path::PathStyle;
use crate::quality::QualityFilterConfig;
use crate::text;
use crate::transport::TransportConfig;
use crate::watcher::WatchConfig;

verus! {

/// The directories that are left out where the configuration names none.
pub open spec fn default_exclude_dirs_spec() -> Seq<Seq<char>> {
    seq![".obsidian"@, ".git"@, "node_modules"@, "target"@, ".vscode"@, ".idea"@]
}

/// The directories that are left out where the configuration names none.
pub fn default_exclude_dirs() -> (r: Vec<String>)
    ensures
        text::views(r@) == default_exclude_dirs_spec(),
{
    let mut v: Vec<String> = Vec::new();
    v.push(text::copy(".obsidian"));
    v.push(text::copy(".git"));
    v.push(text::copy("node_modules"));
    v.push(text::copy("target"));
    v.push(text::copy(".vscode"));
    v.push(text::copy(".idea"));
    assert(text::views(v@) =~= default_exclude_dirs_spec());
    v
}

// ---------------------------------------------------------------------------
// Sections
// ---------------------------------------------------------------------------
/// The `[best_practice]` section: where to look for the best practice on a target.
#[derive(Debug, Clone, PartialEq)]
pub struct BestPracticeConfig {
    pub path_templates: Vec<String>,
}

impl Default for BestPracticeConfig {
    fn default() -> (r: Self)
        ensures
            r.path_templates@.len() == 0,
    {
        BestPracticeConfig { path_templates: Vec::new() }
    }
}

/// The `[search.mmr]` section.
#[derive(Debug, Clone, Copy, PartialEq, Eq, Structural)]
pub struct MmrConfig {
    pub enabled: bool,
    /// How much relevance counts against diversity.
    pub lambda_bits: u32,
    /// What chunks of one document are charged.
    pub same_doc_penalty_bits: u32,
}

/// The weight of relevance where the configuration gives none, 0.7.
pub const DEFAULT_MMR_LAMBDA_BITS: u32 = 0x3f33_3333;

/// The weight of relevance where the configuration gives none.
pub fn default_mmr_lambda() -> (r: u32)
    ensures
        r == DEFAULT_MMR_LAMBDA_BITS,
{
    DEFAULT_MMR_LAMBDA_BITS
}

impl Default for MmrConfig {
    fn default() -> (r: Self)
        ensures
            !r.enabled,
            r.lambda_bits == DEFAULT_MMR_LAMBDA_BITS,
            r.same_doc_penalty_bits == 0,
    {
        MmrConfig { enabled: false, lambda_bits: default_mmr_lambda(), same_doc_penalty_bits: 0 }
    }
}

/// The `[search.parent_retriever]` section.
#[derive(Debug, Clone, Copy, PartialEq, Eq, Structural)]
pub struct ParentRetrieverConfig {
    pub enabled: bool,
    /// A chunk with fewer tokens brings its whole document.
    pub whole_doc_threshold_tokens: u32,
    /// The most tokens that are shown.
    pub max_expanded_tokens: u32,
}

/// The limit for whole documents where the configuration gives none.
pub fn default_whole_doc_threshold() -> (r: u32)
    ensures
        r == 100,
{
    100
}

/// The most tokens shown where the configuration gives no limit.
pub fn default_max_expanded() -> (r: u32)
    ensures
        r == 2000,
{
    2000
}

impl Default for ParentRetrieverConfig {
    fn default() -> (r: Self)
        ensures
            !r.enabled,
            r.whole_doc_threshold_tokens == 100,
            r.max_expanded_tokens == 2000,
    {
        ParentRetrieverConfig {
            enabled: false,
            whole_doc_threshold_tokens: default_whole_doc_threshold(),
            max_expanded_tokens: default_max_expanded(),
        }
    }
}

/// The `[search]` section.
#[derive(Debug, Clone, Copy, PartialEq, Eq, Structural)]
pub struct SearchConfig {
    pub min_confidence_ratio_bits: Option<u32>,
    pub mmr: MmrConfig,
    pub parent_retriever: ParentRetrieverConfig,
}

/// The settings of a search where the configuration has none.
pub open spec fn default_search() -> SearchConfig {
    SearchConfig {
        min_confidence_ratio_bits: None,
        mmr: MmrConfig {
            enabled: false,
            lambda_bits: DEFAULT_MMR_LAMBDA_BITS,
            same_doc_penalty_bits: 0,
        },
        parent_retriever: ParentRetrieverConfig {
            enabled: false,
            whole_doc_threshold_tokens: 100,
            max_expanded_tokens: 2000,
        },
    }
}

impl Default for SearchConfig {
    fn default() -> (r: Self)
        ensures
            r == default_search(),
    {
        SearchConfig {
            min_confidence_ratio_bits: None,
            mmr: MmrConfig::default(),
            parent_retriever: ParentRetrieverConfig::default(),
        }
    }
}

/// What one search asks for instead of the configuration.
#[derive(Debug, Clone, Copy, PartialEq, Eq, Structural)]
pub struct SearchOverrides {
    pub mmr: Option<bool>,
    pub mmr_lambda_bits: Option<u32>,
    pub mmr_same_doc_penalty_bits: Option<u32>,
    pub parent_retriever: Option<bool>,
}

impl Default for SearchOverrides {
    fn default() -> (r: Self)
        ensures
            r.mmr is None,
            r.mmr_lambda_bits is None,
            r.mmr_same_doc_penalty_bits is None,
            r.parent_retriever is None,
    {
        SearchOverrides {
            mmr: None,
            mmr_lambda_bits: None,
            mmr_same_doc_penalty_bits: None,
            parent_retriever: None,
        }
    }
}

/// The settings of one search.
#[derive(Debug, Clone, Copy, PartialEq, Eq, Structural)]
pub struct ResolvedSearchConfig {
    pub mmr_enabled: bool,
    pub mmr_lambda_bits: u32,
    pub mmr_same_doc_penalty_bits: u32,
    pub parent_retriever_enabled: bool,
    pub parent_whole_doc_threshold_tokens: u32,
    pub parent_max_expanded_tokens: u32,
}

/// What is asked for, or else what is configured.
pub open spec fn or_else<T>(asked: Option<T>, configured: T) -> T {
    match asked {
        Some(v) => v,
        None => configured,
    }
}

impl SearchOverrides {
    /// The settings of one search: what it asks for wins over the configuration. The limits of
    /// the parent retriever are always those of the configuration.
    pub fn resolve(&self, toml: &SearchConfig) -> (r: ResolvedSearchConfig)
        ensures
            r.mmr_enabled == or_else(self.mmr, toml.mmr.enabled),
            r.mmr_lambda_bits == or_else(self.mmr_lambda_bits, toml.mmr.lambda_bits),
            r.mmr_same_doc_penalty_bits == or_else(
                self.mmr_same_doc_penalty_bits,
                toml.mmr.same_doc_penalty_bits,
            ),
            r.parent_retriever_enabled == or_else(
                self.parent_retriever,
                toml.parent_retriever.enabled,
            ),
            r.parent_whole_doc_threshold_tokens
                == toml.parent_retriever.whole_doc_threshold_tokens,
            r.parent_max_expanded_tokens == toml.parent_retriever.max_expanded_tokens,
    {
        ResolvedSearchConfig {
            mmr_enabled: match self.mmr {
                Some(v) => v,
                None => toml.mmr.enabled,
            },
            mmr_lambda_bits: match self.mmr_lambda_bits {
                Some(v) => v,
                None => toml.mmr.lambda_bits,
            },
            mmr_same_doc_penalty_bits: match self.mmr_same_doc_penalty_bits {
                Some(v) => v,
                None => toml.mmr.same_doc_penalty_bits,
            },
            parent_retriever_enabled: match self.parent_retriever {
                Some(v) => v,
                None => toml.parent_retriever.enabled,
            },
            parent_whole_doc_threshold_tokens: toml.parent_retriever.whole_doc_threshold_tokens,
            parent_max_expanded_tokens: toml.parent_retriever.max_expanded_tokens,
        }
    }

    /// Whether values are given for maximal marginal relevance while it is off, so that they
    /// have no effect.
    pub fn has_ignored_values(&self, toml: &SearchConfig) -> (r: bool)
        ensures
            r == (!or_else(self.mmr, toml.mmr.enabled) && (self.mmr_lambda_bits is Some
                || self.mmr_same_doc_penalty_bits is Some)),
    {
        let on = match self.mmr {
            Some(v) => v,
            None => toml.mmr.enabled,
        };
        !on && (self.mmr_lambda_bits.is_some() || self.mmr_same_doc_penalty_bits.is_some())
    }
}

/// The `[eval]` section.
#[derive(Debug, Clone, PartialEq)]
pub struct EvalConfig {
    pub golden: Option<String>,
    pub history_size: Option<usize>,
    pub k_values: Option<Vec<usize>>,
    /// The bits of a double-precision number.
    pub regression_threshold_bits: Option<u64>,
}

impl Default for EvalConfig {
    fn default() -> (r: Self)
        ensures
            r.golden is None,
            r.history_size is None,
            r.k_values is None,
            r.regression_threshold_bits is None,
    {
        EvalConfig {
            golden: None,
            history_size: None,
            k_values: None,
            regression_threshold_bits: None,
        }
    }
}

/// A configuration file. What it leaves out is `None`.
#[derive(Debug)]
pub struct Config {
    pub kb_path: Option<String>,
    pub model: Option<ModelChoice>,
    pub reranker: Option<RerankerChoice>,
    pub rerank_by_default: Option<bool>,
    pub fastembed_cache_dir: Option<String>,
    pub exclude_headings: Option<Vec<String>>,
    pub exclude_dirs: Option<Vec<String>>,
    pub quality_filter: Option<QualityFilterConfig>,
    pub best_practice: Option<BestPracticeConfig>,
    pub parsers: Option<ParsersConfig>,
    pub watch: Option<WatchConfig>,
    pub transport: Option<TransportConfig>,
    pub eval: Option<EvalConfig>,
    pub search: Option<SearchConfig>,
}

/// What is wrong with a configuration. A number out of range is given by its bits.
#[derive(Debug, Clone)]
pub enum ConfigError {
    NoParsers { message: String },
    LambdaOutOfRange { bits: u32 },
    PenaltyOutOfRange { bits: u32 },
    ExpandedNotAboveThreshold { max_expanded: u32, threshold: u32 },
    ExpandedTooLarge { max_expanded: u32 },
}

/// The most tokens that may be shown: the context window of the largest model.
pub const MAX_EXPANDED_TOKENS: u32 = 8192;

impl ConfigError {
    /// The error in words. `number` is the number out of range, where there is one.
    pub fn message(&self, number: &str) -> (r: String)
        ensures
            r@ == match self {
                ConfigError::NoParsers { message } => message@,
                ConfigError::LambdaOutOfRange { bits } =>
                "[search.mmr].lambda must be in 0.0..=1.0, got "@ + number@,
                ConfigError::PenaltyOutOfRange { bits } =>
                "[search.mmr].same_doc_penalty must be in 0.0..=1.0, got "@ + number@,
                ConfigError::ExpandedNotAboveThreshold { max_expanded, threshold } =>
                "[search.parent_retriever].max_expanded_tokens ("@ + text::decimal_spec(
                    *max_expanded as nat,
                ) + ") must be > whole_doc_threshold_tokens ("@ + text::decimal_spec(
                    *threshold as nat,
                ) + ")"@,
                ConfigError::ExpandedTooLarge { max_expanded } =>
                "[search.parent_retriever].max_expanded_tokens must be <= 8192 (BGE-M3 context window), got "@
                    + text::decimal_spec(*max_expanded as nat),
            },
    {
        match self {
            ConfigError::NoParsers { message } => message.clone(),
            ConfigError::LambdaOutOfRange { bits } => {
                let mut r = text::copy("[search.mmr].lambda must be in 0.0..=1.0, got ");
                r.append(number);
                r
            },
            ConfigError::PenaltyOutOfRange { bits } => {
                let mut r = text::copy(
                    "[search.mmr].same_doc_penalty must be in 0.0..=1.0, got ",
                );
                r.append(number);
                r
            },
            ConfigError::ExpandedNotAboveThreshold { max_expanded, threshold } => {
                let mut r = text::copy("[search.parent_retriever].max_expanded_tokens (");
                r.append(text::decimal(*max_expanded as u64).as_str());
                r.append(") must be > whole_doc_threshold_tokens (");
                r.append(text::decimal(*threshold as u64).as_str());
                r.append(")");
                r
            },
            ConfigError::ExpandedTooLarge { max_expanded } => {
                let mut r = text::copy(
                    "[search.parent_retriever].max_expanded_tokens must be <= 8192 (BGE-M3 context window), got ",
                );
                r.append(text::decimal(*max_expanded as u64).as_str());
                r
            },
        }
    }
}

/// What is wrong with the `[search]` section: of several faults the first in the order of the
/// errors.
pub open spec fn search_error(s: SearchConfig) -> Option<ConfigError> {
    if !ieee::in_unit_range_spec(s.mmr.lambda_bits) {
        Some(ConfigError::LambdaOutOfRange { bits: s.mmr.lambda_bits })
    } else if !ieee::in_unit_range_spec(s.mmr.same_doc_penalty_bits) {
        Some(ConfigError::PenaltyOutOfRange { bits: s.mmr.same_doc_penalty_bits })
    } else if s.parent_retriever.max_expanded_tokens
        <= s.parent_retriever.whole_doc_threshold_tokens {
        Some(
            ConfigError::ExpandedNotAboveThreshold {
                max_expanded: s.parent_retriever.max_expanded_tokens,
                threshold: s.parent_retriever.whole_doc_threshold_tokens,
            },
        )
    } else if s.parent_retriever.max_expanded_tokens > MAX_EXPANDED_TOKENS {
        Some(
            ConfigError::ExpandedTooLarge {
                max_expanded: s.parent_retriever.max_expanded_tokens,
            },
        )
    } else {
        None
    }
}

/// A path of the configuration file `base/...`: one that is not absolute is meant from there.
pub fn resolve_relative(base: &str, p: &str, style: PathStyle) -> (r: String)
    ensures
        r@ == path::seen_from_spec(base@, p@, style),
        path::absolute_spec(p@, style) ==> r@ == p@,
{
    path::seen_from(base, p, style)
}

/// An optional path, meant from `base`.
pub open spec fn rebased(base: Seq<char>, p: Option<Seq<char>>, style: PathStyle) -> Option<
    Seq<char>,
> {
    match p {
        Some(q) => Some(path::seen_from_spec(base, q, style)),
        None => None,
    }
}

fn rebase(base: &str, p: &Option<String>, style: PathStyle) -> (r: Option<String>)
    ensures
        text::opt_view(r) == rebased(base@, text::opt_view(*p), style),
{
    match p {
        Some(q) => Some(resolve_relative(base, q.as_str(), style)),
        None => None,
    }
}

/// The golden file that a configuration names.
pub open spec fn golden_of(e: Option<EvalConfig>) -> Option<Seq<char>> {
    match e {
        Some(c) => text::opt_view(c.golden),
        None => None,
    }
}

impl Config {
    /// Whether a configuration says nothing.
    pub open spec fn says_nothing(self) -> bool {
        &&& self.kb_path is None
        &&& self.model is None
        &&& self.reranker is None
        &&& self.rerank_by_default is None
        &&& self.fastembed_cache_dir is None
        &&& self.exclude_headings is None
        &&& self.exclude_dirs is None
        &&& self.quality_filter is None
        &&& self.best_practice is None
        &&& self.parsers is None
        &&& self.watch is None
        &&& self.transport is None
        &&& self.eval is None
        &&& self.search is None
    }

    /// Whether a configuration says nothing.
    pub fn is_empty(&self) -> (r: bool)
        ensures
            r == self.says_nothing(),
    {
        self.kb_path.is_none() && self.model.is_none() && self.reranker.is_none()
            && self.rerank_by_default.is_none() && self.fastembed_cache_dir.is_none()
            && self.exclude_headings.is_none() && self.exclude_dirs.is_none()
            && self.quality_filter.is_none() && self.best_practice.is_none()
            && self.parsers.is_none() && self.watch.is_none() && self.transport.is_none()
            && self.eval.is_none() && self.search.is_none()
    }

    /// The directories that are left out: those of the configuration, even if it names none,
    /// else the usual ones.
    pub fn resolve_exclude_dirs(&self) -> (r: Vec<String>)
        ensures
            text::views(r@) == match self.exclude_dirs {
                Some(list) => text::views(list@),
                None => default_exclude_dirs_spec(),
            },
    {
        match &self.exclude_dirs {
            Some(list) => text::copy_all(list),
            None => default_exclude_dirs(),
        }
    }

    /// The parsers that are enabled: those of the configuration, else Markdown alone.
    pub fn build_parser_registry(&self) -> (r: Result<Registry, RegistryError>)
        ensures
            match self.parsers {
                None => r matches Ok(reg) && reg.parsers@ == seq![AnyParser::Markdown],
                Some(p) => enables(p.enabled@, r),
            },
    {
        match &self.parsers {
            Some(p) => Registry::from_enabled(p.enabled.as_slice()),
            None => Ok(Registry::defaults()),
        }
    }

    /// The directory for models that the configuration sets: none where the environment names
    /// one already.
    pub fn cache_dir_to_set(&self, in_env: bool) -> (r: Option<String>)
        ensures
            text::opt_view(r) == if in_env {
                None
            } else {
                text::opt_view(self.fastembed_cache_dir)
            },
    {
        if in_env {
            return None;
        }
        text::copy_opt(&self.fastembed_cache_dir)
    }

    /// Whether the numbers of the configuration are in range; if not, the first that is not.
    pub fn validate(&self) -> (r: Result<(), ConfigError>)
        ensures
            match self.search {
                None => r is Ok,
                Some(s) => match search_error(s) {
                    None => r is Ok,
                    Some(e) => r == Err::<(), ConfigError>(e),
                },
            },
    {
        let s = match &self.search {
            Some(s) => s,
            None => {
                return Ok(());
            },
        };
        if !ieee::in_unit_range(s.mmr.lambda_bits) {
            return Err(ConfigError::LambdaOutOfRange { bits: s.mmr.lambda_bits });
        }
        if !ieee::in_unit_range(s.mmr.same_doc_penalty_bits) {
            return Err(ConfigError::PenaltyOutOfRange { bits: s.mmr.same_doc_penalty_bits });
        }
        let max_expanded: u32 = s.parent_retriever.max_expanded_tokens;
        let threshold: u32 = s.parent_retriever.whole_doc_threshold_tokens;
        if max_expanded <= threshold {
            return Err(ConfigError::ExpandedNotAboveThreshold { max_expanded, threshold });
        }
        if max_expanded > MAX_EXPANDED_TOKENS {
            return Err(ConfigError::ExpandedTooLarge { max_expanded });
        }
        Ok(())
    }

    /// Completes a configuration that was read from the file `path`: its relative paths are
    /// meant from the directory of the file, and what it says has to be in order. Its paths are
    /// read by the rules of `style`.
    pub fn load_from(self, path: &str, style: PathStyle) -> (r: Result<Config, ConfigError>)
        ensures
            ({
                let bad_parsers = self.parsers is Some && self.parsers->0.enabled@.len() == 0;
                match r {
                    Err(ConfigError::NoParsers { message }) => bad_parsers && message@
                        == no_parsers_text(),
                    Err(e) => !bad_parsers && self.search is Some && search_error(self.search->0)
                        == Some(e),
                    Ok(c) => {
                        &&& !bad_parsers
                        &&& self.search is Some ==> search_error(self.search->0) is None
                        &&& c.completes(self, path@, style)
                    },
                }
            }),
    {
        let mut cfg = self;
        if let Some(base) = path::parent(path) {
            cfg.kb_path = rebase(base.as_str(), &cfg.kb_path, style);
            cfg.fastembed_cache_dir = rebase(base.as_str(), &cfg.fastembed_cache_dir, style);
            cfg.eval = match cfg.eval {
                Some(e) => Some(
                    EvalConfig {
                        golden: rebase(base.as_str(), &e.golden, style),
                        history_size: e.history_size,
                        k_values: e.k_values,
                        regression_threshold_bits: e.regression_threshold_bits,
                    },
                ),
                None => None,
            };
        }
        if let Some(p) = &cfg.parsers {
            if let Err(message) = p.validate() {
                return Err(ConfigError::NoParsers { message });
            }
        }
        match cfg.validate() {
            Ok(_) => Ok(cfg),
            Err(e) => Err(e),
        }
    }

    /// Whether this configuration is `raw` with the relative paths of a file at `path`
    /// completed, and otherwise the same.
    pub open spec fn completes(self, raw: Config, path: Seq<char>, style: PathStyle) -> bool {
        let base = path::parent_spec(path);
        &&& text::opt_view(self.kb_path) == match base {
            Some(b) => rebased(b, text::opt_view(raw.kb_path), style),
            None => text::opt_view(raw.kb_path),
        }
        &&& text::opt_view(self.fastembed_cache_dir) == match base {
            Some(b) => rebased(b, text::opt_view(raw.fastembed_cache_dir), style),
            None => text::opt_view(raw.fastembed_cache_dir),
        }
        &&& golden_of(self.eval) == match base {
            Some(b) => rebased(b, golden_of(raw.eval), style),
            None => golden_of(raw.eval),
        }
        &&& self.eval is Some == raw.eval is Some
        &&& raw.eval is Some ==> {
            &&& self.eval->0.history_size == raw.eval->0.history_size
            &&& self.eval->0.k_values == raw.eval->0.k_values
            &&& self.eval->0.regression_threshold_bits == raw.eval->0.regression_threshold_bits
        }
        &&& self.model == raw.model
        &&& self.reranker == raw.reranker
        &&& self.rerank_by_default == raw.rerank_by_default
        &&& self.exclude_headings == raw.exclude_headings
        &&& self.exclude_dirs == raw.exclude_dirs
        &&& self.quality_filter == raw.quality_filter
        &&& self.best_practice == raw.best_practice
        &&& self.parsers == raw.parsers
        &&& self.watch == raw.watch
        &&& self.transport == raw.transport
        &&& self.search == raw.search
    }
}

impl Default for Config {
    fn default() -> (r: Self)
        ensures
            r.says_nothing(),
    {
        Config {
            kb_path: None,
            model: None,
            reranker: None,
            rerank_by_default: None,
            fastembed_cache_dir: None,
            exclude_headings: None,
            exclude_dirs: None,
            quality_filter: None,
            best_practice: None,
            parsers: None,
            watch: None,
            transport: None,
            eval: None,
            search: None,
        }
    }
}

// ---------------------------------------------------------------------------
// Finding the file
// ---------------------------------------------------------------------------
/// Whether a tilde at the head of a path stands for the home directory: nothing or a separator
/// follows it.
pub open spec fn tilde_counts(s: Seq<char>) -> bool {
    s.len() > 0 && s[0] == '~' && (s.len() == 1 || s[1] == '/')
}

/// Whether a path becomes `r` with the home directory in place of a tilde at its head. Without a
/// home directory it stays as it is. Behind `~` a backslash is a separator on Windows alone.
pub open spec fn expands_to(s: Seq<char>, home: Option<Seq<char>>, r: Seq<char>) -> bool {
    match home {
        None => r == s,
        Some(h) => if tilde_counts(s) {
            r == h + s.skip(1)
        } else if s.len() > 1 && s[0] == '~' && s[1] == '\\' {
            r == s || r == h + s.skip(1)
        } else {
            r == s
        },
    }
}

/// `shellexpand::tilde_with_context`: puts the home directory in place of a tilde at the head of
/// a path. Which of the two results a path that begins with a tilde and a backslash has depends
/// on the system that the crate was built for.
#[verifier::external_body]
fn tilde(s: &str, home: Option<&str>) -> (r: String)
    ensures
        expands_to(s@, text::opt_str_view(home), r@),
{
    shellexpand::tilde_with_context(s, || home).into_owned()
}

/// A path with the home directory in place of a tilde at its head. Where the home directory is
/// not known, the path stays as it is.
pub fn expand_tilde(s: &str, home: Option<&str>) -> (r: String)
    ensures
        expands_to(s@, text::opt_str_view(home), r@),
{
    tilde(s, home)
}

/// Where a configuration was found.
#[derive(Debug, Clone, Copy, PartialEq, Eq, Structural)]
pub enum ConfigSource {
    /// At the path asked for.
    Explicit,
    /// In the working directory.
    Cwd,
    /// At the root of the repository that the working directory lies in.
    GitRoot,
    /// Beside the program.
    AlongsideBinary,
    /// Nowhere.
    NotFound,
}

/// The name of the configuration file.
pub open spec fn config_file() -> Seq<char> {
    "kb-mcp.toml"@
}

/// How many directories upward are searched for a repository, the first one counted.
pub const GIT_LEVELS: u32 = 20;

/// The root of the repository that `dir` lies in, looking at no more than `levels` directories.
/// `exists` says which paths there are.
pub open spec fn git_root(
    dir: Seq<char>,
    levels: nat,
    exists_at: spec_fn(Seq<char>) -> bool,
) -> Option<Seq<char>>
    decreases levels,
{
    if levels == 0 {
        None
    } else if exists_at(path::join_spec(dir, ".git"@)) {
        Some(dir)
    } else {
        match path::parent_spec(dir) {
            Some(up) => git_root(up, (levels - 1) as nat, exists_at),
            None => None,
        }
    }
}

/// Which configuration file is used, and why. A path asked for has to exist; `None` means that
/// it does not.
pub open spec fn discover_spec(
    explicit: Option<Seq<char>>,
    cwd: Seq<char>,
    alongside: Option<Seq<char>>,
    style: PathStyle,
    exists_at: spec_fn(Seq<char>) -> bool,
) -> Option<(ConfigSource, Seq<char>)> {
    match explicit {
        Some(p) => {
            let resolved = path::seen_from_spec(cwd, p, style);
            if exists_at(resolved) {
                Some((ConfigSource::Explicit, resolved))
            } else {
                None
            }
        },
        None => {
            let here = path::join_spec(cwd, config_file());
            if exists_at(here) {
                Some((ConfigSource::Cwd, here))
            } else {
                after_cwd(cwd, GIT_LEVELS as nat, alongside, exists_at)
            }
        },
    }
}

/// Which configuration file is used where the working directory has none, once all but `levels`
/// of the directories from `dir` upward have been looked at.
pub open spec fn after_cwd(
    dir: Seq<char>,
    levels: nat,
    alongside: Option<Seq<char>>,
    exists_at: spec_fn(Seq<char>) -> bool,
) -> Option<(ConfigSource, Seq<char>)> {
    match git_root(dir, levels, exists_at) {
        Some(root) => after_root(root, alongside, exists_at),
        None => after_git(alongside, exists_at),
    }
}

/// Which configuration file is used once the root of the repository is known.
pub open spec fn after_root(
    root: Seq<char>,
    alongside: Option<Seq<char>>,
    exists_at: spec_fn(Seq<char>) -> bool,
) -> Option<(ConfigSource, Seq<char>)> {
    let file = path::join_spec(root, config_file());
    if exists_at(file) {
        Some((ConfigSource::GitRoot, file))
    } else {
        after_git(alongside, exists_at)
    }
}

/// Which configuration file is used where the repository has none.
pub open spec fn after_git(
    alongside: Option<Seq<char>>,
    exists_at: spec_fn(Seq<char>) -> bool,
) -> Option<(ConfigSource, Seq<char>)> {
    match alongside {
        Some(side) => if exists_at(side) {
            Some((ConfigSource::AlongsideBinary, side))
        } else {
            Some((ConfigSource::NotFound, Seq::empty()))
        },
        None => Some((ConfigSource::NotFound, Seq::empty())),
    }
}

/// Whether a path asked for is `p` with its tilde expanded.
pub open spec fn meant_by(
    explicit: Option<&str>,
    home: Option<Seq<char>>,
    p: Option<Seq<char>>,
) -> bool {
    match (explicit, p) {
        (Some(e), Some(q)) => expands_to(e@, home, q),
        (None, None) => true,
        _ => false,
    }
}

/// The configuration file beside a program.
pub fn alongside_of(exe: &str) -> (r: Option<String>)
    ensures
        text::opt_view(r) == match path::parent_spec(exe@) {
            Some(dir) => Some(path::join_spec(dir, config_file())),
            None => None,
        },
{
    match path::parent(exe) {
        Some(dir) => Some(path::join(dir.as_str(), "kb-mcp.toml")),
        None => None,
    }
}

/// Where a search for the configuration file stands.
#[derive(Debug, Clone, Copy, PartialEq, Eq, Structural)]
pub enum SearchStage {
    Explicit,
    Cwd,
    Git,
    GitFile,
    Alongside,
    /// The path asked for does not exist.
    Missing,
    /// The search is over.
    Found { source: ConfigSource },
}

/// A search for the configuration file. It asks, one path after the other, whether the path
/// exists.
#[derive(Debug)]
pub struct ConfigSearch {
    pub stage: SearchStage,
    /// The path asked about, and in the end the path of the file.
    pub path: String,
    /// The directory that is being looked at.
    pub dir: String,
    /// How many directories may still be looked at, this one included.
    pub levels: u32,
    pub alongside: Option<String>,
}

impl ConfigSearch {
    /// What the search comes to, if `exists_at` says which paths there are.
    pub open spec fn outcome(self, exists_at: spec_fn(Seq<char>) -> bool) -> Option<
        (ConfigSource, Seq<char>),
    > {
        let side = text::opt_view(self.alongside);
        match self.stage {
            SearchStage::Explicit => if exists_at(self.path@) {
                Some((ConfigSource::Explicit, self.path@))
            } else {
                None
            },
            SearchStage::Cwd => if exists_at(self.path@) {
                Some((ConfigSource::Cwd, self.path@))
            } else {
                after_cwd(self.dir@, self.levels as nat, side, exists_at)
            },
            SearchStage::Git => after_cwd(self.dir@, self.levels as nat, side, exists_at),
            SearchStage::GitFile => after_root(self.dir@, side, exists_at),
            SearchStage::Alongside => after_git(side, exists_at),
            SearchStage::Missing => None,
            SearchStage::Found { source } => Some((source, self.path@)),
        }
    }

    /// Whether the path asked about is the one that the stage is about.
    pub open spec fn wf(self) -> bool {
        match self.stage {
            SearchStage::Git => self.levels > 0 && self.path@ == path::join_spec(
                self.dir@,
                ".git"@,
            ),
            SearchStage::GitFile => self.path@ == path::join_spec(self.dir@, config_file()),
            SearchStage::Alongside => self.alongside is Some && self.path@ == self.alongside->0@,
            SearchStage::Cwd => self.levels > 0,
            _ => true,
        }
    }

    /// Whether there is nothing more to ask.
    pub open spec fn over(self) -> bool {
        self.stage is Missing || self.stage is Found
    }

    /// Starts a search. A path asked for is meant from the working directory, and read by the
    /// rules of `style`.
    pub fn start(
        explicit: Option<&str>,
        cwd: &str,
        alongside: Option<String>,
        style: PathStyle,
    ) -> (r: ConfigSearch)
        ensures
            r.wf(),
            !r.over(),
            forall|exists_at: spec_fn(Seq<char>) -> bool|
                #[trigger] r.outcome(exists_at) == discover_spec(
                    text::opt_str_view(explicit),
                    cwd@,
                    text::opt_view(alongside),
                    style,
                    exists_at,
                ),
    {
        match explicit {
            Some(p) => ConfigSearch {
                stage: SearchStage::Explicit,
                path: path::seen_from(cwd, p, style),
                dir: text::copy(cwd),
                levels: GIT_LEVELS,
                alongside,
            },
            None => ConfigSearch {
                stage: SearchStage::Cwd,
                path: path::join(cwd, "kb-mcp.toml"),
                dir: text::copy(cwd),
                levels: GIT_LEVELS,
                alongside,
            },
        }
    }

    /// Starts a search as the command line asks for it: a tilde at the head of a path stands for
    /// the home directory.
    pub fn discover(
        explicit: Option<&str>,
        home: Option<&str>,
        cwd: &str,
        alongside: Option<String>,
        style: PathStyle,
    ) -> (r: ConfigSearch)
        ensures
            r.wf(),
            !r.over(),
            exists|p: Option<Seq<char>>|
                meant_by(explicit, text::opt_str_view(home), p) && forall|
                    exists_at: spec_fn(Seq<char>) -> bool,
                |
                    #[trigger] r.outcome(exists_at) == discover_spec(
                        p,
                        cwd@,
                        text::opt_view(alongside),
                        style,
                        exists_at,
                    ),
    {
        match explicit {
            Some(p) => {
                let expanded = expand_tilde(p, home);
                let r = ConfigSearch::start(Some(expanded.as_str()), cwd, alongside, style);
                assert(meant_by(explicit, text::opt_str_view(home), Some(expanded@)));
                r
            },
            None => {
                let r = ConfigSearch::start(None, cwd, alongside, style);
                assert(meant_by(explicit, text::opt_str_view(home), None));
                r
            },
        }
    }

    fn go_alongside(&mut self)
        ensures
            final(self).wf(),
            final(self).levels == old(self).levels,
            final(self).stage is Alongside || final(self).over(),
            forall|exists_at: spec_fn(Seq<char>) -> bool|
                #[trigger] final(self).outcome(exists_at) == after_git(
                    text::opt_view(old(self).alongside),
                    exists_at,
                ),
    {
        match &self.alongside {
            Some(side) => {
                self.path = side.clone();
                self.stage = SearchStage::Alongside;
            },
            None => {
                self.path = String::new();
                assert(self.path@ =~= Seq::<char>::empty());
                self.stage = SearchStage::Found { source: ConfigSource::NotFound };
            },
        }
    }

    /// Takes the answer to whether the path asked about exists. Whatever files there are, the
    /// search comes to the same as before, provided that the answer was right.
    pub fn answer(&mut self, exists: bool)
        requires
            old(self).wf(),
            !old(self).over(),
        ensures
            final(self).wf(),
            forall|exists_at: spec_fn(Seq<char>) -> bool|
                exists_at(old(self).path@) == exists ==> #[trigger] final(self).outcome(exists_at)
                    == old(self).outcome(exists_at),
            final(self).over() || final(self).rank() < old(self).rank(),
    {
        match self.stage {
            SearchStage::Explicit => {
                self.stage = if exists {
                    SearchStage::Found { source: ConfigSource::Explicit }
                } else {
                    SearchStage::Missing
                };
            },
            SearchStage::Cwd => {
                if exists {
                    self.stage = SearchStage::Found { source: ConfigSource::Cwd };
                } else {
                    self.path = path::join(self.dir.as_str(), ".git");
                    self.stage = SearchStage::Git;
                }
            },
            SearchStage::Git => {
                if exists {
                    self.path = path::join(self.dir.as_str(), "kb-mcp.toml");
                    self.stage = SearchStage::GitFile;
                } else {
                    match path::parent(self.dir.as_str()) {
                        Some(up) => {
                            self.levels = self.levels - 1;
                            if self.levels == 0 {
                                self.go_alongside();
                            } else {
                                self.path = path::join(up.as_str(), ".git");
                                self.dir = up;
                            }
                        },
                        None => {
                            self.go_alongside();
                        },
                    }
                }
            },
            SearchStage::GitFile => {
                if exists {
                    self.stage = SearchStage::Found { source: ConfigSource::GitRoot };
                } else {
                    self.go_alongside();
                }
            },
            SearchStage::Alongside => {
                if exists {
                    self.stage = SearchStage::Found { source: ConfigSource::AlongsideBinary };
                } else {
                    self.path = String::new();
                    assert(self.path@ =~= Seq::<char>::empty());
                    self.stage = SearchStage::Found { source: ConfigSource::NotFound };
                }
            },
            SearchStage::Missing => {},
            SearchStage::Found { source } => {},
        }
    }

    /// How many answers the search can still take at most.
    pub open spec fn rank(self) -> nat {
        match self.stage {
            SearchStage::Explicit => 1,
            SearchStage::Cwd => (3 + self.levels) as nat,
            SearchStage::Git => (2 + self.levels) as nat,
            SearchStage::GitFile => 2,
            SearchStage::Alongside => 1,
            SearchStage::Missing => 0,
            SearchStage::Found { source } => 0,
        }
    }
}

/// That the path asked for does not exist, in words.
pub fn missing_message(path: &str) -> (r: String)
    ensures
        r@ == "--config path not found: "@ + path@,
{
    let mut r = text::copy("--config path not found: ");
    r.append(path);
    r
}

/// That a file at `path` could not be loaded, in words.
pub fn load_context(source: ConfigSource, path: &str) -> (r: String)
    ensures
        r@ == match source {
            ConfigSource::Explicit => "failed to load config from --config "@,
            ConfigSource::Cwd => "failed to load config from cwd "@,
            ConfigSource::GitRoot => "failed to load config from git root "@,
            ConfigSource::AlongsideBinary => "failed to load config alongside binary "@,
            ConfigSource::NotFound => "failed to load config "@,
        } + path@,
{
    let mut r = text::copy(
        match source {
            ConfigSource::Explicit => "failed to load config from --config ",
            ConfigSource::Cwd => "failed to load config from cwd ",
            ConfigSource::GitRoot => "failed to load config from git root ",
            ConfigSource::AlongsideBinary => "failed to load config alongside binary ",
            ConfigSource::NotFound => "failed to load config ",
        },
    );
    r.append(path);
    r
}

/// A path asked for decides alone: if it does not exist, no other file is taken in its place.
pub proof fn an_explicit_path_has_no_fallback(
    p: Seq<char>,
    cwd: Seq<char>,
    alongside: Option<Seq<char>>,
    style: PathStyle,
    exists_at: spec_fn(Seq<char>) -> bool,
)
    requires
        !exists_at(path::seen_from_spec(cwd, p, style)),
    ensures
        discover_spec(Some(p), cwd, alongside, style, exists_at) is None,
{
}

/// Without a path asked for, the search always comes to something, and a file in the working
/// directory wins over all others.
pub proof fn the_working_directory_wins(
    cwd: Seq<char>,
    alongside: Option<Seq<char>>,
    style: PathStyle,
    exists_at: spec_fn(Seq<char>) -> bool,
)
    ensures
        discover_spec(None, cwd, alongside, style, exists_at) is Some,
        exists_at(path::join_spec(cwd, config_file())) ==> (discover_spec(
            None,
            cwd,
            alongside,
            style,
            exists_at,
        ) matches Some((source, p)) && source == ConfigSource::Cwd),
{
}

/// A file that the search names exists.
pub proof fn a_file_that_is_found_exists(
    explicit: Option<Seq<char>>,
    cwd: Seq<char>,
    alongside: Option<Seq<char>>,
    style: PathStyle,
    exists_at: spec_fn(Seq<char>) -> bool,
)
    ensures
        discover_spec(explicit, cwd, alongside, style, exists_at) matches Some((source, p)) ==> source
            == ConfigSource::NotFound || exists_at(p),
{
}

/// An absolute path of the configuration stays as it is written, whatever directory it is seen
/// from; shares and verbatim names of Windows are absolute.
pub proof fn absolute_paths_are_not_rebased(base: Seq<char>, p: Seq<char>, style: PathStyle)
    requires
        path::absolute_spec(p, style),
    ensures
        path::seen_from_spec(base, p, style) == p,
{
}

/// A path asked for is meant from the working directory, and taken if it exists.
pub proof fn an_explicit_path_is_taken(
    p: Seq<char>,
    cwd: Seq<char>,
    alongside: Option<Seq<char>>,
    style: PathStyle,
    exists_at: spec_fn(Seq<char>) -> bool,
)
    requires
        exists_at(path::seen_from_spec(cwd, p, style)),
    ensures
        discover_spec(Some(p), cwd, alongside, style, exists_at) == Some(
            (ConfigSource::Explicit, path::seen_from_spec(cwd, p, style)),
        ),
{
}

/// The directory `n` levels above another, if there is one.
pub open spec fn ancestor(dir: Seq<char>, n: nat) -> Option<Seq<char>>
    decreases n,
{
    if n == 0 {
        Some(dir)
    } else {
        match ancestor(dir, (n - 1) as nat) {
            Some(d) => path::parent_spec(d),
            None => None,
        }
    }
}

proof fn ancestor_from_below(dir: Seq<char>, n: nat)
    requires
        n > 0,
    ensures
        ancestor(dir, n) == match path::parent_spec(dir) {
            Some(up) => ancestor(up, (n - 1) as nat),
            None => None,
        },
    decreases n,
{
    reveal_with_fuel(ancestor, 2);
    if n > 1 {
        ancestor_from_below(dir, (n - 1) as nat);
    }
}

/// Whether the directory `n` levels above `dir` is there and holds a repository.
pub open spec fn repository_at(
    dir: Seq<char>,
    n: nat,
    exists_at: spec_fn(Seq<char>) -> bool,
) -> bool {
    ancestor(dir, n) matches Some(d) && exists_at(path::join_spec(d, ".git"@))
}

proof fn root_is_the_nearest(
    dir: Seq<char>,
    levels: nat,
    n: nat,
    exists_at: spec_fn(Seq<char>) -> bool,
)
    requires
        n < levels,
        repository_at(dir, n, exists_at),
        forall|m: nat| m < n ==> !#[trigger] repository_at(dir, m, exists_at),
    ensures
        git_root(dir, levels, exists_at) == ancestor(dir, n),
    decreases n,
{
    if n > 0 {
        assert(!repository_at(dir, 0, exists_at));
        ancestor_from_below(dir, n);
        let up = path::parent_spec(dir)->0;
        assert forall|m: nat| m < n - 1 implies !#[trigger] repository_at(up, m, exists_at) by {
            ancestor_from_below(dir, m + 1);
            assert(!repository_at(dir, m + 1, exists_at));
        }
        root_is_the_nearest(up, (levels - 1) as nat, (n - 1) as nat, exists_at);
    }
}

proof fn no_root_without_a_repository(
    dir: Seq<char>,
    levels: nat,
    exists_at: spec_fn(Seq<char>) -> bool,
)
    requires
        forall|m: nat| m < levels ==> !#[trigger] repository_at(dir, m, exists_at),
    ensures
        git_root(dir, levels, exists_at) is None,
    decreases levels,
{
    if levels > 0 {
        assert(!repository_at(dir, 0, exists_at));
        if let Some(up) = path::parent_spec(dir) {
            assert forall|m: nat| m < levels - 1 implies !#[trigger] repository_at(
                up,
                m,
                exists_at,
            ) by {
                ancestor_from_below(dir, m + 1);
                assert(!repository_at(dir, m + 1, exists_at));
            }
            no_root_without_a_repository(up, (levels - 1) as nat, exists_at);
        }
    }
}

/// Where nothing is asked for, the file of the working directory is taken if there is one; else
/// that of the nearest repository, looking at twenty directories upward; else the one beside the
/// program; else none.
pub proof fn files_are_looked_for_in_order(
    cwd: Seq<char>,
    alongside: Option<Seq<char>>,
    style: PathStyle,
    n: nat,
    exists_at: spec_fn(Seq<char>) -> bool,
)
    ensures
        ({
            let found = discover_spec(None, cwd, alongside, style, exists_at);
            let here = path::join_spec(cwd, "kb-mcp.toml"@);
            let nearest = n < 20 && repository_at(cwd, n, exists_at) && forall|m: nat|
                m < n ==> !#[trigger] repository_at(cwd, m, exists_at);
            let root_file = path::join_spec(ancestor(cwd, n)->0, "kb-mcp.toml"@);
            let no_repository = forall|m: nat|
                m < 20 ==> !#[trigger] repository_at(cwd, m, exists_at);
            let last = match alongside {
                Some(side) => if exists_at(side) {
                    (ConfigSource::AlongsideBinary, side)
                } else {
                    (ConfigSource::NotFound, Seq::<char>::empty())
                },
                None => (ConfigSource::NotFound, Seq::<char>::empty()),
            };
            &&& exists_at(here) ==> found == Some((ConfigSource::Cwd, here))
            &&& !exists_at(here) && nearest && exists_at(root_file) ==> found == Some(
                (ConfigSource::GitRoot, root_file),
            )
            &&& !exists_at(here) && nearest && !exists_at(root_file) ==> found == Some(last)
            &&& !exists_at(here) && no_repository ==> found == Some(last)
        }),
{
    if n < 20 && repository_at(cwd, n, exists_at) && (forall|m: nat|
        m < n ==> !#[trigger] repository_at(cwd, m, exists_at)) {
        root_is_the_nearest(cwd, 20, n, exists_at);
    }
    if forall|m: nat| m < 20 ==> !#[trigger] repository_at(cwd, m, exists_at) {
        no_root_without_a_repository(cwd, 20, exists_at);
    }
}

/// The settings of a search are in order exactly where both weights lie from 0.0 to 1.0, and the
/// most tokens shown are more than the limit for whole documents and at most 8192. Of several
/// faults the first in this order is reported, with the numbers at fault.
pub proof fn which_search_settings_are_in_order(s: SearchConfig)
    ensures
        ({
            let unit = |bits: u32| bits <= 0x3f80_0000 || bits == 0x8000_0000;
            let lambda = unit(s.mmr.lambda_bits);
            let penalty = unit(s.mmr.same_doc_penalty_bits);
            let least = s.parent_retriever.whole_doc_threshold_tokens;
            let most = s.parent_retriever.max_expanded_tokens;
            let e = search_error(s);
            &&& e is None <==> lambda && penalty && least < most && most <= 8192
            &&& !lambda ==> e == Some(ConfigError::LambdaOutOfRange { bits: s.mmr.lambda_bits })
            &&& lambda && !penalty ==> e == Some(
                ConfigError::PenaltyOutOfRange { bits: s.mmr.same_doc_penalty_bits },
            )
            &&& lambda && penalty && most <= least ==> e == Some(
                ConfigError::ExpandedNotAboveThreshold { max_expanded: most, threshold: least },
            )
            &&& lambda && penalty && least < most && most > 8192 ==> e == Some(
                ConfigError::ExpandedTooLarge { max_expanded: most },
            )
        }),
{
    ieee::unit_range_by_bits(s.mmr.lambda_bits);
    ieee::unit_range_by_bits(s.mmr.same_doc_penalty_bits);
}

/// A tilde stands for the home directory only at the head of a path, alone or before a slash.
pub proof fn a_tilde_stands_for_the_home_directory(
    home: Seq<char>,
    rest: Seq<char>,
    other: Seq<char>,
    r: Seq<char>,
)
    requires
        other.len() == 0 || other[0] != '~' || (other.len() > 1 && other[1] != '/' && other[1]
            != '\\'),
    ensures
        expands_to(seq!['~'], Some(home), r) ==> r == home,
        expands_to(seq!['~', '/'] + rest, Some(home), r) ==> r == home + seq!['/'] + rest,
        expands_to(other, Some(home), r) ==> r == other,
        expands_to(other, None, r) ==> r == other,
        expands_to(seq!['~', '/'] + rest, None, r) ==> r == seq!['~', '/'] + rest,
{
    let short = seq!['~'];
    assert(short[0] == '~');
    assert(home + short.skip(1) =~= home);
    let long = seq!['~', '/'] + rest;
    assert(long[0] == '~' && long[1] == '/');
    assert(home + long.skip(1) =~= home + seq!['/'] + rest);
}

/// The paths of a configuration file that are relative are meant from the directory that the file
/// lies in; absolute ones, and all else that it says, stay as they are.
pub proof fn relative_paths_are_meant_from_the_file(
    c: Config,
    raw: Config,
    dir: Seq<char>,
    name: Seq<char>,
)
    requires
        c.completes(raw, dir + seq!['/'] + name, PathStyle::Unix),
        name.len() > 0,
        forall|i: int| 0 <= i < name.len() ==> #[trigger] name[i] != '/',
        name != seq!['.'],
        path::trim_tail(dir) == dir,
        dir.len() > 0 && dir.last() != '/',
    ensures
        ({
            let meant = |was: Seq<char>, is: Seq<char>|
                if was.len() > 0 && was[0] == '/' {
                    is == was
                } else {
                    is == dir + seq!['/'] + was
                };
            &&& c.kb_path is Some <==> raw.kb_path is Some
            &&& raw.kb_path is Some ==> meant(raw.kb_path->0@, c.kb_path->0@)
            &&& c.fastembed_cache_dir is Some <==> raw.fastembed_cache_dir is Some
            &&& raw.fastembed_cache_dir is Some ==> meant(
                raw.fastembed_cache_dir->0@,
                c.fastembed_cache_dir->0@,
            )
            &&& c.eval is Some <==> raw.eval is Some
            &&& raw.eval is Some && raw.eval->0.golden is Some ==> c.eval->0.golden is Some
                && meant(raw.eval->0.golden->0@, c.eval->0.golden->0@)
            &&& raw.eval is Some ==> c.eval->0.k_values == raw.eval->0.k_values
                && c.eval->0.history_size == raw.eval->0.history_size
            &&& c.model == raw.model && c.reranker == raw.reranker && c.search == raw.search
            &&& c.exclude_dirs == raw.exclude_dirs && c.exclude_headings == raw.exclude_headings
            &&& c.parsers == raw.parsers && c.transport == raw.transport && c.watch == raw.watch
            &&& c.quality_filter == raw.quality_filter
        }),
{
    path::a_path_is_its_directory_and_its_name(dir, name);
}

/// The directories that are left out where nothing is said of them: those of editors, of version
/// control, and of what is built or fetched.
pub proof fn usual_directories_are_left_out(name: Seq<char>)
    ensures
        default_exclude_dirs_spec().contains(name) <==> name == ".obsidian"@ || name == ".git"@
            || name == "node_modules"@ || name == "target"@ || name == ".vscode"@ || name
            == ".idea"@,
{
    let list = default_exclude_dirs_spec();
    assert(list[0] == list[0] && list[1] == list[1] && list[2] == list[2]);
    assert(list[3] == list[3] && list[4] == list[4] && list[5] == list[5]);
    if list.contains(name) {
        let i = choose|i: int| 0 <= i < list.len() && list[i] == name;
        assert(0 <= i < 6);
    }
}

/// A search of which nothing is configured neither diversifies nor expands, and its settings are
/// in order.
pub proof fn nothing_configured_is_in_order(s: SearchConfig)
    requires
        s == default_search(),
    ensures
        search_error(s) is None,
        !s.mmr.enabled && !s.parent_retriever.enabled,
        s.min_confidence_ratio_bits is None,
        s.mmr.lambda_bits == 0x3f33_3333 && s.mmr.same_doc_penalty_bits == 0,
        s.parent_retriever.whole_doc_threshold_tokens == 100,
        s.parent_retriever.max_expanded_tokens == 2000,
{
    which_search_settings_are_in_order(s);
}

/// A configuration says nothing exactly where none of its settings is there.
pub proof fn nothing_is_said_where_no_setting_is_there(c: Config)
    ensures
        c.says_nothing() <==> c.kb_path is None && c.model is None && c.reranker is None
            && c.rerank_by_default is None && c.fastembed_cache_dir is None
            && c.exclude_headings is None && c.exclude_dirs is None && c.quality_filter is None
            && c.best_practice is None && c.parsers is None && c.watch is None && c.transport
            is None && c.eval is None && c.search is None,
{
}

/// A search is over once it has found a file or knows that there is none. A path that is asked
/// about and exists is what the search comes to.
pub proof fn a_search_that_is_over_has_found_what_it_says(
    s: ConfigSearch,
    exists_at: spec_fn(Seq<char>) -> bool,
)
    ensures
        s.over() <==> s.stage is Missing || s.stage is Found,
        s.stage is Missing ==> s.outcome(exists_at) is None,
        s.stage is Found ==> s.outcome(exists_at) == Some((s.stage->source, s.path@)),
        s.stage is Explicit && exists_at(s.path@) ==> s.outcome(exists_at) == Some(
            (ConfigSource::Explicit, s.path@),
        ),
        s.stage is Explicit && !exists_at(s.path@) ==> s.outcome(exists_at) is None,
        s.stage is Cwd && exists_at(s.path@) ==> s.outcome(exists_at) == Some(
            (ConfigSource::Cwd, s.path@),
        ),
{
}

} // verus!

//! What the commands do with their options: the command line wins over the configuration, and
//! what neither says is set to the usual.
use vstd::prelude::*;

use crate::config::{Config, SearchConfig, SearchOverrides, default_search, or_else};
use crate::embedder::{ModelChoice, RerankerChoice};
use crate::eval;
use crate::eval::{DEFAULT_HISTORY_SIZE, DEFAULT_REGRESSION_THRESHOLD_BITS, RunOpts};
use crate::graph::{GraphOptions, MAX_DEPTH, MAX_FAN_OUT, SeedStrategy, clamp_depth, clamp_fan_out};
use crate::ieee;
use crate::parser::registry::{AnyParser, RegistryError, enables};
use crate::parser::Registry;
use crate::path;
use crate::quality::{
    DEFAULT_QUALITY_THRESHOLD_BITS, QualityFilterConfig, clamp, clamp_spec, effective_spec,
    resolve_effective_threshold,
};
use crate::text;
use crate::transport::{
    SocketAddress, Transport, TransportKind, loopback, opt_list, resolves,
};
use crate::watcher::WatchConfig;

verus! {

/// Why a command cannot be carried out.
#[derive(Debug, Clone)]
pub enum PlanError {
    /// Nobody says where the knowledge base is.
    NoKbPath,
    /// The parsers to enable are not in order.
    Parsers { error: RegistryError },
    /// The transport cannot be set up.
    Transport { message: String },
    /// An address is asked for, and nothing will listen on it.
    AddressIgnored,
}

impl PlanError {
    /// The error in words.
    pub fn message(&self) -> (r: String)
        ensures
            r@ == match self {
                PlanError::NoKbPath =>
                "--kb-path is required (pass on the command line or set `kb_path` in kb-mcp.toml)"@,
                PlanError::Parsers { error } => error.text(),
                PlanError::Transport { message } => message@,
                PlanError::AddressIgnored =>
                "--bind / --port require `--transport http` (or `[transport].kind = \"http\"` in kb-mcp.toml); currently resolved to stdio which does not listen on any port."@,
            },
    {
        match self {
            PlanError::NoKbPath => text::copy(
                "--kb-path is required (pass on the command line or set `kb_path` in kb-mcp.toml)",
            ),
            PlanError::Parsers { error } => error.message(),
            PlanError::Transport { message } => message.clone(),
            PlanError::AddressIgnored => text::copy(
                "--bind / --port require `--transport http` (or `[transport].kind = \"http\"` in kb-mcp.toml); currently resolved to stdio which does not listen on any port.",
            ),
        }
    }
}

/// The first of two options that says something.
pub open spec fn first<T>(a: Option<T>, b: Option<T>) -> Option<T> {
    match a {
        Some(v) => Some(v),
        None => b,
    }
}

/// Where the knowledge base is: where the command line says, else where the configuration says.
pub fn require_kb_path(cli_value: Option<String>, config_default: &Option<String>) -> (r: Result<
    String,
    PlanError,
>)
    ensures
        match first(text::opt_view(cli_value), text::opt_view(*config_default)) {
            Some(p) => r matches Ok(q) && q@ == p,
            None => r == Err::<String, PlanError>(PlanError::NoKbPath),
        },
{
    match cli_value {
        Some(p) => Ok(p),
        None => match config_default {
            Some(p) => Ok(p.clone()),
            None => Err(PlanError::NoKbPath),
        },
    }
}

/// The model in force.
pub fn choose_model(asked: Option<ModelChoice>, configured: Option<ModelChoice>) -> (r: ModelChoice)
    ensures
        r == or_else(first(asked, configured), ModelChoice::BgeSmallEnV15),
{
    match asked {
        Some(m) => m,
        None => match configured {
            Some(m) => m,
            None => ModelChoice::default(),
        },
    }
}

/// The reranker in force.
pub fn choose_reranker(
    asked: Option<RerankerChoice>,
    configured: Option<RerankerChoice>,
) -> (r: RerankerChoice)
    ensures
        r == or_else(first(asked, configured), RerankerChoice::Disabled),
{
    match asked {
        Some(m) => m,
        None => match configured {
            Some(m) => m,
            None => RerankerChoice::default(),
        },
    }
}

/// The quality limit that a configuration sets: none, which is 0.0, where it switches the filter
/// off; the usual where it does not speak of it.
pub open spec fn threshold_spec(filter: Option<QualityFilterConfig>) -> u32 {
    match filter {
        Some(f) => if f.enabled {
            clamp_spec(f.threshold_bits)
        } else {
            0
        },
        None => clamp_spec(DEFAULT_QUALITY_THRESHOLD_BITS),
    }
}

/// The quality limit that a configuration sets.
pub fn quality_threshold(filter: &Option<QualityFilterConfig>) -> (r: u32)
    ensures
        r == threshold_spec(*filter),
{
    match filter {
        Some(f) => f.effective_threshold(),
        None => QualityFilterConfig::default().effective_threshold(),
    }
}

/// The ratio below which a search counts as unsure where nobody gives one, 1.5.
pub const DEFAULT_CONFIDENCE_RATIO_BITS: u32 = 0x3fc0_0000;

/// The ratio that a configuration gives.
pub open spec fn configured_ratio(search: Option<SearchConfig>) -> Option<u32> {
    match search {
        Some(s) => s.min_confidence_ratio_bits,
        None => None,
    }
}

/// The ratio below which a search counts as unsure.
pub fn confidence_ratio(asked: Option<u32>, search: &Option<SearchConfig>) -> (r: u32)
    ensures
        r == or_else(first(asked, configured_ratio(*search)), DEFAULT_CONFIDENCE_RATIO_BITS),
{
    if let Some(v) = asked {
        return v;
    }
    match search {
        Some(s) => match s.min_confidence_ratio_bits {
            Some(v) => v,
            None => DEFAULT_CONFIDENCE_RATIO_BITS,
        },
        None => DEFAULT_CONFIDENCE_RATIO_BITS,
    }
}

fn search_section(configured: &Option<SearchConfig>) -> (r: SearchConfig)
    ensures
        r == or_else(*configured, default_search()),
{
    match configured {
        Some(c) => *c,
        None => SearchConfig::default(),
    }
}

/// A number from the command line that has to lie between 0.0 and 1.0, by its bits; if it does
/// not, the error in words.
pub fn check_unit(bits: u32) -> (r: Result<u32, String>)
    ensures
        if !ieee::finite_spec(bits) {
            r matches Err(e) && e@ == "must be finite"@
        } else if !ieee::in_unit_range_spec(bits) {
            r matches Err(e) && e@ == "must be in [0.0, 1.0]"@
        } else {
            r == Ok::<u32, String>(bits)
        },
{
    if !ieee::is_finite(bits) {
        return Err(text::copy("must be finite"));
    }
    if !ieee::in_unit_range(bits) {
        return Err(text::copy("must be in [0.0, 1.0]"));
    }
    Ok(bits)
}

// ---------------------------------------------------------------------------
// serve
// ---------------------------------------------------------------------------
/// What `serve` is asked for.
#[derive(Debug)]
pub struct ServeFlags {
    pub kb_path: Option<String>,
    pub model: Option<ModelChoice>,
    pub reranker: Option<RerankerChoice>,
    pub rerank_by_default: Option<bool>,
    pub no_watch: bool,
    pub debounce_ms: Option<u64>,
    pub transport: Option<TransportKind>,
    pub bind: Option<SocketAddress>,
    pub port: Option<u16>,
}

/// What `serve` does.
#[derive(Debug)]
pub struct ServePlan {
    pub kb_path: String,
    pub model: ModelChoice,
    pub reranker: RerankerChoice,
    /// Whether a search is reranked that does not say; without a reranker it means nothing.
    pub rerank_by_default: bool,
    pub exclude_headings: Option<Vec<String>>,
    pub exclude_dirs: Vec<String>,
    pub quality_threshold_bits: u32,
    pub best_practice_templates: Vec<String>,
    pub parsers: Registry,
    pub watch: WatchConfig,
    pub transport: Transport,
    pub min_confidence_ratio_bits: u32,
    pub search: SearchConfig,
}

/// The templates of a configuration.
pub open spec fn templates_of(cfg: Config) -> Seq<Seq<char>> {
    match cfg.best_practice {
        Some(b) => text::views(b.path_templates@),
        None => seq![],
    }
}

/// The parsers that a configuration enables, or why there are none.
pub open spec fn registers(cfg: Config, r: Result<Registry, RegistryError>) -> bool {
    match cfg.parsers {
        None => r matches Ok(reg) && reg.parsers@ == seq![AnyParser::Markdown],
        Some(p) => enables(p.enabled@, r),
    }
}

impl ServePlan {
    /// Whether this is what the flags and the configuration ask for, apart from the parsers and
    /// the transport.
    pub open spec fn follows(self, flags: ServeFlags, cfg: Config) -> bool {
        &&& first(text::opt_view(flags.kb_path), text::opt_view(cfg.kb_path)) == Some(
            self.kb_path@,
        )
        &&& self.model == or_else(first(flags.model, cfg.model), ModelChoice::BgeSmallEnV15)
        &&& self.reranker == or_else(
            first(flags.reranker, cfg.reranker),
            RerankerChoice::Disabled,
        )
        &&& self.rerank_by_default == or_else(
            first(flags.rerank_by_default, cfg.rerank_by_default),
            true,
        )
        &&& opt_list(self.exclude_headings) == opt_list(cfg.exclude_headings)
        &&& text::views(self.exclude_dirs@) == match cfg.exclude_dirs {
            Some(list) => text::views(list@),
            None => crate::config::default_exclude_dirs_spec(),
        }
        &&& self.quality_threshold_bits == threshold_spec(cfg.quality_filter)
        &&& text::views(self.best_practice_templates@) == templates_of(cfg)
        &&& self.watch.enabled == (match cfg.watch {
            Some(w) => w.enabled,
            None => true,
        } && !flags.no_watch)
        &&& self.watch.debounce_ms == match flags.debounce_ms {
            Some(d) => d,
            None => match cfg.watch {
                Some(w) => w.debounce_ms,
                None => 500,
            },
        }
        &&& self.min_confidence_ratio_bits == or_else(
            configured_ratio(cfg.search),
            DEFAULT_CONFIDENCE_RATIO_BITS,
        )
        &&& self.search == or_else(cfg.search, default_search())
    }
}

/// What `serve` comes to: the first of its faults, or the plan. The knowledge base is looked
/// for first, then the parsers, then the transport.
pub open spec fn serves(
    flags: ServeFlags,
    cfg: Config,
    config_bind: Option<Result<SocketAddress, String>>,
    r: Result<ServePlan, PlanError>,
) -> bool {
    let section = match cfg.transport {
        Some(t) => Some(&t),
        None => None,
    };
    let no_kb = first(text::opt_view(flags.kb_path), text::opt_view(cfg.kb_path)) is None;
    match r {
        Err(PlanError::NoKbPath) => no_kb,
        Err(PlanError::Parsers { error }) => !no_kb && registers(
            cfg,
            Err::<Registry, RegistryError>(error),
        ),
        Err(PlanError::Transport { message }) => !no_kb && (exists|reg: Registry|
            registers(cfg, Ok::<Registry, RegistryError>(reg))) && resolves(
            flags.transport,
            flags.bind,
            flags.port,
            section,
            config_bind,
            Err::<Transport, String>(message),
        ),
        Err(PlanError::AddressIgnored) => !no_kb && (exists|reg: Registry|
            registers(cfg, Ok::<Registry, RegistryError>(reg))) && resolves(
            flags.transport,
            flags.bind,
            flags.port,
            section,
            config_bind,
            Ok::<Transport, String>(Transport::Stdio),
        ) && (flags.bind is Some || flags.port is Some),
        Ok(plan) => {
            &&& plan.follows(flags, cfg)
            &&& registers(cfg, Ok::<Registry, RegistryError>(plan.parsers))
            &&& resolves(
                flags.transport,
                flags.bind,
                flags.port,
                section,
                config_bind,
                Ok::<Transport, String>(plan.transport),
            )
            &&& !(plan.transport is Stdio && (flags.bind is Some || flags.port is Some))
        },
    }
}

/// What `serve` does. `config_bind` is what the address of the configuration reads as, or why it
/// cannot be read. An address that nothing would listen on is refused.
pub fn plan_serve(
    flags: ServeFlags,
    cfg: &Config,
    config_bind: Option<Result<SocketAddress, String>>,
) -> (r: Result<ServePlan, PlanError>)
    ensures
        serves(flags, *cfg, config_bind, r),
{
    let kb_path = match require_kb_path(flags.kb_path, &cfg.kb_path) {
        Ok(p) => p,
        Err(e) => {
            return Err(PlanError::NoKbPath);
        },
    };
    let parsers = match cfg.build_parser_registry() {
        Ok(reg) => reg,
        Err(error) => {
            return Err(PlanError::Parsers { error });
        },
    };
    assert(registers(*cfg, Ok::<Registry, RegistryError>(parsers)));
    let watch = match cfg.watch {
        Some(w) => w.overridden(flags.no_watch, flags.debounce_ms),
        None => WatchConfig::default().overridden(flags.no_watch, flags.debounce_ms),
    };
    let section = match &cfg.transport {
        Some(t) => Some(t),
        None => None,
    };
    let transport = match Transport::resolve(
        flags.transport,
        flags.bind,
        flags.port,
        section,
        config_bind,
    ) {
        Ok(t) => t,
        Err(message) => {
            return Err(PlanError::Transport { message });
        },
    };
    if transport.ignores_address(flags.bind.is_some(), flags.port.is_some()) {
        return Err(PlanError::AddressIgnored);
    }
    let best_practice_templates = match &cfg.best_practice {
        Some(b) => text::copy_all(&b.path_templates),
        None => Vec::new(),
    };
    assert(text::views(best_practice_templates@) =~= templates_of(*cfg));
    let rerank_by_default = match flags.rerank_by_default {
        Some(b) => b,
        None => match cfg.rerank_by_default {
            Some(b) => b,
            None => true,
        },
    };
    let exclude_headings = match &cfg.exclude_headings {
        Some(v) => Some(text::copy_all(v)),
        None => None,
    };
    let plan = ServePlan {
        kb_path,
        model: choose_model(flags.model, cfg.model),
        reranker: choose_reranker(flags.reranker, cfg.reranker),
        rerank_by_default,
        exclude_headings,
        exclude_dirs: cfg.resolve_exclude_dirs(),
        quality_threshold_bits: quality_threshold(&cfg.quality_filter),
        best_practice_templates,
        parsers,
        watch,
        transport,
        min_confidence_ratio_bits: confidence_ratio(None, &cfg.search),
        search: search_section(&cfg.search),
    };
    Ok(plan)
}

// ---------------------------------------------------------------------------
// search
// ---------------------------------------------------------------------------
/// What `search` is asked for, apart from the query and the filters that are passed on.
#[derive(Debug)]
pub struct SearchFlags {
    pub kb_path: Option<String>,
    pub model: Option<ModelChoice>,
    pub reranker: Option<RerankerChoice>,
    pub min_quality_bits: Option<u32>,
    pub include_low_quality: bool,
    pub min_confidence_ratio_bits: Option<u32>,
}

/// What `search` does.
#[derive(Debug)]
pub struct SearchPlan {
    pub kb_path: String,
    pub model: ModelChoice,
    pub reranker: RerankerChoice,
    pub min_quality_bits: u32,
    pub min_confidence_ratio_bits: u32,
    pub search: SearchConfig,
}

/// What `search` does.
pub fn plan_search(flags: SearchFlags, cfg: &Config) -> (r: Result<SearchPlan, PlanError>)
    ensures
        match first(text::opt_view(flags.kb_path), text::opt_view(cfg.kb_path)) {
            None => r == Err::<SearchPlan, PlanError>(PlanError::NoKbPath),
            Some(kb) => {
                &&& r matches Ok(plan)
                &&& plan.kb_path@ == kb
                &&& plan.model == or_else(
                    first(flags.model, cfg.model),
                    ModelChoice::BgeSmallEnV15,
                )
                &&& plan.reranker == or_else(
                    first(flags.reranker, cfg.reranker),
                    RerankerChoice::Disabled,
                )
                &&& plan.min_quality_bits == effective_spec(
                    flags.include_low_quality,
                    flags.min_quality_bits,
                    threshold_spec(cfg.quality_filter),
                )
                &&& plan.min_confidence_ratio_bits == or_else(
                    first(flags.min_confidence_ratio_bits, configured_ratio(cfg.search)),
                    DEFAULT_CONFIDENCE_RATIO_BITS,
                )
                &&& plan.search == or_else(cfg.search, default_search())
            },
        },
{
    let kb_path = match require_kb_path(flags.kb_path, &cfg.kb_path) {
        Ok(p) => p,
        Err(e) => {
            return Err(PlanError::NoKbPath);
        },
    };
    Ok(
        SearchPlan {
            kb_path,
            model: choose_model(flags.model, cfg.model),
            reranker: choose_reranker(flags.reranker, cfg.reranker),
            min_quality_bits: resolve_effective_threshold(
                flags.include_low_quality,
                flags.min_quality_bits,
                quality_threshold(&cfg.quality_filter),
            ),
            min_confidence_ratio_bits: confidence_ratio(
                flags.min_confidence_ratio_bits,
                &cfg.search,
            ),
            search: search_section(&cfg.search),
        },
    )
}

// ---------------------------------------------------------------------------
// graph
// ---------------------------------------------------------------------------
/// What `graph` is asked for.
#[derive(Debug)]
pub struct GraphFlags {
    pub kb_path: Option<String>,
    pub model: Option<ModelChoice>,
    pub depth: u32,
    pub fan_out: u32,
    pub min_similarity_bits: u32,
    pub seed_strategy: SeedStrategy,
    pub category: Option<String>,
    pub topic: Option<String>,
    pub exclude: Vec<String>,
    pub dedup_by_path: bool,
}

/// What `graph` does.
#[derive(Debug)]
pub struct GraphPlan {
    pub kb_path: String,
    pub model: ModelChoice,
    pub options: GraphOptions,
}

/// The lesser of two numbers.
pub open spec fn lesser(a: u32, b: u32) -> u32 {
    if a <= b {
        a
    } else {
        b
    }
}

/// What `graph` does: depth and fan-out are cut to the most that is allowed.
pub fn plan_graph(flags: GraphFlags, cfg: &Config) -> (r: Result<GraphPlan, PlanError>)
    ensures
        match first(text::opt_view(flags.kb_path), text::opt_view(cfg.kb_path)) {
            None => r == Err::<GraphPlan, PlanError>(PlanError::NoKbPath),
            Some(kb) => {
                &&& r matches Ok(plan)
                &&& plan.kb_path@ == kb
                &&& plan.model == or_else(
                    first(flags.model, cfg.model),
                    ModelChoice::BgeSmallEnV15,
                )
                &&& plan.options == (GraphOptions {
                    depth: lesser(flags.depth, MAX_DEPTH),
                    fan_out: lesser(flags.fan_out, MAX_FAN_OUT),
                    min_similarity_bits: clamp_spec(flags.min_similarity_bits),
                    seed_strategy: flags.seed_strategy,
                    category: flags.category,
                    topic: flags.topic,
                    exclude_paths: flags.exclude,
                    dedup_by_path: flags.dedup_by_path,
                    min_quality_bits: threshold_spec(cfg.quality_filter),
                })
            },
        },
{
    let kb_path = match require_kb_path(flags.kb_path, &cfg.kb_path) {
        Ok(p) => p,
        Err(e) => {
            return Err(PlanError::NoKbPath);
        },
    };
    Ok(
        GraphPlan {
            kb_path,
            model: choose_model(flags.model, cfg.model),
            options: GraphOptions {
                depth: clamp_depth(flags.depth),
                fan_out: clamp_fan_out(flags.fan_out),
                min_similarity_bits: clamp(flags.min_similarity_bits),
                seed_strategy: flags.seed_strategy,
                category: flags.category,
                topic: flags.topic,
                exclude_paths: flags.exclude,
                dedup_by_path: flags.dedup_by_path,
                min_quality_bits: quality_threshold(&cfg.quality_filter),
            },
        },
    )
}

// ---------------------------------------------------------------------------
// eval
// ---------------------------------------------------------------------------
/// What `eval` is asked for.
#[derive(Debug)]
pub struct EvalFlags {
    pub kb_path: Option<String>,
    pub golden: Option<String>,
    pub model: Option<ModelChoice>,
    pub reranker: Option<RerankerChoice>,
    pub k: Option<Vec<usize>>,
    pub limit: Option<u32>,
    pub no_history: bool,
    pub overrides: SearchOverrides,
}

/// The golden file that a configuration names.
pub open spec fn golden_of(cfg: Config) -> Option<Seq<char>> {
    crate::config::golden_of(cfg.eval)
}

/// The cut-offs that a configuration names.
pub open spec fn k_values_of(cfg: Config) -> Option<Seq<usize>> {
    match cfg.eval {
        Some(e) => match e.k_values {
            Some(v) => Some(v@),
            None => None,
        },
        None => None,
    }
}

fn configured_k_values(cfg: &Config) -> (r: Option<Vec<usize>>)
    ensures
        match r {
            Some(v) => k_values_of(*cfg) == Some(v@),
            None => k_values_of(*cfg) is None,
        },
{
    match &cfg.eval {
        Some(e) => match &e.k_values {
            Some(v) => Some(eval::copy_numbers(v)),
            None => None,
        },
        None => None,
    }
}

fn choose_golden(asked: Option<String>, cfg: &Config, kb_path: &str) -> (r: String)
    ensures
        r@ == or_else(
            first(text::opt_view(asked), golden_of(*cfg)),
            path::join_spec(kb_path@, ".kb-mcp-eval.yml"@),
        ),
{
    if let Some(p) = asked {
        return p;
    }
    match &cfg.eval {
        Some(e) => match &e.golden {
            Some(p) => p.clone(),
            None => path::join(kb_path, ".kb-mcp-eval.yml"),
        },
        None => path::join(kb_path, ".kb-mcp-eval.yml"),
    }
}

impl RunOpts {
    /// Whether these are the options that the flags and the configuration ask for.
    pub open spec fn follows(self, flags: EvalFlags, cfg: Config) -> bool {
        let asked_k = match flags.k {
            Some(v) => Some(v@),
            None => None,
        };
        &&& first(text::opt_view(flags.kb_path), text::opt_view(cfg.kb_path)) == Some(
            self.kb_path@,
        )
        &&& self.golden_path@ == or_else(
            first(text::opt_view(flags.golden), golden_of(cfg)),
            path::join_spec(self.kb_path@, ".kb-mcp-eval.yml"@),
        )
        &&& self.model_choice == or_else(
            first(flags.model, cfg.model),
            ModelChoice::BgeSmallEnV15,
        )
        &&& self.reranker_choice == or_else(
            first(flags.reranker, cfg.reranker),
            RerankerChoice::Disabled,
        )
        &&& self.k_values@ == or_else(first(asked_k, k_values_of(cfg)), seq![1usize, 5, 10])
        &&& self.limit == match flags.limit {
            Some(l) => l as int,
            None => eval::default_limit_spec(self.k_values@),
        }
        &&& self.write_history == !flags.no_history
        &&& self.history_size == match cfg.eval {
            Some(e) => or_else(e.history_size, DEFAULT_HISTORY_SIZE),
            None => DEFAULT_HISTORY_SIZE,
        }
        &&& self.regression_threshold_bits == match cfg.eval {
            Some(e) => or_else(e.regression_threshold_bits, DEFAULT_REGRESSION_THRESHOLD_BITS),
            None => DEFAULT_REGRESSION_THRESHOLD_BITS,
        }
        &&& self.overrides == flags.overrides
        &&& self.search_config == or_else(cfg.search, default_search())
    }
}

/// What `eval` does.
pub fn plan_eval(flags: EvalFlags, cfg: &Config) -> (r: Result<RunOpts, PlanError>)
    ensures
        match first(text::opt_view(flags.kb_path), text::opt_view(cfg.kb_path)) {
            None => r == Err::<RunOpts, PlanError>(PlanError::NoKbPath),
            Some(kb) => r matches Ok(opts) && opts.follows(flags, *cfg),
        },
{
    let kb_path = match require_kb_path(flags.kb_path, &cfg.kb_path) {
        Ok(p) => p,
        Err(e) => {
            return Err(PlanError::NoKbPath);
        },
    };
    let golden_path = choose_golden(flags.golden, cfg, kb_path.as_str());
    let k_values = eval::resolve_k_values(flags.k, configured_k_values(cfg));
    let limit: u32 = match flags.limit {
        Some(l) => l,
        None => eval::default_limit(&k_values),
    };
    let history_size: usize = match &cfg.eval {
        Some(e) => match e.history_size {
            Some(n) => n,
            None => DEFAULT_HISTORY_SIZE,
        },
        None => DEFAULT_HISTORY_SIZE,
    };
    let regression_threshold_bits: u64 = match &cfg.eval {
        Some(e) => match e.regression_threshold_bits {
            Some(b) => b,
            None => DEFAULT_REGRESSION_THRESHOLD_BITS,
        },
        None => DEFAULT_REGRESSION_THRESHOLD_BITS,
    };
    Ok(
        RunOpts {
            kb_path,
            golden_path,
            model_choice: choose_model(flags.model, cfg.model),
            reranker_choice: choose_reranker(flags.reranker, cfg.reranker),
            k_values,
            limit,
            write_history: !flags.no_history,
            history_size,
            regression_threshold_bits,
            overrides: flags.overrides,
            search_config: search_section(&cfg.search),
        },
    )
}

/// What the command line of `serve` says wins over the configuration. The watch can be switched
/// off there, and an address that is given is the one to listen on.
pub proof fn the_command_line_wins(
    flags: ServeFlags,
    cfg: Config,
    config_bind: Option<Result<SocketAddress, String>>,
    plan: ServePlan,
)
    requires
        serves(flags, cfg, config_bind, Ok::<ServePlan, PlanError>(plan)),
    ensures
        flags.kb_path matches Some(p) ==> plan.kb_path@ == p@,
        flags.model matches Some(m) ==> plan.model == m,
        flags.reranker matches Some(m) ==> plan.reranker == m,
        flags.rerank_by_default matches Some(b) ==> plan.rerank_by_default == b,
        flags.no_watch ==> !plan.watch.enabled,
        flags.debounce_ms matches Some(d) ==> plan.watch.debounce_ms == d,
        flags.transport matches Some(k) ==> (plan.transport is Stdio <==> k
            == TransportKind::Stdio),
        flags.bind matches Some(a) ==> (plan.transport matches Transport::Http { addr, .. } && addr
            == a),
        flags.bind is None ==> (flags.port matches Some(p) ==> (
        plan.transport matches Transport::Http { addr, .. } && addr == loopback(p))),
{
}

/// What the command line does not say, the configuration says, and what neither says is the
/// usual: the small English model, no reranker, reranking by default, watching with half a second
/// of rest, a limit of 0.3 on quality and a ratio of 1.5.
pub proof fn the_configuration_speaks_where_the_command_line_does_not(
    flags: ServeFlags,
    cfg: Config,
    config_bind: Option<Result<SocketAddress, String>>,
    plan: ServePlan,
)
    requires
        serves(flags, cfg, config_bind, Ok::<ServePlan, PlanError>(plan)),
    ensures
        flags.kb_path is None ==> cfg.kb_path is Some && plan.kb_path@ == cfg.kb_path->0@,
        flags.model is None && cfg.model is Some ==> plan.model == cfg.model->0,
        flags.model is None && cfg.model is None ==> plan.model == ModelChoice::BgeSmallEnV15,
        flags.reranker is None && cfg.reranker is Some ==> plan.reranker == cfg.reranker->0,
        flags.reranker is None && cfg.reranker is None ==> plan.reranker
            == RerankerChoice::Disabled,
        flags.rerank_by_default is None && cfg.rerank_by_default is Some ==> plan.rerank_by_default
            == cfg.rerank_by_default->0,
        flags.rerank_by_default is None && cfg.rerank_by_default is None ==> plan.rerank_by_default,
        cfg.watch is Some ==> plan.watch.enabled == (cfg.watch->0.enabled && !flags.no_watch),
        cfg.watch is None ==> plan.watch.enabled == !flags.no_watch,
        flags.debounce_ms is None && cfg.watch is Some ==> plan.watch.debounce_ms
            == cfg.watch->0.debounce_ms,
        flags.debounce_ms is None && cfg.watch is None ==> plan.watch.debounce_ms == 500,
        cfg.exclude_headings is Some <==> plan.exclude_headings is Some,
        cfg.exclude_headings is Some ==> text::views(plan.exclude_headings->0@) == text::views(
            cfg.exclude_headings->0@,
        ),
        cfg.exclude_dirs is Some ==> text::views(plan.exclude_dirs@) == text::views(
            cfg.exclude_dirs->0@,
        ),
        cfg.best_practice is Some ==> text::views(plan.best_practice_templates@) == text::views(
            cfg.best_practice->0.path_templates@,
        ),
        cfg.best_practice is None ==> plan.best_practice_templates@.len() == 0,
        cfg.quality_filter is None ==> plan.quality_threshold_bits == 0x3e99_999a,
        cfg.quality_filter is Some && !cfg.quality_filter->0.enabled ==> plan.quality_threshold_bits
            == 0,
        cfg.quality_filter is Some && cfg.quality_filter->0.enabled
            && cfg.quality_filter->0.threshold_bits <= 0x3f80_0000 ==> plan.quality_threshold_bits
            == cfg.quality_filter->0.threshold_bits,
        cfg.search is Some ==> plan.search == cfg.search->0,
        cfg.search is Some && cfg.search->0.min_confidence_ratio_bits is Some
            ==> plan.min_confidence_ratio_bits == cfg.search->0.min_confidence_ratio_bits->0,
        cfg.search is None || cfg.search->0.min_confidence_ratio_bits is None
            ==> plan.min_confidence_ratio_bits == 0x3fc0_0000,
        cfg.parsers is None ==> plan.parsers.parsers@ == seq![AnyParser::Markdown],
{
    usual_limits_stay();
    if cfg.quality_filter is Some && cfg.quality_filter->0.threshold_bits <= 0x3f80_0000 {
        limits_in_range_stay(cfg.quality_filter->0.threshold_bits);
    }
    assert(text::views(plan.best_practice_templates@).len()
        == plan.best_practice_templates@.len());
}

proof fn limits_in_range_stay(bits: u32)
    requires
        bits <= 0x3f80_0000,
    ensures
        clamp_spec(bits) == bits,
{
    crate::quality::limits_are_forced_into_range(bits);
}

proof fn usual_limits_stay()
    ensures
        clamp_spec(DEFAULT_QUALITY_THRESHOLD_BITS) == 0x3e99_999a,
{
    limits_in_range_stay(0x3e99_999a);
}

/// Serving is refused exactly for want of a knowledge base, for parsers that cannot be enabled,
/// for an address that cannot be read, or for one that nothing would listen on; the first of
/// these counts.
pub proof fn why_serving_is_refused(
    flags: ServeFlags,
    cfg: Config,
    config_bind: Option<Result<SocketAddress, String>>,
    r: Result<ServePlan, PlanError>,
)
    requires
        serves(flags, cfg, config_bind, r),
    ensures
        flags.kb_path is None && cfg.kb_path is None <==> r == Err::<ServePlan, PlanError>(
            PlanError::NoKbPath,
        ),
        r is Err && r->Err_0 is AddressIgnored ==> flags.bind is Some || flags.port is Some,
        r is Err && r->Err_0 is AddressIgnored ==> flags.transport != Some(TransportKind::Http),
        r is Ok && r->Ok_0.transport is Stdio ==> flags.bind is None && flags.port is None,
        flags.transport == Some(TransportKind::Stdio) && r is Ok ==> flags.bind is None
            && flags.port is None,
        r is Err && r->Err_0 is Transport ==> config_bind is Some && config_bind->0 is Err
            && flags.bind is None && flags.port is None,
        r is Err && r->Err_0 is Parsers ==> cfg.parsers is Some,
{
}

/// Of what is asked for, what is configured and what is usual, the first that says something
/// counts.
pub proof fn the_first_that_speaks_counts(asked: u32, configured: u32, usual: u32, none: Option<u32>)
    requires
        none is None,
    ensures
        or_else(first(Some(asked), none), usual) == asked,
        or_else(first(Some(asked), Some(configured)), usual) == asked,
        or_else(first(none, Some(configured)), usual) == configured,
        or_else(first(none, none), usual) == usual,
        lesser(asked, configured) <= asked && lesser(asked, configured) <= configured,
        lesser(asked, configured) == asked || lesser(asked, configured) == configured,
        MAX_DEPTH == 3 && MAX_FAN_OUT == 20,
        DEFAULT_CONFIDENCE_RATIO_BITS == 0x3fc0_0000,
{
}

/// The limit on quality is the one configured, forced into range; none where the filter is off;
/// the usual where nothing is said of it.
pub proof fn a_filter_that_is_off_lets_all_pass(filter: QualityFilterConfig)
    ensures
        !filter.enabled ==> threshold_spec(Some(filter)) == 0,
        filter.enabled && filter.threshold_bits <= 0x3f80_0000 ==> threshold_spec(Some(filter))
            == filter.threshold_bits,
        threshold_spec(None) == 0x3e99_999a,
{
    usual_limits_stay();
    if filter.threshold_bits <= 0x3f80_0000 {
        limits_in_range_stay(filter.threshold_bits);
    }
}

/// An evaluation does what the command line says, else what the configuration says; what neither
/// says is the usual: cut-offs at 1, 5 and 10, as many hits as the greatest cut-off, ten runs
/// kept, a fall of 0.05 allowed, and the golden file in the knowledge base.
pub proof fn an_evaluation_does_what_is_asked(opts: RunOpts, flags: EvalFlags, cfg: Config)
    requires
        opts.follows(flags, cfg),
    ensures
        flags.kb_path is Some ==> opts.kb_path@ == flags.kb_path->0@,
        flags.kb_path is None ==> cfg.kb_path is Some && opts.kb_path@ == cfg.kb_path->0@,
        flags.golden is Some ==> opts.golden_path@ == flags.golden->0@,
        flags.golden is None && cfg.eval is Some && cfg.eval->0.golden is Some
            ==> opts.golden_path@ == cfg.eval->0.golden->0@,
        flags.golden is None && (cfg.eval is None || cfg.eval->0.golden is None)
            && opts.kb_path@.len() > 0 && opts.kb_path@.last() != '/' ==> opts.golden_path@
            == opts.kb_path@ + seq!['/'] + ".kb-mcp-eval.yml"@,
        flags.model is Some ==> opts.model_choice == flags.model->0,
        flags.model is None && cfg.model is Some ==> opts.model_choice == cfg.model->0,
        flags.model is None && cfg.model is None ==> opts.model_choice
            == ModelChoice::BgeSmallEnV15,
        flags.reranker is Some ==> opts.reranker_choice == flags.reranker->0,
        flags.reranker is None && cfg.reranker is Some ==> opts.reranker_choice
            == cfg.reranker->0,
        flags.reranker is None && cfg.reranker is None ==> opts.reranker_choice
            == RerankerChoice::Disabled,
        flags.k is Some ==> opts.k_values@ == flags.k->0@,
        flags.k is None && cfg.eval is Some && cfg.eval->0.k_values is Some ==> opts.k_values@
            == cfg.eval->0.k_values->0@,
        flags.k is None && (cfg.eval is None || cfg.eval->0.k_values is None) ==> opts.k_values@
            == seq![1usize, 5, 10],
        flags.limit is Some ==> opts.limit == flags.limit->0,
        forall|i: int|
            flags.limit is None && 0 <= i < opts.k_values@.len() && (forall|j: int|
                0 <= j < opts.k_values@.len() ==> #[trigger] opts.k_values@[j] <= u32::MAX)
                ==> opts.limit >= #[trigger] opts.k_values@[i],
        opts.write_history == !flags.no_history,
        cfg.eval is None ==> opts.history_size == 10 && opts.regression_threshold_bits
            == 0x3fa9_9999_9999_999a,
        cfg.eval is Some && cfg.eval->0.history_size is Some ==> opts.history_size
            == cfg.eval->0.history_size->0,
        cfg.eval is Some && cfg.eval->0.history_size is None ==> opts.history_size == 10,
        cfg.eval is Some && cfg.eval->0.regression_threshold_bits is Some
            ==> opts.regression_threshold_bits == cfg.eval->0.regression_threshold_bits->0,
        opts.overrides == flags.overrides,
        cfg.search is Some ==> opts.search_config == cfg.search->0,
{
    reveal_strlit(".kb-mcp-eval.yml");
    assert(".kb-mcp-eval.yml"@[0] == '.');
    path::a_relative_path_is_put_behind_its_base(opts.kb_path@, ".kb-mcp-eval.yml"@);
    let ks = opts.k_values@;
    eval::the_greatest_is_one_of_them(ks);
}

} // verus!

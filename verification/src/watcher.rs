//! What to do about changes of files.
//!
//! The file system's events come from outside, and so does what the indexer made of a change.
//! This module decides which files are to be indexed anew, and what the documents in memory have
//! to follow.
use vstd::prelude::*;

use crate::document_index::{DocumentIndex, renamed};
use crate::parser::Registry;
use crate::parser::registry::AnyParser;
use crate::path;
use crate::text;

verus! {

/// The `[watch]` section of the configuration.
#[derive(Debug, Clone, Copy, PartialEq, Eq, Structural)]
pub struct WatchConfig {
    pub enabled: bool,
    /// How long to wait for further events, in milliseconds.
    pub debounce_ms: u64,
}

/// Whether files are watched where the configuration does not say.
pub fn default_enabled() -> (r: bool)
    ensures
        r,
{
    true
}

/// How long to wait where the configuration does not say.
pub fn default_debounce_ms() -> (r: u64)
    ensures
        r == 500,
{
    500
}

impl Default for WatchConfig {
    fn default() -> (r: Self)
        ensures
            r.enabled,
            r.debounce_ms == 500,
    {
        WatchConfig { enabled: default_enabled(), debounce_ms: default_debounce_ms() }
    }
}

impl WatchConfig {
    /// The settings in force: what the command line asks for wins.
    pub fn overridden(self, no_watch: bool, debounce_ms: Option<u64>) -> (r: WatchConfig)
        ensures
            r.enabled == (self.enabled && !no_watch),
            r.debounce_ms == match debounce_ms {
                Some(d) => d,
                None => self.debounce_ms,
            },
    {
        WatchConfig {
            enabled: self.enabled && !no_watch,
            debounce_ms: match debounce_ms {
                Some(d) => d,
                None => self.debounce_ms,
            },
        }
    }

    /// Whether a watch is started at all: not where it is switched off.
    pub fn starts(&self) -> (r: bool)
        ensures
            r == self.enabled,
    {
        self.enabled
    }
}

/// How many batches of events may wait.
pub const WATCHER_CHANNEL_CAPACITY: usize = 64;

/// The first wait before another attempt to watch, in seconds.
pub const FIRST_BACKOFF_SECS: u64 = 1;

/// The longest wait before another attempt to watch, in seconds.
pub const MAX_BACKOFF_SECS: u64 = 30;

/// The wait after one more failure: twice as long, up to the longest.
pub fn next_backoff(secs: u64) -> (r: u64)
    requires
        secs <= MAX_BACKOFF_SECS,
    ensures
        r == if 2 * secs < MAX_BACKOFF_SECS {
            2 * secs
        } else {
            MAX_BACKOFF_SECS as int
        },
        r <= MAX_BACKOFF_SECS,
        r <= 30,
        r == 2 * secs || r == 30,
{
    if 2 * secs < MAX_BACKOFF_SECS {
        2 * secs
    } else {
        MAX_BACKOFF_SECS
    }
}

/// How often a watch that runs is looked at, in seconds: it dies silently when its directory goes
/// away.
pub const PROBE_SECS: u64 = 30;

/// What has become of a watch.
#[derive(Debug, Clone, Copy, PartialEq, Eq, Structural)]
pub enum WatchHealth {
    /// It could not be set up.
    Failed,
    /// It was set up.
    Started,
    /// Its directory is still there.
    Alive,
    /// Its directory is gone.
    Vanished,
}

/// What to do about a watch.
#[derive(Debug, Clone, Copy, PartialEq, Eq, Structural)]
pub enum WatchStep {
    /// Wait for some seconds, then set it up anew.
    Retry { after_secs: u64 },
    /// Wait for some seconds, then look whether its directory is still there.
    Probe { after_secs: u64 },
    /// Set it up anew at once.
    Rebuild,
}

/// What to do about a watch, and how long to wait after the next failure. Each failure doubles
/// the wait, up to the longest; a success sets it back.
pub fn watch_step(backoff: u64, health: WatchHealth) -> (r: (u64, WatchStep))
    requires
        backoff <= MAX_BACKOFF_SECS,
    ensures
        r.0 == match health {
            WatchHealth::Failed => if 2 * backoff < MAX_BACKOFF_SECS {
                2 * backoff
            } else {
                MAX_BACKOFF_SECS as int
            },
            WatchHealth::Started => FIRST_BACKOFF_SECS as int,
            WatchHealth::Alive | WatchHealth::Vanished => backoff as int,
        },
        r.0 <= MAX_BACKOFF_SECS,
        health is Failed ==> (r.0 == 2 * backoff || r.0 == 30) && r.0 <= 30,
        health is Started ==> r.0 == 1,
        health is Started || health is Alive ==> r.1 == (WatchStep::Probe { after_secs: 30 }),
        r.1 == match health {
            WatchHealth::Failed => WatchStep::Retry { after_secs: backoff },
            WatchHealth::Started | WatchHealth::Alive => WatchStep::Probe {
                after_secs: PROBE_SECS,
            },
            WatchHealth::Vanished => WatchStep::Rebuild,
        },
{
    match health {
        WatchHealth::Failed => (next_backoff(backoff), WatchStep::Retry { after_secs: backoff }),
        WatchHealth::Started => (
            FIRST_BACKOFF_SECS,
            WatchStep::Probe { after_secs: PROBE_SECS },
        ),
        WatchHealth::Alive => (backoff, WatchStep::Probe { after_secs: PROBE_SECS }),
        WatchHealth::Vanished => (backoff, WatchStep::Rebuild),
    }
}

// ---------------------------------------------------------------------------
// Which files matter
// ---------------------------------------------------------------------------
/// Whether a path lies in the directory `dir`, at any level.
pub open spec fn lies_in(rel: Seq<char>, dir: Seq<char>) -> bool {
    ||| rel == dir
    ||| text::starts_with_spec(rel, dir + "/"@)
    ||| text::contains_spec(rel, "/"@ + dir + "/"@)
}

/// Whether a path lies in one of the directories.
pub open spec fn excluded_spec(rel: Seq<char>, dirs: Seq<Seq<char>>) -> bool {
    exists|i: int| 0 <= i < dirs.len() && lies_in(rel, #[trigger] dirs[i])
}

/// Whether `name` stands in a path as a directory: at `i`, between separators or at the head, and
/// with more behind it; or as the whole path.
pub open spec fn is_directory_at(rel: Seq<char>, name: Seq<char>, i: int) -> bool {
    let end = i + name.len();
    &&& 0 <= i && end <= rel.len()
    &&& forall|k: int| 0 <= k < name.len() ==> #[trigger] rel[i + k] == name[k]
    &&& i == 0 || rel[i - 1] == '/'
    &&& if end < rel.len() {
        rel[end] == '/'
    } else {
        i == 0
    }
}

/// Whether a path lies in one of the directories. A directory is meant by its whole name.
pub fn is_under_excluded_dir(rel: &str, exclude_dirs: &[String]) -> (r: bool)
    ensures
        r == excluded_spec(rel@, text::views(exclude_dirs@)),
        r <==> exists|d: int, i: int|
            0 <= d < exclude_dirs@.len() && #[trigger] is_directory_at(
                rel@,
                exclude_dirs@[d]@,
                i,
            ),
{
    proof {
        exclusion_of_strings(rel@, exclude_dirs@);
    }
    let ghost dirs = text::views(exclude_dirs@);
    let mut i: usize = 0;
    while i < exclude_dirs.len()
        invariant
            i <= exclude_dirs@.len(),
            dirs == text::views(exclude_dirs@),
            excluded_spec(rel@, dirs) <==> exists|d: int, i: int|
                0 <= d < exclude_dirs@.len() && #[trigger] is_directory_at(
                    rel@,
                    exclude_dirs@[d]@,
                    i,
                ),
            forall|j: int| 0 <= j < i ==> !lies_in(rel@, #[trigger] dirs[j]),
        decreases exclude_dirs@.len() - i,
    {
        let d = exclude_dirs[i].as_str();
        let mut head = text::copy(d);
        head.append("/");
        let mut middle = text::copy("/");
        middle.append(d);
        middle.append("/");
        assert(dirs[i as int] == d@);
        if *rel == *d || text::starts_with(rel, head.as_str()) || text::contains(
            rel,
            middle.as_str(),
        ) {
            assert(lies_in(rel@, dirs[i as int]));
            return true;
        }
        assert(!lies_in(rel@, dirs[i as int]));
        i += 1;
    }
    false
}

/// Whether a file is to be indexed: it lies in no excluded directory, it is not the index
/// itself, and its extension is indexed.
pub open spec fn should_process_spec(
    rel: Seq<char>,
    full: Seq<char>,
    registry: Registry,
    dirs: Seq<Seq<char>>,
) -> bool {
    &&& !excluded_spec(rel, dirs)
    &&& !text::ends_with_spec(rel, ".kb-mcp.db"@)
    &&& !text::ends_with_spec(rel, ".kb-mcp.db-journal"@)
    &&& registry.accepts_spec(path::ext_or_empty(full))
}

/// Whether a file is to be indexed.
pub fn should_process(
    rel: &str,
    full: &str,
    registry: &Registry,
    exclude_dirs: &[String],
) -> (r: bool)
    ensures
        r == should_process_spec(rel@, full@, *registry, text::views(exclude_dirs@)),
{
    if is_under_excluded_dir(rel, exclude_dirs) {
        return false;
    }
    if text::ends_with(rel, ".kb-mcp.db") || text::ends_with(rel, ".kb-mcp.db-journal") {
        return false;
    }
    let ext = path::extension(full);
    registry.accepts(ext.as_str())
}

/// The path of a file below the knowledge base, with forward slashes. None, where it does not
/// lie there.
pub open spec fn to_rel_spec(kb_path: Seq<char>, full: Seq<char>) -> Option<Seq<char>> {
    match path::below_spec(full, kb_path) {
        Some(rest) => Some(text::replace_char_spec(rest, '\\', "/"@)),
        None => None,
    }
}

/// The path of a file below the knowledge base, with forward slashes. Where the path as it came
/// does not lie there, its true path is tried too, if it is known.
pub fn to_rel(kb_path: &str, full: &str, canonical: &Option<String>) -> (r: Option<String>)
    ensures
        text::opt_view(r) == match to_rel_spec(kb_path@, full@) {
            Some(rel) => Some(rel),
            None => match *canonical {
                Some(c) => to_rel_spec(kb_path@, c@),
                None => None,
            },
        },
{
    match path::strip_base(full, kb_path) {
        Some(rest) => Some(text::replace_char(rest.as_str(), '\\', "/")),
        None => match canonical {
            Some(c) => match path::strip_base(c.as_str(), kb_path) {
                Some(rest) => Some(text::replace_char(rest.as_str(), '\\', "/")),
                None => None,
            },
            None => None,
        },
    }
}

// ---------------------------------------------------------------------------
// Events
// ---------------------------------------------------------------------------
/// Which end of a renaming an event is about.
#[derive(Debug, Clone, Copy, PartialEq, Eq, Structural)]
pub enum RenameMode {
    Any,
    To,
    From,
    Both,
    Other,
}

/// What kind of change an event is about.
#[derive(Debug, Clone, Copy, PartialEq, Eq, Structural)]
pub enum EventKind {
    Any,
    Access,
    Create,
    ModifyName { mode: RenameMode },
    /// Any other modification: of data, of metadata, or of what is not known.
    Modify,
    Remove,
    Other,
}

/// A path of an event: as it came, and below the knowledge base where it lies there.
#[derive(Debug, Clone)]
pub struct WatchPath {
    pub full: String,
    pub rel: Option<String>,
}

/// An event of the file system.
#[derive(Debug, Clone)]
pub struct WatchEvent {
    pub kind: EventKind,
    pub paths: Vec<WatchPath>,
}

/// What an event calls for.
#[derive(Debug, Clone, Copy, PartialEq, Eq, Structural)]
pub enum Classified {
    /// The first path has become the second.
    Rename,
    /// The paths are to be indexed anew.
    Reindex,
    /// The paths are gone.
    Deindex,
    Ignore,
}

/// What an event with `count` paths calls for.
pub open spec fn classify_spec(kind: EventKind, count: nat) -> Classified {
    match kind {
        EventKind::ModifyName { mode } => if count == 2 {
            Classified::Rename
        } else if mode == RenameMode::From {
            Classified::Deindex
        } else {
            Classified::Reindex
        },
        EventKind::Modify => Classified::Reindex,
        EventKind::Create => Classified::Reindex,
        EventKind::Remove => Classified::Deindex,
        EventKind::Any => Classified::Ignore,
        EventKind::Access => Classified::Ignore,
        EventKind::Other => Classified::Ignore,
    }
}

/// What an event calls for. One event never calls for two things.
pub fn classify(evt: &WatchEvent) -> (r: Classified)
    ensures
        r == classify_spec(evt.kind, evt.paths@.len()),
{
    match evt.kind {
        EventKind::ModifyName { mode } => if evt.paths.len() == 2 {
            Classified::Rename
        } else {
            match mode {
                RenameMode::From => Classified::Deindex,
                _ => Classified::Reindex,
            }
        },
        EventKind::Modify => Classified::Reindex,
        EventKind::Create => Classified::Reindex,
        EventKind::Remove => Classified::Deindex,
        EventKind::Any => Classified::Ignore,
        EventKind::Access => Classified::Ignore,
        EventKind::Other => Classified::Ignore,
    }
}

/// A request to the indexer.
#[derive(Debug, Clone)]
pub enum WatchAction {
    Rename { old_rel: String, new_rel: String },
    Reindex { rel: String },
    Deindex { rel: String },
}

/// What a [`WatchAction`] holds.
pub enum ActionModel {
    Rename { old_rel: Seq<char>, new_rel: Seq<char> },
    Reindex { rel: Seq<char> },
    Deindex { rel: Seq<char> },
}

impl View for WatchAction {
    type V = ActionModel;

    open spec fn view(&self) -> ActionModel {
        match self {
            WatchAction::Rename { old_rel, new_rel } => ActionModel::Rename {
                old_rel: old_rel@,
                new_rel: new_rel@,
            },
            WatchAction::Reindex { rel } => ActionModel::Reindex { rel: rel@ },
            WatchAction::Deindex { rel } => ActionModel::Deindex { rel: rel@ },
        }
    }
}

/// The models of a list of requests.
pub open spec fn action_models(v: Seq<WatchAction>) -> Seq<ActionModel> {
    Seq::new(v.len(), |i: int| v[i]@)
}

/// Whether a path of an event is that of a file to be indexed.
pub open spec fn relevant(p: WatchPath, registry: Registry, dirs: Seq<Seq<char>>) -> bool {
    p.rel is Some && should_process_spec(p.rel->0@, p.full@, registry, dirs)
}

/// The requests for the paths of an event that is no renaming: one for each file to be indexed.
pub open spec fn path_actions(
    paths: Seq<WatchPath>,
    reindex: bool,
    registry: Registry,
    dirs: Seq<Seq<char>>,
) -> Seq<ActionModel>
    decreases paths.len(),
{
    if paths.len() == 0 {
        seq![]
    } else {
        let before = path_actions(paths.drop_last(), reindex, registry, dirs);
        let p = paths.last();
        if !relevant(p, registry, dirs) {
            before
        } else if reindex {
            before.push(ActionModel::Reindex { rel: p.rel->0@ })
        } else {
            before.push(ActionModel::Deindex { rel: p.rel->0@ })
        }
    }
}

/// The requests for one event. A renaming counts where both paths lie in the knowledge base and
/// one of the two is that of a file to be indexed.
pub open spec fn event_actions(
    evt: WatchEvent,
    registry: Registry,
    dirs: Seq<Seq<char>>,
) -> Seq<ActionModel> {
    match classify_spec(evt.kind, evt.paths@.len()) {
        Classified::Rename => {
            let from = evt.paths@[0];
            let to = evt.paths@[1];
            if from.rel is Some && to.rel is Some && (relevant(to, registry, dirs) || relevant(
                from,
                registry,
                dirs,
            )) {
                seq![ActionModel::Rename { old_rel: from.rel->0@, new_rel: to.rel->0@ }]
            } else {
                seq![]
            }
        },
        Classified::Reindex => path_actions(evt.paths@, true, registry, dirs),
        Classified::Deindex => path_actions(evt.paths@, false, registry, dirs),
        Classified::Ignore => seq![],
    }
}

/// The requests for a batch of events, in order.
pub open spec fn batch_actions(
    events: Seq<WatchEvent>,
    registry: Registry,
    dirs: Seq<Seq<char>>,
) -> Seq<ActionModel>
    decreases events.len(),
{
    if events.len() == 0 {
        seq![]
    } else {
        batch_actions(events.drop_last(), registry, dirs) + event_actions(
            events.last(),
            registry,
            dirs,
        )
    }
}

fn path_is_relevant(p: &WatchPath, registry: &Registry, exclude_dirs: &[String]) -> (r: bool)
    ensures
        r == relevant(*p, *registry, text::views(exclude_dirs@)),
{
    match &p.rel {
        Some(rel) => should_process(rel.as_str(), p.full.as_str(), registry, exclude_dirs),
        None => false,
    }
}

fn push_path_actions(
    out: &mut Vec<WatchAction>,
    paths: &Vec<WatchPath>,
    reindex: bool,
    registry: &Registry,
    exclude_dirs: &[String],
)
    ensures
        action_models(final(out)@) == action_models(old(out)@) + path_actions(
            paths@,
            reindex,
            *registry,
            text::views(exclude_dirs@),
        ),
{
    let ghost start = action_models(out@);
    let ghost dirs = text::views(exclude_dirs@);
    let mut i: usize = 0;
    assert(start =~= start + path_actions(paths@.take(0), reindex, *registry, dirs));
    while i < paths.len()
        invariant
            i <= paths@.len(),
            dirs == text::views(exclude_dirs@),
            action_models(out@) == start + path_actions(
                paths@.take(i as int),
                reindex,
                *registry,
                dirs,
            ),
        decreases paths@.len() - i,
    {
        assert(paths@.take(i + 1).drop_last() =~= paths@.take(i as int));
        let ghost before = action_models(out@);
        if path_is_relevant(&paths[i], registry, exclude_dirs) {
            if let Some(rel) = &paths[i].rel {
                let action = if reindex {
                    WatchAction::Reindex { rel: rel.clone() }
                } else {
                    WatchAction::Deindex { rel: rel.clone() }
                };
                out.push(action);
                assert(action_models(out@) =~= before.push(action@));
            }
        }
        assert(action_models(out@) =~= start + path_actions(
            paths@.take(i + 1),
            reindex,
            *registry,
            dirs,
        ));
        i += 1;
    }
    assert(paths@.take(i as int) =~= paths@);
}

/// The requests for a batch of events, in order.
pub fn handle_events(
    events: &Vec<WatchEvent>,
    registry: &Registry,
    exclude_dirs: &[String],
) -> (r: Vec<WatchAction>)
    ensures
        action_models(r@) == batch_actions(events@, *registry, text::views(exclude_dirs@)),
{
    let ghost dirs = text::views(exclude_dirs@);
    let mut out: Vec<WatchAction> = Vec::new();
    let mut i: usize = 0;
    assert(action_models(out@) =~= batch_actions(events@.take(0), *registry, dirs));
    while i < events.len()
        invariant
            i <= events@.len(),
            dirs == text::views(exclude_dirs@),
            action_models(out@) == batch_actions(events@.take(i as int), *registry, dirs),
        decreases events@.len() - i,
    {
        assert(events@.take(i + 1).drop_last() =~= events@.take(i as int));
        let evt = &events[i];
        let ghost before = action_models(out@);
        match classify(evt) {
            Classified::Rename => {
                let from = &evt.paths[0];
                let to = &evt.paths[1];
                if let (Some(old_rel), Some(new_rel)) = (&from.rel, &to.rel) {
                    if path_is_relevant(to, registry, exclude_dirs) || path_is_relevant(
                        from,
                        registry,
                        exclude_dirs,
                    ) {
                        let action = WatchAction::Rename {
                            old_rel: old_rel.clone(),
                            new_rel: new_rel.clone(),
                        };
                        out.push(action);
                        assert(action_models(out@) =~= before.push(action@));
                    }
                }
            },
            Classified::Reindex => {
                push_path_actions(&mut out, &evt.paths, true, registry, exclude_dirs);
            },
            Classified::Deindex => {
                push_path_actions(&mut out, &evt.paths, false, registry, exclude_dirs);
            },
            Classified::Ignore => {},
        }
        assert(action_models(out@) =~= before + event_actions(*evt, *registry, dirs));
        i += 1;
    }
    assert(events@.take(i as int) =~= events@);
    out
}

// ---------------------------------------------------------------------------
// After the indexer
// ---------------------------------------------------------------------------
/// What the indexer made of a file that was to be indexed anew.
#[derive(Debug, Clone)]
pub enum ReindexOutcome {
    Updated { chunks: u32 },
    Unchanged,
    Skipped { reason: String },
    Failed { error: String },
}

/// What the indexer made of a file that is gone.
#[derive(Debug, Clone)]
pub enum DeindexOutcome {
    Removed,
    NotIndexed,
    Failed { error: String },
}

/// What the indexer made of a renaming.
#[derive(Debug, Clone)]
pub enum RenameOutcome {
    Renamed,
    RenamedAndReindexed { chunks: u32 },
    OldPathMissing,
    Failed { error: String },
}

/// What is left to do after the indexer: a line to show, and a file whose document has to be
/// loaded anew.
#[derive(Debug, Clone)]
pub struct Followup {
    pub line: Option<String>,
    pub refresh: bool,
}

/// What is to be shown of a file that was indexed anew.
pub open spec fn reindex_line(rel: Seq<char>, outcome: ReindexOutcome) -> Option<Seq<char>> {
    match outcome {
        ReindexOutcome::Updated { chunks } => Some(
            "watcher: reindexed "@ + rel + " ("@ + text::decimal_spec(chunks as nat)
                + " chunks)"@,
        ),
        ReindexOutcome::Unchanged => None,
        ReindexOutcome::Skipped { reason } => Some(
            "watcher: skipped "@ + rel + " ("@ + reason@ + ")"@,
        ),
        ReindexOutcome::Failed { error } => Some(
            "watcher: reindex "@ + rel + " failed: "@ + error@,
        ),
    }
}

/// Follows a file that was indexed anew: a file that changed is loaded, one that was skipped is
/// dropped, and nothing happens where nothing changed or the indexer failed.
pub fn after_reindex(index: &mut DocumentIndex, rel: &str, outcome: &ReindexOutcome) -> (r:
    Followup)
    requires
        old(index).wf(),
    ensures
        final(index).wf(),
        final(index)@ == if *outcome is Skipped {
            old(index)@.remove(rel@)
        } else {
            old(index)@
        },
        r.refresh == (*outcome is Updated),
        text::opt_view(r.line) == reindex_line(rel@, *outcome),
{
    match outcome {
        ReindexOutcome::Updated { chunks } => {
            let mut line = text::copy("watcher: reindexed ");
            line.append(rel);
            line.append(" (");
            line.append(text::decimal(*chunks as u64).as_str());
            line.append(" chunks)");
            Followup { line: Some(line), refresh: true }
        },
        ReindexOutcome::Unchanged => Followup { line: None, refresh: false },
        ReindexOutcome::Skipped { reason } => {
            let mut line = text::copy("watcher: skipped ");
            line.append(rel);
            line.append(" (");
            line.append(reason.as_str());
            line.append(")");
            let _ = index.remove(rel);
            Followup { line: Some(line), refresh: false }
        },
        ReindexOutcome::Failed { error } => {
            let mut line = text::copy("watcher: reindex ");
            line.append(rel);
            line.append(" failed: ");
            line.append(error.as_str());
            Followup { line: Some(line), refresh: false }
        },
    }
}

/// What is to be shown of a file that is gone.
pub open spec fn deindex_line(rel: Seq<char>, outcome: DeindexOutcome) -> Option<Seq<char>> {
    match outcome {
        DeindexOutcome::Removed => Some("watcher: deindexed "@ + rel),
        DeindexOutcome::NotIndexed => None,
        DeindexOutcome::Failed { error } => Some(
            "watcher: deindex "@ + rel + " failed: "@ + error@,
        ),
    }
}

/// Follows a file that is gone. Returns the line to show.
pub fn after_deindex(index: &mut DocumentIndex, rel: &str, outcome: &DeindexOutcome) -> (r: Option<
    String,
>)
    requires
        old(index).wf(),
    ensures
        final(index).wf(),
        final(index)@ == if *outcome is Removed {
            old(index)@.remove(rel@)
        } else {
            old(index)@
        },
        text::opt_view(r) == deindex_line(rel@, *outcome),
{
    match outcome {
        DeindexOutcome::Removed => {
            let mut line = text::copy("watcher: deindexed ");
            line.append(rel);
            let _ = index.remove(rel);
            Some(line)
        },
        DeindexOutcome::NotIndexed => None,
        DeindexOutcome::Failed { error } => {
            let mut line = text::copy("watcher: deindex ");
            line.append(rel);
            line.append(" failed: ");
            line.append(error.as_str());
            Some(line)
        },
    }
}

/// What is to be shown of a renaming.
pub open spec fn rename_line(
    old_rel: Seq<char>,
    new_rel: Seq<char>,
    outcome: RenameOutcome,
) -> Seq<char> {
    match outcome {
        RenameOutcome::Renamed => "watcher: renamed "@ + old_rel + " -> "@ + new_rel,
        RenameOutcome::RenamedAndReindexed { chunks } => "watcher: renamed+reindexed "@ + old_rel
            + " -> "@ + new_rel + " ("@ + text::decimal_spec(chunks as nat) + " chunks)"@,
        RenameOutcome::OldPathMissing => "watcher: rename target "@ + old_rel
            + " not in DB, indexed "@ + new_rel,
        RenameOutcome::Failed { error } => "watcher: rename "@ + old_rel + " -> "@ + new_rel
            + " failed: "@ + error@,
    }
}

/// Follows a renaming: the document moves along; where it was not held, or has changed too, the
/// file is loaded under its new path.
pub fn after_rename(
    index: &mut DocumentIndex,
    old_rel: &str,
    new_rel: &str,
    outcome: &RenameOutcome,
) -> (r: Followup)
    requires
        old(index).wf(),
    ensures
        final(index).wf(),
        match *outcome {
            RenameOutcome::Renamed => if old(index)@.dom().contains(old_rel@) {
                &&& !r.refresh
                &&& final(index)@ == renamed(old(index)@, old_rel@, new_rel@)
            } else {
                r.refresh && final(index)@ == old(index)@
            },
            RenameOutcome::RenamedAndReindexed { .. } => r.refresh && final(index)@ == old(
                index,
            )@.remove(old_rel@),
            RenameOutcome::OldPathMissing => r.refresh && final(index)@ == old(index)@.remove(
                old_rel@,
            ),
            RenameOutcome::Failed { .. } => !r.refresh && final(index)@ == old(index)@,
        },
        text::opt_view(r.line) == Some(rename_line(old_rel@, new_rel@, *outcome)),
{
    match outcome {
        RenameOutcome::Renamed => {
            let mut line = text::copy("watcher: renamed ");
            line.append(old_rel);
            line.append(" -> ");
            line.append(new_rel);
            let moved = index.rename(old_rel, new_rel);
            Followup { line: Some(line), refresh: !moved }
        },
        RenameOutcome::RenamedAndReindexed { chunks } => {
            let mut line = text::copy("watcher: renamed+reindexed ");
            line.append(old_rel);
            line.append(" -> ");
            line.append(new_rel);
            line.append(" (");
            line.append(text::decimal(*chunks as u64).as_str());
            line.append(" chunks)");
            let _ = index.remove(old_rel);
            Followup { line: Some(line), refresh: true }
        },
        RenameOutcome::OldPathMissing => {
            let mut line = text::copy("watcher: rename target ");
            line.append(old_rel);
            line.append(" not in DB, indexed ");
            line.append(new_rel);
            let _ = index.remove(old_rel);
            Followup { line: Some(line), refresh: true }
        },
        RenameOutcome::Failed { error } => {
            let mut line = text::copy("watcher: rename ");
            line.append(old_rel);
            line.append(" -> ");
            line.append(new_rel);
            line.append(" failed: ");
            line.append(error.as_str());
            Followup { line: Some(line), refresh: false }
        },
    }
}

// ---------------------------------------------------------------------------
// Laws
// ---------------------------------------------------------------------------
/// A path is excluded exactly where the name of one of the directories stands in it as a whole
/// part that is followed by another, or is the whole path. A longer name that only begins or ends
/// like the directory's is another name.
pub proof fn exclusion_goes_by_whole_names(rel: Seq<char>, dirs: Seq<Seq<char>>)
    ensures
        excluded_spec(rel, dirs) <==> exists|d: int, i: int|
            0 <= d < dirs.len() && #[trigger] is_directory_at(rel, dirs[d], i),
{
    reveal_strlit("/");
    if excluded_spec(rel, dirs) {
        let d = choose|d: int| 0 <= d < dirs.len() && lies_in(rel, #[trigger] dirs[d]);
        let name = dirs[d];
        let n = name.len() as int;
        if rel == name {
            assert(is_directory_at(rel, dirs[d], 0));
        } else if text::starts_with_spec(rel, name + "/"@) {
            let part = rel.subrange(0, n + 1);
            assert(part == name + "/"@);
            assert forall|k: int| 0 <= k < n implies #[trigger] rel[0 + k] == name[k] by {
                assert(part[k] == rel[k]);
            }
            assert(part[n] == rel[n]);
            assert(is_directory_at(rel, dirs[d], 0));
        } else {
            let p = "/"@ + name + "/"@;
            let i = choose|i: int| text::occurs_at(rel, p, i);
            let part = rel.subrange(i, i + p.len());
            assert(part == p);
            assert forall|k: int| 0 <= k < n implies #[trigger] rel[i + 1 + k] == name[k] by {
                assert(part[k + 1] == p[k + 1]);
            }
            assert(part[0] == p[0] && part[n + 1] == p[n + 1]);
            assert(is_directory_at(rel, dirs[d], i + 1));
        }
    }
    if exists|d: int, i: int| 0 <= d < dirs.len() && #[trigger] is_directory_at(rel, dirs[d], i) {
        let (d, i) = choose|d: int, i: int|
            0 <= d < dirs.len() && #[trigger] is_directory_at(rel, dirs[d], i);
        let name = dirs[d];
        let n = name.len() as int;
        assert forall|k: int| 0 <= k < n implies rel[i + k] == #[trigger] name[k] by {
            assert(rel[i + k] == name[k]);
        }
        if i + n == rel.len() {
            assert forall|k: int| 0 <= k < n implies rel[k] == #[trigger] name[k] by {
                assert(rel[0 + k] == name[k]);
            }
            assert(rel =~= name);
        } else if i == 0 {
            assert forall|k: int| 0 <= k < n implies rel[k] == #[trigger] name[k] by {
                assert(rel[0 + k] == name[k]);
            }
            assert(rel.subrange(0, n + 1) =~= name + "/"@);
        } else {
            let p = "/"@ + name + "/"@;
            assert forall|k: int| 0 <= k < p.len() implies rel.subrange(i - 1, i + n + 1)[k]
                == #[trigger] p[k] by {
                if 1 <= k <= n {
                    assert(rel[i + (k - 1)] == name[k - 1]);
                }
            }
            assert(rel.subrange(i - 1, i + n + 1) =~= p);
            assert(text::occurs_at(rel, p, i - 1));
        }
        assert(lies_in(rel, dirs[d]));
    }
}

proof fn exclusion_of_strings(rel: Seq<char>, dirs: Seq<String>)
    ensures
        excluded_spec(rel, text::views(dirs)) <==> exists|d: int, i: int|
            0 <= d < dirs.len() && #[trigger] is_directory_at(rel, dirs[d]@, i),
{
    let views = text::views(dirs);
    exclusion_goes_by_whole_names(rel, views);
    if excluded_spec(rel, views) {
        let (d, i) = choose|d: int, i: int|
            0 <= d < views.len() && #[trigger] is_directory_at(rel, views[d], i);
        assert(is_directory_at(rel, dirs[d]@, i));
    }
    if exists|d: int, i: int| 0 <= d < dirs.len() && #[trigger] is_directory_at(rel, dirs[d]@, i) {
        let (d, i) = choose|d: int, i: int|
            0 <= d < dirs.len() && #[trigger] is_directory_at(rel, dirs[d]@, i);
        assert(is_directory_at(rel, views[d], i));
    }
}

/// Which file counts: it lies in no excluded directory, its name does not end like that of the
/// index, and its extension is, but for the case of ASCII letters, that of a parser.
pub proof fn which_files_count(
    rel: Seq<char>,
    full: Seq<char>,
    registry: Registry,
    dirs: Seq<Seq<char>>,
)
    ensures
        should_process_spec(rel, full, registry, dirs) <==> {
            &&& !exists|d: int, i: int|
                0 <= d < dirs.len() && #[trigger] is_directory_at(rel, dirs[d], i)
            &&& !exists|head: Seq<char>| rel == #[trigger] (head + ".kb-mcp.db"@)
            &&& !exists|head: Seq<char>| rel == #[trigger] (head + ".kb-mcp.db-journal"@)
            &&& {
                ||| registry.parsers@.contains(AnyParser::Markdown) && text::same_but_for_case(
                    path::ext_or_empty(full),
                    "md"@,
                )
                ||| registry.parsers@.contains(AnyParser::Txt) && text::same_but_for_case(
                    path::ext_or_empty(full),
                    "txt"@,
                )
            }
        },
{
    exclusion_goes_by_whole_names(rel, dirs);
    text::ending_is_what_comes_last(rel, ".kb-mcp.db"@);
    text::ending_is_what_comes_last(rel, ".kb-mcp.db-journal"@);
    registry.accepting_goes_by_extension(path::ext_or_empty(full));
}

/// What one event calls for. A file that was made, changed or renamed to is indexed anew, one that
/// was removed or renamed away is dropped, each by itself and in order; a renaming with both
/// paths is one request, if one of the two files counts; all else calls for nothing.
pub proof fn an_event_is_handled_by_its_kind(
    evt: WatchEvent,
    registry: Registry,
    dirs: Seq<Seq<char>>,
)
    ensures
        ({
            let actions = event_actions(evt, registry, dirs);
            let counts = |p: WatchPath|
                p.rel is Some && should_process_spec(p.rel->0@, p.full@, registry, dirs);
            let files = evt.paths@.filter(counts);
            let paired = evt.paths@.len() == 2;
            let from = evt.paths@[0];
            let to = evt.paths@[1];
            match evt.kind {
                EventKind::Create | EventKind::Modify => actions == files.map_values(
                    |p: WatchPath| ActionModel::Reindex { rel: p.rel->0@ },
                ),
                EventKind::Remove => actions == files.map_values(
                    |p: WatchPath| ActionModel::Deindex { rel: p.rel->0@ },
                ),
                EventKind::ModifyName { mode } => if paired {
                    actions == if from.rel is Some && to.rel is Some && (counts(from)
                        || counts(to)) {
                        seq![ActionModel::Rename { old_rel: from.rel->0@, new_rel: to.rel->0@ }]
                    } else {
                        seq![]
                    }
                } else if mode == RenameMode::From {
                    actions == files.map_values(
                        |p: WatchPath| ActionModel::Deindex { rel: p.rel->0@ },
                    )
                } else {
                    actions == files.map_values(
                        |p: WatchPath| ActionModel::Reindex { rel: p.rel->0@ },
                    )
                },
                EventKind::Any | EventKind::Access | EventKind::Other => actions.len() == 0,
            }
        }),
{
    let counts = |p: WatchPath|
        p.rel is Some && should_process_spec(p.rel->0@, p.full@, registry, dirs);
    paths_one_by_one(evt.paths@, true, registry, dirs, counts);
    paths_one_by_one(evt.paths@, false, registry, dirs, counts);
}

proof fn paths_one_by_one(
    paths: Seq<WatchPath>,
    reindex: bool,
    registry: Registry,
    dirs: Seq<Seq<char>>,
    counts: spec_fn(WatchPath) -> bool,
)
    requires
        forall|p: WatchPath| #[trigger]
            counts(p) == (p.rel is Some && should_process_spec(
                p.rel->0@,
                p.full@,
                registry,
                dirs,
            )),
    ensures
        path_actions(paths, reindex, registry, dirs) == paths.filter(counts).map_values(
            |p: WatchPath|
                if reindex {
                    ActionModel::Reindex { rel: p.rel->0@ }
                } else {
                    ActionModel::Deindex { rel: p.rel->0@ }
                },
        ),
        reindex ==> path_actions(paths, reindex, registry, dirs) == paths.filter(
            counts,
        ).map_values(|p: WatchPath| ActionModel::Reindex { rel: p.rel->0@ }),
        !reindex ==> path_actions(paths, reindex, registry, dirs) == paths.filter(
            counts,
        ).map_values(|p: WatchPath| ActionModel::Deindex { rel: p.rel->0@ }),
    decreases paths.len(),
{
    reveal(Seq::filter);
    if paths.len() > 0 {
        paths_one_by_one(paths.drop_last(), reindex, registry, dirs, counts);
        assert(counts(paths.last()) == relevant(paths.last(), registry, dirs));
    }
    let one = |p: WatchPath|
        if reindex {
            ActionModel::Reindex { rel: p.rel->0@ }
        } else {
            ActionModel::Deindex { rel: p.rel->0@ }
        };
    assert(path_actions(paths, reindex, registry, dirs) =~= paths.filter(counts).map_values(one));
    if reindex {
        assert(paths.filter(counts).map_values(one) =~= paths.filter(counts).map_values(
            |p: WatchPath| ActionModel::Reindex { rel: p.rel->0@ },
        ));
    } else {
        assert(paths.filter(counts).map_values(one) =~= paths.filter(counts).map_values(
            |p: WatchPath| ActionModel::Deindex { rel: p.rel->0@ },
        ));
    }
}

/// Two batches handled one after the other call for what they would call for as one, and a batch
/// of one event for what the event calls for.
pub proof fn batches_follow_one_another(
    first: Seq<WatchEvent>,
    second: Seq<WatchEvent>,
    evt: WatchEvent,
    registry: Registry,
    dirs: Seq<Seq<char>>,
)
    ensures
        batch_actions(first + second, registry, dirs) == batch_actions(first, registry, dirs)
            + batch_actions(second, registry, dirs),
        batch_actions(seq![evt], registry, dirs) == event_actions(evt, registry, dirs),
        batch_actions(seq![], registry, dirs).len() == 0,
    decreases second.len(),
{
    assert(seq![evt].drop_last() =~= seq![]);
    assert(seq![evt].last() == evt);
    assert(batch_actions(seq![], registry, dirs) =~= seq![]);
    assert(batch_actions(seq![evt], registry, dirs) == batch_actions(
        seq![evt].drop_last(),
        registry,
        dirs,
    ) + event_actions(evt, registry, dirs));
    assert(batch_actions(seq![evt], registry, dirs) =~= event_actions(evt, registry, dirs));
    if second.len() == 0 {
        assert(first + second =~= first);
        assert(batch_actions(first + second, registry, dirs) =~= batch_actions(
            first,
            registry,
            dirs,
        ) + batch_actions(second, registry, dirs));
    } else {
        batches_follow_one_another(first, second.drop_last(), evt, registry, dirs);
        assert((first + second).drop_last() =~= first + second.drop_last());
        assert(batch_actions(first + second, registry, dirs) =~= batch_actions(
            first,
            registry,
            dirs,
        ) + batch_actions(second, registry, dirs));
    }
}

/// A renaming whose two paths are known is never taken for something to index anew, so that no
/// path is handled twice.
pub proof fn a_paired_renaming_is_nothing_else(mode: RenameMode)
    ensures
        classify_spec(EventKind::ModifyName { mode }, 2) == Classified::Rename,
{
}

/// A request about a path outside the excluded directories; of a renaming, one of its paths.
pub open spec fn concerns_indexed(action: ActionModel, dirs: Seq<Seq<char>>) -> bool {
    match action {
        ActionModel::Reindex { rel } => !excluded_spec(rel, dirs),
        ActionModel::Deindex { rel } => !excluded_spec(rel, dirs),
        ActionModel::Rename { old_rel, new_rel } => !excluded_spec(old_rel, dirs)
            || !excluded_spec(new_rel, dirs),
    }
}

/// Whatever happens in an excluded directory calls for nothing. A renaming counts where one of
/// its paths lies outside of them.
pub proof fn excluded_directories_stay_out(
    events: Seq<WatchEvent>,
    registry: Registry,
    dirs: Seq<Seq<char>>,
    i: int,
)
    requires
        0 <= i < batch_actions(events, registry, dirs).len(),
    ensures
        concerns_indexed(batch_actions(events, registry, dirs)[i], dirs),
    decreases events.len(),
{
    let before = batch_actions(events.drop_last(), registry, dirs);
    if i < before.len() {
        excluded_directories_stay_out(events.drop_last(), registry, dirs, i);
    } else {
        let evt = events.last();
        match classify_spec(evt.kind, evt.paths@.len()) {
            Classified::Reindex => {
                paths_outside_only(evt.paths@, true, registry, dirs, i - before.len());
            },
            Classified::Deindex => {
                paths_outside_only(evt.paths@, false, registry, dirs, i - before.len());
            },
            _ => {},
        }
    }
}

proof fn paths_outside_only(
    paths: Seq<WatchPath>,
    reindex: bool,
    registry: Registry,
    dirs: Seq<Seq<char>>,
    i: int,
)
    requires
        0 <= i < path_actions(paths, reindex, registry, dirs).len(),
    ensures
        concerns_indexed(path_actions(paths, reindex, registry, dirs)[i], dirs),
    decreases paths.len(),
{
    let before = path_actions(paths.drop_last(), reindex, registry, dirs);
    if i < before.len() {
        paths_outside_only(paths.drop_last(), reindex, registry, dirs, i);
    }
}

/// A file of the knowledge base is known by its path below it, with forward slashes; what lies in
/// another directory is not known, even if the names begin alike.
pub proof fn a_file_is_known_by_its_path_below(
    kb_path: Seq<char>,
    rest: Seq<char>,
    a: Seq<char>,
    b: Seq<char>,
)
    requires
        kb_path.len() > 0,
        rest.len() > 0 && rest[0] != '/',
        !path::is_dot_part(rest),
        path::trim_tail(rest) == rest,
        a.len() > 0 && b.len() > 0 && a != b,
        forall|i: int| 0 <= i < a.len() ==> #[trigger] a[i] != '/',
        forall|i: int| 0 <= i < b.len() ==> #[trigger] b[i] != '/',
        a != seq!['.'] && b != seq!['.'],
    ensures
        ({
            let known = to_rel_spec(kb_path, path::join_spec(kb_path, rest));
            &&& known is Some && known->0.len() == rest.len()
            &&& forall|i: int|
                0 <= i < rest.len() ==> #[trigger] known->0[i] == if rest[i] == '\\' {
                    '/'
                } else {
                    rest[i]
                }
        }),
        to_rel_spec(seq!['/'] + b, seq!['/'] + a + seq!['/'] + rest) is None,
{
    path::joined_lies_below(kb_path, rest);
    slashes_go_forward(rest);
    path::another_directory_is_not_below(a, seq!['/'] + rest, b);
    assert(seq!['/'] + a + seq!['/'] + rest =~= seq!['/'] + a + (seq!['/'] + rest));
}

/// Making slashes go forward changes backslashes and nothing else.
pub proof fn slashes_go_forward(s: Seq<char>)
    ensures
        ({
            let r = text::replace_char_spec(s, '\\', "/"@);
            &&& r.len() == s.len()
            &&& forall|i: int|
                0 <= i < s.len() ==> #[trigger] r[i] == if s[i] == '\\' {
                    '/'
                } else {
                    s[i]
                }
        }),
    decreases s.len(),
{
    reveal_strlit("/");
    assert("/"@ =~= seq!['/']);
    if s.len() > 0 {
        slashes_go_forward(s.drop_last());
        let r = text::replace_char_spec(s, '\\', "/"@);
        let before = text::replace_char_spec(s.drop_last(), '\\', "/"@);
        assert(r.len() == before.len() + 1);
        assert forall|i: int| 0 <= i < s.len() implies #[trigger] r[i] == if s[i] == '\\' {
            '/'
        } else {
            s[i]
        } by {
            if i < before.len() {
                assert(r[i] == before[i]);
            }
        }
    }
}

/// What is said of a file names it, and why it failed or was skipped; nothing is said where
/// nothing happened.
pub proof fn what_happened_is_said(
    rel: Seq<char>,
    new_rel: Seq<char>,
    indexed: ReindexOutcome,
    removed: DeindexOutcome,
    moved: RenameOutcome,
)
    ensures
        reindex_line(rel, indexed) is None <==> indexed is Unchanged,
        indexed is Failed ==> text::ends_with_spec(
            reindex_line(rel, indexed)->0,
            rel + " failed: "@ + indexed->Failed_error@,
        ),
        indexed is Skipped ==> text::ends_with_spec(
            reindex_line(rel, indexed)->0,
            rel + " ("@ + indexed->Skipped_reason@ + ")"@,
        ),
        indexed is Updated ==> text::ends_with_spec(
            reindex_line(rel, indexed)->0,
            rel + " ("@ + text::decimal_spec(indexed->Updated_chunks as nat) + " chunks)"@,
        ),
        deindex_line(rel, removed) is None <==> removed is NotIndexed,
        removed is Removed ==> text::ends_with_spec(deindex_line(rel, removed)->0, rel),
        removed is Failed ==> text::ends_with_spec(
            deindex_line(rel, removed)->0,
            rel + " failed: "@ + removed->Failed_error@,
        ),
        moved is Renamed ==> text::ends_with_spec(
            rename_line(rel, new_rel, moved),
            rel + " -> "@ + new_rel,
        ),
        moved is Failed ==> text::ends_with_spec(
            rename_line(rel, new_rel, moved),
            rel + " -> "@ + new_rel + " failed: "@ + moved->Failed_error@,
        ),
{
    said(indexed, rel);
    match removed {
        DeindexOutcome::Removed => {
            text::parts_stand_in_a_text(seq![], "watcher: deindexed "@, rel);
        },
        DeindexOutcome::NotIndexed => {},
        DeindexOutcome::Failed { error } => {
            let head = "watcher: deindex "@;
            let tail = rel + " failed: "@ + error@;
            assert(deindex_line(rel, removed)->0 =~= head + tail);
            text::parts_stand_in_a_text(seq![], head, tail);
        },
    }
    match moved {
        RenameOutcome::Renamed => {
            let head = "watcher: renamed "@;
            let tail = rel + " -> "@ + new_rel;
            assert(rename_line(rel, new_rel, moved) =~= head + tail);
            text::parts_stand_in_a_text(seq![], head, tail);
        },
        RenameOutcome::Failed { error } => {
            let head = "watcher: rename "@;
            let tail = rel + " -> "@ + new_rel + " failed: "@ + error@;
            assert(rename_line(rel, new_rel, moved) =~= head + tail);
            text::parts_stand_in_a_text(seq![], head, tail);
        },
        _ => {},
    }
}

proof fn said(outcome: ReindexOutcome, rel: Seq<char>)
    ensures
        outcome is Failed ==> text::ends_with_spec(
            reindex_line(rel, outcome)->0,
            rel + " failed: "@ + outcome->Failed_error@,
        ),
        outcome is Skipped ==> text::ends_with_spec(
            reindex_line(rel, outcome)->0,
            rel + " ("@ + outcome->Skipped_reason@ + ")"@,
        ),
        outcome is Updated ==> text::ends_with_spec(
            reindex_line(rel, outcome)->0,
            rel + " ("@ + text::decimal_spec(outcome->Updated_chunks as nat) + " chunks)"@,
        ),
{
    match outcome {
        ReindexOutcome::Failed { error } => {
            let head = "watcher: reindex "@;
            let tail = rel + " failed: "@ + error@;
            assert(reindex_line(rel, outcome)->0 =~= head + tail);
            text::parts_stand_in_a_text(seq![], head, tail);
        },
        ReindexOutcome::Skipped { reason } => {
            let head = "watcher: skipped "@;
            let tail = rel + " ("@ + reason@ + ")"@;
            assert(reindex_line(rel, outcome)->0 =~= head + tail);
            text::parts_stand_in_a_text(seq![], head, tail);
        },
        ReindexOutcome::Updated { chunks } => {
            let head = "watcher: reindexed "@;
            let tail = rel + " ("@ + text::decimal_spec(chunks as nat) + " chunks)"@;
            assert(reindex_line(rel, outcome)->0 =~= head + tail);
            text::parts_stand_in_a_text(seq![], head, tail);
        },
        ReindexOutcome::Unchanged => {},
    }
}

/// A list of requests is given request by request, each with the paths it is about.
pub proof fn requests_are_given_one_by_one(v: Seq<WatchAction>, i: int)
    requires
        0 <= i < v.len(),
    ensures
        action_models(v).len() == v.len(),
        v[i] is Rename ==> action_models(v)[i] == (ActionModel::Rename {
            old_rel: v[i]->old_rel@,
            new_rel: v[i]->new_rel@,
        }),
        v[i] is Reindex ==> action_models(v)[i] == (ActionModel::Reindex {
            rel: v[i]->Reindex_rel@,
        }),
        v[i] is Deindex ==> action_models(v)[i] == (ActionModel::Deindex {
            rel: v[i]->Deindex_rel@,
        }),
{
}

} // verus!

//! What the commands print.
use vstd::prelude::*;

use crate::graph::{ConnectionGraph, GraphNode};
use crate::parser::{MarkdownParser, Parser};
use crate::schema::{Schema, Violation, validate, validate_spec, violation_models};
use crate::text;

verus! {

// ---------------------------------------------------------------------------
// validate
// ---------------------------------------------------------------------------
/// How `validate` prints its report.
#[derive(Debug, Clone, Copy, PartialEq, Eq, Structural)]
pub enum ValidateFormat {
    /// For people.
    Text,
    /// For programs.
    Json,
    /// For the annotations of GitHub Actions.
    Github,
}

/// Whether colours are left out: when asked for, in any format but text, and where the output is
/// no terminal.
pub fn no_color_for(explicit: bool, format: ValidateFormat, is_terminal: bool) -> (r: bool)
    ensures
        r == (explicit || format != ValidateFormat::Text || !is_terminal),
{
    explicit || format != ValidateFormat::Text || !is_terminal
}

/// A document with what is wrong with it.
#[derive(Debug, Clone)]
pub struct FileReport {
    pub path: String,
    pub violations: Vec<Violation>,
}

/// What has been found so far.
#[derive(Debug, Clone)]
pub struct ValidateReport {
    /// How many documents were looked at, those that could not be read included.
    pub scanned: u32,
    /// How many of them break a rule.
    pub violated: u32,
    pub files: Vec<FileReport>,
}

/// What is wrong with the text of a document.
pub fn validate_document(raw: &str, rel: &str, schema: &Schema) -> (r: Vec<Violation>)
    ensures
        violation_models(r@) == validate_spec(
            MarkdownParser.parsed(raw@, rel@, seq![]).frontmatter,
            schema@,
        ),
{
    let none: [&str; 0] = [];
    let parsed = MarkdownParser.parse(raw, rel, none.as_slice());
    assert(crate::parser::slice_views(none@) =~= seq![]);
    validate(&parsed.frontmatter, schema)
}

impl ValidateReport {
    /// Whether the counts agree with the list, and the list holds only what breaks a rule.
    pub open spec fn wf(self) -> bool {
        &&& self.violated == self.files@.len()
        &&& self.violated <= self.scanned
        &&& forall|i: int|
            0 <= i < self.files@.len() ==> (#[trigger] self.files@[i]).violations@.len() > 0
    }

    /// Before the first document.
    pub fn new() -> (r: Self)
        ensures
            r.wf(),
            r.scanned == 0,
            r.files@.len() == 0,
    {
        ValidateReport { scanned: 0, violated: 0, files: Vec::new() }
    }

    /// Takes note of a document that could not be read.
    pub fn skip(&mut self)
        requires
            old(self).wf(),
            old(self).scanned < u32::MAX,
        ensures
            final(self).wf(),
            final(self).scanned == old(self).scanned + 1,
            final(self).files@ == old(self).files@,
    {
        self.scanned = self.scanned + 1;
    }

    /// Takes note of a document and what is wrong with it. Returns whether that is anything.
    pub fn record(&mut self, path: String, violations: Vec<Violation>) -> (r: bool)
        requires
            old(self).wf(),
            old(self).scanned < u32::MAX,
        ensures
            final(self).wf(),
            final(self).scanned == old(self).scanned + 1,
            r == (violations@.len() > 0),
            final(self).files@ == if r {
                old(self).files@.push(FileReport { path, violations })
            } else {
                old(self).files@
            },
    {
        self.scanned = self.scanned + 1;
        if violations.len() > 0 {
            self.violated = self.violated + 1;
            self.files.push(FileReport { path, violations });
            return true;
        }
        false
    }

    /// How many documents keep all rules or could not be read.
    pub fn ok(&self) -> (r: u32)
        requires
            self.wf(),
        ensures
            r == self.scanned - self.files@.len(),
    {
        self.scanned - self.violated
    }

    /// The code to exit with: 1 if any document breaks a rule.
    pub fn exit_code(&self) -> (r: i32)
        requires
            self.wf(),
        ensures
            r == if self.files@.len() > 0 {
                1i32
            } else {
                0i32
            },
    {
        if self.violated > 0 {
            1
        } else {
            0
        }
    }
}

/// The code to exit with where the schema cannot be used.
pub const BAD_SCHEMA_EXIT: i32 = 2;

/// What loading the schema came to.
#[derive(Debug, Clone)]
pub enum SchemaLoad {
    Loaded,
    /// There is no schema.
    Missing,
    /// The schema cannot be read or compiled.
    Unusable { reason: String },
}

/// What `validate` says before it looks at any document, and the code to exit with then. None,
/// where it goes on: there is a schema. Without one there is nothing to validate, which is no
/// fault.
pub open spec fn schema_outcome_spec(load: SchemaLoad, path: Seq<char>) -> Option<
    (Seq<char>, i32),
> {
    match load {
        SchemaLoad::Loaded => None,
        SchemaLoad::Missing => Some(
            ("kb-mcp validate: no schema found at "@ + path + " (skipping)"@, 0),
        ),
        SchemaLoad::Unusable { reason } => Some(
            ("kb-mcp validate: schema load error: "@ + reason@, BAD_SCHEMA_EXIT),
        ),
    }
}

/// What `validate` says before it looks at any document, and the code to exit with then.
pub fn schema_outcome(load: &SchemaLoad, path: &str) -> (r: Option<(String, i32)>)
    ensures
        match r {
            Some((line, code)) => schema_outcome_spec(*load, path@) == Some((line@, code)),
            None => schema_outcome_spec(*load, path@) is None,
        },
{
    match load {
        SchemaLoad::Loaded => None,
        SchemaLoad::Missing => {
            let mut line = text::copy("kb-mcp validate: no schema found at ");
            line.append(path);
            line.append(" (skipping)");
            Some((line, 0))
        },
        SchemaLoad::Unusable { reason } => {
            let mut line = text::copy("kb-mcp validate: schema load error: ");
            line.append(reason.as_str());
            Some((line, BAD_SCHEMA_EXIT))
        },
    }
}

/// Whether a directory of the knowledge base is looked into, by its name: not one that the indexer
/// always denies, nor one that the configuration leaves out.
pub fn enters_directory(name: &str, denied: bool, exclude_dirs: &Vec<String>) -> (r: bool)
    ensures
        r == (!denied && !text::views(exclude_dirs@).contains(name@)),
{
    !denied && !text::list_contains(exclude_dirs, name)
}

/// Whether a file of the knowledge base is one to validate, by its extension.
pub fn is_markdown_extension(ext: &str) -> (r: bool)
    ensures
        r == (text::ascii_lowercase_spec(ext@) == text::ascii_lowercase_spec("md"@)),
{
    text::eq_ignore_ascii_case(ext, "md")
}

/// One annotation, with a space for each line feed of its words.
pub open spec fn annotation(path: Seq<char>, words: Seq<char>) -> Seq<char> {
    "::error file="@ + path + ",line=1,title=frontmatter::"@ + text::replace_char_spec(
        words,
        '\n',
        " "@,
    ) + seq!['\n']
}

/// The annotations for one document.
pub open spec fn annotations(path: Seq<char>, violations: Seq<Violation>) -> Seq<char>
    decreases violations.len(),
{
    if violations.len() == 0 {
        seq![]
    } else {
        annotations(path, violations.drop_last()) + annotation(path, violations.last()@.words())
    }
}

/// The annotations for all documents.
pub open spec fn github_spec(files: Seq<FileReport>) -> Seq<char>
    decreases files.len(),
{
    if files.len() == 0 {
        seq![]
    } else {
        github_spec(files.drop_last()) + annotations(
            files.last().path@,
            files.last().violations@,
        )
    }
}

fn annotate(path: &str, violations: &Vec<Violation>) -> (r: String)
    ensures
        r@ == annotations(path@, violations@),
{
    let mut s: String = String::new();
    let mut i: usize = 0;
    assert(s@ =~= annotations(path@, violations@.take(0)));
    while i < violations.len()
        invariant
            i <= violations@.len(),
            s@ == annotations(path@, violations@.take(i as int)),
        decreases violations@.len() - i,
    {
        assert(violations@.take(i + 1).drop_last() =~= violations@.take(i as int));
        let words = violations[i].words();
        let ghost before = s@;
        s.append("::error file=");
        s.append(path);
        s.append(",line=1,title=frontmatter::");
        s.append(text::replace_char(words.as_str(), '\n', " ").as_str());
        s.push('\n');
        assert(s@ =~= before + annotation(path@, words@));
        i += 1;
    }
    assert(violations@.take(i as int) =~= violations@);
    s
}

/// The report as annotations: one line for each violation.
pub fn github_text(report: &ValidateReport) -> (r: String)
    ensures
        r@ == github_spec(report.files@),
{
    let mut s: String = String::new();
    let mut i: usize = 0;
    assert(s@ =~= github_spec(report.files@.take(0)));
    while i < report.files.len()
        invariant
            i <= report.files@.len(),
            s@ == github_spec(report.files@.take(i as int)),
        decreases report.files@.len() - i,
    {
        assert(report.files@.take(i + 1).drop_last() =~= report.files@.take(i as int));
        s.append(annotate(report.files[i].path.as_str(), &report.files[i].violations).as_str());
        i += 1;
    }
    assert(report.files@.take(i as int) =~= report.files@);
    s
}

/// A line, in colour unless colours are left out.
pub open spec fn coloured(color: Seq<char>, line: Seq<char>, no_color: bool) -> Seq<char> {
    if no_color {
        line
    } else {
        color + line + "\x1b[0m"@
    }
}

fn append_coloured(s: &mut String, color: &str, line: &str, no_color: bool)
    ensures
        final(s)@ == old(s)@ + coloured(color@, line@, no_color),
{
    if no_color {
        s.append(line);
    } else {
        s.append(color);
        s.append(line);
        s.append("\x1b[0m");
        assert(s@ =~= old(s)@ + coloured(color@, line@, no_color));
    }
}

/// What is wrong with one document, a line for each violation.
pub open spec fn message_lines(violations: Seq<Violation>) -> Seq<char>
    decreases violations.len(),
{
    if violations.len() == 0 {
        seq![]
    } else {
        message_lines(violations.drop_last()) + "  "@ + violations.last()@.message() + seq!['\n']
    }
}

fn lines_of(violations: &Vec<Violation>) -> (r: String)
    ensures
        r@ == message_lines(violations@),
{
    let mut s: String = String::new();
    let mut i: usize = 0;
    assert(s@ =~= message_lines(violations@.take(0)));
    while i < violations.len()
        invariant
            i <= violations@.len(),
            s@ == message_lines(violations@.take(i as int)),
        decreases violations@.len() - i,
    {
        assert(violations@.take(i + 1).drop_last() =~= violations@.take(i as int));
        let ghost before = s@;
        let message = violations[i].message();
        s.append("  ");
        s.append(message.as_str());
        s.push('\n');
        assert(s@ =~= before + "  "@ + message@ + seq!['\n']);
        i += 1;
    }
    assert(violations@.take(i as int) =~= violations@);
    s
}

/// The part of the report on one document.
pub open spec fn file_part(file: FileReport, no_color: bool) -> Seq<char> {
    seq!['\n'] + coloured("\x1b[1;34m"@, file.path@, no_color) + seq!['\n'] + message_lines(
        file.violations@,
    )
}

/// The parts of the report on all documents.
pub open spec fn file_parts(files: Seq<FileReport>, no_color: bool) -> Seq<char>
    decreases files.len(),
{
    if files.len() == 0 {
        seq![]
    } else {
        file_parts(files.drop_last(), no_color) + file_part(files.last(), no_color)
    }
}

fn render_file(file: &FileReport, no_color: bool) -> (r: String)
    ensures
        r@ == file_part(*file, no_color),
{
    let mut s: String = String::new();
    s.push('\n');
    append_coloured(&mut s, "\x1b[1;34m", file.path.as_str(), no_color);
    s.push('\n');
    s.append(lines_of(&file.violations).as_str());
    assert(s@ =~= file_part(*file, no_color));
    s
}

fn render_files(files: &Vec<FileReport>, no_color: bool) -> (r: String)
    ensures
        r@ == file_parts(files@, no_color),
{
    let mut s: String = String::new();
    let mut i: usize = 0;
    assert(s@ =~= file_parts(files@.take(0), no_color));
    while i < files.len()
        invariant
            i <= files@.len(),
            s@ == file_parts(files@.take(i as int), no_color),
        decreases files@.len() - i,
    {
        assert(files@.take(i + 1).drop_last() =~= files@.take(i as int));
        s.append(render_file(&files[i], no_color).as_str());
        i += 1;
    }
    assert(files@.take(i as int) =~= files@);
    s
}

/// The head of the report.
pub open spec fn head_spec(report: ValidateReport) -> Seq<char> {
    "kb-mcp validate — "@ + text::decimal_spec(report.violated as nat)
        + " file(s) with violations ("@ + text::decimal_spec(
        (report.scanned - report.violated) as nat,
    ) + " OK)"@
}

/// The report for people.
pub fn validate_text(report: &ValidateReport, no_color: bool) -> (r: String)
    requires
        report.wf(),
    ensures
        r@ == if report.files@.len() == 0 {
            "kb-mcp validate: "@ + text::decimal_spec(report.scanned as nat) + " files OK\n"@
        } else {
            coloured("\x1b[1;31m"@, head_spec(*report), no_color) + seq!['\n'] + file_parts(
                report.files@,
                no_color,
            )
        },
{
    if report.files.len() == 0 {
        let mut s = text::copy("kb-mcp validate: ");
        s.append(text::decimal(report.scanned as u64).as_str());
        s.append(" files OK\n");
        return s;
    }
    let mut head = text::copy("kb-mcp validate — ");
    head.append(text::decimal(report.violated as u64).as_str());
    head.append(" file(s) with violations (");
    head.append(text::decimal(report.ok() as u64).as_str());
    head.append(" OK)");
    let mut s: String = String::new();
    append_coloured(&mut s, "\x1b[1;31m", head.as_str(), no_color);
    s.push('\n');
    s.append(render_files(&report.files, no_color).as_str());
    assert(s@ =~= coloured("\x1b[1;31m"@, head_spec(*report), no_color) + seq!['\n'] + file_parts(
        report.files@,
        no_color,
    ));
    s
}

// ---------------------------------------------------------------------------
// graph
// ---------------------------------------------------------------------------
/// An optional text, or a stand-in.
pub open spec fn or_text(o: Option<Seq<char>>, other: Seq<char>) -> Seq<char> {
    match o {
        Some(s) => s,
        None => other,
    }
}

/// The first line on a node. `score` is its similarity to its parent, in words.
pub open spec fn node_line(n: GraphNode, score: Seq<char>) -> Seq<char> {
    "["@ + text::pad_left_spec(text::decimal_spec(n.node_id as nat), 3) + "] depth="@
        + text::decimal_spec(n.depth as nat) + " parent="@ + (match n.parent_id {
        Some(p) => text::decimal_spec(p as nat),
        None => "-"@,
    }) + " score="@ + score + "  "@ + n.path@ + "#"@ + or_text(text::opt_view(n.heading), ""@)
}

/// The part of the report on one node.
pub open spec fn node_part(n: GraphNode, score: Seq<char>) -> Seq<char> {
    seq!['\n'] + node_line(n, score) + seq!['\n'] + (match n.title {
        Some(t) => "     title: "@ + t@ + seq!['\n'],
        None => seq![],
    }) + "     "@ + n.snippet@ + seq!['\n']
}

/// The parts of the report on all nodes.
pub open spec fn node_parts(nodes: Seq<GraphNode>, scores: Seq<Seq<char>>) -> Seq<char>
    decreases nodes.len(),
{
    if nodes.len() == 0 {
        seq![]
    } else {
        node_parts(nodes.drop_last(), scores) + node_part(nodes.last(), scores[nodes.len() - 1])
    }
}

fn render_node_line(n: &GraphNode, score: &str) -> (r: String)
    ensures
        r@ == node_line(*n, score@),
{
    let mut s = text::copy("[");
    s.append(text::pad_left(text::decimal(n.node_id as u64).as_str(), 3).as_str());
    s.append("] depth=");
    s.append(text::decimal(n.depth as u64).as_str());
    s.append(" parent=");
    match n.parent_id {
        Some(p) => {
            s.append(text::decimal(p as u64).as_str());
        },
        None => {
            s.append("-");
        },
    }
    s.append(" score=");
    s.append(score);
    s.append("  ");
    s.append(n.path.as_str());
    s.append("#");
    match &n.heading {
        Some(h) => {
            s.append(h.as_str());
        },
        None => {
            s.append("");
        },
    }
    s
}

fn render_node(n: &GraphNode, score: &str) -> (r: String)
    ensures
        r@ == node_part(*n, score@),
{
    let mut s: String = String::new();
    s.push('\n');
    s.append(render_node_line(n, score).as_str());
    s.push('\n');
    if let Some(t) = &n.title {
        s.append("     title: ");
        s.append(t.as_str());
        s.push('\n');
    }
    s.append("     ");
    s.append(n.snippet.as_str());
    s.push('\n');
    assert(s@ =~= node_part(*n, score@));
    s
}

/// The head of the report on a graph.
pub open spec fn graph_head(g: ConnectionGraph) -> Seq<char> {
    "# Connection graph from: "@ + g.start_path@ + "\nnodes="@ + text::decimal_spec(
        g.stats.total_nodes as nat,
    ) + " max_depth="@ + text::decimal_spec(g.stats.max_depth_reached as nat) + " knn_queries="@
        + text::decimal_spec(g.stats.knn_queries as nat) + " duration_ms="@ + text::decimal_spec(
        g.stats.duration_ms as nat,
    ) + "\n"@
}

/// The report on a graph for people. `scores` are the nodes' similarities, in words.
pub fn graph_text(g: &ConnectionGraph, scores: &Vec<String>) -> (r: String)
    requires
        scores@.len() == g.nodes@.len(),
    ensures
        r@ == graph_head(*g) + node_parts(g.nodes@, text::views(scores@)),
{
    let mut s = text::copy("# Connection graph from: ");
    s.append(g.start_path.as_str());
    s.append("\nnodes=");
    s.append(text::decimal(g.stats.total_nodes as u64).as_str());
    s.append(" max_depth=");
    s.append(text::decimal(g.stats.max_depth_reached as u64).as_str());
    s.append(" knn_queries=");
    s.append(text::decimal(g.stats.knn_queries as u64).as_str());
    s.append(" duration_ms=");
    s.append(text::decimal(g.stats.duration_ms).as_str());
    s.append("\n");
    let ghost head = s@;
    assert(head == graph_head(*g));
    let ghost words = text::views(scores@);
    let mut i: usize = 0;
    assert(s@ =~= head + node_parts(g.nodes@.take(0), words));
    while i < g.nodes.len()
        invariant
            i <= g.nodes@.len(),
            scores@.len() == g.nodes@.len(),
            words == text::views(scores@),
            s@ == head + node_parts(g.nodes@.take(i as int), words),
        decreases g.nodes@.len() - i,
    {
        assert(g.nodes@.take(i + 1).drop_last() =~= g.nodes@.take(i as int));
        let part = render_node(&g.nodes[i], scores[i].as_str());
        assert(part@ == node_part(g.nodes@[i as int], words[i as int]));
        s.append(part.as_str());
        assert(s@ =~= head + node_parts(g.nodes@.take(i + 1), words));
        i += 1;
    }
    assert(g.nodes@.take(i as int) =~= g.nodes@);
    s
}

// ---------------------------------------------------------------------------
// search
// ---------------------------------------------------------------------------
/// A hit to print. `score` is its score, in words; `match_spans` are places in the content, in
/// bytes, where the query was found.
#[derive(Debug, Clone)]
pub struct HitToPrint {
    pub title: Option<String>,
    pub path: String,
    pub heading: Option<String>,
    pub score: String,
    pub tags: Vec<String>,
    pub match_spans: Option<Vec<(usize, usize)>>,
    pub content: String,
}

/// How many places are shown of one hit at most.
pub const MAX_SPANS: usize = 3;

/// How many characters the first `bytes` bytes of a text are, if they are whole characters.
pub open spec fn chars_in(s: Seq<char>, bytes: nat) -> Option<nat>
    decreases s.len(),
{
    if bytes == 0 {
        Some(0)
    } else if s.len() == 0 || text::utf8_len(s[0]) > bytes {
        None
    } else {
        match chars_in(s.skip(1), (bytes - text::utf8_len(s[0])) as nat) {
            Some(n) => Some(n + 1),
            None => None,
        }
    }
}

/// The part of a text between two places given in bytes, if both lie between characters and are
/// in order.
pub open spec fn slice_spec(s: Seq<char>, start: nat, end: nat) -> Option<Seq<char>> {
    match (chars_in(s, start), chars_in(s, end)) {
        (Some(i), Some(j)) => if start <= end {
            Some(s.subrange(i as int, j as int))
        } else {
            None
        },
        _ => None,
    }
}

fn count_chars(v: &Vec<char>, bytes: usize) -> (r: Option<usize>)
    ensures
        match r {
            Some(n) => chars_in(v@, bytes as nat) == Some(n as nat) && n <= v@.len(),
            None => chars_in(v@, bytes as nat) is None,
        },
{
    let mut left: usize = bytes;
    let mut i: usize = 0;
    assert(v@.skip(0) =~= v@);
    while left > 0 && i < v.len()
        invariant
            i <= v@.len(),
            chars_in(v@, bytes as nat) == match chars_in(v@.skip(i as int), left as nat) {
                Some(n) => Some((n + i) as nat),
                None => None,
            },
        decreases v@.len() - i,
    {
        let w: usize = text::width(v[i]);
        if w > left {
            return None;
        }
        assert(v@.skip(i as int).skip(1) =~= v@.skip(i + 1));
        left -= w;
        i += 1;
    }
    if left == 0 {
        Some(i)
    } else {
        None
    }
}

proof fn fewer_bytes_fewer_chars(s: Seq<char>, a: nat, b: nat)
    requires
        chars_in(s, a) is Some,
        chars_in(s, b) is Some,
        a <= b,
    ensures
        chars_in(s, a)->0 <= chars_in(s, b)->0 <= s.len(),
    decreases s.len(),
{
    if b > 0 {
        if a > 0 {
            fewer_bytes_fewer_chars(
                s.skip(1),
                (a - text::utf8_len(s[0])) as nat,
                (b - text::utf8_len(s[0])) as nat,
            );
        } else {
            fewer_bytes_fewer_chars(s.skip(1), 0, (b - text::utf8_len(s[0])) as nat);
        }
    }
}

/// The part of a text between two places given in bytes.
pub fn slice(content: &str, start: usize, end: usize) -> (r: Option<String>)
    ensures
        text::opt_view(r) == slice_spec(content@, start as nat, end as nat),
{
    let v = text::to_chars(content);
    match (count_chars(&v, start), count_chars(&v, end)) {
        (Some(i), Some(j)) => {
            if start <= end {
                proof {
                    fewer_bytes_fewer_chars(v@, start as nat, end as nat);
                }
                Some(text::from_chars(&v, i, j))
            } else {
                None
            }
        },
        _ => None,
    }
}

/// The places of a hit that can be shown, between quotes.
pub open spec fn shown_spans(content: Seq<char>, spans: Seq<(usize, usize)>) -> Seq<Seq<char>>
    decreases spans.len(),
{
    if spans.len() == 0 {
        seq![]
    } else {
        let before = shown_spans(content, spans.drop_last());
        match slice_spec(content, spans.last().0 as nat, spans.last().1 as nat) {
            Some(t) => before.push(seq!['"'] + t + seq!['"']),
            None => before,
        }
    }
}

/// The first few of some places.
pub open spec fn first_spans(spans: Seq<(usize, usize)>) -> Seq<(usize, usize)> {
    if spans.len() <= MAX_SPANS {
        spans
    } else {
        spans.take(MAX_SPANS as int)
    }
}

fn show_spans(content: &str, spans: &Vec<(usize, usize)>) -> (r: Vec<String>)
    ensures
        text::views(r@) == shown_spans(content@, first_spans(spans@)),
{
    let mut out: Vec<String> = Vec::new();
    let n: usize = if spans.len() <= MAX_SPANS {
        spans.len()
    } else {
        MAX_SPANS
    };
    let mut i: usize = 0;
    assert(text::views(out@) =~= shown_spans(content@, spans@.take(0)));
    while i < n
        invariant
            i <= n <= spans@.len(),
            text::views(out@) == shown_spans(content@, spans@.take(i as int)),
        decreases n - i,
    {
        assert(spans@.take(i + 1).drop_last() =~= spans@.take(i as int));
        let ghost before = text::views(out@);
        if let Some(t) = slice(content, spans[i].0, spans[i].1) {
            let mut q: String = String::new();
            q.push('"');
            q.append(t.as_str());
            q.push('"');
            assert(q@ =~= seq!['"'] + t@ + seq!['"']);
            out.push(q);
            assert(text::views(out@) =~= before.push(q@));
        }
        i += 1;
    }
    assert(spans@.take(i as int) =~= first_spans(spans@));
    out
}

/// The lines of a hit before its content.
pub open spec fn hit_head(h: HitToPrint) -> Seq<char> {
    "# "@ + or_text(text::opt_view(h.title), "(no title)"@) + "\n"@ + h.path@ + (match h.heading {
        Some(t) => if t@.len() == 0 {
            seq![]
        } else {
            "#"@ + t@
        },
        None => seq![],
    }) + "\nscore: "@ + h.score@ + "\n"@
}

/// The lines of a hit on its tags and places.
pub open spec fn hit_details(h: HitToPrint) -> Seq<char> {
    (if h.tags@.len() == 0 {
        seq![]
    } else {
        "tags: "@ + text::join_spec(text::views(h.tags@), ", "@) + "\n"@
    }) + (match h.match_spans {
        Some(spans) => if spans@.len() == 0 {
            seq![]
        } else {
            "match_spans: "@ + text::join_spec(
                shown_spans(h.content@, first_spans(spans@)),
                ", "@,
            ) + "\n"@
        },
        None => seq![],
    })
}

/// A hit for people.
pub open spec fn hit_text(h: HitToPrint) -> Seq<char> {
    hit_head(h) + hit_details(h) + "\n"@ + h.content@ + "\n"@
}

/// The hits for people, with a line between them.
pub open spec fn hit_texts(hits: Seq<HitToPrint>) -> Seq<char>
    decreases hits.len(),
{
    if hits.len() == 0 {
        seq![]
    } else {
        hit_texts(hits.drop_last()) + (if hits.len() > 1 {
            "\n---\n\n"@
        } else {
            seq![]
        }) + hit_text(hits.last())
    }
}

fn render_hit_head(h: &HitToPrint) -> (r: String)
    ensures
        r@ == hit_head(*h),
{
    let mut s = text::copy("# ");
    match &h.title {
        Some(t) => {
            s.append(t.as_str());
        },
        None => {
            s.append("(no title)");
        },
    }
    s.append("\n");
    s.append(h.path.as_str());
    if let Some(t) = &h.heading {
        if !t.as_str().is_empty() {
            s.append("#");
            s.append(t.as_str());
        }
    }
    s.append("\nscore: ");
    s.append(h.score.as_str());
    s.append("\n");
    assert(s@ =~= hit_head(*h));
    s
}

fn render_hit_details(h: &HitToPrint) -> (r: String)
    ensures
        r@ == hit_details(*h),
{
    let mut s: String = String::new();
    if h.tags.len() > 0 {
        s.append("tags: ");
        s.append(text::join(&h.tags, ", ").as_str());
        s.append("\n");
    }
    if let Some(spans) = &h.match_spans {
        if spans.len() > 0 {
            let shown = show_spans(h.content.as_str(), spans);
            s.append("match_spans: ");
            s.append(text::join(&shown, ", ").as_str());
            s.append("\n");
        }
    }
    assert(s@ =~= hit_details(*h));
    s
}

fn render_hit(h: &HitToPrint) -> (r: String)
    ensures
        r@ == hit_text(*h),
{
    let mut s = render_hit_head(h);
    s.append(render_hit_details(h).as_str());
    s.append("\n");
    s.append(h.content.as_str());
    s.append("\n");
    s
}

/// The result of a search for people. `ratio` is the ratio, in words, below which it counts as
/// unsure.
pub fn search_text(low_confidence: bool, ratio: &str, hits: &Vec<HitToPrint>) -> (r: String)
    ensures
        r@ == (if low_confidence {
            "[low_confidence: top1 / mean ratio < "@ + ratio@ + "]\n\n"@
        } else {
            seq![]
        }) + hit_texts(hits@),
{
    let mut s: String = String::new();
    if low_confidence {
        s.append("[low_confidence: top1 / mean ratio < ");
        s.append(ratio);
        s.append("]\n\n");
    }
    let ghost head = s@;
    assert(head =~= (if low_confidence {
        "[low_confidence: top1 / mean ratio < "@ + ratio@ + "]\n\n"@
    } else {
        seq![]
    }));
    let mut i: usize = 0;
    assert(s@ =~= head + hit_texts(hits@.take(0)));
    while i < hits.len()
        invariant
            i <= hits@.len(),
            s@ == head + hit_texts(hits@.take(i as int)),
        decreases hits@.len() - i,
    {
        assert(hits@.take(i + 1).drop_last() =~= hits@.take(i as int));
        if i > 0 {
            s.append("\n---\n\n");
        }
        s.append(render_hit(&hits[i]).as_str());
        assert(s@ =~= head + hit_texts(hits@.take(i + 1)));
        i += 1;
    }
    assert(hits@.take(i as int) =~= hits@);
    s
}

// ---------------------------------------------------------------------------
// The filters that were applied
// ---------------------------------------------------------------------------
/// The filters that a search was asked to apply.
#[derive(Debug, Clone)]
pub struct SearchFilters {
    pub category: Option<String>,
    pub topic: Option<String>,
    pub path_globs: Vec<String>,
    pub tags_any: Vec<String>,
    pub tags_all: Vec<String>,
    pub date_from: Option<String>,
    pub date_to: Option<String>,
    /// The bits of a single-precision number.
    pub min_confidence_ratio_bits: Option<u32>,
}

/// The value of a filter.
#[derive(Debug, Clone)]
pub enum FilterValue {
    Text { value: String },
    List { values: Vec<String> },
    Number { bits: u32 },
}

/// What a [`FilterValue`] says.
pub enum FilterModel {
    Text { value: Seq<char> },
    List { values: Seq<Seq<char>> },
    Number { bits: u32 },
}

impl View for FilterValue {
    type V = FilterModel;

    open spec fn view(&self) -> FilterModel {
        match self {
            FilterValue::Text { value } => FilterModel::Text { value: value@ },
            FilterValue::List { values } => FilterModel::List { values: text::views(values@) },
            FilterValue::Number { bits } => FilterModel::Number { bits: *bits },
        }
    }
}

/// The names and values of some filters.
pub open spec fn filter_models(v: Seq<(&'static str, FilterValue)>) -> Seq<
    (Seq<char>, FilterModel),
> {
    Seq::new(v.len(), |i: int| (v[i].0@, v[i].1@))
}

/// A filter by a text, if there is one.
pub open spec fn text_filter(name: Seq<char>, o: Option<String>) -> Seq<(Seq<char>, FilterModel)> {
    match o {
        Some(t) => seq![(name, FilterModel::Text { value: t@ })],
        None => seq![],
    }
}

/// A filter by a list, if it is not empty.
pub open spec fn list_filter(name: Seq<char>, v: Vec<String>) -> Seq<(Seq<char>, FilterModel)> {
    if v@.len() == 0 {
        seq![]
    } else {
        seq![(name, FilterModel::List { values: text::views(v@) })]
    }
}

/// The filters that say something, in their order.
pub open spec fn applied_spec(f: SearchFilters) -> Seq<(Seq<char>, FilterModel)> {
    text_filter("category"@, f.category) + text_filter("topic"@, f.topic) + list_filter(
        "path_globs"@,
        f.path_globs,
    ) + list_filter("tags_any"@, f.tags_any) + list_filter("tags_all"@, f.tags_all) + text_filter(
        "date_from"@,
        f.date_from,
    ) + text_filter("date_to"@, f.date_to) + match f.min_confidence_ratio_bits {
        Some(bits) => seq![("min_confidence_ratio"@, FilterModel::Number { bits })],
        None => seq![],
    }
}

fn add_text(out: &mut Vec<(&'static str, FilterValue)>, name: &'static str, o: &Option<String>)
    ensures
        filter_models(final(out)@) == filter_models(old(out)@) + text_filter(name@, *o),
{
    let ghost before = filter_models(out@);
    if let Some(t) = o {
        out.push((name, FilterValue::Text { value: t.clone() }));
    }
    assert(filter_models(out@) =~= before + text_filter(name@, *o));
}

fn add_list(out: &mut Vec<(&'static str, FilterValue)>, name: &'static str, v: &Vec<String>)
    ensures
        filter_models(final(out)@) == filter_models(old(out)@) + list_filter(name@, *v),
{
    let ghost before = filter_models(out@);
    if v.len() > 0 {
        out.push((name, FilterValue::List { values: text::copy_all(v) }));
    }
    assert(filter_models(out@) =~= before + list_filter(name@, *v));
}

/// The filters that were asked for, by name: what says nothing is left out.
pub fn applied_filters(f: &SearchFilters) -> (r: Vec<(&'static str, FilterValue)>)
    ensures
        filter_models(r@) == applied_spec(*f),
{
    let mut out: Vec<(&'static str, FilterValue)> = Vec::new();
    add_text(&mut out, "category", &f.category);
    assert(filter_models(out@) =~= text_filter("category"@, f.category));
    add_text(&mut out, "topic", &f.topic);
    add_list(&mut out, "path_globs", &f.path_globs);
    add_list(&mut out, "tags_any", &f.tags_any);
    add_list(&mut out, "tags_all", &f.tags_all);
    add_text(&mut out, "date_from", &f.date_from);
    add_text(&mut out, "date_to", &f.date_to);
    let ghost before = filter_models(out@);
    if let Some(bits) = f.min_confidence_ratio_bits {
        out.push(("min_confidence_ratio", FilterValue::Number { bits }));
    }
    assert(filter_models(out@) =~= before + match f.min_confidence_ratio_bits {
        Some(bits) => seq![("min_confidence_ratio"@, FilterModel::Number { bits })],
        None => seq![],
    });
    out
}

// ---------------------------------------------------------------------------
// Laws
// ---------------------------------------------------------------------------
/// Each violation is one annotation of its document: its words, with a space in the place of each
/// line feed, between the name of the document and a line feed. The documents follow one another.
pub proof fn each_violation_is_one_annotation(
    path: Seq<char>,
    violations: Seq<Violation>,
    v: Violation,
    files: Seq<FileReport>,
    file: FileReport,
) -> (line: Seq<char>)
    ensures
        annotations(path, violations.push(v)) == annotations(path, violations) + "::error file="@
            + path + ",line=1,title=frontmatter::"@ + line + seq!['\n'],
        line.len() == v@.words().len(),
        forall|i: int|
            0 <= i < line.len() ==> #[trigger] line[i] == if v@.words()[i] == '\n' {
                ' '
            } else {
                v@.words()[i]
            },
        annotations(path, seq![]).len() == 0,
        github_spec(files.push(file)) == github_spec(files) + annotations(
            file.path@,
            file.violations@,
        ),
        github_spec(seq![]).len() == 0,
{
    assert(violations.push(v).drop_last() =~= violations);
    assert(files.push(file).drop_last() =~= files);
    let words = v@.words();
    let line = text::replace_char_spec(words, '\n', " "@);
    one_for_one(words);
    let before = annotations(path, violations);
    assert(before + annotation(path, words) =~= before + "::error file="@ + path
        + ",line=1,title=frontmatter::"@ + line + seq!['\n']);
    line
}

proof fn one_for_one(words: Seq<char>)
    ensures
        ({
            let line = text::replace_char_spec(words, '\n', " "@);
            &&& line.len() == words.len()
            &&& forall|i: int|
                0 <= i < line.len() ==> #[trigger] line[i] == if words[i] == '\n' {
                    ' '
                } else {
                    words[i]
                }
        }),
    decreases words.len(),
{
    reveal_strlit(" ");
    assert(" "@ =~= seq![' ']);
    if words.len() > 0 {
        one_for_one(words.drop_last());
        let line = text::replace_char_spec(words, '\n', " "@);
        let before = text::replace_char_spec(words.drop_last(), '\n', " "@);
        assert(line.len() == before.len() + 1);
        assert forall|i: int| 0 <= i < line.len() implies #[trigger] line[i] == if words[i] == '\n' {
            ' '
        } else {
            words[i]
        } by {
            if i < before.len() {
                assert(line[i] == before[i]);
            }
        }
    }
}

/// A document's part of the report is a line with its name, and below it a line for each
/// violation; the documents follow one another. Without colours nothing is added.
pub proof fn each_document_has_its_part(
    files: Seq<FileReport>,
    path: Seq<char>,
    file: FileReport,
    violations: Seq<Violation>,
    v: Violation,
    no_color: bool,
)
    ensures
        file_parts(files.push(file), no_color) == file_parts(files, no_color) + file_part(
            file,
            no_color,
        ),
        file_parts(seq![], no_color).len() == 0,
        file_part(file, true) == seq!['\n'] + file.path@ + seq!['\n'] + message_lines(
            file.violations@,
        ),
        file_part(file, false) == seq!['\n'] + "\x1b[1;34m"@ + file.path@ + "\x1b[0m"@
            + seq!['\n'] + message_lines(file.violations@),
        message_lines(violations.push(v)) == message_lines(violations) + "  "@ + v@.message()
            + seq!['\n'],
        message_lines(seq![]).len() == 0,
        coloured(path, path, true) == path,
{
    assert(files.push(file).drop_last() =~= files);
    assert(violations.push(v).drop_last() =~= violations);
    let lines = message_lines(file.violations@);
    assert(file_part(file, false) =~= seq!['\n'] + "\x1b[1;34m"@ + file.path@ + "\x1b[0m"@
        + seq!['\n'] + lines);
}

/// A schema that is there lets `validate` go on; one that is missing ends it without a fault, and
/// one that cannot be used ends it with code 2. What is said names the place or the reason.
pub proof fn only_an_unusable_schema_is_a_fault(load: SchemaLoad, path: Seq<char>)
    ensures
        ({
            let r = schema_outcome_spec(load, path);
            &&& r is None <==> load is Loaded
            &&& load is Missing ==> (r->0).1 == 0 && text::contains_spec((r->0).0, path)
            &&& load is Unusable ==> (r->0).1 == 2 && text::ends_with_spec((r->0).0, load->reason@)
        }),
{
    if load is Missing {
        text::parts_stand_in_a_text(
            "kb-mcp validate: no schema found at "@,
            path,
            " (skipping)"@,
        );
    }
    if load is Unusable {
        text::parts_stand_in_a_text(
            seq![],
            "kb-mcp validate: schema load error: "@,
            load->reason@,
        );
    }
}

/// The nodes of a graph are shown one after another, each with its number, depth, parent and
/// score, the heading behind the document, its title if it has one, and its snippet.
pub proof fn a_node_is_shown_with_what_it_is(
    nodes: Seq<GraphNode>,
    scores: Seq<Seq<char>>,
    n: GraphNode,
)
    requires
        scores.len() > nodes.len(),
    ensures
        ({
            let score = scores[nodes.len() as int];
            let part = node_part(n, score);
            let parent = if n.parent_id is Some {
                text::decimal_spec(n.parent_id->0 as nat)
            } else {
                "-"@
            };
            let heading = if n.heading is Some {
                n.heading->0@
            } else {
                ""@
            };
            let line = "["@ + text::pad_left_spec(text::decimal_spec(n.node_id as nat), 3)
                + "] depth="@ + text::decimal_spec(n.depth as nat) + " parent="@ + parent
                + " score="@ + score + "  "@ + n.path@ + "#"@ + heading;
            &&& node_parts(nodes.push(n), scores) == node_parts(nodes, scores) + part
            &&& node_parts(seq![], scores).len() == 0
            &&& text::starts_with_spec(part, seq!['\n'] + line + seq!['\n'])
            &&& text::ends_with_spec(part, "     "@ + n.snippet@ + seq!['\n'])
            &&& n.title is Some ==> part == seq!['\n'] + line + seq!['\n'] + "     title: "@
                + n.title->0@ + seq!['\n'] + "     "@ + n.snippet@ + seq!['\n']
            &&& n.title is None ==> part == seq!['\n'] + line + seq!['\n'] + "     "@ + n.snippet@
                + seq!['\n']
        }),
{
    assert(nodes.push(n).drop_last() =~= nodes);
    let score = scores[nodes.len() as int];
    let part = node_part(n, score);
    let line = node_line(n, score);
    let top = seq!['\n'] + line + seq!['\n'];
    let bottom = "     "@ + n.snippet@ + seq!['\n'];
    let title = match n.title {
        Some(t) => "     title: "@ + t@ + seq!['\n'],
        None => Seq::<char>::empty(),
    };
    three_behind(top + title, "     "@, n.snippet@, seq!['\n']);
    assert(part == top + title + bottom);
    text::parts_stand_in_a_text(seq![], top + title, bottom);
    text::parts_stand_in_a_text(top, title, seq![]);
    text::more_behind_a_text_takes_nothing_away(top + title, top, bottom);
    match n.title {
        Some(t) => {
            three_behind(top, "     title: "@, t@, seq!['\n']);
        },
        None => {
            assert(top + title =~= top);
        },
    }
}

proof fn three_behind(a: Seq<char>, b: Seq<char>, c: Seq<char>, d: Seq<char>)
    ensures
        a + b + c + d == a + (b + c + d),
{
    assert(a + b + c + d =~= a + (b + c + d));
}

proof fn bytes_of_the_first(s: Seq<char>)
    requires
        s.len() > 0,
    ensures
        text::byte_len(s) == text::utf8_len(s[0]) + text::byte_len(s.skip(1)),
        text::utf8_len(s[0]) >= 1,
{
    let one = seq![s[0]];
    assert(s =~= one + s.skip(1));
    text::byte_len_of_both(one, s.skip(1));
    assert(one.drop_last() =~= seq![]);
    assert(one.last() == s[0]);
    assert(text::byte_len(one) == text::byte_len(one.drop_last()) + text::utf8_len(s[0]));
}

proof fn bytes_make_up_characters(a: Seq<char>, b: Seq<char>)
    ensures
        chars_in(a + b, text::byte_len(a)) == Some(a.len()),
    decreases a.len(),
{
    if a.len() > 0 {
        bytes_of_the_first(a);
        assert((a + b)[0] == a[0]);
        assert((a + b).skip(1) =~= a.skip(1) + b);
        bytes_make_up_characters(a.skip(1), b);
    }
}

proof fn characters_take_up_bytes(s: Seq<char>, bytes: nat)
    requires
        chars_in(s, bytes) is Some,
    ensures
        chars_in(s, bytes)->0 <= s.len(),
        text::byte_len(s.take(chars_in(s, bytes)->0 as int)) == bytes,
    decreases s.len(),
{
    let n = chars_in(s, bytes)->0;
    if bytes == 0 {
        assert(s.take(0) =~= seq![]);
    } else {
        let rest = s.skip(1);
        characters_take_up_bytes(rest, (bytes - text::utf8_len(s[0])) as nat);
        let head = s.take(n as int);
        assert(head.skip(1) =~= rest.take(n - 1));
        assert(head[0] == s[0]);
        bytes_of_the_first(head);
    }
}

/// A part of a text is found by the number of bytes before it and up to its end.
pub proof fn a_part_is_found_by_its_bytes(a: Seq<char>, part: Seq<char>, b: Seq<char>)
    ensures
        slice_spec(a + part + b, text::byte_len(a), text::byte_len(a + part)) == Some(part),
{
    let s = a + part + b;
    assert(s =~= a + (part + b));
    bytes_make_up_characters(a, part + b);
    bytes_make_up_characters(a + part, b);
    text::byte_len_of_both(a, part);
    assert(s.subrange(a.len() as int, (a + part).len() as int) =~= part);
}

/// What is found between two numbers of bytes is the part of the text there; where either does
/// not lie between two characters, or they are not in order, nothing is found.
pub proof fn what_is_found_lies_between_its_bytes(s: Seq<char>, start: nat, end: nat)
    ensures
        slice_spec(s, start, end) is Some ==> exists|a: Seq<char>, b: Seq<char>|
            s == #[trigger] (a + slice_spec(s, start, end)->0 + b) && text::byte_len(a) == start
                && text::byte_len(a + slice_spec(s, start, end)->0) == end,
        start > end ==> slice_spec(s, start, end) is None,
        (forall|n: int| 0 <= n <= s.len() ==> text::byte_len(#[trigger] s.take(n)) != start)
            ==> slice_spec(s, start, end) is None,
        (forall|n: int| 0 <= n <= s.len() ==> text::byte_len(#[trigger] s.take(n)) != end)
            ==> slice_spec(s, start, end) is None,
{
    if chars_in(s, start) is Some {
        characters_take_up_bytes(s, start);
        assert(text::byte_len(s.take(chars_in(s, start)->0 as int)) == start);
    }
    if chars_in(s, end) is Some {
        characters_take_up_bytes(s, end);
        assert(text::byte_len(s.take(chars_in(s, end)->0 as int)) == end);
    }
    if slice_spec(s, start, end) is Some {
        let i = chars_in(s, start)->0 as int;
        let j = chars_in(s, end)->0 as int;
        fewer_bytes_fewer_chars(s, start, end);
        let part = slice_spec(s, start, end)->0;
        let a = s.take(i);
        let b = s.skip(j);
        assert(s =~= a + part + b);
        assert(a + part =~= s.take(j));
    }
}

/// Of the places of a hit the first three count, and of these each that lies in the content is
/// shown between quotes, in order.
pub proof fn the_first_places_are_shown(
    a: Seq<char>,
    part: Seq<char>,
    b: Seq<char>,
    spans: Seq<(usize, usize)>,
    span: (usize, usize),
)
    ensures
        first_spans(spans).len() == if spans.len() < 3 {
            spans.len() as int
        } else {
            3
        },
        forall|i: int| 0 <= i < first_spans(spans).len() ==> first_spans(spans)[i] == spans[i],
        span.0 == text::byte_len(a) && span.1 == text::byte_len(a + part) ==> shown_spans(
            a + part + b,
            spans.push(span),
        ) == shown_spans(a + part + b, spans).push(seq!['"'] + part + seq!['"']),
        span.0 > span.1 ==> shown_spans(a + part + b, spans.push(span)) == shown_spans(
            a + part + b,
            spans,
        ),
        shown_spans(a, seq![]).len() == 0,
{
    assert(spans.push(span).drop_last() =~= spans);
    a_part_is_found_by_its_bytes(a, part, b);
    what_is_found_lies_between_its_bytes(a + part + b, span.0 as nat, span.1 as nat);
}

/// The hits are shown one after another with a rule between them, each with its title, its
/// document and heading, its score, its tags if it has any, and its content last.
pub proof fn a_hit_is_shown_with_what_it_is(hits: Seq<HitToPrint>, h: HitToPrint)
    ensures
        hit_texts(seq![]).len() == 0,
        hit_texts(seq![h]) == hit_text(h),
        hits.len() > 0 ==> hit_texts(hits.push(h)) == hit_texts(hits) + "\n---\n\n"@ + hit_text(h),
        h.title is Some ==> text::starts_with_spec(
            hit_text(h),
            "# "@ + h.title->0@ + "\n"@ + h.path@,
        ),
        h.title is None ==> text::starts_with_spec(
            hit_text(h),
            "# "@ + "(no title)"@ + "\n"@ + h.path@,
        ),
        h.heading is Some && h.heading->0@.len() > 0 ==> text::contains_spec(
            hit_text(h),
            h.path@ + ("#"@ + h.heading->0@) + "\nscore: "@ + h.score@ + "\n"@,
        ),
        h.heading is None || h.heading->0@.len() == 0 ==> text::contains_spec(
            hit_text(h),
            h.path@ + "\nscore: "@ + h.score@ + "\n"@,
        ),
        h.tags@.len() > 0 ==> text::contains_spec(
            hit_text(h),
            "tags: "@ + text::join_spec(text::views(h.tags@), ", "@) + "\n"@,
        ),
        text::ends_with_spec(hit_text(h), "\n"@ + h.content@ + "\n"@),
{
    assert(hits.push(h).drop_last() =~= hits);
    let one = seq![h];
    assert(one.drop_last() =~= seq![]);
    assert(one.last() == h);
    assert(hit_texts(one.drop_last()) =~= seq![]);
    assert(hit_texts(one) =~= hit_text(h));
    let title = or_text(text::opt_view(h.title), "(no title)"@);
    let top = "# "@ + title + "\n"@;
    let heading = match h.heading {
        Some(t) => if t@.len() == 0 {
            Seq::<char>::empty()
        } else {
            "#"@ + t@
        },
        None => Seq::<char>::empty(),
    };
    let score = "\nscore: "@ + h.score@ + "\n"@;
    let tags = if h.tags@.len() == 0 {
        Seq::<char>::empty()
    } else {
        "tags: "@ + text::join_spec(text::views(h.tags@), ", "@) + "\n"@
    };
    let places = match h.match_spans {
        Some(spans) => if spans@.len() == 0 {
            Seq::<char>::empty()
        } else {
            "match_spans: "@ + text::join_spec(
                shown_spans(h.content@, first_spans(spans@)),
                ", "@,
            ) + "\n"@
        },
        None => Seq::<char>::empty(),
    };
    let content = "\n"@ + h.content@ + "\n"@;
    hit_in_parts(top, h.path@, heading, "\nscore: "@, h.score@, "\n"@);
    assert(hit_head(h) == top + h.path@ + (heading + score));
    assert(hit_details(h) == tags + places);
    let head = top + h.path@ + (heading + score);
    assert(hit_text(h) =~= head + tags + places + content);
    parts_of_a_hit(top, h.path@, heading, score, tags, places, content);
    no_heading(h.path@, heading, "\nscore: "@, h.score@, "\n"@);
}

proof fn hit_in_parts(
    top: Seq<char>,
    path: Seq<char>,
    heading: Seq<char>,
    a: Seq<char>,
    b: Seq<char>,
    c: Seq<char>,
)
    ensures
        top + path + heading + a + b + c == top + path + (heading + (a + b + c)),
{
    assert(top + path + heading + a + b + c =~= top + path + (heading + (a + b + c)));
}

proof fn no_heading(
    path: Seq<char>,
    heading: Seq<char>,
    a: Seq<char>,
    b: Seq<char>,
    c: Seq<char>,
)
    ensures
        path + heading + (a + b + c) == path + heading + a + b + c,
        heading.len() == 0 ==> path + heading == path,
{
    assert(path + heading + (a + b + c) =~= path + heading + a + b + c);
    if heading.len() == 0 {
        assert(path + heading =~= path);
    }
}

proof fn parts_of_a_hit(
    top: Seq<char>,
    path: Seq<char>,
    heading: Seq<char>,
    score: Seq<char>,
    tags: Seq<char>,
    places: Seq<char>,
    content: Seq<char>,
)
    ensures
        ({
            let all = top + path + (heading + score) + tags + places + content;
            &&& text::starts_with_spec(all, top + path)
            &&& text::contains_spec(all, path + heading + score)
            &&& text::contains_spec(all, tags)
            &&& text::ends_with_spec(all, content)
        }),
{
    let head = top + path + (heading + score);
    assert(text::starts_with_spec(head + tags + places + content, top + path)) by {
        text::parts_stand_in_a_text(top + path, heading + score, seq![]);
        stays_at_the_head(head, top + path, tags, places, content);
    }
    assert(text::contains_spec(head + tags + places + content, path + heading + score)) by {
        assert(head =~= top + (path + heading + score) + seq![]);
        text::parts_stand_in_a_text(top, path + heading + score, seq![]);
        stays_within(head, path + heading + score, tags, places, content);
    }
    assert(text::contains_spec(head + tags + places + content, tags)) by {
        text::parts_stand_in_a_text(head, tags, places);
        text::more_behind_a_text_takes_nothing_away(head + tags + places, tags, content);
    }
    assert(text::ends_with_spec(head + tags + places + content, content)) by {
        text::parts_stand_in_a_text(seq![], head + tags + places, content);
    }
}

proof fn stays_at_the_head(
    s: Seq<char>,
    part: Seq<char>,
    a: Seq<char>,
    b: Seq<char>,
    c: Seq<char>,
)
    requires
        text::starts_with_spec(s, part),
    ensures
        text::starts_with_spec(s + a + b + c, part),
{
    text::more_behind_a_text_takes_nothing_away(s, part, a);
    text::more_behind_a_text_takes_nothing_away(s + a, part, b);
    text::more_behind_a_text_takes_nothing_away(s + a + b, part, c);
}

proof fn stays_within(
    s: Seq<char>,
    part: Seq<char>,
    a: Seq<char>,
    b: Seq<char>,
    c: Seq<char>,
)
    requires
        text::contains_spec(s, part),
    ensures
        text::contains_spec(s + a + b + c, part),
{
    text::more_behind_a_text_takes_nothing_away(s, part, a);
    text::more_behind_a_text_takes_nothing_away(s + a, part, b);
    text::more_behind_a_text_takes_nothing_away(s + a + b, part, c);
}

/// A filter is listed exactly where it says something: a text that is there, even an empty one, a
/// list that is not empty, and a number that is there; each with its value, and in this order.
pub proof fn filters_that_say_something_are_listed(f: SearchFilters)
    ensures
        ({
            let one = |given: bool|
                if given {
                    1int
                } else {
                    0int
                };
            let n0 = one(f.category is Some);
            let n1 = n0 + one(f.topic is Some);
            let n2 = n1 + one(f.path_globs@.len() > 0);
            let n3 = n2 + one(f.tags_any@.len() > 0);
            let n4 = n3 + one(f.tags_all@.len() > 0);
            let n5 = n4 + one(f.date_from is Some);
            let n6 = n5 + one(f.date_to is Some);
            let n7 = n6 + one(f.min_confidence_ratio_bits is Some);
            let all = applied_spec(f);
            &&& all.len() == n7
            &&& f.category is Some ==> all[0] == ("category"@, FilterModel::Text {
                value: f.category->0@,
            })
            &&& f.topic is Some ==> all[n0] == ("topic"@, FilterModel::Text { value: f.topic->0@ })
            &&& f.path_globs@.len() > 0 ==> all[n1] == ("path_globs"@, FilterModel::List {
                values: text::views(f.path_globs@),
            })
            &&& f.tags_any@.len() > 0 ==> all[n2] == ("tags_any"@, FilterModel::List {
                values: text::views(f.tags_any@),
            })
            &&& f.tags_all@.len() > 0 ==> all[n3] == ("tags_all"@, FilterModel::List {
                values: text::views(f.tags_all@),
            })
            &&& f.date_from is Some ==> all[n4] == ("date_from"@, FilterModel::Text {
                value: f.date_from->0@,
            })
            &&& f.date_to is Some ==> all[n5] == ("date_to"@, FilterModel::Text {
                value: f.date_to->0@,
            })
            &&& f.min_confidence_ratio_bits is Some ==> all[n6] == (
                "min_confidence_ratio"@,
                FilterModel::Number { bits: f.min_confidence_ratio_bits->0 },
            )
        }),
{
}

} // verus!

//! Markdown: a YAML block at the head, and a chunk for each section.
//!
//! A section starts at a heading of level 2 or 3 and goes on to the next such heading. What
//! stands before the first is a section without a heading. A heading is a line that is marked
//! with number signs; its text is taken as it stands. What looks like a heading inside
//! fenced code is code. A section without text, or with a heading that is to be left out, gives
//! no chunk; one that is short joins the chunk before it.
use vstd::prelude::*;

use super::txt;
use super::{
    Chunk, ChunkModel, DocumentModel, Frontmatter, FrontmatterModel, ParsedDocument, Parser,
    chunk_models, slice_views,
};
use crate::text;

verus! {

// ---------------------------------------------------------------------------
// YAML
// ---------------------------------------------------------------------------
/// What stands under a key of a YAML mapping.
#[derive(Debug, Clone)]
pub enum YamlScalar {
    Text { value: String },
    /// A number, as it is written.
    Number { written: String },
    Flag { set: bool },
    /// Anything else, or nothing.
    Nothing,
}

/// What a [`YamlScalar`] holds.
pub enum YamlModel {
    Text { value: Seq<char> },
    Number { written: Seq<char> },
    Flag { set: bool },
    Nothing,
}

impl View for YamlScalar {
    type V = YamlModel;

    open spec fn view(&self) -> YamlModel {
        match self {
            YamlScalar::Text { value } => YamlModel::Text { value: value@ },
            YamlScalar::Number { written } => YamlModel::Number { written: written@ },
            YamlScalar::Flag { set } => YamlModel::Flag { set: *set },
            YamlScalar::Nothing => YamlModel::Nothing,
        }
    }
}

/// What `serde_yaml_bw` finds under a key of a YAML mapping. Nothing, in a text that is no YAML
/// mapping.
pub uninterp spec fn yaml_scalar_spec(document: Seq<char>, key: Seq<char>) -> YamlModel;

/// `serde_yaml_bw::from_str`, and `Value::get` on its result. What is found depends on the
/// document and the key alone. What texts are YAML, and how a number is written, is not restated
/// here.
#[verifier::external_body]
fn yaml_scalar(document: &str, key: &str) -> (r: YamlScalar)
    ensures
        r@ == yaml_scalar_spec(document@, key@),
{
    let value = serde_yaml_bw::from_str::<serde_yaml_bw::Value>(document).unwrap_or_default();
    match value.get(key) {
        Some(serde_yaml_bw::Value::String(s, _)) => YamlScalar::Text { value: s.clone() },
        Some(serde_yaml_bw::Value::Number(n, _)) => YamlScalar::Number { written: n.to_string() },
        Some(serde_yaml_bw::Value::Bool(b, _)) => YamlScalar::Flag { set: *b },
        _ => YamlScalar::Nothing,
    }
}

/// A scalar as a text: a string as it is, a number as it is written, a truth value by its name.
pub open spec fn scalar_text_spec(v: YamlModel) -> Option<Seq<char>> {
    match v {
        YamlModel::Text { value } => Some(value),
        YamlModel::Number { written } => Some(written),
        YamlModel::Flag { set } => Some(
            if set {
                "true"@
            } else {
                "false"@
            },
        ),
        YamlModel::Nothing => None,
    }
}

/// A scalar as a text.
pub fn scalar_text(v: YamlScalar) -> (r: Option<String>)
    ensures
        text::opt_view(r) == scalar_text_spec(v@),
{
    match v {
        YamlScalar::Text { value } => Some(value),
        YamlScalar::Number { written } => Some(written),
        YamlScalar::Flag { set } => Some(
            text::copy(
                if set {
                    "true"
                } else {
                    "false"
                },
            ),
        ),
        YamlScalar::Nothing => None,
    }
}

/// What `serde_yaml_bw` finds in the list under a key of a YAML mapping: for each element its
/// text, or nothing where it is no string. An empty list for anything else.
pub uninterp spec fn yaml_list_spec(document: Seq<char>, key: Seq<char>) -> Seq<
    Option<Seq<char>>,
>;

/// `serde_yaml_bw::from_str`, `Value::get` and `Value::as_str` on the elements of its result.
/// What is found depends on the document and the key alone.
#[verifier::external_body]
fn yaml_list(document: &str, key: &str) -> (r: Vec<Option<String>>)
    ensures
        r@.map_values(|o: Option<String>| text::opt_view(o)) == yaml_list_spec(document@, key@),
{
    let value = serde_yaml_bw::from_str::<serde_yaml_bw::Value>(document).unwrap_or_default();
    match value.get(key) {
        Some(serde_yaml_bw::Value::Sequence(list)) => {
            list.iter().map(|v| v.as_str().map(str::to_owned)).collect()
        },
        _ => Vec::new(),
    }
}

/// The texts among the elements of a list.
pub open spec fn present(list: Seq<Option<Seq<char>>>) -> Seq<Seq<char>>
    decreases list.len(),
{
    if list.len() == 0 {
        seq![]
    } else {
        match list.last() {
            Some(s) => present(list.drop_last()).push(s),
            None => present(list.drop_last()),
        }
    }
}

/// What a YAML block says of its document.
pub open spec fn yaml_frontmatter(document: Seq<char>) -> FrontmatterModel {
    FrontmatterModel {
        title: scalar_text_spec(yaml_scalar_spec(document, "title"@)),
        date: scalar_text_spec(yaml_scalar_spec(document, "date"@)),
        topic: scalar_text_spec(yaml_scalar_spec(document, "topic"@)),
        depth: scalar_text_spec(yaml_scalar_spec(document, "depth"@)),
        tags: present(yaml_list_spec(document, "tags"@)),
    }
}

/// The texts among the elements of a list, in order.
pub fn present_texts(list: &Vec<Option<String>>) -> (r: Vec<String>)
    ensures
        text::views(r@) == present(list@.map_values(|o: Option<String>| text::opt_view(o))),
{
    let ghost all = list@.map_values(|o: Option<String>| text::opt_view(o));
    let mut out: Vec<String> = Vec::new();
    let mut i: usize = 0;
    assert(text::views(out@) =~= present(all.take(0)));
    while i < list.len()
        invariant
            i <= list@.len(),
            all == list@.map_values(|o: Option<String>| text::opt_view(o)),
            text::views(out@) == present(all.take(i as int)),
        decreases list@.len() - i,
    {
        assert(all.take(i + 1).drop_last() =~= all.take(i as int));
        let ghost before = text::views(out@);
        if let Some(s) = &list[i] {
            out.push(s.clone());
            assert(text::views(out@) =~= before.push(s@));
        }
        i += 1;
    }
    assert(all.take(i as int) =~= all);
    out
}

/// What a YAML block says of its document. A block that is no YAML mapping says nothing.
pub fn parse_frontmatter(document: &str) -> (r: Frontmatter)
    ensures
        r@ == yaml_frontmatter(document@),
{
    let tags = yaml_list(document, "tags");
    Frontmatter {
        title: scalar_text(yaml_scalar(document, "title")),
        date: scalar_text(yaml_scalar(document, "date")),
        topic: scalar_text(yaml_scalar(document, "topic")),
        depth: scalar_text(yaml_scalar(document, "depth")),
        tags: present_texts(&tags),
    }
}

// ---------------------------------------------------------------------------
// The block at the head
// ---------------------------------------------------------------------------
/// Whether a line opens or closes the block at the head.
pub open spec fn is_fence(line: Seq<char>) -> bool {
    text::trim_end_spec(line) == "---"@
}

/// The first place from `i` on at which a line closes the block; the number of lines if none
/// does.
pub open spec fn closing(lines: Seq<Seq<char>>, i: int) -> int
    decreases lines.len() - i,
{
    if i < 0 || i >= lines.len() {
        lines.len() as int
    } else if is_fence(lines[i]) {
        i
    } else {
        closing(lines, i + 1)
    }
}

/// Whether the lines start with a block.
pub open spec fn has_block(lines: Seq<Seq<char>>) -> bool {
    lines.len() > 0 && is_fence(lines[0]) && closing(lines, 1) < lines.len()
}

/// The lines of the block.
pub open spec fn block_lines(lines: Seq<Seq<char>>) -> Seq<Seq<char>> {
    lines.subrange(1, closing(lines, 1))
}

/// The lines behind the block; all lines where there is none.
pub open spec fn body_lines(lines: Seq<Seq<char>>) -> Seq<Seq<char>> {
    if has_block(lines) {
        lines.skip(closing(lines, 1) + 1)
    } else {
        lines
    }
}

// ---------------------------------------------------------------------------
// Sections
// ---------------------------------------------------------------------------
/// A section: its heading with the level, and the lines below it.
pub struct Section {
    pub heading: Option<Seq<char>>,
    pub level: Option<u8>,
    pub lines: Seq<Seq<char>>,
}

/// How many times `c` stands at the head of `s`.
pub open spec fn lead(s: Seq<char>, c: char) -> nat
    decreases s.len(),
{
    if s.len() > 0 && s[0] == c {
        1 + lead(s.skip(1), c)
    } else {
        0
    }
}

/// Whether a character is a space or a tab.
pub open spec fn is_blank(c: char) -> bool {
    c == ' ' || c == '\t'
}

/// A line without the spaces before it.
pub open spec fn outdented(line: Seq<char>) -> Seq<char> {
    line.skip(lead(line, ' ') as int)
}

/// Whether at most three spaces stand before a line: with more it is code.
pub open spec fn barely_indented(line: Seq<char>) -> bool {
    lead(line, ' ') <= 3
}

/// The mark of the code that a line opens, and how often it stands there: three backticks or
/// tildes, or more. Behind backticks no other may follow.
pub open spec fn opened_code(line: Seq<char>) -> Option<(char, nat)> {
    let s = outdented(line);
    if barely_indented(line) && lead(s, '`') >= 3 && !s.skip(lead(s, '`') as int).contains('`') {
        Some(('`', lead(s, '`')))
    } else if barely_indented(line) && lead(s, '~') >= 3 {
        Some(('~', lead(s, '~')))
    } else {
        None
    }
}

/// Whether a line closes code that was opened with `n` marks `c`: as many of them, or more, and
/// nothing else.
pub open spec fn closes_code(line: Seq<char>, c: char, n: nat) -> bool {
    let s = outdented(line);
    let rest = s.skip(lead(s, c) as int);
    &&& barely_indented(line)
    &&& lead(s, c) >= n
    &&& forall|i: int| 0 <= i < rest.len() ==> is_blank(#[trigger] rest[i])
}

/// The mark of the code that is open behind some lines, if there is any. Code that is never
/// closed goes on to the end.
pub open spec fn open_code(lines: Seq<Seq<char>>) -> Option<(char, nat)>
    decreases lines.len(),
{
    if lines.len() == 0 {
        None
    } else {
        match open_code(lines.drop_last()) {
            Some((c, n)) => if closes_code(lines.last(), c, n) {
                None
            } else {
                Some((c, n))
            },
            None => opened_code(lines.last()),
        }
    }
}

/// The level of the heading that a line is, if it is one at which a section starts.
pub open spec fn heading_level(line: Seq<char>) -> Option<u8> {
    let s = outdented(line);
    let n = lead(s, '#');
    if barely_indented(line) && (n == 2 || n == 3) && (s.len() == n || is_blank(s[n as int])) {
        Some(n as u8)
    } else {
        None
    }
}

/// The text of a heading of the given level. Number signs that close it are not part of it.
pub open spec fn heading_text(line: Seq<char>, level: u8) -> Seq<char> {
    let whole = text::trim_spec(outdented(line).skip(level as int));
    let open = text::trim_end_set_spec(whole, seq!['#']);
    if open.len() == 0 || is_blank(open.last()) {
        text::trim_spec(open)
    } else {
        whole
    }
}

/// The level of the heading that the last of some lines is. Code holds no headings.
pub open spec fn section_level(lines: Seq<Seq<char>>) -> Option<u8> {
    if open_code(lines.drop_last()) is Some {
        None
    } else {
        heading_level(lines.last())
    }
}

/// The sections of a text.
pub open spec fn sections(lines: Seq<Seq<char>>) -> Seq<Section>
    decreases lines.len(),
{
    if lines.len() == 0 {
        seq![Section { heading: None, level: None, lines: seq![] }]
    } else {
        let before = sections(lines.drop_last());
        let line = lines.last();
        match section_level(lines) {
            Some(level) => before.push(
                Section {
                    heading: Some(heading_text(line, level)),
                    level: Some(level),
                    lines: seq![],
                },
            ),
            None => before.drop_last().push(
                Section { lines: before.last().lines.push(line), ..before.last() },
            ),
        }
    }
}

/// Whether a section is to be left out: its heading contains one of the texts.
pub open spec fn is_excluded(heading: Option<Seq<char>>, excludes: Seq<Seq<char>>) -> bool {
    heading is Some && exists|i: int|
        0 <= i < excludes.len() && text::contains_spec(heading->0, #[trigger] excludes[i])
}

/// The text of a section.
pub open spec fn section_text(s: Section) -> Seq<char> {
    text::trim_spec(text::join_spec(s.lines, "\n"@))
}

/// A section that takes fewer bytes than this is short.
pub const MERGE_BELOW_BYTES: usize = 50;

/// A chunk with the text of a short section behind its own. It keeps its heading and level.
pub open spec fn extended(chunk: ChunkModel, more: Seq<char>) -> ChunkModel {
    ChunkModel { content: chunk.content + "\n\n"@ + more, ..chunk }
}

/// The chunks of some sections, numbered in order. A short section joins the chunk before it.
pub open spec fn chunks_of(list: Seq<Section>, excludes: Seq<Seq<char>>) -> Seq<ChunkModel>
    decreases list.len(),
{
    if list.len() == 0 {
        seq![]
    } else {
        let before = chunks_of(list.drop_last(), excludes);
        let s = list.last();
        if is_excluded(s.heading, excludes) || section_text(s).len() == 0 {
            before
        } else if before.len() > 0 && text::byte_len(section_text(s)) < MERGE_BELOW_BYTES {
            before.drop_last().push(extended(before.last(), section_text(s)))
        } else {
            before.push(
                ChunkModel {
                    index: before.len(),
                    heading: s.heading,
                    level: s.level,
                    content: section_text(s),
                },
            )
        }
    }
}

/// What Markdown is parsed to.
pub open spec fn md_parsed(raw: Seq<char>, excludes: Seq<Seq<char>>) -> DocumentModel {
    let lines = text::split_spec(txt::normalized(raw), '\n');
    DocumentModel {
        frontmatter: if has_block(lines) {
            yaml_frontmatter(text::join_spec(block_lines(lines), "\n"@))
        } else {
            FrontmatterModel::nothing()
        },
        chunks: chunks_of(sections(body_lines(lines)), excludes),
        raw_content: raw,
    }
}

/// Whether a line opens or closes the block at the head.
fn fence(line: &str) -> (r: bool)
    ensures
        r == is_fence(line@),
{
    let v = text::to_chars(line);
    assert(v@.subrange(0, v@.len() as int) =~= line@);
    let to: usize = text::drop_space(&v, 0, v.len());
    let t = text::from_chars(&v, 0, to);
    *t.as_str() == *"---"
}

/// The place at which the block that the first line opens is closed.
fn find_closing(lines: &Vec<String>) -> (r: usize)
    requires
        lines@.len() >= 1,
    ensures
        r == closing(text::views(lines@), 1),
        1 <= r <= lines@.len(),
{
    let ghost all = text::views(lines@);
    let mut i: usize = 1;
    while i < lines.len()
        invariant
            all == text::views(lines@),
            1 <= i <= lines@.len(),
            closing(all, 1) == closing(all, i as int),
        decreases lines@.len() - i,
    {
        if fence(lines[i].as_str()) {
            assert(is_fence(all[i as int]));
            return i;
        }
        assert(!is_fence(all[i as int]));
        i += 1;
    }
    i
}

/// The lines from `from` up to `to`, with line feeds between them.
fn join_lines(lines: &Vec<String>, from: usize, to: usize) -> (r: String)
    requires
        from <= to <= lines@.len(),
    ensures
        r@ == text::join_spec(text::views(lines@).subrange(from as int, to as int), "\n"@),
{
    let mut part: Vec<String> = Vec::new();
    let ghost all = text::views(lines@);
    let mut i: usize = from;
    while i < to
        invariant
            from <= i <= to <= lines@.len(),
            all == text::views(lines@),
            text::views(part@) == all.subrange(from as int, i as int),
        decreases to - i,
    {
        let ghost before = text::views(part@);
        part.push(lines[i].clone());
        assert(text::views(part@) =~= before.push(all[i as int]));
        assert(text::views(part@) =~= all.subrange(from as int, i + 1));
        i += 1;
    }
    text::join(&part, "\n")
}

/// Where the run of `c` from `from` on ends.
fn run_end(v: &Vec<char>, from: usize, c: char) -> (r: usize)
    requires
        from <= v@.len(),
    ensures
        r == from + lead(v@.skip(from as int), c),
        from <= r <= v@.len(),
{
    let mut i: usize = from;
    while i < v.len() && v[i] == c
        invariant
            from <= i <= v@.len(),
            from + lead(v@.skip(from as int), c) == i + lead(v@.skip(i as int), c),
        decreases v@.len() - i,
    {
        assert(v@.skip(i as int).skip(1) =~= v@.skip(i + 1));
        i += 1;
    }
    i
}

/// Whether `c` stands in `v` from `from` on.
fn holds(v: &Vec<char>, from: usize, c: char) -> (r: bool)
    requires
        from <= v@.len(),
    ensures
        r == v@.skip(from as int).contains(c),
{
    let ghost rest = v@.skip(from as int);
    let mut i: usize = from;
    while i < v.len()
        invariant
            from <= i <= v@.len(),
            rest == v@.skip(from as int),
            forall|j: int| 0 <= j < i - from ==> rest[j] != c,
        decreases v@.len() - i,
    {
        assert(rest[i - from] == v@[i as int]);
        if v[i] == c {
            return true;
        }
        i += 1;
    }
    false
}

/// Whether `v` holds nothing but spaces and tabs from `from` on.
fn blank_from(v: &Vec<char>, from: usize) -> (r: bool)
    requires
        from <= v@.len(),
    ensures
        r == forall|i: int|
            0 <= i < v@.skip(from as int).len() ==> is_blank(#[trigger] v@.skip(from as int)[i]),
{
    let ghost rest = v@.skip(from as int);
    let mut i: usize = from;
    while i < v.len()
        invariant
            from <= i <= v@.len(),
            rest == v@.skip(from as int),
            forall|j: int| 0 <= j < i - from ==> is_blank(#[trigger] rest[j]),
        decreases v@.len() - i,
    {
        assert(rest[i - from] == v@[i as int]);
        if v[i] != ' ' && v[i] != '\t' {
            assert(!is_blank(rest[i - from]));
            return false;
        }
        i += 1;
    }
    true
}

/// The mark of the code that a line opens.
fn code_opened_by(line: &str) -> (r: Option<(char, usize)>)
    ensures
        match r {
            Some((c, n)) => opened_code(line@) == Some((c, n as nat)),
            None => opened_code(line@) is None,
        },
{
    let v = text::to_chars(line);
    assert(v@.skip(0) =~= line@);
    let from: usize = run_end(&v, 0, ' ');
    let ghost s = outdented(line@);
    assert(v@.skip(from as int) =~= s);
    if from > 3 {
        return None;
    }
    let ticks: usize = run_end(&v, from, '`');
    assert(v@.skip(ticks as int) =~= s.skip(ticks - from));
    if ticks - from >= 3 && !holds(&v, ticks, '`') {
        return Some(('`', ticks - from));
    }
    let tildes: usize = run_end(&v, from, '~');
    if tildes - from >= 3 {
        return Some(('~', tildes - from));
    }
    None
}

/// Whether a line closes code.
fn code_closed_by(line: &str, c: char, n: usize) -> (r: bool)
    ensures
        r == closes_code(line@, c, n as nat),
{
    let v = text::to_chars(line);
    assert(v@.skip(0) =~= line@);
    let from: usize = run_end(&v, 0, ' ');
    let ghost s = outdented(line@);
    assert(v@.skip(from as int) =~= s);
    let end: usize = run_end(&v, from, c);
    assert(v@.skip(end as int) =~= s.skip(end - from));
    from <= 3 && end - from >= n && blank_from(&v, end)
}

/// What code is open behind one more line.
fn code_after(code: Option<(char, usize)>, line: &str) -> (r: Option<(char, usize)>)
    ensures
        code_view(r) == match code_view(code) {
            Some((c, n)) => if closes_code(line@, c, n) {
                None
            } else {
                Some((c, n))
            },
            None => opened_code(line@),
        },
{
    match code {
        Some((c, n)) => if code_closed_by(line, c, n) {
            None
        } else {
            Some((c, n))
        },
        None => code_opened_by(line),
    }
}

/// The mark of open code.
pub open spec fn code_view(code: Option<(char, usize)>) -> Option<(char, nat)> {
    match code {
        Some((c, n)) => Some((c, n as nat)),
        None => None,
    }
}

/// The level of the heading that a line is, with its text.
fn heading_of(line: &str) -> (r: Option<(u8, String)>)
    ensures
        match r {
            Some((level, h)) => heading_level(line@) == Some(level) && h@ == heading_text(
                line@,
                level,
            ),
            None => heading_level(line@) is None,
        },
{
    let v = text::to_chars(line);
    assert(v@.skip(0) =~= line@);
    let from: usize = run_end(&v, 0, ' ');
    let ghost s = outdented(line@);
    assert(v@.skip(from as int) =~= s);
    let end: usize = run_end(&v, from, '#');
    let n: usize = end - from;
    if from > 3 || (n != 2 && n != 3) {
        return None;
    }
    if end < v.len() {
        assert(s[n as int] == v@[end as int]);
        if v[end] != ' ' && v[end] != '\t' {
            return None;
        }
    }
    let rest = text::from_chars(&v, end, v.len());
    assert(rest@ =~= s.skip(n as int));
    let whole = text::trim(rest.as_str());
    let mut sign: Vec<char> = Vec::new();
    sign.push('#');
    assert(sign@ =~= seq!['#']);
    let open = text::trim_end_set(whole.as_str(), &sign);
    let o = text::to_chars(open.as_str());
    let level: u8 = n as u8;
    if o.len() == 0 || o[o.len() - 1] == ' ' || o[o.len() - 1] == '\t' {
        return Some((level, text::trim(open.as_str())));
    }
    Some((level, whole))
}

/// Whether a section with this heading is to be left out.
fn excluded(heading: &Option<String>, excludes: &[&str]) -> (r: bool)
    ensures
        r == is_excluded(text::opt_view(*heading), slice_views(excludes@)),
{
    let ghost list = slice_views(excludes@);
    match heading {
        None => false,
        Some(h) => {
            let mut i: usize = 0;
            while i < excludes.len()
                invariant
                    i <= excludes@.len(),
                    list == slice_views(excludes@),
                    text::opt_view(*heading) == Some(h@),
                    forall|j: int| 0 <= j < i ==> !text::contains_spec(h@, #[trigger] list[j]),
                decreases excludes@.len() - i,
            {
                if text::contains(h.as_str(), excludes[i]) {
                    assert(text::contains_spec(h@, list[i as int]));
                    return true;
                }
                assert(list[i as int] == excludes@[i as int]@);
                i += 1;
            }
            false
        },
    }
}

/// Appends the chunk of a section, if it gives one.
fn close_section(
    chunks: &mut Vec<Chunk>,
    heading: Option<String>,
    level: Option<u8>,
    lines: &Vec<String>,
    excludes: &[&str],
    Ghost(done): Ghost<Seq<Section>>,
)
    requires
        chunk_models(old(chunks)@) == chunks_of(done, slice_views(excludes@)),
    ensures
        chunk_models(final(chunks)@) == chunks_of(
            done.push(
                Section {
                    heading: text::opt_view(heading),
                    level,
                    lines: text::views(lines@),
                },
            ),
            slice_views(excludes@),
        ),
{
    let ghost s = Section {
        heading: text::opt_view(heading),
        level,
        lines: text::views(lines@),
    };
    let ghost before = chunk_models(chunks@);
    assert(done.push(s).drop_last() =~= done);
    if excluded(&heading, excludes) {
        return ;
    }
    let joined = text::join(lines, "\n");
    let content = text::trim(joined.as_str());
    if content.as_str().is_empty() {
        return ;
    }
    if chunks.len() > 0 && text::is_shorter_than(content.as_str(), MERGE_BELOW_BYTES) {
        if let Some(last) = chunks.pop() {
            assert(chunk_models(chunks@) =~= before.drop_last());
            let mut longer = last.content;
            longer.append("\n\n");
            longer.append(content.as_str());
            let chunk = Chunk {
                index: last.index,
                heading: last.heading,
                level: last.level,
                content: longer,
            };
            assert(chunk@ == extended(before.last(), content@));
            chunks.push(chunk);
            assert(chunk_models(chunks@) =~= before.drop_last().push(chunk@));
        }
        return ;
    }
    let chunk = Chunk { index: chunks.len(), heading, level, content };
    chunks.push(chunk);
    assert(chunk_models(chunks@) =~= before.push(chunk@));
}

/// The chunks of the lines from `from` on.
fn parse_chunks(lines: &Vec<String>, from: usize, excludes: &[&str]) -> (r: Vec<Chunk>)
    requires
        from <= lines@.len(),
    ensures
        chunk_models(r@) == chunks_of(
            sections(text::views(lines@).skip(from as int)),
            slice_views(excludes@),
        ),
{
    let ghost body = text::views(lines@).skip(from as int);
    let ghost list = slice_views(excludes@);
    let mut chunks: Vec<Chunk> = Vec::new();
    let mut heading: Option<String> = None;
    let mut level: Option<u8> = None;
    let mut cur: Vec<String> = Vec::new();
    let ghost mut done: Seq<Section> = seq![];
    let mut code: Option<(char, usize)> = None;
    let mut i: usize = from;
    assert(chunk_models(chunks@) =~= chunks_of(done, list));
    assert(text::views(cur@) =~= seq![]);
    assert(sections(body.take(0)) =~= done.push(
        Section { heading: None, level: None, lines: seq![] },
    ));
    while i < lines.len()
        invariant
            from <= i <= lines@.len(),
            body == text::views(lines@).skip(from as int),
            list == slice_views(excludes@),
            chunk_models(chunks@) == chunks_of(done, list),
            code_view(code) == open_code(body.take(i - from)),
            sections(body.take(i - from)) == done.push(
                Section {
                    heading: text::opt_view(heading),
                    level,
                    lines: text::views(cur@),
                },
            ),
        decreases lines@.len() - i,
    {
        let ghost at = i - from;
        let ghost open = Section {
            heading: text::opt_view(heading),
            level,
            lines: text::views(cur@),
        };
        assert(body.take(at + 1).drop_last() =~= body.take(at));
        assert(body.take(at + 1).last() == lines@[i as int]@);
        let found = if code.is_some() {
            None
        } else {
            heading_of(lines[i].as_str())
        };
        code = code_after(code, lines[i].as_str());
        match found {
            Some((n, h)) => {
                close_section(&mut chunks, heading, level, &cur, excludes, Ghost(done));
                proof {
                    done = done.push(open);
                }
                heading = Some(h);
                level = Some(n);
                cur = Vec::new();
                assert(text::views(cur@) =~= seq![]);
            },
            None => {
                let ghost before = text::views(cur@);
                cur.push(lines[i].clone());
                assert(text::views(cur@) =~= before.push(lines@[i as int]@));
                assert(done.push(open).drop_last() =~= done);
            },
        }
        i += 1;
    }
    assert(body.take(i - from) =~= body);
    close_section(&mut chunks, heading, level, &cur, excludes, Ghost(done));
    chunks
}

/// The parser for Markdown.
#[derive(Debug, Clone, Copy)]
pub struct MarkdownParser;

impl Parser for MarkdownParser {
    open spec fn format(&self) -> Seq<char> {
        "md"@
    }

    open spec fn parsed(
        &self,
        raw: Seq<char>,
        path_hint: Seq<char>,
        exclude_headings: Seq<Seq<char>>,
    ) -> DocumentModel {
        md_parsed(raw, exclude_headings)
    }

    fn extension(&self) -> (r: &'static str) {
        "md"
    }

    fn parse(&self, raw: &str, path_hint: &str, exclude_headings: &[&str]) -> (r: ParsedDocument) {
        let body = txt::normalize_text(raw);
        let lines = text::split(body.as_str(), '\n');
        let ghost all = text::views(lines@);
        proof {
            text::split_is_not_empty(body@, '\n');
        }
        let end: usize = find_closing(&lines);
        assert(all[0] == lines@[0]@);
        if fence(lines[0].as_str()) && end < lines.len() {
            let document = join_lines(&lines, 1, end);
            let frontmatter = parse_frontmatter(document.as_str());
            let chunks = parse_chunks(&lines, end + 1, exclude_headings);
            ParsedDocument { frontmatter, chunks, raw_content: text::copy(raw) }
        } else {
            let frontmatter = Frontmatter::default();
            let chunks = parse_chunks(&lines, 0, exclude_headings);
            assert(all.skip(0) =~= all);
            ParsedDocument { frontmatter, chunks, raw_content: text::copy(raw) }
        }
    }
}

// ---------------------------------------------------------------------------
// Laws
// ---------------------------------------------------------------------------
/// `c`, `n` times.
pub open spec fn repeated(c: char, n: nat) -> Seq<char> {
    Seq::new(n, |i: int| c)
}

proof fn lead_splits(s: Seq<char>, c: char)
    ensures
        lead(s, c) <= s.len(),
        s == repeated(c, lead(s, c)) + s.skip(lead(s, c) as int),
        lead(s, c) < s.len() ==> s[lead(s, c) as int] != c,
        forall|i: int| 0 <= i < lead(s, c) ==> #[trigger] s[i] == c,
    decreases s.len(),
{
    if s.len() > 0 && s[0] == c {
        let rest = s.skip(1);
        lead_splits(rest, c);
        assert forall|i: int| 0 <= i < lead(s, c) implies #[trigger] s[i] == c by {
            if i > 0 {
                assert(rest[i - 1] == s[i]);
            }
        }
        if lead(s, c) < s.len() {
            assert(rest[lead(rest, c) as int] == s[lead(s, c) as int]);
        }
    }
    assert(s =~= repeated(c, lead(s, c)) + s.skip(lead(s, c) as int));
}

proof fn lead_of(c: char, n: nat, rest: Seq<char>)
    requires
        rest.len() > 0 ==> rest[0] != c,
    ensures
        lead(repeated(c, n) + rest, c) == n,
        (repeated(c, n) + rest).skip(n as int) == rest,
    decreases n,
{
    let s = repeated(c, n) + rest;
    if n > 0 {
        assert(s[0] == c);
        assert(s.skip(1) =~= repeated(c, (n - 1) as nat) + rest);
        lead_of(c, (n - 1) as nat, rest);
    }
    assert(s.skip(n as int) =~= rest);
}

/// Whether a line is `n` times `c` behind at most three spaces, and then `rest`.
pub open spec fn is_marked(line: Seq<char>, c: char, n: nat, rest: Seq<char>) -> bool {
    exists|indent: nat|
        indent <= 3 && line == #[trigger] repeated(' ', indent) + repeated(c, n) + rest
}

proof fn marked_lines(line: Seq<char>, c: char, n: nat, rest: Seq<char>)
    requires
        c != ' ',
        n > 0,
        rest.len() > 0 ==> rest[0] != c,
    ensures
        is_marked(line, c, n, rest) <==> barely_indented(line) && lead(outdented(line), c) == n
            && outdented(line).skip(n as int) == rest,
{
    if is_marked(line, c, n, rest) {
        let indent = choose|indent: nat|
            indent <= 3 && line == #[trigger] repeated(' ', indent) + repeated(c, n) + rest;
        let tail = repeated(c, n) + rest;
        assert(tail[0] == c);
        assert(line =~= repeated(' ', indent) + tail);
        lead_of(' ', indent, tail);
        lead_of(c, n, rest);
    }
    if barely_indented(line) && lead(outdented(line), c) == n && outdented(line).skip(n as int)
        == rest {
        lead_splits(line, ' ');
        lead_splits(outdented(line), c);
        assert(line =~= repeated(' ', lead(line, ' ')) + repeated(c, n) + rest);
    }
}

/// A line is a heading at which a section starts exactly where two or three number signs stand at
/// its head, behind at most three spaces, and nothing, a space or a tab behind them. The level is
/// how many there are.
pub proof fn a_heading_is_marked_with_number_signs(line: Seq<char>, n: u8)
    ensures
        heading_level(line) == Some(n) <==> (n == 2 || n == 3) && exists|rest: Seq<char>|
            #[trigger] is_marked(line, '#', n as nat, rest) && (rest.len() == 0 || rest[0] == ' '
                || rest[0] == '\t'),
        heading_level(line) matches Some(level) ==> level == 2 || level == 3,
{
    let s = outdented(line);
    let m = lead(s, '#');
    lead_splits(s, '#');
    if heading_level(line) == Some(n) {
        let rest = s.skip(m as int);
        assert(rest.len() > 0 ==> rest[0] == s[m as int]);
        marked_lines(line, '#', m, rest);
        assert(is_marked(line, '#', n as nat, rest));
    }
    if (n == 2 || n == 3) && exists|rest: Seq<char>|
        #[trigger] is_marked(line, '#', n as nat, rest) && (rest.len() == 0 || rest[0] == ' '
            || rest[0] == '\t') {
        let rest = choose|rest: Seq<char>|
            #[trigger] is_marked(line, '#', n as nat, rest) && (rest.len() == 0 || rest[0] == ' '
                || rest[0] == '\t');
        marked_lines(line, '#', n as nat, rest);
        assert(rest.len() > 0 ==> rest[0] == s[m as int]);
    }
}

/// The text of a heading is what stands behind its signs, without the white space around it: as
/// it is, where it does not end with a number sign, and without what closes it, where number
/// signs stand at its end behind a space.
pub proof fn a_heading_has_its_own_text(
    indent: nat,
    level: u8,
    title: Seq<char>,
    closing_signs: nat,
)
    requires
        indent <= 3,
        level == 2 || level == 3,
        title.len() > 0,
        !text::whitespace_spec(title[0]),
        !text::whitespace_spec(title.last()),
        title.last() != '#',
    ensures
        ({
            let head = repeated(' ', indent) + repeated('#', level as nat) + seq![' '];
            let plain = head + title;
            let closed = head + title + seq![' '] + repeated('#', closing_signs);
            &&& heading_level(plain) == Some(level)
            &&& heading_text(plain, level) == title
            &&& heading_level(closed) == Some(level)
            &&& heading_text(closed, level) == title
        }),
{
    let head = repeated(' ', indent) + repeated('#', level as nat) + seq![' '];
    let tail = seq![' '] + repeated('#', closing_signs);
    heading_line(indent, level, seq![' '] + title);
    assert(head + title =~= repeated(' ', indent) + repeated('#', level as nat) + (seq![' ']
        + title));
    text::trimming_takes_white_space_off(seq![' '], title, seq![]);
    assert(seq![' '] + title + seq![] =~= seq![' '] + title);
    no_signs_at_the_end(title, 0);
    assert(title + repeated('#', 0) =~= title);
    heading_line(indent, level, seq![' '] + title + tail);
    assert(head + title + seq![' '] + repeated('#', closing_signs) =~= repeated(' ', indent)
        + repeated('#', level as nat) + (seq![' '] + title + tail));
    if closing_signs == 0 {
        text::trimming_takes_white_space_off(seq![' '], title, seq![' ']);
        assert(seq![' '] + title + tail =~= seq![' '] + title + seq![' ']);
    } else {
        let whole = title + tail;
        text::trimming_takes_white_space_off(seq![' '], whole, seq![]);
        assert(seq![' '] + whole + seq![] =~= seq![' '] + title + tail);
        assert(whole.last() == '#');
        assert(whole =~= (title + seq![' ']) + repeated('#', closing_signs));
        no_signs_at_the_end(title + seq![' '], closing_signs);
        text::trimming_takes_white_space_off(seq![], title, seq![' ']);
        assert(seq![] + title + seq![' '] =~= title + seq![' ']);
    }
}

proof fn heading_line(indent: nat, level: u8, rest: Seq<char>)
    requires
        indent <= 3,
        level == 2 || level == 3,
        rest.len() > 0,
        rest[0] == ' ',
    ensures
        ({
            let line = repeated(' ', indent) + repeated('#', level as nat) + rest;
            &&& heading_level(line) == Some(level)
            &&& outdented(line).skip(level as int) == rest
        }),
{
    let line = repeated(' ', indent) + repeated('#', level as nat) + rest;
    assert(is_marked(line, '#', level as nat, rest));
    a_heading_is_marked_with_number_signs(line, level);
    marked_lines(line, '#', level as nat, rest);
}

proof fn no_signs_at_the_end(s: Seq<char>, n: nat)
    requires
        s.len() > 0,
        s.last() != '#',
    ensures
        text::trim_end_set_spec(s + repeated('#', n), seq!['#']) == s,
    decreases n,
{
    let set = seq!['#'];
    let all = s + repeated('#', n);
    if n == 0 {
        assert(all =~= s);
        assert(!set.contains(s.last())) by {
            assert(set.len() == 1);
        }
    } else {
        assert(all.last() == '#');
        assert(set[0] == '#');
        assert(set.contains('#'));
        assert(all.drop_last() =~= s + repeated('#', (n - 1) as nat));
        no_signs_at_the_end(s, (n - 1) as nat);
    }
}

/// Code opens at a line of three or more backticks or tildes behind at most three spaces, with no
/// further backtick behind backticks; it closes at one of as many of the same mark, or more, with
/// nothing but spaces and tabs behind them; in between every line is code, whatever it looks like.
pub proof fn code_goes_from_fence_to_fence(lines: Seq<Seq<char>>, line: Seq<char>)
    ensures
        open_code(seq![]) is None,
        open_code(lines) is None ==> {
            match open_code(lines.push(line)) {
                Some((c, n)) => (c == '`' || c == '~') && n >= 3 && exists|rest: Seq<char>|
                    #[trigger] is_marked(line, c, n, rest) && (rest.len() > 0 ==> rest[0] != c)
                        && (c == '`' ==> !rest.contains('`')),
                None => forall|c: char, n: nat, rest: Seq<char>|
                    (c == '`' || c == '~') && n >= 3 && (rest.len() > 0 ==> rest[0] != c) && (c
                        == '`' ==> !rest.contains('`')) ==> !#[trigger] is_marked(line, c, n, rest),
            }
        },
        open_code(lines) matches Some((c, n)) ==> {
            match open_code(lines.push(line)) {
                Some(still) => still == (c, n) && forall|m: nat, rest: Seq<char>|
                    m >= n && m > 0 && c != ' ' && (rest.len() > 0 ==> rest[0] != c) && (
                    forall|i: int| 0 <= i < rest.len() ==> is_blank(#[trigger] rest[i]))
                        ==> !#[trigger] is_marked(line, c, m, rest),
                None => n > 0 && c != ' ' ==> exists|m: nat, rest: Seq<char>|
                    m >= n && (forall|i: int|
                        0 <= i < rest.len() ==> #[trigger] rest[i] == ' ' || rest[i] == '\t')
                        && #[trigger] is_marked(line, c, m, rest),
            }
        },
{
    assert(lines.push(line).drop_last() =~= lines);
    let s = outdented(line);
    match open_code(lines) {
        None => {
            lead_splits(s, '`');
            lead_splits(s, '~');
            match open_code(lines.push(line)) {
                Some((c, n)) => {
                    let rest = s.skip(n as int);
                    marked_lines(line, c, n, rest);
                    assert(is_marked(line, c, n, rest));
                },
                None => {
                    assert forall|c: char, n: nat, rest: Seq<char>|
                        (c == '`' || c == '~') && n >= 3 && (rest.len() > 0 ==> rest[0] != c) && (c
                            == '`' ==> !rest.contains('`')) implies !#[trigger] is_marked(
                        line,
                        c,
                        n,
                        rest,
                    ) by {
                        marked_lines(line, c, n, rest);
                    }
                },
            }
        },
        Some((c, n)) => {
            lead_splits(s, c);
            match open_code(lines.push(line)) {
                Some(_) => {
                    assert forall|m: nat, rest: Seq<char>|
                        m >= n && m > 0 && c != ' ' && (rest.len() > 0 ==> rest[0] != c) && (
                        forall|i: int|
                            0 <= i < rest.len() ==> is_blank(#[trigger] rest[i])) implies !#[trigger] is_marked(
                        line,
                        c,
                        m,
                        rest,
                    ) by {
                        marked_lines(line, c, m, rest);
                    }
                },
                None => {
                    let m = lead(s, c);
                    let rest = s.skip(m as int);
                    if n > 0 && c != ' ' {
                        marked_lines(line, c, m, rest);
                        assert forall|i: int| 0 <= i < rest.len() implies #[trigger] rest[i] == ' '
                            || rest[i] == '\t' by {
                            assert(is_blank(rest[i]));
                        }
                        assert(is_marked(line, c, m, rest));
                    }
                },
            }
        },
    }
}

/// A text is cut at its headings: a line that is one, outside of code, starts a section with its
/// level and text and no lines yet; any other goes to the section that is open. Before the first
/// there is one without a heading.
pub proof fn a_text_is_cut_at_its_headings(lines: Seq<Seq<char>>, line: Seq<char>)
    ensures
        sections(seq![]).len() == 1,
        sections(seq![])[0].heading is None && sections(seq![])[0].level is None && sections(
            seq![],
        )[0].lines.len() == 0,
        ({
            let before = sections(lines);
            let after = sections(lines.push(line));
            &&& before.len() >= 1
            &&& if open_code(lines) is None && heading_level(line) is Some {
                &&& after.len() == before.len() + 1
                &&& after.drop_last() == before
                &&& after.last().level == heading_level(line)
                &&& after.last().heading == Some(heading_text(line, heading_level(line)->0))
                &&& after.last().lines.len() == 0
            } else {
                &&& after.len() == before.len()
                &&& after.drop_last() == before.drop_last()
                &&& after.last().heading == before.last().heading
                &&& after.last().level == before.last().level
                &&& after.last().lines == before.last().lines.push(line)
            }
        }),
{
    a_text_has_a_section(lines);
    let all = lines.push(line);
    assert(all.drop_last() =~= lines);
    let before = sections(lines);
    let after = sections(all);
    if section_level(all) is Some {
        assert(after.drop_last() =~= before);
    } else {
        assert(after.drop_last() =~= before.drop_last());
    }
}

/// One more section leaves the chunks as they are where an excluded text occurs anywhere in its
/// heading, or where it has no text. Where it takes fewer than fifty bytes it goes to the end of
/// the last chunk, if there is one. Else it becomes a chunk of its own, with its heading, its
/// level and its text.
pub proof fn a_section_becomes_a_chunk(
    list: Seq<Section>,
    s: Section,
    excludes: Seq<Seq<char>>,
)
    ensures
        chunks_of(seq![], excludes).len() == 0,
        ({
            let before = chunks_of(list, excludes);
            let after = chunks_of(list.push(s), excludes);
            let body = text::trim_spec(text::join_spec(s.lines, "\n"@));
            let out = s.heading matches Some(h) && exists|e: int, at: int|
                0 <= e < excludes.len() && 0 <= at && at + excludes[e].len() <= h.len()
                    && #[trigger] h.subrange(at, at + excludes[e].len()) == excludes[e];
            if out || body.len() == 0 {
                after == before
            } else if before.len() > 0 && text::byte_len(body) < 50 {
                &&& after.len() == before.len()
                &&& after.drop_last() == before.drop_last()
                &&& after.last().content == before.last().content + "\n\n"@ + body
                &&& after.last().heading == before.last().heading
                &&& after.last().level == before.last().level
                &&& after.last().index == before.last().index
            } else {
                &&& after.len() == before.len() + 1
                &&& after.drop_last() == before
                &&& after.last().content == body
                &&& after.last().heading == s.heading
                &&& after.last().level == s.level
                &&& after.last().index == before.len()
            }
        }),
{
    let all = list.push(s);
    assert(all.drop_last() =~= list);
    exclusion_goes_by_what_occurs(s.heading, excludes);
    let before = chunks_of(list, excludes);
    let after = chunks_of(all, excludes);
    if after.len() == before.len() + 1 {
        assert(after.drop_last() =~= before);
    } else if after.len() > 0 {
        assert(after.drop_last() =~= before.drop_last());
    }
}

proof fn exclusion_goes_by_what_occurs(heading: Option<Seq<char>>, excludes: Seq<Seq<char>>)
    ensures
        is_excluded(heading, excludes) <==> (heading matches Some(h) && exists|e: int, at: int|
            0 <= e < excludes.len() && 0 <= at && at + excludes[e].len() <= h.len()
                && #[trigger] h.subrange(at, at + excludes[e].len()) == excludes[e]),
{
    if let Some(h) = heading {
        if is_excluded(heading, excludes) {
            let e = choose|e: int|
                0 <= e < excludes.len() && text::contains_spec(h, #[trigger] excludes[e]);
            let at = choose|at: int| text::occurs_at(h, excludes[e], at);
            assert(h.subrange(at, at + excludes[e].len()) == excludes[e]);
        }
        if exists|e: int, at: int|
            0 <= e < excludes.len() && 0 <= at && at + excludes[e].len() <= h.len()
                && #[trigger] h.subrange(at, at + excludes[e].len()) == excludes[e] {
            let (e, at) = choose|e: int, at: int|
                0 <= e < excludes.len() && 0 <= at && at + excludes[e].len() <= h.len()
                    && #[trigger] h.subrange(at, at + excludes[e].len()) == excludes[e];
            assert(text::occurs_at(h, excludes[e], at));
            assert(text::contains_spec(h, excludes[e]));
        }
    }
}

/// No chunk of a document stands under a heading in which an excluded text occurs, anywhere.
pub proof fn no_chunk_has_an_excluded_heading(
    raw: Seq<char>,
    excludes: Seq<Seq<char>>,
    i: int,
    e: int,
    at: int,
)
    requires
        0 <= i < md_parsed(raw, excludes).chunks.len(),
        0 <= e < excludes.len(),
    ensures
        md_parsed(raw, excludes).chunks[i].heading matches Some(h) ==> !(0 <= at && at
            + excludes[e].len() <= h.len() && h.subrange(at, at + excludes[e].len())
            == excludes[e]),
{
    let list = sections(body_lines(text::split_spec(txt::normalized(raw), '\n')));
    chunks_are_numbered_and_kept(list, excludes, i);
    let heading = chunks_of(list, excludes)[i].heading;
    exclusion_goes_by_what_occurs(heading, excludes);
}

/// A line closes or opens the block at the head exactly where it is three dashes, with nothing
/// but white space behind them.
pub proof fn three_dashes_are_a_fence(line: Seq<char>)
    ensures
        is_fence(line) <==> exists|space: Seq<char>|
            line == #[trigger] ("---"@ + space) && forall|i: int|
                0 <= i < space.len() ==> text::whitespace_spec(#[trigger] space[i]),
{
    reveal_strlit("---");
    if is_fence(line) {
        let space = text::trimmed_end_is_white_space(line);
        assert(line == "---"@ + space);
    }
    if exists|space: Seq<char>|
        line == #[trigger] ("---"@ + space) && forall|i: int|
            0 <= i < space.len() ==> text::whitespace_spec(#[trigger] space[i]) {
        let space = choose|space: Seq<char>|
            line == #[trigger] ("---"@ + space) && forall|i: int|
                0 <= i < space.len() ==> text::whitespace_spec(#[trigger] space[i]);
        text::trim_end_takes_white_space_off("---"@, space);
    }
}

/// A document whose first line is a fence, and has another behind it, says of itself what stands
/// between the first and the next one; its chunks are of what comes behind that. Any other says
/// nothing of itself, and is text from its first line on. The text is kept as it came.
pub proof fn a_document_is_its_block_and_its_body(
    raw: Seq<char>,
    excludes: Seq<Seq<char>>,
    j: int,
)
    ensures
        ({
            let lines = text::split_spec(txt::normalized(raw), '\n');
            let doc = md_parsed(raw, excludes);
            &&& doc.raw_content == raw
            &&& is_fence(lines[0]) && 0 < j < lines.len() && is_fence(lines[j]) && (forall|h: int|
                0 < h < j ==> !is_fence(#[trigger] lines[h])) ==> {
                let block = text::join_spec(lines.subrange(1, j), "\n"@);
                &&& doc.chunks == chunks_of(sections(lines.skip(j + 1)), excludes)
                &&& doc.frontmatter.title == scalar_text_spec(yaml_scalar_spec(block, "title"@))
                &&& doc.frontmatter.date == scalar_text_spec(yaml_scalar_spec(block, "date"@))
                &&& doc.frontmatter.topic == scalar_text_spec(yaml_scalar_spec(block, "topic"@))
                &&& doc.frontmatter.depth == scalar_text_spec(yaml_scalar_spec(block, "depth"@))
                &&& doc.frontmatter.tags == yaml_list_spec(block, "tags"@).filter(
                    |o: Option<Seq<char>>| o is Some,
                ).map_values(|o: Option<Seq<char>>| o->0)
            }
            &&& (!is_fence(lines[0]) || forall|h: int|
                0 < h < lines.len() ==> !is_fence(#[trigger] lines[h])) ==> {
                &&& doc.chunks == chunks_of(sections(lines), excludes)
                &&& doc.frontmatter.title is None && doc.frontmatter.date is None
                &&& doc.frontmatter.topic is None && doc.frontmatter.depth is None
                &&& doc.frontmatter.tags.len() == 0
            }
        }),
{
    let lines = text::split_spec(txt::normalized(raw), '\n');
    text::split_is_not_empty(txt::normalized(raw), '\n');
    if is_fence(lines[0]) && 0 < j < lines.len() && is_fence(lines[j]) && (forall|h: int|
        0 < h < j ==> !is_fence(#[trigger] lines[h])) {
        closing_is_first(lines, 1, j);
        texts_of_a_list(yaml_list_spec(text::join_spec(lines.subrange(1, j), "\n"@), "tags"@));
    }
    if forall|h: int| 0 < h < lines.len() ==> !is_fence(#[trigger] lines[h]) {
        never_closed(lines, 1);
    }
}

proof fn closing_is_first(lines: Seq<Seq<char>>, i: int, j: int)
    requires
        0 <= i <= j < lines.len(),
        is_fence(lines[j]),
        forall|h: int| i <= h < j ==> !is_fence(#[trigger] lines[h]),
    ensures
        closing(lines, i) == j,
    decreases j - i,
{
    if i < j {
        assert(!is_fence(lines[i]));
        closing_is_first(lines, i + 1, j);
    }
}

proof fn never_closed(lines: Seq<Seq<char>>, i: int)
    requires
        0 <= i,
        forall|h: int| i <= h < lines.len() ==> !is_fence(#[trigger] lines[h]),
    ensures
        closing(lines, i) == lines.len(),
    decreases lines.len() - i,
{
    if i < lines.len() {
        assert(!is_fence(lines[i]));
        never_closed(lines, i + 1);
    }
}

proof fn texts_of_a_list(list: Seq<Option<Seq<char>>>)
    ensures
        present(list) == list.filter(|o: Option<Seq<char>>| o is Some).map_values(
            |o: Option<Seq<char>>| o->0,
        ),
    decreases list.len(),
{
    reveal(Seq::filter);
    let some = |o: Option<Seq<char>>| o is Some;
    let inner = |o: Option<Seq<char>>| o->0;
    if list.len() > 0 {
        texts_of_a_list(list.drop_last());
    }
    assert(present(list) =~= list.filter(some).map_values(inner));
}

/// A scalar is taken as the text it is written as.
pub proof fn a_scalar_is_taken_as_written(value: Seq<char>, set: bool)
    ensures
        scalar_text_spec(YamlModel::Text { value }) == Some(value),
        scalar_text_spec(YamlModel::Number { written: value }) == Some(value),
        scalar_text_spec(YamlModel::Flag { set: true }) == Some("true"@),
        scalar_text_spec(YamlModel::Flag { set: false }) == Some("false"@),
        scalar_text_spec(YamlModel::Nothing) is None,
{
}

/// Chunks are numbered by their place, none is blank, and none stands under a heading that is
/// to be left out.
pub proof fn chunks_are_numbered_and_kept(list: Seq<Section>, excludes: Seq<Seq<char>>, i: int)
    requires
        0 <= i < chunks_of(list, excludes).len(),
    ensures
        chunks_of(list, excludes)[i].index == i,
        chunks_of(list, excludes)[i].content.len() > 0,
        !is_excluded(chunks_of(list, excludes)[i].heading, excludes),
    decreases list.len(),
{
    let before = chunks_of(list.drop_last(), excludes);
    if i < before.len() {
        chunks_are_numbered_and_kept(list.drop_last(), excludes, i);
    }
}

/// Behind the first chunk each starts with a section that is long enough to stand alone.
pub proof fn short_sections_do_not_stand_alone(
    list: Seq<Section>,
    excludes: Seq<Seq<char>>,
    i: int,
)
    requires
        1 <= i < chunks_of(list, excludes).len(),
    ensures
        text::byte_len(chunks_of(list, excludes)[i].content) >= MERGE_BELOW_BYTES,
    decreases list.len(),
{
    let before = chunks_of(list.drop_last(), excludes);
    let s = list.last();
    if i < before.len() {
        short_sections_do_not_stand_alone(list.drop_last(), excludes, i);
        if chunks_of(list, excludes)[i] != before[i] {
            text::byte_len_of_both(before[i].content + "\n\n"@, section_text(s));
            text::byte_len_of_both(before[i].content, "\n\n"@);
        }
    }
}

/// No section starts inside fenced code.
pub proof fn code_starts_no_section(lines: Seq<Seq<char>>)
    requires
        lines.len() > 0,
        open_code(lines.drop_last()) is Some,
    ensures
        sections(lines).len() == sections(lines.drop_last()).len(),
{
    a_text_has_a_section(lines.drop_last());
}

proof fn a_text_has_a_section(lines: Seq<Seq<char>>)
    ensures
        sections(lines).len() >= 1,
    decreases lines.len(),
{
    if lines.len() > 0 {
        a_text_has_a_section(lines.drop_last());
    }
}

/// A block says of its document what stands under the keys of these names: a text as it is, a
/// number as it is written, a truth value by its name, and nothing for anything else. Of the tags
/// those that are texts count.
pub proof fn a_block_is_read_by_its_keys(document: Seq<char>)
    ensures
        ({
            let fm = yaml_frontmatter(document);
            let said = |v: YamlModel, o: Option<Seq<char>>|
                match v {
                    YamlModel::Text { value } => o == Some(value),
                    YamlModel::Number { written } => o == Some(written),
                    YamlModel::Flag { set } => o == Some(
                        if set {
                            "true"@
                        } else {
                            "false"@
                        },
                    ),
                    YamlModel::Nothing => o is None,
                };
            &&& said(yaml_scalar_spec(document, "title"@), fm.title)
            &&& said(yaml_scalar_spec(document, "date"@), fm.date)
            &&& said(yaml_scalar_spec(document, "topic"@), fm.topic)
            &&& said(yaml_scalar_spec(document, "depth"@), fm.depth)
            &&& fm.tags == yaml_list_spec(document, "tags"@).filter(
                |o: Option<Seq<char>>| o is Some,
            ).map_values(|o: Option<Seq<char>>| o->0)
        }),
{
    texts_are_kept_in_order(yaml_list_spec(document, "tags"@));
}

proof fn texts_are_kept_in_order(list: Seq<Option<Seq<char>>>)
    ensures
        present(list) == list.filter(|o: Option<Seq<char>>| o is Some).map_values(
            |o: Option<Seq<char>>| o->0,
        ),
    decreases list.len(),
{
    reveal(Seq::filter);
    let there = |o: Option<Seq<char>>| o is Some;
    let text = |o: Option<Seq<char>>| o->0;
    if list.len() > 0 {
        texts_are_kept_in_order(list.drop_last());
        let before = list.drop_last().filter(there);
        if list.last() is Some {
            assert(list.filter(there) == before.push(list.last()));
            assert(before.push(list.last()).map_values(text) =~= before.map_values(text).push(
                list.last()->0,
            ));
        } else {
            assert(list.filter(there) == before);
        }
    } else {
        assert(list.filter(there).map_values(text) =~= seq![]);
        assert(present(list) =~= seq![]);
    }
}

} // verus!

//! The configuration file of a service.
//!
//! A file that is there already keeps everything that its owner wrote, but for the two settings
//! that the installation is about.
use vstd::prelude::*;

use crate::text;

verus! {

// ---------------------------------------------------------------------------
// TOML documents
// ---------------------------------------------------------------------------
/// `toml_edit::DocumentMut`, opaque here.
#[verifier::external_type_specification]
#[verifier::external_body]
pub struct ExDocumentMut(toml_edit::DocumentMut);

/// What stands under a key of a TOML document.
pub enum TomlItem {
    /// A table that is no inline table.
    Table,
    Text { value: Seq<char> },
    /// An array of tables, as it is written with all that is in it.
    Tables { written: Seq<char> },
    /// Anything else, as it is written, without the white space and the comments around it: a
    /// number, a truth value, a date, an array, an inline table.
    Other { written: Seq<char> },
}

/// A key of a table, with the comments that go with it, one for each line.
pub struct TomlLine {
    pub key: Seq<char>,
    /// The comments above it. Of a table they stand above its header.
    pub above: Seq<Seq<char>>,
    /// The comment behind it on its own line. Of a table it stands behind its header.
    pub behind: Option<Seq<char>>,
}

/// What a document holds.
pub struct TomlModel {
    /// What stands under each key of the root table, and of the tables below it. A key is given
    /// by the keys that lead to it.
    pub items: Map<Seq<Seq<char>>, TomlItem>,
    /// The keys of the root table, and of the tables below it, in the order in which they are
    /// read from the text of the document; those that are not in the text come last. A table is
    /// given by the keys that lead to it.
    pub lines: Map<Seq<Seq<char>>, Seq<TomlLine>>,
    /// The tables that are only implied by what lies below them. Such a table has a header of its
    /// own only once it holds a value.
    pub implied: Set<Seq<Seq<char>>>,
    /// The comments after everything else, one for each line.
    pub trailing: Seq<Seq<char>>,
    /// Whether no table has been put into the document since it was read. The place of such a
    /// table in the text depends on the tables that come before it.
    pub as_read: bool,
}

/// What a `toml_edit::DocumentMut` holds.
pub uninterp spec fn toml_model(doc: toml_edit::DocumentMut) -> TomlModel;

/// What `toml_edit` reads a text as: what the document holds, or why it is no document.
pub uninterp spec fn toml_parsed(text: Seq<char>) -> Result<TomlModel, Seq<char>>;

/// A document that was started empty or read from a text.
#[derive(Debug)]
pub struct TomlFile {
    doc: toml_edit::DocumentMut,
}

impl View for TomlFile {
    type V = TomlModel;

    closed spec fn view(&self) -> TomlModel {
        toml_model(self.doc)
    }
}

/// Whether `key` is `at` or lies below it.
pub open spec fn at_or_below(key: Seq<Seq<char>>, at: Seq<Seq<char>>) -> bool {
    at.len() <= key.len() && key.take(at.len() as int) == at
}

/// `m` with `item` at the key `at`, in place of what stood there and below.
pub open spec fn replaced(
    m: Map<Seq<Seq<char>>, TomlItem>,
    at: Seq<Seq<char>>,
    item: TomlItem,
) -> Map<Seq<Seq<char>>, TomlItem> {
    Map::new(
        |k: Seq<Seq<char>>| k == at || (m.dom().contains(k) && !at_or_below(k, at)),
        |k: Seq<Seq<char>>|
            if k == at {
                item
            } else {
                m[k]
            },
    )
}

/// The values of a document: what it holds but for the tables.
pub open spec fn values(m: Map<Seq<Seq<char>>, TomlItem>) -> Map<Seq<Seq<char>>, TomlItem> {
    Map::new(|k: Seq<Seq<char>>| m.dom().contains(k) && !(m[k] is Table), |k: Seq<Seq<char>>| m[k])
}

/// Some lines but for those of `key`.
pub open spec fn without(lines: Seq<TomlLine>, key: Seq<char>) -> Seq<TomlLine>
    decreases lines.len(),
{
    if lines.len() == 0 {
        lines
    } else if lines.last().key == key {
        without(lines.drop_last(), key)
    } else {
        without(lines.drop_last(), key).push(lines.last())
    }
}

/// Whether some lines are the same but for the comment behind `key`, which is gone.
pub open spec fn same_but_behind(
    before: Seq<TomlLine>,
    after: Seq<TomlLine>,
    key: Seq<char>,
) -> bool {
    &&& after.len() == before.len()
    &&& forall|i: int|
        0 <= i < before.len() ==> #[trigger] after[i] == if before[i].key == key {
            TomlLine { behind: None, ..before[i] }
        } else {
            before[i]
        }
}

/// Whether the keys `t` lead to the root table or to a table below it.
pub open spec fn is_table(items: Map<Seq<Seq<char>>, TomlItem>, t: Seq<Seq<char>>) -> bool {
    t == root() || (items.dom().contains(t) && items[t] is Table)
}

/// Whether something is written below headers of its own.
pub open spec fn is_headed(item: TomlItem) -> bool {
    item is Table || item is Tables
}

/// Whether what stands under a key is written below headers of its own.
pub open spec fn headed_at(m: TomlModel, key: Seq<Seq<char>>) -> bool {
    m.items.dom().contains(key) && is_headed(m.items[key])
}

/// Whether a table holds a value itself, not only in the tables below it.
pub open spec fn holds_value(m: TomlModel, t: Seq<Seq<char>>) -> bool {
    exists|key: Seq<char>|
        m.items.dom().contains(#[trigger] t.push(key)) && !is_headed(m.items[t.push(key)])
}

/// Whether a table is in the text itself, by a header or by a value, so that a further value
/// brings no header.
pub open spec fn is_settled(m: TomlModel, t: Seq<Seq<char>>) -> bool {
    !m.implied.contains(t) || holds_value(m, t)
}

/// Whether putting a text under a key of `table` brings a header, or takes one away.
pub open spec fn headers_change(m: TomlModel, table: Seq<Seq<char>>, key: Seq<char>) -> bool {
    !is_settled(m, table) || headed_at(m, table.push(key))
}

/// Whether what stands under a key has a text of its own: a value, or the header of a table.
pub open spec fn has_text(m: TomlModel, key: Seq<Seq<char>>) -> bool {
    m.items.dom().contains(key) && !(m.items[key] is Table && m.implied.contains(key))
}

/// Whether a key is in the text of a document.
pub open spec fn in_text(m: TomlModel, key: Seq<Seq<char>>) -> bool {
    m.items.dom().contains(key) && exists|b: Seq<Seq<char>>|
        #[trigger] has_text(m, b) && at_or_below(b, key)
}

/// Whether the table `t` has the lines that it should have once a text has been put under a key
/// of `table`. A value that was there keeps its place and the comments above it. What comes new,
/// or takes the place of a table, may come anywhere among the keys; so may a table that leads
/// there and has no header, where the headers below it change. All other lines stay as they are,
/// in their order.
pub open spec fn lines_follow(
    before: TomlModel,
    after: TomlModel,
    table: Seq<Seq<char>>,
    key: Seq<char>,
    t: Seq<Seq<char>>,
) -> bool {
    let at = table.push(key);
    let next = table[t.len() as int];
    if t == table && before.items.dom().contains(at) && !is_headed(before.items[at]) {
        same_but_behind(before.lines[t], after.lines[t], key)
    } else if t == table {
        without(after.lines[t], key) == without(before.lines[t], key)
    } else if at_or_below(table, t) && headers_change(before, table, key)
        && before.implied.contains(t.push(next)) {
        without(after.lines[t], next) == without(before.lines[t], next)
    } else {
        after.lines[t] == before.lines[t]
    }
}

/// Whether a document that held `before` holds `after` once a text has been put under a key of
/// `table`. Nothing else changes. Where a table goes by it, the place of a table that was put in
/// before is left open.
pub open spec fn text_was_set(
    before: TomlModel,
    after: TomlModel,
    table: Seq<Seq<char>>,
    key: Seq<char>,
    value: Seq<char>,
) -> bool {
    let at = table.push(key);
    &&& after.items == replaced(before.items, at, TomlItem::Text { value })
    &&& after.trailing == before.trailing
    &&& after.as_read == before.as_read
    &&& forall|t: Seq<Seq<char>>|
        #[trigger] after.implied.contains(t) <==> before.implied.contains(t) && !at_or_below(t, at)
    &&& before.as_read || !headed_at(before, at) ==> forall|t: Seq<Seq<char>>|
        is_table(before.items, t) && !at_or_below(t, at) ==> #[trigger] lines_follow(
            before,
            after,
            table,
            key,
            t,
        )
}

/// Whether the table `t` has the lines that it should have once a table has been put under a key
/// of `table`. The new key may come anywhere among the keys; so may a table that is in the text
/// by it only. All other lines stay as they are, in their order.
pub open spec fn lines_join(
    before: TomlModel,
    after: TomlModel,
    table: Seq<Seq<char>>,
    key: Seq<char>,
    t: Seq<Seq<char>>,
) -> bool {
    let next = table[t.len() as int];
    if t == table {
        without(after.lines[t], key) == without(before.lines[t], key)
    } else if at_or_below(table, t) && before.implied.contains(t.push(next)) && !in_text(
        before,
        t.push(next),
    ) {
        without(after.lines[t], next) == without(before.lines[t], next)
    } else {
        after.lines[t] == before.lines[t]
    }
}

/// Whether a document that held `before` holds `after` once there is a table under a key of
/// `table`: an empty one, if nothing stood there.
pub open spec fn table_was_ensured(
    before: TomlModel,
    after: TomlModel,
    table: Seq<Seq<char>>,
    key: Seq<char>,
    implicit: bool,
) -> bool {
    let at = table.push(key);
    if before.items.dom().contains(at) {
        after == before
    } else {
        &&& after.items == before.items.insert(at, TomlItem::Table)
        &&& after.implied == if implicit {
            before.implied.insert(at)
        } else {
            before.implied.remove(at)
        }
        &&& after.trailing == before.trailing
        &&& !after.as_read
        &&& after.lines[at] == Seq::<TomlLine>::empty()
        &&& forall|t: Seq<Seq<char>>|
            is_table(before.items, t) ==> #[trigger] lines_join(before, after, table, key, t)
    }
}

/// The keys that lead to the root table.
pub open spec fn root() -> Seq<Seq<char>> {
    seq![]
}

/// What an empty document holds.
pub open spec fn nothing() -> TomlModel {
    TomlModel {
        items: Map::empty(),
        lines: map![root() => seq![]],
        implied: Set::empty(),
        trailing: seq![],
        as_read: true,
    }
}

/// Whether a document is as one that was just read: each key stands in a table.
pub open spec fn is_sound(m: TomlModel) -> bool {
    &&& m.as_read
    &&& forall|k: Seq<Seq<char>>| #[trigger]
        m.items.dom().contains(k) ==> k.len() > 0 && is_table(m.items, k.drop_last())
}

/// What a text was read as, by what the document holds.
pub open spec fn parsed_view(r: Result<TomlFile, String>) -> Result<TomlModel, Seq<char>> {
    match r {
        Ok(f) => Ok(f@),
        Err(e) => Err(e@),
    }
}

/// `toml_edit::DocumentMut::new`: a document that holds nothing.
#[verifier::external_body]
fn new_document() -> (r: TomlFile)
    ensures
        toml_model(r.doc) == nothing(),
{
    TomlFile { doc: toml_edit::DocumentMut::new() }
}

/// `str::parse` to a `toml_edit::DocumentMut`. Whether a text is a document, and what that holds,
/// depends on the text alone. Each key of a document stands in a table of it. The grammar of TOML
/// is not restated here.
#[verifier::external_body]
fn parse_document(s: &str) -> (r: Result<TomlFile, String>)
    ensures
        parsed_view(r) == toml_parsed(s@),
        r matches Ok(f) ==> is_sound(f@),
{
    match s.parse::<toml_edit::DocumentMut>() {
        Ok(doc) => Ok(TomlFile { doc }),
        Err(e) => Err(e.to_string()),
    }
}

/// Assigning `toml_edit::value` to a key of the root table: the text takes the place of what
/// stood there; nothing else changes, neither values nor comments nor order. A comment behind
/// the value that stood there goes with it, and so do the comments of a table.
#[verifier::external_body]
fn set_root_text(file: &mut TomlFile, key: &str, value: &str)
    ensures
        text_was_set(old(file)@, final(file)@, root(), key@, value@),
{
    file.doc[key] = toml_edit::value(value);
}

/// `toml_edit::Table::entry` and `or_insert` on the root table: puts an empty table under a key
/// that is not there, and leaves one that is there alone. Returns whether a table stands there
/// then. A table that is implicit has no header of its own in the text as long as it holds no
/// value.
#[verifier::external_body]
fn ensure_table(file: &mut TomlFile, key: &str, implicit: bool) -> (r: bool)
    ensures
        table_was_ensured(old(file)@, final(file)@, root(), key@, implicit),
        r == (final(file)@.items[root().push(key@)] is Table),
{
    let mut table = toml_edit::Table::new();
    table.set_implicit(implicit);
    let item = file.doc.as_table_mut().entry(key).or_insert(toml_edit::Item::Table(table));
    item.is_table()
}

/// `toml_edit::Table::entry` and `or_insert` on a table of the root table, as above.
#[verifier::external_body]
fn ensure_inner_table(file: &mut TomlFile, outer: &str, key: &str, implicit: bool) -> (r: bool)
    requires
        old(file)@.items.dom().contains(root().push(outer@)),
        old(file)@.items[root().push(outer@)] is Table,
    ensures
        table_was_ensured(
            old(file)@,
            final(file)@,
            root().push(outer@),
            key@,
            implicit,
        ),
        r == (final(file)@.items[root().push(outer@).push(key@)] is Table),
{
    let mut table = toml_edit::Table::new();
    table.set_implicit(implicit);
    let below = file.doc[outer].as_table_mut().expect("a table");
    below.entry(key).or_insert(toml_edit::Item::Table(table)).is_table()
}

/// Assigning `toml_edit::value` to a key of a table two levels below the root, as above.
#[verifier::external_body]
fn set_inner_text(file: &mut TomlFile, outer: &str, inner: &str, key: &str, value: &str)
    requires
        old(file)@.items.dom().contains(root().push(outer@).push(inner@)),
        old(file)@.items[root().push(outer@).push(inner@)] is Table,
    ensures
        text_was_set(
            old(file)@,
            final(file)@,
            root().push(outer@).push(inner@),
            key@,
            value@,
        ),
{
    file.doc[outer][inner][key] = toml_edit::value(value);
}

/// What a document holds that is in its text.
pub open spec fn shown_items(m: TomlModel) -> Map<Seq<Seq<char>>, TomlItem> {
    Map::new(|k: Seq<Seq<char>>| in_text(m, k), |k: Seq<Seq<char>>| m.items[k])
}

/// Those of some lines of the table `t` whose keys are in the text of a document.
pub open spec fn shown_lines(m: TomlModel, t: Seq<Seq<char>>, lines: Seq<TomlLine>) -> Seq<
    TomlLine,
>
    decreases lines.len(),
{
    if lines.len() == 0 {
        lines
    } else if in_text(m, t.push(lines.last().key)) {
        shown_lines(m, t, lines.drop_last()).push(lines.last())
    } else {
        shown_lines(m, t, lines.drop_last())
    }
}

/// Whether the keys `t` lead to the root table or to a table that is in the text.
pub open spec fn is_shown_table(m: TomlModel, t: Seq<Seq<char>>) -> bool {
    t == root() || (in_text(m, t) && m.items[t] is Table)
}

/// Whether a document that holds `p` says what one that holds `m` has in its text: the same keys
/// and values, in the same order and with the same comments. A table with a header has one. A
/// table that is implied has none, unless it holds a value.
pub open spec fn says_the_same(m: TomlModel, p: TomlModel) -> bool {
    &&& shown_items(p) == shown_items(m)
    &&& p.trailing == m.trailing
    &&& forall|t: Seq<Seq<char>>|
        is_shown_table(m, t) ==> #[trigger] shown_lines(p, t, p.lines[t]) == shown_lines(
            m,
            t,
            m.lines[t],
        )
    &&& forall|t: Seq<Seq<char>>|
        in_text(m, t) && m.items[t] is Table ==> {
            &&& !m.implied.contains(t) ==> !(#[trigger] p.implied.contains(t))
            &&& m.implied.contains(t) && !holds_value(m, t) ==> p.implied.contains(t)
        }
}

/// Whether a text is read as a document that says what one that holds `m` has in its text.
pub open spec fn reads_as(text: Seq<char>, m: TomlModel) -> bool {
    toml_parsed(text) matches Ok(p) && says_the_same(m, p)
}

/// `toml_edit::DocumentMut::to_string`: the text of a document. Reading it gives back every
/// value, comment and header, in their order. Left unsaid are blank lines and other white space,
/// and whether a value in an implied table stands below a header or has the table in its own key.
#[verifier::external_body]
fn document_text(file: &TomlFile) -> (r: String)
    ensures
        reads_as(r@, file@),
{
    file.doc.to_string()
}

// ---------------------------------------------------------------------------
// Merging
// ---------------------------------------------------------------------------
/// Why a file cannot be completed.
#[derive(Debug, Clone)]
pub enum TomlFileError {
    /// The file is no TOML.
    Invalid { reason: String },
    /// Its `transport` is no table.
    TransportNotTable,
    /// Its `[transport.http]` is no table.
    HttpNotTable,
}

impl TomlFileError {
    /// The error in words, for the file at `path`.
    pub fn message(&self, path: &str) -> (r: String)
        ensures
            r@ == match self {
                TomlFileError::Invalid { reason } => "kb-mcp.toml が invalid TOML です: "@ + path@
                    + "。手動で修正してから再 install してください (--force でも auto-overwrite しません)"@,
                TomlFileError::TransportNotTable =>
                "kb-mcp.toml の `transport` キーが table ではありません: "@ + path@
                    + "。手動で修正してから再 install してください"@,
                TomlFileError::HttpNotTable =>
                "kb-mcp.toml の `[transport.http]` セクションが table ではありません: "@ + path@
                    + "。手動で修正してから再 install してください"@,
            },
    {
        match self {
            TomlFileError::Invalid { reason } => {
                let mut r = text::copy("kb-mcp.toml が invalid TOML です: ");
                r.append(path);
                r.append(
                    "。手動で修正してから再 install してください (--force でも auto-overwrite しません)",
                );
                r
            },
            TomlFileError::TransportNotTable => {
                let mut r = text::copy("kb-mcp.toml の `transport` キーが table ではありません: ");
                r.append(path);
                r.append("。手動で修正してから再 install してください");
                r
            },
            TomlFileError::HttpNotTable => {
                let mut r = text::copy(
                    "kb-mcp.toml の `[transport.http]` セクションが table ではありません: ",
                );
                r.append(path);
                r.append("。手動で修正してから再 install してください");
                r
            },
        }
    }
}

/// What a file holds before it is completed: nothing, where there is none.
pub open spec fn starting_contents(existing: Option<Seq<char>>) -> Result<TomlModel, Seq<char>> {
    match existing {
        Some(t) => toml_parsed(t),
        None => Ok(nothing()),
    }
}

/// The key of the knowledge base's path.
pub open spec fn kb_key() -> Seq<Seq<char>> {
    seq!["kb_path"@]
}

/// The key of the table for the transport.
pub open spec fn transport_key() -> Seq<Seq<char>> {
    seq!["transport"@]
}

/// The keys of the table that holds the address.
pub open spec fn http_key() -> Seq<Seq<char>> {
    seq!["transport"@, "http"@]
}

/// The key of the address.
pub open spec fn bind_key() -> Seq<Seq<char>> {
    seq!["transport"@, "http"@, "bind"@]
}

/// `m` with a table under `key`, if nothing stands there.
pub open spec fn with_table(m: Map<Seq<Seq<char>>, TomlItem>, key: Seq<Seq<char>>) -> Map<
    Seq<Seq<char>>,
    TomlItem,
> {
    if m.dom().contains(key) {
        m
    } else {
        m.insert(key, TomlItem::Table)
    }
}

/// What a file holds with the knowledge base's path set and with tables for the address.
pub open spec fn prepared(m: Map<Seq<Seq<char>>, TomlItem>, kb_path: Seq<char>) -> Map<
    Seq<Seq<char>>,
    TomlItem,
> {
    with_table(
        with_table(
            replaced(m, kb_key(), TomlItem::Text { value: kb_path }),
            transport_key(),
        ),
        http_key(),
    )
}

/// What a completed file holds.
pub open spec fn completed(
    m: Map<Seq<Seq<char>>, TomlItem>,
    kb_path: Seq<char>,
    bind: Seq<char>,
) -> Map<Seq<Seq<char>>, TomlItem> {
    replaced(prepared(m, kb_path), bind_key(), TomlItem::Text { value: bind })
}

/// Whether `r` is what completing a file that holds `m` comes to. The file is refused where
/// something else stands in the place of the tables for the address.
pub open spec fn completion(
    m: Map<Seq<Seq<char>>, TomlItem>,
    kb_path: Seq<char>,
    r: Result<(), TomlFileError>,
) -> bool {
    let p = prepared(m, kb_path);
    r == if !(p[transport_key()] is Table) {
        Err::<(), TomlFileError>(TomlFileError::TransportNotTable)
    } else if !(p[http_key()] is Table) {
        Err::<(), TomlFileError>(TomlFileError::HttpNotTable)
    } else {
        Ok::<(), TomlFileError>(())
    }
}

/// Whether the comments of a key go with the table that a text takes the place of.
pub open spec fn header_goes(m: TomlModel, key: Seq<Seq<char>>) -> bool {
    is_set(key) && headed_at(m, key)
}

/// Whether a key is one of those that are set.
pub open spec fn is_set(key: Seq<Seq<char>>) -> bool {
    key == kb_key() || key == bind_key()
}

/// Whether a key lies outside what is set.
pub open spec fn is_outside(key: Seq<Seq<char>>) -> bool {
    !at_or_below(key, kb_key()) && !at_or_below(key, bind_key())
}

/// Whether a table may get another place among the keys: a table without a header comes where
/// the first header below it comes, and the headers change where the table for the address gets
/// one, or where the address takes the place of a table.
pub open spec fn may_move(m: TomlModel, key: Seq<Seq<char>>) -> bool {
    &&& key == transport_key() || key == http_key()
    &&& m.implied.contains(key)
    &&& m.items.dom().contains(http_key())
    &&& !is_settled(m, http_key()) || headed_at(m, bind_key())
}

/// Whether a key of a document keeps its place, and its comments, when the file is completed.
pub open spec fn keeps_place(m: TomlModel, key: Seq<Seq<char>>) -> bool {
    in_text(m, key) && !header_goes(m, key) && !may_move(m, key)
}

/// Those of some lines of the table `t` that a document that holds `m` keeps. The comment behind
/// a key that is set is not part of it.
pub open spec fn kept_lines(m: TomlModel, t: Seq<Seq<char>>, lines: Seq<TomlLine>) -> Seq<TomlLine>
    decreases lines.len(),
{
    if lines.len() == 0 {
        lines
    } else {
        let l = lines.last();
        let rest = kept_lines(m, t, lines.drop_last());
        if !keeps_place(m, t.push(l.key)) {
            rest
        } else if is_set(t.push(l.key)) {
            rest.push(TomlLine { behind: None, ..l })
        } else {
            rest.push(l)
        }
    }
}

/// Whether a document that held `m` has kept its layout as `p`: each table has the keys it had,
/// in their order and with their comments, and the comments at the end are the same.
pub open spec fn layout_kept(m: TomlModel, p: TomlModel) -> bool {
    &&& p.trailing == m.trailing
    &&& forall|t: Seq<Seq<char>>|
        is_shown_table(m, t) && is_outside(t) ==> #[trigger] kept_lines(m, t, p.lines[t])
            == kept_lines(m, t, m.lines[t])
}

/// Whether the table `t` has a header in `p` if it had one in `m`, and none if it had none. The
/// table for the address gets one.
pub open spec fn header_kept(m: TomlModel, p: TomlModel, t: Seq<Seq<char>>) -> bool {
    &&& p.items.dom().contains(t) && p.items[t] is Table
    &&& !m.implied.contains(t) ==> !p.implied.contains(t)
    &&& m.implied.contains(t) && !holds_value(m, t) && t != http_key() ==> p.implied.contains(t)
}

/// Whether a document that held `m` has kept its headers as `p`. A table for the address that is
/// new has one; a table for the transport that is new has none.
pub open spec fn headers_kept(m: TomlModel, p: TomlModel) -> bool {
    &&& forall|t: Seq<Seq<char>>|
        in_text(m, t) && m.items[t] is Table && is_outside(t) ==> #[trigger] header_kept(m, p, t)
    &&& !m.items.dom().contains(transport_key()) ==> p.implied.contains(transport_key())
    &&& !m.items.dom().contains(http_key()) ==> !p.implied.contains(http_key())
}

/// Whether a document that held `m` has its lines as `n`, and the flags of its tables.
spec fn followed(m: TomlModel, n: TomlModel) -> bool {
    &&& n.trailing == m.trailing
    &&& forall|t: Seq<Seq<char>>|
        is_table(m.items, t) && is_outside(t) ==> #[trigger] kept_lines(m, t, n.lines[t])
            == kept_lines(m, t, m.lines[t])
}

/// Whether the implied tables of `n` are those of `m`, with a new one for the transport.
spec fn flags_followed(m: TomlModel, n: TomlModel) -> bool {
    forall|t: Seq<Seq<char>>|
        #[trigger] n.implied.contains(t) <==> {
            ||| t == transport_key() && !m.items.dom().contains(t)
            ||| m.implied.contains(t) && is_outside(t) && (t == http_key()
                ==> m.items.dom().contains(t))
        }
}

proof fn lines_without(m: TomlModel, t: Seq<Seq<char>>, lines: Seq<TomlLine>, key: Seq<char>)
    requires
        !keeps_place(m, t.push(key)),
    ensures
        kept_lines(m, t, without(lines, key)) == kept_lines(m, t, lines),
    decreases lines.len(),
{
    if lines.len() > 0 {
        lines_without(m, t, lines.drop_last(), key);
        let rest = without(lines.drop_last(), key);
        assert(rest.push(lines.last()).drop_last() =~= rest);
    }
}

proof fn lines_in_text(m: TomlModel, x: TomlModel, t: Seq<Seq<char>>, lines: Seq<TomlLine>)
    requires
        forall|key: Seq<char>| #[trigger]
            keeps_place(m, t.push(key)) ==> in_text(x, t.push(key)),
    ensures
        kept_lines(m, t, shown_lines(x, t, lines)) == kept_lines(m, t, lines),
    decreases lines.len(),
{
    if lines.len() > 0 {
        lines_in_text(m, x, t, lines.drop_last());
        let rest = shown_lines(x, t, lines.drop_last());
        assert(rest.push(lines.last()).drop_last() =~= rest);
        assert(keeps_place(m, t.push(lines.last().key)) ==> in_text(
            x,
            t.push(lines.last().key),
        ));
    }
}

proof fn lines_but_behind(
    m: TomlModel,
    t: Seq<Seq<char>>,
    before: Seq<TomlLine>,
    after: Seq<TomlLine>,
    key: Seq<char>,
)
    requires
        same_but_behind(before, after, key),
        is_set(t.push(key)),
    ensures
        kept_lines(m, t, after) == kept_lines(m, t, before),
    decreases before.len(),
{
    if before.len() > 0 {
        assert forall|i: int| 0 <= i < before.drop_last().len() implies #[trigger] after.drop_last()[i]
            == if before.drop_last()[i].key == key {
            TomlLine { behind: None, ..before.drop_last()[i] }
        } else {
            before.drop_last()[i]
        } by {
            assert(after[i] == after.drop_last()[i]);
        }
        lines_but_behind(m, t, before.drop_last(), after.drop_last(), key);
        assert(after[before.len() - 1] == after.last());
    }
}

/// Setting one of the two texts keeps the lines.
proof fn setting_follows(
    m: TomlModel,
    a: TomlModel,
    b: TomlModel,
    table: Seq<Seq<char>>,
    key: Seq<char>,
    value: Seq<char>,
)
    requires
        followed(m, a),
        text_was_set(a, b, table, key, value),
        is_set(table.push(key)),
        a.as_read || !headed_at(a, table.push(key)),
        headed_at(a, table.push(key)) ==> header_goes(m, table.push(key)),
        !a.items.dom().contains(table.push(key)) ==> !m.items.dom().contains(table.push(key)),
        forall|t: Seq<Seq<char>>|
            is_table(m.items, t) && is_outside(t) ==> #[trigger] is_table(a.items, t),
        forall|t: Seq<Seq<char>>|
            at_or_below(table, t) && t != table && headers_change(a, table, key)
                && a.implied.contains(t.push(table[t.len() as int])) ==> !#[trigger] keeps_place(m, t.push(table[t.len() as int])),
    ensures
        followed(m, b),
{
    assert forall|t: Seq<Seq<char>>|
        is_table(m.items, t) && is_outside(t) implies #[trigger] kept_lines(m, t, b.lines[t])
        == kept_lines(m, t, m.lines[t]) by {
        let at = table.push(key);
        let next = table[t.len() as int];
        assert(is_table(a.items, t));
        assert(lines_follow(a, b, table, key, t));
        assert(kept_lines(m, t, a.lines[t]) == kept_lines(m, t, m.lines[t]));
        if t == table && a.items.dom().contains(at) && !is_headed(a.items[at]) {
            lines_but_behind(m, t, a.lines[t], b.lines[t], key);
        } else if t == table {
            assert(!keeps_place(m, t.push(key)));
            lines_without(m, t, a.lines[t], key);
            lines_without(m, t, b.lines[t], key);
        } else if at_or_below(table, t) && headers_change(a, table, key) && a.implied.contains(
            t.push(next),
        ) {
            assert(!keeps_place(m, t.push(next)));
            lines_without(m, t, a.lines[t], next);
            lines_without(m, t, b.lines[t], next);
        }
    }
}

/// Ensuring a table keeps the lines.
proof fn ensuring_follows(
    m: TomlModel,
    a: TomlModel,
    b: TomlModel,
    table: Seq<Seq<char>>,
    key: Seq<char>,
    implicit: bool,
)
    requires
        followed(m, a),
        table_was_ensured(a, b, table, key, implicit),
        !a.items.dom().contains(table.push(key)) ==> !m.items.dom().contains(table.push(key)),
        forall|t: Seq<Seq<char>>|
            is_table(m.items, t) && is_outside(t) ==> #[trigger] is_table(a.items, t),
        forall|t: Seq<Seq<char>>|
            at_or_below(table, t) && t != table && !in_text(a, t.push(table[t.len() as int]))
                ==> !#[trigger] keeps_place(m, t.push(table[t.len() as int])),
    ensures
        followed(m, b),
{
    if !a.items.dom().contains(table.push(key)) {
        assert forall|t: Seq<Seq<char>>|
            is_table(m.items, t) && is_outside(t) implies #[trigger] kept_lines(m, t, b.lines[t])
            == kept_lines(m, t, m.lines[t]) by {
            let next = table[t.len() as int];
            assert(is_table(a.items, t));
            assert(lines_join(a, b, table, key, t));
            assert(kept_lines(m, t, a.lines[t]) == kept_lines(m, t, m.lines[t]));
            if t == table {
                assert(!keeps_place(m, t.push(key)));
                lines_without(m, t, a.lines[t], key);
                lines_without(m, t, b.lines[t], key);
            } else if at_or_below(table, t) && !in_text(a, t.push(next)) {
                assert(!keeps_place(m, t.push(next)));
                lines_without(m, t, a.lines[t], next);
                lines_without(m, t, b.lines[t], next);
            }
        }
    }
}

/// What leads to the table for the address: the root table and the table for the transport.
proof fn tables_above(t: Seq<Seq<char>>)
    requires
        at_or_below(http_key(), t),
        t != http_key(),
    ensures
        t == root() || t == transport_key(),
        t.push(http_key()[t.len() as int]) == if t == root() {
            transport_key()
        } else {
            http_key()
        },
{
    if t.len() == 0 {
        assert(t =~= root());
        assert(t.push(http_key()[0]) =~= transport_key());
    } else if t.len() == 1 {
        assert(http_key().take(1) =~= transport_key());
        assert(t.push(http_key()[1]) =~= http_key());
    } else {
        assert(http_key().take(2) =~= http_key());
    }
}

/// Sets the knowledge base's path and the address in a document. What it says besides stays, and
/// so do its comments and the order of its keys.
fn complete(file: &mut TomlFile, kb_path: &str, bind: &str) -> (r: Result<(), TomlFileError>)
    requires
        is_sound(old(file)@),
    ensures
        completion(old(file)@.items, kb_path@, r),
        r is Ok ==> final(file)@.items == completed(old(file)@.items, kb_path@, bind@),
        r is Ok ==> followed(old(file)@, final(file)@),
        r is Ok ==> flags_followed(old(file)@, final(file)@),
{
    let ghost m = file@;
    proof {
        keys_differ();
        assert(root().push("kb_path"@) =~= kb_key());
        assert(root().push("transport"@) =~= transport_key());
        assert(transport_key().push("http"@) =~= http_key());
        assert(http_key().push("bind"@) =~= bind_key());
        assert(kb_key().take(1) =~= kb_key());
        assert(followed(m, m));
        assert forall|t: Seq<Seq<char>>| at_or_below(root(), t) implies t == root() by {
            assert(t =~= root());
        }
    }
    set_root_text(file, "kb_path", kb_path);
    let ghost first = file@;
    proof {
        setting_follows(m, m, first, root(), "kb_path"@, kb_path@);
    }
    if !ensure_table(file, "transport", true) {
        return Err(TomlFileError::TransportNotTable);
    }
    let ghost second = file@;
    proof {
        ensuring_follows(m, first, second, root(), "transport"@, true);
    }
    if !ensure_inner_table(file, "transport", "http", false) {
        return Err(TomlFileError::HttpNotTable);
    }
    let ghost third = file@;
    proof {
        assert forall|t: Seq<Seq<char>>|
            at_or_below(transport_key(), t) && t != transport_key() && !in_text(
                second,
                t.push(transport_key()[t.len() as int]),
            ) implies !#[trigger] keeps_place(m, t.push(transport_key()[t.len() as int])) by {
            assert(transport_key().take(1) =~= transport_key());
            assert(t =~= root());
            assert(t.push(transport_key()[0]) =~= transport_key());
            if in_text(m, transport_key()) {
                let b = choose|b: Seq<Seq<char>>|
                    #[trigger] has_text(m, b) && at_or_below(b, transport_key());
                assert(b.take(1)[0] == "transport"@);
                assert(has_text(second, b));
            }
        }
        ensuring_follows(m, second, third, transport_key(), "http"@, false);
    }
    assert(third.items == prepared(m.items, kb_path@));
    set_inner_text(file, "transport", "http", "bind", bind);
    proof {
        if third.items.dom().contains(bind_key()) {
            assert(bind_key().drop_last() =~= http_key());
            assert(http_key().drop_last() =~= transport_key());
            assert(m.items.dom().contains(bind_key()));
            assert(m.items.dom().contains(http_key()));
            assert(m.items.dom().contains(transport_key()));
        }
        assert forall|t: Seq<Seq<char>>|
            at_or_below(http_key(), t) && t != http_key() && headers_change(
                third,
                http_key(),
                "bind"@,
            ) && third.implied.contains(
                t.push(http_key()[t.len() as int]),
            ) implies !#[trigger] keeps_place(m, t.push(http_key()[t.len() as int])) by {
            tables_above(t);
            if holds_value(m, http_key()) {
                let k = choose|k: Seq<char>|
                    m.items.dom().contains(#[trigger] http_key().push(k)) && !is_headed(
                        m.items[http_key().push(k)],
                    );
                assert(http_key().push(k).take(1)[0] == "transport"@);
                assert(third.items.dom().contains(http_key().push(k)));
            }
        }
        setting_follows(m, third, file@, http_key(), "bind"@, bind@);
    }
    Ok(())
}

/// What was in the text of a file is in the text of the completed one.
proof fn text_stays(
    m: TomlModel,
    n: TomlModel,
    kb_path: Seq<char>,
    bind: Seq<char>,
    key: Seq<Seq<char>>,
)
    requires
        n.items == completed(m.items, kb_path, bind),
        flags_followed(m, n),
        in_text(m, key),
        is_outside(key) || is_set(key),
    ensures
        in_text(n, key),
{
    completing_keeps_everything_else(m.items, kb_path, bind, key);
    assert(has_text(n, kb_key()));
    assert(has_text(n, bind_key()));
    assert(kb_key().take(1) =~= kb_key());
    assert(bind_key().take(3) =~= bind_key());
    let b = choose|b: Seq<Seq<char>>| #[trigger] has_text(m, b) && at_or_below(b, key);
    completing_keeps_everything_else(m.items, kb_path, bind, b);
    if !is_set(key) {
        if at_or_below(b, kb_key()) {
            if key.len() > 0 {
                assert(key[0] == b.take(key.len() as int)[0]);
                assert(b.take(1)[0] == kb_key()[0]);
                assert(key.take(1) =~= kb_key());
            } else {
                assert(kb_key().take(0) =~= key);
            }
        } else if at_or_below(b, bind_key()) {
            if key.len() >= 3 {
                assert(key.take(3) =~= b.take(3));
            } else {
                assert(bind_key().take(key.len() as int) =~= b.take(3).take(key.len() as int));
                assert(b.take(3).take(key.len() as int) =~= b.take(key.len() as int));
                assert(at_or_below(bind_key(), key));
            }
        } else {
            assert(has_text(n, b));
        }
    }
}

/// The text of a completed file has the layout of the file, and its headers.
proof fn text_follows(
    m: TomlModel,
    n: TomlModel,
    p: TomlModel,
    kb_path: Seq<char>,
    bind: Seq<char>,
)
    requires
        is_sound(m),
        n.items == completed(m.items, kb_path, bind),
        n.items[transport_key()] is Table,
        n.items[http_key()] is Table,
        followed(m, n),
        flags_followed(m, n),
        says_the_same(n, p),
    ensures
        values(p.items) == values(n.items),
        layout_kept(m, p),
        headers_kept(m, p),
{
    assert forall|k: Seq<Seq<char>>| in_text(n, k) == #[trigger] in_text(p, k) by {
        assert(shown_items(n).dom().contains(k) == shown_items(p).dom().contains(k));
    }
    assert forall|k: Seq<Seq<char>>| in_text(n, k) implies #[trigger] p.items[k] == n.items[k] by {
        assert(shown_items(n)[k] == shown_items(p)[k]);
    }
    same_values(n, p);
    assert forall|t: Seq<Seq<char>>|
        is_shown_table(m, t) && is_outside(t) implies #[trigger] kept_lines(m, t, p.lines[t])
        == kept_lines(m, t, m.lines[t]) by {
        assert forall|key: Seq<char>| #[trigger] keeps_place(m, t.push(key)) implies in_text(
            n,
            t.push(key),
        ) by {
            below_an_outside_table(t, key);
            text_stays(m, n, kb_path, bind, t.push(key));
        }
        if t != root() {
            text_stays(m, n, kb_path, bind, t);
            completing_keeps_everything_else(m.items, kb_path, bind, t);
        }
        lines_in_text(m, n, t, n.lines[t]);
        lines_in_text(m, p, t, p.lines[t]);
        assert(kept_lines(m, t, n.lines[t]) == kept_lines(m, t, m.lines[t]));
    }
    assert forall|t: Seq<Seq<char>>|
        in_text(m, t) && m.items[t] is Table && is_outside(t) implies #[trigger] header_kept(
        m,
        p,
        t,
    ) by {
        text_stays(m, n, kb_path, bind, t);
        completing_keeps_everything_else(m.items, kb_path, bind, t);
        assert(in_text(p, t));
        assert(p.items[t] == n.items[t]);
        assert(n.implied.contains(t) == m.implied.contains(t));
        assert(!n.implied.contains(t) ==> !p.implied.contains(t));
        if holds_value(n, t) && t != http_key() {
            value_was_there(m, n, kb_path, bind, t);
        }
    }
    completing_keeps_everything_else(m.items, kb_path, bind, bind_key());
    assert(has_text(n, bind_key()));
    assert(bind_key().take(1) =~= transport_key());
    assert(bind_key().take(2) =~= http_key());
    keys_differ();
    assert(transport_key().len() == 1 && http_key().len() == 2);
    assert(in_text(n, transport_key()));
    assert(in_text(n, http_key()));
    if !m.items.dom().contains(transport_key()) && holds_value(n, transport_key()) {
        value_was_there(m, n, kb_path, bind, transport_key());
        let k = choose|k: Seq<char>|
            m.items.dom().contains(#[trigger] transport_key().push(k)) && !is_headed(
                m.items[transport_key().push(k)],
            );
        assert(transport_key().push(k).drop_last() =~= transport_key());
    }
}

proof fn same_values(n: TomlModel, p: TomlModel)
    requires
        forall|k: Seq<Seq<char>>| in_text(n, k) == #[trigger] in_text(p, k),
        forall|k: Seq<Seq<char>>| in_text(n, k) ==> #[trigger] p.items[k] == n.items[k],
    ensures
        values(p.items) == values(n.items),
{
    assert forall|k: Seq<Seq<char>>|
        #![trigger values(p.items).dom().contains(k)]
        values(p.items).dom().contains(k) == values(n.items).dom().contains(k) && (values(
            p.items,
        ).dom().contains(k) ==> values(p.items)[k] == values(n.items)[k]) by {
        assert(k.take(k.len() as int) =~= k);
        assert(at_or_below(k, k));
        if values(p.items).dom().contains(k) {
            assert(has_text(p, k));
            assert(in_text(p, k));
            assert(p.items[k] == n.items[k]);
        }
        if values(n.items).dom().contains(k) {
            assert(has_text(n, k));
            assert(in_text(p, k));
            assert(p.items[k] == n.items[k]);
        }
    }
    assert(values(p.items) =~= values(n.items));
}

proof fn below_an_outside_table(t: Seq<Seq<char>>, key: Seq<char>)
    requires
        is_outside(t),
    ensures
        is_outside(t.push(key)) || is_set(t.push(key)),
{
    let k = t.push(key);
    if at_or_below(k, kb_key()) {
        if t.len() >= 1 {
            assert(k.take(1) =~= t.take(1));
        } else {
            assert(k.take(1) =~= k);
        }
    }
    if at_or_below(k, bind_key()) {
        if t.len() >= 3 {
            assert(k.take(3) =~= t.take(3));
        } else {
            assert(k.take(3) =~= k);
        }
    }
}

/// A table of a completed file, but for the one with the address, holds a value itself only if it
/// did before.
proof fn value_was_there(
    m: TomlModel,
    n: TomlModel,
    kb_path: Seq<char>,
    bind: Seq<char>,
    t: Seq<Seq<char>>,
)
    requires
        n.items == completed(m.items, kb_path, bind),
        n.items[transport_key()] is Table,
        n.items[http_key()] is Table,
        is_outside(t),
        t.len() > 0,
        t != http_key(),
        holds_value(n, t),
    ensures
        holds_value(m, t),
{
    let k = choose|k: Seq<char>|
        n.items.dom().contains(#[trigger] t.push(k)) && !is_headed(n.items[t.push(k)]);
    completing_keeps_everything_else(m.items, kb_path, bind, t.push(k));
    below_an_outside_table(t, k);
    if t.push(k) == bind_key() {
        assert(t =~= bind_key().drop_last());
        assert(bind_key().drop_last() =~= http_key());
    }
    if t.push(k) == kb_key() {
        assert(t.push(k).len() == 1);
    }
}

/// The text of the configuration file with the knowledge base's path and the address set. Read
/// again, it gives these two and every other value that an existing file has, with the comments
/// of the file and its keys in their order. A file that is no TOML, or that has something else in
/// the place of the tables for the address, is refused.
pub fn write_toml(existing: Option<&str>, kb_path: &str, bind: &str) -> (r: Result<
    String,
    TomlFileError,
>)
    ensures
        match starting_contents(
            match existing {
                Some(t) => Some(t@),
                None => None,
            },
        ) {
            Err(reason) => r matches Err(TomlFileError::Invalid { reason: text }) && text@
                == reason,
            Ok(m) => match r {
                Err(e) => completion(m.items, kb_path@, Err::<(), TomlFileError>(e)),
                Ok(t) => {
                    &&& completion(m.items, kb_path@, Ok::<(), TomlFileError>(()))
                    &&& toml_parsed(t@) matches Ok(p) && {
                        &&& values(p.items) == values(completed(m.items, kb_path@, bind@))
                        &&& layout_kept(m, p)
                        &&& headers_kept(m, p)
                    }
                },
            },
        },
{
    let mut file = match existing {
        Some(t) => match parse_document(t) {
            Ok(f) => f,
            Err(reason) => {
                return Err(TomlFileError::Invalid { reason });
            },
        },
        None => new_document(),
    };
    let ghost m = file@;
    match complete(&mut file, kb_path, bind) {
        Err(e) => Err(e),
        Ok(_) => {
            let r = document_text(&file);
            proof {
                keys_differ();
                text_follows(m, file@, toml_parsed(r@)->Ok_0, kb_path@, bind@);
            }
            Ok(r)
        },
    }
}

proof fn keys_differ()
    ensures
        transport_key() != http_key(),
        kb_key() != transport_key(),
        !at_or_below(transport_key(), kb_key()),
        !at_or_below(http_key(), kb_key()),
        !at_or_below(bind_key(), kb_key()),
{
    reveal_strlit("kb_path");
    reveal_strlit("transport");
    assert(transport_key().len() == 1);
    assert(http_key().len() == 2);
    assert(kb_key()[0] == "kb_path"@);
    assert(transport_key()[0] == "transport"@);
    assert("kb_path"@.len() != "transport"@.len());
    assert(kb_key().len() == 1);
    assert(transport_key().take(1)[0] == "transport"@);
    assert(http_key().take(1)[0] == "transport"@);
    assert(bind_key().take(1)[0] == "transport"@);
}

/// A completed file names the knowledge base and the address, and everything else that it held
/// before is still there.
pub proof fn completing_keeps_everything_else(
    m: Map<Seq<Seq<char>>, TomlItem>,
    kb_path: Seq<char>,
    bind: Seq<char>,
    key: Seq<Seq<char>>,
)
    ensures
        completed(m, kb_path, bind)[kb_key()] == (TomlItem::Text { value: kb_path }),
        completed(m, kb_path, bind)[bind_key()] == (TomlItem::Text { value: bind }),
        completed(m, kb_path, bind).dom().contains(kb_key()),
        completed(m, kb_path, bind).dom().contains(bind_key()),
        m.dom().contains(key) && !at_or_below(key, kb_key()) && !at_or_below(key, bind_key())
            ==> completed(m, kb_path, bind).dom().contains(key) && completed(m, kb_path, bind)[key]
            == m[key],
        completed(m, kb_path, bind).dom().contains(key) && !m.dom().contains(key) ==> key
            == kb_key() || key == transport_key() || key == http_key() || key == bind_key(),
{
    keys_differ();
    assert(bind_key().len() == 3);
    assert(kb_key().len() == 1);
    assert(!at_or_below(kb_key(), bind_key()));
    assert(kb_key().take(1) =~= kb_key());
    assert(bind_key().take(3) =~= bind_key());
}

/// The knowledge base is set under `kb_path` and the address under `bind` in the table
/// `transport.http`. A file is refused exactly where something other than a table stands in the
/// place of one of the two tables, the outer one first.
pub proof fn where_a_file_is_completed(
    m: Map<Seq<Seq<char>>, TomlItem>,
    kb_path: Seq<char>,
    bind: Seq<char>,
    r: Result<(), TomlFileError>,
)
    requires
        completion(m, kb_path, r),
    ensures
        ({
            let outer = seq!["transport"@];
            let inner = seq!["transport"@, "http"@];
            let in_the_way = |key: Seq<Seq<char>>| m.dom().contains(key) && !(m[key] is Table);
            let done = completed(m, kb_path, bind);
            &&& done[seq!["kb_path"@]] == (TomlItem::Text { value: kb_path })
            &&& done[seq!["transport"@, "http"@, "bind"@]] == (TomlItem::Text { value: bind })
            &&& in_the_way(outer) ==> r is Err && r->Err_0 is TransportNotTable
            &&& !in_the_way(outer) && in_the_way(inner) ==> r is Err && r->Err_0 is HttpNotTable
            &&& r is Ok <==> !in_the_way(outer) && !in_the_way(inner)
        }),
{
    completing_keeps_everything_else(m, kb_path, bind, kb_key());
    keys_differ();
}

/// The values of a table that are not set keep their lines when a file is completed: all of them,
/// in their order, with the comments above and behind them.
pub proof fn other_values_keep_their_lines(m: TomlModel, p: TomlModel, t: Seq<Seq<char>>)
    requires
        layout_kept(m, p),
        t == root() || (m.items.dom().contains(t) && m.items[t] is Table && !m.implied.contains(t)),
        !at_or_below(t, seq!["kb_path"@]),
        !at_or_below(t, seq!["transport"@, "http"@, "bind"@]),
        forall|i: int|
            0 <= i < m.lines[t].len() ==> {
                let key = t.push((#[trigger] m.lines[t][i]).key);
                &&& m.items.dom().contains(key)
                &&& !(m.items[key] is Table || m.items[key] is Tables)
                &&& !m.implied.contains(key)
                &&& key != seq!["kb_path"@]
                &&& key != seq!["transport"@, "http"@, "bind"@]
            },
    ensures
        kept_lines(m, t, p.lines[t]) == m.lines[t],
        forall|i: int|
            0 <= i < m.lines[t].len() ==> p.lines[t].contains(#[trigger] m.lines[t][i]),
        p.trailing == m.trailing,
{
    if t != root() {
        assert(t.take(t.len() as int) =~= t);
        assert(has_text(m, t) && at_or_below(t, t));
    }
    assert(is_shown_table(m, t) && is_outside(t));
    assert(kept_lines(m, t, p.lines[t]) == kept_lines(m, t, m.lines[t]));
    all_lines_are_kept(m, t, m.lines[t]);
    kept_lines_were_there(m, t, p.lines[t]);
}

proof fn all_lines_are_kept(m: TomlModel, t: Seq<Seq<char>>, lines: Seq<TomlLine>)
    requires
        forall|i: int|
            0 <= i < lines.len() ==> {
                let key = t.push((#[trigger] lines[i]).key);
                &&& m.items.dom().contains(key)
                &&& !is_headed(m.items[key])
                &&& !m.implied.contains(key)
                &&& !is_set(key)
            },
    ensures
        kept_lines(m, t, lines) == lines,
    decreases lines.len(),
{
    if lines.len() > 0 {
        let rest = lines.drop_last();
        let l = lines[lines.len() - 1];
        let key = t.push(l.key);
        assert(lines.last() == l);
        assert forall|i: int| 0 <= i < rest.len() implies {
            let k = t.push((#[trigger] rest[i]).key);
            &&& m.items.dom().contains(k)
            &&& !is_headed(m.items[k])
            &&& !m.implied.contains(k)
            &&& !is_set(k)
        } by {
            assert(rest[i] == lines[i]);
        }
        all_lines_are_kept(m, t, rest);
        assert(key.take(key.len() as int) =~= key);
        assert(has_text(m, key) && at_or_below(key, key));
        assert(keeps_place(m, key));
        assert(rest.push(l) =~= lines);
    }
}

proof fn kept_lines_were_there(m: TomlModel, t: Seq<Seq<char>>, lines: Seq<TomlLine>)
    ensures
        forall|i: int|
            0 <= i < kept_lines(m, t, lines).len() && !is_set(
                t.push((#[trigger] kept_lines(m, t, lines)[i]).key),
            ) ==> lines.contains(kept_lines(m, t, lines)[i]),
    decreases lines.len(),
{
    if lines.len() > 0 {
        let rest = lines.drop_last();
        kept_lines_were_there(m, t, rest);
        let before = kept_lines(m, t, rest);
        let all = kept_lines(m, t, lines);
        assert forall|i: int|
            0 <= i < all.len() && !is_set(t.push((#[trigger] all[i]).key)) implies lines.contains(
            all[i],
        ) by {
            if i < before.len() {
                assert(all[i] == before[i]);
                let j = choose|j: int| 0 <= j < rest.len() && rest[j] == before[i];
                assert(lines[j] == before[i]);
            } else {
                assert(lines[lines.len() - 1] == lines.last());
            }
        }
    }
}

} // verus!

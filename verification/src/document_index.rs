//! The documents of a knowledge base, held in memory by their paths.
use vstd::prelude::*;

use crate::eval::{sha256_hex, sha256_hex_spec};
use crate::parser::{
    ChunkModel, DocumentModel, ParsedDocument, Parser, Registry, slice_views,
};
use crate::path;
use crate::text;

verus! {

/// The size of the largest document that is held, in bytes.
pub const GET_DOCUMENT_MAX_BYTES: u64 = 1_048_576;

/// A document.
#[derive(Debug, Clone, PartialEq, Eq)]
pub struct DocumentEntry {
    /// The path below the knowledge base, with forward slashes.
    pub path: String,
    pub title: Option<String>,
    pub date: Option<String>,
    pub topic: Option<String>,
    pub category: Option<String>,
    pub tags: Vec<String>,
    /// The text of the file.
    pub content: String,
    /// The text of the chunks.
    pub body: Option<String>,
    pub content_hash: String,
    /// When the file was changed, in nanoseconds of Unix time.
    pub last_modified: Option<u128>,
}

/// What a [`DocumentEntry`] holds.
pub struct EntryModel {
    pub path: Seq<char>,
    pub title: Option<Seq<char>>,
    pub date: Option<Seq<char>>,
    pub topic: Option<Seq<char>>,
    pub category: Option<Seq<char>>,
    pub tags: Seq<Seq<char>>,
    pub content: Seq<char>,
    pub body: Option<Seq<char>>,
    pub content_hash: Seq<char>,
    pub last_modified: Option<u128>,
}

impl View for DocumentEntry {
    type V = EntryModel;

    open spec fn view(&self) -> EntryModel {
        EntryModel {
            path: self.path@,
            title: text::opt_view(self.title),
            date: text::opt_view(self.date),
            topic: text::opt_view(self.topic),
            category: text::opt_view(self.category),
            tags: text::views(self.tags@),
            content: self.content@,
            body: text::opt_view(self.body),
            content_hash: self.content_hash@,
            last_modified: self.last_modified,
        }
    }
}

/// Documents by their paths. No two have one path.
#[derive(Debug, Clone)]
pub struct DocumentIndex {
    pub docs: Vec<DocumentEntry>,
}

impl DocumentIndex {
    /// Whether no two documents have one path.
    pub open spec fn wf(self) -> bool {
        forall|i: int, j: int|
            0 <= i < j < self.docs@.len() ==> (#[trigger] self.docs@[i]).path@ != (
            #[trigger] self.docs@[j]).path@
    }
}

impl View for DocumentIndex {
    type V = Map<Seq<char>, EntryModel>;

    open spec fn view(&self) -> Map<Seq<char>, EntryModel> {
        Map::new(
            |p: Seq<char>| exists|i: int|
                0 <= i < self.docs@.len() && (#[trigger] self.docs@[i]).path@ == p,
            |p: Seq<char>| {
                let i = choose|i: int|
                    0 <= i < self.docs@.len() && (#[trigger] self.docs@[i]).path@ == p;
                self.docs@[i]@
            },
        )
    }
}

proof fn holds_at(index: DocumentIndex, i: int)
    requires
        index.wf(),
        0 <= i < index.docs@.len(),
    ensures
        index@.dom().contains(index.docs@[i].path@),
        index@[index.docs@[i].path@] == index.docs@[i]@,
{
    let p = index.docs@[i].path@;
    let k = choose|k: int|
        0 <= k < index.docs@.len() && (#[trigger] index.docs@[k]).path@ == p;
    assert(0 <= k < index.docs@.len() && index.docs@[k].path@ == p);
    if k < i {
        assert(index.docs@[k].path@ != index.docs@[i].path@);
    } else if i < k {
        assert(index.docs@[i].path@ != index.docs@[k].path@);
    }
}

impl DocumentIndex {
    /// An index without documents.
    pub fn new() -> (r: DocumentIndex)
        ensures
            r.wf(),
            r@ == Map::<Seq<char>, EntryModel>::empty(),
    {
        let r = DocumentIndex { docs: Vec::new() };
        assert(r@ =~= Map::<Seq<char>, EntryModel>::empty());
        r
    }

    /// The number of documents.
    pub fn len(&self) -> (r: usize)
        requires
            self.wf(),
        ensures
            r == self@.dom().len(),
            self@.dom().finite(),
    {
        proof {
            domain_size(*self, self.docs@.len() as int);
            assert(part_domain(*self, self.docs@.len() as int) =~= self@.dom());
        }
        self.docs.len()
    }

    /// The place of the document with the given path, if there is one.
    fn position(&self, rel_path: &str) -> (r: Option<usize>)
        requires
            self.wf(),
        ensures
            match r {
                Some(i) => i < self.docs@.len() && self.docs@[i as int].path@ == rel_path@,
                None => !self@.dom().contains(rel_path@) && forall|i: int|
                    0 <= i < self.docs@.len() ==> (#[trigger] self.docs@[i]).path@ != rel_path@,
            },
    {
        let mut i: usize = 0;
        while i < self.docs.len()
            invariant
                i <= self.docs@.len(),
                forall|j: int| 0 <= j < i ==> (#[trigger] self.docs@[j]).path@ != rel_path@,
            decreases self.docs@.len() - i,
        {
            if *self.docs[i].path.as_str() == *rel_path {
                return Some(i);
            }
            i += 1;
        }
        None
    }

    /// Whether there is a document with the given path.
    pub fn contains(&self, rel_path: &str) -> (r: bool)
        requires
            self.wf(),
        ensures
            r == self@.dom().contains(rel_path@),
    {
        match self.position(rel_path) {
            Some(i) => {
                proof {
                    holds_at(*self, i as int);
                }
                true
            },
            None => false,
        }
    }

    /// The document with the given path.
    pub fn get(&self, rel_path: &str) -> (r: Option<&DocumentEntry>)
        requires
            self.wf(),
        ensures
            match r {
                Some(e) => self@.dom().contains(rel_path@) && e@ == self@[rel_path@],
                None => !self@.dom().contains(rel_path@),
            },
    {
        match self.position(rel_path) {
            Some(i) => {
                proof {
                    holds_at(*self, i as int);
                }
                Some(&self.docs[i])
            },
            None => None,
        }
    }

    /// Takes out the document with the given path and returns it.
    fn take(&mut self, rel_path: &str) -> (r: Option<DocumentEntry>)
        requires
            old(self).wf(),
        ensures
            final(self).wf(),
            final(self)@ == old(self)@.remove(rel_path@),
            match r {
                Some(e) => old(self)@.dom().contains(rel_path@) && e@ == old(self)@[rel_path@],
                None => !old(self)@.dom().contains(rel_path@),
            },
    {
        let ghost start = *self;
        match self.position(rel_path) {
            None => {
                assert(self@ =~= start@.remove(rel_path@));
                None
            },
            Some(i) => {
                proof {
                    holds_at(start, i as int);
                }
                let e = self.docs.remove(i);
                proof {
                    removal_is_a_map_removal(start, *self, i as int);
                }
                Some(e)
            },
        }
    }

    /// Puts in a document under its path, in place of one that may stand there.
    pub fn insert(&mut self, entry: DocumentEntry)
        requires
            old(self).wf(),
        ensures
            final(self).wf(),
            final(self)@ == old(self)@.insert(entry.path@, entry@),
    {
        let ghost start = *self;
        let _ = self.take(entry.path.as_str());
        let ghost middle = *self;
        self.docs.push(entry);
        proof {
            push_is_a_map_insertion(middle, *self, entry);
            assert(self@ =~= start@.insert(entry.path@, entry@));
        }
    }

    /// Takes out the document with the given path. Returns whether there was one.
    pub fn remove(&mut self, rel_path: &str) -> (r: bool)
        requires
            old(self).wf(),
        ensures
            final(self).wf(),
            r == old(self)@.dom().contains(rel_path@),
            final(self)@ == old(self)@.remove(rel_path@),
    {
        self.take(rel_path).is_some()
    }

    /// Gives the document with one path another, in place of a document that may have it.
    /// Returns whether there was such a document; if not, nothing changes.
    pub fn rename(&mut self, old_rel: &str, new_rel: &str) -> (r: bool)
        requires
            old(self).wf(),
        ensures
            final(self).wf(),
            r == old(self)@.dom().contains(old_rel@),
            final(self)@ == if r {
                renamed(old(self)@, old_rel@, new_rel@)
            } else {
                old(self)@
            },
    {
        let ghost start = self@;
        match self.take(old_rel) {
            None => {
                assert(self@ =~= start);
                false
            },
            Some(mut entry) => {
                entry.path = text::copy(new_rel);
                self.insert(entry);
                true
            },
        }
    }

    /// Replaces all documents by those that could be loaded. Returns how many those were.
    pub fn rebuild_from_kb(&mut self, entries: Vec<DocumentEntry>) -> (r: usize)
        ensures
            final(self).wf(),
            r == entries@.len(),
            final(self)@ == collected(entries@),
    {
        let n: usize = entries.len();
        let ghost all = entries@;
        self.docs = Vec::new();
        assert(self@ =~= collected(all.take(0)));
        for entry in it: entries
            invariant
                it.seq() == all,
                self.wf(),
                self@ == collected(all.take(it.index() as int)),
        {
            assert(all.take(it.index() + 1).drop_last() =~= all.take(it.index() as int));
            self.insert(entry);
        }
        assert(all.take(all.len() as int) =~= all);
        n
    }

    /// Takes in what has become of the file with the given path: the document it holds now, or
    /// none. Returns whether the index changed.
    pub fn upsert_from_rel(&mut self, rel: &str, entry: Option<DocumentEntry>) -> (r: bool)
        requires
            old(self).wf(),
            entry matches Some(e) ==> e.path@ == rel@,
        ensures
            final(self).wf(),
            match entry {
                Some(e) => r && final(self)@ == old(self)@.insert(rel@, e@),
                None => r == old(self)@.dom().contains(rel@) && final(self)@
                    == old(self)@.remove(rel@),
            },
    {
        match entry {
            Some(e) => {
                self.insert(e);
                true
            },
            None => self.remove(rel),
        }
    }
}

impl Default for DocumentIndex {
    fn default() -> (r: Self)
        ensures
            r.wf(),
            r@ == Map::<Seq<char>, EntryModel>::empty(),
    {
        DocumentIndex::new()
    }
}

/// What a sequence of documents amounts to: of several with one path, the last counts.
pub open spec fn collected(entries: Seq<DocumentEntry>) -> Map<Seq<char>, EntryModel>
    decreases entries.len(),
{
    if entries.len() == 0 {
        Map::empty()
    } else {
        collected(entries.drop_last()).insert(entries.last().path@, entries.last()@)
    }
}

/// The paths of the first `n` documents.
spec fn part_domain(index: DocumentIndex, n: int) -> Set<Seq<char>> {
    Set::new(
        |p: Seq<char>| exists|i: int| 0 <= i < n && (#[trigger] index.docs@[i]).path@ == p,
    )
}

proof fn domain_size(index: DocumentIndex, n: int)
    requires
        index.wf(),
        0 <= n <= index.docs@.len(),
    ensures
        part_domain(index, n).finite(),
        part_domain(index, n).len() == n,
    decreases n,
{
    if n == 0 {
        assert(part_domain(index, 0) =~= Set::empty());
    } else {
        domain_size(index, n - 1);
        let before = part_domain(index, n - 1);
        let p = index.docs@[n - 1].path@;
        assert(!before.contains(p)) by {
            if before.contains(p) {
                let i = choose|i: int|
                    0 <= i < n - 1 && (#[trigger] index.docs@[i]).path@ == p;
                assert(index.docs@[i].path@ != index.docs@[n - 1].path@);
            }
        }
        assert(part_domain(index, n) =~= before.insert(p)) by {
            assert forall|q: Seq<char>| part_domain(index, n).contains(q) implies before.insert(
                p,
            ).contains(q) by {
                let i = choose|i: int| 0 <= i < n && (#[trigger] index.docs@[i]).path@ == q;
                if i < n - 1 {
                    assert(index.docs@[i].path@ == q);
                }
            }
            assert forall|q: Seq<char>| before.insert(p).contains(q) implies part_domain(
                index,
                n,
            ).contains(q) by {
                if q == p {
                    assert(index.docs@[n - 1].path@ == q);
                } else {
                    let i = choose|i: int|
                        0 <= i < n - 1 && (#[trigger] index.docs@[i]).path@ == q;
                    assert(index.docs@[i].path@ == q);
                }
            }
        }
    }
}

proof fn removal_is_a_map_removal(before: DocumentIndex, after: DocumentIndex, at: int)
    requires
        before.wf(),
        0 <= at < before.docs@.len(),
        after.docs@ == before.docs@.remove(at),
    ensures
        after.wf(),
        after@ == before@.remove(before.docs@[at].path@),
{
    let gone = before.docs@[at].path@;
    assert forall|i: int, j: int| 0 <= i < j < after.docs@.len() implies (
    #[trigger] after.docs@[i]).path@ != (#[trigger] after.docs@[j]).path@ by {
        let a = if i < at {
            i
        } else {
            i + 1
        };
        let b = if j < at {
            j
        } else {
            j + 1
        };
        assert(after.docs@[i] == before.docs@[a] && after.docs@[j] == before.docs@[b]);
    }
    let want = before@.remove(gone);
    assert forall|p: Seq<char>| after@.dom().contains(p) <==> want.dom().contains(p) by {
        if after@.dom().contains(p) {
            let i = choose|i: int|
                0 <= i < after.docs@.len() && (#[trigger] after.docs@[i]).path@ == p;
            let a = if i < at {
                i
            } else {
                i + 1
            };
            assert(before.docs@[a].path@ == p);
            if a < at {
                assert(before.docs@[a].path@ != before.docs@[at].path@);
            } else {
                assert(before.docs@[at].path@ != before.docs@[a].path@);
            }
        }
        if want.dom().contains(p) {
            let a = choose|a: int|
                0 <= a < before.docs@.len() && (#[trigger] before.docs@[a]).path@ == p;
            assert(before.docs@[a].path@ == p);
            let i = if a < at {
                a
            } else {
                a - 1
            };
            assert(a != at);
            assert(after.docs@[i].path@ == p);
        }
    }
    assert forall|p: Seq<char>| after@.dom().contains(p) implies after@[p] == want[p] by {
        let i = choose|i: int|
            0 <= i < after.docs@.len() && (#[trigger] after.docs@[i]).path@ == p;
        let a = if i < at {
            i
        } else {
            i + 1
        };
        holds_at(after, i);
        holds_at(before, a);
        assert(after.docs@[i] == before.docs@[a]);
    }
    assert(after@ =~= want);
}

proof fn push_is_a_map_insertion(
    before: DocumentIndex,
    after: DocumentIndex,
    entry: DocumentEntry,
)
    requires
        before.wf(),
        !before@.dom().contains(entry.path@),
        after.docs@ == before.docs@.push(entry),
    ensures
        after.wf(),
        after@ == before@.insert(entry.path@, entry@),
{
    let n = before.docs@.len() as int;
    assert forall|i: int, j: int| 0 <= i < j < after.docs@.len() implies (
    #[trigger] after.docs@[i]).path@ != (#[trigger] after.docs@[j]).path@ by {
        assert(after.docs@[i] == before.docs@[i]);
        if j == n {
            if before.docs@[i].path@ == entry.path@ {
                assert(before@.dom().contains(entry.path@));
            }
        } else {
            assert(after.docs@[j] == before.docs@[j]);
        }
    }
    let want = before@.insert(entry.path@, entry@);
    assert forall|p: Seq<char>| after@.dom().contains(p) <==> want.dom().contains(p) by {
        if after@.dom().contains(p) {
            let i = choose|i: int|
                0 <= i < after.docs@.len() && (#[trigger] after.docs@[i]).path@ == p;
            if i < n {
                assert(before.docs@[i].path@ == p);
            }
        }
        if want.dom().contains(p) {
            if p == entry.path@ {
                assert(after.docs@[n].path@ == p);
            } else {
                let i = choose|i: int|
                    0 <= i < before.docs@.len() && (#[trigger] before.docs@[i]).path@ == p;
                assert(after.docs@[i].path@ == p);
            }
        }
    }
    assert forall|p: Seq<char>| after@.dom().contains(p) implies after@[p] == want[p] by {
        let i = choose|i: int|
            0 <= i < after.docs@.len() && (#[trigger] after.docs@[i]).path@ == p;
        holds_at(after, i);
        if i < n {
            holds_at(before, i);
            assert(after.docs@[i] == before.docs@[i]);
        }
    }
    assert(after@ =~= want);
}

/// The documents after the one with the path `old_rel` has got the path `new_rel`.
pub open spec fn renamed(
    before: Map<Seq<char>, EntryModel>,
    old_rel: Seq<char>,
    new_rel: Seq<char>,
) -> Map<Seq<char>, EntryModel> {
    before.remove(old_rel).insert(
        new_rel,
        EntryModel { path: new_rel, ..before[old_rel] },
    )
}

/// A document that was renamed is found under its new path as it was, and under its old path no
/// more, unless the two are the same. All other documents stay.
pub proof fn renaming_moves_one_document(
    before: Map<Seq<char>, EntryModel>,
    old_rel: Seq<char>,
    new_rel: Seq<char>,
    other: Seq<char>,
)
    requires
        before.dom().contains(old_rel),
    ensures
        ({
            let after = renamed(before, old_rel, new_rel);
            &&& after.dom().contains(new_rel)
            &&& after[new_rel] == (EntryModel { path: new_rel, ..before[old_rel] })
            &&& old_rel != new_rel ==> !after.dom().contains(old_rel)
            &&& other != old_rel && other != new_rel ==> after.dom().contains(other)
                == before.dom().contains(other) && after[other] == before[other]
        }),
{
}

/// A document that is renamed back and forth is as it was, where its new path was free.
pub proof fn renaming_back_undoes_it(
    before: Map<Seq<char>, EntryModel>,
    old_rel: Seq<char>,
    new_rel: Seq<char>,
)
    requires
        before.dom().contains(old_rel),
        before[old_rel].path == old_rel,
        !before.dom().contains(new_rel),
    ensures
        renamed(renamed(before, old_rel, new_rel), new_rel, old_rel) == before,
{
    assert(renamed(renamed(before, old_rel, new_rel), new_rel, old_rel) =~= before);
}

/// Each document is found under its own path, and nowhere else.
pub proof fn documents_lie_under_their_paths(index: DocumentIndex, p: Seq<char>)
    requires
        index.wf(),
        index@.dom().contains(p),
    ensures
        index@[p].path == p,
{
    let i = choose|i: int| 0 <= i < index.docs@.len() && (#[trigger] index.docs@[i]).path@ == p;
    holds_at(index, i);
}

/// What was put in is found as it was put in; what was taken out is found no more; and neither
/// touches another document.
pub proof fn a_document_is_found_as_it_was_put_in(
    before: Map<Seq<char>, EntryModel>,
    entry: EntryModel,
    other: Seq<char>,
)
    ensures
        before.insert(entry.path, entry).dom().contains(entry.path),
        before.insert(entry.path, entry)[entry.path] == entry,
        !before.remove(entry.path).dom().contains(entry.path),
        other != entry.path ==> {
            &&& before.insert(entry.path, entry).dom().contains(other)
                == before.dom().contains(other)
            &&& before.insert(entry.path, entry)[other] == before[other]
            &&& before.remove(entry.path).dom().contains(other) == before.dom().contains(other)
            &&& before.dom().contains(other) ==> before.remove(entry.path)[other] == before[other]
        },
{
}

// ---------------------------------------------------------------------------
// Paths from outside
// ---------------------------------------------------------------------------
/// Whether a trimmed path names something inside the knowledge base: it is relative, and none of
/// its parts is empty or leads upward.
pub open spec fn safe_path(p: Seq<char>) -> bool {
    &&& p.len() > 0
    &&& p[0] != '/'
    &&& !p.contains('\\')
    &&& forall|i: int|
        0 <= i < text::split_spec(p, '/').len() ==> {
            let part = #[trigger] text::split_spec(p, '/')[i];
            part != ".."@ && part.len() > 0
        }
}

/// The path under which the index knows a path that came from outside: the same without white
/// space around it. None, where it leads out of the knowledge base.
pub open spec fn normalized_path(p: Seq<char>) -> Option<Seq<char>> {
    if safe_path(text::trim_spec(p)) {
        Some(text::trim_spec(p))
    } else {
        None
    }
}

/// The path under which the index knows a path that came from outside.
pub fn normalize_rel_path(rel_path: &str) -> (r: Option<String>)
    ensures
        text::opt_view(r) == normalized_path(rel_path@),
{
    let trimmed = text::trim(rel_path);
    let v = text::to_chars(trimmed.as_str());
    if v.len() == 0 || v[0] == '/' || text::in_set(&v, '\\') {
        return None;
    }
    let parts = text::split(trimmed.as_str(), '/');
    let ghost all = text::split_spec(trimmed@, '/');
    let mut i: usize = 0;
    while i < parts.len()
        invariant
            all == text::views(parts@),
            all == text::split_spec(trimmed@, '/'),
            trimmed@ == text::trim_spec(rel_path@),
            i <= parts@.len(),
            forall|j: int| 0 <= j < i ==> (#[trigger] all[j]) != ".."@ && all[j].len() > 0,
        decreases parts@.len() - i,
    {
        assert(all[i as int] == parts@[i as int]@);
        if *parts[i].as_str() == *".." || parts[i].as_str().is_empty() {
            assert(!safe_path(trimmed@));
            return None;
        }
        i += 1;
    }
    Some(trimmed)
}

/// A list of texts in the form in which `{:?}` shows it.
pub open spec fn listed(items: Seq<Seq<char>>) -> Seq<char> {
    "["@ + text::join_spec(items.map_values(|s: Seq<char>| text::quoted_spec(s)), ", "@) + "]"@
}

/// A list of texts in the form in which `{:?}` shows it.
fn list_text(items: &Vec<&'static str>) -> (r: String)
    ensures
        r@ == listed(slice_views(items@)),
{
    let ghost want = slice_views(items@).map_values(|s: Seq<char>| text::quoted_spec(s));
    let mut parts: Vec<String> = Vec::new();
    let mut i: usize = 0;
    while i < items.len()
        invariant
            i <= items@.len(),
            want == slice_views(items@).map_values(|s: Seq<char>| text::quoted_spec(s)),
            text::views(parts@) == want.take(i as int),
        decreases items@.len() - i,
    {
        let ghost before = text::views(parts@);
        let q = text::quoted(items[i]);
        parts.push(q);
        assert(text::views(parts@) =~= before.push(q@));
        assert(text::views(parts@) =~= want.take(i + 1));
        i += 1;
    }
    assert(want.take(i as int) =~= want);
    let mut r = text::copy("[");
    r.append(text::join(&parts, ", ").as_str());
    r.append("]");
    r
}

/// Whether a path that came from outside may be asked for: it stays in the knowledge base and
/// its extension is one that is indexed. If not, the error in words.
pub fn validate_rel_path_key(rel_path: &str, registry: &Registry) -> (r: Result<(), String>)
    ensures
        match normalized_path(rel_path@) {
            None => r matches Err(e) && e@ == "File not found: "@ + rel_path@
                + ". Path should be relative to knowledge-base/ (e.g. \"deep-dive/mcp/overview.md\")."@,
            Some(p) => if registry.extensions_spec().contains(path::ext_or_empty(p)) {
                r is Ok
            } else {
                r matches Err(e) && e@ == "Access denied: extension "@ + text::quoted_spec(
                    path::ext_or_empty(p),
                ) + " is not in the indexed parser registry. Allowed: "@ + listed(
                    registry.extensions_spec(),
                )
            },
        },
{
    match normalize_rel_path(rel_path) {
        None => {
            let mut e = text::copy("File not found: ");
            e.append(rel_path);
            e.append(
                ". Path should be relative to knowledge-base/ (e.g. \"deep-dive/mcp/overview.md\").",
            );
            Err(e)
        },
        Some(p) => {
            let ext = path::extension(p.as_str());
            if registry.has_extension(ext.as_str()) {
                return Ok(());
            }
            let mut e = text::copy("Access denied: extension ");
            e.append(text::quoted(ext.as_str()).as_str());
            e.append(" is not in the indexed parser registry. Allowed: ");
            e.append(list_text(&registry.extensions()).as_str());
            Err(e)
        },
    }
}

/// The path of a file below the knowledge base, with forward slashes; its whole path, where it
/// does not lie there.
pub open spec fn rel_path_spec(kb_path: Seq<char>, full: Seq<char>) -> Seq<char> {
    text::replace_char_spec(
        match path::below_spec(full, kb_path) {
            Some(rest) => rest,
            None => full,
        },
        '\\',
        "/"@,
    )
}

/// The path of a file below the knowledge base, with forward slashes.
pub fn rel_path_from_full(kb_path: &str, full: &str) -> (r: String)
    ensures
        r@ == rel_path_spec(kb_path@, full@),
{
    let rest = match path::strip_base(full, kb_path) {
        Some(rest) => rest,
        None => text::copy(full),
    };
    text::replace_char(rest.as_str(), '\\', "/")
}

// ---------------------------------------------------------------------------
// Loading
// ---------------------------------------------------------------------------
/// Whether a file may be read at all: it is no link, its true path is known and lies in the
/// knowledge base, its size is known and within the limit.
pub fn may_load(
    is_symlink: bool,
    canonical: &Option<String>,
    kb_path: &str,
    size: Option<u64>,
    max_bytes: u64,
) -> (r: bool)
    ensures
        r == {
            &&& !is_symlink
            &&& canonical is Some
            &&& path::below_spec(canonical->0@, kb_path@) is Some
            &&& size is Some
            &&& size->0 <= max_bytes
        },
{
    if is_symlink {
        return false;
    }
    match canonical {
        None => false,
        Some(c) => {
            if path::strip_base(c.as_str(), kb_path).is_none() {
                return false;
            }
            match size {
                None => false,
                Some(n) => n <= max_bytes,
            }
        },
    }
}

/// The texts of some chunks.
pub open spec fn chunk_texts(chunks: Seq<ChunkModel>) -> Seq<Seq<char>> {
    Seq::new(chunks.len(), |i: int| chunks[i].content)
}

/// The document that a file gives. Where the file says no topic of itself, the topic is that of
/// its path.
pub open spec fn entry_spec(
    rel: Seq<char>,
    content: Seq<char>,
    doc: DocumentModel,
    category: Option<Seq<char>>,
    path_topic: Option<Seq<char>>,
    last_modified: Option<u128>,
) -> EntryModel {
    EntryModel {
        path: rel,
        title: doc.frontmatter.title,
        date: doc.frontmatter.date,
        topic: match doc.frontmatter.topic {
            Some(t) => Some(t),
            None => path_topic,
        },
        category,
        tags: doc.frontmatter.tags,
        content,
        body: Some(text::join_spec(chunk_texts(doc.chunks), "\n\n"@)),
        content_hash: sha256_hex_spec(vstd::utf8::encode_utf8(content)),
        last_modified,
    }
}

/// The texts of the chunks, with an empty line between each two.
fn body_of(doc: &ParsedDocument) -> (r: String)
    ensures
        r@ == text::join_spec(chunk_texts(doc@.chunks), "\n\n"@),
{
    let ghost want = chunk_texts(doc@.chunks);
    let mut parts: Vec<String> = Vec::new();
    let mut i: usize = 0;
    while i < doc.chunks.len()
        invariant
            i <= doc.chunks@.len(),
            want == chunk_texts(doc@.chunks),
            text::views(parts@) == want.take(i as int),
        decreases doc.chunks@.len() - i,
    {
        let ghost before = text::views(parts@);
        parts.push(doc.chunks[i].content.clone());
        assert(text::views(parts@) =~= before.push(want[i as int]));
        assert(text::views(parts@) =~= want.take(i + 1));
        i += 1;
    }
    assert(want.take(i as int) =~= want);
    text::join(&parts, "\n\n")
}

/// The document that a file of the given extension gives, from its text. None, where the
/// extension is not indexed or the file has no chunks.
pub fn load_entry(
    rel: &str,
    ext: &str,
    content: &str,
    registry: &Registry,
    exclude_headings: &[&str],
    category: Option<String>,
    path_topic: Option<String>,
    last_modified: Option<u128>,
) -> (r: Option<DocumentEntry>)
    ensures
        !registry.extensions_spec().contains(ext@) ==> r is None,
        forall|k: int|
            (#[trigger] is_first_handler(*registry, k, ext@))
                && registry.extensions_spec().contains(ext@) ==> {
                let doc = registry.parsers@[k].parsed(
                    content@,
                    rel@,
                    slice_views(exclude_headings@),
                );
                match r {
                    None => doc.chunks.len() == 0,
                    Some(e) => doc.chunks.len() > 0 && e@ == entry_spec(
                        rel@,
                        content@,
                        doc,
                        text::opt_view(category),
                        text::opt_view(path_topic),
                        last_modified,
                    ),
                }
            },
        r matches Some(e) ==> e.path@ == rel@,
{
    if !registry.has_extension(ext) {
        return None;
    }
    let parser = match registry.by_extension(ext) {
        Some(p) => p,
        None => {
            return None;
        },
    };
    let doc = parser.parse(content, rel, exclude_headings);
    if doc.chunks.len() == 0 {
        return None;
    }
    let body = body_of(&doc);
    let hash = sha256_hex(content.as_bytes());
    let topic = match doc.frontmatter.topic {
        Some(t) => Some(t),
        None => path_topic,
    };
    Some(
        DocumentEntry {
            path: text::copy(rel),
            title: doc.frontmatter.title,
            date: doc.frontmatter.date,
            topic,
            category,
            tags: doc.frontmatter.tags,
            content: text::copy(content),
            body: Some(body),
            content_hash: hash,
            last_modified,
        },
    )
}

/// Whether the parser at place `k` is the one that files of an extension go to.
pub open spec fn is_first_handler(registry: Registry, k: int, ext: Seq<char>) -> bool {
    &&& 0 <= k < registry.parsers@.len()
    &&& registry.handles(k, ext)
    &&& forall|i: int| 0 <= i < k ==> !registry.handles(i, ext)
}

/// A path that was accepted stays below the knowledge base: it is relative and none of its
/// parts leads upward. Accepting it again changes nothing.
pub proof fn accepted_paths_stay_inside(p: Seq<char>)
    requires
        normalized_path(p) is Some,
    ensures
        !path::absolute_spec(normalized_path(p)->0, path::PathStyle::Unix),
        !text::split_spec(normalized_path(p)->0, '/').contains(".."@),
        normalized_path(normalized_path(p)->0) == normalized_path(p),
{
    let q = normalized_path(p)->0;
    text::trim_is_idempotent(p);
    if text::split_spec(q, '/').contains(".."@) {
        let k = choose|k: int|
            0 <= k < text::split_spec(q, '/').len() && text::split_spec(q, '/')[k] == ".."@;
        assert(text::split_spec(q, '/')[k] != ".."@);
    }
}

/// A path from outside is accepted exactly where it is made of names with single slashes between
/// them, none of which leads upward, and holds no backslash; so it neither begins nor ends with a
/// slash. It is kept as it is.
pub proof fn which_paths_are_accepted(parts: Seq<Seq<char>>)
    requires
        parts.len() > 0,
        forall|i: int| 0 <= i < parts.len() ==> !(#[trigger] parts[i]).contains('/'),
        ({
            let p = text::join_spec(parts, seq!['/']);
            p.len() > 0 ==> !text::whitespace_spec(p[0]) && !text::whitespace_spec(p.last())
        }),
    ensures
        ({
            let p = text::join_spec(parts, seq!['/']);
            let good = !p.contains('\\') && forall|i: int|
                0 <= i < parts.len() ==> (#[trigger] parts[i]).len() > 0 && parts[i] != ".."@;
            normalized_path(p) == if good {
                Some(p)
            } else {
                None
            }
        }),
{
    let p = text::join_spec(parts, seq!['/']);
    text::splitting_undoes_joining(parts, '/');
    if p.len() > 0 {
        text::trimming_takes_white_space_off(seq![], p, seq![]);
        assert(seq![] + p + seq![] =~= p);
    } else {
        text::white_space_is_trimmed_to_nothing(p);
        assert(text::trim_spec(p) =~= p);
        assert(text::split_spec(p, '/')[0].len() == 0);
        assert(parts[0].len() == 0);
    }
    let split = text::split_spec(p, '/');
    assert(split == parts);
    if forall|i: int|
        0 <= i < parts.len() ==> (#[trigger] parts[i]).len() > 0 && parts[i] != ".."@ {
        assert(parts[0].len() > 0);
        first_of_joined(parts);
        assert(!parts[0].contains('/'));
        assert(p[0] == parts[0][0]);
        assert(parts[0][0] != '/') by {
            if parts[0][0] == '/' {
                assert(parts[0].contains('/'));
            }
        }
    }
}

proof fn first_of_joined(parts: Seq<Seq<char>>)
    requires
        parts.len() > 0,
        parts[0].len() > 0,
    ensures
        text::join_spec(parts, seq!['/']).len() > 0,
        text::join_spec(parts, seq!['/'])[0] == parts[0][0],
    decreases parts.len(),
{
    if parts.len() > 1 {
        assert(parts.drop_last()[0] == parts[0]);
        first_of_joined(parts.drop_last());
    }
}

/// White space around a path from outside does not count.
pub proof fn white_space_around_a_path_does_not_count(
    before: Seq<char>,
    p: Seq<char>,
    after: Seq<char>,
)
    requires
        text::all_space(before),
        text::all_space(after),
        p.len() > 0,
        !text::whitespace_spec(p[0]),
        !text::whitespace_spec(p.last()),
    ensures
        normalized_path(before + p + after) == normalized_path(p),
{
    text::trimming_takes_white_space_off(before, p, after);
    text::trimming_takes_white_space_off(seq![], p, seq![]);
    assert(seq![] + p + seq![] =~= p);
}

/// Of documents with one path the last counts; there is one under a path exactly where one has it.
pub proof fn the_last_document_of_a_path_counts(entries: Seq<DocumentEntry>, i: int, p: Seq<char>)
    ensures
        collected(entries).dom().contains(p) <==> exists|k: int|
            0 <= k < entries.len() && (#[trigger] entries[k]).path@ == p,
        0 <= i < entries.len() && (forall|k: int|
            i < k < entries.len() ==> (#[trigger] entries[k]).path@ != entries[i].path@)
            ==> collected(entries)[entries[i].path@] == entries[i]@,
    decreases entries.len(),
{
    if entries.len() > 0 {
        let rest = entries.drop_last();
        let last = entries.len() - 1;
        the_last_document_of_a_path_counts(rest, i, p);
        assert(entries[last] == entries.last());
        if collected(entries).dom().contains(p) {
            if p == entries.last().path@ {
                assert(entries[last].path@ == p);
            } else {
                let k = choose|k: int| 0 <= k < rest.len() && (#[trigger] rest[k]).path@ == p;
                assert(entries[k].path@ == p);
            }
        }
        if exists|k: int| 0 <= k < entries.len() && (#[trigger] entries[k]).path@ == p {
            let k = choose|k: int| 0 <= k < entries.len() && (#[trigger] entries[k]).path@ == p;
            if k < last {
                assert(rest[k].path@ == p);
            }
        }
        if 0 <= i < last && (forall|k: int|
            i < k < entries.len() ==> (#[trigger] entries[k]).path@ != entries[i].path@) {
            assert forall|k: int| i < k < rest.len() implies (#[trigger] rest[k]).path@
                != rest[i].path@ by {
                assert(entries[k].path@ != entries[i].path@);
            }
            assert(entries[last].path@ != entries[i].path@);
            assert(rest[i] == entries[i]);
        }
    }
}

/// A document is held as its file gives it: with its text, what it says of itself, and the texts
/// of its chunks; its topic is the one it names, else that of its path.
pub proof fn a_document_is_held_as_its_file_gives_it(
    rel: Seq<char>,
    content: Seq<char>,
    doc: DocumentModel,
    category: Option<Seq<char>>,
    path_topic: Option<Seq<char>>,
    last_modified: Option<u128>,
)
    ensures
        ({
            let e = entry_spec(rel, content, doc, category, path_topic, last_modified);
            &&& e.path == rel && e.content == content && e.category == category
            &&& e.title == doc.frontmatter.title && e.date == doc.frontmatter.date
            &&& e.tags == doc.frontmatter.tags && e.last_modified == last_modified
            &&& doc.frontmatter.topic is Some ==> e.topic == doc.frontmatter.topic
            &&& doc.frontmatter.topic is None ==> e.topic == path_topic
            &&& e.body is Some
            &&& doc.chunks.len() == 1 ==> e.body == Some(doc.chunks[0].content)
            &&& doc.chunks.len() == 2 ==> e.body == Some(
                doc.chunks[0].content + "\n\n"@ + doc.chunks[1].content,
            )
            &&& e.content_hash == sha256_hex_spec(vstd::utf8::encode_utf8(content))
        }),
{
    let parts = chunk_texts(doc.chunks);
    if parts.len() == 2 {
        reveal_with_fuel(text::join_spec, 2);
        assert(parts.drop_last()[0] == parts[0]);
        assert(parts.last() == parts[1]);
    }
}

/// A file is held under its path below the knowledge base, or under its whole path where it does
/// not lie there, with forward slashes either way.
pub proof fn a_file_is_held_under_its_path(kb_path: Seq<char>, rest: Seq<char>, full: Seq<char>)
    requires
        kb_path.len() > 0,
        rest.len() > 0 && rest[0] != '/',
        !path::is_dot_part(rest),
        path::trim_tail(rest) == rest,
    ensures
        ({
            let held = rel_path_spec(kb_path, path::join_spec(kb_path, rest));
            &&& held.len() == rest.len()
            &&& forall|i: int|
                0 <= i < rest.len() ==> #[trigger] held[i] == if rest[i] == '\\' {
                    '/'
                } else {
                    rest[i]
                }
        }),
        path::below_spec(full, kb_path) is None && !full.contains('\\') ==> rel_path_spec(
            kb_path,
            full,
        ) == full,
        !rel_path_spec(kb_path, full).contains('\\'),
{
    path::joined_lies_below(kb_path, rest);
    crate::watcher::slashes_go_forward(rest);
    let shown = match path::below_spec(full, kb_path) {
        Some(r) => r,
        None => full,
    };
    crate::watcher::slashes_go_forward(shown);
    let r = rel_path_spec(kb_path, full);
    if r.contains('\\') {
        let i = choose|i: int| 0 <= i < r.len() && r[i] == '\\';
        assert(r[i] == if shown[i] == '\\' {
            '/'
        } else {
            shown[i]
        });
    }
    if path::below_spec(full, kb_path) is None && !full.contains('\\') {
        assert forall|i: int| 0 <= i < full.len() implies r[i] == full[i] by {
            assert(full.contains(full[i]));
        }
        assert(r =~= full);
    }
}

/// What is known of a document is all that its entry holds.
pub proof fn an_entry_is_known_in_full(e: DocumentEntry)
    ensures
        e@.path == e.path@ && e@.content == e.content@ && e@.content_hash == e.content_hash@,
        e@.title is Some <==> e.title is Some,
        e.title is Some ==> e@.title->0 == e.title->0@,
        e@.date is Some <==> e.date is Some,
        e.date is Some ==> e@.date->0 == e.date->0@,
        e@.topic is Some <==> e.topic is Some,
        e.topic is Some ==> e@.topic->0 == e.topic->0@,
        e@.category is Some <==> e.category is Some,
        e.category is Some ==> e@.category->0 == e.category->0@,
        e@.body is Some <==> e.body is Some,
        e.body is Some ==> e@.body->0 == e.body->0@,
        e@.tags.len() == e.tags@.len(),
        forall|i: int| 0 <= i < e.tags@.len() ==> #[trigger] e@.tags[i] == e.tags@[i]@,
        e@.last_modified == e.last_modified,
{
}

/// An index holds its documents and no others, each under its path.
pub proof fn an_index_holds_its_documents(index: DocumentIndex, i: int, p: Seq<char>)
    requires
        index.wf(),
        0 <= i < index.docs@.len(),
    ensures
        index@.dom().contains(index.docs@[i].path@),
        index@[index.docs@[i].path@] == index.docs@[i]@,
        index@.dom().contains(p) <==> exists|k: int|
            0 <= k < index.docs@.len() && (#[trigger] index.docs@[k]).path@ == p,
{
    holds_at(index, i);
}

} // verus!

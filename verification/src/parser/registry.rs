//! The parsers that are enabled.
use vstd::prelude::*;

use super::{DocumentModel, MarkdownParser, ParsedDocument, Parser, TxtParser, slice_views};
use crate::text;

verus! {

/// One of the parsers of the library.
#[derive(Debug, Clone, Copy, PartialEq, Eq, Structural)]
pub enum AnyParser {
    Markdown,
    Txt,
}

impl Parser for AnyParser {
    open spec fn format(&self) -> Seq<char> {
        match self {
            AnyParser::Markdown => MarkdownParser.format(),
            AnyParser::Txt => TxtParser.format(),
        }
    }

    open spec fn parsed(
        &self,
        raw: Seq<char>,
        path_hint: Seq<char>,
        exclude_headings: Seq<Seq<char>>,
    ) -> DocumentModel {
        match self {
            AnyParser::Markdown => MarkdownParser.parsed(raw, path_hint, exclude_headings),
            AnyParser::Txt => TxtParser.parsed(raw, path_hint, exclude_headings),
        }
    }

    fn extension(&self) -> (r: &'static str) {
        match self {
            AnyParser::Markdown => MarkdownParser.extension(),
            AnyParser::Txt => TxtParser.extension(),
        }
    }

    fn parse(&self, raw: &str, path_hint: &str, exclude_headings: &[&str]) -> (r: ParsedDocument) {
        match self {
            AnyParser::Markdown => MarkdownParser.parse(raw, path_hint, exclude_headings),
            AnyParser::Txt => TxtParser.parse(raw, path_hint, exclude_headings),
        }
    }
}

/// What is wrong with a list of parsers to enable.
#[derive(Debug, Clone)]
pub enum RegistryError {
    /// The list is empty.
    Empty,
    /// A parser is named twice.
    Duplicate { id: String },
    /// There is no such parser. The name is in lower case.
    Unknown { id: String },
}

impl RegistryError {
    /// The error in words.
    pub open spec fn text(self) -> Seq<char> {
        match self {
            RegistryError::Empty =>
            "[parsers].enabled must contain at least one id (got empty list)"@,
            RegistryError::Duplicate { id } => "[parsers].enabled contains duplicate id "@
                + text::quoted_spec(id@),
            RegistryError::Unknown { id } => "[parsers].enabled contains unknown id "@
                + text::quoted_spec(id@) + " — supported in this build: md, txt"@,
        }
    }

    /// The error in words.
    pub fn message(&self) -> (r: String)
        ensures
            r@ == self.text(),
    {
        match self {
            RegistryError::Empty => text::copy(
                "[parsers].enabled must contain at least one id (got empty list)",
            ),
            RegistryError::Duplicate { id } => {
                let mut r = text::copy("[parsers].enabled contains duplicate id ");
                r.append(text::quoted(id.as_str()).as_str());
                r
            },
            RegistryError::Unknown { id } => {
                let mut r = text::copy("[parsers].enabled contains unknown id ");
                r.append(text::quoted(id.as_str()).as_str());
                r.append(" — supported in this build: md, txt");
                r
            },
        }
    }
}

/// The parser with the given name in lower case.
pub open spec fn parser_named(name: Seq<char>) -> Option<AnyParser> {
    if name == "md"@ {
        Some(AnyParser::Markdown)
    } else if name == "txt"@ {
        Some(AnyParser::Txt)
    } else {
        None
    }
}

/// The names of a list, in lower case.
pub open spec fn lowered(ids: Seq<String>) -> Seq<Seq<char>> {
    Seq::new(ids.len(), |i: int| text::ascii_lowercase_spec(ids[i]@))
}

/// Whether the name at place `i` is one that stands before it already.
pub open spec fn repeats(ids: Seq<String>, i: int) -> bool {
    lowered(ids).take(i).contains(lowered(ids)[i])
}

/// Whether the name at place `i` can be enabled: it is new, and there is such a parser.
pub open spec fn can_enable(ids: Seq<String>, i: int) -> bool {
    !repeats(ids, i) && parser_named(lowered(ids)[i]) is Some
}

/// What comes of enabling the parsers with the given names: one parser for each, where all can
/// be enabled; else what is wrong with the first that cannot.
pub open spec fn enables(ids: Seq<String>, r: Result<Registry, RegistryError>) -> bool {
    match r {
        Ok(reg) => {
            &&& ids.len() > 0
            &&& reg.parsers@.len() == ids.len()
            &&& forall|i: int|
                0 <= i < ids.len() ==> #[trigger] can_enable(ids, i) && parser_named(
                    lowered(ids)[i],
                ) == Some(reg.parsers@[i])
        },
        Err(RegistryError::Empty) => ids.len() == 0,
        Err(RegistryError::Duplicate { id }) => exists|k: int|
            {
                &&& 0 <= k < ids.len()
                &&& #[trigger] repeats(ids, k)
                &&& id@ == ids[k]@
                &&& forall|i: int| 0 <= i < k ==> #[trigger] can_enable(ids, i)
            },
        Err(RegistryError::Unknown { id }) => exists|k: int|
            {
                &&& 0 <= k < ids.len()
                &&& !#[trigger] repeats(ids, k)
                &&& parser_named(lowered(ids)[k]) is None
                &&& id@ == lowered(ids)[k]
                &&& forall|i: int| 0 <= i < k ==> #[trigger] can_enable(ids, i)
            },
    }
}

/// The parsers that are enabled, in the order in which they were named.
#[derive(Debug, Clone)]
pub struct Registry {
    pub parsers: Vec<AnyParser>,
}

impl Registry {
    /// Enables the parsers with the given names; case does not matter. It fails at the first
    /// name that repeats one before it or that no parser has, and where there is no name at all.
    pub fn from_enabled(ids: &[String]) -> (r: Result<Registry, RegistryError>)
        ensures
            enables(ids@, r),
    {
        if ids.len() == 0 {
            return Err(RegistryError::Empty);
        }
        let mut parsers: Vec<AnyParser> = Vec::new();
        let mut seen: Vec<String> = Vec::new();
        let mut i: usize = 0;
        assert(text::views(seen@) =~= lowered(ids@).take(0));
        while i < ids.len()
            invariant
                i <= ids@.len(),
                parsers@.len() == i,
                text::views(seen@) == lowered(ids@).take(i as int),
                forall|j: int|
                    0 <= j < i ==> #[trigger] can_enable(ids@, j) && parser_named(
                        lowered(ids@)[j],
                    ) == Some(parsers@[j]),
            decreases ids@.len() - i,
        {
            let lower = text::ascii_lowercase(ids[i].as_str());
            assert(lower@ == lowered(ids@)[i as int]);
            if text::list_contains(&seen, lower.as_str()) {
                assert(repeats(ids@, i as int));
                return Err(RegistryError::Duplicate { id: ids[i].clone() });
            }
            assert(!repeats(ids@, i as int));
            let parser = if *lower.as_str() == *"md" {
                AnyParser::Markdown
            } else if *lower.as_str() == *"txt" {
                AnyParser::Txt
            } else {
                return Err(RegistryError::Unknown { id: lower });
            };
            assert(parser_named(lowered(ids@)[i as int]) == Some(parser));
            let ghost before = text::views(seen@);
            seen.push(lower);
            assert(text::views(seen@) =~= before.push(lower@));
            assert(text::views(seen@) =~= lowered(ids@).take(i + 1));
            parsers.push(parser);
            assert(can_enable(ids@, i as int));
            i += 1;
        }
        Ok(Registry { parsers })
    }

    /// The parsers that are enabled where nothing is said: Markdown alone.
    pub fn defaults() -> (r: Registry)
        ensures
            r.parsers@ == seq![AnyParser::Markdown],
    {
        let mut parsers: Vec<AnyParser> = Vec::new();
        parsers.push(AnyParser::Markdown);
        assert(parsers@ =~= seq![AnyParser::Markdown]);
        Registry { parsers }
    }

    /// Whether the parser at place `i` is for the extension, whatever its case.
    pub open spec fn handles(self, i: int, ext: Seq<char>) -> bool {
        text::ascii_lowercase_spec(self.parsers@[i].format()) == text::ascii_lowercase_spec(ext)
    }

    /// The first parser for a file extension; case does not matter.
    pub fn by_extension(&self, ext: &str) -> (r: Option<AnyParser>)
        ensures
            match r {
                Some(p) => exists|k: int|
                    {
                        &&& 0 <= k < self.parsers@.len()
                        &&& #[trigger] self.handles(k, ext@)
                        &&& p == self.parsers@[k]
                        &&& forall|i: int| 0 <= i < k ==> !#[trigger] self.handles(i, ext@)
                    },
                None => forall|i: int|
                    0 <= i < self.parsers@.len() ==> !#[trigger] self.handles(i, ext@),
            },
    {
        let mut i: usize = 0;
        while i < self.parsers.len()
            invariant
                i <= self.parsers@.len(),
                forall|j: int| 0 <= j < i ==> !#[trigger] self.handles(j, ext@),
            decreases self.parsers@.len() - i,
        {
            let p = self.parsers[i];
            if text::eq_ignore_ascii_case(p.extension(), ext) {
                assert(self.handles(i as int, ext@));
                return Some(p);
            }
            assert(!self.handles(i as int, ext@));
            i += 1;
        }
        None
    }

    /// The extensions of the enabled parsers, in order.
    pub open spec fn extensions_spec(self) -> Seq<Seq<char>> {
        Seq::new(self.parsers@.len(), |i: int| self.parsers@[i].format())
    }

    /// The extensions of the enabled parsers, in order.
    pub fn extensions(&self) -> (r: Vec<&'static str>)
        ensures
            slice_views(r@) == self.extensions_spec(),
    {
        let mut out: Vec<&'static str> = Vec::new();
        let mut i: usize = 0;
        while i < self.parsers.len()
            invariant
                i <= self.parsers@.len(),
                out@.len() == i,
                forall|j: int| 0 <= j < i ==> (#[trigger] out@[j])@ == self.parsers@[j].format(),
            decreases self.parsers@.len() - i,
        {
            let p = self.parsers[i];
            out.push(p.extension());
            i += 1;
        }
        assert(slice_views(out@) =~= self.extensions_spec());
        out
    }

    /// Whether a parser for exactly this extension is enabled.
    pub fn has_extension(&self, ext: &str) -> (r: bool)
        ensures
            r == self.extensions_spec().contains(ext@),
    {
        let mut i: usize = 0;
        while i < self.parsers.len()
            invariant
                i <= self.parsers@.len(),
                forall|j: int| 0 <= j < i ==> #[trigger] self.extensions_spec()[j] != ext@,
            decreases self.parsers@.len() - i,
        {
            let p = self.parsers[i];
            assert(self.extensions_spec()[i as int] == p.format());
            if *p.extension() == *ext {
                return true;
            }
            i += 1;
        }
        false
    }

    /// Whether a parser for the extension is enabled, whatever the case of its letters.
    pub open spec fn accepts_spec(self, ext: Seq<char>) -> bool {
        exists|i: int| 0 <= i < self.parsers@.len() && #[trigger] self.handles(i, ext)
    }

    /// Whether a parser for the extension is enabled, whatever the case of its letters.
    pub fn accepts(&self, ext: &str) -> (r: bool)
        ensures
            r == self.accepts_spec(ext@),
    {
        self.by_extension(ext).is_some()
    }
}

impl Registry {
    /// An extension is accepted exactly where one of the enabled parsers is for it: Markdown for
    /// `md` and plain text for `txt`, whatever the case of the letters.
    pub proof fn accepting_goes_by_extension(self, ext: Seq<char>)
        ensures
            self.accepts_spec(ext) <==> {
                ||| self.parsers@.contains(AnyParser::Markdown) && text::same_but_for_case(
                    ext,
                    "md"@,
                )
                ||| self.parsers@.contains(AnyParser::Txt) && text::same_but_for_case(
                    ext,
                    "txt"@,
                )
            },
    {
        text::lowering_forgets_case(ext, "md"@);
        text::lowering_forgets_case(ext, "txt"@);
        if self.accepts_spec(ext) {
            let i = choose|i: int| 0 <= i < self.parsers@.len() && #[trigger] self.handles(i, ext);
            assert(self.parsers@.contains(self.parsers@[i]));
        }
        if self.parsers@.contains(AnyParser::Markdown) && text::same_but_for_case(ext, "md"@) {
            let i = choose|i: int|
                0 <= i < self.parsers@.len() && self.parsers@[i] == AnyParser::Markdown;
            assert(self.handles(i, ext));
        }
        if self.parsers@.contains(AnyParser::Txt) && text::same_but_for_case(ext, "txt"@) {
            let i = choose|i: int|
                0 <= i < self.parsers@.len() && self.parsers@[i] == AnyParser::Txt;
            assert(self.handles(i, ext));
        }
    }
}

impl Default for Registry {
    fn default() -> (r: Self)
        ensures
            r.parsers@ == seq![AnyParser::Markdown],
    {
        Registry::defaults()
    }
}

proof fn names_tell_parsers_apart(a: Seq<char>, b: Seq<char>)
    requires
        parser_named(a) is Some,
        parser_named(a) == parser_named(b),
    ensures
        a == b,
{
}

/// A registry never holds a parser twice.
pub proof fn enabled_parsers_differ(ids: Seq<String>, parsers: Seq<AnyParser>, i: int, j: int)
    requires
        parsers.len() == ids.len(),
        forall|k: int|
            0 <= k < ids.len() ==> #[trigger] can_enable(ids, k) && parser_named(
                lowered(ids)[k],
            ) == Some(parsers[k]),
        0 <= i < j < parsers.len(),
    ensures
        parsers[i] != parsers[j],
{
    assert(can_enable(ids, i) && can_enable(ids, j));
    if parsers[i] == parsers[j] {
        names_tell_parsers_apart(lowered(ids)[i], lowered(ids)[j]);
        assert(lowered(ids).take(j)[i] == lowered(ids)[j]);
        assert(repeats(ids, j));
    }
}

/// Enabling succeeds exactly where there is a name, each is `md` or `txt` in capital or small
/// letters, and no two are the same but for that; then there is one parser for each name, in the
/// same order.
pub proof fn which_parsers_can_be_enabled(ids: Seq<String>, r: Result<Registry, RegistryError>)
    requires
        enables(ids, r),
    ensures
        r is Ok <==> {
            &&& ids.len() > 0
            &&& forall|i: int|
                0 <= i < ids.len() ==> text::same_but_for_case((#[trigger] ids[i])@, "md"@)
                    || text::same_but_for_case(ids[i]@, "txt"@)
            &&& forall|i: int, j: int|
                0 <= i < j < ids.len() ==> !text::same_but_for_case(
                    (#[trigger] ids[i])@,
                    (#[trigger] ids[j])@,
                )
        },
        r is Ok ==> r->Ok_0.parsers@.len() == ids.len() && forall|i: int|
            0 <= i < ids.len() ==> {
                &&& text::same_but_for_case((#[trigger] ids[i])@, "md"@) ==> r->Ok_0.parsers@[i]
                    is Markdown
                &&& text::same_but_for_case(ids[i]@, "txt"@) ==> r->Ok_0.parsers@[i] is Txt
            },
        ids.len() == 0 <==> r == Err::<Registry, RegistryError>(RegistryError::Empty),
{
    assert forall|i: int| 0 <= i < ids.len() implies {
        &&& (lowered(ids)[i] == "md"@ <==> text::same_but_for_case((#[trigger] ids[i])@, "md"@))
        &&& (lowered(ids)[i] == "txt"@ <==> text::same_but_for_case(ids[i]@, "txt"@))
    } by {
        a_name_in_small_letters(ids[i]@);
    }
    assert("md"@ != "txt"@) by {
        reveal_strlit("md");
        reveal_strlit("txt");
        assert("md"@.len() == 2 && "txt"@.len() == 3);
    }
    assert forall|i: int, j: int| 0 <= i < j < ids.len() implies (lowered(ids)[i] == lowered(ids)[j]
        <==> text::same_but_for_case((#[trigger] ids[i])@, (#[trigger] ids[j])@)) by {
        text::lowering_forgets_case(ids[i]@, ids[j]@);
    }
    match r {
        Ok(reg) => {
            assert forall|i: int| 0 <= i < ids.len() implies text::same_but_for_case(
                (#[trigger] ids[i])@,
                "md"@,
            ) || text::same_but_for_case(ids[i]@, "txt"@) by {
                assert(can_enable(ids, i));
            }
            assert forall|i: int, j: int| 0 <= i < j < ids.len() implies !text::same_but_for_case(
                (#[trigger] ids[i])@,
                (#[trigger] ids[j])@,
            ) by {
                assert(can_enable(ids, j));
                if text::same_but_for_case(ids[i]@, ids[j]@) {
                    assert(lowered(ids).take(j)[i] == lowered(ids)[j]);
                    assert(repeats(ids, j));
                }
            }
            assert forall|i: int| 0 <= i < ids.len() implies {
                &&& text::same_but_for_case((#[trigger] ids[i])@, "md"@) ==> reg.parsers@[i]
                    is Markdown
                &&& text::same_but_for_case(ids[i]@, "txt"@) ==> reg.parsers@[i] is Txt
            } by {
                assert(can_enable(ids, i));
            }
        },
        Err(RegistryError::Empty) => {},
        Err(RegistryError::Duplicate { id }) => {
            let k = choose|k: int|
                {
                    &&& 0 <= k < ids.len()
                    &&& #[trigger] repeats(ids, k)
                    &&& id@ == ids[k]@
                    &&& forall|i: int| 0 <= i < k ==> #[trigger] can_enable(ids, i)
                };
            let i = choose|i: int|
                0 <= i < lowered(ids).take(k).len() && lowered(ids).take(k)[i] == lowered(ids)[k];
            assert(text::same_but_for_case(ids[i]@, ids[k]@));
        },
        Err(RegistryError::Unknown { id }) => {
            let k = choose|k: int|
                {
                    &&& 0 <= k < ids.len()
                    &&& !#[trigger] repeats(ids, k)
                    &&& parser_named(lowered(ids)[k]) is None
                    &&& id@ == lowered(ids)[k]
                    &&& forall|i: int| 0 <= i < k ==> #[trigger] can_enable(ids, i)
                };
            assert(!text::same_but_for_case(ids[k]@, "md"@));
        },
    }
}

proof fn a_name_in_small_letters(id: Seq<char>)
    ensures
        text::ascii_lowercase_spec(id) == "md"@ <==> text::same_but_for_case(id, "md"@),
        text::ascii_lowercase_spec(id) == "txt"@ <==> text::same_but_for_case(id, "txt"@),
{
    reveal_strlit("md");
    reveal_strlit("txt");
    assert(text::ascii_lowercase_spec("md"@) =~= "md"@);
    assert(text::ascii_lowercase_spec("txt"@) =~= "txt"@);
    text::lowering_forgets_case(id, "md"@);
    text::lowering_forgets_case(id, "txt"@);
}

} // verus!

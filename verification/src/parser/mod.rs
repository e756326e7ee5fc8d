//! Parsed documents, and the parsers that make them.
use vstd::prelude::*;

use crate::text;

pub mod markdown;
pub mod registry;
pub mod txt;

pub use markdown::MarkdownParser;
pub use registry::Registry;
pub use txt::TxtParser;

verus! {

/// What a document says of itself: the YAML block at the head of a Markdown file, or what the
/// name of a text file gives.
#[derive(Debug, Clone)]
pub struct Frontmatter {
    pub title: Option<String>,
    pub date: Option<String>,
    pub topic: Option<String>,
    pub depth: Option<String>,
    pub tags: Vec<String>,
}

/// What a [`Frontmatter`] holds.
pub struct FrontmatterModel {
    pub title: Option<Seq<char>>,
    pub date: Option<Seq<char>>,
    pub topic: Option<Seq<char>>,
    pub depth: Option<Seq<char>>,
    pub tags: Seq<Seq<char>>,
}

impl View for Frontmatter {
    type V = FrontmatterModel;

    open spec fn view(&self) -> FrontmatterModel {
        FrontmatterModel {
            title: text::opt_view(self.title),
            date: text::opt_view(self.date),
            topic: text::opt_view(self.topic),
            depth: text::opt_view(self.depth),
            tags: text::views(self.tags@),
        }
    }
}

impl FrontmatterModel {
    /// A document that says nothing of itself.
    pub open spec fn nothing() -> FrontmatterModel {
        FrontmatterModel {
            title: None,
            date: None,
            topic: None,
            depth: None,
            tags: Seq::empty(),
        }
    }
}

impl Default for Frontmatter {
    fn default() -> (r: Self)
        ensures
            r@ == FrontmatterModel::nothing(),
    {
        let r = Frontmatter { title: None, date: None, topic: None, depth: None, tags: Vec::new() };
        assert(text::views(r.tags@) =~= Seq::<Seq<char>>::empty());
        r
    }
}

/// A piece of a document that is searched for on its own.
#[derive(Debug, Clone)]
pub struct Chunk {
    /// The place among the chunks of the document.
    pub index: usize,
    pub heading: Option<String>,
    /// The level of the heading, where there is one.
    pub level: Option<u8>,
    pub content: String,
}

/// What a [`Chunk`] holds.
pub struct ChunkModel {
    pub index: nat,
    pub heading: Option<Seq<char>>,
    pub level: Option<u8>,
    pub content: Seq<char>,
}

impl View for Chunk {
    type V = ChunkModel;

    open spec fn view(&self) -> ChunkModel {
        ChunkModel {
            index: self.index as nat,
            heading: text::opt_view(self.heading),
            level: self.level,
            content: self.content@,
        }
    }
}

impl Default for Chunk {
    fn default() -> (r: Self)
        ensures
            r@ == (ChunkModel {
                index: 0,
                heading: None,
                level: None,
                content: Seq::<char>::empty(),
            }),
    {
        Chunk { index: 0, heading: None, level: None, content: String::new() }
    }
}

/// A document with what it says of itself, its chunks, and the text it was made from.
#[derive(Debug, Clone)]
pub struct ParsedDocument {
    pub frontmatter: Frontmatter,
    pub chunks: Vec<Chunk>,
    pub raw_content: String,
}

/// What a [`ParsedDocument`] holds.
pub struct DocumentModel {
    pub frontmatter: FrontmatterModel,
    pub chunks: Seq<ChunkModel>,
    pub raw_content: Seq<char>,
}

/// The models of a list of chunks.
pub open spec fn chunk_models(v: Seq<Chunk>) -> Seq<ChunkModel> {
    Seq::new(v.len(), |i: int| v[i]@)
}

impl View for ParsedDocument {
    type V = DocumentModel;

    open spec fn view(&self) -> DocumentModel {
        DocumentModel {
            frontmatter: self.frontmatter@,
            chunks: chunk_models(self.chunks@),
            raw_content: self.raw_content@,
        }
    }
}

/// The texts of a slice.
pub open spec fn slice_views(v: Seq<&str>) -> Seq<Seq<char>> {
    Seq::new(v.len(), |i: int| v[i]@)
}

/// A parser for one file format.
pub trait Parser {
    /// The file extension that the parser is for.
    spec fn format(&self) -> Seq<char>;

    /// What the parser makes of a text.
    spec fn parsed(
        &self,
        raw: Seq<char>,
        path_hint: Seq<char>,
        exclude_headings: Seq<Seq<char>>,
    ) -> DocumentModel;

    /// The file extension that the parser is for, in lower case and without a dot.
    fn extension(&self) -> (r: &'static str)
        ensures
            r@ == self.format(),
    ;

    /// The name by which the configuration enables the parser.
    fn id(&self) -> (r: &'static str)
        ensures
            r@ == self.format(),
    {
        self.extension()
    }

    /// Parses the text of a file. `path_hint` is its path below the knowledge base, with forward
    /// slashes; sections whose heading contains one of `exclude_headings` are left out, where
    /// the format has sections.
    fn parse(&self, raw: &str, path_hint: &str, exclude_headings: &[&str]) -> (r: ParsedDocument)
        ensures
            r@ == self.parsed(raw@, path_hint@, slice_views(exclude_headings@)),
    ;
}

/// What is said where no parser is enabled.
pub open spec fn no_parsers_text() -> Seq<char> {
    "[parsers].enabled must contain at least one id (got empty array). Remove the key entirely to use the default [\"md\"]."@
}

/// The `[parsers]` section of the configuration.
#[derive(Debug, Clone, PartialEq)]
pub struct ParsersConfig {
    pub enabled: Vec<String>,
}

impl ParsersConfig {
    /// Whether at least one parser is enabled; if not, the error in words.
    pub fn validate(&self) -> (r: Result<(), String>)
        ensures
            r is Ok <==> self.enabled@.len() > 0,
            r matches Err(e) ==> e@ == no_parsers_text(),
    {
        if self.enabled.len() == 0 {
            return Err(
                text::copy(
                    "[parsers].enabled must contain at least one id (got empty array). Remove the key entirely to use the default [\"md\"].",
                ),
            );
        }
        Ok(())
    }
}

/// What a document says of itself, and what its chunks hold, is known in full.
pub proof fn a_document_is_known_in_full(fm: Frontmatter, chunk: Chunk)
    ensures
        fm@.title is Some <==> fm.title is Some,
        fm.title is Some ==> fm@.title->0 == fm.title->0@,
        fm@.date is Some <==> fm.date is Some,
        fm.date is Some ==> fm@.date->0 == fm.date->0@,
        fm@.topic is Some <==> fm.topic is Some,
        fm.topic is Some ==> fm@.topic->0 == fm.topic->0@,
        fm@.depth is Some <==> fm.depth is Some,
        fm.depth is Some ==> fm@.depth->0 == fm.depth->0@,
        fm@.tags.len() == fm.tags@.len(),
        forall|i: int| 0 <= i < fm.tags@.len() ==> #[trigger] fm@.tags[i] == fm.tags@[i]@,
        chunk@.index == chunk.index && chunk@.level == chunk.level,
        chunk@.content == chunk.content@,
        chunk@.heading is Some <==> chunk.heading is Some,
        chunk.heading is Some ==> chunk@.heading->0 == chunk.heading->0@,
{
}

} // verus!

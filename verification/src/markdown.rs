//! Markdown without a registry.
use vstd::prelude::*;

use crate::parser::markdown::{md_parsed, no_chunk_has_an_excluded_heading};
use crate::parser::{MarkdownParser, ParsedDocument, Parser, slice_views};

verus! {

/// Parses Markdown, leaving out no heading.
pub fn parse(raw: &str) -> (r: ParsedDocument)
    ensures
        r@ == md_parsed(raw@, seq![]),
{
    let excludes: Vec<&str> = Vec::new();
    let r = parse_with_excludes(raw, excludes.as_slice());
    assert(slice_views(excludes@) =~= seq![]);
    r
}

/// Parses Markdown, leaving out the sections whose heading contains one of `excludes`.
pub fn parse_with_excludes(raw: &str, excludes: &[&str]) -> (r: ParsedDocument)
    ensures
        r@ == md_parsed(raw@, slice_views(excludes@)),
        r.raw_content@ == raw@,
        forall|i: int, e: int, at: int|
            0 <= i < r.chunks@.len() && 0 <= e < excludes@.len() && r.chunks@[i].heading is Some
                && 0 <= at && at + excludes@[e]@.len() <= r.chunks@[i].heading->0@.len()
                ==> #[trigger] r.chunks@[i].heading->0@.subrange(at, at + excludes@[e]@.len())
                != excludes@[e]@,
{
    let r = MarkdownParser.parse(raw, "", excludes);
    proof {
        let list = slice_views(excludes@);
        assert forall|i: int, e: int, at: int|
            0 <= i < r.chunks@.len() && 0 <= e < excludes@.len() && r.chunks@[i].heading is Some
                && 0 <= at && at + excludes@[e]@.len()
                <= r.chunks@[i].heading->0@.len() implies #[trigger] r.chunks@[i].heading->0@.subrange(
            at,
            at + excludes@[e]@.len(),
        ) != excludes@[e]@ by {
            assert(r@.chunks[i] == r.chunks@[i]@);
            assert(list[e] == excludes@[e]@);
            no_chunk_has_an_excluded_heading(raw@, list, i, e, at);
        }
    }
    r
}

} // verus!

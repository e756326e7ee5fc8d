//! The decision-making core of a knowledge-base server, verified.
use vstd::prelude::*;

pub mod cli;
pub mod colour;
pub mod config;
pub mod document_index;
pub mod embedder;
pub mod eval;
pub mod graph;
pub mod ieee;
pub mod indexer;
pub mod markdown;
pub mod order;
pub mod parser;
pub mod path;
pub mod quality;
pub mod report;
pub mod schema;
pub mod service;
pub mod text;
pub mod timing;
pub mod transport;
pub mod tray;
pub mod watcher;

verus! {

/// The index of a knowledge base: it lies beside the knowledge base, in the directory that
/// holds it.
pub open spec fn db_path(kb_path: Seq<char>) -> Seq<char> {
    match path::parent_spec(kb_path) {
        Some(dir) => path::join_spec(dir, ".kb-mcp.db"@),
        None => path::join_spec("."@, ".kb-mcp.db"@),
    }
}

/// The index of a knowledge base.
pub fn resolve_db_path(kb_path: &str) -> (r: String)
    ensures
        r@ == db_path(kb_path@),
{
    match path::parent(kb_path) {
        Some(dir) => path::join(dir.as_str(), ".kb-mcp.db"),
        None => path::join(".", ".kb-mcp.db"),
    }
}

/// The index lies in the directory that the knowledge base lies in, whatever the knowledge base
/// is called.
pub proof fn the_index_lies_beside_the_knowledge_base(dir: Seq<char>, name: Seq<char>)
    requires
        name.len() > 0,
        forall|i: int| 0 <= i < name.len() ==> #[trigger] name[i] != '/',
        name != seq!['.'],
        path::trim_tail(dir) == dir,
        dir.len() > 0 && dir.last() != '/',
    ensures
        db_path(dir + seq!['/'] + name) == dir + seq!['/'] + ".kb-mcp.db"@,
        db_path(seq!['/'] + name) == seq!['/'] + ".kb-mcp.db"@,
        db_path(name) == ".kb-mcp.db"@,
        db_path(seq!['/']) == "./.kb-mcp.db"@,
{
    path::a_path_is_its_directory_and_its_name(dir, name);
    reveal_strlit(".kb-mcp.db");
    reveal_strlit("./.kb-mcp.db");
    reveal_strlit(".");
    assert(seq!['/'].last() == '/');
    assert("."@.last() == '.');
    assert("."@ + seq!['/'] + ".kb-mcp.db"@ =~= "./.kb-mcp.db"@);
}

} // verus!

# kb-mcp

Semantic search over a knowledge base of Markdown and plain-text files, served to MCP clients,
with a command line, an evaluation harness, a service installer and a Windows tray.

## Layout

- `src/` is the library: the data structures, parsers, rules and state machines. Its
  functions have contracts, and Verus proves them.
- `tests/` runs the library on concrete values.
- `app/` is the program around it: arguments, files, processes, models, terminals.

## Modules of the library

| module | what it holds |
| --- | --- |
| `text`, `path`, `order`, `ieee` | strings, paths, sorting, and floating-point numbers by their bits |
| `config` | the configuration: defaults, validation, where the file is looked for |
| `cli`, `report` | what a command does with its flags, and what it prints |
| `parser`, `markdown` | frontmatter, chunks, and the registry of parsers |
| `schema` | rules on frontmatter and their violations |
| `quality` | the score of a chunk |
| `document_index` | the documents in memory |
| `watcher` | what a change on disk means for the index |
| `graph` | the walk from a document to its neighbours |
| `eval`, `colour` | golden queries, their metrics, the history of runs, and its report |
| `embedder` | the models, and the order after reranking |
| `indexer`, `timing`, `transport` | progress, timing of requests, how the server listens |
| `service`, `tray` | installing a service, and watching it from the tray |

Numbers with a fractional part are held as the bits of their IEEE 754 form. The library
compares them and hands them on; the program does the arithmetic.

A call into another crate stands behind an item whose doc comment names the function and says
what is claimed of it.

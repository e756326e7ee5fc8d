use kb_mcp::markdown::{parse, parse_with_excludes};
use kb_mcp::parser::markdown::{parse_frontmatter, scalar_text, YamlScalar};
use kb_mcp::parser::txt::{derive_title, normalize_text, split_words};
use kb_mcp::parser::{Chunk, MarkdownParser, Parser, ParsersConfig, Registry, TxtParser};

#[test]
fn test_crlf_frontmatter_values_have_no_trailing_cr() {
    let crlf = "---\r\n\
                title: \"CRLF Title\"\r\n\
                topic: mcp\r\n\
                tags:\r\n\
                  - a\r\n\
                  - b\r\n\
                ---\r\n\
                \r\n\
                # Body\r\n\
                Some content.\r\n";
    let doc = parse(crlf);
    let title = doc.frontmatter.title.as_deref().unwrap_or("");
    assert!(!title.contains('\r'), "title must not retain CR: {title:?}");
    assert_eq!(title, "CRLF Title");
    assert_eq!(doc.frontmatter.topic.as_deref(), Some("mcp"));
    assert!(!doc.frontmatter.tags.iter().any(|t| t.contains('\r')));
    assert_eq!(doc.frontmatter.tags, vec!["a", "b"]);
}

#[test]
fn test_parse_with_custom_excludes() {
    let md = "\
# タイトル

## 概要

本文 1 を ある程度 十分な長さで 書く必要がある ので埋める埋める埋める。

## 参考リンク

リンク集 本文 十分な長さで 書く必要がある ので埋める埋める埋める。

## 次の深堀り候補

候補 本文 十分な長さで 書く必要がある ので埋める埋める埋める。
";
    let doc = parse_with_excludes(md, &["参考リンク"]);
    let headings: Vec<Option<&str>> = doc.chunks.iter().map(|c| c.heading.as_deref()).collect();
    assert!(
        !headings.contains(&Some("参考リンク")),
        "custom excluded heading should not appear: {headings:?}"
    );
    assert!(
        headings.contains(&Some("次の深堀り候補")),
        "previously-default excluded heading should now appear: {headings:?}"
    );
}

#[test]
fn test_frontmatter_yaml_alias_bomb_is_safe() {
    let bomb = r#"---
title: bomb
tags:
  - &a x
  - &b [*a, *a, *a, *a, *a, *a, *a, *a]
  - &c [*b, *b, *b, *b, *b, *b, *b, *b]
  - &d [*c, *c, *c, *c, *c, *c, *c, *c]
  - &e [*d, *d, *d, *d, *d, *d, *d, *d]
---
body
"#;
    let doc = parse(bomb);
    let _ = doc.frontmatter;
    let _ = doc.chunks;
}

const NOTES: &str = "---
title: Notes
date: 2026-04-10
topic: mcp
depth: 1
tags: [mcp, protocol, overview]
---
# Notes

Some words first.

## Overview

What it is, and what it is for, in one sentence or two.

### Detail

More of it, down to the parts that only a few will need.

## Next

What to read. The rest is in the documents of the same topic.
";

#[test]
fn a_document_says_what_it_is() {
    let doc = parse(NOTES);
    assert_eq!(doc.frontmatter.title.as_deref(), Some("Notes"));
    assert_eq!(doc.frontmatter.date.as_deref(), Some("2026-04-10"));
    assert_eq!(doc.frontmatter.topic.as_deref(), Some("mcp"));
    assert_eq!(doc.frontmatter.depth.as_deref(), Some("1"));
    assert_eq!(doc.frontmatter.tags, vec!["mcp", "protocol", "overview"]);
    assert_eq!(doc.raw_content, NOTES);
}

#[test]
fn sections_become_numbered_chunks() {
    let doc = parse(NOTES);
    assert!(doc.chunks.len() >= 2);
    for (i, chunk) in doc.chunks.iter().enumerate() {
        assert_eq!(chunk.index, i, "Chunk index mismatch at position {i}");
        assert!(!chunk.content.is_empty());
    }
    let levels: Vec<(Option<&str>, Option<u8>)> =
        doc.chunks.iter().map(|c| (c.heading.as_deref(), c.level)).collect();
    assert!(levels.contains(&(Some("Overview"), Some(2))), "{levels:?}");
    assert!(levels.contains(&(Some("Detail"), Some(3))), "{levels:?}");
    assert!(levels.contains(&(Some("Next"), Some(2))), "{levels:?}");
}

#[test]
fn an_excluded_section_leaves_with_its_text() {
    let doc = parse_with_excludes(NOTES, &["Next"]);
    for chunk in &doc.chunks {
        assert_ne!(chunk.heading.as_deref(), Some("Next"));
        assert!(!chunk.content.contains("What to read."));
    }
    let all = parse_with_excludes(NOTES, &[]);
    assert_eq!(all.chunks.len(), doc.chunks.len() + 1);
}

/// The heading, the level and the text of each chunk.
fn chunks_of(text: &str) -> Vec<(Option<String>, Option<u8>, String)> {
    parse_with_excludes(text, &[])
        .chunks
        .into_iter()
        .map(|c| (c.heading, c.level, c.content))
        .collect()
}

const LONG: &str = "A paragraph that is long enough to stand on its own here.";

#[test]
fn a_short_section_joins_the_chunk_before_it() {
    assert_eq!(
        chunks_of("## A\n\nx\n### B\n\ny\n"),
        vec![(Some("A".to_string()), Some(2), "x\n\ny".to_string())]
    );
    // the chunk before it keeps its heading and level, also where the short one is of another
    let text = format!("### A\n\n{LONG}\n\n## B\n\nshort\n\n## C\n\n{LONG}\n");
    assert_eq!(
        chunks_of(&text),
        vec![
            (Some("A".to_string()), Some(3), format!("{LONG}\n\nshort")),
            (Some("C".to_string()), Some(2), LONG.to_string()),
        ]
    );
    // the first has none before it, and stays
    let text = format!("## A\n\nshort\n\n## B\n\n{LONG}\n");
    assert_eq!(
        chunks_of(&text),
        vec![
            (Some("A".to_string()), Some(2), "short".to_string()),
            (Some("B".to_string()), Some(2), LONG.to_string()),
        ]
    );
    // one that is left out is not joined either
    let doc = parse_with_excludes(&format!("## A\n\n{LONG}\n\n## B\n\nshort\n"), &["B"]);
    assert_eq!(doc.chunks.len(), 1);
    assert_eq!(doc.chunks[0].content, LONG);
}

#[test]
fn a_section_is_short_by_its_bytes() {
    for (n, chunks) in [(49, 1), (50, 2)] {
        let text = format!("## A\n\n{LONG}\n\n## B\n\n{}\n", "y".repeat(n));
        assert_eq!(chunks_of(&text).len(), chunks, "{n}");
    }
    // three bytes each
    for (n, chunks) in [(16, 1), (17, 2)] {
        let text = format!("## A\n\n{LONG}\n\n## B\n\n{}\n", "字".repeat(n));
        assert_eq!(chunks_of(&text).len(), chunks, "{n}");
    }
}

#[test]
fn fenced_code_holds_no_headings() {
    let body = format!("{LONG}\n\n```sh\n## not a heading\necho {LONG}\n```");
    let text = format!("## A\n\n{body}\n\n## B\n\n{LONG}\n");
    assert_eq!(
        chunks_of(&text),
        vec![
            (Some("A".to_string()), Some(2), body),
            (Some("B".to_string()), Some(2), LONG.to_string()),
        ]
    );
    // a fence is closed by its own mark, as often or more, and nothing behind it
    let headings = |code: &str| -> Vec<String> {
        let text = format!("{LONG}\n{code}\n## H\n\n{LONG}\n");
        chunks_of(&text).into_iter().filter_map(|c| c.0).collect()
    };
    assert_eq!(headings("```\n```"), vec!["H"]);
    assert_eq!(headings("```\n`````  "), vec!["H"]);
    assert_eq!(headings("~~~ a`b\n~~~"), vec!["H"]);
    assert_eq!(headings("   ```\n   ```"), vec!["H"]);
    assert_eq!(headings("```\r\n```\r"), vec!["H"]);
    // no fence at all
    assert_eq!(headings("``"), vec!["H"]);
    assert_eq!(headings("``` a`b"), vec!["H"]);
    assert_eq!(headings("    ```"), vec!["H"]);
    // one that stays open goes on to the end
    for code in ["```", "````\n```", "```\n~~~", "```\n``` x", "```\n    ```", "~~~\n~~"] {
        assert!(headings(code).is_empty(), "{code}");
    }
}

#[test]
fn a_heading_is_told_by_its_line() {
    let heading = |line: &str| -> Option<(String, Option<u8>)> {
        let text = format!("{LONG}\n{line}\n\n{LONG}\n");
        let mut all = chunks_of(&text);
        let last = all.pop()?;
        Some((last.0?, last.1))
    };
    assert_eq!(heading("## H"), Some(("H".to_string(), Some(2))));
    assert_eq!(heading("   ###\tH"), Some(("H".to_string(), Some(3))));
    assert_eq!(heading("## H ##"), Some(("H".to_string(), Some(2))));
    assert_eq!(heading("## H#"), Some(("H#".to_string(), Some(2))));
    assert_eq!(heading("### ###"), Some((String::new(), Some(3))));
    assert_eq!(heading("##"), Some((String::new(), Some(2))));
    for line in ["# H", "#### H", "##H", "    ## H", "text ## H"] {
        assert_eq!(heading(line), None, "{line}");
    }
}

#[test]
fn a_text_without_frontmatter_has_none() {
    let doc = parse("# Title\n\nbody text\n");
    assert!(doc.frontmatter.title.is_none());
    assert!(doc.frontmatter.date.is_none());
    assert!(doc.frontmatter.tags.is_empty());
    assert!(!doc.chunks.is_empty());
    // frontmatter that is never closed is text
    let open = parse("---\ntitle: x\n\nbody\n");
    assert!(open.frontmatter.title.is_none());
    // frontmatter that is no YAML counts as none
    let bad = parse("---\ntitle: [\n---\nbody\n");
    assert!(bad.frontmatter.title.is_none());
    assert_eq!(bad.chunks.len(), 1);
}

#[test]
fn test_parsers_config_rejects_empty() {
    let cfg = ParsersConfig { enabled: vec![] };
    let err = cfg.validate().expect_err("empty enabled must be an error");
    assert!(err.to_string().contains("empty array"));
}

#[test]
fn test_parsers_config_accepts_non_empty() {
    let cfg = ParsersConfig { enabled: vec!["md".to_string()] };
    cfg.validate().unwrap();
}

#[test]
fn test_chunk_default_has_level_none() {
    let c = Chunk::default();
    assert_eq!(c.index, 0);
    assert!(c.heading.is_none());
    assert!(c.level.is_none());
    assert_eq!(c.content, "");
}

#[test]
fn test_defaults_is_md_only() {
    let r = Registry::defaults();
    assert_eq!(r.extensions(), vec!["md"]);
    assert!(r.by_extension("md").is_some());
    assert!(r.by_extension("txt").is_none());
}

#[test]
fn test_from_enabled_md_and_txt() {
    let r = Registry::from_enabled(&["md".into(), "txt".into()]).unwrap();
    let exts = r.extensions();
    assert!(exts.contains(&"md"));
    assert!(exts.contains(&"txt"));
    assert!(r.by_extension("MD").is_some(), "should be case-insensitive");
    assert!(r.by_extension("TXT").is_some());
}

#[test]
fn test_from_enabled_rejects_empty() {
    let err = Registry::from_enabled(&[]).expect_err("empty must fail");
    assert!(err.message().contains("at least one id"));
}

#[test]
fn test_from_enabled_rejects_unknown() {
    let err = Registry::from_enabled(&["pdf".into()]).expect_err("unknown id must fail");
    let msg = err.message();
    assert!(msg.contains("pdf"));
    assert!(msg.contains("supported"));
}

#[test]
fn test_from_enabled_rejects_duplicates() {
    let err = Registry::from_enabled(&["md".into(), "MD".into()])
        .expect_err("case-insensitive duplicate must fail");
    assert!(err.message().contains("duplicate"));
}

#[test]
fn test_from_enabled_case_insensitive_id() {
    let r = Registry::from_enabled(&["MD".into()]).unwrap();
    assert_eq!(r.extensions(), vec!["md"]);
}

#[test]
fn a_registry_parses_by_extension() {
    let r = Registry::from_enabled(&["txt".into(), "md".into()]).unwrap();
    assert_eq!(r.extensions(), vec!["txt", "md"]);
    assert!(r.has_extension("md"));
    assert!(!r.has_extension("pdf"));
    let p = r.by_extension("md").unwrap();
    assert_eq!(p.extension(), "md");
    assert_eq!(p.id(), "md");
    let doc = p.parse("## A\n\nbody\n", "a.md", &[]);
    assert_eq!(doc.chunks[0].heading.as_deref(), Some("A"));
    assert_eq!(MarkdownParser.extension(), "md");
}

#[test]
fn test_derive_title_simple() {
    assert_eq!(
        derive_title("notes/deep-dive-2026.txt").as_deref(),
        Some("deep dive 2026")
    );
}

#[test]
fn test_derive_title_underscore() {
    assert_eq!(derive_title("log_file.txt").as_deref(), Some("log file"));
}

#[test]
fn test_derive_title_no_dir() {
    assert_eq!(derive_title("plain.txt").as_deref(), Some("plain"));
}

#[test]
fn test_derive_title_no_ext() {
    assert_eq!(derive_title("README").as_deref(), Some("README"));
}

#[test]
fn test_derive_title_cjk_preserved() {
    assert_eq!(
        derive_title("notes/日本語ファイル.txt").as_deref(),
        Some("日本語ファイル")
    );
}

#[test]
fn test_derive_title_mixed_separators() {
    assert_eq!(derive_title("a_b--c_d.txt").as_deref(), Some("a b c d"));
}

#[test]
fn test_parse_simple() {
    let p = TxtParser;
    let doc = p.parse("Hello world.\nSecond line.\n", "notes/hello.txt", &[]);
    assert_eq!(doc.frontmatter.title.as_deref(), Some("hello"));
    assert_eq!(doc.chunks.len(), 1);
    assert_eq!(doc.chunks[0].heading, None);
    assert!(doc.chunks[0].content.contains("Hello world."));
    assert!(doc.chunks[0].content.contains("Second line."));
}

#[test]
fn test_parse_crlf_normalized() {
    let p = TxtParser;
    let doc = p.parse("line1\r\nline2\r\n", "x.txt", &[]);
    assert_eq!(doc.chunks.len(), 1);
    assert!(!doc.chunks[0].content.contains('\r'));
}

#[test]
fn test_parse_bom_stripped() {
    let p = TxtParser;
    let doc = p.parse("\u{feff}body", "x.txt", &[]);
    assert_eq!(doc.chunks.len(), 1);
    assert_eq!(doc.chunks[0].content, "body");
}

#[test]
fn test_parse_empty_body_produces_no_chunks() {
    let p = TxtParser;
    let doc = p.parse("   \n\n   ", "x.txt", &[]);
    assert!(doc.chunks.is_empty());
}

#[test]
fn test_parse_ignores_exclude_headings() {
    let p = TxtParser;
    let doc = p.parse("## 次の深堀り候補\n\nbody.", "x.txt", &["次の深堀り候補"]);
    assert_eq!(doc.chunks.len(), 1);
    assert!(doc.chunks[0].content.contains("## 次の深堀り候補"));
}

#[test]
fn test_extension_id_are_txt() {
    let p = TxtParser;
    assert_eq!(p.extension(), "txt");
    assert_eq!(p.id(), "txt");
}

#[test]
fn texts_are_made_uniform() {
    assert_eq!(normalize_text("\u{feff}a\r\nb"), "a\nb");
    assert_eq!(split_words(" a  b\t c "), vec!["a", "b", "c"]);
    assert_eq!(derive_title("---.txt"), None);
}

#[test]
fn characters_beyond_ascii_stay_in_a_title() {
    assert_eq!(derive_title("a\u{3000}b.txt").as_deref(), Some("a\u{3000}b"));
    assert_eq!(derive_title("a-\u{a0}_b.txt").as_deref(), Some("a \u{a0} b"));
    assert_eq!(derive_title("\u{3000}.txt").as_deref(), Some("\u{3000}"));
    assert_eq!(derive_title("a \t\u{b}b.txt").as_deref(), Some("a b"));
}

#[test]
fn scalars_become_texts() {
    let fm = parse_frontmatter("title: 5\ndate: true\ntopic: false\ndepth: [1]\n");
    assert_eq!(fm.title.as_deref(), Some("5"));
    assert_eq!(fm.date.as_deref(), Some("true"));
    assert_eq!(fm.topic.as_deref(), Some("false"));
    assert_eq!(fm.depth, None);
    assert_eq!(scalar_text(YamlScalar::Flag { set: true }).as_deref(), Some("true"));
    assert_eq!(scalar_text(YamlScalar::Nothing), None);
}

use kb_mcp::order::{compare, Place};
use kb_mcp::path;
use kb_mcp::resolve_db_path;
use kb_mcp::text;
use std::path::Path;

#[test]
fn white_space_is_what_unicode_says() {
    for n in 0..=0x10ffff_u32 {
        if let Some(c) = char::from_u32(n) {
            assert_eq!(text::is_whitespace(c), c.is_whitespace(), "U+{n:04X}");
        }
    }
}

const SAMPLES: [&str; 14] = [
    "",
    " ",
    "a",
    "  a b \t",
    "\u{3000}日本\u{a0}",
    "a\nb",
    "a\r\nb\r\n",
    "\n\n",
    "\r",
    "a,b,,c,",
    "TitLe",
    "日本語 text",
    "no\\way",
    "x'y''z",
];

#[test]
fn texts_are_handled_as_std_handles_them() {
    for s in SAMPLES {
        assert_eq!(text::trim(s), s.trim(), "{s:?}");
        assert_eq!(text::is_blank(s), s.trim().is_empty(), "{s:?}");
        assert_eq!(text::lines(s), s.lines().collect::<Vec<_>>(), "{s:?}");
        assert_eq!(text::split(s, ','), s.split(',').collect::<Vec<_>>(), "{s:?}");
        assert_eq!(text::replace_char(s, '\'', "''"), s.replace('\'', "''"), "{s:?}");
        assert_eq!(text::ascii_lowercase(s), s.to_ascii_lowercase(), "{s:?}");
        assert_eq!(text::pad_right(s, 6), format!("{s:<6}"), "{s:?}");
        assert_eq!(text::pad_left(s, 6), format!("{s:>6}"), "{s:?}");
        assert_eq!(text::copy(s), s);
        for p in SAMPLES {
            assert_eq!(text::starts_with(s, p), s.starts_with(p), "{s:?} {p:?}");
            assert_eq!(text::ends_with(s, p), s.ends_with(p), "{s:?} {p:?}");
            assert_eq!(text::contains(s, p), s.contains(p), "{s:?} {p:?}");
            assert_eq!(text::strip_prefix(s, p).as_deref(), s.strip_prefix(p), "{s:?} {p:?}");
            assert_eq!(text::strip_suffix(s, p).as_deref(), s.strip_suffix(p), "{s:?} {p:?}");
            assert_eq!(text::eq_ignore_ascii_case(s, p), s.eq_ignore_ascii_case(p));
            let place = match s.cmp(p) {
                std::cmp::Ordering::Less => "Before",
                std::cmp::Ordering::Equal => "Same",
                std::cmp::Ordering::Greater => "After",
            };
            let ours = match compare(s, p) {
                Place::Before => "Before",
                Place::Same => "Same",
                Place::After => "After",
            };
            assert_eq!(ours, place, "{s:?} {p:?}");
        }
        for c in ['a', ',', '\'', 'z'] {
            let v = text::to_chars(s);
            assert_eq!(text::find(&v, c), s.chars().position(|x| x == c));
            assert_eq!(text::rfind(&v, c), v.iter().rposition(|x| *x == c));
        }
    }
    assert_eq!(text::join(&vec!["a".to_string(), "b".to_string()], ", "), "a, b");
    assert_eq!(text::join(&Vec::new(), ", "), "");
}

#[test]
fn numbers_are_written_in_decimal() {
    for n in [0, 1, 9, 10, 99, 12345, u64::MAX] {
        assert_eq!(text::decimal(n), n.to_string());
    }
    for n in [0, -1, 42, i64::MIN, i64::MAX] {
        assert_eq!(text::signed_decimal(n), n.to_string());
    }
}

const PATHS: [&str; 20] = [
    "", "/", "a", "a/", "a/b", "/a", "/a/b.md", "/a/b/", "a//b", "./a", "a/./b", "a/..", "..",
    ".hidden", "a.tar.gz", "x/.git", "x/y.", "//a", "a/b/c/d.txt", ".",
];

#[test]
fn paths_are_handled_as_std_handles_them() {
    for p in PATHS {
        let std = Path::new(p);
        assert_eq!(path::is_absolute(p, path::PathStyle::Unix), std.is_absolute(), "{p:?}");
        let parent = path::parent(p);
        assert_eq!(
            parent.as_deref().map(Path::new),
            std.parent(),
            "parent of {p:?}"
        );
        let ext = std.extension().map(|e| e.to_str().unwrap()).unwrap_or("");
        assert_eq!(path::extension(p), ext, "extension of {p:?}");
        for q in PATHS {
            assert_eq!(
                Path::new(&path::join(p, q)),
                std.join(q).as_path(),
                "{p:?} joined with {q:?}"
            );
            let below = std.strip_prefix(q).ok();
            assert_eq!(
                path::strip_base(p, q).as_deref().map(Path::new),
                below,
                "{p:?} below {q:?}"
            );
        }
    }
}

#[test]
fn the_index_lies_beside_the_knowledge_base() {
    assert_eq!(resolve_db_path("/data/kb"), "/data/.kb-mcp.db");
    assert_eq!(resolve_db_path("/data/kb/"), "/data/.kb-mcp.db");
    assert_eq!(Path::new(&resolve_db_path("kb")), Path::new(".kb-mcp.db"));
    assert_eq!(Path::new(&resolve_db_path("/")), Path::new("./.kb-mcp.db"));
}

//! Plain text: one chunk, and a title from the file's name.
use vstd::prelude::*;

use super::{
    Chunk, ChunkModel, DocumentModel, Frontmatter, FrontmatterModel, ParsedDocument, Parser,
};
use crate::text;

verus! {

/// The byte order mark.
pub const BOM: char = '\u{feff}';

/// `s` with every line end, CR LF or a single CR, made a line feed.
pub open spec fn unify_newlines(s: Seq<char>) -> Seq<char>
    decreases s.len(),
{
    if s.len() == 0 {
        s
    } else if s.len() >= 2 && s[s.len() - 2] == '\r' && s.last() == '\n' {
        unify_newlines(s.take(s.len() - 2)).push('\n')
    } else if s.last() == '\r' {
        unify_newlines(s.drop_last()).push('\n')
    } else {
        unify_newlines(s.drop_last()).push(s.last())
    }
}

/// A file's text without byte order marks at its head and with line feeds for line ends.
pub open spec fn normalized(raw: Seq<char>) -> Seq<char> {
    unify_newlines(text::trim_start_set_spec(raw, seq![BOM]))
}

/// A file's text without byte order marks at its head and with line feeds for line ends.
pub fn normalize_text(raw: &str) -> (r: String)
    ensures
        r@ == normalized(raw@),
{
    let mut set: Vec<char> = Vec::new();
    set.push(BOM);
    assert(set@ =~= seq![BOM]);
    let body = text::trim_start_set(raw, &set);
    let v = text::to_chars(body.as_str());
    let mut r: String = String::new();
    let mut i: usize = 0;
    while i < v.len()
        invariant
            i <= v@.len(),
            i > 0 && v@[i - 1] == '\r' ==> i == v@.len() || v@[i as int] != '\n',
            r@ == unify_newlines(v@.take(i as int)),
        decreases v@.len() - i,
    {
        let c: char = v[i];
        let ghost before = v@.take(i as int);
        if c == '\r' {
            r.push('\n');
            if i + 1 < v.len() && v[i + 1] == '\n' {
                let ghost after = v@.take(i + 2);
                assert(after.take(after.len() - 2) =~= before);
                i += 2;
            } else {
                assert(v@.take(i + 1).drop_last() =~= before);
                i += 1;
            }
        } else {
            r.push(c);
            assert(v@.take(i + 1).drop_last() =~= before);
            i += 1;
        }
    }
    assert(v@.take(i as int) =~= body@);
    r
}

/// What stands behind the last slash or backslash.
pub open spec fn last_segment(path: Seq<char>) -> Seq<char>
    decreases path.len(),
{
    if path.len() == 0 || path.last() == '/' || path.last() == '\\' {
        Seq::empty()
    } else {
        last_segment(path.drop_last()).push(path.last())
    }
}

/// The index of the last dot, or -1.
pub open spec fn last_dot(s: Seq<char>) -> int
    decreases s.len(),
{
    if s.len() == 0 {
        -1
    } else if s.last() == '.' {
        s.len() - 1
    } else {
        last_dot(s.drop_last())
    }
}

/// A file's name without its extension. A dot at the start begins no extension.
pub open spec fn stem(name: Seq<char>) -> Seq<char> {
    if last_dot(name) > 0 {
        name.take(last_dot(name))
    } else {
        name
    }
}

/// `s` with spaces for hyphens and underscores.
pub open spec fn spaced(s: Seq<char>) -> Seq<char> {
    s.map_values(
        |c: char|
            if c == '-' || c == '_' {
                ' '
            } else {
                c
            },
    )
}

/// Whether `c` is white space of ASCII.
pub open spec fn ascii_space(c: char) -> bool {
    text::whitespace_spec(c) && (c as u32) < 0x80
}

/// The words of `s`: its longest pieces without white space of ASCII. Other white space is part
/// of a word.
pub open spec fn words(s: Seq<char>) -> Seq<Seq<char>>
    decreases s.len(),
{
    if s.len() == 0 {
        seq![]
    } else {
        let before = words(s.drop_last());
        if ascii_space(s.last()) {
            before
        } else if s.len() == 1 || ascii_space(s[s.len() - 2]) {
            before.push(seq![s.last()])
        } else {
            before.drop_last().push(before.last().push(s.last()))
        }
    }
}

/// The title that a file's path gives: the words of its name. None, where that has none.
pub open spec fn title_spec(path: Seq<char>) -> Option<Seq<char>> {
    let name = spaced(stem(last_segment(path)));
    if words(name).len() == 0 {
        None
    } else {
        Some(text::join_spec(words(name), " "@))
    }
}

/// The words of `s`.
pub fn split_words(s: &str) -> (r: Vec<String>)
    ensures
        text::views(r@) == words(s@),
{
    let v = text::to_chars(s);
    let mut done: Vec<String> = Vec::new();
    let mut cur: String = String::new();
    let mut open: bool = false;
    let mut i: usize = 0;
    assert(text::views(done@) =~= words(v@.take(0)));
    while i < v.len()
        invariant
            i <= v@.len(),
            open == (i > 0 && !ascii_space(v@[i - 1])),
            open ==> words(v@.take(i as int)) == text::views(done@).push(cur@),
            !open ==> words(v@.take(i as int)) == text::views(done@),
        decreases v@.len() - i,
    {
        let c: char = v[i];
        let ghost before = v@.take(i as int);
        let ghost after = v@.take(i + 1);
        assert(after.drop_last() =~= before);
        let ghost list = text::views(done@);
        if text::is_whitespace(c) && (c as u32) < 0x80 {
            if open {
                done.push(cur);
                assert(text::views(done@) =~= list.push(cur@));
                cur = String::new();
                open = false;
            }
        } else if open {
            assert(list.push(cur@).drop_last() =~= list);
            cur.push(c);
        } else {
            cur = String::new();
            cur.push(c);
            assert(cur@ =~= seq![c]);
            open = true;
        }
        i += 1;
    }
    assert(v@.take(i as int) =~= s@);
    if open {
        let ghost list = text::views(done@);
        done.push(cur);
        assert(text::views(done@) =~= list.push(cur@));
    }
    done
}

/// The title that a file's path gives.
pub fn derive_title(path_hint: &str) -> (r: Option<String>)
    ensures
        text::opt_view(r) == title_spec(path_hint@),
{
    let v = text::to_chars(path_hint);
    let n: usize = v.len();
    let mut from: usize = n;
    let ghost whole = path_hint@;
    assert(whole.take(n as int) =~= whole);
    assert(last_segment(whole) =~= last_segment(whole.take(from as int)) + whole.skip(from as int));
    while from > 0 && v[from - 1] != '/' && v[from - 1] != '\\'
        invariant
            v@ == whole,
            n == whole.len(),
            from <= n,
            last_segment(whole) == last_segment(whole.take(from as int)) + whole.skip(
                from as int,
            ),
        decreases from,
    {
        assert(whole.take(from as int).drop_last() =~= whole.take(from - 1));
        assert(last_segment(whole.take(from as int)) + whole.skip(from as int) =~= last_segment(
            whole.take(from - 1),
        ) + whole.skip(from - 1));
        from -= 1;
    }
    assert(last_segment(whole) =~= whole.skip(from as int));
    let ghost name = last_segment(whole);
    let mut dot: usize = n;
    assert(name.take(n - from) =~= name);
    while dot > from && v[dot - 1] != '.'
        invariant
            v@ == whole,
            n == whole.len(),
            from <= dot <= n,
            name == whole.skip(from as int),
            last_dot(name) == last_dot(name.take(dot - from)),
        decreases dot,
    {
        assert(name.take(dot - from).drop_last() =~= name.take(dot - from - 1));
        dot -= 1;
    }
    let end: usize = if dot - from > 1 {
        dot - 1
    } else {
        n
    };
    let mut title: String = String::new();
    let mut i: usize = from;
    assert(stem(name) =~= whole.subrange(from as int, end as int));
    while i < end
        invariant
            v@ == whole,
            from <= i <= end <= n,
            n == whole.len(),
            title@ == spaced(whole.subrange(from as int, i as int)),
        decreases end - i,
    {
        let c: char = v[i];
        if c == '-' || c == '_' {
            title.push(' ');
        } else {
            title.push(c);
        }
        assert(title@ =~= spaced(whole.subrange(from as int, i + 1)));
        i += 1;
    }
    let list = split_words(title.as_str());
    if list.len() == 0 {
        return None;
    }
    Some(text::join(&list, " "))
}

/// The characters of `s` beyond ASCII, in order.
pub open spec fn beyond_ascii(s: Seq<char>) -> Seq<char>
    decreases s.len(),
{
    if s.len() == 0 {
        seq![]
    } else if (s.last() as u32) < 0x80 {
        beyond_ascii(s.drop_last())
    } else {
        beyond_ascii(s.drop_last()).push(s.last())
    }
}

proof fn beyond_ascii_of_both(a: Seq<char>, b: Seq<char>)
    ensures
        beyond_ascii(a + b) == beyond_ascii(a) + beyond_ascii(b),
    decreases b.len(),
{
    if b.len() == 0 {
        assert(a + b =~= a);
        assert(beyond_ascii(a) + beyond_ascii(b) =~= beyond_ascii(a));
    } else {
        assert((a + b).drop_last() =~= a + b.drop_last());
        assert((a + b).last() == b.last());
        beyond_ascii_of_both(a, b.drop_last());
        assert(beyond_ascii(a + b) =~= beyond_ascii(a) + beyond_ascii(b));
    }
}

proof fn joining_adds_ascii_only(list: Seq<Seq<char>>, last: Seq<char>)
    ensures
        beyond_ascii(text::join_spec(list.push(last), " "@)) == beyond_ascii(
            text::join_spec(list, " "@),
        ) + beyond_ascii(last),
{
    reveal_strlit(" ");
    let all = list.push(last);
    assert(all.drop_last() =~= list);
    if list.len() == 0 {
        assert(text::join_spec(list, " "@) =~= seq![]);
        assert(beyond_ascii(text::join_spec(list, " "@)) + beyond_ascii(last) =~= beyond_ascii(
            last,
        ));
    } else {
        let before = text::join_spec(list, " "@);
        reveal_with_fuel(beyond_ascii, 2);
        assert(" "@.last() == ' ');
        assert(beyond_ascii(" "@) =~= seq![]);
        beyond_ascii_of_both(before, " "@);
        beyond_ascii_of_both(before + " "@, last);
        assert(beyond_ascii(before) + beyond_ascii(" "@) =~= beyond_ascii(before));
    }
}

proof fn words_exist(s: Seq<char>)
    requires
        s.len() > 0,
        !ascii_space(s.last()),
    ensures
        words(s).len() > 0,
    decreases s.len(),
{
    if s.len() > 1 && !ascii_space(s[s.len() - 2]) {
        words_exist(s.drop_last());
    }
}

proof fn words_keep_what_is_beyond_ascii(s: Seq<char>)
    ensures
        beyond_ascii(text::join_spec(words(s), " "@)) == beyond_ascii(s),
    decreases s.len(),
{
    if s.len() > 0 {
        let rest = s.drop_last();
        let c = s.last();
        let before = words(rest);
        words_keep_what_is_beyond_ascii(rest);
        if !ascii_space(c) {
            if s.len() == 1 || ascii_space(s[s.len() - 2]) {
                joining_adds_ascii_only(before, seq![c]);
                assert(s =~= rest + seq![c]);
                beyond_ascii_of_both(rest, seq![c]);
            } else {
                words_exist(rest);
                let list = before.drop_last();
                let word = before.last();
                assert(before =~= list.push(word));
                joining_adds_ascii_only(list, word);
                joining_adds_ascii_only(list, word.push(c));
                assert(word.push(c).drop_last() =~= word);
                assert(beyond_ascii(s) =~= beyond_ascii(text::join_spec(list, " "@))
                    + beyond_ascii(word.push(c)));
            }
        }
    }
}

proof fn spacing_keeps_what_is_beyond_ascii(s: Seq<char>)
    ensures
        beyond_ascii(spaced(s)) == beyond_ascii(s),
    decreases s.len(),
{
    if s.len() > 0 {
        spacing_keeps_what_is_beyond_ascii(s.drop_last());
        assert(spaced(s).drop_last() =~= spaced(s.drop_last()));
    }
}

/// A title has the characters beyond ASCII that the file's name has without its extension, in
/// their order. Where there is no title, that has none.
pub proof fn characters_beyond_ascii_are_not_touched(path: Seq<char>)
    ensures
        match title_spec(path) {
            Some(t) => beyond_ascii(t) == beyond_ascii(stem(last_segment(path))),
            None => beyond_ascii(stem(last_segment(path))).len() == 0,
        },
{
    let name = stem(last_segment(path));
    spacing_keeps_what_is_beyond_ascii(name);
    words_keep_what_is_beyond_ascii(spaced(name));
}

/// Line ends of all kinds become line feeds, one for each, and nothing else changes.
pub proof fn line_ends_become_line_feeds(s: Seq<char>, c: char)
    requires
        c != '\r' && c != '\n',
    ensures
        unify_newlines(seq![]).len() == 0,
        unify_newlines(s.push(c)) == unify_newlines(s).push(c),
        unify_newlines(s.push('\r')) == unify_newlines(s).push('\n'),
        unify_newlines(s.push('\r').push('\n')) == unify_newlines(s).push('\n'),
        (s.len() == 0 || s.last() != '\r') ==> unify_newlines(s.push('\n')) == unify_newlines(
            s,
        ).push('\n'),
        !unify_newlines(s).contains('\r'),
    decreases s.len(),
{
    assert(s.push(c).drop_last() =~= s);
    assert(s.push('\r').drop_last() =~= s);
    assert(s.push('\n').drop_last() =~= s);
    let both = s.push('\r').push('\n');
    assert(both.take(both.len() - 2) =~= s);
    let r = unify_newlines(s);
    if s.len() > 0 {
        let rest = if s.len() >= 2 && s[s.len() - 2] == '\r' && s.last() == '\n' {
            s.take(s.len() - 2)
        } else {
            s.drop_last()
        };
        line_ends_become_line_feeds(rest, c);
        let before = unify_newlines(rest);
        assert forall|i: int| 0 <= i < r.len() implies r[i] != '\r' by {
            if i < before.len() {
                assert(r[i] == before[i]);
                assert(!before.contains('\r'));
            }
        }
    }
}

/// A text loses the byte order marks at its head, all of them, and none elsewhere.
pub proof fn marks_at_the_head_go(n: nat, s: Seq<char>)
    requires
        s.len() > 0 ==> s[0] != '\u{feff}',
    ensures
        normalized(Seq::new(n, |i: int| '\u{feff}') + s) == unify_newlines(s),
    decreases n,
{
    let marks = Seq::new(n, |i: int| '\u{feff}');
    let all = marks + s;
    let set = seq![BOM];
    if n == 0 {
        assert(all =~= s);
        if s.len() > 0 {
            assert(!set.contains(s[0]));
        }
    } else {
        let fewer = Seq::new((n - 1) as nat, |i: int| '\u{feff}');
        assert(all[0] == '\u{feff}');
        assert(set[0] == '\u{feff}');
        assert(set.contains(all[0]));
        assert(all.drop_first() =~= fewer + s);
        marks_at_the_head_go((n - 1) as nat, s);
    }
}

/// A plain text is one chunk of all of it, without a heading, unless it is white space alone; the
/// text is kept as it came, and nothing but the title is said of it.
pub proof fn a_plain_text_is_one_chunk(raw: Seq<char>, path: Seq<char>)
    ensures
        ({
            let doc = txt_parsed(raw, path);
            let body = normalized(raw);
            &&& doc.raw_content == raw
            &&& doc.frontmatter.title == title_spec(path)
            &&& doc.frontmatter.date is None && doc.frontmatter.topic is None
            &&& doc.frontmatter.depth is None && doc.frontmatter.tags.len() == 0
            &&& text::all_space(body) ==> doc.chunks.len() == 0
            &&& !text::all_space(body) ==> doc.chunks.len() == 1 && doc.chunks[0].content == body
                && doc.chunks[0].index == 0 && doc.chunks[0].heading is None
                && doc.chunks[0].level is None
        }),
{
    let body = normalized(raw);
    if text::all_space(body) {
        text::white_space_is_trimmed_to_nothing(body);
    } else {
        text::what_is_not_space_stays(body);
    }
}

/// The title of a file is that of its name: the directories it lies in play no part.
pub proof fn a_title_is_of_the_name(dir: Seq<char>, separator: char, name: Seq<char>)
    requires
        separator == '/' || separator == '\\',
        forall|i: int| 0 <= i < name.len() ==> #[trigger] name[i] != '/' && name[i] != '\\',
    ensures
        title_spec(dir + seq![separator] + name) == title_spec(name),
        last_segment(dir + seq![separator] + name) == name,
{
    segment_is_the_name(dir + seq![separator], name);
    segment_is_the_name(seq![], name);
    assert(seq![] + name =~= name);
}

proof fn segment_is_the_name(head: Seq<char>, name: Seq<char>)
    requires
        head.len() > 0 ==> head.last() == '/' || head.last() == '\\',
        forall|i: int| 0 <= i < name.len() ==> #[trigger] name[i] != '/' && name[i] != '\\',
    ensures
        last_segment(head + name) == name,
    decreases name.len(),
{
    let all = head + name;
    if name.len() == 0 {
        assert(all =~= head);
        assert(last_segment(all) =~= name);
    } else {
        assert(all.last() == name[name.len() - 1]);
        assert(all.drop_last() =~= head + name.drop_last());
        assert forall|i: int| 0 <= i < name.drop_last().len() implies #[trigger] name.drop_last()[i]
            != '/' && name.drop_last()[i] != '\\' by {
            assert(name.drop_last()[i] == name[i]);
        }
        segment_is_the_name(head, name.drop_last());
        assert(last_segment(all) =~= name);
    }
}

/// The extension of a file plays no part in its title: what stands behind the last dot, unless
/// that begins the name. A hyphen or an underscore is as good as a space.
pub proof fn a_title_has_no_extension(name: Seq<char>, ext: Seq<char>)
    requires
        name.len() > 0,
        forall|i: int|
            0 <= i < ext.len() ==> #[trigger] ext[i] != '.' && ext[i] != '/' && ext[i] != '\\',
        forall|i: int| 0 <= i < name.len() ==> #[trigger] name[i] != '/' && name[i] != '\\',
    ensures
        ({
            let spaces = Seq::new(
                name.len(),
                |i: int|
                    if name[i] == '-' || name[i] == '_' {
                        ' '
                    } else {
                        name[i]
                    },
            );
            &&& words(spaces).len() == 0 ==> title_spec(name + seq!['.'] + ext) is None
            &&& words(spaces).len() > 0 ==> title_spec(name + seq!['.'] + ext) == Some(
                text::join_spec(words(spaces), " "@),
            )
        }),
{
    let all = name + seq!['.'] + ext;
    assert forall|i: int| 0 <= i < all.len() implies #[trigger] all[i] != '/' && all[i] != '\\' by {
        if i < name.len() {
            assert(all[i] == name[i]);
        } else if i > name.len() {
            assert(all[i] == ext[i - name.len() - 1]);
        }
    }
    segment_is_the_name(seq![], all);
    assert(seq![] + all =~= all);
    last_dot_is_there(name, ext);
    assert(all.take(name.len() as int) =~= name);
    assert(spaced(name) =~= Seq::new(
        name.len(),
        |i: int|
            if name[i] == '-' || name[i] == '_' {
                ' '
            } else {
                name[i]
            },
    ));
}

proof fn last_dot_is_there(name: Seq<char>, ext: Seq<char>)
    requires
        forall|i: int| 0 <= i < ext.len() ==> #[trigger] ext[i] != '.',
    ensures
        last_dot(name + seq!['.'] + ext) == name.len(),
    decreases ext.len(),
{
    let all = name + seq!['.'] + ext;
    if ext.len() == 0 {
        assert(all.last() == '.');
    } else {
        assert(all.last() == ext[ext.len() - 1]);
        assert(all.drop_last() =~= name + seq!['.'] + ext.drop_last());
        assert forall|i: int| 0 <= i < ext.drop_last().len() implies #[trigger] ext.drop_last()[i]
            != '.' by {
            assert(ext.drop_last()[i] == ext[i]);
        }
        last_dot_is_there(name, ext.drop_last());
    }
}

/// Words are what white space of ASCII stands between: a character that is none goes on the word
/// before it, or begins one behind white space, and white space ends it.
pub proof fn words_end_at_white_space(s: Seq<char>, c: char)
    ensures
        ({
            let space = |x: char|
                x == ' ' || x == '\t' || x == '\n' || x == '\u{b}' || x == '\u{c}' || x == '\r';
            let before = words(s);
            let after = words(s.push(c));
            &&& words(seq![]).len() == 0
            &&& space(c) ==> after == before
            &&& !space(c) && (s.len() == 0 || space(s.last())) ==> after == before.push(seq![c])
            &&& !space(c) && s.len() > 0 && !space(s.last()) ==> before.len() > 0 && after
                == before.drop_last().push(before.last().push(c))
        }),
{
    let all = s.push(c);
    assert(all.drop_last() =~= s);
    text::which_characters_are_white_space(c);
    if s.len() > 0 {
        text::which_characters_are_white_space(s.last());
        assert(all[all.len() - 2] == s.last());
        if !ascii_space(s.last()) {
            words_exist(s);
        }
    }
}

/// The parser for plain text.
#[derive(Debug, Clone, Copy)]
pub struct TxtParser;

/// What plain text is parsed to: a document of one chunk, or of none where it is blank.
pub open spec fn txt_parsed(raw: Seq<char>, path_hint: Seq<char>) -> DocumentModel {
    let body = normalized(raw);
    DocumentModel {
        frontmatter: FrontmatterModel {
            title: title_spec(path_hint),
            ..FrontmatterModel::nothing()
        },
        chunks: if text::trim_spec(body).len() == 0 {
            seq![]
        } else {
            seq![ChunkModel { index: 0, heading: None, level: None, content: body }]
        },
        raw_content: raw,
    }
}

impl Parser for TxtParser {
    open spec fn format(&self) -> Seq<char> {
        "txt"@
    }

    open spec fn parsed(
        &self,
        raw: Seq<char>,
        path_hint: Seq<char>,
        exclude_headings: Seq<Seq<char>>,
    ) -> DocumentModel {
        txt_parsed(raw, path_hint)
    }

    fn extension(&self) -> (r: &'static str) {
        "txt"
    }

    fn parse(&self, raw: &str, path_hint: &str, exclude_headings: &[&str]) -> (r: ParsedDocument) {
        let body = normalize_text(raw);
        let mut frontmatter = Frontmatter::default();
        frontmatter.title = derive_title(path_hint);
        let mut chunks: Vec<Chunk> = Vec::new();
        if !text::is_blank(body.as_str()) {
            chunks.push(Chunk { index: 0, heading: None, level: None, content: body });
        }
        let r = ParsedDocument { frontmatter, chunks, raw_content: text::copy(raw) };
        assert(r@.chunks =~= txt_parsed(raw@, path_hint@).chunks);
        r
    }
}

} // verus!

//! Paths as texts with `/` between their parts.
//!
//! A path that starts with `/` is absolute. These are the rules of Unix systems; a caller on
//! another system brings its paths into this form first. What a user wrote is not brought into
//! another form: [`seen_from`] reads it by the rules of either system.
use vstd::prelude::*;

use crate::text;

verus! {

/// By which rules a path is read.
#[derive(Debug, Clone, Copy, PartialEq, Eq, Structural)]
pub enum PathStyle {
    Unix,
    Windows,
}

/// Whether a character separates the parts of a path on Windows.
pub open spec fn windows_separator(c: char) -> bool {
    c == '/' || c == '\\'
}

/// Where the first separator of Windows stands in `p` from `from` on; its end, where there is
/// none.
pub open spec fn windows_part_end(p: Seq<char>, from: int) -> int
    decreases p.len() - from,
{
    if from < 0 || from >= p.len() || windows_separator(p[from]) {
        from
    } else {
        windows_part_end(p, from + 1)
    }
}

/// Where the first backslash stands in `p` from `from` on; its end, where there is none. In a
/// verbatim path nothing else separates parts.
pub open spec fn verbatim_part_end(p: Seq<char>, from: int) -> int
    decreases p.len() - from,
{
    if from < 0 || from >= p.len() || p[from] == '\\' {
        from
    } else {
        verbatim_part_end(p, from + 1)
    }
}

/// Whether a path of Windows begins with the letter of a drive.
pub open spec fn has_drive(p: Seq<char>) -> bool {
    &&& p.len() >= 2
    &&& p[1] == ':'
    &&& ('a' <= p[0] <= 'z' || 'A' <= p[0] <= 'Z')
}

/// Whether a path of Windows is verbatim: `\\?\...`.
pub open spec fn is_verbatim(p: Seq<char>) -> bool {
    p.len() >= 4 && p[0] == '\\' && p[1] == '\\' && p[2] == '?' && p[3] == '\\'
}

/// The length of what a verbatim path begins with: a share (`\\?\UNC\server\share`), a drive
/// (`\\?\C:`) or a name (`\\?\name`).
pub open spec fn verbatim_prefix(p: Seq<char>) -> int {
    if p.len() >= 8 && p[4] == 'U' && p[5] == 'N' && p[6] == 'C' && windows_separator(p[7]) {
        let server = verbatim_part_end(p, 8);
        if server < p.len() && verbatim_part_end(p, server + 1) > server + 1 {
            verbatim_part_end(p, server + 1)
        } else {
            server
        }
    } else if has_drive(p.skip(4)) && (p.len() == 6 || windows_separator(p[6])) {
        6
    } else {
        verbatim_part_end(p, 4)
    }
}

/// The length of what a path of Windows begins with: a drive (`C:`), a share (`\\server\share`),
/// a device (`\\.\device`) or a verbatim name (`\\?\name`). 0, where it begins with none.
pub open spec fn windows_prefix(p: Seq<char>) -> int {
    if has_drive(p) {
        2
    } else if p.len() < 3 || !windows_separator(p[0]) || !windows_separator(p[1]) {
        0
    } else if p.len() >= 4 && p[2] == '.' && windows_separator(p[3]) {
        windows_part_end(p, 4)
    } else if is_verbatim(p) {
        verbatim_prefix(p)
    } else {
        let server = windows_part_end(p, 2);
        if server > 2 && server < p.len() && windows_part_end(p, server + 1) > server + 1 {
            windows_part_end(p, server + 1)
        } else {
            0
        }
    }
}

/// Whether a path is absolute. On Windows it needs a prefix, and behind the letter of a drive a
/// separator.
pub open spec fn absolute_spec(p: Seq<char>, style: PathStyle) -> bool {
    match style {
        PathStyle::Unix => p.len() > 0 && p[0] == '/',
        PathStyle::Windows => windows_prefix(p) > 0 && (has_drive(p) ==> p.len() > 2
            && windows_separator(p[2])),
    }
}

/// Where the part of `v` from `from` on ends.
fn windows_part(v: &Vec<char>, from: usize) -> (r: usize)
    requires
        from <= v@.len(),
    ensures
        r == windows_part_end(v@, from as int),
        from <= r <= v@.len(),
{
    let mut i: usize = from;
    while i < v.len() && v[i] != '/' && v[i] != '\\'
        invariant
            from <= i <= v@.len(),
            windows_part_end(v@, from as int) == windows_part_end(v@, i as int),
        decreases v@.len() - i,
    {
        i += 1;
    }
    i
}

/// Where the part of `v` from `from` on ends in a verbatim path.
fn verbatim_part(v: &Vec<char>, from: usize) -> (r: usize)
    requires
        from <= v@.len(),
    ensures
        r == verbatim_part_end(v@, from as int),
        from <= r <= v@.len(),
{
    let mut i: usize = from;
    while i < v.len() && v[i] != '\\'
        invariant
            from <= i <= v@.len(),
            verbatim_part_end(v@, from as int) == verbatim_part_end(v@, i as int),
        decreases v@.len() - i,
    {
        i += 1;
    }
    i
}

fn verbatim(v: &Vec<char>) -> (r: bool)
    ensures
        r == is_verbatim(v@),
{
    v.len() >= 4 && v[0] == '\\' && v[1] == '\\' && v[2] == '?' && v[3] == '\\'
}

fn verbatim_len(v: &Vec<char>) -> (r: usize)
    requires
        is_verbatim(v@),
    ensures
        r == verbatim_prefix(v@),
        4 <= r <= v@.len(),
{
    if v.len() >= 8 && v[4] == 'U' && v[5] == 'N' && v[6] == 'C' && is_windows_separator(v[7]) {
        let server: usize = verbatim_part(v, 8);
        if server < v.len() {
            let share: usize = verbatim_part(v, server + 1);
            if share > server + 1 {
                return share;
            }
        }
        return server;
    }
    if v.len() >= 6 {
        assert(v@.skip(4)[0] == v@[4] && v@.skip(4)[1] == v@[5]);
        if v[5] == ':' && (('a' <= v[4] && v[4] <= 'z') || ('A' <= v[4] && v[4] <= 'Z')) && (
        v.len() == 6 || is_windows_separator(v[6])) {
            return 6;
        }
    }
    verbatim_part(v, 4)
}

fn is_windows_separator(c: char) -> (r: bool)
    ensures
        r == windows_separator(c),
{
    c == '/' || c == '\\'
}

fn drive_at_head(v: &Vec<char>) -> (r: bool)
    ensures
        r == has_drive(v@),
{
    v.len() >= 2 && v[1] == ':' && (('a' <= v[0] && v[0] <= 'z') || ('A' <= v[0] && v[0] <= 'Z'))
}

/// The length of what a path of Windows begins with.
fn prefix_len(v: &Vec<char>) -> (r: usize)
    ensures
        r == windows_prefix(v@),
        r <= v@.len(),
{
    if drive_at_head(v) {
        return 2;
    }
    if v.len() < 3 || !is_windows_separator(v[0]) || !is_windows_separator(v[1]) {
        return 0;
    }
    if v.len() >= 4 && v[2] == '.' && is_windows_separator(v[3]) {
        return windows_part(v, 4);
    }
    if verbatim(v) {
        return verbatim_len(v);
    }
    let server: usize = windows_part(v, 2);
    if server > 2 && server < v.len() {
        let end: usize = windows_part(v, server + 1);
        if end > server + 1 {
            return end;
        }
    }
    0
}

/// Whether a path is absolute.
pub fn is_absolute(p: &str, style: PathStyle) -> (r: bool)
    ensures
        r == absolute_spec(p@, style),
{
    let v = text::to_chars(p);
    match style {
        PathStyle::Unix => v.len() > 0 && v[0] == '/',
        PathStyle::Windows => prefix_len(&v) > 0 && (!drive_at_head(&v) || (v.len() > 2
            && is_windows_separator(v[2]))),
    }
}

/// The parts of a list that are not empty.
pub open spec fn solid(parts: Seq<Seq<char>>) -> Seq<Seq<char>>
    decreases parts.len(),
{
    if parts.len() == 0 {
        seq![]
    } else if parts.last().len() == 0 {
        solid(parts.drop_last())
    } else {
        solid(parts.drop_last()).push(parts.last())
    }
}

/// Whether a part is a name, neither `.` nor `..`.
pub open spec fn is_name(part: Seq<char>) -> bool {
    part != "."@ && part != ".."@
}

/// The parts of a path after one more: `.` adds nothing, and `..` takes away the name before it.
pub open spec fn stepped(stack: Seq<Seq<char>>, part: Seq<char>) -> Seq<Seq<char>> {
    if part.len() == 0 || part == "."@ {
        stack
    } else if part == ".."@ {
        if stack.len() > 0 && is_name(stack.last()) {
            stack.drop_last()
        } else {
            stack
        }
    } else {
        stack.push(part)
    }
}

/// The parts of a path after some more.
pub open spec fn walked(stack: Seq<Seq<char>>, parts: Seq<Seq<char>>) -> Seq<Seq<char>>
    decreases parts.len(),
{
    if parts.len() == 0 {
        stack
    } else {
        stepped(walked(stack, parts.drop_last()), parts.last())
    }
}

/// The parts of a path of Windows that has no prefix, some of them empty.
pub open spec fn windows_parts(p: Seq<char>) -> Seq<Seq<char>> {
    text::split_spec(text::replace_char_spec(p, '/', "\\"@), '\\')
}

/// The parts of a verbatim path behind its prefix.
pub open spec fn verbatim_parts(base: Seq<char>) -> Seq<Seq<char>> {
    solid(text::split_spec(after_root(base), '\\'))
}

/// Whether a separator follows the prefix of a verbatim path.
pub open spec fn verbatim_root(base: Seq<char>) -> bool {
    windows_prefix(base) < base.len() && windows_separator(base[windows_prefix(base)])
}

/// What follows the prefix of a verbatim path, and the separator behind it.
pub open spec fn after_root(base: Seq<char>) -> Seq<char> {
    if verbatim_root(base) {
        base.skip(windows_prefix(base) + 1)
    } else {
        base.skip(windows_prefix(base))
    }
}

/// `p`, which has no prefix, seen from a verbatim base: dots are resolved, since the system would
/// not, and backslashes stand between the parts.
pub open spec fn seen_from_verbatim(base: Seq<char>, p: Seq<char>) -> Seq<char> {
    let rooted = windows_separator(p[0]);
    let start = if rooted {
        seq![]
    } else {
        verbatim_parts(base)
    };
    let stack = walked(start, windows_parts(p));
    base.take(windows_prefix(base)) + (if rooted || verbatim_root(base) || stack.len() > 0 {
        "\\"@
    } else {
        ""@
    }) + text::join_spec(stack, "\\"@)
}

/// `p` seen from `base`, each as it is written on a system. On Windows a path with a prefix stays
/// as it is; one that begins with a separator gets the prefix of the base.
pub open spec fn seen_from_spec(base: Seq<char>, p: Seq<char>, style: PathStyle) -> Seq<char> {
    match style {
        PathStyle::Unix => join_spec(base, p),
        PathStyle::Windows => if windows_prefix(p) > 0 {
            p
        } else if is_verbatim(base) && p.len() > 0 {
            seen_from_verbatim(base, p)
        } else if p.len() > 0 && windows_separator(p[0]) {
            base.take(windows_prefix(base)) + p
        } else if base.len() == 0 || windows_separator(base.last()) || (has_drive(base)
            && base.len() == 2) {
            base + p
        } else {
            base + seq!['\\'] + p
        },
    }
}

/// The parts of a list that are not empty.
fn solid_parts(parts: &Vec<String>) -> (r: Vec<String>)
    ensures
        text::views(r@) == solid(text::views(parts@)),
{
    let ghost all = text::views(parts@);
    let mut out: Vec<String> = Vec::new();
    let mut i: usize = 0;
    assert(text::views(out@) =~= solid(all.take(0)));
    while i < parts.len()
        invariant
            i <= parts@.len(),
            all == text::views(parts@),
            text::views(out@) == solid(all.take(i as int)),
        decreases parts@.len() - i,
    {
        assert(all.take(i + 1).drop_last() =~= all.take(i as int));
        let ghost before = text::views(out@);
        if !parts[i].as_str().is_empty() {
            out.push(parts[i].clone());
            assert(text::views(out@) =~= before.push(all[i as int]));
        }
        i += 1;
    }
    assert(all.take(i as int) =~= all);
    out
}

/// Walks on from the parts of a path.
fn walk(stack: &mut Vec<String>, parts: &Vec<String>)
    ensures
        text::views(final(stack)@) == walked(text::views(old(stack)@), text::views(parts@)),
{
    let ghost start = text::views(stack@);
    let ghost all = text::views(parts@);
    let mut i: usize = 0;
    assert(all.take(0) =~= seq![]);
    while i < parts.len()
        invariant
            i <= parts@.len(),
            all == text::views(parts@),
            text::views(stack@) == walked(start, all.take(i as int)),
        decreases parts@.len() - i,
    {
        assert(all.take(i + 1).drop_last() =~= all.take(i as int));
        let ghost before = text::views(stack@);
        let part = parts[i].as_str();
        assert(all[i as int] == part@);
        if part.is_empty() || *part == *"." {
            assert(stepped(before, part@) == before);
        } else if *part == *".." {
            if stack.len() > 0 {
                let last = stack[stack.len() - 1].as_str();
                assert(before.last() == last@);
                if *last != *"." && *last != *".." {
                    let _ = stack.pop();
                    assert(text::views(stack@) =~= before.drop_last());
                }
            }
        } else {
            stack.push(parts[i].clone());
            assert(text::views(stack@) =~= before.push(part@));
        }
        i += 1;
    }
    assert(all.take(i as int) =~= all);
}

/// `p`, which has no prefix and is not empty, seen from a verbatim base.
fn from_verbatim(base: &str, p: &str) -> (r: String)
    requires
        is_verbatim(base@),
        p@.len() > 0,
    ensures
        r@ == seen_from_verbatim(base@, p@),
{
    let b = text::to_chars(base);
    let n: usize = prefix_len(&b);
    let v = text::to_chars(p);
    let rooted = is_windows_separator(v[0]);
    let root = n < b.len() && is_windows_separator(b[n]);
    let from: usize = if root {
        n + 1
    } else {
        n
    };
    let mut stack: Vec<String> = Vec::new();
    assert(text::views(stack@) =~= seq![]);
    if !rooted {
        let rest = text::from_chars(&b, from, b.len());
        assert(rest@ =~= after_root(base@));
        stack = solid_parts(&text::split(rest.as_str(), '\\'));
    }
    let flat = text::replace_char(p, '/', "\\");
    let parts = text::split(flat.as_str(), '\\');
    walk(&mut stack, &parts);
    let mut r = text::from_chars(&b, 0, n);
    assert(r@ =~= base@.take(n as int));
    if rooted || root || stack.len() > 0 {
        r.append("\\");
    } else {
        r.append("");
    }
    r.append(text::join(&stack, "\\").as_str());
    r
}

/// `p` seen from `base`, each as it is written on a system. An absolute path stays as it is.
pub fn seen_from(base: &str, p: &str, style: PathStyle) -> (r: String)
    ensures
        r@ == seen_from_spec(base@, p@, style),
        absolute_spec(p@, style) ==> r@ == p@,
{
    if style == PathStyle::Unix {
        return join(base, p);
    }
    let v = text::to_chars(p);
    if prefix_len(&v) > 0 {
        return text::copy(p);
    }
    let b = text::to_chars(base);
    if verbatim(&b) && v.len() > 0 {
        return from_verbatim(base, p);
    }
    if v.len() > 0 && is_windows_separator(v[0]) {
        let n: usize = prefix_len(&b);
        let mut r = text::from_chars(&b, 0, n);
        r.append(p);
        assert(r@ =~= base@.take(n as int) + p@);
        return r;
    }
    let mut r = text::copy(base);
    if !(b.len() == 0 || is_windows_separator(b[b.len() - 1]) || (drive_at_head(&b) && b.len()
        == 2)) {
        r.push('\\');
        assert(r@ =~= base@ + seq!['\\']);
    }
    r.append(p);
    r
}

/// `p` seen from `base`: an absolute path stays as it is, another is put behind the base.
pub open spec fn join_spec(base: Seq<char>, p: Seq<char>) -> Seq<char> {
    if absolute_spec(p, PathStyle::Unix) || base.len() == 0 {
        p
    } else if base.last() == '/' {
        base + p
    } else {
        base + seq!['/'] + p
    }
}

/// `p` seen from `base`.
pub fn join(base: &str, p: &str) -> (r: String)
    ensures
        r@ == join_spec(base@, p@),
{
    let b = text::to_chars(base);
    if is_absolute(p, PathStyle::Unix) || b.len() == 0 {
        return text::copy(p);
    }
    let mut r = text::copy(base);
    if b[b.len() - 1] != '/' {
        r.push('/');
        assert(r@ =~= base@ + seq!['/']);
    }
    r.append(p);
    r
}

/// `p` without separators, and without `.` parts, at its end. The root stays.
pub open spec fn trim_tail(p: Seq<char>) -> Seq<char>
    decreases p.len(),
{
    if p.len() >= 2 && p.last() == '/' {
        trim_tail(p.drop_last())
    } else if p.len() >= 2 && p.last() == '.' && p[p.len() - 2] == '/' {
        trim_tail(p.drop_last())
    } else {
        p
    }
}

/// The index of the last separator, or -1.
pub open spec fn last_slash(p: Seq<char>) -> int
    decreases p.len(),
{
    if p.len() == 0 {
        -1
    } else if p.last() == '/' {
        p.len() - 1
    } else {
        last_slash(p.drop_last())
    }
}

/// The directory that a path lies in. The root and the empty path lie in none.
pub open spec fn parent_spec(p: Seq<char>) -> Option<Seq<char>> {
    let q = trim_tail(p);
    if q.len() == 0 || q == seq!['/'] {
        None
    } else {
        Some(
            trim_tail(
                q.take(
                    if last_slash(q) <= 0 {
                        last_slash(q) + 1
                    } else {
                        last_slash(q)
                    },
                ),
            ),
        )
    }
}

fn tail_end(v: &Vec<char>, to: usize) -> (r: usize)
    requires
        to <= v@.len(),
    ensures
        r <= to,
        v@.take(r as int) == trim_tail(v@.take(to as int)),
{
    let mut j: usize = to;
    while j >= 2 && (v[j - 1] == '/' || (v[j - 1] == '.' && v[j - 2] == '/'))
        invariant
            j <= to <= v@.len(),
            trim_tail(v@.take(to as int)) == trim_tail(v@.take(j as int)),
        decreases j,
    {
        assert(v@.take(j as int).drop_last() =~= v@.take(j - 1));
        j -= 1;
    }
    j
}

proof fn last_slash_is_an_index(p: Seq<char>)
    ensures
        -1 <= last_slash(p) < p.len(),
    decreases p.len(),
{
    if p.len() > 0 {
        last_slash_is_an_index(p.drop_last());
    }
}

/// The directory that a path lies in.
pub fn parent(p: &str) -> (r: Option<String>)
    ensures
        text::opt_view(r) == parent_spec(p@),
{
    let v = text::to_chars(p);
    assert(v@.take(v@.len() as int) =~= p@);
    let end: usize = tail_end(&v, v.len());
    let ghost q = trim_tail(p@);
    assert(q == v@.take(end as int));
    if end == 0 {
        return None;
    }
    if end == 1 && v[0] == '/' {
        assert(q =~= seq!['/']);
        return None;
    }
    assert(q != seq!['/']) by {
        if q == seq!['/'] {
            assert(q.len() == 1 && q[0] == '/');
        }
    }
    let mut i: usize = end;
    assert(q.take(end as int) =~= q);
    while i > 0 && v[i - 1] != '/'
        invariant
            i <= end <= v@.len(),
            q == v@.take(end as int),
            last_slash(q) == last_slash(q.take(i as int)),
        decreases i,
    {
        assert(q.take(i as int).drop_last() =~= q.take(i - 1));
        i -= 1;
    }
    let cut: usize = if i <= 1 {
        i
    } else {
        i - 1
    };
    let to: usize = tail_end(&v, cut);
    let r = text::from_chars(&v, 0, to);
    assert(v@.take(cut as int) =~= q.take(cut as int));
    assert(r@ =~= v@.take(to as int));
    proof {
        last_slash_is_an_index(q);
    }
    Some(r)
}

/// The part of a path behind the last separator.
pub open spec fn name_spec(p: Seq<char>) -> Seq<char> {
    let q = trim_tail(p);
    q.skip(last_slash(q) + 1)
}

/// The part of a file's name behind its last dot. A dot at the start of the name begins no
/// extension, and the name `..` has none.
pub open spec fn extension_spec(p: Seq<char>) -> Option<Seq<char>> {
    let name = name_spec(p);
    let dot = last_dot(name);
    if name == seq!['.', '.'] || dot <= 0 {
        None
    } else {
        Some(name.skip(dot + 1))
    }
}

/// The index of the last dot, or -1.
pub open spec fn last_dot(s: Seq<char>) -> int
    decreases s.len(),
{
    if s.len() == 0 {
        -1
    } else if s.last() == '.' {
        s.len() - 1
    } else {
        last_dot(s.drop_last())
    }
}

/// The extension of a file's name; empty where it has none.
pub open spec fn ext_or_empty(p: Seq<char>) -> Seq<char> {
    match extension_spec(p) {
        Some(e) => e,
        None => Seq::empty(),
    }
}

/// The part of a path behind the last separator.
pub fn file_name(p: &str) -> (r: String)
    ensures
        r@ == name_spec(p@),
{
    let v = text::to_chars(p);
    assert(v@.take(v@.len() as int) =~= p@);
    let end: usize = tail_end(&v, v.len());
    let ghost q = trim_tail(p@);
    assert(q == v@.take(end as int));
    let mut from: usize = end;
    assert(q.take(end as int) =~= q);
    while from > 0 && v[from - 1] != '/'
        invariant
            from <= end <= v@.len(),
            q == v@.take(end as int),
            last_slash(q) == last_slash(q.take(from as int)),
        decreases from,
    {
        assert(q.take(from as int).drop_last() =~= q.take(from - 1));
        from -= 1;
    }
    let r = text::from_chars(&v, from, end);
    assert(r@ =~= name_spec(p@));
    r
}

/// The extension of a file's name; empty where it has none.
pub fn extension(p: &str) -> (r: String)
    ensures
        r@ == ext_or_empty(p@),
{
    let whole = file_name(p);
    if *whole.as_str() == *".." {
        proof {
            reveal_strlit("..");
        }
        assert(whole@ =~= seq!['.', '.']);
        return String::new();
    }
    proof {
        reveal_strlit("..");
        assert(".."@ =~= seq!['.', '.']);
    }
    let v = text::to_chars(whole.as_str());
    let ghost name = whole@;
    let end: usize = v.len();
    let mut dot: usize = end;
    assert(name.take(end as int) =~= name);
    while dot > 0 && v[dot - 1] != '.'
        invariant
            dot <= end,
            v@ == name,
            end == name.len(),
            last_dot(name) == last_dot(name.take(dot as int)),
        decreases dot,
    {
        assert(name.take(dot as int).drop_last() =~= name.take(dot - 1));
        dot -= 1;
    }
    if dot <= 1 {
        return String::new();
    }
    let r = text::from_chars(&v, dot, end);
    assert(r@ =~= name.skip(last_dot(name) + 1));
    r
}

/// `s` without separators, and without `.` parts, at its head.
pub open spec fn trim_head(s: Seq<char>) -> Seq<char>
    decreases s.len(),
{
    if s.len() > 0 && (s[0] == '/' || is_dot_part(s)) {
        trim_head(s.skip(1))
    } else {
        s
    }
}

/// Whether the first part of `s` is a `.`.
pub open spec fn is_dot_part(s: Seq<char>) -> bool {
    s.len() > 0 && s[0] == '.' && (s.len() == 1 || s[1] == '/')
}

/// How long the first part of `s` is.
pub open spec fn part_len(s: Seq<char>) -> int
    decreases s.len(),
{
    if s.len() == 0 || s[0] == '/' {
        0
    } else {
        1 + part_len(s.skip(1))
    }
}

/// What is left of `p` behind the parts of `base`, if it starts with them.
pub open spec fn after_parts(p: Seq<char>, base: Seq<char>) -> Option<Seq<char>>
    decreases base.len(),
    via after_parts_ends
{
    if base.len() == 0 {
        Some(p)
    } else if p.take(part_len(p)) != base.take(part_len(base)) {
        None
    } else {
        after_parts(trim_head(p.skip(part_len(p))), trim_head(base.skip(part_len(base))))
    }
}

#[via_fn]
proof fn after_parts_ends(p: Seq<char>, base: Seq<char>) {
    part_len_fits(base);
    head_only_shortens(base.skip(part_len(base)));
    if base.len() > 0 {
        if base[0] == '/' {
            assert(base.skip(0) =~= base);
            head_only_shortens(base.skip(1));
        } else {
            part_len_fits(base.skip(1));
        }
    }
}

proof fn part_len_fits(s: Seq<char>)
    ensures
        0 <= part_len(s) <= s.len(),
    decreases s.len(),
{
    if s.len() > 0 && s[0] != '/' {
        part_len_fits(s.skip(1));
    }
}

proof fn head_only_shortens(s: Seq<char>)
    ensures
        trim_head(s).len() <= s.len(),
    decreases s.len(),
{
    if s.len() > 0 && (s[0] == '/' || is_dot_part(s)) {
        head_only_shortens(s.skip(1));
    }
}

/// What is left of `p` below the directory `base`: none, where `p` does not lie there. Paths are
/// taken part by part; a `.` counts only at the head of a relative path.
pub open spec fn below_spec(p: Seq<char>, base: Seq<char>) -> Option<Seq<char>> {
    if base.len() == 0 {
        Some(trim_tail(p))
    } else if absolute_spec(p, PathStyle::Unix) != absolute_spec(base, PathStyle::Unix) || is_dot_part(p) != is_dot_part(base) {
        None
    } else {
        match after_parts(trim_head(p), trim_head(base)) {
            Some(rest) => Some(trim_tail(rest)),
            None => None,
        }
    }
}

fn head_end(v: &Vec<char>, from: usize) -> (r: usize)
    requires
        from <= v@.len(),
    ensures
        from <= r <= v@.len(),
        v@.skip(r as int) == trim_head(v@.skip(from as int)),
{
    let mut i: usize = from;
    while i < v.len() && (v[i] == '/' || (v[i] == '.' && (i + 1 == v.len() || v[i + 1] == '/')))
        invariant
            from <= i <= v@.len(),
            trim_head(v@.skip(from as int)) == trim_head(v@.skip(i as int)),
        decreases v@.len() - i,
    {
        assert(v@.skip(i as int).skip(1) =~= v@.skip(i + 1));
        i += 1;
    }
    i
}

fn part_end(v: &Vec<char>, from: usize) -> (r: usize)
    requires
        from <= v@.len(),
    ensures
        from <= r <= v@.len(),
        r == from + part_len(v@.skip(from as int)),
{
    let mut i: usize = from;
    while i < v.len() && v[i] != '/'
        invariant
            from <= i <= v@.len(),
            from + part_len(v@.skip(from as int)) == i + part_len(v@.skip(i as int)),
        decreases v@.len() - i,
    {
        assert(v@.skip(i as int).skip(1) =~= v@.skip(i + 1));
        i += 1;
    }
    i
}

fn same_chars(a: &Vec<char>, a_from: usize, a_to: usize, b: &Vec<char>, b_from: usize, b_to: usize)
    -> (r: bool)
    requires
        a_from <= a_to <= a@.len(),
        b_from <= b_to <= b@.len(),
    ensures
        r == (a@.subrange(a_from as int, a_to as int) == b@.subrange(b_from as int, b_to as int)),
{
    let ghost x = a@.subrange(a_from as int, a_to as int);
    let ghost y = b@.subrange(b_from as int, b_to as int);
    if a_to - a_from != b_to - b_from {
        assert(x.len() != y.len());
        return false;
    }
    let n: usize = a_to - a_from;
    let mut i: usize = 0;
    while i < n
        invariant
            n == a_to - a_from,
            n == b_to - b_from,
            a_from <= a_to <= a@.len(),
            b_from <= b_to <= b@.len(),
            x == a@.subrange(a_from as int, a_to as int),
            y == b@.subrange(b_from as int, b_to as int),
            i <= n,
            forall|j: int| 0 <= j < i ==> x[j] == y[j],
        decreases n - i,
    {
        if a[a_from + i] != b[b_from + i] {
            assert(x[i as int] != y[i as int]);
            return false;
        }
        i += 1;
    }
    assert(x =~= y);
    true
}

/// What is left of `p` below the directory `base`.
pub fn strip_base(p: &str, base: &str) -> (r: Option<String>)
    ensures
        text::opt_view(r) == below_spec(p@, base@),
{
    let v = text::to_chars(p);
    let w = text::to_chars(base);
    if w.len() == 0 {
        assert(v@.take(v@.len() as int) =~= p@);
        let to: usize = tail_end(&v, v.len());
        let r = text::from_chars(&v, 0, to);
        assert(r@ =~= v@.take(to as int));
        return Some(r);
    }
    let p_dot = v.len() > 0 && v[0] == '.' && (v.len() == 1 || v[1] == '/');
    let base_dot = w[0] == '.' && (w.len() == 1 || w[1] == '/');
    if is_absolute(p, PathStyle::Unix) != is_absolute(base, PathStyle::Unix) || p_dot != base_dot {
        return None;
    }
    assert(v@.skip(0) =~= p@);
    assert(w@.skip(0) =~= base@);
    let mut i: usize = head_end(&v, 0);
    let mut j: usize = head_end(&w, 0);
    while j < w.len()
        invariant
            v@ == p@,
            w@ == base@,
            i <= v@.len(),
            j <= w@.len(),
            after_parts(trim_head(p@), trim_head(base@)) == after_parts(
                v@.skip(i as int),
                w@.skip(j as int),
            ),
            base@.len() > 0,
            absolute_spec(p@, PathStyle::Unix) == absolute_spec(base@, PathStyle::Unix),
            is_dot_part(p@) == is_dot_part(base@),
        decreases w@.len() - j,
    {
        let i_end: usize = part_end(&v, i);
        let j_end: usize = part_end(&w, j);
        assert(v@.subrange(i as int, i_end as int) =~= v@.skip(i as int).take(i_end - i));
        assert(w@.subrange(j as int, j_end as int) =~= w@.skip(j as int).take(j_end - j));
        if !same_chars(&v, i, i_end, &w, j, j_end) {
            return None;
        }
        assert(v@.skip(i as int).skip(i_end - i) =~= v@.skip(i_end as int));
        assert(w@.skip(j as int).skip(j_end - j) =~= w@.skip(j_end as int));
        let ghost before = w@.skip(j as int);
        proof {
            part_len_fits(before);
            if before[0] == '/' {
                head_only_shortens(before.skip(1));
                assert(before.skip(0) =~= before);
            } else {
                head_only_shortens(before.skip(part_len(before)));
                part_len_fits(before.skip(1));
            }
        }
        i = head_end(&v, i_end);
        j = head_end(&w, j_end);
    }
    assert(w@.skip(j as int).len() == 0);
    let rest = text::from_chars(&v, i, v.len());
    assert(rest@ =~= v@.skip(i as int));
    let u = text::to_chars(rest.as_str());
    assert(u@.take(u@.len() as int) =~= rest@);
    let to: usize = tail_end(&u, u.len());
    let r = text::from_chars(&u, 0, to);
    assert(r@ =~= u@.take(to as int));
    Some(r)
}

proof fn head_of_a_longer_path(b: Seq<char>, x: Seq<char>)
    requires
        x.len() > 0,
        x[0] == '/',
    ensures
        trim_head(b + x) == if trim_head(b).len() > 0 {
            trim_head(b) + x
        } else {
            trim_head(x)
        },
    decreases b.len(),
{
    if b.len() == 0 {
        assert(b + x =~= x);
    } else if b[0] == '/' || is_dot_part(b) {
        assert((b + x).skip(1) =~= b.skip(1) + x);
        head_of_a_longer_path(b.skip(1), x);
    } else {
        assert((b + x)[0] == b[0]);
        assert(b.len() >= 2 ==> (b + x)[1] == b[1]);
    }
}

proof fn first_part_of_a_longer_path(b: Seq<char>, x: Seq<char>)
    requires
        x.len() > 0,
        x[0] == '/',
    ensures
        part_len(b + x) == part_len(b),
    decreases b.len(),
{
    if b.len() == 0 {
        assert(b + x =~= x);
    } else if b[0] != '/' {
        assert((b + x).skip(1) =~= b.skip(1) + x);
        first_part_of_a_longer_path(b.skip(1), x);
    }
}

proof fn parts_lead_to_what_follows(b: Seq<char>, x: Seq<char>)
    requires
        x.len() > 0,
        x[0] == '/',
        b.len() > 0,
    ensures
        after_parts(b + x, b) == Some(trim_head(x)),
    decreases b.len(),
{
    part_len_fits(b);
    first_part_of_a_longer_path(b, x);
    let n = part_len(b);
    assert((b + x).take(n) =~= b.take(n));
    assert((b + x).skip(n) =~= b.skip(n) + x);
    head_of_a_longer_path(b.skip(n), x);
    head_only_shortens(b.skip(n));
    if b[0] == '/' {
        assert(b.skip(0) =~= b);
        head_only_shortens(b.skip(1));
    } else {
        part_len_fits(b.skip(1));
    }
    let rest = trim_head(b.skip(n));
    reveal_with_fuel(after_parts, 2);
    if rest.len() > 0 {
        parts_lead_to_what_follows(rest, x);
    }
}

/// What lies in a directory is found again below it.
pub proof fn joined_lies_below(base: Seq<char>, name: Seq<char>)
    requires
        base.len() > 0,
        name.len() > 0,
        name[0] != '/',
        !is_dot_part(name),
        trim_tail(name) == name,
    ensures
        below_spec(join_spec(base, name), base) == Some(name),
{
    let p = join_spec(base, name);
    let x = seq!['/'] + name;
    assert(x.skip(1) =~= name);
    assert(trim_head(name) == name);
    assert(trim_head(x) == name);
    assert(p[0] == base[0]);
    if base.last() == '/' {
        let b = base.drop_last();
        assert(p =~= b + x);
        assert(base =~= b + seq!['/']);
        assert(seq!['/'].skip(1) =~= Seq::<char>::empty());
        assert(trim_head(seq!['/']) == trim_head(Seq::<char>::empty()));
        head_of_a_longer_path(b, x);
        head_of_a_longer_path(b, seq!['/']);
        assert(base.len() >= 2 ==> p[1] == base[1]);
        if trim_head(b).len() > 0 {
            let t = trim_head(b);
            parts_lead_to_what_follows(t, x);
            separators_at_the_end_change_nothing(t + x, t);
        }
    } else {
        assert(p =~= base + x);
        head_of_a_longer_path(base, x);
        assert(base.len() >= 2 ==> p[1] == base[1]);
        if trim_head(base).len() > 0 {
            parts_lead_to_what_follows(trim_head(base), x);
        }
    }
}

proof fn separators_at_the_end_change_nothing(p: Seq<char>, b: Seq<char>)
    requires
        b.len() > 0,
    ensures
        after_parts(p, b + seq!['/']) == after_parts(p, b),
    decreases b.len(),
{
    let y = seq!['/'];
    let n = part_len(b);
    part_len_fits(b);
    first_part_of_a_longer_path(b, y);
    assert((b + y).take(n) =~= b.take(n));
    assert((b + y).skip(n) =~= b.skip(n) + y);
    head_of_a_longer_path(b.skip(n), y);
    assert(y.skip(1) =~= Seq::<char>::empty());
    assert(trim_head(y) == trim_head(Seq::<char>::empty()));
    head_only_shortens(b.skip(n));
    if b[0] == '/' {
        assert(b.skip(0) =~= b);
        head_only_shortens(b.skip(1));
    } else {
        part_len_fits(b.skip(1));
    }
    let rest = trim_head(b.skip(n));
    reveal_with_fuel(after_parts, 2);
    if rest.len() > 0 {
        separators_at_the_end_change_nothing(trim_head(p.skip(part_len(p))), rest);
    }
}

/// A relative path is put behind its base with one separator between them; an absolute one stays
/// as it is, and so does one without a base.
pub proof fn a_relative_path_is_put_behind_its_base(base: Seq<char>, p: Seq<char>)
    ensures
        p.len() > 0 && p[0] == '/' ==> join_spec(base, p) == p,
        base.len() == 0 ==> join_spec(base, p) == p,
        (p.len() == 0 || p[0] != '/') && base.len() > 0 && base.last() != '/' ==> join_spec(base, p)
            == base + seq!['/'] + p,
        (p.len() == 0 || p[0] != '/') && base.len() > 0 && base.last() == '/' ==> join_spec(base, p)
            == base + p,
        seen_from_spec(base, p, PathStyle::Unix) == join_spec(base, p),
{
}

/// On Windows a path with a drive and a root is seen alike from everywhere, one that begins with
/// a separator from its drive, and a relative one from its base, whether that is verbatim or not.
pub proof fn windows_paths_are_seen_from_their_base(
    drive: char,
    other: char,
    base: Seq<char>,
    p: Seq<char>,
)
    requires
        'A' <= drive <= 'Z' || 'a' <= drive <= 'z',
        'A' <= other <= 'Z' || 'a' <= other <= 'z',
        p.len() == 0 || (p[0] != '/' && p[0] != '\\'),
        p.len() < 2 || p[1] != ':',
        base.len() > 0,
        base[0] == '\\',
        base.last() != '/' && base.last() != '\\',
    ensures
        ({
            let here = seq![drive, ':'] + base;
            let there = seq![other, ':', '\\'] + p;
            &&& seen_from_spec(here, there, PathStyle::Windows) == there
            &&& absolute_spec(there, PathStyle::Windows)
            &&& seen_from_spec(here, seq!['\\'] + p, PathStyle::Windows) == seq![drive, ':']
                + seq!['\\'] + p
            &&& seen_from_spec(here, p, PathStyle::Windows) == here + seq!['\\'] + p
            &&& !absolute_spec(p, PathStyle::Windows)
            &&& absolute_spec(here, PathStyle::Windows)
        }),
{
    let here = seq![drive, ':'] + base;
    let there = seq![other, ':', '\\'] + p;
    assert(there[0] == other && there[1] == ':' && there[2] == '\\');
    assert(here[0] == drive && here[1] == ':' && here[2] == base[0]);
    assert(here.last() == base.last());
    assert(here.take(2) =~= seq![drive, ':']);
    let rooted = seq!['\\'] + p;
    assert(rooted[0] == '\\');
    assert(p.len() > 0 ==> rooted[1] == p[0]);
    assert(seq![drive, ':'] + seq!['\\'] + p =~= seq![drive, ':'] + rooted);
}

proof fn last_slash_stands_there(head: Seq<char>, name: Seq<char>)
    requires
        forall|i: int| 0 <= i < name.len() ==> #[trigger] name[i] != '/',
    ensures
        last_slash(head + seq!['/'] + name) == head.len(),
    decreases name.len(),
{
    let all = head + seq!['/'] + name;
    if name.len() == 0 {
        assert(all.last() == '/');
    } else {
        assert(all.last() == name[name.len() - 1]);
        assert(all.drop_last() =~= head + seq!['/'] + name.drop_last());
        assert forall|i: int| 0 <= i < name.drop_last().len() implies #[trigger] name.drop_last()[i]
            != '/' by {
            assert(name.drop_last()[i] == name[i]);
        }
        last_slash_stands_there(head, name.drop_last());
    }
}

proof fn no_slash(name: Seq<char>)
    requires
        forall|i: int| 0 <= i < name.len() ==> #[trigger] name[i] != '/',
    ensures
        last_slash(name) == -1,
    decreases name.len(),
{
    if name.len() > 0 {
        assert(name.last() == name[name.len() - 1]);
        assert forall|i: int| 0 <= i < name.drop_last().len() implies #[trigger] name.drop_last()[i]
            != '/' by {
            assert(name.drop_last()[i] == name[i]);
        }
        no_slash(name.drop_last());
    }
}

/// The directory that a path lies in is what stands before its last part, and its name is that
/// part; the root for what lies in the root, and the empty path for a name alone.
pub proof fn a_path_is_its_directory_and_its_name(dir: Seq<char>, name: Seq<char>)
    requires
        name.len() > 0,
        forall|i: int| 0 <= i < name.len() ==> #[trigger] name[i] != '/',
        name != seq!['.'],
        trim_tail(dir) == dir,
        dir.len() > 0 && dir.last() != '/',
    ensures
        parent_spec(dir + seq!['/'] + name) == Some(dir),
        name_spec(dir + seq!['/'] + name) == name,
        parent_spec(seq!['/'] + name) == Some(seq!['/']),
        name_spec(seq!['/'] + name) == name,
        parent_spec(name) == Some(Seq::<char>::empty()),
        name_spec(name) == name,
        parent_spec(seq!['/']) is None,
        parent_spec(seq![]) is None,
{
    let n = name.len() as int;
    assert(name.last() == name[n - 1] && name[n - 1] != '/');
    if n >= 2 {
        assert(name[n - 2] != '/');
    } else if name.last() == '.' {
        assert(name =~= seq!['.']);
    }
    let all = dir + seq!['/'] + name;
    assert(all.last() == name.last());
    assert(all[all.len() - 2] == if n >= 2 {
        name[n - 2]
    } else {
        '/'
    });
    assert(trim_tail(all) == all);
    last_slash_stands_there(dir, name);
    assert(all.take(dir.len() as int) =~= dir);
    assert(all.skip(dir.len() as int + 1) =~= name);
    assert(all != seq!['/']) by {
        assert(all.len() >= 3);
    }
    let top = seq!['/'] + name;
    assert(top.last() == name.last());
    assert(top[top.len() - 2] == if n >= 2 {
        name[n - 2]
    } else {
        '/'
    });
    assert(trim_tail(top) == top);
    last_slash_stands_there(seq![], name);
    assert(seq![] + seq!['/'] + name =~= top);
    assert(top.take(1) =~= seq!['/']);
    assert(top.skip(1) =~= name);
    assert(top != seq!['/']) by {
        assert(top.len() >= 2);
    }
    assert(trim_tail(seq!['/']) == seq!['/']);
    assert(trim_tail(name) == name);
    no_slash(name);
    assert(name.take(0) =~= Seq::<char>::empty());
    assert(name.skip(0) =~= name);
    assert(name != seq!['/']) by {
        assert(name[0] != '/');
        assert(seq!['/'][0] == '/');
    }
    assert(trim_tail(Seq::<char>::empty()) == Seq::<char>::empty());
}

proof fn last_dot_stands_there(stem: Seq<char>, ext: Seq<char>)
    requires
        forall|i: int| 0 <= i < ext.len() ==> #[trigger] ext[i] != '.',
    ensures
        last_dot(stem + seq!['.'] + ext) == stem.len(),
    decreases ext.len(),
{
    let all = stem + seq!['.'] + ext;
    if ext.len() == 0 {
        assert(all.last() == '.');
    } else {
        assert(all.last() == ext[ext.len() - 1]);
        assert(all.drop_last() =~= stem + seq!['.'] + ext.drop_last());
        assert forall|i: int| 0 <= i < ext.drop_last().len() implies #[trigger] ext.drop_last()[i]
            != '.' by {
            assert(ext.drop_last()[i] == ext[i]);
        }
        last_dot_stands_there(stem, ext.drop_last());
    }
}

proof fn no_dot(name: Seq<char>)
    requires
        forall|i: int| 0 <= i < name.len() ==> #[trigger] name[i] != '.',
    ensures
        last_dot(name) == -1,
    decreases name.len(),
{
    if name.len() > 0 {
        assert(name.last() == name[name.len() - 1]);
        assert forall|i: int| 0 <= i < name.drop_last().len() implies #[trigger] name.drop_last()[i]
            != '.' by {
            assert(name.drop_last()[i] == name[i]);
        }
        no_dot(name.drop_last());
    }
}

/// The extension of a file is what stands behind the last dot of its name, wherever it lies; a
/// name without a dot has none, and neither has one whose only dot begins it.
pub proof fn an_extension_is_behind_the_last_dot(dir: Seq<char>, stem: Seq<char>, ext: Seq<char>)
    requires
        stem.len() > 0,
        ext.len() > 0,
        forall|i: int| 0 <= i < stem.len() ==> #[trigger] stem[i] != '/',
        forall|i: int| 0 <= i < ext.len() ==> #[trigger] ext[i] != '/' && ext[i] != '.',
        trim_tail(dir) == dir,
        dir.len() > 0 && dir.last() != '/',
    ensures
        ext_or_empty(dir + seq!['/'] + (stem + seq!['.'] + ext)) == ext,
        ext_or_empty(stem + seq!['.'] + ext) == ext,
        ext_or_empty(dir + seq!['/'] + ext).len() == 0,
        ext_or_empty(dir + seq!['/'] + (seq!['.'] + ext)).len() == 0,
{
    let name = stem + seq!['.'] + ext;
    assert forall|i: int| 0 <= i < name.len() implies #[trigger] name[i] != '/' by {
        if i < stem.len() {
            assert(name[i] == stem[i]);
        } else if i > stem.len() {
            assert(name[i] == ext[i - stem.len() - 1]);
        }
    }
    assert(name.len() >= 3);
    assert(name != seq!['.']);
    a_path_is_its_directory_and_its_name(dir, name);
    last_dot_stands_there(stem, ext);
    assert(name.skip(stem.len() as int + 1) =~= ext);
    assert(name != seq!['.', '.']) by {
        assert(seq!['.', '.'].len() == 2);
    }
    assert(ext[0] != '.');
    assert(ext != seq!['.']) by {
        assert(seq!['.'][0] == '.');
    }
    a_path_is_its_directory_and_its_name(dir, ext);
    no_dot(ext);
    assert(ext != seq!['.', '.']) by {
        assert(seq!['.', '.'][0] == '.');
    }
    let hidden = seq!['.'] + ext;
    assert forall|i: int| 0 <= i < hidden.len() implies #[trigger] hidden[i] != '/' by {
        if i > 0 {
            assert(hidden[i] == ext[i - 1]);
        }
    }
    assert(hidden[1] == ext[0]);
    assert(hidden.len() >= 2);
    assert(hidden != seq!['.']) by {
        assert(seq!['.'].len() == 1);
    }
    a_path_is_its_directory_and_its_name(dir, hidden);
    last_dot_stands_there(seq![], ext);
    assert(seq![] + seq!['.'] + ext =~= hidden);
}

proof fn first_part_ends_at_the_separator(name: Seq<char>, tail: Seq<char>)
    requires
        forall|i: int| 0 <= i < name.len() ==> #[trigger] name[i] != '/',
        tail.len() == 0 || tail[0] == '/',
    ensures
        part_len(name + tail) == name.len(),
    decreases name.len(),
{
    let all = name + tail;
    if name.len() == 0 {
        assert(all =~= tail);
    } else {
        assert(all[0] == name[0]);
        assert(all.skip(1) =~= name.skip(1) + tail);
        assert forall|i: int| 0 <= i < name.skip(1).len() implies #[trigger] name.skip(1)[i]
            != '/' by {
            assert(name.skip(1)[i] == name[i + 1]);
        }
        first_part_ends_at_the_separator(name.skip(1), tail);
    }
}

/// A path lies below a directory only by whole parts: what lies in a directory of another name
/// does not, even if one name begins like the other.
pub proof fn another_directory_is_not_below(a: Seq<char>, tail: Seq<char>, b: Seq<char>)
    requires
        a.len() > 0 && b.len() > 0,
        a != b,
        forall|i: int| 0 <= i < a.len() ==> #[trigger] a[i] != '/',
        forall|i: int| 0 <= i < b.len() ==> #[trigger] b[i] != '/',
        a != seq!['.'] && b != seq!['.'],
        tail.len() == 0 || tail[0] == '/',
    ensures
        below_spec(seq!['/'] + a + tail, seq!['/'] + b) is None,
        below_spec(a + tail, seq!['/'] + b) is None,
{
    let p = seq!['/'] + a + tail;
    let base = seq!['/'] + b;
    assert(p.skip(1) =~= a + tail);
    assert(base.skip(1) =~= b);
    assert((a + tail)[0] == a[0]);
    assert(!is_dot_part(a + tail)) by {
        if a.len() == 1 {
            assert(a[0] == '.' ==> a =~= seq!['.']);
        } else {
            assert((a + tail)[1] == a[1]);
        }
    }
    assert(!is_dot_part(b)) by {
        if b.len() == 1 {
            assert(b[0] == '.' ==> b =~= seq!['.']);
        }
    }
    assert(trim_head(a + tail) == a + tail);
    assert(trim_head(p) == a + tail);
    assert(trim_head(b) == b);
    assert(trim_head(base) == b);
    first_part_ends_at_the_separator(a, tail);
    first_part_ends_at_the_separator(b, seq![]);
    assert(b + seq![] =~= b);
    assert((a + tail).take(a.len() as int) =~= a);
    assert(b.take(b.len() as int) =~= b);
    assert(p[0] == '/' && base[0] == '/');
}

} // verus!

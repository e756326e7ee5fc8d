//! Text as sequences of characters.
//!
//! A `&str` or a `String` is modelled by its view, a `Seq<char>`. The spec functions here
//! (`*_spec`) say what the usual text operations mean on that view; the executable functions
//! of the same name without the suffix compute them.
use vstd::prelude::*;

verus! {

// ---------------------------------------------------------------------------
// Operations of std
// ---------------------------------------------------------------------------
/// `String::push`: appends one character.
pub assume_specification[ std::string::String::push ](s: &mut std::string::String, c: char)
    ensures
        final(s)@ == old(s)@.push(c),
;

/// `==` on `str`: whether the two hold the same characters.
pub assume_specification[ <str as PartialEq>::eq ](a: &str, b: &str) -> (r: bool)
    ensures
        r == (a@ == b@),
;

/// What `str::to_lowercase` returns: the Unicode lowercase mapping of a text.
pub uninterp spec fn lowercase_spec(s: Seq<char>) -> Seq<char>;

/// `str::to_lowercase`. The result is a function of the text alone; which character maps to
/// which is Unicode's business and is not restated here.
#[verifier::external_body]
pub(crate) fn lowercase(s: &str) -> (r: String)
    ensures
        r@ == lowercase_spec(s@),
{
    s.to_lowercase()
}

/// What the `{:?}` form of a text is: the text in double quotes, with escapes.
pub uninterp spec fn quoted_spec(s: Seq<char>) -> Seq<char>;

/// The `{:?}` form of a `str`. The result is a function of the text alone; the escapes that
/// std chooses are not restated here.
#[verifier::external_body]
pub(crate) fn quoted(s: &str) -> (r: String)
    ensures
        r@ == quoted_spec(s@),
{
    format!("{:?}", s)
}

// ---------------------------------------------------------------------------
// Characters and strings
// ---------------------------------------------------------------------------
/// The views of a sequence of strings.
pub open spec fn views(v: Seq<String>) -> Seq<Seq<char>> {
    Seq::new(v.len(), |i: int| v[i]@)
}

/// The view of an optional string.
pub open spec fn opt_view(o: Option<String>) -> Option<Seq<char>> {
    match o {
        Some(s) => Some(s@),
        None => None,
    }
}

/// The view of an optional text.
pub open spec fn opt_str_view(o: Option<&str>) -> Option<Seq<char>> {
    match o {
        Some(s) => Some(s@),
        None => None,
    }
}

/// The characters of `s`, in order.
pub fn to_chars(s: &str) -> (r: Vec<char>)
    ensures
        r@ == s@,
{
    let mut r: Vec<char> = Vec::new();
    for c in it: s.chars()
        invariant
            r@ == it.seq().take(it.index() as int),
            it.seq() == s@,
    {
        r.push(c);
    }
    r
}

/// The string made of the characters of `v` from index `from` up to, not including, `to`.
pub fn from_chars(v: &Vec<char>, from: usize, to: usize) -> (r: String)
    requires
        from <= to <= v@.len(),
    ensures
        r@ == v@.subrange(from as int, to as int),
{
    let mut r: String = String::new();
    let mut i: usize = from;
    while i < to
        invariant
            from <= i <= to <= v@.len(),
            r@ == v@.subrange(from as int, i as int),
        decreases to - i,
    {
        r.push(v[i]);
        i += 1;
    }
    r
}

/// A copy of `s`.
pub fn copy(s: &str) -> (r: String)
    ensures
        r@ == s@,
{
    s.to_owned()
}

/// A copy of an optional string.
pub fn copy_opt(o: &Option<String>) -> (r: Option<String>)
    ensures
        opt_view(r) == opt_view(*o),
{
    match o {
        Some(s) => Some(s.clone()),
        None => None,
    }
}

/// A copy of a list of strings.
pub fn copy_all(v: &Vec<String>) -> (r: Vec<String>)
    ensures
        views(r@) == views(v@),
{
    let mut r: Vec<String> = Vec::new();
    let mut i: usize = 0;
    while i < v.len()
        invariant
            i <= v@.len(),
            views(r@) == views(v@).take(i as int),
        decreases v@.len() - i,
    {
        let ghost before = views(r@);
        r.push(v[i].clone());
        assert(views(r@) =~= before.push(v@[i as int]@));
        assert(views(r@) =~= views(v@).take(i + 1));
        i += 1;
    }
    assert(views(v@).take(i as int) =~= views(v@));
    r
}

/// Whether `list` holds a string with the characters of `s`.
pub fn list_contains(list: &Vec<String>, s: &str) -> (r: bool)
    ensures
        r == views(list@).contains(s@),
{
    let mut i: usize = 0;
    while i < list.len()
        invariant
            i <= list@.len(),
            forall|j: int| 0 <= j < i ==> list@[j]@ != s@,
        decreases list@.len() - i,
    {
        if *list[i].as_str() == *s {
            assert(views(list@)[i as int] == s@);
            return true;
        }
        i += 1;
    }
    assert forall|j: int| 0 <= j < views(list@).len() implies views(list@)[j] != s@ by {
        assert(list@[j]@ != s@);
    }
    false
}

// ---------------------------------------------------------------------------
// White space
// ---------------------------------------------------------------------------
/// Unicode's White_Space property.
pub open spec fn whitespace_spec(c: char) -> bool {
    let n = c as u32;
    ||| 0x09 <= n <= 0x0d
    ||| n == 0x20
    ||| n == 0x85
    ||| n == 0xa0
    ||| n == 0x1680
    ||| 0x2000 <= n <= 0x200a
    ||| n == 0x2028
    ||| n == 0x2029
    ||| n == 0x202f
    ||| n == 0x205f
    ||| n == 0x3000
}

/// Whether `c` is white space.
pub fn is_whitespace(c: char) -> (r: bool)
    ensures
        r == whitespace_spec(c),
{
    let n: u32 = c as u32;
    (0x09 <= n && n <= 0x0d) || n == 0x20 || n == 0x85 || n == 0xa0 || n == 0x1680 || (0x2000 <= n
        && n <= 0x200a) || n == 0x2028 || n == 0x2029 || n == 0x202f || n == 0x205f || n == 0x3000
}

/// `s` without its leading white space.
pub open spec fn trim_start_spec(s: Seq<char>) -> Seq<char>
    decreases s.len(),
{
    if s.len() > 0 && whitespace_spec(s[0]) {
        trim_start_spec(s.drop_first())
    } else {
        s
    }
}

/// `s` without its trailing white space.
pub open spec fn trim_end_spec(s: Seq<char>) -> Seq<char>
    decreases s.len(),
{
    if s.len() > 0 && whitespace_spec(s.last()) {
        trim_end_spec(s.drop_last())
    } else {
        s
    }
}

/// `s` without its leading and trailing white space.
pub open spec fn trim_spec(s: Seq<char>) -> Seq<char> {
    trim_end_spec(trim_start_spec(s))
}

/// `s` without the leading characters that are in `set`.
pub open spec fn trim_start_set_spec(s: Seq<char>, set: Seq<char>) -> Seq<char>
    decreases s.len(),
{
    if s.len() > 0 && set.contains(s[0]) {
        trim_start_set_spec(s.drop_first(), set)
    } else {
        s
    }
}

/// `s` without the trailing characters that are in `set`.
pub open spec fn trim_end_set_spec(s: Seq<char>, set: Seq<char>) -> Seq<char>
    decreases s.len(),
{
    if s.len() > 0 && set.contains(s.last()) {
        trim_end_set_spec(s.drop_last(), set)
    } else {
        s
    }
}

proof fn trim_start_leaves_no_space(s: Seq<char>)
    ensures
        trim_start_spec(s).len() == 0 || !whitespace_spec(trim_start_spec(s)[0]),
    decreases s.len(),
{
    if s.len() > 0 && whitespace_spec(s[0]) {
        trim_start_leaves_no_space(s.drop_first());
    }
}

proof fn trim_end_leaves_a_prefix(s: Seq<char>)
    ensures
        trim_end_spec(s).len() <= s.len(),
        trim_end_spec(s) == s.take(trim_end_spec(s).len() as int),
        trim_end_spec(s).len() == 0 || !whitespace_spec(trim_end_spec(s).last()),
    decreases s.len(),
{
    if s.len() > 0 && whitespace_spec(s.last()) {
        trim_end_leaves_a_prefix(s.drop_last());
        assert(s.take(trim_end_spec(s).len() as int) =~= s.drop_last().take(
            trim_end_spec(s).len() as int,
        ));
    } else {
        assert(s.take(s.len() as int) =~= s);
    }
}

/// Trimming a second time changes nothing.
pub proof fn trim_is_idempotent(s: Seq<char>)
    ensures
        trim_spec(trim_spec(s)) == trim_spec(s),
{
    let a = trim_start_spec(s);
    trim_start_leaves_no_space(s);
    trim_end_leaves_a_prefix(a);
}

/// Where the text of `v` between `from` and `to` starts once leading white space is gone.
pub fn skip_space(v: &Vec<char>, from: usize, to: usize) -> (r: usize)
    requires
        from <= to <= v@.len(),
    ensures
        from <= r <= to,
        v@.subrange(r as int, to as int) == trim_start_spec(v@.subrange(from as int, to as int)),
{
    let mut i: usize = from;
    while i < to
        invariant
            from <= i <= to <= v@.len(),
            trim_start_spec(v@.subrange(from as int, to as int)) == trim_start_spec(
                v@.subrange(i as int, to as int),
            ),
        decreases to - i,
    {
        if !is_whitespace(v[i]) {
            return i;
        }
        assert(v@.subrange(i as int, to as int).drop_first() =~= v@.subrange(i + 1, to as int));
        i += 1;
    }
    i
}

/// Where the text of `v` between `from` and `to` ends once trailing white space is gone.
pub fn drop_space(v: &Vec<char>, from: usize, to: usize) -> (r: usize)
    requires
        from <= to <= v@.len(),
    ensures
        from <= r <= to,
        v@.subrange(from as int, r as int) == trim_end_spec(v@.subrange(from as int, to as int)),
{
    let mut j: usize = to;
    while j > from
        invariant
            from <= j <= to <= v@.len(),
            trim_end_spec(v@.subrange(from as int, to as int)) == trim_end_spec(
                v@.subrange(from as int, j as int),
            ),
        decreases j,
    {
        if !is_whitespace(v[j - 1]) {
            return j;
        }
        assert(v@.subrange(from as int, j as int).drop_last() =~= v@.subrange(
            from as int,
            j - 1,
        ));
        j -= 1;
    }
    j
}

/// `s` without its leading and trailing white space.
pub fn trim(s: &str) -> (r: String)
    ensures
        r@ == trim_spec(s@),
{
    let v = to_chars(s);
    assert(v@.subrange(0, v@.len() as int) =~= s@);
    let from: usize = skip_space(&v, 0, v.len());
    let to: usize = drop_space(&v, from, v.len());
    from_chars(&v, from, to)
}

/// Whether `s` is nothing but white space.
pub fn is_blank(s: &str) -> (r: bool)
    ensures
        r == (trim_spec(s@).len() == 0),
{
    let t = trim(s);
    t.as_str().is_empty()
}

/// Whether `set` holds `c`.
pub fn in_set(set: &Vec<char>, c: char) -> (r: bool)
    ensures
        r == set@.contains(c),
{
    let mut i: usize = 0;
    while i < set.len()
        invariant
            i <= set@.len(),
            forall|j: int| 0 <= j < i ==> set@[j] != c,
        decreases set@.len() - i,
    {
        if set[i] == c {
            return true;
        }
        i += 1;
    }
    false
}

/// `s` without the leading characters that are in `set`.
pub fn trim_start_set(s: &str, set: &Vec<char>) -> (r: String)
    ensures
        r@ == trim_start_set_spec(s@, set@),
{
    let v = to_chars(s);
    let n: usize = v.len();
    let mut i: usize = 0;
    assert(v@.subrange(0, n as int) =~= s@);
    while i < n && in_set(set, v[i])
        invariant
            n == v@.len(),
            i <= n,
            trim_start_set_spec(s@, set@) == trim_start_set_spec(
                v@.subrange(i as int, n as int),
                set@,
            ),
        decreases n - i,
    {
        assert(v@.subrange(i as int, n as int).drop_first() =~= v@.subrange(i + 1, n as int));
        i += 1;
    }
    from_chars(&v, i, n)
}

/// `s` without the trailing characters that are in `set`.
pub fn trim_end_set(s: &str, set: &Vec<char>) -> (r: String)
    ensures
        r@ == trim_end_set_spec(s@, set@),
{
    let v = to_chars(s);
    let mut j: usize = v.len();
    assert(v@.subrange(0, j as int) =~= s@);
    while j > 0 && in_set(set, v[j - 1])
        invariant
            j <= v@.len(),
            trim_end_set_spec(s@, set@) == trim_end_set_spec(v@.subrange(0, j as int), set@),
        decreases j,
    {
        assert(v@.subrange(0, j as int).drop_last() =~= v@.subrange(0, j - 1));
        j -= 1;
    }
    from_chars(&v, 0, j)
}

// ---------------------------------------------------------------------------
// Searching
// ---------------------------------------------------------------------------
/// Whether `pattern` stands in `s` at index `i`.
pub open spec fn occurs_at(s: Seq<char>, pattern: Seq<char>, i: int) -> bool {
    &&& 0 <= i
    &&& i + pattern.len() <= s.len()
    &&& s.subrange(i, i + pattern.len()) == pattern
}

/// Whether `s` starts with `prefix`.
pub open spec fn starts_with_spec(s: Seq<char>, prefix: Seq<char>) -> bool {
    occurs_at(s, prefix, 0)
}

/// Whether `s` ends with `suffix`.
pub open spec fn ends_with_spec(s: Seq<char>, suffix: Seq<char>) -> bool {
    occurs_at(s, suffix, s.len() - suffix.len())
}

/// Whether `pattern` stands somewhere in `s`.
pub open spec fn contains_spec(s: Seq<char>, pattern: Seq<char>) -> bool {
    exists|i: int| occurs_at(s, pattern, i)
}

/// Whether `pattern` stands in `v` at index `at`.
pub fn matches_at(v: &Vec<char>, pattern: &Vec<char>, at: usize) -> (r: bool)
    ensures
        r == occurs_at(v@, pattern@, at as int),
{
    let n: usize = v.len();
    let m: usize = pattern.len();
    if at > n || m > n - at {
        return false;
    }
    let mut k: usize = 0;
    while k < m
        invariant
            n == v@.len(),
            m == pattern@.len(),
            at + m <= n,
            k <= m,
            forall|j: int| 0 <= j < k ==> v@[at + j] == pattern@[j],
        decreases m - k,
    {
        if v[at + k] != pattern[k] {
            assert(v@.subrange(at as int, at + m)[k as int] != pattern@[k as int]);
            return false;
        }
        k += 1;
    }
    assert(v@.subrange(at as int, at + m) =~= pattern@);
    true
}

/// Whether `s` starts with `prefix`.
pub fn starts_with(s: &str, prefix: &str) -> (r: bool)
    ensures
        r == starts_with_spec(s@, prefix@),
{
    let v = to_chars(s);
    let p = to_chars(prefix);
    matches_at(&v, &p, 0)
}

/// Whether `s` ends with `suffix`.
pub fn ends_with(s: &str, suffix: &str) -> (r: bool)
    ensures
        r == ends_with_spec(s@, suffix@),
{
    let v = to_chars(s);
    let p = to_chars(suffix);
    if p.len() > v.len() {
        return false;
    }
    matches_at(&v, &p, v.len() - p.len())
}

/// Whether `pattern` stands somewhere in `s`.
pub fn contains(s: &str, pattern: &str) -> (r: bool)
    ensures
        r == contains_spec(s@, pattern@),
{
    let v = to_chars(s);
    let p = to_chars(pattern);
    let n: usize = v.len();
    let mut i: usize = 0;
    loop
        invariant
            n == v@.len(),
            v@ == s@,
            p@ == pattern@,
            i <= n,
            forall|j: int| 0 <= j < i ==> !occurs_at(s@, pattern@, j),
        decreases n - i,
    {
        if matches_at(&v, &p, i) {
            return true;
        }
        if i == n {
            return false;
        }
        i += 1;
    }
}

/// `s` without `prefix`, or `None` if it does not start with it.
pub fn strip_prefix(s: &str, prefix: &str) -> (r: Option<String>)
    ensures
        r is Some <==> starts_with_spec(s@, prefix@),
        r is Some ==> prefix@ + r->0@ == s@,
{
    let v = to_chars(s);
    let p = to_chars(prefix);
    if matches_at(&v, &p, 0) {
        let rest = from_chars(&v, p.len(), v.len());
        assert(prefix@ + rest@ =~= s@);
        Some(rest)
    } else {
        None
    }
}

/// `s` without `suffix`, or `None` if it does not end with it.
pub fn strip_suffix(s: &str, suffix: &str) -> (r: Option<String>)
    ensures
        r is Some <==> ends_with_spec(s@, suffix@),
        r is Some ==> r->0@ + suffix@ == s@,
{
    let v = to_chars(s);
    let p = to_chars(suffix);
    if p.len() > v.len() {
        return None;
    }
    let at: usize = v.len() - p.len();
    if matches_at(&v, &p, at) {
        let rest = from_chars(&v, 0, at);
        assert(rest@ + suffix@ =~= s@);
        Some(rest)
    } else {
        None
    }
}

// ---------------------------------------------------------------------------
// Replacing
// ---------------------------------------------------------------------------
/// `s` with every `c` replaced by the text `with`.
pub open spec fn replace_char_spec(s: Seq<char>, c: char, with: Seq<char>) -> Seq<char>
    decreases s.len(),
{
    if s.len() == 0 {
        Seq::empty()
    } else if s.last() == c {
        replace_char_spec(s.drop_last(), c, with) + with
    } else {
        replace_char_spec(s.drop_last(), c, with).push(s.last())
    }
}

/// `s` with every `c` replaced by the text `with`.
pub fn replace_char(s: &str, c: char, with: &str) -> (r: String)
    ensures
        r@ == replace_char_spec(s@, c, with@),
{
    let v = to_chars(s);
    let mut r: String = String::new();
    let mut i: usize = 0;
    while i < v.len()
        invariant
            i <= v@.len(),
            r@ == replace_char_spec(v@.take(i as int), c, with@),
        decreases v@.len() - i,
    {
        assert(v@.take(i + 1).drop_last() =~= v@.take(i as int));
        if v[i] == c {
            r.append(with);
        } else {
            r.push(v[i]);
        }
        i += 1;
    }
    assert(v@.take(i as int) =~= s@);
    r
}

proof fn replaced_char_is_gone(s: Seq<char>, c: char, with: Seq<char>, gone: char)
    requires
        !with.contains(gone),
        c == gone || !s.contains(gone),
    ensures
        !replace_char_spec(s, c, with).contains(gone),
    decreases s.len(),
{
    let r = replace_char_spec(s, c, with);
    if s.len() > 0 {
        let rest = s.drop_last();
        let before = replace_char_spec(rest, c, with);
        if rest.contains(gone) {
            let i = choose|i: int| 0 <= i < rest.len() && rest[i] == gone;
            assert(s[i] == gone);
        }
        replaced_char_is_gone(rest, c, with, gone);
        assert(s[s.len() - 1] == s.last());
        assert forall|i: int| 0 <= i < r.len() implies r[i] != gone by {
            if i < before.len() {
                assert(before[i] != gone);
            } else if s.last() == c {
                assert(with[i - before.len()] != gone);
            }
        }
    }
}

/// `s` in one line: a line feed or a carriage return is written as its escape.
pub open spec fn one_line_spec(s: Seq<char>) -> Seq<char> {
    replace_char_spec(replace_char_spec(s, '\n', "\\n"@), '\r', "\\r"@)
}

/// `s` in one line: a line feed or a carriage return is written as its escape.
pub fn one_line(s: &str) -> (r: String)
    ensures
        r@ == one_line_spec(s@),
        !r@.contains('\n'),
        !r@.contains('\r'),
{
    proof {
        reveal_strlit("\\n");
        reveal_strlit("\\r");
        let first = replace_char_spec(s@, '\n', "\\n"@);
        replaced_char_is_gone(s@, '\n', "\\n"@, '\n');
        replaced_char_is_gone(first, '\r', "\\r"@, '\n');
        replaced_char_is_gone(first, '\r', "\\r"@, '\r');
    }
    replace_char(replace_char(s, '\n', "\\n").as_str(), '\r', "\\r")
}

// ---------------------------------------------------------------------------
// Searching for a character
// ---------------------------------------------------------------------------
/// Where `c` comes first in `s`.
pub open spec fn find_spec(s: Seq<char>, c: char) -> Option<int>
    decreases s.len(),
{
    if s.len() == 0 {
        None
    } else if s[0] == c {
        Some(0)
    } else {
        match find_spec(s.skip(1), c) {
            Some(i) => Some(i + 1),
            None => None,
        }
    }
}

/// Where `c` comes last in `s`.
pub open spec fn rfind_spec(s: Seq<char>, c: char) -> Option<int>
    decreases s.len(),
{
    if s.len() == 0 {
        None
    } else if s.last() == c {
        Some(s.len() - 1)
    } else {
        rfind_spec(s.drop_last(), c)
    }
}

/// Where `c` comes first among the characters.
pub fn find(v: &Vec<char>, c: char) -> (r: Option<usize>)
    ensures
        match r {
            Some(i) => find_spec(v@, c) == Some(i as int) && i < v@.len(),
            None => find_spec(v@, c) is None,
        },
{
    let mut i: usize = 0;
    assert(v@.skip(0) =~= v@);
    while i < v.len()
        invariant
            i <= v@.len(),
            find_spec(v@, c) == match find_spec(v@.skip(i as int), c) {
                Some(k) => Some(k + i),
                None => None,
            },
        decreases v@.len() - i,
    {
        if v[i] == c {
            return Some(i);
        }
        assert(v@.skip(i as int).skip(1) =~= v@.skip(i + 1));
        i += 1;
    }
    None
}

/// Where `c` comes last among the characters.
pub fn rfind(v: &Vec<char>, c: char) -> (r: Option<usize>)
    ensures
        match r {
            Some(i) => rfind_spec(v@, c) == Some(i as int) && i < v@.len(),
            None => rfind_spec(v@, c) is None,
        },
{
    let mut i: usize = v.len();
    assert(v@.take(i as int) =~= v@);
    while i > 0
        invariant
            i <= v@.len(),
            rfind_spec(v@, c) == rfind_spec(v@.take(i as int), c),
        decreases i,
    {
        if v[i - 1] == c {
            return Some(i - 1);
        }
        assert(v@.take(i as int).drop_last() =~= v@.take(i - 1));
        i -= 1;
    }
    None
}

// ---------------------------------------------------------------------------
// Splitting and joining
// ---------------------------------------------------------------------------
/// The parts of `s` between the separators `sep`: always one part more than separators.
pub open spec fn split_spec(s: Seq<char>, sep: char) -> Seq<Seq<char>>
    decreases s.len(),
{
    if s.len() == 0 {
        seq![Seq::empty()]
    } else {
        let parts = split_spec(s.drop_last(), sep);
        if s.last() == sep {
            parts.push(Seq::empty())
        } else {
            parts.drop_last().push(parts.last().push(s.last()))
        }
    }
}

/// The parts put together, with `sep` between each two.
pub open spec fn join_spec(parts: Seq<Seq<char>>, sep: Seq<char>) -> Seq<char>
    decreases parts.len(),
{
    if parts.len() == 0 {
        Seq::empty()
    } else if parts.len() == 1 {
        parts[0]
    } else {
        join_spec(parts.drop_last(), sep) + sep + parts.last()
    }
}

/// The parts of `s` between the separators `sep`.
pub fn split(s: &str, sep: char) -> (r: Vec<String>)
    ensures
        views(r@) == split_spec(s@, sep),
{
    let v = to_chars(s);
    let mut done: Vec<String> = Vec::new();
    let mut cur: String = String::new();
    let mut i: usize = 0;
    assert(views(done@).push(cur@) =~= split_spec(v@.take(0), sep));
    while i < v.len()
        invariant
            i <= v@.len(),
            views(done@).push(cur@) == split_spec(v@.take(i as int), sep),
        decreases v@.len() - i,
    {
        assert(v@.take(i + 1).drop_last() =~= v@.take(i as int));
        let ghost before = views(done@).push(cur@);
        assert(before.drop_last() =~= views(done@));
        if v[i] == sep {
            done.push(cur);
            cur = String::new();
            assert(views(done@) =~= before);
        } else {
            cur.push(v[i]);
        }
        assert(views(done@).push(cur@) =~= split_spec(v@.take(i + 1), sep));
        i += 1;
    }
    assert(v@.take(i as int) =~= s@);
    let ghost all = views(done@).push(cur@);
    done.push(cur);
    assert(views(done@) =~= all);
    done
}

/// The parts put together, with `sep` between each two.
pub fn join(parts: &Vec<String>, sep: &str) -> (r: String)
    ensures
        r@ == join_spec(views(parts@), sep@),
{
    let mut r: String = String::new();
    let mut i: usize = 0;
    while i < parts.len()
        invariant
            i <= parts@.len(),
            r@ == join_spec(views(parts@).take(i as int), sep@),
        decreases parts@.len() - i,
    {
        let ghost p = views(parts@);
        assert(p.take(i + 1).drop_last() =~= p.take(i as int));
        assert(p.take(i + 1).last() == parts@[i as int]@);
        if i > 0 {
            r.append(sep);
        } else {
            assert(r@ =~= Seq::<char>::empty());
        }
        r.append(parts[i].as_str());
        assert(r@ =~= join_spec(p.take(i + 1), sep@));
        i += 1;
    }
    assert(views(parts@).take(i as int) =~= views(parts@));
    r
}

/// The lines of `s`: what stands between line feeds, without the carriage return before a
/// line feed and without an empty last line.
pub open spec fn lines_spec(s: Seq<char>) -> Seq<Seq<char>> {
    let parts = split_spec(s, '\n');
    let last = parts.last();
    let ended = parts.drop_last().map_values(|line: Seq<char>| strip_cr_spec(line));
    if last.len() == 0 {
        ended
    } else {
        ended.push(last)
    }
}

/// `line` without one carriage return at its end.
pub open spec fn strip_cr_spec(line: Seq<char>) -> Seq<char> {
    if line.len() > 0 && line.last() == '\r' {
        line.drop_last()
    } else {
        line
    }
}

/// Splitting gives at least one part.
pub proof fn split_is_not_empty(s: Seq<char>, sep: char)
    ensures
        split_spec(s, sep).len() >= 1,
    decreases s.len(),
{
    if s.len() > 0 {
        split_is_not_empty(s.drop_last(), sep);
    }
}

/// The lines of `s`.
pub fn lines(s: &str) -> (r: Vec<String>)
    ensures
        views(r@) == lines_spec(s@),
{
    proof {
        split_is_not_empty(s@, '\n');
    }
    let parts = split(s, '\n');
    let ghost p = views(parts@);
    let mut r: Vec<String> = Vec::new();
    let last: usize = parts.len() - 1;
    let mut i: usize = 0;
    while i < last
        invariant
            last == parts@.len() - 1,
            i <= last,
            p == views(parts@),
            views(r@) == p.take(i as int).map_values(|line: Seq<char>| strip_cr_spec(line)),
        decreases last - i,
    {
        let line = to_chars(parts[i].as_str());
        let n: usize = line.len();
        let end: usize = if n > 0 && line[n - 1] == '\r' {
            n - 1
        } else {
            n
        };
        let text = from_chars(&line, 0, end);
        assert(text@ =~= strip_cr_spec(p[i as int]));
        let ghost before = views(r@);
        r.push(text);
        assert(views(r@) =~= before.push(text@));
        assert(views(r@) =~= p.take(i + 1).map_values(|line: Seq<char>| strip_cr_spec(line)));
        i += 1;
    }
    assert(p.take(i as int) =~= p.drop_last());
    if !parts[last].as_str().is_empty() {
        let ghost before = views(r@);
        r.push(parts[last].clone());
        assert(views(r@) =~= before.push(p.last()));
    }
    r
}

// ---------------------------------------------------------------------------
// ASCII
// ---------------------------------------------------------------------------
/// `c` with an ASCII capital made small.
pub open spec fn ascii_lower_spec(c: char) -> char {
    if 'A' <= c <= 'Z' {
        ((c as u8) + 32) as char
    } else {
        c
    }
}

/// Whether `c` is an ASCII letter or digit.
pub open spec fn ascii_alphanumeric_spec(c: char) -> bool {
    ('a' <= c <= 'z') || ('A' <= c <= 'Z') || ('0' <= c <= '9')
}

/// `c` with an ASCII capital made small.
pub fn ascii_lower(c: char) -> (r: char)
    ensures
        r == ascii_lower_spec(c),
{
    if 'A' <= c && c <= 'Z' {
        ((c as u8) + 32) as char
    } else {
        c
    }
}

/// Every ASCII capital of `s` made small.
pub open spec fn ascii_lowercase_spec(s: Seq<char>) -> Seq<char> {
    s.map_values(|c: char| ascii_lower_spec(c))
}

/// Every ASCII capital of `s` made small.
pub fn ascii_lowercase(s: &str) -> (r: String)
    ensures
        r@ == ascii_lowercase_spec(s@),
{
    let v = to_chars(s);
    let mut r: String = String::new();
    let mut i: usize = 0;
    while i < v.len()
        invariant
            i <= v@.len(),
            r@ == ascii_lowercase_spec(v@.take(i as int)),
        decreases v@.len() - i,
    {
        r.push(ascii_lower(v[i]));
        assert(r@ =~= ascii_lowercase_spec(v@.take(i + 1)));
        i += 1;
    }
    assert(v@.take(i as int) =~= s@);
    r
}

/// Whether `a` and `b` are the same text but for the case of ASCII letters.
pub fn eq_ignore_ascii_case(a: &str, b: &str) -> (r: bool)
    ensures
        r == (ascii_lowercase_spec(a@) == ascii_lowercase_spec(b@)),
{
    let x = ascii_lowercase(a);
    let y = ascii_lowercase(b);
    x == y
}

// ---------------------------------------------------------------------------
// Numbers and padding
// ---------------------------------------------------------------------------
/// The decimal digit for `d`.
pub open spec fn digit_spec(d: nat) -> char {
    (('0' as nat) + d) as char
}

/// `n` in decimal, without leading zeros.
pub open spec fn decimal_spec(n: nat) -> Seq<char>
    decreases n,
{
    if n < 10 {
        seq![digit_spec(n)]
    } else {
        decimal_spec(n / 10).push(digit_spec(n % 10))
    }
}

/// `n` in decimal.
pub fn decimal(n: u64) -> (r: String)
    ensures
        r@ == decimal_spec(n as nat),
    decreases n,
{
    let mut s: String = if n < 10 {
        String::new()
    } else {
        decimal(n / 10)
    };
    let d: u8 = (n % 10) as u8;
    let c: char = (48u8 + d) as char;
    s.push(c);
    assert(s@ =~= decimal_spec(n as nat));
    s
}

/// `n` in decimal, with a minus sign where it is negative.
pub open spec fn signed_decimal_spec(n: int) -> Seq<char> {
    if n < 0 {
        seq!['-'] + decimal_spec((-n) as nat)
    } else {
        decimal_spec(n as nat)
    }
}

/// `n` in decimal, with a minus sign where it is negative.
pub fn signed_decimal(n: i64) -> (r: String)
    ensures
        r@ == signed_decimal_spec(n as int),
{
    if n >= 0 {
        decimal(n as u64)
    } else {
        let m: u64 = ((-(n as i128)) as u64);
        let mut s: String = String::new();
        s.push('-');
        let digits = decimal(m);
        s.append(digits.as_str());
        s
    }
}

/// `n` spaces.
pub open spec fn spaces(n: nat) -> Seq<char> {
    Seq::new(n, |i: int| ' ')
}

/// How many characters `len` falls short of `width`.
pub open spec fn shortfall(len: nat, width: nat) -> nat {
    if len < width {
        (width - len) as nat
    } else {
        0
    }
}

/// `s` filled up with spaces on the right to at least `width` characters.
pub open spec fn pad_right_spec(s: Seq<char>, width: nat) -> Seq<char> {
    s + spaces(shortfall(s.len(), width))
}

/// `s` filled up with spaces on the left to at least `width` characters.
pub open spec fn pad_left_spec(s: Seq<char>, width: nat) -> Seq<char> {
    spaces(shortfall(s.len(), width)) + s
}

/// A string of `n` spaces.
pub fn blanks(n: usize) -> (r: String)
    ensures
        r@ == spaces(n as nat),
{
    let mut r: String = String::new();
    let mut i: usize = 0;
    while i < n
        invariant
            i <= n,
            r@ == spaces(i as nat),
        decreases n - i,
    {
        r.push(' ');
        assert(r@ =~= spaces((i + 1) as nat));
        i += 1;
    }
    r
}

/// `s` filled up with spaces on the right to at least `width` characters.
pub fn pad_right(s: &str, width: usize) -> (r: String)
    ensures
        r@ == pad_right_spec(s@, width as nat),
{
    let n: usize = s.unicode_len();
    let mut r = copy(s);
    let fill = blanks(width.saturating_sub(n));
    r.append(fill.as_str());
    r
}

/// `s` filled up with spaces on the left to at least `width` characters.
pub fn pad_left(s: &str, width: usize) -> (r: String)
    ensures
        r@ == pad_left_spec(s@, width as nat),
{
    let n: usize = s.unicode_len();
    let mut r = blanks(width.saturating_sub(n));
    r.append(s);
    r
}

// ---------------------------------------------------------------------------
// UTF-8
// ---------------------------------------------------------------------------
/// How many bytes a character takes in UTF-8.
pub open spec fn utf8_len(c: char) -> nat {
    let n = c as u32;
    if n < 0x80 {
        1
    } else if n < 0x800 {
        2
    } else if n < 0x1_0000 {
        3
    } else {
        4
    }
}

/// How many bytes a character takes in UTF-8.
pub fn width(c: char) -> (r: usize)
    ensures
        r == utf8_len(c),
        1 <= r <= 4,
{
    let n: u32 = c as u32;
    if n < 0x80 {
        1
    } else if n < 0x800 {
        2
    } else if n < 0x1_0000 {
        3
    } else {
        4
    }
}

/// How many bytes a text takes in UTF-8.
pub open spec fn byte_len(s: Seq<char>) -> nat
    decreases s.len(),
{
    if s.len() == 0 {
        0
    } else {
        byte_len(s.drop_last()) + utf8_len(s.last())
    }
}

proof fn byte_len_grows(s: Seq<char>, n: int)
    requires
        0 <= n <= s.len(),
    ensures
        byte_len(s.take(n)) <= byte_len(s),
    decreases s.len() - n,
{
    if n == s.len() {
        assert(s.take(n) =~= s);
    } else {
        assert(s.take(n + 1).drop_last() =~= s.take(n));
        byte_len_grows(s, n + 1);
    }
}

/// Two texts one behind the other take as many bytes as both.
pub proof fn byte_len_of_both(a: Seq<char>, b: Seq<char>)
    ensures
        byte_len(a + b) == byte_len(a) + byte_len(b),
    decreases b.len(),
{
    if b.len() == 0 {
        assert(a + b =~= a);
    } else {
        assert((a + b).drop_last() =~= a + b.drop_last());
        byte_len_of_both(a, b.drop_last());
    }
}

/// Whether a text takes fewer than `bytes` bytes in UTF-8.
pub fn is_shorter_than(s: &str, bytes: usize) -> (r: bool)
    requires
        bytes <= usize::MAX - 4,
    ensures
        r == (byte_len(s@) < bytes),
{
    let v = to_chars(s);
    let mut total: usize = 0;
    let mut i: usize = 0;
    assert(v@.take(0) =~= seq![]);
    while i < v.len() && total < bytes
        invariant
            i <= v@.len(),
            v@ == s@,
            bytes <= usize::MAX - 4,
            total <= bytes + 4,
            total == byte_len(v@.take(i as int)),
        decreases v@.len() - i,
    {
        assert(v@.take(i + 1).drop_last() =~= v@.take(i as int));
        total = total + width(v[i]);
        i += 1;
    }
    proof {
        byte_len_grows(v@, i as int);
        if i == v.len() {
            assert(v@.take(i as int) =~= v@);
        }
    }
    i == v.len() && total < bytes
}

// ---------------------------------------------------------------------------
// Laws
// ---------------------------------------------------------------------------
/// Whether two characters are the same, or a capital and a small form of one ASCII letter.
pub open spec fn same_letter(a: char, b: char) -> bool {
    ||| a == b
    ||| 'A' <= a <= 'Z' && b as int == a as int + 32
    ||| 'A' <= b <= 'Z' && a as int == b as int + 32
}

/// Whether two texts are the same but for the case of ASCII letters.
pub open spec fn same_but_for_case(a: Seq<char>, b: Seq<char>) -> bool {
    a.len() == b.len() && forall|i: int| 0 <= i < a.len() ==> same_letter(#[trigger] a[i], b[i])
}

/// Two texts have the same small form exactly where they differ in the case of ASCII letters at
/// most. Nothing else is changed by it.
pub proof fn lowering_forgets_case(a: Seq<char>, b: Seq<char>)
    ensures
        ascii_lowercase_spec(a) == ascii_lowercase_spec(b) <==> same_but_for_case(a, b),
        same_but_for_case(a, ascii_lowercase_spec(a)),
        forall|i: int|
            0 <= i < a.len() ==> !('A' <= #[trigger] ascii_lowercase_spec(a)[i] <= 'Z'),
{
    let x = ascii_lowercase_spec(a);
    let y = ascii_lowercase_spec(b);
    if x == y {
        assert(a.len() == x.len() && b.len() == y.len());
        assert forall|i: int| 0 <= i < a.len() implies same_letter(#[trigger] a[i], b[i]) by {
            assert(x[i] == y[i]);
        }
    }
    if same_but_for_case(a, b) {
        assert forall|i: int| 0 <= i < a.len() implies x[i] == y[i] by {
            assert(same_letter(a[i], b[i]));
        }
        assert(x =~= y);
    }
}

/// A text ends with another exactly where it is something with that behind it, and starts with it
/// where it is that with something behind it; it contains it where something stands around it.
pub proof fn ending_is_what_comes_last(s: Seq<char>, part: Seq<char>)
    ensures
        ends_with_spec(s, part) <==> exists|head: Seq<char>| s == #[trigger] (head + part),
        starts_with_spec(s, part) <==> exists|tail: Seq<char>| s == #[trigger] (part + tail),
        contains_spec(s, part) <==> exists|head: Seq<char>, tail: Seq<char>|
            s == #[trigger] (head + part + tail),
{
    ending(s, part);
    beginning(s, part);
    middle(s, part);
}

proof fn ending(s: Seq<char>, part: Seq<char>)
    ensures
        ends_with_spec(s, part) <==> exists|head: Seq<char>| s == #[trigger] (head + part),
{
    if ends_with_spec(s, part) {
        let head = s.take(s.len() - part.len());
        assert(s =~= head + part);
    } else if exists|head: Seq<char>| s == #[trigger] (head + part) {
        let head = choose|head: Seq<char>| s == #[trigger] (head + part);
        assert(s.subrange(head.len() as int, s.len() as int) =~= part);
    }
}

proof fn beginning(s: Seq<char>, part: Seq<char>)
    ensures
        starts_with_spec(s, part) <==> exists|tail: Seq<char>| s == #[trigger] (part + tail),
{
    if starts_with_spec(s, part) {
        let tail = s.skip(part.len() as int);
        assert(s =~= part + tail);
    } else if exists|tail: Seq<char>| s == #[trigger] (part + tail) {
        let tail = choose|tail: Seq<char>| s == #[trigger] (part + tail);
        assert(s.subrange(0, part.len() as int) =~= part);
    }
}

proof fn middle(s: Seq<char>, part: Seq<char>)
    ensures
        contains_spec(s, part) <==> exists|head: Seq<char>, tail: Seq<char>|
            s == #[trigger] (head + part + tail),
{
    if contains_spec(s, part) {
        let i = choose|i: int| occurs_at(s, part, i);
        let head = s.take(i);
        let tail = s.skip(i + part.len());
        assert(s =~= head + part + tail);
    } else if exists|head: Seq<char>, tail: Seq<char>| s == #[trigger] (head + part + tail) {
        let (head, tail) = choose|head: Seq<char>, tail: Seq<char>|
            s == #[trigger] (head + part + tail);
        let n = head.len() as int;
        assert(s.subrange(n, n + part.len()) =~= part);
        assert(occurs_at(s, part, n));
    }
}

/// Whether a text is white space alone.
pub open spec fn all_space(s: Seq<char>) -> bool {
    forall|i: int| 0 <= i < s.len() ==> whitespace_spec(#[trigger] s[i])
}

/// Trimming takes off the white space around a text, all of it and nothing else.
pub proof fn trimming_takes_white_space_off(before: Seq<char>, s: Seq<char>, after: Seq<char>)
    requires
        all_space(before),
        all_space(after),
        s.len() > 0,
        !whitespace_spec(s[0]),
        !whitespace_spec(s.last()),
    ensures
        trim_spec(before + s + after) == s,
{
    trim_start_takes_white_space_off(before, s + after);
    assert(before + s + after =~= before + (s + after));
    trim_end_takes_white_space_off(s, after);
}

/// A text of white space alone has nothing left when it is trimmed.
pub proof fn white_space_is_trimmed_to_nothing(s: Seq<char>)
    requires
        all_space(s),
    ensures
        trim_spec(s).len() == 0,
{
    trim_start_takes_white_space_off(s, seq![]);
    assert(s + seq![] =~= s);
}

/// A text that is not white space alone has something left when it is trimmed.
pub proof fn what_is_not_space_stays(s: Seq<char>)
    requires
        !all_space(s),
    ensures
        trim_spec(s).len() > 0,
{
    if trim_spec(s).len() == 0 {
        let t = trim_start_spec(s);
        let after = trimmed_end_is_white_space(t);
        assert(t =~= after);
        let before = trimmed_start_is_white_space(s);
        assert forall|i: int| 0 <= i < s.len() implies whitespace_spec(#[trigger] s[i]) by {
            if i < before.len() {
                assert(s[i] == before[i]);
            } else {
                assert(s[i] == t[i - before.len()]);
            }
        }
    }
}

proof fn trimmed_start_is_white_space(s: Seq<char>) -> (space: Seq<char>)
    ensures
        s == space + trim_start_spec(s),
        all_space(space),
    decreases s.len(),
{
    if s.len() > 0 && whitespace_spec(s[0]) {
        let rest = trimmed_start_is_white_space(s.drop_first());
        let all = seq![s[0]] + rest;
        let kept = trim_start_spec(s.drop_first());
        assert(s =~= seq![s[0]] + s.drop_first());
        assert(s =~= all + kept);
        assert forall|i: int| 0 <= i < all.len() implies whitespace_spec(#[trigger] all[i]) by {
            if i > 0 {
                assert(all[i] == rest[i - 1]);
            }
        }
        all
    } else {
        assert(s =~= seq![] + trim_start_spec(s));
        seq![]
    }
}

/// Taking white space off the end of a text takes off all of it, and nothing else.
pub proof fn trim_end_takes_white_space_off(s: Seq<char>, after: Seq<char>)
    requires
        all_space(after),
        s.len() > 0 ==> !whitespace_spec(s.last()),
    ensures
        trim_end_spec(s + after) == s,
    decreases after.len(),
{
    let all = s + after;
    if after.len() == 0 {
        assert(all =~= s);
    } else {
        assert(all.last() == after[after.len() - 1]);
        assert(all.drop_last() =~= s + after.drop_last());
        assert forall|i: int| 0 <= i < after.drop_last().len() implies whitespace_spec(
            #[trigger] after.drop_last()[i],
        ) by {
            assert(after.drop_last()[i] == after[i]);
        }
        trim_end_takes_white_space_off(s, after.drop_last());
    }
}

proof fn trim_start_takes_white_space_off(before: Seq<char>, s: Seq<char>)
    requires
        all_space(before),
        s.len() > 0 ==> !whitespace_spec(s[0]),
    ensures
        trim_start_spec(before + s) == s,
    decreases before.len(),
{
    let all = before + s;
    if before.len() == 0 {
        assert(all =~= s);
    } else {
        assert(all[0] == before[0]);
        assert(all.drop_first() =~= before.drop_first() + s);
        assert forall|i: int| 0 <= i < before.drop_first().len() implies whitespace_spec(
            #[trigger] before.drop_first()[i],
        ) by {
            assert(before.drop_first()[i] == before[i + 1]);
        }
        trim_start_takes_white_space_off(before.drop_first(), s);
    }
}

/// What is taken off the end of a text is white space.
pub proof fn trimmed_end_is_white_space(s: Seq<char>) -> (space: Seq<char>)
    ensures
        s == trim_end_spec(s) + space,
        all_space(space),
    decreases s.len(),
{
    if s.len() > 0 && whitespace_spec(s.last()) {
        let space = trimmed_end_is_white_space(s.drop_last());
        let all = space.push(s.last());
        let kept = trim_end_spec(s.drop_last());
        assert(s =~= s.drop_last().push(s.last()));
        assert(s =~= kept + all);
        assert forall|i: int| 0 <= i < all.len() implies whitespace_spec(#[trigger] all[i]) by {
            if i < space.len() {
                assert(all[i] == space[i]);
            }
        }
        all
    } else {
        assert(s =~= trim_end_spec(s) + seq![]);
        seq![]
    }
}

/// The white space of ASCII is the space and the five controls from the tab to the carriage
/// return; the ideographic space and the other spaces of Unicode count too, and no letter, digit
/// or sign of ASCII does.
pub proof fn which_characters_are_white_space(c: char)
    ensures
        (c as u32) < 0x80 ==> (whitespace_spec(c) <==> c == ' ' || c == '\t' || c == '\n' || c
            == '\u{b}' || c == '\u{c}' || c == '\r'),
        c == '\u{85}' || c == '\u{a0}' || c == '\u{1680}' || c == '\u{2028}' || c == '\u{2029}' || c
            == '\u{202f}' || c == '\u{205f}' || c == '\u{3000}' ==> whitespace_spec(c),
        '\u{2000}' <= c <= '\u{200a}' ==> whitespace_spec(c),
        c > '\u{3000}' ==> !whitespace_spec(c),
        '\u{80}' <= c < '\u{1680}' && c != '\u{85}' && c != '\u{a0}' ==> !whitespace_spec(c),
{
}

/// Splitting cuts at every separator and nowhere else: no part holds one, and the parts with the
/// separators between them are the text again.
pub proof fn splitting_cuts_at_every_separator(s: Seq<char>, sep: char)
    ensures
        split_spec(s, sep).len() >= 1,
        join_spec(split_spec(s, sep), seq![sep]) == s,
        forall|i: int|
            0 <= i < split_spec(s, sep).len() ==> !(#[trigger] split_spec(s, sep)[i]).contains(sep),
    decreases s.len(),
{
    let parts = split_spec(s, sep);
    if s.len() == 0 {
        assert(parts[0] =~= s);
    } else {
        let rest = s.drop_last();
        let before = split_spec(rest, sep);
        splitting_cuts_at_every_separator(rest, sep);
        assert(s =~= rest.push(s.last()));
        if s.last() == sep {
            assert(parts.drop_last() =~= before);
            assert(join_spec(parts, seq![sep]) =~= rest + seq![sep] + Seq::<char>::empty());
            assert(join_spec(parts, seq![sep]) =~= s);
            assert forall|i: int| 0 <= i < parts.len() implies !(#[trigger] parts[i]).contains(
                sep,
            ) by {
                if i < before.len() {
                    assert(parts[i] == before[i]);
                }
            }
        } else {
            let grown = before.last().push(s.last());
            assert(parts.drop_last() =~= before.drop_last());
            assert(parts.last() == grown);
            if before.len() == 1 {
                assert(join_spec(parts, seq![sep]) =~= s);
            } else {
                assert(join_spec(parts, seq![sep]) =~= join_spec(before.drop_last(), seq![sep])
                    + seq![sep] + grown);
                assert(rest == join_spec(before.drop_last(), seq![sep]) + seq![sep]
                    + before.last());
                assert(join_spec(parts, seq![sep]) =~= s);
            }
            assert forall|i: int| 0 <= i < parts.len() implies !(#[trigger] parts[i]).contains(
                sep,
            ) by {
                if i < before.len() - 1 {
                    assert(parts[i] == before[i]);
                } else {
                    assert(!before[before.len() - 1].contains(sep));
                    assert forall|k: int| 0 <= k < grown.len() implies grown[k] != sep by {
                        if k < before.last().len() {
                            assert(before.last()[k] == grown[k]);
                        }
                    }
                }
            }
        }
    }
}

/// Joining puts the separator between the parts, and nowhere else.
pub proof fn joining_puts_separators_between(
    parts: Seq<Seq<char>>,
    part: Seq<char>,
    sep: Seq<char>,
)
    ensures
        join_spec(seq![], sep).len() == 0,
        join_spec(seq![part], sep) == part,
        parts.len() > 0 ==> join_spec(parts.push(part), sep) == join_spec(parts, sep) + sep + part,
{
    assert(parts.push(part).drop_last() =~= parts);
}

/// Replacing a character puts the other text in its place wherever it stands, and leaves all
/// else: of two texts one behind the other, and of one character.
pub proof fn replacing_goes_character_by_character(
    a: Seq<char>,
    b: Seq<char>,
    x: char,
    c: char,
    with: Seq<char>,
)
    ensures
        replace_char_spec(a + b, c, with) == replace_char_spec(a, c, with) + replace_char_spec(
            b,
            c,
            with,
        ),
        replace_char_spec(seq![c], c, with) == with,
        x != c ==> replace_char_spec(seq![x], c, with) == seq![x],
        replace_char_spec(seq![], c, with).len() == 0,
    decreases b.len(),
{
    assert(seq![c].drop_last() =~= seq![]);
    assert(seq![x].drop_last() =~= seq![]);
    assert(seq![c].last() == c && seq![x].last() == x);
    assert(replace_char_spec(seq![], c, with) =~= seq![]);
    assert(replace_char_spec(seq![c], c, with) =~= with);
    if x != c {
        assert(replace_char_spec(seq![x], c, with) =~= seq![x]);
    }
    if b.len() == 0 {
        assert(a + b =~= a);
        assert(replace_char_spec(b, c, with) =~= seq![]);
        assert(replace_char_spec(a, c, with) + replace_char_spec(b, c, with)
            =~= replace_char_spec(a, c, with));
    } else {
        replacing_goes_character_by_character(a, b.drop_last(), x, c, with);
        assert((a + b).drop_last() =~= a + b.drop_last());
        assert((a + b).last() == b.last());
        assert(replace_char_spec(a + b, c, with) =~= replace_char_spec(a, c, with)
            + replace_char_spec(b, c, with));
    }
}

/// The number that a row of decimal digits stands for.
pub open spec fn value_of_digits(s: Seq<char>) -> int
    decreases s.len(),
{
    if s.len() == 0 {
        0
    } else {
        10 * value_of_digits(s.drop_last()) + (s.last() as int - '0' as int)
    }
}

/// A number in decimal is a row of digits that stands for it, without a zero at its head unless it
/// is the number 0.
pub proof fn a_decimal_stands_for_its_number(n: nat)
    ensures
        decimal_spec(n).len() >= 1,
        value_of_digits(decimal_spec(n)) == n,
        forall|i: int|
            0 <= i < decimal_spec(n).len() ==> '0' <= #[trigger] decimal_spec(n)[i] <= '9',
        n > 0 ==> decimal_spec(n)[0] != '0',
        n == 0 ==> decimal_spec(n) == seq!['0'],
    decreases n,
{
    let s = decimal_spec(n);
    let last = digit_spec(n % 10);
    assert('0' <= last <= '9' && last as int - '0' as int == n % 10);
    if n < 10 {
        assert(s.drop_last() =~= seq![]);
        assert(value_of_digits(seq![]) == 0);
        assert(s.last() == last);
    } else {
        a_decimal_stands_for_its_number(n / 10);
        assert(s.drop_last() =~= decimal_spec(n / 10));
        assert(s.last() == last);
        assert(s[0] == decimal_spec(n / 10)[0]);
    }
}

/// How many bytes characters take: one up to U+007F, two up to U+07FF, three up to U+FFFF, and
/// four beyond.
pub proof fn characters_take_one_to_four_bytes(c: char)
    ensures
        byte_len(seq![c]) == if c <= '\u{7f}' {
            1nat
        } else if c <= '\u{7ff}' {
            2
        } else if c <= '\u{ffff}' {
            3
        } else {
            4
        },
        byte_len(seq![]) == 0,
{
    assert(seq![c].drop_last() =~= seq![]);
    assert(seq![c].last() == c);
    assert(byte_len(seq![]) == 0);
}

/// Splitting a text at a separator in it splits what comes before and what comes behind.
pub proof fn splitting_goes_on_behind_a_separator(a: Seq<char>, b: Seq<char>, sep: char)
    ensures
        split_spec(a + seq![sep] + b, sep) == split_spec(a, sep) + split_spec(b, sep),
    decreases b.len(),
{
    let all = a + seq![sep] + b;
    split_is_not_empty(b, sep);
    if b.len() == 0 {
        assert(all.drop_last() =~= a);
        assert(all.last() == sep);
        assert(split_spec(all, sep) =~= split_spec(a, sep) + split_spec(b, sep));
    } else {
        let rest = b.drop_last();
        splitting_goes_on_behind_a_separator(a, rest, sep);
        split_is_not_empty(rest, sep);
        assert(all.drop_last() =~= a + seq![sep] + rest);
        assert(all.last() == b.last());
        let before = split_spec(a, sep) + split_spec(rest, sep);
        assert(before.last() == split_spec(rest, sep).last());
        assert(split_spec(all, sep) =~= split_spec(a, sep) + split_spec(b, sep));
    }
}

proof fn a_part_is_not_split(s: Seq<char>, sep: char)
    requires
        !s.contains(sep),
    ensures
        split_spec(s, sep) == seq![s],
    decreases s.len(),
{
    if s.len() == 0 {
        assert(s =~= Seq::<char>::empty());
        assert(split_spec(s, sep) =~= seq![s]);
    } else {
        let rest = s.drop_last();
        assert(s[s.len() - 1] == s.last());
        assert(s.last() != sep);
        assert forall|i: int| 0 <= i < rest.len() implies rest[i] != sep by {
            assert(rest[i] == s[i]);
        }
        a_part_is_not_split(rest, sep);
        assert(rest.push(s.last()) =~= s);
        assert(split_spec(s, sep) =~= seq![s]);
    }
}

/// Splitting undoes joining, where no part holds the separator.
pub proof fn splitting_undoes_joining(parts: Seq<Seq<char>>, sep: char)
    requires
        parts.len() > 0,
        forall|i: int| 0 <= i < parts.len() ==> !(#[trigger] parts[i]).contains(sep),
    ensures
        split_spec(join_spec(parts, seq![sep]), sep) == parts,
    decreases parts.len(),
{
    assert(parts.last() == parts[parts.len() - 1]);
    a_part_is_not_split(parts.last(), sep);
    if parts.len() == 1 {
        assert(parts =~= seq![parts[0]]);
    } else {
        let rest = parts.drop_last();
        assert forall|i: int| 0 <= i < rest.len() implies !(#[trigger] rest[i]).contains(sep) by {
            assert(rest[i] == parts[i]);
        }
        splitting_undoes_joining(rest, sep);
        splitting_goes_on_behind_a_separator(join_spec(rest, seq![sep]), parts.last(), sep);
        assert(rest + seq![parts.last()] =~= parts);
    }
}

/// A text begins with its first part, ends with its last, and contains what is between.
pub proof fn parts_stand_in_a_text(head: Seq<char>, part: Seq<char>, tail: Seq<char>)
    ensures
        contains_spec(head + part + tail, part),
        starts_with_spec(head + part, head),
        ends_with_spec(part + tail, tail),
{
    let all = head + part + tail;
    assert(all.subrange(head.len() as int, (head.len() + part.len()) as int) =~= part);
    assert(occurs_at(all, part, head.len() as int));
    assert((head + part).subrange(0, head.len() as int) =~= head);
    assert((part + tail).subrange(part.len() as int, (part + tail).len() as int) =~= tail);
}

/// A line ends at a line feed, with or without a carriage return before it; what stands behind
/// the last one is a line too, unless it is empty.
pub proof fn lines_end_at_line_feeds(line: Seq<char>, rest: Seq<char>)
    requires
        !line.contains('\n'),
    ensures
        line.len() == 0 || line.last() != '\r' ==> lines_spec(line + seq!['\n'] + rest)
            == seq![line] + lines_spec(rest),
        lines_spec(line.push('\r') + seq!['\n'] + rest) == seq![line] + lines_spec(rest),
        line.len() > 0 ==> lines_spec(line) == seq![line],
        lines_spec(seq![]).len() == 0,
{
    a_line_comes_first(line, rest);
    let returned = line.push('\r');
    assert(!returned.contains('\n')) by {
        if returned.contains('\n') {
            let i = choose|i: int| 0 <= i < returned.len() && returned[i] == '\n';
            assert(line[i] == '\n');
        }
    }
    a_line_comes_first(returned, rest);
    assert(returned.drop_last() =~= line);
    a_part_is_not_split(line, '\n');
    assert(seq![line].drop_last().map_values(|l: Seq<char>| strip_cr_spec(l)) =~= seq![]);
    assert(seq![line].last() == line);
    if line.len() > 0 {
        assert(lines_spec(line) =~= seq![line]);
    }
    let none = Seq::<char>::empty();
    assert(!none.contains('\n'));
    a_part_is_not_split(none, '\n');
    assert(seq![none].last() == none);
    assert(seq![none].drop_last().map_values(|l: Seq<char>| strip_cr_spec(l)) =~= seq![]);
}

proof fn a_line_comes_first(line: Seq<char>, rest: Seq<char>)
    requires
        !line.contains('\n'),
    ensures
        lines_spec(line + seq!['\n'] + rest) == seq![strip_cr_spec(line)] + lines_spec(rest),
{
    splitting_goes_on_behind_a_separator(line, rest, '\n');
    a_part_is_not_split(line, '\n');
    split_is_not_empty(rest, '\n');
    let behind = split_spec(rest, '\n');
    let all = seq![line] + behind;
    let cut = |l: Seq<char>| strip_cr_spec(l);
    assert(all.last() == behind.last());
    assert(all.drop_last() =~= seq![line] + behind.drop_last());
    assert(all.drop_last().map_values(cut) =~= seq![strip_cr_spec(line)]
        + behind.drop_last().map_values(cut));
    assert(lines_spec(line + seq!['\n'] + rest) =~= seq![strip_cr_spec(line)] + lines_spec(rest));
}

/// A character is found where it comes first, and looking from the end where it comes last; it
/// is not found exactly where it does not occur.
pub proof fn a_character_is_found_where_it_is(a: Seq<char>, c: char, b: Seq<char>)
    ensures
        !a.contains(c) ==> find_spec(a + seq![c] + b, c) == Some(a.len() as int),
        !b.contains(c) ==> rfind_spec(a + seq![c] + b, c) == Some(a.len() as int),
        !a.contains(c) ==> find_spec(a, c) is None && rfind_spec(a, c) is None,
        find_spec(a, c) is None ==> !a.contains(c),
        rfind_spec(a, c) is None ==> !a.contains(c),
    decreases a.len() + b.len(),
{
    let all = a + seq![c] + b;
    if a.len() > 0 {
        let rest = a.skip(1);
        a_character_is_found_where_it_is(rest, c, b);
        assert(all.skip(1) =~= rest + seq![c] + b);
        assert(all[0] == a[0]);
        if !a.contains(c) {
            assert(a[0] != c);
            assert(!rest.contains(c)) by {
                if rest.contains(c) {
                    let i = choose|i: int| 0 <= i < rest.len() && rest[i] == c;
                    assert(a[i + 1] == c);
                }
            }
        }
        if find_spec(a, c) is None && a.contains(c) {
            let i = choose|i: int| 0 <= i < a.len() && a[i] == c;
            assert(i > 0);
            assert(rest[i - 1] == c);
        }
        let before = a.drop_last();
        a_character_is_found_where_it_is(before, c, b);
        if !a.contains(c) {
            assert(a[a.len() - 1] != c);
            assert(!before.contains(c)) by {
                if before.contains(c) {
                    let i = choose|i: int| 0 <= i < before.len() && before[i] == c;
                    assert(a[i] == c);
                }
            }
        }
        if rfind_spec(a, c) is None && a.contains(c) {
            let i = choose|i: int| 0 <= i < a.len() && a[i] == c;
            assert(i < a.len() - 1);
            assert(before[i] == c);
        }
    } else {
        assert(all[0] == c);
    }
    if b.len() > 0 {
        let less = b.drop_last();
        a_character_is_found_where_it_is(a, c, less);
        assert(all.drop_last() =~= a + seq![c] + less);
        assert(all.last() == b.last());
        if !b.contains(c) {
            assert(b[b.len() - 1] != c);
            assert(!less.contains(c)) by {
                if less.contains(c) {
                    let i = choose|i: int| 0 <= i < less.len() && less[i] == c;
                    assert(b[i] == c);
                }
            }
        }
    } else {
        assert(all.last() == c);
    }
}

/// Characters of a set are taken off at the end of a text that they are taken off at, as many as
/// there are, and no others.
pub proof fn characters_of_a_set_are_taken_off(around: Seq<char>, s: Seq<char>, set: Seq<char>)
    requires
        forall|i: int| 0 <= i < around.len() ==> set.contains(#[trigger] around[i]),
    ensures
        s.len() == 0 || !set.contains(s[0]) ==> trim_start_set_spec(around + s, set) == s,
        s.len() == 0 || !set.contains(s.last()) ==> trim_end_set_spec(s + around, set) == s,
    decreases around.len(),
{
    if around.len() == 0 {
        assert(around + s =~= s);
        assert(s + around =~= s);
    } else {
        assert((around + s)[0] == around[0]);
        assert((around + s).drop_first() =~= around.drop_first() + s);
        characters_of_a_set_are_taken_off(around.drop_first(), s, set);
        assert((s + around).last() == around[around.len() - 1]);
        assert((s + around).drop_last() =~= s + around.drop_last());
        characters_of_a_set_are_taken_off(around.drop_last(), s, set);
    }
}

/// A padded text is the text with spaces on one side, as long as was asked for or as the text
/// itself where that is longer.
pub proof fn padding_fills_up_with_spaces(s: Seq<char>, width: nat)
    ensures
        ({
            let right = pad_right_spec(s, width);
            let left = pad_left_spec(s, width);
            let len = if s.len() < width {
                width as int
            } else {
                s.len() as int
            };
            &&& right.len() == len && left.len() == len
            &&& right.take(s.len() as int) == s
            &&& left.skip(len - s.len()) == s
            &&& forall|i: int| s.len() <= i < len ==> #[trigger] right[i] == ' '
            &&& forall|i: int| 0 <= i < len - s.len() ==> #[trigger] left[i] == ' '
        }),
{
    assert(pad_right_spec(s, width).take(s.len() as int) =~= s);
    assert(pad_left_spec(s, width).skip(pad_left_spec(s, width).len() - s.len()) =~= s);
}

/// A number below zero is written as the one above it with a minus sign before.
pub proof fn a_minus_sign_stands_before_what_is_below_zero(n: nat)
    ensures
        signed_decimal_spec(n as int) == decimal_spec(n),
        n > 0 ==> signed_decimal_spec(-n) == seq!['-'] + decimal_spec(n),
{
}

/// What a text begins with and what it contains stays so when more is put behind it.
pub proof fn more_behind_a_text_takes_nothing_away(s: Seq<char>, part: Seq<char>, more: Seq<char>)
    ensures
        starts_with_spec(s, part) ==> starts_with_spec(s + more, part),
        contains_spec(s, part) ==> contains_spec(s + more, part),
{
    if starts_with_spec(s, part) {
        assert((s + more).subrange(0, part.len() as int) =~= s.subrange(0, part.len() as int));
    }
    if contains_spec(s, part) {
        let i = choose|i: int| occurs_at(s, part, i);
        assert((s + more).subrange(i, i + part.len()) =~= s.subrange(i, i + part.len()));
        assert(occurs_at(s + more, part, i));
    }
}

} // verus!

//! How much a chunk has to say.
//!
//! A chunk loses marks for being short, for being nothing but a placeholder, and for being a
//! single short line. Scores and limits are held as the bits of single-precision numbers.
use vstd::prelude::*;

use crate::ieee;
use crate::text;

verus! {

/// The limit below which a chunk counts as poor, 0.3.
pub const DEFAULT_QUALITY_THRESHOLD_BITS: u32 = 0x3e99_999a;

/// A chunk with fewer characters than this is short.
pub const SHORT_CONTENT_THRESHOLD: usize = 30;

/// A chunk of one line with fewer characters than this has no structure.
pub const STRUCTURE_POOR_THRESHOLD: usize = 80;

/// The `[quality_filter]` section of the configuration.
#[derive(Debug, Clone, Copy, PartialEq, Eq, Structural)]
pub struct QualityFilterConfig {
    pub enabled: bool,
    pub threshold_bits: u32,
}

/// Whether the filter is on where the configuration does not say.
pub fn default_enabled() -> (r: bool)
    ensures
        r,
{
    true
}

/// The limit where the configuration does not give one.
pub fn default_threshold() -> (r: u32)
    ensures
        r == DEFAULT_QUALITY_THRESHOLD_BITS,
{
    DEFAULT_QUALITY_THRESHOLD_BITS
}

impl Default for QualityFilterConfig {
    fn default() -> (r: Self)
        ensures
            r.enabled,
            r.threshold_bits == DEFAULT_QUALITY_THRESHOLD_BITS,
    {
        QualityFilterConfig {
            enabled: default_enabled(),
            threshold_bits: default_threshold(),
        }
    }
}

/// A number forced into the range from 0.0 to 1.0. What is no number stays as it is.
pub open spec fn clamp_spec(bits: u32) -> u32 {
    if ieee::less_spec(bits, 0) {
        0
    } else if ieee::less_spec(ieee::ONE, bits) {
        ieee::ONE
    } else {
        bits
    }
}

/// A number forced into the range from 0.0 to 1.0.
pub fn clamp(bits: u32) -> (r: u32)
    ensures
        r == clamp_spec(bits),
{
    if ieee::less(bits, 0) {
        0
    } else if ieee::less(ieee::ONE, bits) {
        ieee::ONE
    } else {
        bits
    }
}

impl QualityFilterConfig {
    /// The limit in force: none, which is 0.0, where the filter is off.
    pub fn effective_threshold(&self) -> (r: u32)
        ensures
            r == if self.enabled {
                clamp_spec(self.threshold_bits)
            } else {
                0
            },
    {
        if !self.enabled {
            0
        } else {
            clamp(self.threshold_bits)
        }
    }
}

/// The characters that may trail a placeholder.
pub open spec fn trailing_marks() -> Seq<char> {
    seq!['.', '。', '、', ',', ' ', '\t']
}

/// The texts that are placeholders.
pub open spec fn placeholders() -> Seq<Seq<char>> {
    seq![
        "TBD"@,
        "TODO"@,
        "WIP"@,
        "N/A"@,
        "未定"@,
        "準備中"@,
        "(準備中)"@,
        "詳細は後述"@,
        "詳細は後述する"@,
        "ここに書く"@,
        "後で書く"@,
        "Coming soon"@,
        "後述"@,
    ]
}

/// What is left of a text once it is trimmed and trailing marks are gone.
pub open spec fn bare(content: Seq<char>) -> Seq<char> {
    text::trim_start_spec(text::trim_end_set_spec(text::trim_spec(content), trailing_marks()))
}

/// Whether a text is one of the placeholders, whatever the case of its letters.
pub open spec fn boilerplate_spec(content: Seq<char>) -> bool {
    bare(content).len() > 0 && exists|i: int|
        0 <= i < placeholders().len() && text::ascii_lowercase_spec(bare(content))
            == text::ascii_lowercase_spec(#[trigger] placeholders()[i])
}

/// `s` without its leading white space.
fn trim_start(s: &str) -> (r: String)
    ensures
        r@ == text::trim_start_spec(s@),
{
    let v = text::to_chars(s);
    assert(v@.subrange(0, v@.len() as int) =~= s@);
    let from: usize = text::skip_space(&v, 0, v.len());
    text::from_chars(&v, from, v.len())
}

/// The texts that are placeholders.
fn placeholder_list() -> (r: Vec<&'static str>)
    ensures
        r@.len() == placeholders().len(),
        forall|i: int| 0 <= i < r@.len() ==> (#[trigger] r@[i])@ == placeholders()[i],
{
    let mut v: Vec<&'static str> = Vec::new();
    v.push("TBD");
    v.push("TODO");
    v.push("WIP");
    v.push("N/A");
    v.push("未定");
    v.push("準備中");
    v.push("(準備中)");
    v.push("詳細は後述");
    v.push("詳細は後述する");
    v.push("ここに書く");
    v.push("後で書く");
    v.push("Coming soon");
    v.push("後述");
    v
}

/// Whether a text is one of the placeholders.
pub fn is_boilerplate_only(content: &str) -> (r: bool)
    ensures
        r == boilerplate_spec(content@),
{
    let mut marks: Vec<char> = Vec::new();
    marks.push('.');
    marks.push('。');
    marks.push('、');
    marks.push(',');
    marks.push(' ');
    marks.push('\t');
    assert(marks@ =~= trailing_marks());
    let trimmed = text::trim(content);
    let ended = text::trim_end_set(trimmed.as_str(), &marks);
    let normalized = trim_start(ended.as_str());
    if normalized.as_str().is_empty() {
        return false;
    }
    let list = placeholder_list();
    let mut i: usize = 0;
    while i < list.len()
        invariant
            i <= list@.len(),
            list@.len() == placeholders().len(),
            forall|j: int| 0 <= j < list@.len() ==> (#[trigger] list@[j])@ == placeholders()[j],
            normalized@ == bare(content@),
            normalized@.len() > 0,
            forall|j: int|
                0 <= j < i ==> text::ascii_lowercase_spec(normalized@)
                    != text::ascii_lowercase_spec(#[trigger] placeholders()[j]),
        decreases list@.len() - i,
    {
        if text::eq_ignore_ascii_case(normalized.as_str(), list[i]) {
            assert(text::ascii_lowercase_spec(bare(content@)) == text::ascii_lowercase_spec(
                placeholders()[i as int],
            ));
            return true;
        }
        i += 1;
    }
    false
}

/// Whether a chunk is short.
pub open spec fn is_short(content: Seq<char>) -> bool {
    text::trim_spec(content).len() < SHORT_CONTENT_THRESHOLD
}

/// Whether a chunk is a single line, and not a long one.
pub open spec fn is_unstructured(content: Seq<char>) -> bool {
    !text::trim_spec(content).contains('\n') && text::trim_spec(content).len()
        < STRUCTURE_POOR_THRESHOLD
}

/// The score with the given faults: 1.0, less 0.6 for a short chunk, 0.5 for a placeholder and
/// 0.3 for one without structure, in single precision, and never below 0.0.
pub open spec fn score_spec(short: bool, boilerplate: bool, unstructured: bool) -> u32 {
    match (short, boilerplate, unstructured) {
        (false, false, false) => 0x3f80_0000,
        (false, false, true) => 0x3f33_3333,
        (false, true, false) => 0x3f00_0000,
        (false, true, true) => 0x3e4c_cccc,
        (true, false, false) => 0x3ecc_cccc,
        (true, false, true) => 0x3dcc_ccc8,
        (true, true, _) => 0,
    }
}

/// The score of a chunk, from 0.0 to 1.0. The heading plays no part in it.
pub fn chunk_quality_score(heading: Option<&str>, content: &str) -> (r: u32)
    ensures
        r == score_spec(
            is_short(content@),
            boilerplate_spec(text::trim_spec(content@)),
            is_unstructured(content@),
        ),
        ieee::in_unit_range_spec(r),
{
    let trimmed = text::trim(content);
    let v = text::to_chars(trimmed.as_str());
    let n: usize = v.len();
    let short = n < SHORT_CONTENT_THRESHOLD;
    let boilerplate = is_boilerplate_only(trimmed.as_str());
    let unstructured = !text::in_set(&v, '\n') && n < STRUCTURE_POOR_THRESHOLD;
    match (short, boilerplate, unstructured) {
        (false, false, false) => 0x3f80_0000,
        (false, false, true) => 0x3f33_3333,
        (false, true, false) => 0x3f00_0000,
        (false, true, true) => 0x3e4c_cccc,
        (true, false, false) => 0x3ecc_cccc,
        (true, false, true) => 0x3dcc_ccc8,
        (true, true, _) => 0,
    }
}

/// Whether a score passes a limit. A limit of 0.0 or less lets everything pass.
pub open spec fn passes_spec(score: u32, threshold: u32) -> bool {
    ||| !ieee::not_a_number(threshold) && ieee::place(threshold) <= ieee::place(0)
    ||| !ieee::not_a_number(score) && !ieee::not_a_number(threshold) && ieee::place(score)
        >= ieee::place(threshold)
}

/// Whether a score passes a limit.
pub fn passes_quality_filter(score: u32, threshold: u32) -> (r: bool)
    ensures
        r == passes_spec(score, threshold),
{
    if ieee::at_most(threshold, 0) {
        return true;
    }
    ieee::at_most(threshold, score)
}

/// The limit for one query: none where poor chunks are asked for too, else the one asked for,
/// else the one of the server. What is not a finite number counts as not asked for.
pub open spec fn effective_spec(include_low: bool, min_quality: Option<u32>, default: u32) -> u32 {
    if include_low {
        0
    } else {
        match min_quality {
            Some(v) => if ieee::finite_spec(v) {
                clamp_spec(v)
            } else {
                default
            },
            None => default,
        }
    }
}

/// The limit for one query.
pub fn resolve_effective_threshold(
    include_low_quality: bool,
    min_quality: Option<u32>,
    server_default: u32,
) -> (r: u32)
    ensures
        r == effective_spec(include_low_quality, min_quality, server_default),
{
    if include_low_quality {
        return 0;
    }
    match min_quality {
        Some(v) => if ieee::is_finite(v) {
            clamp(v)
        } else {
            server_default
        },
        None => server_default,
    }
}

/// A limit that was forced into range lies there, and forcing it again changes nothing.
pub proof fn clamped_lies_in_range(bits: u32)
    requires
        !ieee::not_a_number(bits),
    ensures
        ieee::in_unit_range_spec(clamp_spec(bits)),
        clamp_spec(clamp_spec(bits)) == clamp_spec(bits),
{
}

/// The number with the bits of a single-precision number that is 0.0 or lies from 0.0625 to 1.0,
/// in units of 2 to the power of -30.
pub open spec fn units(bits: u32) -> int {
    let exponent = bits / 0x80_0000;
    let mantissa = 0x80_0000 + bits % 0x80_0000;
    if exponent == 127 {
        128 * mantissa
    } else if exponent == 126 {
        64 * mantissa
    } else if exponent == 125 {
        32 * mantissa
    } else if exponent == 124 {
        16 * mantissa
    } else if exponent == 123 {
        8 * mantissa
    } else {
        0
    }
}

/// A score is what is left of 1.0 when 0.6 is taken off for a short chunk, 0.5 for a placeholder
/// and 0.3 for one without structure, each as the nearest single-precision number; 0.0 where
/// nothing is left.
pub proof fn a_score_is_what_the_faults_leave(short: bool, boilerplate: bool, unstructured: bool)
    ensures
        ({
            let left = units(0x3f80_0000) - (if short {
                units(0x3f19_999a)
            } else {
                0
            }) - (if boilerplate {
                units(0x3f00_0000)
            } else {
                0
            }) - (if unstructured {
                units(0x3e99_999a)
            } else {
                0
            });
            let score = score_spec(short, boilerplate, unstructured);
            if left >= 0 {
                units(score) == left && score > 0
            } else {
                score == 0
            }
        }),
        units(0x3f80_0000) == 0x4000_0000,
{
}

/// A chunk is short with fewer than thirty characters, and without structure with fewer than
/// eighty on a single line; white space around it does not count.
pub proof fn faults_go_by_the_text(before: Seq<char>, s: Seq<char>, after: Seq<char>)
    requires
        text::all_space(before),
        text::all_space(after),
        s.len() > 0,
        !text::whitespace_spec(s[0]),
        !text::whitespace_spec(s.last()),
    ensures
        is_short(before + s + after) <==> s.len() < 30,
        is_unstructured(before + s + after) <==> s.len() < 80 && forall|i: int|
            0 <= i < s.len() ==> #[trigger] s[i] != '\n',
{
    text::trimming_takes_white_space_off(before, s, after);
    if s.contains('\n') {
        let i = choose|i: int| 0 <= i < s.len() && s[i] == '\n';
        assert(s[i] == '\n');
    } else {
        assert forall|i: int| 0 <= i < s.len() implies #[trigger] s[i] != '\n' by {}
    }
}

/// Whether a text is, but for the case of ASCII letters, one of those that stand for a text that
/// is still to be written.
pub open spec fn stands_for_text(s: Seq<char>) -> bool {
    ||| text::same_but_for_case(s, "TBD"@)
    ||| text::same_but_for_case(s, "TODO"@)
    ||| text::same_but_for_case(s, "WIP"@)
    ||| text::same_but_for_case(s, "N/A"@)
    ||| s == "未定"@
    ||| s == "準備中"@
    ||| s == "(準備中)"@
    ||| s == "詳細は後述"@
    ||| s == "詳細は後述する"@
    ||| s == "ここに書く"@
    ||| s == "後で書く"@
    ||| text::same_but_for_case(s, "Coming soon"@)
    ||| s == "後述"@
}

proof fn only_itself(s: Seq<char>, t: Seq<char>)
    requires
        forall|i: int|
            0 <= i < t.len() ==> !('a' <= #[trigger] t[i] <= 'z') && !('A' <= t[i] <= 'Z'),
    ensures
        text::same_but_for_case(s, t) <==> s == t,
{
    if text::same_but_for_case(s, t) {
        assert forall|i: int| 0 <= i < s.len() implies s[i] == t[i] by {
            assert(text::same_letter(s[i], t[i]));
            assert(!('a' <= t[i] <= 'z') && !('A' <= t[i] <= 'Z'));
        }
        assert(s =~= t);
    }
}

/// A text is a placeholder exactly where what is left of it, without the white space around it and
/// the marks at its end, is one of those that stand for a text that is still to be written.
pub proof fn a_placeholder_stands_for_a_text(content: Seq<char>)
    ensures
        boilerplate_spec(content) <==> stands_for_text(bare(content)),
{
    let s = bare(content);
    let list = placeholders();
    reveal_strlit("TBD");
    reveal_strlit("TODO");
    reveal_strlit("WIP");
    reveal_strlit("N/A");
    reveal_strlit("未定");
    reveal_strlit("準備中");
    reveal_strlit("(準備中)");
    reveal_strlit("詳細は後述");
    reveal_strlit("詳細は後述する");
    reveal_strlit("ここに書く");
    reveal_strlit("後で書く");
    reveal_strlit("Coming soon");
    reveal_strlit("後述");
    assert forall|i: int| 0 <= i < list.len() implies (text::ascii_lowercase_spec(s)
        == text::ascii_lowercase_spec(#[trigger] list[i]) <==> text::same_but_for_case(
        s,
        list[i],
    )) by {
        text::lowering_forgets_case(s, list[i]);
    }
    only_itself(s, list[4]);
    only_itself(s, list[5]);
    only_itself(s, list[6]);
    only_itself(s, list[7]);
    only_itself(s, list[8]);
    only_itself(s, list[9]);
    only_itself(s, list[10]);
    only_itself(s, list[12]);
    if boilerplate_spec(content) {
        let i = choose|i: int|
            0 <= i < list.len() && text::ascii_lowercase_spec(s) == text::ascii_lowercase_spec(
                #[trigger] list[i],
            );
        assert(text::same_but_for_case(s, list[i]));
    }
    if stands_for_text(s) {
        assert(list[0] == "TBD"@ && list[1] == "TODO"@ && list[2] == "WIP"@ && list[3] == "N/A"@);
        assert(list[4] == "未定"@ && list[11] == "Coming soon"@);
        let i: int = if text::same_but_for_case(s, list[0]) {
            0
        } else if text::same_but_for_case(s, list[1]) {
            1
        } else if text::same_but_for_case(s, list[2]) {
            2
        } else if text::same_but_for_case(s, list[3]) {
            3
        } else if s == list[4] {
            4
        } else if s == list[5] {
            5
        } else if s == list[6] {
            6
        } else if s == list[7] {
            7
        } else if s == list[8] {
            8
        } else if s == list[9] {
            9
        } else if s == list[10] {
            10
        } else if text::same_but_for_case(s, list[11]) {
            11
        } else {
            12
        };
        assert(text::same_but_for_case(s, list[i]));
        assert(text::ascii_lowercase_spec(s) == text::ascii_lowercase_spec(list[i]));
        assert(s.len() == list[i].len());
    }
}

/// White space around a text and the marks at its end do not make it another: full stops and
/// commas, of ASCII and of Japanese, spaces and tabs.
pub proof fn marks_at_the_end_do_not_count(
    before: Seq<char>,
    s: Seq<char>,
    marks: Seq<char>,
)
    requires
        text::all_space(before),
        forall|i: int|
            0 <= i < marks.len() ==> #[trigger] marks[i] == '.' || marks[i] == '。' || marks[i]
                == '、' || marks[i] == ',',
        s.len() > 0,
        !text::whitespace_spec(s[0]),
        !text::whitespace_spec(s.last()),
        s.last() != '.' && s.last() != '。' && s.last() != '、' && s.last() != ',',
    ensures
        bare(before + s + marks) == s,
{
    let whole = s + marks;
    assert(whole.last() == if marks.len() > 0 {
        marks[marks.len() - 1]
    } else {
        s.last()
    });
    text::trimming_takes_white_space_off(before, whole, seq![]);
    assert(before + whole + seq![] =~= before + s + marks);
    marks_come_off(s, marks);
}

proof fn marks_come_off(s: Seq<char>, marks: Seq<char>)
    requires
        forall|i: int|
            0 <= i < marks.len() ==> #[trigger] marks[i] == '.' || marks[i] == '。' || marks[i]
                == '、' || marks[i] == ',',
        s.len() > 0,
        !text::whitespace_spec(s.last()),
        s.last() != '.' && s.last() != '。' && s.last() != '、' && s.last() != ',',
    ensures
        text::trim_end_set_spec(s + marks, trailing_marks()) == s,
    decreases marks.len(),
{
    let set = trailing_marks();
    let all = s + marks;
    if marks.len() == 0 {
        assert(all =~= s);
        assert(!set.contains(s.last()));
    } else {
        let c = marks[marks.len() - 1];
        assert(all.last() == c);
        assert(set[0] == '.' && set[1] == '。' && set[2] == '、' && set[3] == ',');
        assert(set.contains(c));
        assert(all.drop_last() =~= s + marks.drop_last());
        assert forall|i: int| 0 <= i < marks.drop_last().len() implies #[trigger] marks.drop_last()[i]
            == '.' || marks.drop_last()[i] == '。' || marks.drop_last()[i] == '、'
            || marks.drop_last()[i] == ',' by {
            assert(marks.drop_last()[i] == marks[i]);
        }
        marks_come_off(s, marks.drop_last());
    }
}

/// A chunk passes exactly where its score is at least the limit; a limit of 0.0 or less lets all
/// pass. `score` and `limit` are the bits of numbers without a sign.
pub proof fn chunks_pass_from_the_limit_on(score: u32, limit: u32)
    requires
        score <= 0x7f80_0000,
        limit <= 0x7f80_0000,
    ensures
        passes_spec(score, limit) <==> score >= limit,
        passes_spec(score, (0x8000_0000 + limit) as u32),
{
}

/// A limit below 0.0 becomes 0.0, one above 1.0 becomes 1.0, and any other stays.
pub proof fn limits_are_forced_into_range(magnitude: u32)
    requires
        magnitude <= 0x7f80_0000,
    ensures
        clamp_spec(magnitude) == if magnitude <= 0x3f80_0000 {
            magnitude
        } else {
            0x3f80_0000
        },
        magnitude > 0 ==> clamp_spec((0x8000_0000 + magnitude) as u32) == 0,
{
}

/// The limit of a query: none where it asks for poor chunks too, else the one it asks for, forced
/// into range, if that is a finite number, else the server's.
pub proof fn a_query_brings_its_own_limit(asked: u32, server: u32)
    ensures
        effective_spec(true, Some(asked), server) == 0,
        effective_spec(true, None, server) == 0,
        effective_spec(false, None, server) == server,
        asked <= 0x3f80_0000 ==> effective_spec(false, Some(asked), server) == asked,
        0x3f80_0000 < asked < 0x7f80_0000 ==> effective_spec(false, Some(asked), server)
            == 0x3f80_0000,
        0x8000_0000 < asked < 0xff80_0000 ==> effective_spec(false, Some(asked), server) == 0,
        0x7f80_0000 <= asked < 0x8000_0000 || 0xff80_0000 <= asked ==> effective_spec(
            false,
            Some(asked),
            server,
        ) == server,
{
}

} // verus!

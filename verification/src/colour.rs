//! The colours of a report, and the report without them.
use vstd::prelude::*;

use crate::eval::{
    EvalRun, MetricText, QueryResult, QueryText, as_lines, format_text_spec, greatest,
    metric_line, metric_lines, query_k, query_row, query_rows, recall_lines, render_diff_spec,
    report_head, report_pairs_spec, report_previous, report_queries,
};
use crate::text;

verus! {

/// The character that starts a colour code.
pub const ESCAPE: char = '\x1b';

/// The length of the colour code that a text begins with; 0, where it begins with none.
pub open spec fn code_len(s: Seq<char>) -> nat {
    if text::starts_with_spec(s, "\x1b[31m"@) || text::starts_with_spec(s, "\x1b[32m"@)
        || text::starts_with_spec(s, "\x1b[90m"@) {
        5
    } else if text::starts_with_spec(s, "\x1b[0m"@) {
        4
    } else {
        0
    }
}

/// A text without its colour codes.
pub open spec fn without_codes(s: Seq<char>) -> Seq<char>
    decreases s.len(),
{
    if s.len() == 0 {
        seq![]
    } else if 0 < code_len(s) <= s.len() {
        without_codes(s.skip(code_len(s) as int))
    } else {
        seq![s[0]] + without_codes(s.skip(1))
    }
}

/// Whether a text holds no character that starts a colour code.
pub open spec fn plain(s: Seq<char>) -> bool {
    forall|i: int| 0 <= i < s.len() ==> #[trigger] s[i] != ESCAPE
}

/// Whether `s` is `p` once its colour codes are gone, whatever follows it.
pub open spec fn cleans_to(s: Seq<char>, p: Seq<char>) -> bool {
    forall|rest: Seq<char>| #[trigger] without_codes(s + rest) == p + without_codes(rest)
}

proof fn code_at_head(s: Seq<char>)
    ensures
        code_len(s) > 0 ==> s.len() > 0 && s[0] == ESCAPE,
        forall|rest: Seq<char>| #[trigger] code_len("\x1b[31m"@ + rest) == 5,
        forall|rest: Seq<char>| #[trigger] code_len("\x1b[32m"@ + rest) == 5,
        forall|rest: Seq<char>| #[trigger] code_len("\x1b[90m"@ + rest) == 5,
        forall|rest: Seq<char>| #[trigger] code_len("\x1b[0m"@ + rest) == 4,
{
    let red = "\x1b[31m"@;
    let green = "\x1b[32m"@;
    let gray = "\x1b[90m"@;
    let off = "\x1b[0m"@;
    reveal_strlit("\x1b[31m");
    reveal_strlit("\x1b[32m");
    reveal_strlit("\x1b[90m");
    reveal_strlit("\x1b[0m");
    assert forall|rest: Seq<char>| #[trigger] code_len(red + rest) == 5 by {
        assert((red + rest).take(5) =~= red);
    }
    assert forall|rest: Seq<char>| #[trigger] code_len(green + rest) == 5 by {
        assert((green + rest).take(5) =~= green);
    }
    assert forall|rest: Seq<char>| #[trigger] code_len(gray + rest) == 5 by {
        assert((gray + rest).take(5) =~= gray);
    }
    assert forall|rest: Seq<char>| #[trigger] code_len(off + rest) == 4 by {
        let all = off + rest;
        assert(all.take(4) =~= off);
        assert(all[2] == '0');
        if text::starts_with_spec(all, red) {
            assert(all.take(5)[2] == red[2]);
        }
        if text::starts_with_spec(all, green) {
            assert(all.take(5)[2] == green[2]);
        }
        if text::starts_with_spec(all, gray) {
            assert(all.take(5)[2] == gray[2]);
        }
    }
    if code_len(s) > 0 {
        if text::starts_with_spec(s, red) {
            assert(s.take(5)[0] == red[0]);
        } else if text::starts_with_spec(s, green) {
            assert(s.take(5)[0] == green[0]);
        } else if text::starts_with_spec(s, gray) {
            assert(s.take(5)[0] == gray[0]);
        } else {
            assert(s.take(4)[0] == off[0]);
        }
    }
}

proof fn plain_stays(s: Seq<char>, rest: Seq<char>)
    requires
        plain(s),
    ensures
        without_codes(s + rest) == s + without_codes(rest),
    decreases s.len(),
{
    if s.len() == 0 {
        assert(s + rest =~= rest);
        assert(s + without_codes(rest) =~= without_codes(rest));
    } else {
        let all = s + rest;
        code_at_head(all);
        assert(all[0] == s[0]);
        assert(code_len(all) == 0);
        let tail = s.skip(1);
        assert forall|i: int| 0 <= i < tail.len() implies #[trigger] tail[i] != ESCAPE by {
            assert(tail[i] == s[i + 1]);
        }
        plain_stays(tail, rest);
        assert(all.skip(1) =~= tail + rest);
        assert(seq![s[0]] + (tail + without_codes(rest)) =~= s + without_codes(rest));
    }
}

proof fn plain_cleans(s: Seq<char>)
    requires
        plain(s),
    ensures
        cleans_to(s, s),
{
    assert forall|rest: Seq<char>| #[trigger] without_codes(s + rest) == s + without_codes(
        rest,
    ) by {
        plain_stays(s, rest);
    }
}

proof fn code_cleans(code: Seq<char>)
    requires
        code == "\x1b[31m"@ || code == "\x1b[32m"@ || code == "\x1b[90m"@ || code == "\x1b[0m"@,
    ensures
        cleans_to(code, seq![]),
{
    reveal_strlit("\x1b[31m");
    reveal_strlit("\x1b[32m");
    reveal_strlit("\x1b[90m");
    reveal_strlit("\x1b[0m");
    assert forall|rest: Seq<char>| #[trigger] without_codes(code + rest) == seq![]
        + without_codes(rest) by {
        let all = code + rest;
        code_at_head(all);
        assert(code_len(all) == code.len());
        assert(all.skip(code.len() as int) =~= rest);
        assert(seq![] + without_codes(rest) =~= without_codes(rest));
    }
}

proof fn both_clean(a: Seq<char>, p: Seq<char>, b: Seq<char>, q: Seq<char>)
    requires
        cleans_to(a, p),
        cleans_to(b, q),
    ensures
        cleans_to(a + b, p + q),
{
    assert forall|rest: Seq<char>| #[trigger] without_codes(a + b + rest) == p + q
        + without_codes(rest) by {
        assert(a + b + rest =~= a + (b + rest));
        assert(without_codes(a + (b + rest)) == p + without_codes(b + rest));
        assert(p + (q + without_codes(rest)) =~= p + q + without_codes(rest));
    }
}

proof fn both_plain(a: Seq<char>, b: Seq<char>)
    requires
        plain(a),
        plain(b),
    ensures
        plain(a + b),
{
}

proof fn short_words_are_plain()
    ensures
        plain(""@),
        plain("  "@),
        plain("\n"@),
        plain(" "@),
        plain("  ("@),
        plain(")"@),
        plain("  (—       )"@),
        plain("↑"@),
        plain("↓"@),
        plain("✗"@),
        plain("·"@),
        plain(" → "@),
        plain(": "@),
        plain(" recall@"@),
        plain("recall@"@),
        plain("MRR"@),
        plain("nDCG@"@),
        plain("none"@),
        plain("kb-mcp eval — "@),
        plain("\n  model: "@),
        plain("    reranker: "@),
        plain("    limit: "@),
        plain("    queries: "@),
        plain("\n\n"@),
        plain("Aggregate\n"@),
        plain(")\n"@),
        plain(" of "@),
{
    reveal_strlit("");
    reveal_strlit("  ");
    reveal_strlit("\n");
    reveal_strlit(" ");
    reveal_strlit("  (");
    reveal_strlit(")");
    reveal_strlit("  (—       )");
    reveal_strlit("↑");
    reveal_strlit("↓");
    reveal_strlit("✗");
    reveal_strlit("·");
    reveal_strlit(" → ");
    reveal_strlit(": ");
    reveal_strlit(" recall@");
    reveal_strlit("recall@");
    reveal_strlit("MRR");
    reveal_strlit("nDCG@");
    reveal_strlit("none");
    reveal_strlit("kb-mcp eval — ");
    reveal_strlit("\n  model: ");
    reveal_strlit("    reranker: ");
    reveal_strlit("    limit: ");
    reveal_strlit("    queries: ");
    reveal_strlit("\n\n");
    reveal_strlit("Aggregate\n");
    reveal_strlit(")\n");
    reveal_strlit(" of ");
}

proof fn long_words_are_plain()
    ensures
        plain("Aggregate (previous run: "@),
        plain("⚠️ golden changed since last run, diff disabled\nAggregate\n"@),
        plain("\nPer-query (regressions and misses, "@),
{
    reveal_strlit("Aggregate (previous run: ");
    reveal_strlit("⚠️ golden changed since last run, diff disabled\nAggregate\n");
    reveal_strlit("\nPer-query (regressions and misses, ");
}

proof fn decimals_are_plain(n: nat)
    ensures
        plain(text::decimal_spec(n)),
    decreases n,
{
    if n >= 10 {
        decimals_are_plain(n / 10);
    }
}

proof fn padding_is_plain(s: Seq<char>, width: nat)
    requires
        plain(s),
    ensures
        plain(text::pad_right_spec(s, width)),
{
}

/// Whether the texts for a number hold no colour code.
pub open spec fn metric_is_plain(m: MetricText) -> bool {
    plain(m.value@) && (m.change matches Some(c) ==> plain(c.size@))
}

/// Whether the texts for a query hold no colour code.
pub open spec fn query_is_plain(t: QueryText) -> bool {
    plain(t.now@) && (t.before matches Some(b) ==> plain(b@))
}

/// Whether a run names nothing with a colour code in it.
pub open spec fn run_is_plain(run: EvalRun) -> bool {
    &&& plain(run.timestamp@)
    &&& plain(run.fingerprint.model@)
    &&& run.fingerprint.reranker matches Some(r) ==> plain(r@)
    &&& forall|i: int| 0 <= i < run.per_query@.len() ==> plain((#[trigger] run.per_query@[i]).id@)
}

proof fn a_line_cleans(label: Seq<char>, m: MetricText)
    requires
        plain(label),
        metric_is_plain(m),
    ensures
        cleans_to(metric_line(label, m, true), metric_line(label, m, false)),
        plain(metric_line(label, m, false)),
{
    short_words_are_plain();
    let head = "  "@ + text::pad_right_spec(label, 11) + m.value@;
    padding_is_plain(label, 11);
    both_plain("  "@, text::pad_right_spec(label, 11));
    both_plain("  "@ + text::pad_right_spec(label, 11), m.value@);
    plain_cleans(head);
    let coloured = render_diff_spec(m.change, true);
    let bare = render_diff_spec(m.change, false);
    assert(cleans_to(coloured, bare) && plain(bare)) by {
        match m.change {
            None => {
                plain_cleans(""@);
            },
            Some(d) => {
                if d.negligible {
                    plain_cleans("  (—       )"@);
                } else {
                    let code = if d.worse {
                        "\x1b[31m"@
                    } else if d.better {
                        "\x1b[32m"@
                    } else {
                        "\x1b[90m"@
                    };
                    let arrow = if d.up {
                        "↑"@
                    } else {
                        "↓"@
                    };
                    let word = arrow + " "@ + d.size@;
                    both_plain(arrow, " "@);
                    both_plain(arrow + " "@, d.size@);
                    plain_cleans("  ("@);
                    plain_cleans(word);
                    plain_cleans(")"@);
                    code_cleans(code);
                    code_cleans("\x1b[0m"@);
                    both_clean("  ("@, "  ("@, code, seq![]);
                    both_clean("  ("@ + code, "  ("@ + seq![], word, word);
                    both_clean("  ("@ + code + word, "  ("@ + seq![] + word, "\x1b[0m"@, seq![]);
                    both_clean(
                        "  ("@ + code + word + "\x1b[0m"@,
                        "  ("@ + seq![] + word + seq![],
                        ")"@,
                        ")"@,
                    );
                    reveal_strlit("");
                    assert(coloured =~= "  ("@ + code + word + "\x1b[0m"@ + ")"@);
                    assert(bare =~= "  ("@ + seq![] + word + seq![] + ")"@);
                    assert(bare =~= "  ("@ + word + ")"@);
                    both_plain("  ("@, word);
                    both_plain("  ("@ + word, ")"@);
                }
            },
        }
    }
    both_clean(head, head, coloured, bare);
    plain_cleans("\n"@);
    both_clean(head + coloured, head + bare, "\n"@, "\n"@);
    both_plain(head, bare);
    both_plain(head + bare, "\n"@);
}

proof fn recall_lines_clean(ks: Seq<usize>, metrics: Seq<MetricText>)
    requires
        ks.len() <= metrics.len(),
        forall|i: int| 0 <= i < metrics.len() ==> metric_is_plain(#[trigger] metrics[i]),
    ensures
        cleans_to(recall_lines(ks, metrics, true), recall_lines(ks, metrics, false)),
        plain(recall_lines(ks, metrics, false)),
    decreases ks.len(),
{
    short_words_are_plain();
    if ks.len() == 0 {
        plain_cleans(""@);
    } else {
        recall_lines_clean(ks.drop_last(), metrics);
        let label = "recall@"@ + text::decimal_spec(ks.last() as nat);
        decimals_are_plain(ks.last() as nat);
        both_plain("recall@"@, text::decimal_spec(ks.last() as nat));
        let m = metrics[ks.len() - 1];
        a_line_cleans(label, m);
        let rest = ks.drop_last();
        both_clean(
            recall_lines(rest, metrics, true),
            recall_lines(rest, metrics, false),
            metric_line(label, m, true),
            metric_line(label, m, false),
        );
        both_plain(recall_lines(rest, metrics, false), metric_line(label, m, false));
    }
}

proof fn metric_lines_clean(ks: Seq<usize>, metrics: Seq<MetricText>)
    requires
        metrics.len() == ks.len() + if greatest(ks) is Some {
            2int
        } else {
            1int
        },
        forall|i: int| 0 <= i < metrics.len() ==> metric_is_plain(#[trigger] metrics[i]),
    ensures
        cleans_to(metric_lines(ks, metrics, true), metric_lines(ks, metrics, false)),
        plain(metric_lines(ks, metrics, false)),
{
    short_words_are_plain();
    recall_lines_clean(ks, metrics);
    let m = metrics[ks.len() as int];
    a_line_cleans("MRR"@, m);
    let (a, p) = (recall_lines(ks, metrics, true), recall_lines(ks, metrics, false));
    let (b, q) = (metric_line("MRR"@, m, true), metric_line("MRR"@, m, false));
    both_clean(a, p, b, q);
    both_plain(p, q);
    match greatest(ks) {
        Some(k) => {
            let label = "nDCG@"@ + text::decimal_spec(k as nat);
            decimals_are_plain(k as nat);
            both_plain("nDCG@"@, text::decimal_spec(k as nat));
            let n = metrics[(ks.len() + 1) as int];
            a_line_cleans(label, n);
            both_clean(a + b, p + q, metric_line(label, n, true), metric_line(label, n, false));
            both_plain(p + q, metric_line(label, n, false));
        },
        None => {
            plain_cleans(""@);
            both_clean(a + b, p + q, ""@, ""@);
            both_plain(p + q, ""@);
        },
    }
}

proof fn a_row_is_plain(q: QueryResult, t: QueryText, k: usize)
    requires
        plain(q.id@),
        query_is_plain(t),
    ensures
        plain(query_row(q, t, k)),
{
    short_words_are_plain();
    decimals_are_plain(k as nat);
    padding_is_plain(q.id@, 24);
}

proof fn rows_are_plain(queries: Seq<QueryResult>, texts: Seq<QueryText>, k: usize)
    requires
        queries.len() <= texts.len(),
        forall|i: int| 0 <= i < queries.len() ==> plain((#[trigger] queries[i]).id@),
        forall|i: int| 0 <= i < texts.len() ==> query_is_plain(#[trigger] texts[i]),
    ensures
        forall|i: int|
            0 <= i < query_rows(queries, texts, k).len() ==> plain(
                #[trigger] query_rows(queries, texts, k)[i],
            ),
    decreases queries.len(),
{
    if queries.len() > 0 {
        let rest = queries.drop_last();
        assert forall|i: int| 0 <= i < rest.len() implies plain((#[trigger] rest[i]).id@) by {
            assert(rest[i] == queries[i]);
        }
        rows_are_plain(rest, texts, k);
        assert(queries[queries.len() - 1] == queries.last());
        a_row_is_plain(queries.last(), texts[queries.len() - 1], k);
        let before = query_rows(rest, texts, k);
        assert forall|i: int| 0 <= i < query_rows(queries, texts, k).len() implies plain(
            #[trigger] query_rows(queries, texts, k)[i],
        ) by {
            if i < before.len() {
                assert(plain(before[i]));
            }
        }
    }
}

proof fn lines_are_plain(rows: Seq<Seq<char>>)
    requires
        forall|i: int| 0 <= i < rows.len() ==> plain(#[trigger] rows[i]),
    ensures
        plain(as_lines(rows)),
    decreases rows.len(),
{
    short_words_are_plain();
    if rows.len() > 0 {
        let rest = rows.drop_last();
        assert forall|i: int| 0 <= i < rest.len() implies plain(#[trigger] rest[i]) by {
            assert(rest[i] == rows[i]);
        }
        lines_are_plain(rest);
        assert(rows[rows.len() - 1] == rows.last());
        both_plain(as_lines(rest), rows.last());
        both_plain(as_lines(rest) + rows.last(), "\n"@);
    }
}

proof fn the_head_is_plain(run: EvalRun, previous: Option<&EvalRun>)
    requires
        run_is_plain(run),
        previous matches Some(p) ==> plain(p.timestamp@),
    ensures
        plain(report_head(run)),
        plain(report_previous(run, previous)),
{
    short_words_are_plain();
    long_words_are_plain();
    decimals_are_plain(run.fingerprint.limit as nat);
    decimals_are_plain(run.aggregate.query_count as nat);
}

/// A report in colours is the plain report once the colour codes are taken out, and the plain
/// report has none, as long as the texts that go into it have none.
pub proof fn a_coloured_report_is_the_plain_one(
    run: EvalRun,
    previous: Option<&EvalRun>,
    metrics: Seq<MetricText>,
    queries: Seq<QueryText>,
)
    requires
        run_is_plain(run),
        previous matches Some(p) ==> plain(p.timestamp@),
        forall|i: int| 0 <= i < metrics.len() ==> metric_is_plain(#[trigger] metrics[i]),
        forall|i: int| 0 <= i < queries.len() ==> query_is_plain(#[trigger] queries[i]),
        metrics.len() == report_pairs_spec(run, previous).len(),
        queries.len() == run.per_query@.len(),
    ensures
        without_codes(format_text_spec(run, previous, metrics, queries, true))
            == format_text_spec(run, previous, metrics, queries, false),
        plain(format_text_spec(run, previous, metrics, queries, false)),
{
    short_words_are_plain();
    long_words_are_plain();
    let ks = run.fingerprint.k_values@;
    let head = report_head(run) + report_previous(run, previous);
    the_head_is_plain(run, previous);
    both_plain(report_head(run), report_previous(run, previous));
    plain_cleans(head);
    let coloured = metric_lines(ks, metrics, true);
    let bare = metric_lines(ks, metrics, false);
    metric_lines_clean(ks, metrics);
    let rows = query_rows(run.per_query@, queries, query_k(run));
    rows_are_plain(run.per_query@, queries, query_k(run));
    lines_are_plain(rows);
    decimals_are_plain(rows.len());
    decimals_are_plain(run.per_query@.len());
    let tail = report_queries(rows, run.per_query@.len());
    assert(plain(tail));
    plain_cleans(tail);
    both_clean(head, head, coloured, bare);
    both_clean(head + coloured, head + bare, tail, tail);
    both_plain(head, bare);
    both_plain(head + bare, tail);
    let all = head + coloured + tail;
    assert(all + Seq::<char>::empty() =~= all);
    assert(without_codes(all + Seq::<char>::empty()) == head + bare + tail + without_codes(
        Seq::<char>::empty(),
    ));
    assert(head + bare + tail + without_codes(Seq::<char>::empty()) =~= head + bare + tail);
}

} // verus!

//! Where the time of a request goes.
use std::time::{Duration, Instant};
use vstd::prelude::*;

verus! {

/// `std::time::Instant`, opaque here.
#[verifier::external_type_specification]
#[verifier::external_body]
pub struct ExInstant(std::time::Instant);

/// `Instant::now`. Nothing is claimed of the time it returns.
#[verifier::external_body]
fn now() -> Instant {
    Instant::now()
}

/// What `Instant::duration_since` says of two instants: the time from the first to the second.
pub uninterp spec fn duration_between(start: Instant, end: Instant) -> Duration;

/// `Instant::duration_since`. The result depends on the two instants alone. How much time lies
/// between two instants is not restated here.
#[verifier::external_body]
fn time_between(start: Instant, end: Instant) -> (r: Duration)
    ensures
        r == duration_between(start, end),
{
    end.duration_since(start)
}

/// What `Duration::as_micros` says of a duration: its whole microseconds.
pub uninterp spec fn whole_micros(d: Duration) -> u128;

/// `Duration::as_micros`. The result depends on the duration alone.
#[verifier::external_body]
fn micros_of(d: Duration) -> (r: u128)
    ensures
        r == whole_micros(d),
{
    d.as_micros()
}

/// The time from one instant to another, in whole microseconds.
pub open spec fn micros_between_spec(start: Instant, end: Instant) -> u128 {
    whole_micros(duration_between(start, end))
}

/// The time from one instant to another, in whole microseconds.
fn micros_between(start: Instant, end: Instant) -> (r: u128)
    ensures
        r == micros_between_spec(start, end),
{
    micros_of(time_between(start, end))
}

/// Microseconds in whole milliseconds, rounded up.
pub open spec fn millis(micros: u128) -> u64 {
    (micros / 1000 + if micros % 1000 > 0 {
        1int
    } else {
        0int
    }) as u64
}

/// Microseconds in whole milliseconds, rounded up.
pub fn micros_to_ms(micros: u128) -> (r: u64)
    ensures
        r == millis(micros),
{
    let up: u128 = if micros % 1000 > 0 {
        1
    } else {
        0
    };
    (micros / 1000 + up) as u64
}

/// Whether `ms` are the milliseconds from `start` to some instant, rounded up. Which instant that
/// is, is up to the clock.
pub open spec fn some_time_since(start: Instant, ms: u64) -> bool {
    exists|end: Instant| ms == #[trigger] millis(micros_between_spec(start, end))
}

/// The greater of two times.
pub open spec fn later(a: u64, b: u64) -> u64 {
    if a < b {
        b
    } else {
        a
    }
}

/// The milliseconds since `start`, rounded up.
pub fn instant_to_ms(start: Instant) -> (r: u64)
    ensures
        some_time_since(start, r),
{
    let end = now();
    let r: u64 = micros_to_ms(micros_between(start, end));
    assert(r == millis(micros_between_spec(start, end)));
    r
}

/// A stopwatch for one stage.
#[derive(Debug)]
pub struct StageTimer {
    start: Instant,
}

impl StageTimer {
    /// When the stopwatch was started.
    pub closed spec fn started(self) -> Instant {
        self.start
    }

    /// Starts a stopwatch. When that is, is up to the clock.
    pub fn start() -> Self {
        StageTimer { start: now() }
    }

    /// The milliseconds since the start, rounded up.
    pub fn elapsed_ms(&self) -> (r: u64)
        ensures
            some_time_since(self.started(), r),
    {
        instant_to_ms(self.start)
    }
}

/// The time of a request by its phases, in milliseconds.
#[derive(Debug, Clone, Copy, PartialEq, Eq, Structural)]
pub struct BaseTimingMs {
    pub total: u64,
    pub request_parse: u64,
    pub routing: u64,
    pub tool_execution: u64,
    pub serialization: u64,
}

impl Default for BaseTimingMs {
    fn default() -> (r: Self)
        ensures
            r.total == 0,
            r.request_parse == 0,
            r.routing == 0,
            r.tool_execution == 0,
            r.serialization == 0,
    {
        BaseTimingMs {
            total: 0,
            request_parse: 0,
            routing: 0,
            tool_execution: 0,
            serialization: 0,
        }
    }
}

/// `a - b`, but not below 0.
pub open spec fn less_but_not_below_zero(a: int, b: int) -> int {
    if a < b {
        0
    } else {
        a - b
    }
}

impl BaseTimingMs {
    /// Whether the phases fit together: what is not parsing or serializing is the tool's own
    /// work, and routing takes none of the time.
    pub open spec fn fits_together(self) -> bool {
        &&& self.routing == 0
        &&& self.tool_execution == less_but_not_below_zero(
            self.total as int,
            self.request_parse + self.serialization,
        )
    }
}

/// The time of a request by its phases. What is not parsing or serializing is the tool's own
/// work; routing takes no time that could be seen from here.
pub fn base_timing(total: u64, request_parse: u64, serialization: u64) -> (r: BaseTimingMs)
    ensures
        r.total == total,
        r.request_parse == request_parse,
        r.serialization == serialization,
        r.fits_together(),
{
    let tool_execution: u64 = total.saturating_sub(request_parse).saturating_sub(serialization);
    BaseTimingMs { total, request_parse, routing: 0, tool_execution, serialization }
}

/// A stopwatch for one request.
#[derive(Debug)]
pub struct ToolRequestTimer {
    start: Instant,
    parse_done: Option<Instant>,
}

impl ToolRequestTimer {
    /// When the stopwatch was started.
    pub closed spec fn started(self) -> Instant {
        self.start
    }

    /// When the parsing ended, if that has been marked.
    pub closed spec fn parse_end(self) -> Option<Instant> {
        self.parse_done
    }

    /// Starts a stopwatch. When that is, is up to the clock.
    pub fn start() -> (r: Self)
        ensures
            r.parse_end() is None,
    {
        ToolRequestTimer { start: now(), parse_done: None }
    }

    /// Marks the end of the parsing. The start stays.
    pub fn mark_parse_done(&mut self)
        ensures
            final(self).parse_end() is Some,
            final(self).started() == old(self).started(),
    {
        self.parse_done = Some(now());
    }

    /// The time of the request by its phases. How long each took is up to the clock; the parts
    /// fit together for every reading of it. The parsing is part of the request: where the clock
    /// says otherwise, the total is the time that the parsing took.
    pub fn finish(&self, serialization_ms: u64) -> (r: BaseTimingMs)
        ensures
            exists|ms: u64|
                #[trigger] some_time_since(self.started(), ms) && r.total == later(
                    ms,
                    r.request_parse,
                ),
            r.request_parse <= r.total,
            r.request_parse == match self.parse_end() {
                Some(p) => millis(micros_between_spec(self.started(), p)),
                None => 0,
            },
            r.serialization == serialization_ms,
            r.fits_together(),
    {
        let until_now: u64 = instant_to_ms(self.start);
        let request_parse: u64 = match self.parse_done {
            Some(p) => micros_to_ms(micros_between(self.start, p)),
            None => 0,
        };
        let total: u64 = if until_now < request_parse {
            request_parse
        } else {
            until_now
        };
        assert(some_time_since(self.started(), until_now) && total == later(
            until_now,
            request_parse,
        ));
        base_timing(total, request_parse, serialization_ms)
    }
}

/// The time of a search by its stages.
#[derive(Debug, Clone, Copy, PartialEq, Eq, Structural, Default)]
pub struct SearchStageTimingMs {
    pub base: BaseTimingMs,
    pub embedding_generation: u64,
    pub sqlite_fts: u64,
    pub vector_search: u64,
    pub reciprocal_rank_fusion: u64,
    pub reranker: u64,
    pub mmr: u64,
    pub parent_retriever: u64,
    pub result_filtering: u64,
    pub response_build: u64,
}

/// The time of a document's retrieval by its stages.
#[derive(Debug, Clone, Copy, PartialEq, Eq, Structural, Default)]
pub struct GetDocumentStageTimingMs {
    pub base: BaseTimingMs,
    pub document_lookup: u64,
    pub cache_lookup: u64,
    pub disk_read: u64,
    pub frontmatter_parse: u64,
    pub markdown_load: u64,
    pub response_build: u64,
}

/// The time of a list of topics by its stages.
#[derive(Debug, Clone, Copy, PartialEq, Eq, Structural, Default)]
pub struct ListTopicsStageTimingMs {
    pub base: BaseTimingMs,
    pub topic_index_lookup: u64,
    pub response_build: u64,
}

/// The time of a request that has no stages of its own.
#[derive(Debug, Clone, Copy, PartialEq, Eq, Structural, Default)]
pub struct GenericToolTimingMs {
    pub base: BaseTimingMs,
}

/// The time that the stages inside a search took.
#[derive(Debug, Clone, Copy, PartialEq, Eq, Structural, Default)]
pub struct SearchPipelineTiming {
    pub sqlite_fts: u64,
    pub vector_search: u64,
    pub reciprocal_rank_fusion: u64,
    pub reranker: u64,
    pub mmr: u64,
}

/// The sum of some times.
pub open spec fn sum_of(stages: Seq<u64>) -> nat
    decreases stages.len(),
{
    if stages.len() == 0 {
        0
    } else {
        sum_of(stages.drop_last()) + stages.last() as nat
    }
}

proof fn sum_grows(stages: Seq<u64>, i: int)
    requires
        0 <= i <= stages.len(),
    ensures
        sum_of(stages.take(i)) <= sum_of(stages),
    decreases stages.len() - i,
{
    if i < stages.len() {
        sum_grows(stages, i + 1);
        assert(stages.take(i + 1).drop_last() =~= stages.take(i));
    } else {
        assert(stages.take(i) =~= stages);
    }
}

/// Whether the stages take no more time in all than the total, give or take 5 milliseconds.
pub fn stages_sum_reasonable(total: u64, stages: &[u64]) -> (r: bool)
    requires
        sum_of(stages@) <= u64::MAX,
    ensures
        r == (sum_of(stages@) <= total + 5),
{
    let mut sum: u64 = 0;
    let mut i: usize = 0;
    while i < stages.len()
        invariant
            i <= stages@.len(),
            sum == sum_of(stages@.take(i as int)),
            sum_of(stages@) <= u64::MAX,
        decreases stages@.len() - i,
    {
        proof {
            sum_grows(stages@, i + 1);
            assert(stages@.take(i + 1).drop_last() =~= stages@.take(i as int));
        }
        sum += stages[i];
        i += 1;
    }
    assert(stages@.take(i as int) =~= stages@);
    sum <= total.saturating_add(5)
}

/// The phases of a request add up to its total. Where parsing and serializing alone take more,
/// by the rounding of the clock, they add up to those two.
pub proof fn phases_add_up(t: BaseTimingMs)
    requires
        t.fits_together(),
    ensures
        t.request_parse + t.routing + t.tool_execution + t.serialization == if t.request_parse
            + t.serialization <= t.total {
            t.total as int
        } else {
            t.request_parse + t.serialization
        },
{
}

/// A time in milliseconds is that in microseconds, rounded up: never less, and by less than one
/// millisecond more. The number has to fit.
pub proof fn times_are_rounded_up(micros: u128)
    requires
        micros <= 1000 * u64::MAX,
    ensures
        1000 * millis(micros) >= micros,
        1000 * millis(micros) < micros + 1000,
{
}

/// What is neither parsing nor serializing is the tool's work, as far as there is any time left,
/// and none is routing.
pub proof fn the_rest_is_the_tools_work(t: BaseTimingMs)
    requires
        t.fits_together(),
    ensures
        t.routing == 0,
        t.request_parse + t.serialization <= t.total ==> t.tool_execution == t.total
            - t.request_parse - t.serialization,
        t.request_parse + t.serialization > t.total ==> t.tool_execution == 0,
{
}

/// Times add up: those of two lists to the sum of both, and one alone to itself.
pub proof fn times_add_up(a: Seq<u64>, b: Seq<u64>, x: u64)
    ensures
        sum_of(a + b) == sum_of(a) + sum_of(b),
        sum_of(seq![x]) == x,
        sum_of(seq![]) == 0,
    decreases b.len(),
{
    assert(seq![x].drop_last() =~= seq![]);
    assert(sum_of(seq![x]) == sum_of(seq![x].drop_last()) + x);
    if b.len() == 0 {
        assert(a + b =~= a);
    } else {
        times_add_up(a, b.drop_last(), x);
        assert((a + b).drop_last() =~= a + b.drop_last());
    }
}

} // verus!

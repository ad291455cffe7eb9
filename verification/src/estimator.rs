//! The time and bookkeeping side of quota estimation: tier windows, reset
//! timelines, the choice of recent samples for a trend, and the record of
//! weekly saturation events. The arithmetic on utilization percentages is
//! done by the caller.
use crate::history::{insert_sample, in_cycle, sample_views, samples_where, sorted_by_time};
use crate::text::same_text;
use crate::types::{
    QuotaSaturationEvent, QuotaSaturationEventView, QuotaTier, QuotaTierView, ServiceQuota,
    SufficiencyState, UsageChartPoint, UsageSample, UsageSampleView,
};
use vstd::prelude::*;

verus! {

/// Length of the five-hour window.
pub const FIVE_HOUR_WINDOW_SECS: i64 = 18_000;

/// Length of the seven-day window.
pub const SEVEN_DAY_WINDOW_SECS: i64 = 604_800;

/// How much of a window must have passed before its average rate is projected.
pub const MIN_ELAPSED_SECS_FOR_PROJECTION: i64 = 900;

/// Fewest samples a recent window needs for a trend.
pub const MIN_TREND_SAMPLES: usize = 3;

/// Shortest span of samples a recent window needs for a trend.
pub const MIN_TREND_SPAN_SECS: i64 = 1_800;

/// How far back the stable short-window trend looks.
pub const STABLE_SHORT_WINDOW_SECS: i64 = 1_800;

/// Fewest samples of a stable short-window trend.
pub const STABLE_SHORT_MIN_SAMPLES: usize = 5;

/// Shortest span of a stable short-window trend.
pub const STABLE_SHORT_MIN_SPAN_SECS: i64 = 1_200;

/// Longest gap between neighbouring samples of a stable short-window trend.
pub const STABLE_SHORT_MAX_SAMPLE_GAP_SECS: i64 = 600;

/// Oldest the newest sample of a stable short-window trend may be.
pub const STABLE_SHORT_MAX_AGE_SECS: i64 = 600;

/// How many saturation events are kept.
pub const MAX_SATURATION_EVENTS: usize = 20;

/// Largest magnitude of a timestamp this module computes with.
pub const TIME_LIMIT: i64 = 0x1000_0000_0000_0000;

/// The Unix timestamp chrono reads from an RFC 3339 date-time, if it reads one.
pub uninterp spec fn rfc3339_seconds(text: Seq<char>) -> Option<i64>;

/// Calls `chrono::DateTime::parse_from_rfc3339` and takes the Unix timestamp of
/// the result. The result is named by `rfc3339_seconds`; chrono's dates lie
/// within years -262144 to 262143, so a timestamp is below 10^13 in magnitude.
#[verifier::external_body]
pub(crate) fn parse_rfc3339_seconds(text: &str) -> (secs: Option<i64>)
    ensures
        secs == rfc3339_seconds(text@),
        secs matches Some(t) ==> -10_000_000_000_000 <= t <= 10_000_000_000_000,
{
    chrono::DateTime::parse_from_rfc3339(text).ok().map(|date| date.timestamp())
}

/// The window length of a tier name, when the name is known.
pub open spec fn tier_window(name: Seq<char>) -> Option<i64> {
    if name == "five_hour"@ {
        Some(FIVE_HOUR_WINDOW_SECS)
    } else if name == "weekly_limit"@ || name == "seven_day"@ {
        Some(SEVEN_DAY_WINDOW_SECS)
    } else {
        None
    }
}

/// Whether a tier name names the weekly tier.
pub open spec fn is_weekly(name: Seq<char>) -> bool {
    name == "weekly_limit"@ || name == "seven_day"@
}

/// The window length of a tier, when its name is known.
pub fn window_seconds(name: &str) -> (secs: Option<i64>)
    ensures
        secs == tier_window(name@),
{
    if same_text(name, "five_hour") {
        Some(FIVE_HOUR_WINDOW_SECS)
    } else if same_text(name, "weekly_limit") || same_text(name, "seven_day") {
        Some(SEVEN_DAY_WINDOW_SECS)
    } else {
        None
    }
}

/// Whether a tier is the weekly tier.
pub fn is_weekly_tier(name: &str) -> (weekly: bool)
    ensures
        weekly == is_weekly(name@),
{
    same_text(name, "weekly_limit") || same_text(name, "seven_day")
}

/// How bad a state is; unknown ranks lowest.
pub open spec fn rank(state: SufficiencyState) -> u8 {
    match state {
        SufficiencyState::Enough => 1,
        SufficiencyState::Tight => 2,
        SufficiencyState::NotEnough => 3,
        SufficiencyState::Unknown => 0,
    }
}

/// How bad a state is; unknown ranks lowest.
pub fn state_rank(state: SufficiencyState) -> (r: u8)
    ensures
        r == rank(state),
{
    match state {
        SufficiencyState::Enough => 1,
        SufficiencyState::Tight => 2,
        SufficiencyState::NotEnough => 3,
        SufficiencyState::Unknown => 0,
    }
}

/// The worst known state of `states`, or unknown when none is known.
pub fn worst_known_state(states: &[SufficiencyState]) -> (worst: SufficiencyState)
    ensures
        (worst == SufficiencyState::Unknown) <==> (forall|i: int|
            0 <= i < states@.len() ==> #[trigger] states@[i] == SufficiencyState::Unknown),
        worst != SufficiencyState::Unknown ==> exists|i: int|
            0 <= i < states@.len() && #[trigger] states@[i] == worst,
        forall|i: int|
            0 <= i < states@.len() && #[trigger] states@[i] != SufficiencyState::Unknown ==> rank(
                states@[i],
            ) <= rank(worst),
        states@.contains(SufficiencyState::NotEnough) ==> worst == SufficiencyState::NotEnough,
        !states@.contains(SufficiencyState::NotEnough) && states@.contains(SufficiencyState::Tight)
            ==> worst == SufficiencyState::Tight,
        !states@.contains(SufficiencyState::NotEnough) && !states@.contains(SufficiencyState::Tight)
            && states@.contains(SufficiencyState::Enough) ==> worst == SufficiencyState::Enough,
{
    let mut worst = SufficiencyState::Unknown;
    let mut i: usize = 0;
    while i < states.len()
        invariant
            i <= states@.len(),
            (worst == SufficiencyState::Unknown) <==> (forall|j: int|
                0 <= j < i ==> #[trigger] states@[j] == SufficiencyState::Unknown),
            worst != SufficiencyState::Unknown ==> exists|j: int|
                0 <= j < i && #[trigger] states@[j] == worst,
            forall|j: int|
                0 <= j < i && #[trigger] states@[j] != SufficiencyState::Unknown ==> rank(states@[j])
                    <= rank(worst),
        decreases states@.len() - i,
    {
        let state = states[i];
        if state != SufficiencyState::Unknown && state_rank(state) >= state_rank(worst) {
            worst = state;
        }
        proof {
            if worst != SufficiencyState::Unknown && worst != state {
                let j = choose|j: int| 0 <= j < i && #[trigger] states@[j] == worst;
                assert(states@[j] == worst);
            }
        }
        i += 1;
    }
    proof {
        the_worst_known_state_is_the_worst_present(states@, worst);
    }
    worst
}

/// Estimates are ordered by how bad they are: not enough is worse than tight,
/// tight is worse than enough, and an unknown estimate ranks below all three.
pub proof fn states_rank_by_badness()
    ensures
        rank(SufficiencyState::Unknown) < rank(SufficiencyState::Enough),
        rank(SufficiencyState::Enough) < rank(SufficiencyState::Tight),
        rank(SufficiencyState::Tight) < rank(SufficiencyState::NotEnough),
{
}

/// The worst known state of a list is the worst state that occurs in it: not
/// enough if any estimate is not enough; else tight if any is tight; else
/// enough if any is enough; else unknown.
pub proof fn the_worst_known_state_is_the_worst_present(
    states: Seq<SufficiencyState>,
    worst: SufficiencyState,
)
    requires
        is_worst_known(states, worst),
    ensures
        states.contains(SufficiencyState::NotEnough) ==> worst == SufficiencyState::NotEnough,
        !states.contains(SufficiencyState::NotEnough) && states.contains(SufficiencyState::Tight)
            ==> worst == SufficiencyState::Tight,
        !states.contains(SufficiencyState::NotEnough) && !states.contains(SufficiencyState::Tight)
            && states.contains(SufficiencyState::Enough) ==> worst == SufficiencyState::Enough,
        !states.contains(SufficiencyState::NotEnough) && !states.contains(SufficiencyState::Tight)
            && !states.contains(SufficiencyState::Enough) ==> worst == SufficiencyState::Unknown,
{
    states_rank_by_badness();
    if states.contains(SufficiencyState::NotEnough) {
        let i = choose|i: int| 0 <= i < states.len() && states[i] == SufficiencyState::NotEnough;
        assert(states[i] != SufficiencyState::Unknown);
    }
    if states.contains(SufficiencyState::Tight) {
        let i = choose|i: int| 0 <= i < states.len() && states[i] == SufficiencyState::Tight;
        assert(states[i] != SufficiencyState::Unknown);
    }
    if states.contains(SufficiencyState::Enough) {
        let i = choose|i: int| 0 <= i < states.len() && states[i] == SufficiencyState::Enough;
        assert(states[i] != SufficiencyState::Unknown);
    }
    if worst != SufficiencyState::Unknown {
        let i = choose|i: int| 0 <= i < states.len() && #[trigger] states[i] == worst;
        assert(states.contains(states[i]));
    }
}

/// `a - b`, held within the range of `i64`.
pub open spec fn saturating_diff(a: i64, b: i64) -> i64 {
    if a - b > i64::MAX {
        i64::MAX
    } else if a - b < i64::MIN {
        i64::MIN
    } else {
        (a - b) as i64
    }
}

/// `a - b`, held within the range of `i64`.
pub fn saturating_sub(a: i64, b: i64) -> (d: i64)
    ensures
        d == saturating_diff(a, b),
{
    match a.checked_sub(b) {
        Some(d) => d,
        None => if b < 0 {
            i64::MAX
        } else {
            i64::MIN
        },
    }
}

/// The time between the first and the last point, when there is a point.
pub open spec fn span_of<P>(points: Seq<UsageChartPoint<P>>) -> Option<i64> {
    if points.len() == 0 {
        None
    } else {
        Some(saturating_diff(points.last().observed_at_secs, points[0].observed_at_secs))
    }
}

/// The time between the first and the last point, when there is a point.
pub fn observation_span<P: Copy>(points: &[UsageChartPoint<P>]) -> (span: Option<i64>)
    ensures
        span == span_of(points@),
{
    if points.len() == 0 {
        None
    } else {
        Some(saturating_sub(points[points.len() - 1].observed_at_secs, points[0].observed_at_secs))
    }
}

/// The chart point of a sample.
pub open spec fn point_of<P>(x: UsageSampleView<P>) -> UsageChartPoint<P> {
    UsageChartPoint { observed_at_secs: x.observed_at_secs, utilization: x.utilization }
}

/// The first point of each run of points observed at the same time.
pub open spec fn first_of_each_time<P>(s: Seq<UsageSampleView<P>>) -> Seq<UsageSampleView<P>>
    decreases s.len(),
{
    if s.len() == 0 {
        Seq::empty()
    } else {
        let rest = first_of_each_time(s.drop_last());
        if s.len() == 1 || s[s.len() - 2].observed_at_secs != s.last().observed_at_secs {
            rest.push(s.last())
        } else {
            rest
        }
    }
}

/// Whether a sample belongs to tier `tier`, reset cycle `reset_at` and the
/// time from `window_start` to `now`.
pub open spec fn in_chart_window<P>(
    x: UsageSampleView<P>,
    tier: Seq<char>,
    reset_at: Seq<char>,
    window_start: i64,
    now: i64,
) -> bool {
    x.tier == tier && x.reset_at == reset_at && window_start <= x.observed_at_secs <= now
}

/// The chart of a tier's cycle: its samples between `window_start` and `now`,
/// stably sorted by time, one point per observation time (the first).
pub open spec fn chart_points<P>(
    samples: Seq<UsageSampleView<P>>,
    tier: Seq<char>,
    reset_at: Seq<char>,
    window_start: i64,
    now: i64,
) -> Seq<UsageChartPoint<P>> {
    first_of_each_time(
        sorted_by_time(
            samples_where(
                samples,
                |x: UsageSampleView<P>| in_chart_window(x, tier, reset_at, window_start, now),
            ),
        ),
    ).map_values(|x: UsageSampleView<P>| point_of(x))
}

/// The points of the chart of tier `tier` in reset cycle `reset_at`, from
/// `window_start` to `now`.
pub fn observed_points<P: Copy>(
    samples: &Vec<UsageSample<P>>,
    tier: &str,
    reset_at: &str,
    window_start: i64,
    now_secs: i64,
) -> (points: Vec<UsageChartPoint<P>>)
    ensures
        points@ == chart_points(sample_views(samples@), tier@, reset_at@, window_start, now_secs),
{
    let ghost keep = |x: UsageSampleView<P>|
        in_chart_window(x, tier@, reset_at@, window_start, now_secs);
    let mut sorted: Vec<UsageSample<P>> = Vec::new();
    let mut i: usize = 0;
    while i < samples.len()
        invariant
            i <= samples@.len(),
            sample_views(sorted@) == sorted_by_time(
                samples_where(sample_views(samples@.take(i as int)), keep),
            ),
            keep == (|x: UsageSampleView<P>|
                in_chart_window(x, tier@, reset_at@, window_start, now_secs)),
        decreases samples@.len() - i,
    {
        proof {
            crate::history::lemma_views_take_push(samples@, i as int);
        }
        let x = &samples[i];
        if same_text(x.tier.as_str(), tier) && same_text(x.reset_at.as_str(), reset_at)
            && window_start <= x.observed_at_secs && x.observed_at_secs <= now_secs {
            let copy = x.duplicate();
            insert_sample(&mut sorted, copy);
            proof {
                let r = samples_where(sample_views(samples@.take(i as int)), keep);
                assert(r.push(copy@).drop_last() =~= r);
            }
        }
        i += 1;
    }
    proof {
        assert(samples@.take(samples@.len() as int) =~= samples@);
    }
    let ghost sv = sample_views(sorted@);
    let mut points: Vec<UsageChartPoint<P>> = Vec::new();
    let mut j: usize = 0;
    while j < sorted.len()
        invariant
            j <= sorted@.len(),
            sv == sample_views(sorted@),
            points@ == first_of_each_time(sv.take(j as int)).map_values(
                |x: UsageSampleView<P>| point_of(x),
            ),
        decreases sorted@.len() - j,
    {
        proof {
            assert(sv.take(j + 1).drop_last() =~= sv.take(j as int));
        }
        if j == 0 || sorted[j - 1].observed_at_secs != sorted[j].observed_at_secs {
            let point = UsageChartPoint {
                observed_at_secs: sorted[j].observed_at_secs,
                utilization: sorted[j].utilization,
            };
            proof {
                let r = first_of_each_time(sv.take(j as int));
                assert(r.push(sv[j as int]).map_values(|x: UsageSampleView<P>| point_of(x))
                    =~= r.map_values(|x: UsageSampleView<P>| point_of(x)).push(point));
            }
            points.push(point);
        }
        j += 1;
    }
    proof {
        assert(sv.take(sorted@.len() as int) =~= sv);
    }
    points
}

/// The points observed at or after `cutoff`, in their order.
pub open spec fn points_since<P>(points: Seq<UsageChartPoint<P>>, cutoff: int) -> Seq<
    UsageChartPoint<P>,
>
    decreases points.len(),
{
    if points.len() == 0 {
        Seq::empty()
    } else {
        let rest = points_since(points.drop_last(), cutoff);
        if points.last().observed_at_secs >= cutoff {
            rest.push(points.last())
        } else {
            rest
        }
    }
}

/// The points observed at or after `cutoff`, in their order.
fn copy_points_since<P: Copy>(points: &[UsageChartPoint<P>], cutoff: i64) -> (selected: Vec<
    UsageChartPoint<P>,
>)
    ensures
        selected@ == points_since(points@, cutoff as int),
{
    let mut selected: Vec<UsageChartPoint<P>> = Vec::new();
    let mut i: usize = 0;
    while i < points.len()
        invariant
            i <= points@.len(),
            selected@ == points_since(points@.take(i as int), cutoff as int),
        decreases points@.len() - i,
    {
        proof {
            assert(points@.take(i + 1).drop_last() =~= points@.take(i as int));
        }
        if points[i].observed_at_secs >= cutoff {
            selected.push(points[i]);
        }
        i += 1;
    }
    proof {
        assert(points@.take(points@.len() as int) =~= points@);
    }
    selected
}

/// The points of the last `hours` hours when they are enough for a trend: at
/// least `MIN_TREND_SAMPLES` of them, spanning at least `MIN_TREND_SPAN_SECS`.
pub open spec fn recent_points<P>(points: Seq<UsageChartPoint<P>>, now: i64, hours: i64) -> Option<
    Seq<UsageChartPoint<P>>,
> {
    let selected = points_since(points, now - hours * 3_600);
    if selected.len() < MIN_TREND_SAMPLES || match span_of(selected) {
        Some(span) => span < MIN_TREND_SPAN_SECS,
        None => 0 < MIN_TREND_SPAN_SECS,
    } {
        None
    } else {
        Some(selected)
    }
}

/// The points of the last `hours` hours when they are enough for a trend.
pub fn select_recent_points<P: Copy>(points: &[UsageChartPoint<P>], now_secs: i64, hours: i64) -> (selected: Option<
    Vec<UsageChartPoint<P>>,
>)
    requires
        0 <= hours <= 1_000_000,
        -TIME_LIMIT <= now_secs <= TIME_LIMIT,
    ensures
        match selected {
            Some(v) => recent_points(points@, now_secs, hours) == Some(v@),
            None => recent_points(points@, now_secs, hours) is None,
        },
{
    let cutoff = now_secs - hours * 3_600;
    let selected = copy_points_since(points, cutoff);
    let span = match observation_span(selected.as_slice()) {
        Some(span) => span,
        None => 0,
    };
    if selected.len() < MIN_TREND_SAMPLES || span < MIN_TREND_SPAN_SECS {
        return None;
    }
    Some(selected)
}

/// Whether no two neighbouring points are more than the stable gap apart.
pub open spec fn gaps_within<P>(points: Seq<UsageChartPoint<P>>) -> bool {
    forall|i: int|
        0 <= i < points.len() - 1 ==> saturating_diff(
            #[trigger] points[i + 1].observed_at_secs,
            points[i].observed_at_secs,
        ) <= STABLE_SHORT_MAX_SAMPLE_GAP_SECS
}

/// The points of the last `STABLE_SHORT_WINDOW_SECS` when they pass the timing
/// checks of a stable short-window trend: at least `STABLE_SHORT_MIN_SAMPLES`
/// points spanning at least `STABLE_SHORT_MIN_SPAN_SECS`, the newest at most
/// `STABLE_SHORT_MAX_AGE_SECS` old, neighbours at most
/// `STABLE_SHORT_MAX_SAMPLE_GAP_SECS` apart.
pub open spec fn stable_short_points<P>(points: Seq<UsageChartPoint<P>>, now: i64) -> Option<
    Seq<UsageChartPoint<P>>,
> {
    let selected = points_since(points, now - STABLE_SHORT_WINDOW_SECS);
    if selected.len() < STABLE_SHORT_MIN_SAMPLES {
        None
    } else if saturating_diff(selected.last().observed_at_secs, selected[0].observed_at_secs)
        < STABLE_SHORT_MIN_SPAN_SECS {
        None
    } else if !(0 <= saturating_diff(now, selected.last().observed_at_secs)
        <= STABLE_SHORT_MAX_AGE_SECS) {
        None
    } else if !gaps_within(selected) {
        None
    } else {
        Some(selected)
    }
}

/// The points of a stable short-window trend, when they pass its timing checks;
/// the caller then checks their growth and fit.
pub fn select_stable_short_points<P: Copy>(points: &[UsageChartPoint<P>], now_secs: i64) -> (selected: Option<
    Vec<UsageChartPoint<P>>,
>)
    requires
        -TIME_LIMIT <= now_secs <= TIME_LIMIT,
    ensures
        match selected {
            Some(v) => stable_short_points(points@, now_secs) == Some(v@),
            None => stable_short_points(points@, now_secs) is None,
        },
{
    let selected = copy_points_since(points, now_secs - STABLE_SHORT_WINDOW_SECS);
    let n = selected.len();
    if n < STABLE_SHORT_MIN_SAMPLES {
        return None;
    }
    let span = saturating_sub(selected[n - 1].observed_at_secs, selected[0].observed_at_secs);
    if span < STABLE_SHORT_MIN_SPAN_SECS {
        return None;
    }
    let age = saturating_sub(now_secs, selected[n - 1].observed_at_secs);
    if !(0 <= age && age <= STABLE_SHORT_MAX_AGE_SECS) {
        return None;
    }
    let mut i: usize = 0;
    while i + 1 < n
        invariant
            n == selected@.len(),
            n >= STABLE_SHORT_MIN_SAMPLES,
            i + 1 <= n,
            selected@ == points_since(points@, now_secs - STABLE_SHORT_WINDOW_SECS),
            saturating_diff(selected@.last().observed_at_secs, selected@[0].observed_at_secs)
                >= STABLE_SHORT_MIN_SPAN_SECS,
            0 <= saturating_diff(now_secs, selected@.last().observed_at_secs)
                <= STABLE_SHORT_MAX_AGE_SECS,
            forall|k: int|
                0 <= k < i ==> saturating_diff(
                    #[trigger] selected@[k + 1].observed_at_secs,
                    selected@[k].observed_at_secs,
                ) <= STABLE_SHORT_MAX_SAMPLE_GAP_SECS,
        decreases n - i,
    {
        if saturating_sub(selected[i + 1].observed_at_secs, selected[i].observed_at_secs)
            > STABLE_SHORT_MAX_SAMPLE_GAP_SECS {
            proof {
                let k = i as int;
                assert(saturating_diff(selected@[k + 1].observed_at_secs, selected@[k].observed_at_secs)
                    > STABLE_SHORT_MAX_SAMPLE_GAP_SECS);
                assert(!gaps_within(selected@));
            }
            return None;
        }
        i += 1;
    }
    Some(selected)
}

/// Where a tier stands in its reset cycle at some moment.
#[derive(Debug, Clone, Copy, PartialEq, Eq, Structural)]
pub enum ResetTimeline {
    /// The tier has no reset time, or chrono cannot read it.
    Unknown,
    /// The reset time has passed.
    Expired { reset_at: i64 },
    /// The reset time is ahead, but the tier's window length is not known.
    NoWindow { reset_at: i64, reset_in_secs: i64 },
    /// The reset time is ahead and the window is known; `elapsed_secs` is the
    /// part of the window that has passed, between 0 and the window length.
    Window { reset_at: i64, reset_in_secs: i64, window_secs: i64, elapsed_secs: i64 },
}

/// `value` held between `low` and `high`.
pub open spec fn clamp(value: int, low: int, high: int) -> int {
    if value < low {
        low
    } else if value > high {
        high
    } else {
        value
    }
}

/// Where a tier named `name` with reset time `resets_at` stands at `now`.
pub open spec fn timeline_of(name: Seq<char>, resets_at: Option<Seq<char>>, now: i64) -> ResetTimeline {
    match resets_at {
        None => ResetTimeline::Unknown,
        Some(text) => match rfc3339_seconds(text) {
            None => ResetTimeline::Unknown,
            Some(reset_at) => if reset_at - now <= 0 {
                ResetTimeline::Expired { reset_at }
            } else {
                match tier_window(name) {
                    None => ResetTimeline::NoWindow {
                        reset_at,
                        reset_in_secs: (reset_at - now) as i64,
                    },
                    Some(window) => ResetTimeline::Window {
                        reset_at,
                        reset_in_secs: (reset_at - now) as i64,
                        window_secs: window,
                        elapsed_secs: clamp(window - (reset_at - now), 0, window as int) as i64,
                    },
                }
            },
        },
    }
}

/// Where `tier` stands in its reset cycle at `now_secs`.
pub fn tier_timeline<P>(tier: &QuotaTier<P>, now_secs: i64) -> (timeline: ResetTimeline)
    requires
        -TIME_LIMIT <= now_secs <= TIME_LIMIT,
    ensures
        timeline == timeline_of(tier.name@, crate::types::opt_str(tier.resets_at), now_secs),
{
    let text = match &tier.resets_at {
        Some(text) => text,
        None => return ResetTimeline::Unknown,
    };
    let reset_at = match parse_rfc3339_seconds(text.as_str()) {
        Some(reset_at) => reset_at,
        None => return ResetTimeline::Unknown,
    };
    let reset_in_secs = reset_at - now_secs;
    if reset_in_secs <= 0 {
        return ResetTimeline::Expired { reset_at };
    }
    match window_seconds(tier.name.as_str()) {
        None => ResetTimeline::NoWindow { reset_at, reset_in_secs },
        Some(window_secs) => {
            let passed = window_secs - reset_in_secs;
            let elapsed_secs = if passed < 0 {
                0
            } else if passed > window_secs {
                window_secs
            } else {
                passed
            };
            ResetTimeline::Window { reset_at, reset_in_secs, window_secs, elapsed_secs }
        },
    }
}

/// How long the window lasted until saturation at `reached_at` (between one
/// second and the whole window) and how long before the reset it came (never
/// negative).
pub fn saturation_timing(reset_at: i64, window_secs: i64, reached_at: i64) -> (timing: (i64, i64))
    requires
        -TIME_LIMIT <= reset_at <= TIME_LIMIT,
        -TIME_LIMIT <= reached_at <= TIME_LIMIT,
        1 <= window_secs <= TIME_LIMIT,
    ensures
        timing.0 == clamp(reached_at - (reset_at - window_secs), 1, window_secs as int),
        timing.1 == if reset_at - reached_at > 0 {
            reset_at - reached_at
        } else {
            0
        },
{
    let window_start = reset_at - window_secs;
    let into_window = reached_at - window_start;
    let lasted = if into_window < 1 {
        1
    } else if into_window > window_secs {
        window_secs
    } else {
        into_window
    };
    let before_reset = if reset_at - reached_at > 0 {
        reset_at - reached_at
    } else {
        0
    };
    (lasted, before_reset)
}

/// The views of a sequence of saturation events.
pub open spec fn event_views<P>(e: Seq<QuotaSaturationEvent<P>>) -> Seq<QuotaSaturationEventView<P>> {
    e.map_values(|x: QuotaSaturationEvent<P>| x@)
}

/// Whether an event matches account `service`, tier `tier` and reset cycle `reset_at`.
pub open spec fn event_matches<P>(
    e: QuotaSaturationEventView<P>,
    service: Seq<char>,
    tier: Seq<char>,
    reset_at: Seq<char>,
) -> bool {
    e.service == service && e.tier == tier && e.reset_at == reset_at
}

/// Whether `events` hold an event of account `service`, tier `tier` and reset
/// cycle `reset_at`.
pub open spec fn has_event<P>(
    events: Seq<QuotaSaturationEventView<P>>,
    service: Seq<char>,
    tier: Seq<char>,
    reset_at: Seq<char>,
) -> bool {
    exists|i: int| 0 <= i < events.len() && event_matches(#[trigger] events[i], service, tier, reset_at)
}

/// `events` after looking at one tier at `now`: a weekly tier with a reset time
/// that is at its limit gets an event, unless its cycle already has one.
pub open spec fn with_tier_event<P>(
    events: Seq<QuotaSaturationEventView<P>>,
    service: Seq<char>,
    tier: QuotaTierView<P>,
    at_limit: bool,
    now: i64,
) -> Seq<QuotaSaturationEventView<P>> {
    match tier.resets_at {
        None => events,
        Some(reset_at) => if is_weekly(tier.name) && at_limit && !has_event(
            events,
            service,
            tier.name,
            reset_at,
        ) {
            events.push(
                QuotaSaturationEventView {
                    service,
                    tier: tier.name,
                    reset_at,
                    reached_at_secs: now,
                    utilization_at: tier.utilization,
                },
            )
        } else {
            events
        },
    }
}

/// `events` after looking at all `tiers` in order.
pub open spec fn with_tier_events<P>(
    events: Seq<QuotaSaturationEventView<P>>,
    service: Seq<char>,
    tiers: Seq<QuotaTierView<P>>,
    at_limit: Seq<bool>,
    now: i64,
) -> Seq<QuotaSaturationEventView<P>>
    decreases tiers.len(),
{
    if tiers.len() == 0 {
        events
    } else {
        with_tier_event(
            with_tier_events(events, service, tiers.drop_last(), at_limit.take(tiers.len() - 1), now),
            service,
            tiers.last(),
            at_limit[tiers.len() - 1],
            now,
        )
    }
}

/// The newest `MAX_SATURATION_EVENTS` of `events`.
pub open spec fn newest_events<P>(events: Seq<QuotaSaturationEventView<P>>) -> Seq<
    QuotaSaturationEventView<P>,
> {
    if events.len() > MAX_SATURATION_EVENTS {
        events.skip(events.len() - MAX_SATURATION_EVENTS)
    } else {
        events
    }
}

/// The events after recording a quota query of account `service` at `now`;
/// `at_limit[i]` tells whether tier `i` is at its limit.
pub open spec fn recorded_events<P>(
    events: Seq<QuotaSaturationEventView<P>>,
    service: Seq<char>,
    quota: crate::types::ServiceQuotaView<P>,
    at_limit: Seq<bool>,
    now: i64,
) -> Seq<QuotaSaturationEventView<P>> {
    if !quota.success {
        events
    } else {
        newest_events(with_tier_events(events, service, quota.tiers, at_limit, now))
    }
}

/// Whether `events` hold an event of account `service`, tier `tier` and reset
/// cycle `reset_at`.
fn contains_event<P>(
    events: &Vec<QuotaSaturationEvent<P>>,
    service: &str,
    tier: &String,
    reset_at: &String,
) -> (found: bool)
    ensures
        found == has_event(event_views(events@), service@, tier@, reset_at@),
{
    let mut i: usize = 0;
    while i < events.len()
        invariant
            i <= events@.len(),
            forall|j: int|
                0 <= j < i ==> !event_matches(
                    #[trigger] event_views(events@)[j],
                    service@,
                    tier@,
                    reset_at@,
                ),
        decreases events@.len() - i,
    {
        let e = &events[i];
        if same_text(e.service.as_str(), service) && e.tier == *tier && e.reset_at == *reset_at {
            proof {
                assert(event_matches(event_views(events@)[i as int], service@, tier@, reset_at@));
            }
            return true;
        }
        i += 1;
    }
    false
}

/// Records, for account `service_key`, the first moment each weekly tier of a
/// successful query is at its limit in its reset cycle (`at_limit[i]` tells
/// whether tier `i` is), and keeps the newest `MAX_SATURATION_EVENTS` events.
/// A failed query changes nothing.
pub fn record_weekly_saturation_events_for<P: Copy>(
    service_key: &str,
    quota: &ServiceQuota<P>,
    at_limit: &[bool],
    events: &mut Vec<QuotaSaturationEvent<P>>,
    now_secs: i64,
)
    requires
        at_limit@.len() == quota.tiers@.len(),
    ensures
        event_views(final(events)@) == recorded_events(
            event_views(old(events)@),
            service_key@,
            quota@,
            at_limit@,
            now_secs,
        ),
{
    if !quota.success {
        return ;
    }
    let mut t: usize = 0;
    while t < quota.tiers.len()
        invariant
            t <= quota.tiers@.len(),
            at_limit@.len() == quota.tiers@.len(),
            event_views(events@) == with_tier_events(
                event_views(old(events)@),
                service_key@,
                quota@.tiers.take(t as int),
                at_limit@.take(t as int),
                now_secs,
            ),
        decreases quota.tiers@.len() - t,
    {
        proof {
            assert(quota@.tiers.take(t + 1).drop_last() =~= quota@.tiers.take(t as int));
            assert(at_limit@.take(t + 1).take(t as int) =~= at_limit@.take(t as int));
        }
        let tier = &quota.tiers[t];
        if let Some(reset_at) = &tier.resets_at {
            if is_weekly_tier(tier.name.as_str()) && at_limit[t] && !contains_event(
                events,
                service_key,
                &tier.name,
                reset_at,
            ) {
                let event = QuotaSaturationEvent {
                    service: service_key.to_string(),
                    tier: tier.name.clone(),
                    reset_at: reset_at.clone(),
                    reached_at_secs: now_secs,
                    utilization_at: tier.utilization,
                };
                proof {
                    assert(event_views(events@.push(event)) =~= event_views(events@).push(event@));
                }
                events.push(event);
            }
        }
        t += 1;
    }
    proof {
        assert(quota@.tiers.take(quota.tiers@.len() as int) =~= quota@.tiers);
        assert(at_limit@.take(at_limit@.len() as int) =~= at_limit@);
    }
    if events.len() > MAX_SATURATION_EVENTS {
        let drop_count = events.len() - MAX_SATURATION_EVENTS;
        let ghost all = events@;
        let newest = events.split_off(drop_count);
        proof {
            assert(event_views(newest@) =~= event_views(all).skip(drop_count as int));
        }
        *events = newest;
    }
}

/// Records the saturation events of a query under the quota's own service name.
pub fn record_weekly_saturation_events<P: Copy>(
    quota: &ServiceQuota<P>,
    at_limit: &[bool],
    events: &mut Vec<QuotaSaturationEvent<P>>,
    now_secs: i64,
)
    requires
        at_limit@.len() == quota.tiers@.len(),
    ensures
        event_views(final(events)@) == recorded_events(
            event_views(old(events)@),
            quota@.service,
            quota@,
            at_limit@,
            now_secs,
        ),
{
    record_weekly_saturation_events_for(quota.service.as_str(), quota, at_limit, events, now_secs);
}

/// Whether tier `tier` of a query needs a saturation event.
pub open spec fn needs_event<P>(tier: QuotaTierView<P>, at_limit: bool) -> bool {
    is_weekly(tier.name) && tier.resets_at is Some && at_limit
}

proof fn lemma_tier_events_grow<P>(
    events: Seq<QuotaSaturationEventView<P>>,
    service: Seq<char>,
    tiers: Seq<QuotaTierView<P>>,
    at_limit: Seq<bool>,
    now: i64,
)
    requires
        at_limit.len() == tiers.len(),
    ensures
        with_tier_events(events, service, tiers, at_limit, now).len() <= events.len() + tiers.len(),
        forall|t: Seq<char>, r: Seq<char>|
            has_event(events, service, t, r) ==> #[trigger] has_event(
                with_tier_events(events, service, tiers, at_limit, now),
                service,
                t,
                r,
            ),
        forall|i: int|
            0 <= i < tiers.len() && #[trigger] needs_event(tiers[i], at_limit[i]) ==> has_event(
                with_tier_events(events, service, tiers, at_limit, now),
                service,
                tiers[i].name,
                tiers[i].resets_at.unwrap(),
            ),
        (forall|i: int|
            0 <= i < tiers.len() && #[trigger] needs_event(tiers[i], at_limit[i]) ==> has_event(
                events,
                service,
                tiers[i].name,
                tiers[i].resets_at.unwrap(),
            )) ==> with_tier_events(events, service, tiers, at_limit, now) == events,
    decreases tiers.len(),
{
    if tiers.len() > 0 {
        let n = tiers.len() - 1;
        let d = tiers.drop_last();
        let a = at_limit.take(n);
        lemma_tier_events_grow(events, service, d, a, now);
        let before = with_tier_events(events, service, d, a, now);
        let after = with_tier_events(events, service, tiers, at_limit, now);
        let last = tiers.last();
        assert forall|t: Seq<char>, r: Seq<char>|
            #[trigger] has_event(before, service, t, r) implies has_event(after, service, t, r) by {
            let k = choose|k: int| 0 <= k < before.len() && event_matches(#[trigger] before[k], service, t, r);
            if after != before {
                assert(after[k] == before[k]);
            }
        }
        assert forall|t: Seq<char>, r: Seq<char>|
            has_event(events, service, t, r) implies #[trigger] has_event(after, service, t, r) by {
            assert(has_event(before, service, t, r));
        }
        assert forall|i: int|
            0 <= i < tiers.len() && #[trigger] needs_event(tiers[i], at_limit[i]) implies has_event(
                after,
                service,
                tiers[i].name,
                tiers[i].resets_at.unwrap(),
            ) by {
            if i < n {
                assert(d[i] == tiers[i] && a[i] == at_limit[i]);
                assert(has_event(before, service, d[i].name, d[i].resets_at.unwrap()));
            } else if !has_event(before, service, last.name, last.resets_at.unwrap()) {
                assert(event_matches(after[before.len() as int], service, last.name, last.resets_at.unwrap()));
            }
        }
        if forall|i: int|
            0 <= i < tiers.len() && #[trigger] needs_event(tiers[i], at_limit[i]) ==> has_event(
                events,
                service,
                tiers[i].name,
                tiers[i].resets_at.unwrap(),
            ) {
            assert forall|i: int|
                0 <= i < d.len() && #[trigger] needs_event(d[i], a[i]) implies has_event(
                    events,
                    service,
                    d[i].name,
                    d[i].resets_at.unwrap(),
                ) by {
                assert(d[i] == tiers[i] && a[i] == at_limit[i]);
            }
            if needs_event(last, at_limit[n]) {
                assert(needs_event(tiers[n], at_limit[n]));
            }
        }
    }
}

/// After recording a successful query, at most `MAX_SATURATION_EVENTS` events
/// remain; a failed query changes nothing.
pub proof fn recorded_events_are_bounded<P>(
    events: Seq<QuotaSaturationEventView<P>>,
    service: Seq<char>,
    quota: crate::types::ServiceQuotaView<P>,
    at_limit: Seq<bool>,
    now: i64,
)
    ensures
        quota.success ==> recorded_events(events, service, quota, at_limit, now).len()
            <= MAX_SATURATION_EVENTS,
        !quota.success ==> recorded_events(events, service, quota, at_limit, now) == events,
{
}

/// Saturation is recorded once per reset cycle: recording the same query again,
/// at any later time, changes nothing, as long as the first recording dropped
/// no event (the events and the tiers together number at most
/// `MAX_SATURATION_EVENTS`). Every weekly tier at its limit then has its event.
pub proof fn saturation_is_recorded_once_per_reset<P>(
    events: Seq<QuotaSaturationEventView<P>>,
    service: Seq<char>,
    quota: crate::types::ServiceQuotaView<P>,
    at_limit: Seq<bool>,
    first: i64,
    second: i64,
)
    requires
        at_limit.len() == quota.tiers.len(),
        events.len() + quota.tiers.len() <= MAX_SATURATION_EVENTS,
    ensures
        ({
            let once = recorded_events(events, service, quota, at_limit, first);
            &&& recorded_events(once, service, quota, at_limit, second) == once
            &&& quota.success ==> forall|i: int|
                0 <= i < quota.tiers.len() && #[trigger] needs_event(quota.tiers[i], at_limit[i])
                    ==> has_event(once, service, quota.tiers[i].name, quota.tiers[i].resets_at.unwrap())
        }),
{
    if quota.success {
        lemma_tier_events_grow(events, service, quota.tiers, at_limit, first);
        let once = with_tier_events(events, service, quota.tiers, at_limit, first);
        lemma_tier_events_grow(once, service, quota.tiers, at_limit, second);
    }
}

/// The first event of account `service` for the current reset cycle of `tier`;
/// none when the tier has no reset time or the cycle has no event.
pub fn matching_saturation_event<'a, P>(
    tier: &QuotaTier<P>,
    service: &str,
    events: &'a [QuotaSaturationEvent<P>],
) -> (found: Option<&'a QuotaSaturationEvent<P>>)
    ensures
        match found {
            None => tier@.resets_at is None || !has_event(
                event_views(events@),
                service@,
                tier@.name,
                tier@.resets_at.unwrap(),
            ),
            Some(e) => tier@.resets_at is Some && exists|i: int|
                0 <= i < events@.len() && events@[i] == *e && event_matches(
                    #[trigger] event_views(events@)[i],
                    service@,
                    tier@.name,
                    tier@.resets_at.unwrap(),
                ) && forall|j: int|
                    0 <= j < i ==> !event_matches(
                        #[trigger] event_views(events@)[j],
                        service@,
                        tier@.name,
                        tier@.resets_at.unwrap(),
                    ),
        },
{
    let reset_at = match &tier.resets_at {
        Some(reset_at) => reset_at,
        None => return None,
    };
    let mut i: usize = 0;
    while i < events.len()
        invariant
            i <= events@.len(),
            tier.resets_at == Some(*reset_at),
            forall|j: int|
                0 <= j < i ==> !event_matches(
                    #[trigger] event_views(events@)[j],
                    service@,
                    tier.name@,
                    reset_at@,
                ),
        decreases events@.len() - i,
    {
        let e = &events[i];
        if same_text(e.service.as_str(), service) && e.tier == tier.name && e.reset_at == *reset_at {
            proof {
                assert(event_matches(event_views(events@)[i as int], service@, tier.name@, reset_at@));
            }
            return Some(e);
        }
        i += 1;
    }
    None
}


/// The seconds since the Unix epoch on the system clock (zero when the clock
/// stands before the epoch). Calls `std::time::SystemTime::now`; nothing is
/// stated of the reading.
#[verifier::external_body]
pub fn now_unix_secs() -> i64 {
    std::time::SystemTime::now()
        .duration_since(std::time::UNIX_EPOCH)
        .unwrap_or_default()
        .as_secs() as i64
}

/// `worst` is the worst known state of `states`: unknown exactly when every
/// state is unknown, otherwise one of the known states, ranked at least as
/// high as each of them.
pub open spec fn is_worst_known(states: Seq<SufficiencyState>, worst: SufficiencyState) -> bool {
    &&& (worst == SufficiencyState::Unknown) <==> (forall|i: int|
        0 <= i < states.len() ==> #[trigger] states[i] == SufficiencyState::Unknown)
    &&& worst != SufficiencyState::Unknown ==> exists|i: int|
        0 <= i < states.len() && #[trigger] states[i] == worst
    &&& forall|i: int|
        0 <= i < states.len() && #[trigger] states[i] != SufficiencyState::Unknown ==> rank(states[i])
            <= rank(worst)
}

/// The worst known state of a list of estimates is determined by the list:
/// two states that both are its worst known state are the same.
pub proof fn worst_known_state_is_unique(states: Seq<SufficiencyState>, a: SufficiencyState, b: SufficiencyState)
    requires
        is_worst_known(states, a),
        is_worst_known(states, b),
    ensures
        a == b,
{
    if a != SufficiencyState::Unknown {
        let i = choose|i: int| 0 <= i < states.len() && #[trigger] states[i] == a;
        assert(states[i] != SufficiencyState::Unknown);
        let j = choose|j: int| 0 <= j < states.len() && #[trigger] states[j] == b;
        assert(states[j] != SufficiencyState::Unknown);
    }
}

/// `states` are the estimates that `estimate_state` gave for `tiers`, one
/// each, in order.
pub open spec fn estimated_states<P, F: Fn(&QuotaTier<P>, i64) -> SufficiencyState>(
    estimate_state: F,
    tiers: Seq<QuotaTier<P>>,
    now_secs: i64,
    states: Seq<SufficiencyState>,
) -> bool {
    &&& states.len() == tiers.len()
    &&& forall|i: int|
        0 <= i < tiers.len() ==> call_ensures(estimate_state, (&tiers[i], now_secs), #[trigger] states[i])
}

/// Estimates each tier with `estimate_state`, in order.
fn estimate_each<P, F: Fn(&QuotaTier<P>, i64) -> SufficiencyState>(
    tiers: &[QuotaTier<P>],
    now_secs: i64,
    estimate_state: &F,
    states: &mut Vec<SufficiencyState>,
)
    requires
        forall|t: &QuotaTier<P>| #[trigger] call_requires(*estimate_state, (t, now_secs)),
    ensures
        final(states)@.len() == old(states)@.len() + tiers@.len(),
        final(states)@.take(old(states)@.len() as int) == old(states)@,
        estimated_states(
            *estimate_state,
            tiers@,
            now_secs,
            final(states)@.skip(old(states)@.len() as int),
        ),
{
    let ghost before = states@;
    let mut i: usize = 0;
    while i < tiers.len()
        invariant
            i <= tiers@.len(),
            forall|t: &QuotaTier<P>| #[trigger] call_requires(*estimate_state, (t, now_secs)),
            states@.len() == before.len() + i,
            states@.take(before.len() as int) == before,
            estimated_states(
                *estimate_state,
                tiers@.take(i as int),
                now_secs,
                states@.skip(before.len() as int),
            ),
        decreases tiers@.len() - i,
    {
        let state = estimate_state(&tiers[i], now_secs);
        let ghost old_states = states@;
        states.push(state);
        proof {
            assert(states@.take(before.len() as int) =~= old_states.take(before.len() as int));
            assert(states@.skip(before.len() as int) =~= old_states.skip(before.len() as int).push(
                state,
            ));
            let t = tiers@.take(i + 1);
            assert forall|j: int| 0 <= j < t.len() implies call_ensures(
                *estimate_state,
                (&t[j], now_secs),
                #[trigger] states@.skip(before.len() as int)[j],
            ) by {
                if j < i {
                    assert(t[j] == tiers@.take(i as int)[j]);
                }
            }
        }
        i += 1;
    }
    proof {
        assert(tiers@.take(tiers@.len() as int) =~= tiers@);
    }
}

/// The worst known state over `tiers`, each estimated by `estimate_state`
/// at `now_secs`; unknown when no estimate is known.
pub fn overall_state<P, F: Fn(&QuotaTier<P>, i64) -> SufficiencyState>(
    tiers: &[QuotaTier<P>],
    now_secs: i64,
    estimate_state: F,
) -> (state: SufficiencyState)
    requires
        forall|t: &QuotaTier<P>| #[trigger] call_requires(estimate_state, (t, now_secs)),
    ensures
        exists|states: Seq<SufficiencyState>|
            #[trigger] estimated_states(estimate_state, tiers@, now_secs, states) && is_worst_known(
                states,
                state,
            ),
{
    let mut states: Vec<SufficiencyState> = Vec::new();
    estimate_each(tiers, now_secs, &estimate_state, &mut states);
    proof {
        assert(states@.skip(0) =~= states@);
    }
    let state = worst_known_state(states.as_slice());
    proof {
        assert(estimated_states(estimate_state, tiers@, now_secs, states@));
    }
    state
}

/// The tiers of the services whose query succeeded, in order.
pub open spec fn successful_tiers<P>(quotas: Seq<Option<ServiceQuota<P>>>) -> Seq<QuotaTier<P>>
    decreases quotas.len(),
{
    if quotas.len() == 0 {
        Seq::empty()
    } else {
        successful_tiers(quotas.drop_last()) + match quotas.last() {
            Some(quota) => if quota.success {
                quota.tiers@
            } else {
                Seq::empty()
            },
            None => Seq::empty(),
        }
    }
}

/// With an estimator that gives one state per tier, the worst known state over
/// the services (what `overall_state_for_services` returns) is the worst known
/// state over the tiers of the successful queries, in order (what
/// `overall_state` returns for those tiers): missing and failed queries never
/// count.
pub proof fn services_state_is_the_state_of_their_successful_tiers<P, F: Fn(&QuotaTier<P>, i64) -> SufficiencyState>(
    estimate_state: F,
    quotas: Seq<Option<ServiceQuota<P>>>,
    now_secs: i64,
    service_states: Seq<SufficiencyState>,
    service_state: SufficiencyState,
    tier_states: Seq<SufficiencyState>,
    tier_state: SufficiencyState,
)
    requires
        forall|t: &QuotaTier<P>, x: SufficiencyState, y: SufficiencyState|
            call_ensures(estimate_state, (t, now_secs), x) && call_ensures(estimate_state, (t, now_secs), y)
                ==> x == y,
        estimated_states(estimate_state, successful_tiers(quotas), now_secs, service_states),
        is_worst_known(service_states, service_state),
        estimated_states(estimate_state, successful_tiers(quotas), now_secs, tier_states),
        is_worst_known(tier_states, tier_state),
    ensures
        service_state == tier_state,
{
    let tiers = successful_tiers(quotas);
    assert forall|i: int| 0 <= i < service_states.len() implies service_states[i] == tier_states[i] by {
        assert(call_ensures(estimate_state, (&tiers[i], now_secs), service_states[i]));
        assert(call_ensures(estimate_state, (&tiers[i], now_secs), tier_states[i]));
    }
    assert(service_states =~= tier_states);
    worst_known_state_is_unique(service_states, service_state, tier_state);
}

/// The worst known state over the tiers of every service whose query
/// succeeded; unknown when none is known.
pub fn overall_state_for_services<P, F: Fn(&QuotaTier<P>, i64) -> SufficiencyState>(
    quotas: &[Option<ServiceQuota<P>>],
    now_secs: i64,
    estimate_state: F,
) -> (state: SufficiencyState)
    requires
        forall|t: &QuotaTier<P>| #[trigger] call_requires(estimate_state, (t, now_secs)),
    ensures
        exists|states: Seq<SufficiencyState>|
            #[trigger] estimated_states(estimate_state, successful_tiers(quotas@), now_secs, states)
                && is_worst_known(states, state),
{
    let mut states: Vec<SufficiencyState> = Vec::new();
    let mut i: usize = 0;
    while i < quotas.len()
        invariant
            i <= quotas@.len(),
            forall|t: &QuotaTier<P>| #[trigger] call_requires(estimate_state, (t, now_secs)),
            estimated_states(estimate_state, successful_tiers(quotas@.take(i as int)), now_secs, states@),
        decreases quotas@.len() - i,
    {
        proof {
            assert(quotas@.take(i + 1).drop_last() =~= quotas@.take(i as int));
        }
        let ghost before = states@;
        let ghost done = successful_tiers(quotas@.take(i as int));
        match &quotas[i] {
            Some(quota) => {
                if quota.success {
                    estimate_each(quota.tiers.as_slice(), now_secs, &estimate_state, &mut states);
                    proof {
                        let all = successful_tiers(quotas@.take(i + 1));
                        assert(all =~= done + quota.tiers@);
                        assert forall|j: int| 0 <= j < all.len() implies call_ensures(
                            estimate_state,
                            (&all[j], now_secs),
                            #[trigger] states@[j],
                        ) by {
                            if j < done.len() {
                                assert(states@[j] == states@.take(before.len() as int)[j]);
                            } else {
                                assert(states@[j] == states@.skip(before.len() as int)[j
                                    - done.len()]);
                            }
                        }
                    }
                } else {
                    proof {
                        assert(successful_tiers(quotas@.take(i + 1)) =~= done);
                    }
                }
            },
            None => {
                proof {
                    assert(successful_tiers(quotas@.take(i + 1)) =~= done);
                }
            },
        }
        i += 1;
    }
    proof {
        assert(quotas@.take(quotas@.len() as int) =~= quotas@);
    }
    let state = worst_known_state(states.as_slice());
    state
}

} // verus!

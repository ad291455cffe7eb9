//! The bounded history of successful utilization samples.
//!
//! Samples older than the retention period are dropped, the rest are kept in
//! observation order, and each account/tier keeps only its newest samples.
use crate::types::{QuotaTier, QuotaTierView, ServiceQuota, UsageSample, UsageSampleView};
use crate::text::same_text;
use vstd::prelude::*;

verus! {

/// Version written into every history document.
pub const HISTORY_VERSION: u32 = 1;

/// How long a sample is kept: the active cycle plus eight days.
pub const RETENTION_SECS: i64 = 691_200;

/// How many samples each account/tier keeps at most.
pub const MAX_SAMPLES_PER_TIER: usize = 2_500;

/// The persisted usage history.
#[derive(Debug, Clone, PartialEq)]
pub struct UsageHistoryDocument<P> {
    pub version: u32,
    pub samples: Vec<UsageSample<P>>,
}

impl<P> UsageHistoryDocument<P> {
    /// An empty history of the current version.
    pub fn new() -> (document: Self)
        ensures
            document.version == HISTORY_VERSION,
            document.samples@.len() == 0,
    {
        UsageHistoryDocument { version: HISTORY_VERSION, samples: Vec::new() }
    }
}

/// The views of a sequence of samples.
pub open spec fn sample_views<P>(s: Seq<UsageSample<P>>) -> Seq<UsageSampleView<P>> {
    s.map_values(|x: UsageSample<P>| x@)
}

/// The samples of `s` observed at or after `cutoff`, in their order.
pub open spec fn observed_since<P>(s: Seq<UsageSampleView<P>>, cutoff: int) -> Seq<
    UsageSampleView<P>,
>
    decreases s.len(),
{
    if s.len() == 0 {
        Seq::empty()
    } else {
        let rest = observed_since(s.drop_last(), cutoff);
        if s.last().observed_at_secs >= cutoff {
            rest.push(s.last())
        } else {
            rest
        }
    }
}

/// Where a sample observed at `t` goes in `s`: after every sample observed at or
/// before `t` that is not followed by a later one.
pub open spec fn insertion_point<P>(s: Seq<UsageSampleView<P>>, t: i64) -> int
    decreases s.len(),
{
    if s.len() == 0 {
        0
    } else if s.last().observed_at_secs > t {
        insertion_point(s.drop_last(), t)
    } else {
        s.len() as int
    }
}

/// `s` with `x` inserted at its insertion point.
pub open spec fn insert_by_time<P>(s: Seq<UsageSampleView<P>>, x: UsageSampleView<P>) -> Seq<
    UsageSampleView<P>,
> {
    s.insert(insertion_point(s, x.observed_at_secs), x)
}

/// `s` stably sorted by observation time: samples observed at the same time
/// keep their relative order.
pub open spec fn sorted_by_time<P>(s: Seq<UsageSampleView<P>>) -> Seq<UsageSampleView<P>>
    decreases s.len(),
{
    if s.len() == 0 {
        Seq::empty()
    } else {
        insert_by_time(sorted_by_time(s.drop_last()), s.last())
    }
}

/// Observation times never decrease along `s`.
pub open spec fn is_time_ordered<P>(s: Seq<UsageSampleView<P>>) -> bool {
    forall|i: int, j: int|
        0 <= i <= j < s.len() ==> #[trigger] s[i].observed_at_secs <= #[trigger] s[j].observed_at_secs
}

/// How many samples of `s` belong to the account `service` and tier `tier`.
pub open spec fn key_count<P>(s: Seq<UsageSampleView<P>>, service: Seq<char>, tier: Seq<char>) -> nat
    decreases s.len(),
{
    if s.len() == 0 {
        0
    } else {
        key_count(s.drop_last(), service, tier) + if s.last().service == service
            && s.last().tier == tier {
            1nat
        } else {
            0nat
        }
    }
}

/// Whether sample `i` of `s` is among the newest `MAX_SAMPLES_PER_TIER` of its
/// account/tier: fewer than that many samples of its account/tier follow it.
pub open spec fn among_newest<P>(s: Seq<UsageSampleView<P>>, i: int) -> bool {
    key_count(s.subrange(i + 1, s.len() as int), s[i].service, s[i].tier)
        < MAX_SAMPLES_PER_TIER
}

/// The samples of `s` whose flag is set, in their order.
pub open spec fn select<P>(s: Seq<UsageSampleView<P>>, flags: Seq<bool>) -> Seq<
    UsageSampleView<P>,
>
    decreases s.len(),
{
    if s.len() == 0 {
        Seq::empty()
    } else {
        let rest = select(s.drop_last(), flags.take(s.len() - 1));
        if flags[s.len() - 1] {
            rest.push(s.last())
        } else {
            rest
        }
    }
}

/// The flags that keep the newest samples of each account/tier.
pub open spec fn newest_flags<P>(s: Seq<UsageSampleView<P>>) -> Seq<bool> {
    Seq::new(s.len(), |i: int| among_newest(s, i))
}

/// `s` without the samples that are not among the newest of their account/tier.
pub open spec fn capped<P>(s: Seq<UsageSampleView<P>>) -> Seq<UsageSampleView<P>> {
    select(s, newest_flags(s))
}

/// The history after pruning at `now`: samples of the retention period,
/// stably sorted by observation time, at most `MAX_SAMPLES_PER_TIER` (the
/// newest) per account/tier.
pub open spec fn pruned<P>(s: Seq<UsageSampleView<P>>, now: i64) -> Seq<UsageSampleView<P>> {
    capped(sorted_by_time(observed_since(s, now - RETENTION_SECS)))
}

proof fn lemma_views_push<P>(s: Seq<UsageSample<P>>, x: UsageSample<P>)
    ensures
        sample_views(s.push(x)) == sample_views(s).push(x@),
{
    assert(sample_views(s.push(x)) =~= sample_views(s).push(x@));
}

proof fn lemma_views_insert<P>(s: Seq<UsageSample<P>>, p: int, x: UsageSample<P>)
    requires
        0 <= p <= s.len(),
    ensures
        sample_views(s.insert(p, x)) == sample_views(s).insert(p, x@),
{
    s.insert_ensures(p, x);
    sample_views(s).insert_ensures(p, x@);
    assert(sample_views(s.insert(p, x)) =~= sample_views(s).insert(p, x@));
}

proof fn lemma_views_take<P>(s: Seq<UsageSample<P>>, n: int)
    requires
        0 <= n <= s.len(),
    ensures
        sample_views(s.take(n)) == sample_views(s).take(n),
{
    assert(sample_views(s.take(n)) =~= sample_views(s).take(n));
}

proof fn lemma_insertion_point_suffix<P>(s: Seq<UsageSampleView<P>>, j: int, t: i64)
    requires
        0 <= j <= s.len(),
        forall|k: int| j <= k < s.len() ==> s[k].observed_at_secs > t,
    ensures
        insertion_point(s, t) == insertion_point(s.take(j), t),
    decreases s.len() - j,
{
    if j == s.len() {
        assert(s.take(j) =~= s);
    } else {
        let d = s.drop_last();
        assert(d.take(j) =~= s.take(j));
        lemma_insertion_point_suffix(d, j, t);
    }
}

proof fn lemma_insertion_point_bounds<P>(s: Seq<UsageSampleView<P>>, t: i64)
    ensures
        0 <= insertion_point(s, t) <= s.len(),
        forall|k: int| insertion_point(s, t) <= k < s.len() ==> s[k].observed_at_secs > t,
        insertion_point(s, t) > 0 ==> s[insertion_point(s, t) - 1].observed_at_secs <= t,
    decreases s.len(),
{
    if s.len() > 0 {
        let d = s.drop_last();
        lemma_insertion_point_bounds(d, t);
        if s.last().observed_at_secs > t {
            assert forall|k: int| insertion_point(s, t) <= k < s.len() implies s[k].observed_at_secs
                > t by {
                if k < d.len() {
                    assert(s[k] == d[k]);
                }
            }
        }
    }
}

/// Inserts `x` into the time-ordered `sorted` after every sample observed no later.
pub(crate) fn insert_sample<P>(sorted: &mut Vec<UsageSample<P>>, x: UsageSample<P>)
    ensures
        sample_views(final(sorted)@) == insert_by_time(sample_views(old(sorted)@), x@),
{
    let t = x.observed_at_secs;
    let mut j = sorted.len();
    while j > 0 && sorted[j - 1].observed_at_secs > t
        invariant
            j <= sorted@.len(),
            forall|k: int| j <= k < sorted@.len() ==> sorted@[k].observed_at_secs > t,
        decreases j,
    {
        j -= 1;
    }
    proof {
        let v = sample_views(sorted@);
        lemma_insertion_point_suffix(v, j as int, t);
        lemma_views_take(sorted@, j as int);
        if j > 0 {
            assert(v.take(j as int).drop_last() =~= v.take(j - 1));
        }
        lemma_views_insert(sorted@, j as int, x);
    }
    sorted.insert(j, x);
}

/// The samples of `samples` observed at or after `cutoff`, stably sorted by
/// observation time.
pub fn sort_retained<P: Copy>(samples: &Vec<UsageSample<P>>, cutoff: i64) -> (sorted: Vec<
    UsageSample<P>,
>)
    ensures
        sample_views(sorted@) == sorted_by_time(observed_since(sample_views(samples@), cutoff as int)),
{
    let mut sorted: Vec<UsageSample<P>> = Vec::new();
    let mut i: usize = 0;
    while i < samples.len()
        invariant
            i <= samples@.len(),
            sample_views(sorted@) == sorted_by_time(
                observed_since(sample_views(samples@.take(i as int)), cutoff as int),
            ),
        decreases samples@.len() - i,
    {
        proof {
            let prefix = samples@.take(i as int);
            lemma_views_push(prefix, samples@[i as int]);
            assert(samples@.take(i + 1) =~= prefix.push(samples@[i as int]));
            assert(sample_views(prefix).push(samples@[i as int]@).drop_last() =~= sample_views(
                prefix,
            ));
        }
        if samples[i].observed_at_secs >= cutoff {
            let x = samples[i].duplicate();
            insert_sample(&mut sorted, x);
            proof {
                let r = observed_since(sample_views(samples@.take(i as int)), cutoff as int);
                assert(r.push(x@).drop_last() =~= r);
            }
        }
        i += 1;
    }
    proof {
        assert(samples@.take(samples@.len() as int) =~= samples@);
    }
    sorted
}

proof fn lemma_key_count_append<P>(
    a: Seq<UsageSampleView<P>>,
    b: Seq<UsageSampleView<P>>,
    service: Seq<char>,
    tier: Seq<char>,
)
    ensures
        key_count(a + b, service, tier) == key_count(a, service, tier) + key_count(b, service, tier),
    decreases b.len(),
{
    if b.len() == 0 {
        assert(a + b =~= a);
    } else {
        assert((a + b).drop_last() =~= a + b.drop_last());
        lemma_key_count_append(a, b.drop_last(), service, tier);
    }
}

/// Counting over `s[i..n]` is counting `s[i]` and then over `s[i+1..n]`.
proof fn lemma_key_count_step<P>(s: Seq<UsageSampleView<P>>, i: int, service: Seq<char>, tier: Seq<char>)
    requires
        0 <= i < s.len(),
    ensures
        key_count(s.subrange(i, s.len() as int), service, tier) == key_count(
            s.subrange(i + 1, s.len() as int),
            service,
            tier,
        ) + if s[i].service == service && s[i].tier == tier {
            1nat
        } else {
            0nat
        },
{
    let one = seq![s[i]];
    assert(s.subrange(i, s.len() as int) =~= one + s.subrange(i + 1, s.len() as int));
    lemma_key_count_append(one, s.subrange(i + 1, s.len() as int), service, tier);
    assert(one.drop_last() =~= Seq::<UsageSampleView<P>>::empty());
    assert(key_count(one.drop_last(), service, tier) == 0);
}

/// Whether the account/tier key (`service`, `tier`) is in the key table.
spec fn listed(services: Seq<String>, tiers: Seq<String>, service: Seq<char>, tier: Seq<char>) -> bool {
    exists|k: int| 0 <= k < services.len() && #[trigger] services[k]@ == service && tiers[k]@ == tier
}

/// For every sample of `sorted`, whether it is among the newest of its account/tier.
fn newest_sample_flags<P>(sorted: &Vec<UsageSample<P>>) -> (flags: Vec<bool>)
    ensures
        flags@ == newest_flags(sample_views(sorted@)),
{
    let ghost v = sample_views(sorted@);
    let n = sorted.len();
    let mut flags: Vec<bool> = Vec::new();
    let mut f: usize = 0;
    while f < n
        invariant
            f <= n,
            n == sorted@.len(),
            flags@.len() == f,
        decreases n - f,
    {
        flags.push(false);
        f += 1;
    }
    let mut services: Vec<String> = Vec::new();
    let mut tiers: Vec<String> = Vec::new();
    let mut counts: Vec<usize> = Vec::new();
    let mut i = n;
    while i > 0
        invariant
            i <= n,
            n == sorted@.len(),
            v == sample_views(sorted@),
            flags@.len() == n,
            services@.len() == tiers@.len(),
            tiers@.len() == counts@.len(),
            forall|k: int|
                0 <= k < counts@.len() ==> #[trigger] counts@[k] == key_count(
                    v.subrange(i as int, n as int),
                    services@[k]@,
                    tiers@[k]@,
                ),
            forall|k1: int, k2: int|
                0 <= k1 < k2 < services@.len() ==> !(#[trigger] services@[k1]@ == #[trigger] services@[k2]@
                    && tiers@[k1]@ == tiers@[k2]@),
            forall|service: Seq<char>, tier: Seq<char>|
                !listed(services@, tiers@, service, tier) ==> #[trigger] key_count(
                    v.subrange(i as int, n as int),
                    service,
                    tier,
                ) == 0,
            forall|j: int| i <= j < n ==> #[trigger] flags@[j] == among_newest(v, j),
        decreases i,
    {
        i -= 1;
        let ghost sv = v[i as int].service;
        let ghost tv = v[i as int].tier;
        let mut k: usize = 0;
        while k < services.len()
            && !(services[k] == sorted[i].service && tiers[k] == sorted[i].tier)
            invariant
                k <= services@.len(),
                services@.len() == tiers@.len(),
                i < sorted@.len(),
                v == sample_views(sorted@),
                sv == v[i as int].service,
                tv == v[i as int].tier,
                forall|k1: int| 0 <= k1 < k ==> !(#[trigger] services@[k1]@ == sv && tiers@[k1]@ == tv),
            decreases services@.len() - k,
        {
            k += 1;
        }
        proof {
            lemma_key_count_step(v, i as int, sv, tv);
            assert forall|k2: int| 0 <= k2 < counts@.len() && k2 != k implies !(services@[k2]@ == sv
                && tiers@[k2]@ == tv) by {
                if k2 < k {
                } else if k < services@.len() {
                    assert(services@[k as int]@ == sv && tiers@[k as int]@ == tv);
                }
            }
        }
        let ghost old_services = services@;
        let ghost old_tiers = tiers@;
        if k == services.len() {
            proof {
                assert(!listed(services@, tiers@, sv, tv));
            }
            services.push(sorted[i].service.clone());
            tiers.push(sorted[i].tier.clone());
            counts.push(0);
        }
        proof {
            assert(counts@[k as int] == key_count(v.subrange(i + 1, n as int), sv, tv));
            assert(v.subrange(i + 1, n as int) =~= v.subrange(i as int + 1, v.len() as int));
        }
        let before = counts[k];
        flags.set(i, before < MAX_SAMPLES_PER_TIER);
        proof {
            assert(key_count(v.subrange(i as int, n as int), sv, tv) <= n - i) by {
                lemma_key_count_bound(v.subrange(i as int, n as int), sv, tv);
            }
        }
        counts.set(k, before + 1);
        proof {
            assert forall|k2: int| 0 <= k2 < counts@.len() implies #[trigger] counts@[k2]
                == key_count(v.subrange(i as int, n as int), services@[k2]@, tiers@[k2]@) by {
                lemma_key_count_step(v, i as int, services@[k2]@, tiers@[k2]@);
            }
            assert forall|service: Seq<char>, tier: Seq<char>|
                !listed(services@, tiers@, service, tier) implies #[trigger] key_count(
                v.subrange(i as int, n as int),
                service,
                tier,
            ) == 0 by {
                lemma_key_count_step(v, i as int, service, tier);
                if listed(old_services, old_tiers, service, tier) {
                    let k0 = choose|k0: int|
                        0 <= k0 < old_services.len() && #[trigger] old_services[k0]@ == service
                            && old_tiers[k0]@ == tier;
                    assert(services@[k0]@ == service && tiers@[k0]@ == tier);
                }
                assert(services@[k as int]@ == sv && tiers@[k as int]@ == tv);
                assert(key_count(v.subrange(i + 1, n as int), service, tier) == 0);
            }
        }
    }
    flags
}

proof fn lemma_key_count_bound<P>(s: Seq<UsageSampleView<P>>, service: Seq<char>, tier: Seq<char>)
    ensures
        key_count(s, service, tier) <= s.len(),
    decreases s.len(),
{
    if s.len() > 0 {
        lemma_key_count_bound(s.drop_last(), service, tier);
    }
}

/// The samples of `samples` whose flag is set, in their order.
fn select_flagged<P: Copy>(samples: &Vec<UsageSample<P>>, flags: &Vec<bool>) -> (kept: Vec<
    UsageSample<P>,
>)
    requires
        flags@.len() == samples@.len(),
    ensures
        sample_views(kept@) == select(sample_views(samples@), flags@),
{
    let mut kept: Vec<UsageSample<P>> = Vec::new();
    let mut i: usize = 0;
    while i < samples.len()
        invariant
            i <= samples@.len(),
            flags@.len() == samples@.len(),
            sample_views(kept@) == select(sample_views(samples@.take(i as int)), flags@.take(i as int)),
        decreases samples@.len() - i,
    {
        proof {
            let prefix = samples@.take(i as int);
            lemma_views_push(prefix, samples@[i as int]);
            assert(samples@.take(i + 1) =~= prefix.push(samples@[i as int]));
            assert(sample_views(prefix).push(samples@[i as int]@).drop_last() =~= sample_views(
                prefix,
            ));
            assert(flags@.take(i + 1).take(i as int) =~= flags@.take(i as int));
        }
        if flags[i] {
            let x = samples[i].duplicate();
            proof {
                lemma_views_push(kept@, x);
            }
            kept.push(x);
        }
        i += 1;
    }
    proof {
        assert(samples@.take(samples@.len() as int) =~= samples@);
        assert(flags@.take(samples@.len() as int) =~= flags@);
    }
    kept
}

/// Drops samples older than the retention period, sorts the rest by
/// observation time (stably) and keeps, of each account/tier, only the newest
/// `MAX_SAMPLES_PER_TIER` samples.
pub fn prune_history<P: Copy>(document: &mut UsageHistoryDocument<P>, now_secs: i64)
    requires
        now_secs >= i64::MIN + RETENTION_SECS,
    ensures
        final(document).version == old(document).version,
        sample_views(final(document).samples@) == pruned(
            sample_views(old(document).samples@),
            now_secs,
        ),
{
    let cutoff = now_secs - RETENTION_SECS;
    let sorted = sort_retained(&document.samples, cutoff);
    let flags = newest_sample_flags(&sorted);
    let kept = select_flagged(&sorted, &flags);
    document.samples = kept;
}

/// Every sample of `s` was observed at or after `cutoff`.
pub open spec fn all_since<P>(s: Seq<UsageSampleView<P>>, cutoff: int) -> bool {
    forall|i: int| 0 <= i < s.len() ==> #[trigger] s[i].observed_at_secs >= cutoff
}

/// Every sample of `s` was observed at or before `bound`.
spec fn all_until<P>(s: Seq<UsageSampleView<P>>, bound: int) -> bool {
    forall|i: int| 0 <= i < s.len() ==> #[trigger] s[i].observed_at_secs <= bound
}

proof fn lemma_observed_since_all<P>(s: Seq<UsageSampleView<P>>, cutoff: int)
    ensures
        all_since(observed_since(s, cutoff), cutoff),
        all_since(s, cutoff) ==> observed_since(s, cutoff) == s,
    decreases s.len(),
{
    if s.len() > 0 {
        lemma_observed_since_all(s.drop_last(), cutoff);
        if all_since(s, cutoff) {
            assert(all_since(s.drop_last(), cutoff));
            assert(s.drop_last().push(s.last()) =~= s);
        }
    }
}

proof fn lemma_insert_by_time_props<P>(s: Seq<UsageSampleView<P>>, x: UsageSampleView<P>, cutoff: int)
    ensures
        all_since(s, cutoff) && x.observed_at_secs >= cutoff ==> all_since(
            insert_by_time(s, x),
            cutoff,
        ),
        is_time_ordered(s) ==> is_time_ordered(insert_by_time(s, x)),
        forall|service: Seq<char>, tier: Seq<char>|
            #[trigger] key_count(insert_by_time(s, x), service, tier) == key_count(s, service, tier)
                + if x.service == service && x.tier == tier {
                1nat
            } else {
                0nat
            },
{
    let p = insertion_point(s, x.observed_at_secs);
    lemma_insertion_point_bounds(s, x.observed_at_secs);
    s.insert_ensures(p, x);
    let r = insert_by_time(s, x);
    if is_time_ordered(s) {
        assert forall|i: int, j: int| 0 <= i <= j < r.len() implies #[trigger] r[i].observed_at_secs
            <= #[trigger] r[j].observed_at_secs by {
            if j < p {
            } else if j == p {
                if i < p {
                    assert(s[i].observed_at_secs <= s[p - 1].observed_at_secs);
                }
            } else if i < p {
                assert(s[i].observed_at_secs <= s[j - 1].observed_at_secs);
            } else if i == p {
            } else {
                assert(s[i - 1].observed_at_secs <= s[j - 1].observed_at_secs);
            }
        }
    }
    if all_since(s, cutoff) && x.observed_at_secs >= cutoff {
        assert forall|i: int| 0 <= i < r.len() implies #[trigger] r[i].observed_at_secs >= cutoff by {
            if i < p {
            } else if i > p {
                assert(r[i] == s[i - 1]);
            }
        }
    }
    assert forall|service: Seq<char>, tier: Seq<char>|
        #[trigger] key_count(r, service, tier) == key_count(s, service, tier) + if x.service
            == service && x.tier == tier {
            1nat
        } else {
            0nat
        } by {
        let a = s.subrange(0, p);
        let b = s.subrange(p, s.len() as int);
        assert(s =~= a + b);
        lemma_key_count_append(a, b, service, tier);
        lemma_key_count_append(a.push(x), b, service, tier);
        assert(a.push(x).drop_last() =~= a);
    }
}

proof fn lemma_sorted_by_time_props<P>(s: Seq<UsageSampleView<P>>, cutoff: int)
    ensures
        is_time_ordered(sorted_by_time(s)),
        all_since(s, cutoff) ==> all_since(sorted_by_time(s), cutoff),
        forall|service: Seq<char>, tier: Seq<char>|
            #[trigger] key_count(sorted_by_time(s), service, tier) == key_count(s, service, tier),
        is_time_ordered(s) ==> sorted_by_time(s) == s,
    decreases s.len(),
{
    if s.len() > 0 {
        let d = s.drop_last();
        lemma_sorted_by_time_props(d, cutoff);
        lemma_insert_by_time_props(sorted_by_time(d), s.last(), cutoff);
        if all_since(s, cutoff) {
            assert(all_since(d, cutoff));
        }
        assert forall|service: Seq<char>, tier: Seq<char>|
            #[trigger] key_count(sorted_by_time(s), service, tier) == key_count(s, service, tier) by {
            assert(key_count(sorted_by_time(d), service, tier) == key_count(d, service, tier));
        }
        if is_time_ordered(s) {
            assert(is_time_ordered(d));
            lemma_insertion_point_bounds(d, s.last().observed_at_secs);
            if insertion_point(d, s.last().observed_at_secs) < d.len() {
                let p = insertion_point(d, s.last().observed_at_secs);
                assert(d[p] == s[p]);
            }
            assert(d.insert(d.len() as int, s.last()) =~= s);
        }
    } else {
        assert(s =~= Seq::<UsageSampleView<P>>::empty());
    }
}

proof fn lemma_select_props<P>(s: Seq<UsageSampleView<P>>, flags: Seq<bool>, cutoff: int, bound: int)
    requires
        flags.len() == s.len(),
    ensures
        all_since(s, cutoff) ==> all_since(select(s, flags), cutoff),
        all_until(s, bound) ==> all_until(select(s, flags), bound),
        is_time_ordered(s) ==> is_time_ordered(select(s, flags)),
        (forall|i: int| 0 <= i < flags.len() ==> #[trigger] flags[i]) ==> select(s, flags) == s,
    decreases s.len(),
{
    if s.len() > 0 {
        let d = s.drop_last();
        let f = flags.take(s.len() - 1);
        lemma_select_props(d, f, cutoff, bound);
        lemma_select_props(d, f, cutoff, s.last().observed_at_secs as int);
        if all_since(s, cutoff) {
            assert(all_since(d, cutoff));
        }
        if all_until(s, bound) {
            assert(all_until(d, bound));
        }
        if is_time_ordered(s) {
            assert(is_time_ordered(d));
            assert(all_until(d, s.last().observed_at_secs as int));
            let r = select(s, flags);
            let rd = select(d, f);
            if flags[s.len() - 1] {
                assert forall|i: int, j: int| 0 <= i <= j < r.len() implies #[trigger] r[i].observed_at_secs
                    <= #[trigger] r[j].observed_at_secs by {
                    if j < rd.len() {
                        assert(r[i] == rd[i] && r[j] == rd[j]);
                    } else if i < rd.len() {
                        assert(rd[i].observed_at_secs <= s.last().observed_at_secs);
                    }
                }
            }
        }
        if forall|i: int| 0 <= i < flags.len() ==> #[trigger] flags[i] {
            assert(flags[s.len() - 1]);
            assert(d.push(s.last()) =~= s);
        }
    } else {
        assert(s =~= Seq::<UsageSampleView<P>>::empty());
    }
}

/// How many samples of the key (`service`, `tier`) the first `len` samples of
/// `s` keep, when flagged by `newest_flags(s)`.
proof fn lemma_capped_count_prefix<P>(
    s: Seq<UsageSampleView<P>>,
    service: Seq<char>,
    tier: Seq<char>,
    len: int,
)
    requires
        0 <= len <= s.len(),
    ensures
        ({
            let kept = key_count(select(s.take(len), newest_flags(s).take(len)), service, tier);
            let later = key_count(s.subrange(len, s.len() as int), service, tier);
            if later >= MAX_SAMPLES_PER_TIER {
                kept == 0
            } else {
                kept <= MAX_SAMPLES_PER_TIER - later
            }
        }),
    decreases len,
{
    let flags = newest_flags(s);
    if len == 0 {
        assert(s.take(0) =~= Seq::<UsageSampleView<P>>::empty());
    } else {
        lemma_capped_count_prefix(s, service, tier, len - 1);
        let i = len - 1;
        lemma_key_count_step(s, i, service, tier);
        assert(s.take(len).drop_last() =~= s.take(i));
        assert(flags.take(len).take(i) =~= flags.take(i));
        let rest = select(s.take(i), flags.take(i));
        if flags[i] {
            assert(rest.push(s[i]).drop_last() =~= rest);
        }
    }
}

/// After capping, no account/tier has more than `MAX_SAMPLES_PER_TIER` samples;
/// when none had more before, capping removes nothing.
proof fn lemma_capped_props<P>(s: Seq<UsageSampleView<P>>)
    ensures
        forall|service: Seq<char>, tier: Seq<char>|
            #[trigger] key_count(capped(s), service, tier) <= MAX_SAMPLES_PER_TIER,
        (forall|service: Seq<char>, tier: Seq<char>|
            #[trigger] key_count(s, service, tier) <= MAX_SAMPLES_PER_TIER) ==> capped(s) == s,
{
    assert(s.take(s.len() as int) =~= s);
    assert(newest_flags(s).take(s.len() as int) =~= newest_flags(s));
    assert(s.subrange(s.len() as int, s.len() as int) =~= Seq::<UsageSampleView<P>>::empty());
    assert forall|service: Seq<char>, tier: Seq<char>|
        #[trigger] key_count(capped(s), service, tier) <= MAX_SAMPLES_PER_TIER by {
        lemma_capped_count_prefix(s, service, tier, s.len() as int);
    }
    if forall|service: Seq<char>, tier: Seq<char>|
        #[trigger] key_count(s, service, tier) <= MAX_SAMPLES_PER_TIER {
        let flags = newest_flags(s);
        assert forall|i: int| 0 <= i < flags.len() implies #[trigger] flags[i] by {
            let sv = s[i].service;
            let tv = s[i].tier;
            let a = s.take(i);
            let b = s.subrange(i, s.len() as int);
            assert(s =~= a + b);
            lemma_key_count_append(a, b, sv, tv);
            lemma_key_count_step(s, i, sv, tv);
            assert(key_count(s, sv, tv) <= MAX_SAMPLES_PER_TIER);
        }
        lemma_select_props(s, flags, 0, 0);
    }
}

/// After pruning at `now`, every sample was observed within the retention
/// period, the samples are in observation order, and no account/tier holds
/// more than `MAX_SAMPLES_PER_TIER` samples.
pub proof fn pruned_history_is_bounded<P>(samples: Seq<UsageSampleView<P>>, now: i64)
    ensures
        all_since(pruned(samples, now), now - RETENTION_SECS),
        is_time_ordered(pruned(samples, now)),
        forall|service: Seq<char>, tier: Seq<char>|
            #[trigger] key_count(pruned(samples, now), service, tier) <= MAX_SAMPLES_PER_TIER,
{
    let cutoff = now - RETENTION_SECS;
    let r = observed_since(samples, cutoff);
    let t = sorted_by_time(r);
    lemma_observed_since_all(samples, cutoff);
    lemma_sorted_by_time_props(r, cutoff);
    lemma_select_props(t, newest_flags(t), cutoff, 0);
    lemma_capped_props(t);
}

/// When no account/tier has more than `MAX_SAMPLES_PER_TIER` samples in the
/// retention period, pruning drops only the expired samples: the result is the
/// retained samples in observation order, with the same count per account/tier.
pub proof fn pruning_under_the_limit_drops_only_expired_samples<P>(
    samples: Seq<UsageSampleView<P>>,
    now: i64,
)
    requires
        forall|service: Seq<char>, tier: Seq<char>|
            #[trigger] key_count(observed_since(samples, now - RETENTION_SECS), service, tier)
                <= MAX_SAMPLES_PER_TIER,
    ensures
        pruned(samples, now) == sorted_by_time(observed_since(samples, now - RETENTION_SECS)),
        forall|service: Seq<char>, tier: Seq<char>|
            #[trigger] key_count(pruned(samples, now), service, tier) == key_count(
                observed_since(samples, now - RETENTION_SECS),
                service,
                tier,
            ),
{
    let r = observed_since(samples, now - RETENTION_SECS);
    lemma_sorted_by_time_props(r, 0);
    assert forall|service: Seq<char>, tier: Seq<char>|
        #[trigger] key_count(sorted_by_time(r), service, tier) <= MAX_SAMPLES_PER_TIER by {
        assert(key_count(sorted_by_time(r), service, tier) == key_count(r, service, tier));
    }
    lemma_capped_props(sorted_by_time(r));
}

/// Pruning a pruned history again at the same time changes nothing.
pub proof fn pruning_is_idempotent<P>(samples: Seq<UsageSampleView<P>>, now: i64)
    ensures
        pruned(pruned(samples, now), now) == pruned(samples, now),
{
    let q = pruned(samples, now);
    let cutoff = now - RETENTION_SECS;
    pruned_history_is_bounded(samples, now);
    lemma_observed_since_all(q, cutoff);
    lemma_sorted_by_time_props(q, cutoff);
    lemma_capped_props(q);
}

/// The samples of `s` that satisfy `keep`, in their order.
pub open spec fn samples_where<P>(
    s: Seq<UsageSampleView<P>>,
    keep: spec_fn(UsageSampleView<P>) -> bool,
) -> Seq<UsageSampleView<P>>
    decreases s.len(),
{
    if s.len() == 0 {
        Seq::empty()
    } else {
        let rest = samples_where(s.drop_last(), keep);
        if keep(s.last()) {
            rest.push(s.last())
        } else {
            rest
        }
    }
}

/// Whether a sample belongs to account `service`, tier `tier` and reset cycle `reset_at`.
pub open spec fn in_cycle<P>(
    x: UsageSampleView<P>,
    service: Seq<char>,
    tier: Seq<char>,
    reset_at: Seq<char>,
) -> bool {
    x.service == service && x.tier == tier && x.reset_at == reset_at
}

/// The samples of account `service` for the current reset cycle of `tier`;
/// none when the tier has no reset time.
pub open spec fn cycle_samples<P>(s: Seq<UsageSampleView<P>>, service: Seq<char>, tier: QuotaTierView<P>) -> Seq<
    UsageSampleView<P>,
> {
    match tier.resets_at {
        None => Seq::empty(),
        Some(reset_at) => samples_where(s, |x: UsageSampleView<P>| in_cycle(x, service, tier.name, reset_at)),
    }
}

pub(crate) proof fn lemma_views_take_push<P>(s: Seq<UsageSample<P>>, i: int)
    requires
        0 <= i < s.len(),
    ensures
        sample_views(s.take(i + 1)) == sample_views(s.take(i)).push(s[i]@),
        sample_views(s.take(i)).push(s[i]@).drop_last() == sample_views(s.take(i)),
        sample_views(s.take(i)).push(s[i]@).last() == s[i]@,
{
    lemma_views_push(s.take(i), s[i]);
    assert(s.take(i + 1) =~= s.take(i).push(s[i]));
    assert(sample_views(s.take(i)).push(s[i]@).drop_last() =~= sample_views(s.take(i)));
}

/// The samples of account `service` for the current reset cycle of `tier`.
pub fn samples_for_tier<P: Copy>(
    document: &UsageHistoryDocument<P>,
    service: &str,
    tier: &QuotaTier<P>,
) -> (samples: Vec<UsageSample<P>>)
    ensures
        sample_views(samples@) == cycle_samples(sample_views(document.samples@), service@, tier@),
{
    let mut out: Vec<UsageSample<P>> = Vec::new();
    let reset_at = match &tier.resets_at {
        Some(reset_at) => reset_at,
        None => return out,
    };
    let ghost keep = |x: UsageSampleView<P>| in_cycle(x, service@, tier.name@, reset_at@);
    let samples = &document.samples;
    let mut i: usize = 0;
    while i < samples.len()
        invariant
            i <= samples@.len(),
            sample_views(out@) == samples_where(sample_views(samples@.take(i as int)), keep),
            keep == (|x: UsageSampleView<P>| in_cycle(x, service@, tier.name@, reset_at@)),
        decreases samples@.len() - i,
    {
        proof {
            lemma_views_take_push(samples@, i as int);
        }
        let x = &samples[i];
        if same_text(x.service.as_str(), service) && x.tier == tier.name && x.reset_at == *reset_at {
            let copy = x.duplicate();
            proof {
                lemma_views_push(out@, copy);
            }
            out.push(copy);
        }
        i += 1;
    }
    proof {
        assert(samples@.take(samples@.len() as int) =~= samples@);
    }
    out
}

/// Whether a sample belongs to another account than `service`.
pub open spec fn of_other_account<P>(x: UsageSampleView<P>, service: Seq<char>) -> bool {
    x.service != service
}

/// Removes every sample of account `service`, keeping the others in order.
pub fn remove_service_samples<P: Copy>(document: &mut UsageHistoryDocument<P>, service: &str)
    ensures
        final(document).version == old(document).version,
        sample_views(final(document).samples@) == samples_where(
            sample_views(old(document).samples@),
            |x: UsageSampleView<P>| of_other_account(x, service@),
        ),
{
    let ghost keep = |x: UsageSampleView<P>| of_other_account(x, service@);
    let mut out: Vec<UsageSample<P>> = Vec::new();
    let mut i: usize = 0;
    while i < document.samples.len()
        invariant
            i <= document.samples@.len(),
            document.samples@ == old(document).samples@,
            document.version == old(document).version,
            sample_views(out@) == samples_where(sample_views(document.samples@.take(i as int)), keep),
            keep == (|x: UsageSampleView<P>| of_other_account(x, service@)),
        decreases document.samples@.len() - i,
    {
        proof {
            lemma_views_take_push(document.samples@, i as int);
        }
        if !same_text(document.samples[i].service.as_str(), service) {
            let copy = document.samples[i].duplicate();
            proof {
                lemma_views_push(out@, copy);
            }
            out.push(copy);
        }
        i += 1;
    }
    proof {
        assert(document.samples@.take(document.samples@.len() as int) =~= document.samples@);
    }
    document.samples = out;
}

/// Whether a sample is not the observation of account `service`, tier `tier`
/// and reset cycle `reset_at` made at `now`.
pub open spec fn not_that_observation<P>(
    x: UsageSampleView<P>,
    service: Seq<char>,
    tier: Seq<char>,
    reset_at: Seq<char>,
    now: i64,
) -> bool {
    !(in_cycle(x, service, tier, reset_at) && x.observed_at_secs == now)
}

/// `s` with the observation of `tier` at `now` by account `service`, replacing
/// an earlier record of the same observation; unchanged when the tier has no
/// reset time.
pub open spec fn with_tier_sample<P>(
    s: Seq<UsageSampleView<P>>,
    service: Seq<char>,
    tier: QuotaTierView<P>,
    now: i64,
) -> Seq<UsageSampleView<P>> {
    match tier.resets_at {
        None => s,
        Some(reset_at) => samples_where(
            s,
            |x: UsageSampleView<P>| not_that_observation(x, service, tier.name, reset_at, now),
        ).push(
            UsageSampleView {
                service,
                tier: tier.name,
                reset_at,
                observed_at_secs: now,
                utilization: tier.utilization,
            },
        ),
    }
}

/// `s` with the observations of all `tiers` at `now`, in tier order.
pub open spec fn with_samples<P>(
    s: Seq<UsageSampleView<P>>,
    service: Seq<char>,
    tiers: Seq<QuotaTierView<P>>,
    now: i64,
) -> Seq<UsageSampleView<P>>
    decreases tiers.len(),
{
    if tiers.len() == 0 {
        s
    } else {
        with_tier_sample(with_samples(s, service, tiers.drop_last(), now), service, tiers.last(), now)
    }
}

/// Records the observation of one tier at `now`, replacing an earlier record of
/// the same observation.
fn record_tier_sample<P: Copy>(
    samples: &mut Vec<UsageSample<P>>,
    service: &str,
    tier: &QuotaTier<P>,
    now_secs: i64,
)
    ensures
        sample_views(final(samples)@) == with_tier_sample(
            sample_views(old(samples)@),
            service@,
            tier@,
            now_secs,
        ),
{
    let reset_at = match &tier.resets_at {
        Some(reset_at) => reset_at,
        None => return ,
    };
    let ghost keep = |x: UsageSampleView<P>|
        not_that_observation(x, service@, tier.name@, reset_at@, now_secs);
    let mut out: Vec<UsageSample<P>> = Vec::new();
    let mut i: usize = 0;
    while i < samples.len()
        invariant
            i <= samples@.len(),
            samples@ == old(samples)@,
            sample_views(out@) == samples_where(sample_views(samples@.take(i as int)), keep),
            keep == (|x: UsageSampleView<P>|
                not_that_observation(x, service@, tier.name@, reset_at@, now_secs)),
        decreases samples@.len() - i,
    {
        proof {
            lemma_views_take_push(samples@, i as int);
        }
        let x = &samples[i];
        if !(same_text(x.service.as_str(), service) && x.tier == tier.name && x.reset_at == *reset_at
            && x.observed_at_secs == now_secs) {
            let copy = x.duplicate();
            proof {
                lemma_views_push(out@, copy);
            }
            out.push(copy);
        }
        i += 1;
    }
    proof {
        assert(samples@.take(samples@.len() as int) =~= samples@);
    }
    let sample = UsageSample {
        service: service.to_string(),
        tier: tier.name.clone(),
        reset_at: reset_at.clone(),
        observed_at_secs: now_secs,
        utilization: tier.utilization,
    };
    proof {
        lemma_views_push(out@, sample);
    }
    out.push(sample);
    *samples = out;
}

/// How many samples of `s` satisfy `pred`.
pub open spec fn count_where<P>(s: Seq<UsageSampleView<P>>, pred: spec_fn(UsageSampleView<P>) -> bool) -> nat
    decreases s.len(),
{
    if s.len() == 0 {
        0
    } else {
        count_where(s.drop_last(), pred) + if pred(s.last()) {
            1nat
        } else {
            0nat
        }
    }
}

/// Whether sample `x` records the observation of account `service`, tier
/// `tier` and reset cycle `reset_at` made at `time`.
pub open spec fn is_observation<P>(
    x: UsageSampleView<P>,
    service: Seq<char>,
    tier: Seq<char>,
    reset_at: Seq<char>,
    time: i64,
) -> bool {
    in_cycle(x, service, tier, reset_at) && x.observed_at_secs == time
}

/// How many samples of `s` record the same observation.
pub open spec fn observation_count<P>(
    s: Seq<UsageSampleView<P>>,
    service: Seq<char>,
    tier: Seq<char>,
    reset_at: Seq<char>,
    time: i64,
) -> nat {
    count_where(s, |x: UsageSampleView<P>| is_observation(x, service, tier, reset_at, time))
}

proof fn lemma_count_push<P>(
    s: Seq<UsageSampleView<P>>,
    x: UsageSampleView<P>,
    pred: spec_fn(UsageSampleView<P>) -> bool,
)
    ensures
        count_where(s.push(x), pred) == count_where(s, pred) + if pred(x) {
            1nat
        } else {
            0nat
        },
{
    assert(s.push(x).drop_last() =~= s);
}

proof fn lemma_count_append<P>(
    a: Seq<UsageSampleView<P>>,
    b: Seq<UsageSampleView<P>>,
    pred: spec_fn(UsageSampleView<P>) -> bool,
)
    ensures
        count_where(a + b, pred) == count_where(a, pred) + count_where(b, pred),
    decreases b.len(),
{
    if b.len() == 0 {
        assert(a + b =~= a);
    } else {
        assert((a + b).drop_last() =~= a + b.drop_last());
        lemma_count_append(a, b.drop_last(), pred);
    }
}

/// Sorting by time keeps every count.
proof fn lemma_count_sorted<P>(s: Seq<UsageSampleView<P>>, pred: spec_fn(UsageSampleView<P>) -> bool)
    ensures
        count_where(sorted_by_time(s), pred) == count_where(s, pred),
    decreases s.len(),
{
    if s.len() > 0 {
        let d = s.drop_last();
        let t = sorted_by_time(d);
        let x = s.last();
        lemma_count_sorted(d, pred);
        let p = insertion_point(t, x.observed_at_secs);
        lemma_insertion_point_bounds(t, x.observed_at_secs);
        let a = t.subrange(0, p);
        let b = t.subrange(p, t.len() as int);
        assert(t =~= a + b);
        assert(t.insert(p, x) =~= a.push(x) + b);
        lemma_count_append(a, b, pred);
        lemma_count_append(a.push(x), b, pred);
        lemma_count_push(a, x, pred);
    }
}

/// Dropping expired samples never adds to a count.
proof fn lemma_count_observed_since<P>(
    s: Seq<UsageSampleView<P>>,
    cutoff: int,
    pred: spec_fn(UsageSampleView<P>) -> bool,
)
    ensures
        count_where(observed_since(s, cutoff), pred) <= count_where(s, pred),
    decreases s.len(),
{
    if s.len() > 0 {
        let rest = observed_since(s.drop_last(), cutoff);
        lemma_count_observed_since(s.drop_last(), cutoff, pred);
        lemma_count_push(rest, s.last(), pred);
    }
}

/// Selecting samples never adds to a count.
proof fn lemma_count_select<P>(
    s: Seq<UsageSampleView<P>>,
    flags: Seq<bool>,
    pred: spec_fn(UsageSampleView<P>) -> bool,
)
    ensures
        count_where(select(s, flags), pred) <= count_where(s, pred),
    decreases s.len(),
{
    if s.len() > 0 {
        let rest = select(s.drop_last(), flags.take(s.len() - 1));
        lemma_count_select(s.drop_last(), flags.take(s.len() - 1), pred);
        lemma_count_push(rest, s.last(), pred);
    }
}

/// Filtering by `keep` keeps the count of samples that `keep` always keeps,
/// and leaves none of those it always drops.
proof fn lemma_count_where_filtered<P>(
    s: Seq<UsageSampleView<P>>,
    keep: spec_fn(UsageSampleView<P>) -> bool,
    pred: spec_fn(UsageSampleView<P>) -> bool,
)
    ensures
        (forall|x: UsageSampleView<P>| #[trigger] pred(x) ==> keep(x)) ==> count_where(
            samples_where(s, keep),
            pred,
        ) == count_where(s, pred),
        (forall|x: UsageSampleView<P>| #[trigger] pred(x) ==> !keep(x)) ==> count_where(
            samples_where(s, keep),
            pred,
        ) == 0,
    decreases s.len(),
{
    if s.len() > 0 {
        let rest = samples_where(s.drop_last(), keep);
        lemma_count_where_filtered(s.drop_last(), keep, pred);
        lemma_count_push(rest, s.last(), pred);
    }
}

/// After recording the observation of `tier`, its observation is recorded
/// exactly once, and the records of every other observation are unchanged.
proof fn lemma_tier_sample_counts<P>(
    s: Seq<UsageSampleView<P>>,
    service: Seq<char>,
    tier: QuotaTierView<P>,
    now: i64,
    other_service: Seq<char>,
    other_tier: Seq<char>,
    other_reset: Seq<char>,
    other_time: i64,
)
    requires
        tier.resets_at is Some,
    ensures
        ({
            let r = with_tier_sample(s, service, tier, now);
            let same = other_service == service && other_tier == tier.name && other_reset
                == tier.resets_at.unwrap() && other_time == now;
            observation_count(r, other_service, other_tier, other_reset, other_time) == if same {
                1nat
            } else {
                observation_count(s, other_service, other_tier, other_reset, other_time)
            }
        }),
{
    let reset_at = tier.resets_at.unwrap();
    let keep = |x: UsageSampleView<P>| not_that_observation(x, service, tier.name, reset_at, now);
    let pred = |x: UsageSampleView<P>|
        is_observation(x, other_service, other_tier, other_reset, other_time);
    let kept = samples_where(s, keep);
    let x0 = UsageSampleView {
        service,
        tier: tier.name,
        reset_at,
        observed_at_secs: now,
        utilization: tier.utilization,
    };
    lemma_count_where_filtered(s, keep, pred);
    lemma_count_push(kept, x0, pred);
    if other_service == service && other_tier == tier.name && other_reset == reset_at && other_time
        == now {
        assert forall|x: UsageSampleView<P>| #[trigger] pred(x) implies !keep(x) by {}
    } else {
        assert forall|x: UsageSampleView<P>| #[trigger] pred(x) implies keep(x) by {}
    }
}

/// After recording all `tiers`, the observation at `now` of each tier with a
/// reset time is recorded exactly once.
proof fn lemma_samples_counts<P>(
    s: Seq<UsageSampleView<P>>,
    service: Seq<char>,
    tiers: Seq<QuotaTierView<P>>,
    now: i64,
    i: int,
)
    requires
        0 <= i < tiers.len(),
        tiers[i].resets_at is Some,
    ensures
        observation_count(
            with_samples(s, service, tiers, now),
            service,
            tiers[i].name,
            tiers[i].resets_at.unwrap(),
            now,
        ) == 1,
    decreases tiers.len(),
{
    let d = tiers.drop_last();
    let before = with_samples(s, service, d, now);
    let last = tiers.last();
    if i < tiers.len() - 1 {
        lemma_samples_counts(s, service, d, now, i);
        assert(d[i] == tiers[i]);
    }
    match last.resets_at {
        Some(_) => {
            lemma_tier_sample_counts(
                before,
                service,
                last,
                now,
                service,
                tiers[i].name,
                tiers[i].resets_at.unwrap(),
                now,
            );
        },
        None => {},
    }
}

/// Recording a query replaces duplicates: right after the observations of a
/// query at `now` are added, each tier with a reset time has exactly one record
/// of its observation, and after pruning at most one.
pub proof fn recording_keeps_one_sample_per_observation<P>(
    samples: Seq<UsageSampleView<P>>,
    service: Seq<char>,
    tiers: Seq<QuotaTierView<P>>,
    now: i64,
)
    ensures
        forall|i: int|
            0 <= i < tiers.len() && #[trigger] tiers[i].resets_at is Some ==> observation_count(
                with_samples(samples, service, tiers, now),
                service,
                tiers[i].name,
                tiers[i].resets_at.unwrap(),
                now,
            ) == 1 && observation_count(
                pruned(with_samples(samples, service, tiers, now), now),
                service,
                tiers[i].name,
                tiers[i].resets_at.unwrap(),
                now,
            ) <= 1,
{
    assert forall|i: int| 0 <= i < tiers.len() && #[trigger] tiers[i].resets_at is Some implies observation_count(
        with_samples(samples, service, tiers, now),
        service,
        tiers[i].name,
        tiers[i].resets_at.unwrap(),
        now,
    ) == 1 && observation_count(
        pruned(with_samples(samples, service, tiers, now), now),
        service,
        tiers[i].name,
        tiers[i].resets_at.unwrap(),
        now,
    ) <= 1 by {
        let w = with_samples(samples, service, tiers, now);
        let reset_at = tiers[i].resets_at.unwrap();
        let pred = |x: UsageSampleView<P>| is_observation(x, service, tiers[i].name, reset_at, now);
        lemma_samples_counts(samples, service, tiers, now, i);
        let r = observed_since(w, now - RETENTION_SECS);
        let t = sorted_by_time(r);
        lemma_count_observed_since(w, now - RETENTION_SECS, pred);
        lemma_count_sorted(r, pred);
        lemma_count_select(t, newest_flags(t), pred);
    }
}

/// How many samples of the key (`service`, `tier`) the first `len` samples of
/// `s` keep when flagged by `newest_flags(s)`: those followed by fewer than
/// `MAX_SAMPLES_PER_TIER` samples of the key.
proof fn lemma_capped_count_exact<P>(
    s: Seq<UsageSampleView<P>>,
    service: Seq<char>,
    tier: Seq<char>,
    len: int,
)
    requires
        0 <= len <= s.len(),
    ensures
        ({
            let n = key_count(s, service, tier) as int;
            let c = key_count(s.take(len), service, tier) as int;
            let kept = key_count(select(s.take(len), newest_flags(s).take(len)), service, tier) as int;
            if n > MAX_SAMPLES_PER_TIER {
                kept == if c > n - MAX_SAMPLES_PER_TIER {
                    c - (n - MAX_SAMPLES_PER_TIER)
                } else {
                    0
                }
            } else {
                kept == c
            }
        }),
    decreases len,
{
    let flags = newest_flags(s);
    if len == 0 {
        assert(s.take(0) =~= Seq::<UsageSampleView<P>>::empty());
    } else {
        let i = len - 1;
        lemma_capped_count_exact(s, service, tier, i);
        assert(s.take(len).drop_last() =~= s.take(i));
        assert(flags.take(len).take(i) =~= flags.take(i));
        let a = s.take(len);
        let b = s.subrange(len, s.len() as int);
        assert(s =~= a + b);
        lemma_key_count_append(a, b, service, tier);
        let rest = select(s.take(i), flags.take(i));
        if flags[i] {
            assert(rest.push(s[i]).drop_last() =~= rest);
        }
    }
}

/// Pruning keeps part of the history: no sample is added, and no sample
/// occurs more often than before (whatever property is counted).
pub proof fn pruning_keeps_a_sub_multiset<P>(samples: Seq<UsageSampleView<P>>, now: i64)
    ensures
        forall|pred: spec_fn(UsageSampleView<P>) -> bool|
            #[trigger] count_where(pruned(samples, now), pred) <= count_where(samples, pred),
{
    assert forall|pred: spec_fn(UsageSampleView<P>) -> bool|
        #[trigger] count_where(pruned(samples, now), pred) <= count_where(samples, pred) by {
        let r = observed_since(samples, now - RETENTION_SECS);
        let t = sorted_by_time(r);
        lemma_count_observed_since(samples, now - RETENTION_SECS, pred);
        lemma_count_sorted(r, pred);
        lemma_count_select(t, newest_flags(t), pred);
    }
}

/// Pruning keeps, of each account/tier, as many retained samples as the cap
/// allows: all of them up to `MAX_SAMPLES_PER_TIER`, else that many (the
/// newest, in time order, as `among_newest` picks them).
pub proof fn pruning_keeps_the_newest_per_tier<P>(samples: Seq<UsageSampleView<P>>, now: i64)
    ensures
        forall|service: Seq<char>, tier: Seq<char>|
            #[trigger] key_count(pruned(samples, now), service, tier) == if key_count(
                observed_since(samples, now - RETENTION_SECS),
                service,
                tier,
            ) > MAX_SAMPLES_PER_TIER {
                MAX_SAMPLES_PER_TIER as nat
            } else {
                key_count(observed_since(samples, now - RETENTION_SECS), service, tier)
            },
{
    let r = observed_since(samples, now - RETENTION_SECS);
    let t = sorted_by_time(r);
    lemma_sorted_by_time_props(r, 0);
    assert(t.take(t.len() as int) =~= t);
    assert(newest_flags(t).take(t.len() as int) =~= newest_flags(t));
    assert forall|service: Seq<char>, tier: Seq<char>|
        #[trigger] key_count(pruned(samples, now), service, tier) == if key_count(r, service, tier)
            > MAX_SAMPLES_PER_TIER {
            MAX_SAMPLES_PER_TIER as nat
        } else {
            key_count(r, service, tier)
        } by {
        lemma_capped_count_exact(t, service, tier, t.len() as int);
        assert(key_count(t, service, tier) == key_count(r, service, tier));
    }
}

/// Records the observations of a successful quota query of account `service`
/// at `now_secs` and prunes the history. Utilization values are stored as
/// given. A failed query records nothing and leaves the history unchanged.
pub fn record_quota_samples_in<P: Copy>(
    document: &mut UsageHistoryDocument<P>,
    service: &str,
    quota: &ServiceQuota<P>,
    now_secs: i64,
)
    requires
        now_secs >= i64::MIN + RETENTION_SECS,
    ensures
        final(document).version == old(document).version,
        !quota.success ==> final(document).samples@ == old(document).samples@,
        quota.success ==> sample_views(final(document).samples@) == pruned(
            with_samples(sample_views(old(document).samples@), service@, quota@.tiers, now_secs),
            now_secs,
        ),
{
    if !quota.success {
        return ;
    }
    let mut t: usize = 0;
    while t < quota.tiers.len()
        invariant
            t <= quota.tiers@.len(),
            quota.success,
            document.version == old(document).version,
            sample_views(document.samples@) == with_samples(
                sample_views(old(document).samples@),
                service@,
                quota@.tiers.take(t as int),
                now_secs,
            ),
        decreases quota.tiers@.len() - t,
    {
        record_tier_sample(&mut document.samples, service, &quota.tiers[t], now_secs);
        proof {
            assert(quota@.tiers.take(t + 1).drop_last() =~= quota@.tiers.take(t as int));
        }
        t += 1;
    }
    proof {
        assert(quota@.tiers.take(quota.tiers@.len() as int) =~= quota@.tiers);
    }
    prune_history(document, now_secs);
}

} // verus!

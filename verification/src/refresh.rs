//! The decisions of a usage refresh: which services to query, and what the
//! query results change.
use crate::estimator::{event_views, record_weekly_saturation_events, recorded_events};
use crate::tray::{contains_text, lists};
use crate::types::{AppRuntimeState, QuotaSaturationEvent, QuotaSaturationEventView, ServiceQuota};
use vstd::prelude::*;

verus! {

/// Which services a refresh queries, Kimi then Codex: those that are
/// monitored.
pub fn services_to_query(selected_services: &[String]) -> (query: (bool, bool))
    ensures
        query.0 == lists(selected_services@, "kimi"@),
        query.1 == lists(selected_services@, "codex"@),
{
    (contains_text(selected_services, "kimi"), contains_text(selected_services, "codex"))
}

/// The events after recording a query result, if there is one.
pub open spec fn events_after<P>(
    events: Seq<QuotaSaturationEventView<P>>,
    quota: Option<ServiceQuota<P>>,
    at_limit: Seq<bool>,
    now_secs: i64,
) -> Seq<QuotaSaturationEventView<P>> {
    match quota {
        Some(q) => recorded_events(events, q@.service, q@, at_limit, now_secs),
        None => events,
    }
}

/// Whether `at_limit` has one entry per tier of the query result.
pub open spec fn limits_fit<P>(quota: Option<ServiceQuota<P>>, at_limit: Seq<bool>) -> bool {
    quota matches Some(q) ==> at_limit.len() == q.tiers@.len()
}

/// Finishes a refresh with the results of the queries (none for a service
/// that was not queried): records the saturation events of the Kimi result,
/// then of the Codex result, and keeps both results as the current quotas.
/// `kimi_at_limit[i]` and `codex_at_limit[i]` tell whether tier `i` of each
/// result is at its limit.
pub fn finish_refresh<P: Copy>(
    events: &mut Vec<QuotaSaturationEvent<P>>,
    runtime: &mut AppRuntimeState<P>,
    kimi_quota: Option<ServiceQuota<P>>,
    kimi_at_limit: &[bool],
    codex_quota: Option<ServiceQuota<P>>,
    codex_at_limit: &[bool],
    now_secs: i64,
)
    requires
        limits_fit(kimi_quota, kimi_at_limit@),
        limits_fit(codex_quota, codex_at_limit@),
    ensures
        event_views(final(events)@) == events_after(
            events_after(event_views(old(events)@), kimi_quota, kimi_at_limit@, now_secs),
            codex_quota,
            codex_at_limit@,
            now_secs,
        ),
        final(runtime).kimi_quota == kimi_quota,
        final(runtime).codex_quota == codex_quota,
{
    if let Some(quota) = &kimi_quota {
        record_weekly_saturation_events(quota, kimi_at_limit, events, now_secs);
    }
    if let Some(quota) = &codex_quota {
        record_weekly_saturation_events(quota, codex_at_limit, events, now_secs);
    }
    runtime.kimi_quota = kimi_quota;
    runtime.codex_quota = codex_quota;
}

} // verus!

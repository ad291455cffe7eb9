use quota_control::estimator::{
    is_weekly_tier, matching_saturation_event, observation_span, observed_points, overall_state,
    overall_state_for_services, record_weekly_saturation_events,
    record_weekly_saturation_events_for, saturating_sub, saturation_timing, select_recent_points,
    select_stable_short_points, state_rank, tier_timeline, window_seconds, worst_known_state,
    ResetTimeline, MAX_SATURATION_EVENTS,
};
use quota_control::types::{
    QuotaSaturationEvent, QuotaTier, ServiceQuota, SufficiencyState, UsageChartPoint, UsageSample,
};

fn iso_after(now: i64, seconds: i64) -> String {
    chrono::DateTime::from_timestamp(now + seconds, 0)
        .unwrap()
        .to_rfc3339()
}

fn tier(name: &str, utilization: f64, reset_in: Option<i64>, now: i64) -> QuotaTier<f64> {
    QuotaTier {
        name: name.to_string(),
        utilization,
        resets_at: reset_in.map(|seconds| iso_after(now, seconds)),
        used: None,
        limit: None,
        remaining: None,
    }
}

fn at_limit(quota: &ServiceQuota<f64>) -> Vec<bool> {
    quota.tiers.iter().map(|t| !(t.utilization < 100.0)).collect()
}

fn point(observed_at_secs: i64, utilization: f64) -> UsageChartPoint<f64> {
    UsageChartPoint {
        observed_at_secs,
        utilization,
    }
}

#[test]
fn records_weekly_saturation_once_per_reset() {
    let now = 1_700_000_000;
    let quota = ServiceQuota {
        service: "kimi".to_string(),
        display_name: "Kimi Code".to_string(),
        success: true,
        tiers: vec![
            tier("five_hour", 100.0, Some(10_000), now),
            tier("weekly_limit", 100.0, Some(302_400), now),
        ],
        error: None,
        queried_at: None,
        credential_valid: true,
    };
    let mut events = Vec::new();

    record_weekly_saturation_events(&quota, &at_limit(&quota), &mut events, now);
    record_weekly_saturation_events(&quota, &at_limit(&quota), &mut events, now + 60);

    assert_eq!(events.len(), 1);
    assert_eq!(events[0].tier, "weekly_limit");
    assert_eq!(events[0].reached_at_secs, now);
}

#[test]
fn records_saturation_independently_for_accounts_on_the_same_service() {
    let now = 1_700_000_000;
    let quota = ServiceQuota {
        service: "codex".to_string(),
        display_name: "Codex".to_string(),
        success: true,
        tiers: vec![tier("seven_day", 100.0, Some(302_400), now)],
        error: None,
        queried_at: None,
        credential_valid: true,
    };
    let mut events = Vec::new();

    record_weekly_saturation_events_for("account-one", &quota, &at_limit(&quota), &mut events, now);
    record_weekly_saturation_events_for(
        "account-two",
        &quota,
        &at_limit(&quota),
        &mut events,
        now + 60,
    );

    assert_eq!(events.len(), 2);
    assert_eq!(events[0].service, "account-one");
    assert_eq!(events[1].service, "account-two");
}

#[test]
fn saturation_is_not_recorded_below_the_limit_or_for_failed_queries() {
    let now = 1_700_000_000;
    let mut quota = ServiceQuota {
        service: "codex".to_string(),
        display_name: "Codex".to_string(),
        success: true,
        tiers: vec![tier("seven_day", 99.5, Some(302_400), now)],
        error: None,
        queried_at: None,
        credential_valid: true,
    };
    let mut events = Vec::new();
    record_weekly_saturation_events(&quota, &at_limit(&quota), &mut events, now);
    assert!(events.is_empty());
    quota.tiers[0].utilization = 100.0;
    quota.success = false;
    record_weekly_saturation_events(&quota, &at_limit(&quota), &mut events, now);
    assert!(events.is_empty());
}

#[test]
fn only_the_newest_saturation_events_are_kept() {
    let now = 1_700_000_000;
    let mut events: Vec<QuotaSaturationEvent<f64>> = Vec::new();
    for k in 0..(MAX_SATURATION_EVENTS as i64 + 3) {
        let quota = ServiceQuota {
            service: format!("account-{k}"),
            display_name: "Codex".to_string(),
            success: true,
            tiers: vec![tier("seven_day", 100.0, Some(302_400), now)],
            error: None,
            queried_at: None,
            credential_valid: true,
        };
        record_weekly_saturation_events(&quota, &at_limit(&quota), &mut events, now + k);
    }
    assert_eq!(events.len(), MAX_SATURATION_EVENTS);
    assert_eq!(events[0].service, "account-3");
    assert_eq!(events[MAX_SATURATION_EVENTS - 1].service, "account-22");
}

#[test]
fn matching_events_need_the_account_tier_and_reset_cycle() {
    let now = 1_700_000_000;
    let weekly = tier("seven_day", 100.0, Some(302_400), now);
    let event = QuotaSaturationEvent {
        service: "codex".to_string(),
        tier: "seven_day".to_string(),
        reset_at: weekly.resets_at.clone().unwrap(),
        reached_at_secs: now - 5,
        utilization_at: 100.0,
    };
    let other_cycle = QuotaSaturationEvent {
        reset_at: iso_after(now, 1),
        ..event.clone()
    };
    let events = vec![other_cycle, event.clone()];
    assert_eq!(matching_saturation_event(&weekly, "codex", &events), Some(&event));
    assert_eq!(matching_saturation_event(&weekly, "kimi", &events), None);
    let no_reset = tier("seven_day", 100.0, None, now);
    assert_eq!(matching_saturation_event(&no_reset, "codex", &events), None);
}

#[test]
fn overall_state_chooses_worst_known_tier() {
    let now = 1_700_000_000;
    let tiers = vec![
        tier("five_hour", 20.0, Some(10_000), now),
        tier("seven_day", 80.0, Some(302_400), now),
    ];
    // The estimator finds the five-hour tier enough and the weekly tier not
    // enough at these utilizations.
    let estimate = |tier: &QuotaTier<f64>, _now: i64| {
        if tier.name == "five_hour" {
            SufficiencyState::Enough
        } else {
            SufficiencyState::NotEnough
        }
    };

    assert_eq!(overall_state(&tiers, now, estimate), SufficiencyState::NotEnough);
}

#[test]
fn unknown_states_only_win_when_nothing_is_known() {
    assert_eq!(worst_known_state(&[]), SufficiencyState::Unknown);
    assert_eq!(
        worst_known_state(&[SufficiencyState::Unknown, SufficiencyState::Tight]),
        SufficiencyState::Tight
    );
    assert_eq!(
        worst_known_state(&[
            SufficiencyState::NotEnough,
            SufficiencyState::Enough,
            SufficiencyState::Unknown
        ]),
        SufficiencyState::NotEnough
    );
    assert_eq!(state_rank(SufficiencyState::Unknown), 0);
    assert_eq!(state_rank(SufficiencyState::NotEnough), 3);
}

#[test]
fn overall_state_for_services_skips_failed_and_missing_services() {
    let now = 1_700_000_000;
    let ok = ServiceQuota {
        service: "kimi".to_string(),
        display_name: "Kimi Code".to_string(),
        success: true,
        tiers: vec![tier("five_hour", 10.0, Some(100), now)],
        error: None,
        queried_at: None,
        credential_valid: true,
    };
    let failed = ServiceQuota {
        service: "codex".to_string(),
        success: false,
        tiers: vec![tier("seven_day", 100.0, Some(100), now)],
        ..ok.clone()
    };
    let estimate = |tier: &QuotaTier<f64>, _now: i64| {
        if tier.utilization >= 100.0 {
            SufficiencyState::NotEnough
        } else {
            SufficiencyState::Tight
        }
    };
    assert_eq!(
        overall_state_for_services(&[Some(ok), Some(failed), None], now, estimate),
        SufficiencyState::Tight
    );
    assert_eq!(
        overall_state_for_services::<f64, _>(&[None, None], now, estimate),
        SufficiencyState::Unknown
    );
}

#[test]
fn tier_windows_and_weekly_names() {
    assert_eq!(window_seconds("five_hour"), Some(18_000));
    assert_eq!(window_seconds("weekly_limit"), Some(604_800));
    assert_eq!(window_seconds("seven_day"), Some(604_800));
    assert_eq!(window_seconds("monthly"), None);
    assert!(is_weekly_tier("seven_day"));
    assert!(!is_weekly_tier("five_hour"));
}

#[test]
fn timelines_place_a_tier_in_its_cycle() {
    let now = 1_700_000_000;
    assert_eq!(
        tier_timeline(&tier("five_hour", 1.0, Some(10_000), now), now),
        ResetTimeline::Window {
            reset_at: now + 10_000,
            reset_in_secs: 10_000,
            window_secs: 18_000,
            elapsed_secs: 8_000
        }
    );
    assert_eq!(
        tier_timeline(&tier("five_hour", 1.0, Some(-5), now), now),
        ResetTimeline::Expired { reset_at: now - 5 }
    );
    assert_eq!(
        tier_timeline(&tier("monthly", 1.0, Some(60), now), now),
        ResetTimeline::NoWindow {
            reset_at: now + 60,
            reset_in_secs: 60
        }
    );
    assert_eq!(
        tier_timeline(&tier("five_hour", 1.0, None, now), now),
        ResetTimeline::Unknown
    );
    let mut unreadable = tier("five_hour", 1.0, None, now);
    unreadable.resets_at = Some("tomorrow".to_string());
    assert_eq!(tier_timeline(&unreadable, now), ResetTimeline::Unknown);
}

#[test]
fn saturation_timing_is_held_within_the_window() {
    assert_eq!(saturation_timing(1_000_000, 604_800, 900_000), (504_800, 100_000));
    assert_eq!(saturation_timing(1_000_000, 604_800, 0), (1, 1_000_000));
    assert_eq!(saturation_timing(1_000_000, 604_800, 2_000_000), (604_800, 0));
    assert_eq!(saturating_sub(i64::MIN, 1), i64::MIN);
    assert_eq!(saturating_sub(5, 7), -2);
}

#[test]
fn chart_points_keep_one_point_per_time_in_the_window() {
    let samples = vec![
        UsageSample {
            service: "a".to_string(),
            tier: "seven_day".to_string(),
            reset_at: "r".to_string(),
            observed_at_secs: 30,
            utilization: 3.0,
        },
        UsageSample {
            service: "a".to_string(),
            tier: "seven_day".to_string(),
            reset_at: "r".to_string(),
            observed_at_secs: 10,
            utilization: 1.0,
        },
        UsageSample {
            service: "a".to_string(),
            tier: "seven_day".to_string(),
            reset_at: "r".to_string(),
            observed_at_secs: 10,
            utilization: 1.5,
        },
        UsageSample {
            service: "a".to_string(),
            tier: "seven_day".to_string(),
            reset_at: "other".to_string(),
            observed_at_secs: 20,
            utilization: 9.0,
        },
        UsageSample {
            service: "a".to_string(),
            tier: "seven_day".to_string(),
            reset_at: "r".to_string(),
            observed_at_secs: 99,
            utilization: 9.0,
        },
    ];
    let points = observed_points(&samples, "seven_day", "r", 0, 50);
    assert_eq!(points, vec![point(10, 1.0), point(30, 3.0)]);
    assert_eq!(observation_span(&points), Some(20));
    assert_eq!(observation_span::<f64>(&[]), None);
}

#[test]
fn recent_points_need_enough_samples_over_enough_time() {
    let now = 100_000;
    let points = vec![point(now - 7_200, 1.0), point(now - 3_000, 2.0), point(now - 1_000, 3.0), point(now, 4.0)];
    assert_eq!(
        select_recent_points(&points, now, 1),
        Some(vec![point(now - 3_000, 2.0), point(now - 1_000, 3.0), point(now, 4.0)])
    );
    assert_eq!(select_recent_points(&points[2..], now, 1), None);
    let close = vec![point(now - 600, 1.0), point(now - 300, 2.0), point(now, 3.0)];
    assert_eq!(select_recent_points(&close, now, 1), None);
}

#[test]
fn stable_short_points_check_count_span_age_and_gaps() {
    let now = 100_000;
    let five: Vec<_> = (0..5).map(|k| point(now - 1_200 + k * 300, k as f64)).collect();
    assert_eq!(select_stable_short_points(&five, now), Some(five.clone()));
    assert_eq!(select_stable_short_points(&five[1..], now), None);
    let ahead: Vec<_> = (0..5).map(|k| point(now - 1_100 + k * 300, k as f64)).collect();
    assert_eq!(select_stable_short_points(&ahead, now), None);
    let gap = vec![
        point(now - 1_500, 0.0),
        point(now - 800, 1.0),
        point(now - 500, 2.0),
        point(now - 200, 3.0),
        point(now, 4.0),
    ];
    assert_eq!(select_stable_short_points(&gap, now), None);
}

use quota_control::history::{
    prune_history, record_quota_samples_in, remove_service_samples, samples_for_tier,
    UsageHistoryDocument, MAX_SAMPLES_PER_TIER,
};
use quota_control::types::{QuotaTier, ServiceQuota, UsageSample};

const NOW: i64 = 1_700_000_000;

fn quota(reset_at: &str) -> ServiceQuota<f64> {
    ServiceQuota {
        service: "codex".to_string(),
        display_name: "Codex".to_string(),
        success: true,
        tiers: vec![
            QuotaTier {
                name: "five_hour".to_string(),
                utilization: 12.0,
                resets_at: Some(reset_at.to_string()),
                used: None,
                limit: None,
                remaining: None,
            },
            QuotaTier {
                name: "seven_day".to_string(),
                utilization: 42.0,
                resets_at: Some(reset_at.to_string()),
                used: None,
                limit: None,
                remaining: None,
            },
        ],
        error: None,
        queried_at: Some(NOW * 1_000),
        credential_valid: true,
    }
}

fn sample(service: &str, reset_at: &str, observed_at_secs: i64, utilization: f64) -> UsageSample<f64> {
    UsageSample {
        service: service.to_string(),
        tier: "seven_day".to_string(),
        reset_at: reset_at.to_string(),
        observed_at_secs,
        utilization,
    }
}

#[test]
fn record_round_trip_deduplicates_the_same_observation() {
    let mut document = UsageHistoryDocument::new();

    record_quota_samples_in(&mut document, "account-a", &quota("2026-07-30T00:00:00Z"), NOW);
    record_quota_samples_in(&mut document, "account-a", &quota("2026-07-30T00:00:00Z"), NOW);

    assert_eq!(document.samples.len(), 2);
    assert!(document
        .samples
        .iter()
        .all(|sample| sample.service == "account-a"));
}

#[test]
fn a_failed_query_records_nothing() {
    let mut document = UsageHistoryDocument::new();
    let mut failed = quota("2026-07-30T00:00:00Z");
    failed.success = false;
    record_quota_samples_in(&mut document, "account-a", &failed, NOW);
    assert!(document.samples.is_empty());
}

#[test]
fn a_newer_observation_of_a_tier_is_kept_beside_the_older_one() {
    let mut document = UsageHistoryDocument::new();
    record_quota_samples_in(&mut document, "account-a", &quota("2026-07-30T00:00:00Z"), NOW);
    record_quota_samples_in(&mut document, "account-a", &quota("2026-07-30T00:00:00Z"), NOW + 60);
    assert_eq!(document.samples.len(), 4);
    assert_eq!(document.samples[0].observed_at_secs, NOW);
    assert_eq!(document.samples[3].observed_at_secs, NOW + 60);
}

#[test]
fn matching_samples_are_isolated_by_service_tier_and_reset_cycle() {
    let current_reset = "2026-07-30T00:00:00Z";
    let document = UsageHistoryDocument {
        version: 1,
        samples: vec![
            sample("account-a", current_reset, NOW, 42.0),
            sample("account-a", "2026-07-23T00:00:00Z", NOW - 86_400, 99.0),
            sample("account-b", current_reset, NOW, 12.0),
        ],
    };
    let tier = quota(current_reset).tiers.pop().unwrap();

    let samples = samples_for_tier(&document, "account-a", &tier);

    assert_eq!(samples.len(), 1);
    assert_eq!(samples[0].utilization, 42.0);
}

#[test]
fn pruning_bounds_each_service_tier_and_removes_old_samples() {
    let mut document = UsageHistoryDocument {
        version: 1,
        samples: (0..2_600)
            .map(|offset| UsageSample {
                service: "account-a".to_string(),
                tier: "seven_day".to_string(),
                reset_at: "2026-07-30T00:00:00Z".to_string(),
                observed_at_secs: NOW - 2_599 + offset,
                utilization: offset as f64 / 100.0,
            })
            .chain(std::iter::once(UsageSample {
                service: "account-a".to_string(),
                tier: "seven_day".to_string(),
                reset_at: "2026-07-20T00:00:00Z".to_string(),
                observed_at_secs: NOW - 9 * 86_400,
                utilization: 90.0,
            }))
            .collect(),
    };

    prune_history(&mut document, NOW);

    assert_eq!(document.samples.len(), 2_500);
    assert!(document
        .samples
        .iter()
        .all(|sample| sample.observed_at_secs >= NOW - 8 * 86_400));
}

#[test]
fn pruning_keeps_the_newest_samples_in_time_order() {
    let mut document = UsageHistoryDocument {
        version: 1,
        samples: vec![
            sample("b", "r", NOW - 10, 3.0),
            sample("a", "r", NOW - 30, 1.0),
            sample("a", "r", NOW - 8 * 86_400, 0.5),
            sample("a", "r", NOW - 20, 2.0),
        ],
    };
    prune_history(&mut document, NOW);
    let times: Vec<i64> = document.samples.iter().map(|s| s.observed_at_secs).collect();
    assert_eq!(times, vec![NOW - 8 * 86_400, NOW - 30, NOW - 20, NOW - 10]);
    let once = document.clone();
    prune_history(&mut document, NOW);
    assert_eq!(document, once);
    assert_eq!(MAX_SAMPLES_PER_TIER, 2_500);
}

#[test]
fn removing_service_preserves_other_accounts() {
    let mut document = UsageHistoryDocument {
        version: 1,
        samples: ["account-a", "account-b"]
            .into_iter()
            .map(|service| sample(service, "2026-07-30T00:00:00Z", NOW, 42.0))
            .collect(),
    };

    remove_service_samples(&mut document, "account-a");

    assert_eq!(document.samples.len(), 1);
    assert_eq!(document.samples[0].service, "account-b");
}

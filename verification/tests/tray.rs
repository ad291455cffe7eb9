use quota_control::tray::{
    age_text, countdown_text, service_summary, service_title, service_tray_enabled,
    status_bar_has_content, tier_countdown, weekly_state,
};
use quota_control::types::{
    QuotaEstimate, QuotaTier, ServiceQuota, StatusBarDisplayConfig, SufficiencyState,
    TierEstimateView,
};

fn estimate(tier: &str, state: SufficiencyState) -> TierEstimateView<f64> {
    let mut estimate = QuotaEstimate::unknown();
    estimate.state = state;
    TierEstimateView {
        tier: tier.to_string(),
        estimate,
    }
}

fn pct(p: &f64) -> String {
    format!("{p:.0}")
}

fn plain_tier(name: &str, utilization: f64) -> QuotaTier<f64> {
    QuotaTier {
        name: name.to_string(),
        utilization,
        resets_at: None,
        used: None,
        limit: None,
        remaining: None,
    }
}

fn weekly_quota() -> Option<ServiceQuota<f64>> {
    Some(ServiceQuota {
        service: "codex".to_string(),
        display_name: "Codex".to_string(),
        success: true,
        tiers: vec![plain_tier("seven_day", 70.0)],
        error: None,
        queried_at: None,
        credential_valid: true,
    })
}

#[test]
fn tray_title_uses_weekly_utilization_and_estimator_state() {
    let quota = weekly_quota();

    assert_eq!(
        service_title(
            &quota,
            &[estimate("seven_day", SufficiencyState::NotEnough)],
            &StatusBarDisplayConfig::default(),
            pct,
        ),
        "w70% 不够"
    );
}

#[test]
fn tray_title_keeps_five_hour_utilization_when_the_service_provides_it() {
    let quota = Some(ServiceQuota {
        service: "kimi".to_string(),
        display_name: "Kimi Code".to_string(),
        success: true,
        tiers: vec![plain_tier("five_hour", 12.0), plain_tier("weekly_limit", 70.0)],
        error: None,
        queried_at: None,
        credential_valid: true,
    });

    assert_eq!(
        service_title(
            &quota,
            &[estimate("weekly_limit", SufficiencyState::Enough)],
            &StatusBarDisplayConfig::default(),
            pct,
        ),
        "h12% 够"
    );
}

#[test]
fn tray_title_supports_independent_percentage_and_state_switches() {
    let quota = weekly_quota();
    let estimates = [estimate("seven_day", SufficiencyState::Unknown)];

    assert_eq!(
        service_title(
            &quota,
            &estimates,
            &StatusBarDisplayConfig {
                show_icon: true,
                show_percentage: true,
                show_state_text: false,
            },
            pct,
        ),
        "w70%"
    );
    assert_eq!(
        service_title(
            &quota,
            &estimates,
            &StatusBarDisplayConfig {
                show_icon: true,
                show_percentage: false,
                show_state_text: true,
            },
            pct,
        ),
        "未知"
    );
    assert_eq!(
        service_title(
            &quota,
            &estimates,
            &StatusBarDisplayConfig {
                show_icon: true,
                show_percentage: false,
                show_state_text: false,
            },
            pct,
        ),
        ""
    );
}

#[test]
fn tray_requires_at_least_one_visible_display_element() {
    assert!(status_bar_has_content(&StatusBarDisplayConfig::default()));
    assert!(!status_bar_has_content(&StatusBarDisplayConfig {
        show_icon: false,
        show_percentage: false,
        show_state_text: false,
    }));
}

#[test]
fn failed_or_missing_quotas_show_dashes() {
    let mut failed = weekly_quota().unwrap();
    failed.success = false;
    assert_eq!(
        service_title(&Some(failed), &[], &StatusBarDisplayConfig::default(), pct),
        "w--% 未知"
    );
    assert_eq!(
        service_summary::<f64, _>(&None, &[], pct),
        "h--% · w--% · 未知"
    );
    assert_eq!(
        service_summary(
            &weekly_quota(),
            &[
                estimate("five_hour", SufficiencyState::NotEnough),
                estimate("seven_day", SufficiencyState::Tight)
            ],
            pct
        ),
        "h--% · w70% · 偏紧"
    );
    assert_eq!(weekly_state::<f64>(&[]), "未知");
}

#[test]
fn a_service_tray_needs_selection_and_content() {
    let kimi = vec!["kimi".to_string()];
    let both = vec!["kimi".to_string(), "codex".to_string()];
    let shown = StatusBarDisplayConfig::default();
    let hidden = StatusBarDisplayConfig {
        show_icon: false,
        show_percentage: false,
        show_state_text: false,
    };
    assert!(service_tray_enabled(&both, &kimi, &shown, "kimi"));
    assert!(!service_tray_enabled(&both, &kimi, &shown, "codex"));
    assert!(!service_tray_enabled(&kimi, &both, &shown, "codex"));
    assert!(!service_tray_enabled(&both, &both, &hidden, "kimi"));
}

#[test]
fn countdowns_and_ages_use_the_largest_units() {
    assert_eq!(countdown_text(0), "");
    assert_eq!(countdown_text(-5), "");
    assert_eq!(countdown_text(59), "0m");
    assert_eq!(countdown_text(3_599), "59m");
    assert_eq!(countdown_text(3_600 * 5 + 120), "5h2m");
    assert_eq!(countdown_text(86_400 * 3 + 7_200), "3d2h");
    assert_eq!(age_text(0), "0s ago");
    assert_eq!(age_text(61), "1m ago");
    assert_eq!(age_text(7_300), "2h ago");
    let now = 1_700_000_000;
    let mut tier = plain_tier("five_hour", 1.0);
    tier.resets_at = Some("2023-11-14T22:13:20Z".to_string());
    assert_eq!(tier_countdown(&tier, now - 3_660), "1h1m");
    assert_eq!(tier_countdown(&tier, now), "");
    tier.resets_at = Some("soon".to_string());
    assert_eq!(tier_countdown(&tier, now), "");
}

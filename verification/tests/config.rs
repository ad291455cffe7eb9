use quota_control::config::{
    legacy_account_list, migrate_config, stored_form, AppConfig, StoredConfig, CONFIG_VERSION,
};
use quota_control::types::{
    CredentialRef, CredentialSettings, MonitorAccount, ProxySettings, QuotaEventStore, ServiceKind,
    StatusBarDisplayConfig,
};

fn stored(version: u32, selected: &[&str]) -> StoredConfig<f64> {
    StoredConfig {
        version,
        selected_services: selected.iter().map(|s| s.to_string()).collect(),
        status_bar_services: None,
        first_run_completed: true,
        proxy: ProxySettings::default(),
        credentials: CredentialSettings::default(),
        quota_events: QuotaEventStore::new(),
        accounts: None,
        status_bar_display: StatusBarDisplayConfig::default(),
    }
}

#[test]
fn legacy_config_migrates_to_status_bar_defaults() {
    let (config, migrated) = migrate_config(stored(1, &["kimi", "codex"]));

    assert!(migrated);
    assert_eq!(config.version, 5);
    assert_eq!(config.status_bar_services, vec!["kimi", "codex"]);
    assert_eq!(config.accounts.len(), 2);
    assert_eq!(config.accounts[0].id, "legacy-kimi");
    assert_eq!(config.accounts[0].service, ServiceKind::Kimi);
    assert_eq!(config.accounts[1].id, "legacy-codex");
    assert_eq!(config.accounts[1].service, ServiceKind::Codex);
    assert_eq!(config.proxy.kimi.auto_ports, vec![7897, 7890]);
    assert!(config.quota_events.weekly_saturation.is_empty());
}

#[test]
fn version_four_preserves_an_intentionally_empty_account_list() {
    let mut old = stored(4, &[]);
    old.status_bar_services = Some(Vec::new());
    old.accounts = Some(Vec::new());
    let (config, migrated) = migrate_config(old);

    assert!(migrated);
    assert_eq!(config.version, 5);
    assert!(config.accounts.is_empty());
    assert!(config.status_bar_display.show_icon);
    assert!(config.status_bar_display.show_percentage);
    assert!(config.status_bar_display.show_state_text);
}

#[test]
fn current_configs_keep_their_version_and_lists() {
    let mut current = stored(CONFIG_VERSION, &["codex"]);
    current.status_bar_services = Some(vec!["kimi".to_string()]);
    let account = MonitorAccount {
        id: "a".to_string(),
        service: ServiceKind::Codex,
        display_name: "Work".to_string(),
        provider_identity_hint: None,
        credential_ref: CredentialRef::LiveCodex,
        enabled: false,
        created_at: 3,
    };
    current.accounts = Some(vec![account.clone()]);
    let (config, migrated) = migrate_config(current);
    assert!(!migrated);
    assert_eq!(config.version, CONFIG_VERSION);
    assert_eq!(config.status_bar_services, vec!["kimi"]);
    assert_eq!(config.accounts, vec![account]);
    let (newer, rewritten) = migrate_config(stored(9, &[]));
    assert!(!rewritten);
    assert_eq!(newer.version, 9);
}

#[test]
fn legacy_accounts_follow_the_selected_services() {
    let codex_only = legacy_account_list(&["codex".to_string()]);
    assert_eq!(codex_only.len(), 1);
    assert_eq!(codex_only[0].id, "legacy-codex");
    assert_eq!(codex_only[0].credential_ref, CredentialRef::LiveCodex);
    assert!(legacy_account_list(&[]).is_empty());
}

#[test]
fn the_default_configuration_monitors_both_services() {
    let config: AppConfig<f64> = AppConfig::default();
    assert_eq!(config.version, 2);
    assert_eq!(config.selected_services, vec!["kimi", "codex"]);
    assert_eq!(config.status_bar_services, vec!["kimi", "codex"]);
    assert!(!config.first_run_completed);
    assert!(config.accounts.is_empty());
}

#[test]
fn an_unreadable_configuration_is_replaced_by_a_migrated_default() {
    let (config, migrated) = migrate_config(stored_form(AppConfig::<f64>::default()));
    assert!(migrated);
    assert_eq!(config.version, CONFIG_VERSION);
    assert_eq!(config.status_bar_services, vec!["kimi", "codex"]);
    assert!(config.accounts.is_empty());
}

#[test]
fn version_four_migration_drops_legacy_tool_selection() {
    // A version-4 file listing only Codex, with an empty account list; the
    // legacy tool selection it held has no place in the configuration.
    let mut old = stored(4, &["codex"]);
    old.status_bar_services = Some(vec!["codex".to_string()]);
    old.accounts = Some(Vec::new());
    let (config, migrated) = migrate_config(old);

    assert!(migrated);
    assert_eq!(config.version, 5);
    assert_eq!(config.selected_services, vec!["codex"]);
    assert_eq!(config.status_bar_services, vec!["codex"]);
    assert!(config.accounts.is_empty());
    assert!(config.status_bar_display.show_icon);
    assert!(config.status_bar_display.show_percentage);
    assert!(config.status_bar_display.show_state_text);
}

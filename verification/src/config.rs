//! The application configuration and its migration from older versions.
use crate::accounts::account_views;
use crate::text::same_text;
use crate::types::{
    CredentialRef, CredentialRefView, CredentialSettings, KimiCredentialBackend, MonitorAccount,
    MonitorAccountView, ProxySettings, QuotaEventStore, ServiceKind, StatusBarDisplayConfig,
};
use vstd::prelude::*;

verus! {

/// The configuration version this library writes.
pub const CONFIG_VERSION: u32 = 5;

/// The application configuration.
#[derive(Debug, Clone, PartialEq)]
pub struct AppConfig<P> {
    pub version: u32,
    pub selected_services: Vec<String>,
    pub status_bar_services: Vec<String>,
    pub first_run_completed: bool,
    pub proxy: ProxySettings,
    pub credentials: CredentialSettings,
    pub quota_events: QuotaEventStore<P>,
    pub accounts: Vec<MonitorAccount>,
    pub status_bar_display: StatusBarDisplayConfig,
}

/// The path of the entry `name` inside the directory `dir`.
pub uninterp spec fn joined_path(dir: Seq<char>, name: Seq<char>) -> Seq<char>;

/// Calls `std::path::Path::join` and reads the path back as text (lossless,
/// since both parts are UTF-8). The result is named by `joined_path`.
#[verifier::external_body]
pub(crate) fn join_path(dir: &str, name: &str) -> (path: String)
    ensures
        path@ == joined_path(dir@, name@),
{
    std::path::Path::new(dir).join(name).to_string_lossy().into_owned()
}

/// The configuration file inside the configuration directory.
pub fn config_path(config_dir: &str) -> (path: String)
    ensures
        path@ == joined_path(config_dir@, "config.json"@),
{
    join_path(config_dir, "config.json")
}

/// The views of a list of strings.
pub open spec fn text_views(v: Seq<String>) -> Seq<Seq<char>> {
    v.map_values(|s: String| s@)
}

/// Both services.
fn both_services() -> (services: Vec<String>)
    ensures
        text_views(services@) == seq!["kimi"@, "codex"@],
{
    let mut services = Vec::new();
    services.push(String::from_str("kimi"));
    services.push(String::from_str("codex"));
    proof {
        assert(text_views(services@) =~= seq!["kimi"@, "codex"@]);
    }
    services
}

impl<P> Default for AppConfig<P> {
    /// The configuration of a first run: both services monitored and shown,
    /// automatic proxies, the keychain for the Kimi key, no events, no
    /// accounts, every status-bar element shown.
    fn default() -> (config: Self)
        ensures
            config.version == 2,
            text_views(config.selected_services@) == seq!["kimi"@, "codex"@],
            text_views(config.status_bar_services@) == seq!["kimi"@, "codex"@],
            !config.first_run_completed,
            config.proxy.kimi.proxy_url is None && config.proxy.codex.proxy_url is None,
            config.proxy.kimi.auto_ports@ == seq![7897u16, 7890u16],
            config.proxy.codex.auto_ports@ == seq![7897u16, 7890u16],
            config.credentials.kimi_backend == KimiCredentialBackend::Keychain,
            config.quota_events.weekly_saturation@.len() == 0,
            config.accounts@.len() == 0,
            config.status_bar_display.show_icon,
            config.status_bar_display.show_percentage,
            config.status_bar_display.show_state_text,
    {
        AppConfig {
            version: 2,
            selected_services: both_services(),
            status_bar_services: both_services(),
            first_run_completed: false,
            proxy: ProxySettings::default(),
            credentials: CredentialSettings::default(),
            quota_events: QuotaEventStore::new(),
            accounts: Vec::new(),
            status_bar_display: StatusBarDisplayConfig::default(),
        }
    }
}

/// A configuration as stored, possibly by an older version: the status-bar
/// service list and the account list may be absent.
#[derive(Debug, Clone, PartialEq)]
pub struct StoredConfig<P> {
    pub version: u32,
    pub selected_services: Vec<String>,
    pub status_bar_services: Option<Vec<String>>,
    pub first_run_completed: bool,
    pub proxy: ProxySettings,
    pub credentials: CredentialSettings,
    pub quota_events: QuotaEventStore<P>,
    pub accounts: Option<Vec<MonitorAccount>>,
    pub status_bar_display: StatusBarDisplayConfig,
}

/// A configuration as it is stored: both lists present.
pub fn stored_form<P>(config: AppConfig<P>) -> (stored: StoredConfig<P>)
    ensures
        stored.version == config.version,
        stored.selected_services == config.selected_services,
        stored.status_bar_services == Some(config.status_bar_services),
        stored.first_run_completed == config.first_run_completed,
        stored.proxy == config.proxy,
        stored.credentials == config.credentials,
        stored.quota_events == config.quota_events,
        stored.accounts == Some(config.accounts),
        stored.status_bar_display == config.status_bar_display,
{
    StoredConfig {
        version: config.version,
        selected_services: config.selected_services,
        status_bar_services: Some(config.status_bar_services),
        first_run_completed: config.first_run_completed,
        proxy: config.proxy,
        credentials: config.credentials,
        quota_events: config.quota_events,
        accounts: Some(config.accounts),
        status_bar_display: config.status_bar_display,
    }
}

/// The account that stands for the single Kimi login of older versions.
pub open spec fn legacy_kimi_account() -> MonitorAccountView {
    MonitorAccountView {
        id: "legacy-kimi"@,
        service: ServiceKind::Kimi,
        display_name: "Kimi Code"@,
        provider_identity_hint: None,
        credential_ref: CredentialRefView::LegacyKimi,
        enabled: true,
        created_at: 0,
    }
}

/// The account that stands for the single Codex login of older versions.
pub open spec fn legacy_codex_account() -> MonitorAccountView {
    MonitorAccountView {
        id: "legacy-codex"@,
        service: ServiceKind::Codex,
        display_name: "Codex"@,
        provider_identity_hint: None,
        credential_ref: CredentialRefView::LiveCodex,
        enabled: true,
        created_at: 0,
    }
}

/// The accounts older versions monitored: the Kimi login when Kimi was
/// selected, then the Codex login when Codex was.
pub open spec fn legacy_accounts(selected: Seq<String>) -> Seq<MonitorAccountView> {
    let kimi = if crate::tray::lists(selected, "kimi"@) {
        seq![legacy_kimi_account()]
    } else {
        Seq::empty()
    };
    let codex = if crate::tray::lists(selected, "codex"@) {
        seq![legacy_codex_account()]
    } else {
        Seq::empty()
    };
    kimi + codex
}

/// The accounts older versions monitored.
pub fn legacy_account_list(selected: &[String]) -> (accounts: Vec<MonitorAccount>)
    ensures
        account_views(accounts@) == legacy_accounts(selected@),
{
    let mut accounts: Vec<MonitorAccount> = Vec::new();
    if crate::tray::contains_text(selected, "kimi") {
        accounts.push(
            MonitorAccount {
                id: String::from_str("legacy-kimi"),
                service: ServiceKind::Kimi,
                display_name: String::from_str("Kimi Code"),
                provider_identity_hint: None,
                credential_ref: CredentialRef::LegacyKimi,
                enabled: true,
                created_at: 0,
            },
        );
    }
    if crate::tray::contains_text(selected, "codex") {
        accounts.push(
            MonitorAccount {
                id: String::from_str("legacy-codex"),
                service: ServiceKind::Codex,
                display_name: String::from_str("Codex"),
                provider_identity_hint: None,
                credential_ref: CredentialRef::LiveCodex,
                enabled: true,
                created_at: 0,
            },
        );
    }
    proof {
        assert(account_views(accounts@) =~= legacy_accounts(selected@));
    }
    accounts
}

/// A copy of a list of strings.
fn copy_strings(v: &Vec<String>) -> (copy: Vec<String>)
    ensures
        text_views(copy@) == text_views(v@),
{
    let mut copy: Vec<String> = Vec::new();
    let mut i: usize = 0;
    while i < v.len()
        invariant
            i <= v@.len(),
            text_views(copy@) == text_views(v@.take(i as int)),
        decreases v@.len() - i,
    {
        proof {
            assert(text_views(copy@.push(v@[i as int])) =~= text_views(copy@).push(v@[i as int]@));
            assert(text_views(v@.take(i + 1)) =~= text_views(v@.take(i as int)).push(v@[i as int]@));
        }
        copy.push(v[i].clone());
        i += 1;
    }
    proof {
        assert(v@.take(v@.len() as int) =~= v@);
    }
    copy
}

/// Brings a stored configuration to the current version and tells whether it
/// changed version (and so must be written back). A missing status-bar
/// service list becomes the monitored services; a missing account list
/// becomes the accounts of the older single-login versions. Everything else is
/// kept.
pub fn migrate_config<P>(stored: StoredConfig<P>) -> (migrated: (AppConfig<P>, bool))
    ensures
        migrated.1 == (stored.version < CONFIG_VERSION),
        migrated.0.version == if stored.version < CONFIG_VERSION {
            CONFIG_VERSION
        } else {
            stored.version
        },
        text_views(migrated.0.selected_services@) == text_views(stored.selected_services@),
        text_views(migrated.0.status_bar_services@) == match stored.status_bar_services {
            Some(list) => text_views(list@),
            None => text_views(stored.selected_services@),
        },
        account_views(migrated.0.accounts@) == match stored.accounts {
            Some(list) => account_views(list@),
            None => legacy_accounts(stored.selected_services@),
        },
        migrated.0.first_run_completed == stored.first_run_completed,
        migrated.0.proxy == stored.proxy,
        migrated.0.credentials == stored.credentials,
        migrated.0.quota_events == stored.quota_events,
        migrated.0.status_bar_display == stored.status_bar_display,
{
    let was_older = stored.version < CONFIG_VERSION;
    let version = if was_older {
        CONFIG_VERSION
    } else {
        stored.version
    };
    let status_bar_services = match stored.status_bar_services {
        Some(list) => list,
        None => copy_strings(&stored.selected_services),
    };
    let accounts = match stored.accounts {
        Some(list) => list,
        None => legacy_account_list(stored.selected_services.as_slice()),
    };
    (
        AppConfig {
            version,
            selected_services: stored.selected_services,
            status_bar_services,
            first_run_completed: stored.first_run_completed,
            proxy: stored.proxy,
            credentials: stored.credentials,
            quota_events: stored.quota_events,
            accounts,
            status_bar_display: stored.status_bar_display,
        },
        was_older,
    )
}

} // verus!

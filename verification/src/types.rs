//! Data types shared by the quota, proxy, credential and launcher logic.
//!
//! Types that carry a utilization percentage are generic over `P`, the
//! representation of a percentage; the library only moves such values
//! around and never computes with them.
use vstd::prelude::*;

verus! {

/// The view of an optional string.
pub open spec fn opt_str(o: Option<String>) -> Option<Seq<char>> {
    match o {
        Some(s) => Some(s@),
        None => None,
    }
}

/// Whether a quota is expected to last until its window resets.
#[derive(Debug, Clone, Copy, PartialEq, Eq, Structural)]
pub enum SufficiencyState {
    Enough,
    Tight,
    NotEnough,
    Unknown,
}

/// The long label of a sufficiency state.
pub open spec fn state_label(state: SufficiencyState) -> Seq<char> {
    match state {
        SufficiencyState::Enough => "够用"@,
        SufficiencyState::Tight => "偏紧"@,
        SufficiencyState::NotEnough => "不够"@,
        SufficiencyState::Unknown => "未知"@,
    }
}

impl SufficiencyState {
    /// The long label shown next to an estimate.
    pub fn label(self) -> (text: &'static str)
        ensures
            text@ == state_label(self),
    {
        match self {
            SufficiencyState::Enough => "够用",
            SufficiencyState::Tight => "偏紧",
            SufficiencyState::NotEnough => "不够",
            SufficiencyState::Unknown => "未知",
        }
    }
}

/// One rate-limit window of a service (five hours, seven days).
#[derive(Debug, Clone, PartialEq)]
pub struct QuotaTier<P> {
    pub name: String,
    /// Share of the window that is used, 0 to 100.
    pub utilization: P,
    /// ISO 8601 reset time.
    pub resets_at: Option<String>,
    pub used: Option<P>,
    pub limit: Option<P>,
    pub remaining: Option<P>,
}

pub struct QuotaTierView<P> {
    pub name: Seq<char>,
    pub utilization: P,
    pub resets_at: Option<Seq<char>>,
    pub used: Option<P>,
    pub limit: Option<P>,
    pub remaining: Option<P>,
}

impl<P> View for QuotaTier<P> {
    type V = QuotaTierView<P>;

    open spec fn view(&self) -> QuotaTierView<P> {
        QuotaTierView {
            name: self.name@,
            utilization: self.utilization,
            resets_at: opt_str(self.resets_at),
            used: self.used,
            limit: self.limit,
            remaining: self.remaining,
        }
    }
}

/// The result of one usage query of a service.
#[derive(Debug, Clone, PartialEq)]
pub struct ServiceQuota<P> {
    pub service: String,
    pub display_name: String,
    pub success: bool,
    pub tiers: Vec<QuotaTier<P>>,
    pub error: Option<String>,
    pub queried_at: Option<i64>,
    pub credential_valid: bool,
}

pub struct ServiceQuotaView<P> {
    pub service: Seq<char>,
    pub display_name: Seq<char>,
    pub success: bool,
    pub tiers: Seq<QuotaTierView<P>>,
    pub error: Option<Seq<char>>,
    pub queried_at: Option<i64>,
    pub credential_valid: bool,
}

impl<P> View for ServiceQuota<P> {
    type V = ServiceQuotaView<P>;

    open spec fn view(&self) -> ServiceQuotaView<P> {
        ServiceQuotaView {
            service: self.service@,
            display_name: self.display_name@,
            success: self.success,
            tiers: self.tiers@.map_values(|t: QuotaTier<P>| t@),
            error: opt_str(self.error),
            queried_at: self.queried_at,
            credential_valid: self.credential_valid,
        }
    }
}

impl<P> ServiceQuota<P> {
    /// A quota that has not been queried successfully yet.
    pub fn empty(service: &str, display_name: &str) -> (quota: Self)
        ensures
            quota@.service == service@,
            quota@.display_name == display_name@,
            !quota.success,
            quota.tiers@.len() == 0,
            quota.error is None,
            quota.queried_at is None,
            !quota.credential_valid,
    {
        ServiceQuota {
            service: service.to_string(),
            display_name: display_name.to_string(),
            success: false,
            tiers: Vec::new(),
            error: None,
            queried_at: None,
            credential_valid: false,
        }
    }
}

/// One point of a utilization chart.
#[derive(Debug, Clone, Copy, PartialEq)]
pub struct UsageChartPoint<P> {
    pub observed_at_secs: i64,
    pub utilization: P,
}

/// A successful utilization observation of one tier of one account.
#[derive(Debug, Clone, PartialEq)]
pub struct UsageSample<P> {
    pub service: String,
    pub tier: String,
    pub reset_at: String,
    pub observed_at_secs: i64,
    pub utilization: P,
}

pub struct UsageSampleView<P> {
    pub service: Seq<char>,
    pub tier: Seq<char>,
    pub reset_at: Seq<char>,
    pub observed_at_secs: i64,
    pub utilization: P,
}

impl<P> View for UsageSample<P> {
    type V = UsageSampleView<P>;

    open spec fn view(&self) -> UsageSampleView<P> {
        UsageSampleView {
            service: self.service@,
            tier: self.tier@,
            reset_at: self.reset_at@,
            observed_at_secs: self.observed_at_secs,
            utilization: self.utilization,
        }
    }
}

impl<P: Copy> UsageSample<P> {
    /// A copy of this sample.
    pub fn duplicate(&self) -> (copy: Self)
        ensures
            copy@ == self@,
    {
        UsageSample {
            service: self.service.clone(),
            tier: self.tier.clone(),
            reset_at: self.reset_at.clone(),
            observed_at_secs: self.observed_at_secs,
            utilization: self.utilization,
        }
    }
}

/// The moment a weekly quota was first seen at its limit within one reset cycle.
#[derive(Debug, Clone, PartialEq)]
pub struct QuotaSaturationEvent<P> {
    pub service: String,
    pub tier: String,
    pub reset_at: String,
    pub reached_at_secs: i64,
    pub utilization_at: P,
}

pub struct QuotaSaturationEventView<P> {
    pub service: Seq<char>,
    pub tier: Seq<char>,
    pub reset_at: Seq<char>,
    pub reached_at_secs: i64,
    pub utilization_at: P,
}

impl<P> View for QuotaSaturationEvent<P> {
    type V = QuotaSaturationEventView<P>;

    open spec fn view(&self) -> QuotaSaturationEventView<P> {
        QuotaSaturationEventView {
            service: self.service@,
            tier: self.tier@,
            reset_at: self.reset_at@,
            reached_at_secs: self.reached_at_secs,
            utilization_at: self.utilization_at,
        }
    }
}

/// Saturation events kept in the configuration.
#[derive(Debug, Clone, PartialEq)]
pub struct QuotaEventStore<P> {
    pub weekly_saturation: Vec<QuotaSaturationEvent<P>>,
}

impl<P> QuotaEventStore<P> {
    /// A store without events.
    pub fn new() -> (store: Self)
        ensures
            store.weekly_saturation@.len() == 0,
    {
        QuotaEventStore { weekly_saturation: Vec::new() }
    }
}

/// A quota estimate of one tier.
#[derive(Debug, Clone, PartialEq)]
pub struct QuotaEstimate<P> {
    pub state: SufficiencyState,
    pub projected_utilization: Option<P>,
    pub reset_in_secs: Option<i64>,
    pub lasts_for_secs: Option<i64>,
    pub exhausted_at_secs: Option<i64>,
    pub exhausted_before_reset_secs: Option<i64>,
    pub slope_pct_per_hour: Option<P>,
    pub trend_window_hours: Option<i64>,
    pub observed_span_secs: Option<i64>,
    pub window_start_secs: Option<i64>,
    pub window_end_secs: Option<i64>,
    pub observed_points: Vec<UsageChartPoint<P>>,
    pub projected_points: Vec<UsageChartPoint<P>>,
}

impl<P> QuotaEstimate<P> {
    /// An estimate that knows nothing: unknown state, no numbers, no points.
    pub fn unknown() -> (estimate: Self)
        ensures
            estimate.state == SufficiencyState::Unknown,
            estimate.projected_utilization is None,
            estimate.reset_in_secs is None,
            estimate.lasts_for_secs is None,
            estimate.exhausted_at_secs is None,
            estimate.exhausted_before_reset_secs is None,
            estimate.slope_pct_per_hour is None,
            estimate.trend_window_hours is None,
            estimate.observed_span_secs is None,
            estimate.window_start_secs is None,
            estimate.window_end_secs is None,
            estimate.observed_points@.len() == 0,
            estimate.projected_points@.len() == 0,
    {
        QuotaEstimate {
            state: SufficiencyState::Unknown,
            projected_utilization: None,
            reset_in_secs: None,
            lasts_for_secs: None,
            exhausted_at_secs: None,
            exhausted_before_reset_secs: None,
            slope_pct_per_hour: None,
            trend_window_hours: None,
            observed_span_secs: None,
            window_start_secs: None,
            window_end_secs: None,
            observed_points: Vec::new(),
            projected_points: Vec::new(),
        }
    }
}

/// The estimate of one named tier.
#[derive(Debug, Clone, PartialEq)]
pub struct TierEstimateView<P> {
    pub tier: String,
    pub estimate: QuotaEstimate<P>,
}

/// The latest quota results held while the application runs.
#[derive(Debug, Clone, PartialEq)]
pub struct AppRuntimeState<P> {
    pub kimi_quota: Option<ServiceQuota<P>>,
    pub codex_quota: Option<ServiceQuota<P>>,
}

impl<P> AppRuntimeState<P> {
    /// A state before any query.
    pub fn new() -> (state: Self)
        ensures
            state.kimi_quota is None,
            state.codex_quota is None,
    {
        AppRuntimeState { kimi_quota: None, codex_quota: None }
    }
}

/// Whether a tool is a command-line program or a desktop application.
#[derive(Debug, Clone, Copy, PartialEq, Eq, Structural)]
pub enum ToolType {
    CLI,
    IDE,
}

/// A coding tool found on this machine.
#[derive(Debug, Clone, PartialEq, Eq)]
pub struct ToolInfo {
    pub id: String,
    pub name: String,
    pub tool_type: ToolType,
    pub installed: bool,
    pub install_path: Option<String>,
    /// How to launch: "Cursor", "Visual Studio Code", etc. Passed to `open -a`.
    pub launch_as: Option<String>,
}

pub struct ToolInfoView {
    pub id: Seq<char>,
    pub name: Seq<char>,
    pub tool_type: ToolType,
    pub installed: bool,
    pub install_path: Option<Seq<char>>,
    pub launch_as: Option<Seq<char>>,
}

impl View for ToolInfo {
    type V = ToolInfoView;

    open spec fn view(&self) -> ToolInfoView {
        ToolInfoView {
            id: self.id@,
            name: self.name@,
            tool_type: self.tool_type,
            installed: self.installed,
            install_path: opt_str(self.install_path),
            launch_as: opt_str(self.launch_as),
        }
    }
}

impl ToolInfo {
    /// A copy of this tool record.
    pub fn duplicate(&self) -> (copy: Self)
        ensures
            copy@ == self@,
    {
        ToolInfo {
            id: self.id.clone(),
            name: self.name.clone(),
            tool_type: self.tool_type,
            installed: self.installed,
            install_path: copy_opt_string(&self.install_path),
            launch_as: copy_opt_string(&self.launch_as),
        }
    }
}

/// A copy of an optional string.
pub fn copy_opt_string(o: &Option<String>) -> (copy: Option<String>)
    ensures
        opt_str(copy) == opt_str(*o),
{
    match o {
        Some(s) => Some(s.clone()),
        None => None,
    }
}

/// How a service's requests choose a proxy.
#[derive(Debug, Clone, Copy, PartialEq, Eq, Structural)]
pub enum ProxyMode {
    Auto,
    On,
    Off,
}

/// The proxy configuration of one service.
#[derive(Debug, Clone, PartialEq, Eq)]
pub struct ServiceProxyConfig {
    pub mode: ProxyMode,
    pub proxy_url: Option<String>,
    pub auto_ports: Vec<u16>,
    pub timeout_ms: u64,
}

impl Default for ServiceProxyConfig {
    fn default() -> (config: Self)
        ensures
            config.mode == ProxyMode::Auto,
            config.proxy_url is None,
            config.auto_ports@ == seq![7897u16, 7890u16],
            config.timeout_ms == 250,
    {
        let mut auto_ports = Vec::new();
        auto_ports.push(7897u16);
        auto_ports.push(7890u16);
        ServiceProxyConfig { mode: ProxyMode::Auto, proxy_url: None, auto_ports, timeout_ms: 250 }
    }
}

/// Proxy configuration of both services.
#[derive(Debug, Clone, PartialEq, Eq)]
pub struct ProxySettings {
    pub kimi: ServiceProxyConfig,
    pub codex: ServiceProxyConfig,
}

impl Default for ProxySettings {
    fn default() -> (settings: Self)
        ensures
            settings.kimi.mode == ProxyMode::Auto,
            settings.kimi.proxy_url is None,
            settings.kimi.auto_ports@ == seq![7897u16, 7890u16],
            settings.kimi.timeout_ms == 250,
            settings.codex.mode == ProxyMode::Auto,
            settings.codex.proxy_url is None,
            settings.codex.auto_ports@ == seq![7897u16, 7890u16],
            settings.codex.timeout_ms == 250,
    {
        ProxySettings { kimi: ServiceProxyConfig::default(), codex: ServiceProxyConfig::default() }
    }
}

/// Where the Kimi API key is kept.
#[derive(Debug, Clone, Copy, PartialEq, Eq, Structural)]
pub enum KimiCredentialBackend {
    Keychain,
    EncryptedVault,
}

/// Credential preferences.
#[derive(Debug, Clone, Copy, PartialEq, Eq, Structural)]
pub struct CredentialSettings {
    pub kimi_backend: KimiCredentialBackend,
}

impl Default for CredentialSettings {
    fn default() -> (settings: Self)
        ensures
            settings.kimi_backend == KimiCredentialBackend::Keychain,
    {
        CredentialSettings { kimi_backend: KimiCredentialBackend::Keychain }
    }
}

/// The outcome of a proxy test, as shown to the user.
#[derive(Debug, Clone, PartialEq, Eq)]
pub struct ProxyTestResult {
    pub status: String,
    pub proxy_url: Option<String>,
    pub message: String,
}

/// Proxy test results of both services.
#[derive(Debug, Clone, PartialEq, Eq)]
pub struct ProxyStatusView {
    pub kimi: ProxyTestResult,
    pub codex: ProxyTestResult,
}

/// Whether a credential can be used.
#[derive(Debug, Clone, PartialEq, Eq)]
pub enum CredentialState {
    Valid,
    Missing,
    Expired(String),
}

/// The provider a monitored account belongs to.
#[derive(Debug, Clone, Copy, PartialEq, Eq, Structural)]
pub enum ServiceKind {
    Kimi,
    Codex,
}

/// Where the secret of a monitored account is kept; never the secret itself.
#[derive(Debug, Clone, PartialEq, Eq)]
pub enum CredentialRef {
    LegacyKimi,
    LiveCodex,
    KimiKeychain { account: String },
    KimiVault { account: String },
    CodexKeychain { account: String },
}

pub enum CredentialRefView {
    LegacyKimi,
    LiveCodex,
    KimiKeychain { account: Seq<char> },
    KimiVault { account: Seq<char> },
    CodexKeychain { account: Seq<char> },
}

impl View for CredentialRef {
    type V = CredentialRefView;

    open spec fn view(&self) -> CredentialRefView {
        match self {
            CredentialRef::LegacyKimi => CredentialRefView::LegacyKimi,
            CredentialRef::LiveCodex => CredentialRefView::LiveCodex,
            CredentialRef::KimiKeychain { account } => CredentialRefView::KimiKeychain {
                account: account@,
            },
            CredentialRef::KimiVault { account } => CredentialRefView::KimiVault {
                account: account@,
            },
            CredentialRef::CodexKeychain { account } => CredentialRefView::CodexKeychain {
                account: account@,
            },
        }
    }
}

impl CredentialRef {
    /// A copy of this reference.
    pub fn duplicate(&self) -> (copy: Self)
        ensures
            copy@ == self@,
    {
        match self {
            CredentialRef::LegacyKimi => CredentialRef::LegacyKimi,
            CredentialRef::LiveCodex => CredentialRef::LiveCodex,
            CredentialRef::KimiKeychain { account } => CredentialRef::KimiKeychain {
                account: account.clone(),
            },
            CredentialRef::KimiVault { account } => CredentialRef::KimiVault {
                account: account.clone(),
            },
            CredentialRef::CodexKeychain { account } => CredentialRef::CodexKeychain {
                account: account.clone(),
            },
        }
    }
}

/// A provider account whose quota is monitored.
#[derive(Debug, Clone, PartialEq, Eq)]
pub struct MonitorAccount {
    pub id: String,
    pub service: ServiceKind,
    pub display_name: String,
    pub provider_identity_hint: Option<String>,
    pub credential_ref: CredentialRef,
    pub enabled: bool,
    pub created_at: i64,
}

pub struct MonitorAccountView {
    pub id: Seq<char>,
    pub service: ServiceKind,
    pub display_name: Seq<char>,
    pub provider_identity_hint: Option<Seq<char>>,
    pub credential_ref: CredentialRefView,
    pub enabled: bool,
    pub created_at: i64,
}

impl View for MonitorAccount {
    type V = MonitorAccountView;

    open spec fn view(&self) -> MonitorAccountView {
        MonitorAccountView {
            id: self.id@,
            service: self.service,
            display_name: self.display_name@,
            provider_identity_hint: opt_str(self.provider_identity_hint),
            credential_ref: self.credential_ref@,
            enabled: self.enabled,
            created_at: self.created_at,
        }
    }
}

impl MonitorAccount {
    /// A copy of this account record.
    pub fn duplicate(&self) -> (copy: Self)
        ensures
            copy@ == self@,
    {
        MonitorAccount {
            id: self.id.clone(),
            service: self.service,
            display_name: self.display_name.clone(),
            provider_identity_hint: copy_opt_string(&self.provider_identity_hint),
            credential_ref: self.credential_ref.duplicate(),
            enabled: self.enabled,
            created_at: self.created_at,
        }
    }
}

/// Which parts of a service's status-bar item are shown.
#[derive(Debug, Clone, Copy, PartialEq, Eq, Structural)]
pub struct StatusBarDisplayConfig {
    pub show_icon: bool,
    pub show_percentage: bool,
    pub show_state_text: bool,
}

impl Default for StatusBarDisplayConfig {
    fn default() -> (display: Self)
        ensures
            display.show_icon,
            display.show_percentage,
            display.show_state_text,
    {
        StatusBarDisplayConfig { show_icon: true, show_percentage: true, show_state_text: true }
    }
}

} // verus!

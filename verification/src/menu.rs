//! What the status-bar menus hold, as plain entries that the user interface
//! turns into menu items, and what their commands mean.
use crate::chatgpt::{chatgpt_item_label, chatgpt_menu_item};
use crate::text::same_text;
use crate::tray::{age_of, age_text, contains_text, lists};
use crate::types::{ServiceQuota, ToolInfo, ToolInfoView, ToolType};
use vstd::prelude::*;

verus! {

broadcast use vstd::string::group_string_axioms;

/// An entry of a service's tray menu.
#[derive(Debug, Clone, PartialEq)]
pub enum TrayMenuEntry {
    Item { id: String, label: String, enabled: bool },
    Separator,
}

pub enum TrayMenuEntryView {
    Item { id: Seq<char>, label: Seq<char>, enabled: bool },
    Separator,
}

impl View for TrayMenuEntry {
    type V = TrayMenuEntryView;

    open spec fn view(&self) -> TrayMenuEntryView {
        match self {
            TrayMenuEntry::Item { id, label, enabled } => TrayMenuEntryView::Item {
                id: id@,
                label: label@,
                enabled: *enabled,
            },
            TrayMenuEntry::Separator => TrayMenuEntryView::Separator,
        }
    }
}

pub open spec fn tray_entry_views(entries: Seq<TrayMenuEntry>) -> Seq<TrayMenuEntryView> {
    entries.map_values(|e: TrayMenuEntry| e@)
}

pub open spec fn tray_item(id: Seq<char>, label: Seq<char>, enabled: bool) -> TrayMenuEntryView {
    TrayMenuEntryView::Item { id, label, enabled }
}

/// The status line of a service, when its tray is shown.
pub open spec fn status_entry(id: Seq<char>, name: Seq<char>, summary: Option<Seq<char>>) -> Seq<
    TrayMenuEntryView,
> {
    match summary {
        Some(s) => seq![tray_item(id, name + ": "@ + s, false)],
        None => Seq::empty(),
    }
}

/// The tray menu: open the dashboard; the status line of each service whose
/// tray is shown (disabled); refresh; the ChatGPT launcher; quit.
pub open spec fn tray_menu_entries(
    kimi_summary: Option<Seq<char>>,
    codex_summary: Option<Seq<char>>,
    chatgpt_installed: bool,
    chatgpt_running: bool,
) -> Seq<TrayMenuEntryView> {
    seq![tray_item("open_dashboard"@, "打开控制台"@, true), TrayMenuEntryView::Separator]
        + status_entry("kimi_status"@, "Kimi Code"@, kimi_summary) + status_entry(
        "codex_status"@,
        "Codex"@,
        codex_summary,
    ) + seq![
        tray_item("refresh_usage"@, "刷新用量"@, true),
        TrayMenuEntryView::Separator,
        tray_item(
            "launch_chatgpt_7897"@,
            chatgpt_item_label(chatgpt_installed, chatgpt_running),
            chatgpt_installed && !chatgpt_running,
        ),
        TrayMenuEntryView::Separator,
        tray_item("quit"@, "退出"@, true),
    ]
}

fn push_tray_item(entries: &mut Vec<TrayMenuEntry>, id: &str, label: String, enabled: bool)
    ensures
        tray_entry_views(final(entries)@) == tray_entry_views(old(entries)@).push(
            tray_item(id@, label@, enabled),
        ),
{
    entries.push(TrayMenuEntry::Item { id: String::from_str(id), label, enabled });
    proof {
        assert(tray_entry_views(entries@) =~= tray_entry_views(old(entries)@).push(
            tray_item(id@, label@, enabled),
        ));
    }
}

fn push_tray_separator(entries: &mut Vec<TrayMenuEntry>)
    ensures
        tray_entry_views(final(entries)@) == tray_entry_views(old(entries)@).push(
            TrayMenuEntryView::Separator,
        ),
{
    entries.push(TrayMenuEntry::Separator);
    proof {
        assert(tray_entry_views(entries@) =~= tray_entry_views(old(entries)@).push(
            TrayMenuEntryView::Separator,
        ));
    }
}

fn push_status_entry(entries: &mut Vec<TrayMenuEntry>, id: &str, name: &str, summary: Option<&str>)
    ensures
        tray_entry_views(final(entries)@) == tray_entry_views(old(entries)@) + status_entry(
            id@,
            name@,
            match summary {
                Some(s) => Some(s@),
                None => None,
            },
        ),
{
    match summary {
        Some(s) => {
            let mut label = String::from_str(name);
            label.append(": ");
            label.append(s);
            push_tray_item(entries, id, label, false);
            proof {
                assert(tray_entry_views(entries@) =~= tray_entry_views(old(entries)@) + status_entry(
                    id@,
                    name@,
                    Some(s@),
                ));
            }
        },
        None => {
            proof {
                assert(tray_entry_views(entries@) =~= tray_entry_views(old(entries)@) + Seq::<
                    TrayMenuEntryView,
                >::empty());
            }
        },
    }
}

/// The tray menu. A service's status line is given as its summary when its
/// tray is shown, and left out otherwise.
pub fn tray_menu(
    kimi_summary: Option<&str>,
    codex_summary: Option<&str>,
    chatgpt_installed: bool,
    chatgpt_running: bool,
) -> (entries: Vec<TrayMenuEntry>)
    ensures
        tray_entry_views(entries@) == tray_menu_entries(
            match kimi_summary {
                Some(s) => Some(s@),
                None => None,
            },
            match codex_summary {
                Some(s) => Some(s@),
                None => None,
            },
            chatgpt_installed,
            chatgpt_running,
        ),
{
    let mut entries: Vec<TrayMenuEntry> = Vec::new();
    push_tray_item(&mut entries, "open_dashboard", String::from_str("打开控制台"), true);
    push_tray_separator(&mut entries);
    push_status_entry(&mut entries, "kimi_status", "Kimi Code", kimi_summary);
    push_status_entry(&mut entries, "codex_status", "Codex", codex_summary);
    push_tray_item(&mut entries, "refresh_usage", String::from_str("刷新用量"), true);
    push_tray_separator(&mut entries);
    let (chatgpt_label, chatgpt_enabled) = chatgpt_menu_item(chatgpt_installed, chatgpt_running);
    push_tray_item(
        &mut entries,
        "launch_chatgpt_7897",
        String::from_str(chatgpt_label),
        chatgpt_enabled,
    );
    push_tray_separator(&mut entries);
    push_tray_item(&mut entries, "quit", String::from_str("退出"), true);
    proof {
        assert(tray_entry_views(entries@) =~= tray_menu_entries(
            match kimi_summary {
                Some(s) => Some(s@),
                None => None,
            },
            match codex_summary {
                Some(s) => Some(s@),
                None => None,
            },
            chatgpt_installed,
            chatgpt_running,
        ));
    }
    entries
}

/// What choosing a tray menu entry asks for.
#[derive(Debug, Clone, Copy, PartialEq, Eq)]
pub enum TrayCommand {
    OpenDashboard,
    RefreshUsage,
    LaunchChatGpt,
    Quit,
}

/// The command of a tray menu entry id; none for the status lines and
/// unknown ids.
pub open spec fn command_of(id: Seq<char>) -> Option<TrayCommand> {
    if id == "open_dashboard"@ {
        Some(TrayCommand::OpenDashboard)
    } else if id == "refresh_usage"@ {
        Some(TrayCommand::RefreshUsage)
    } else if id == "launch_chatgpt_7897"@ {
        Some(TrayCommand::LaunchChatGpt)
    } else if id == "quit"@ {
        Some(TrayCommand::Quit)
    } else {
        None
    }
}

/// The command of a tray menu entry id.
pub fn tray_command(id: &str) -> (command: Option<TrayCommand>)
    ensures
        command == command_of(id@),
{
    if same_text(id, "open_dashboard") {
        Some(TrayCommand::OpenDashboard)
    } else if same_text(id, "refresh_usage") {
        Some(TrayCommand::RefreshUsage)
    } else if same_text(id, "launch_chatgpt_7897") {
        Some(TrayCommand::LaunchChatGpt)
    } else if same_text(id, "quit") {
        Some(TrayCommand::Quit)
    } else {
        None
    }
}

/// What refreshing a service's tray does.
#[derive(Debug, Clone, Copy, PartialEq, Eq)]
pub enum TrayRefresh {
    /// Update the existing tray's menu, visibility, icon and title.
    Update,
    /// Create the tray, shown.
    Create,
    /// Leave the missing tray uncreated.
    Skip,
}

/// An existing tray is updated; a missing one is created only when it is to
/// be shown.
pub fn tray_refresh(exists: bool, visible: bool) -> (refresh: TrayRefresh)
    ensures
        refresh == (if exists {
            TrayRefresh::Update
        } else if visible {
            TrayRefresh::Create
        } else {
            TrayRefresh::Skip
        }),
{
    if exists {
        TrayRefresh::Update
    } else if visible {
        TrayRefresh::Create
    } else {
        TrayRefresh::Skip
    }
}

/// The Kimi tray is shown when it is enabled for the status bar and a Kimi
/// key could be loaded.
pub fn kimi_tray_visible(enabled: bool, stored_key: &Result<Option<String>, String>) -> (visible:
    bool)
    ensures
        visible == (enabled && stored_key matches Ok(Some(_))),
{
    enabled && match stored_key {
        Ok(Some(_)) => true,
        _ => false,
    }
}

/// The action of an entry of the classic status menu.
#[derive(Debug, Clone, Copy, PartialEq, Eq)]
pub enum StatusAction {
    SetKimiKey,
    RefreshNow,
    Quit,
}

/// An entry of the classic status menu.
#[derive(Debug, Clone, PartialEq)]
pub enum StatusMenuEntry {
    /// Disabled text.
    Label(String),
    Separator,
    /// The usage lines of the named service; they hold rounded percentages and
    /// are written by the caller.
    UsageSection(String),
    /// A fixed action.
    Action { title: String, action: StatusAction },
    /// Toggles whether a tool is selected.
    ToolToggle { label: String, tool_id: String, checked: bool },
    /// Opens an app by name.
    OpenTool { label: String, launch_name: String },
    /// Picks a folder and runs a command-line tool there.
    OpenCli { label: String, binary: String },
}

pub enum StatusMenuEntryView {
    Label(Seq<char>),
    Separator,
    UsageSection(Seq<char>),
    Action { title: Seq<char>, action: StatusAction },
    ToolToggle { label: Seq<char>, tool_id: Seq<char>, checked: bool },
    OpenTool { label: Seq<char>, launch_name: Seq<char> },
    OpenCli { label: Seq<char>, binary: Seq<char> },
}

impl View for StatusMenuEntry {
    type V = StatusMenuEntryView;

    open spec fn view(&self) -> StatusMenuEntryView {
        match self {
            StatusMenuEntry::Label(t) => StatusMenuEntryView::Label(t@),
            StatusMenuEntry::Separator => StatusMenuEntryView::Separator,
            StatusMenuEntry::UsageSection(n) => StatusMenuEntryView::UsageSection(n@),
            StatusMenuEntry::Action { title, action } => StatusMenuEntryView::Action {
                title: title@,
                action: *action,
            },
            StatusMenuEntry::ToolToggle { label, tool_id, checked } =>
                StatusMenuEntryView::ToolToggle { label: label@, tool_id: tool_id@, checked: *checked },
            StatusMenuEntry::OpenTool { label, launch_name } => StatusMenuEntryView::OpenTool {
                label: label@,
                launch_name: launch_name@,
            },
            StatusMenuEntry::OpenCli { label, binary } => StatusMenuEntryView::OpenCli {
                label: label@,
                binary: binary@,
            },
        }
    }
}

pub open spec fn status_entry_views(entries: Seq<StatusMenuEntry>) -> Seq<StatusMenuEntryView> {
    entries.map_values(|e: StatusMenuEntry| e@)
}

/// The service the classic menu says it is monitoring: Kimi Code when its
/// last query is more recent than Codex's, else Codex. A service never
/// queried counts as infinitely old.
pub open spec fn monitored_name(
    kimi_queried_at: Option<i64>,
    codex_queried_at: Option<i64>,
    now_ms: i64,
) -> Seq<char> {
    let kimi_age = match kimi_queried_at {
        Some(t) => now_ms - t,
        None => i64::MAX as int,
    };
    let codex_age = match codex_queried_at {
        Some(t) => now_ms - t,
        None => i64::MAX as int,
    };
    if kimi_age < codex_age {
        "Kimi Code"@
    } else {
        "Codex"@
    }
}

/// Whether `now_ms - t` is an `i64` for a query time `t`.
pub open spec fn age_fits(queried_at: Option<i64>, now_ms: i64) -> bool {
    queried_at matches Some(t) ==> i64::MIN <= now_ms - t <= i64::MAX
}

/// The service the classic menu says it is monitoring.
pub fn monitored_service(kimi_queried_at: Option<i64>, codex_queried_at: Option<i64>, now_ms: i64) -> (name:
    &'static str)
    requires
        age_fits(kimi_queried_at, now_ms),
        age_fits(codex_queried_at, now_ms),
    ensures
        name@ == monitored_name(kimi_queried_at, codex_queried_at, now_ms),
{
    let kimi_age = match kimi_queried_at {
        Some(t) => now_ms - t,
        None => i64::MAX,
    };
    let codex_age = match codex_queried_at {
        Some(t) => now_ms - t,
        None => i64::MAX,
    };
    if kimi_age < codex_age {
        "Kimi Code"
    } else {
        "Codex"
    }
}

/// The latest query time of the two services, or 0 when neither was queried.
pub open spec fn latest_query(kimi_queried_at: Option<i64>, codex_queried_at: Option<i64>) -> i64 {
    match (kimi_queried_at, codex_queried_at) {
        (Some(a), Some(b)) => if a >= b {
            a
        } else {
            b
        },
        (Some(a), None) => a,
        (None, Some(b)) => b,
        (None, None) => 0,
    }
}

/// The latest query time is the larger of the two services' times when both
/// were queried, the one time when only one was, and 0 when neither was.
pub proof fn the_latest_query_is_the_most_recent(a: i64, b: i64)
    ensures
        latest_query(Some(a), Some(b)) >= a,
        latest_query(Some(a), Some(b)) >= b,
        latest_query(Some(a), Some(b)) == a || latest_query(Some(a), Some(b)) == b,
        latest_query(Some(a), None) == a,
        latest_query(None, Some(b)) == b,
        latest_query(None, None) == 0,
{
}

/// When both services were queried, the "updated" line is the one the more
/// recently queried service would give alone, whichever of the two it is.
pub proof fn the_updated_line_follows_the_latest_query(a: i64, b: i64, now_ms: i64)
    ensures
        a >= b ==> updated_line_of(Some(a), Some(b), now_ms) == updated_line_of(Some(a), None, now_ms),
        b >= a ==> updated_line_of(Some(a), Some(b), now_ms) == updated_line_of(None, Some(b), now_ms),
        updated_line_of(Some(a), Some(b), now_ms) == updated_line_of(Some(b), Some(a), now_ms),
{
}

/// The "updated" line: never when the latest query time is 0, otherwise how
/// long ago in whole seconds (none when the time lies ahead).
pub open spec fn updated_line_of(
    kimi_queried_at: Option<i64>,
    codex_queried_at: Option<i64>,
    now_ms: i64,
) -> Seq<char> {
    let latest = latest_query(kimi_queried_at, codex_queried_at);
    if latest == 0 {
        "  Updated: never"@
    } else {
        let elapsed = now_ms - latest;
        "  Updated: "@ + age_of(
            if elapsed <= 0 {
                0nat
            } else {
                (elapsed / 1000) as nat
            },
        )
    }
}

/// The "updated" line of the classic menu.
pub fn updated_line(kimi_queried_at: Option<i64>, codex_queried_at: Option<i64>, now_ms: i64) -> (line:
    String)
    requires
        i64::MIN <= now_ms - latest_query(kimi_queried_at, codex_queried_at) <= i64::MAX,
    ensures
        line@ == updated_line_of(kimi_queried_at, codex_queried_at, now_ms),
{
    let latest = match (kimi_queried_at, codex_queried_at) {
        (Some(a), Some(b)) => if a >= b {
            a
        } else {
            b
        },
        (Some(a), None) => a,
        (None, Some(b)) => b,
        (None, None) => 0,
    };
    if latest == 0 {
        return String::from_str("  Updated: never");
    }
    let elapsed = now_ms - latest;
    let secs: u64 = if elapsed <= 0 {
        0
    } else {
        (elapsed / 1000) as u64
    };
    let mut line = String::from_str("  Updated: ");
    line.append(age_text(secs).as_str());
    line
}

/// Whether a service has a quota whose credentials were accepted.
pub fn has_valid_credentials<P>(quota: &Option<ServiceQuota<P>>) -> (valid: bool)
    ensures
        valid == (quota matches Some(q) && q.credential_valid),
{
    match quota {
        Some(q) => q.credential_valid,
        None => false,
    }
}

/// The name a tool is opened by: its launch name, else its name.
pub open spec fn launch_name_of(tool: ToolInfoView) -> Seq<char> {
    match tool.launch_as {
        Some(name) => name,
        None => tool.name,
    }
}

/// The command a command-line tool is run by: its install path, else its
/// name.
pub open spec fn binary_of(tool: ToolInfoView) -> Seq<char> {
    match tool.install_path {
        Some(path) => path,
        None => tool.name,
    }
}

pub open spec fn kind_text(kind: ToolType) -> Seq<char> {
    match kind {
        ToolType::CLI => "CLI"@,
        ToolType::IDE => "IDE"@,
    }
}

/// The selection entries of the detected tools, in order.
pub open spec fn toggle_entries(tools: Seq<ToolInfo>, selected: Seq<String>) -> Seq<
    StatusMenuEntryView,
>
    decreases tools.len(),
{
    if tools.len() == 0 {
        Seq::empty()
    } else {
        let t = tools.last()@;
        toggle_entries(tools.drop_last(), selected).push(
            StatusMenuEntryView::ToolToggle {
                label: "    "@ + kind_text(t.tool_type) + ": "@ + t.name,
                tool_id: t.id,
                checked: lists(selected, t.id),
            },
        )
    }
}

/// The launch entries of the selected tools of one kind, in order.
pub open spec fn launch_entries(tools: Seq<ToolInfo>, selected: Seq<String>, kind: ToolType) -> Seq<
    StatusMenuEntryView,
>
    decreases tools.len(),
{
    if tools.len() == 0 {
        Seq::empty()
    } else {
        let t = tools.last()@;
        let rest = launch_entries(tools.drop_last(), selected, kind);
        if t.tool_type == kind && lists(selected, t.id) {
            rest.push(
                match kind {
                    ToolType::IDE => StatusMenuEntryView::OpenTool {
                        label: "    "@ + launch_name_of(t),
                        launch_name: launch_name_of(t),
                    },
                    ToolType::CLI => StatusMenuEntryView::OpenCli {
                        label: "    "@ + t.name,
                        binary: binary_of(t),
                    },
                },
            )
        } else {
            rest
        }
    }
}

pub open spec fn label(text: Seq<char>) -> StatusMenuEntryView {
    StatusMenuEntryView::Label(text)
}

pub open spec fn when(condition: bool, entries: Seq<StatusMenuEntryView>) -> Seq<StatusMenuEntryView> {
    if condition {
        entries
    } else {
        Seq::empty()
    }
}

/// The top of the classic status menu: what is monitored, the usage of each
/// service with accepted credentials (or a hint when neither has any), and
/// when it was updated.
pub open spec fn usage_entries(
    monitoring: Seq<char>,
    has_kimi: bool,
    has_codex: bool,
    updated: Seq<char>,
) -> Seq<StatusMenuEntryView> {
    seq![label("Monitoring: "@ + monitoring), StatusMenuEntryView::Separator] + when(
        has_kimi,
        seq![StatusMenuEntryView::UsageSection("Kimi Code"@)],
    ) + when(has_codex, seq![StatusMenuEntryView::UsageSection("Codex"@)]) + when(
        !has_kimi && !has_codex,
        seq![label("  Configure API keys to see usage"@)],
    ) + seq![label(updated), StatusMenuEntryView::Separator]
}

/// How to set up missing credentials, then the heading of the tool selection.
pub open spec fn setup_entries(has_kimi: bool, has_codex: bool) -> Seq<StatusMenuEntryView> {
    when(
        !has_kimi,
        seq![
            StatusMenuEntryView::Action {
                title: "\u{26A0} Set Kimi API Key..."@,
                action: StatusAction::SetKimiKey,
            },
        ],
    ) + when(!has_codex, seq![label("\u{26A0} Codex: login with 'codex login' in terminal"@)])
        + seq![StatusMenuEntryView::Separator, label("Tool Selection"@)]
}

/// The tool selection, and a note when nothing is selected.
pub open spec fn selection_entries(tools: Seq<ToolInfo>, selected: Seq<String>) -> Seq<
    StatusMenuEntryView,
> {
    (if tools.len() == 0 {
        seq![label("  No detected tools"@)]
    } else {
        toggle_entries(tools, selected)
    }) + seq![StatusMenuEntryView::Separator] + when(
        selected.len() == 0,
        seq![label("No tools selected"@), StatusMenuEntryView::Separator],
    )
}

/// The selected apps, then the selected command-line tools, each group under
/// its heading when it is not empty.
pub open spec fn launcher_entries(tools: Seq<ToolInfo>, selected: Seq<String>) -> Seq<
    StatusMenuEntryView,
> {
    let ides = launch_entries(tools, selected, ToolType::IDE);
    let clis = launch_entries(tools, selected, ToolType::CLI);
    when(ides.len() > 0, seq![label("IDE & Apps"@)] + ides + seq![StatusMenuEntryView::Separator])
        + when(clis.len() > 0, seq![label("CLI Tools (pick folder → Ghostty)"@)] + clis)
}

/// Refresh and quit.
pub open spec fn action_entries() -> Seq<StatusMenuEntryView> {
    seq![
        StatusMenuEntryView::Separator,
        StatusMenuEntryView::Action { title: "Refresh Now"@, action: StatusAction::RefreshNow },
        StatusMenuEntryView::Separator,
        StatusMenuEntryView::Action { title: "Quit"@, action: StatusAction::Quit },
    ]
}

/// The classic status menu: usage, credential setup, tool selection,
/// launchers, refresh and quit.
pub open spec fn status_menu_entries(
    monitoring: Seq<char>,
    has_kimi: bool,
    has_codex: bool,
    updated: Seq<char>,
    tools: Seq<ToolInfo>,
    selected: Seq<String>,
) -> Seq<StatusMenuEntryView> {
    usage_entries(monitoring, has_kimi, has_codex, updated) + setup_entries(has_kimi, has_codex)
        + selection_entries(tools, selected) + launcher_entries(tools, selected) + action_entries()
}

fn push_status(entries: &mut Vec<StatusMenuEntry>, entry: StatusMenuEntry)
    ensures
        status_entry_views(final(entries)@) == status_entry_views(old(entries)@).push(entry@),
{
    entries.push(entry);
    proof {
        assert(status_entry_views(entries@) =~= status_entry_views(old(entries)@).push(entry@));
    }
}

fn push_label(entries: &mut Vec<StatusMenuEntry>, text: &str)
    ensures
        status_entry_views(final(entries)@) == status_entry_views(old(entries)@).push(label(text@)),
{
    push_status(entries, StatusMenuEntry::Label(String::from_str(text)));
}

/// Appends the selection entries of `tools`.
fn push_toggles(entries: &mut Vec<StatusMenuEntry>, tools: &[ToolInfo], selected: &[String])
    ensures
        status_entry_views(final(entries)@) == status_entry_views(old(entries)@) + toggle_entries(
            tools@,
            selected@,
        ),
{
    let mut i: usize = 0;
    while i < tools.len()
        invariant
            i <= tools@.len(),
            status_entry_views(entries@) == status_entry_views(old(entries)@) + toggle_entries(
                tools@.take(i as int),
                selected@,
            ),
        decreases tools@.len() - i,
    {
        let tool = &tools[i];
        let mut text = String::from_str("    ");
        text.append(
            match tool.tool_type {
                ToolType::CLI => "CLI",
                ToolType::IDE => "IDE",
            },
        );
        text.append(": ");
        text.append(tool.name.as_str());
        let checked = contains_text(selected, tool.id.as_str());
        push_status(
            entries,
            StatusMenuEntry::ToolToggle { label: text, tool_id: tool.id.clone(), checked },
        );
        proof {
            assert(tools@.take(i + 1).drop_last() =~= tools@.take(i as int));
            assert(status_entry_views(entries@) =~= status_entry_views(old(entries)@)
                + toggle_entries(tools@.take(i + 1), selected@));
        }
        i += 1;
    }
    proof {
        assert(tools@.take(tools@.len() as int) =~= tools@);
    }
}

/// The launch entries of the selected tools of one kind.
fn launch_list(tools: &[ToolInfo], selected: &[String], kind: ToolType) -> (entries: Vec<
    StatusMenuEntry,
>)
    ensures
        status_entry_views(entries@) == launch_entries(tools@, selected@, kind),
{
    let mut entries: Vec<StatusMenuEntry> = Vec::new();
    let mut i: usize = 0;
    while i < tools.len()
        invariant
            i <= tools@.len(),
            status_entry_views(entries@) == launch_entries(tools@.take(i as int), selected@, kind),
        decreases tools@.len() - i,
    {
        let tool = &tools[i];
        proof {
            assert(tools@.take(i + 1).drop_last() =~= tools@.take(i as int));
        }
        let same_kind = match (tool.tool_type, kind) {
            (ToolType::IDE, ToolType::IDE) => true,
            (ToolType::CLI, ToolType::CLI) => true,
            _ => false,
        };
        if same_kind && contains_text(selected, tool.id.as_str()) {
            let entry = match kind {
                ToolType::IDE => {
                    let name = match &tool.launch_as {
                        Some(name) => name.clone(),
                        None => tool.name.clone(),
                    };
                    let mut text = String::from_str("    ");
                    text.append(name.as_str());
                    StatusMenuEntry::OpenTool { label: text, launch_name: name }
                },
                ToolType::CLI => {
                    let binary = match &tool.install_path {
                        Some(path) => path.clone(),
                        None => tool.name.clone(),
                    };
                    let mut text = String::from_str("    ");
                    text.append(tool.name.as_str());
                    StatusMenuEntry::OpenCli { label: text, binary }
                },
            };
            push_status(&mut entries, entry);
        }
        proof {
            assert(status_entry_views(entries@) =~= launch_entries(
                tools@.take(i + 1),
                selected@,
                kind,
            ));
        }
        i += 1;
    }
    proof {
        assert(tools@.take(tools@.len() as int) =~= tools@);
    }
    entries
}

/// Appends `more`.
fn push_all(entries: &mut Vec<StatusMenuEntry>, more: Vec<StatusMenuEntry>)
    ensures
        status_entry_views(final(entries)@) == status_entry_views(old(entries)@)
            + status_entry_views(more@),
{
    let mut more = more;
    let ghost added = more@;
    entries.append(&mut more);
    proof {
        assert(status_entry_views(entries@) =~= status_entry_views(old(entries)@)
            + status_entry_views(added));
    }
}

fn push_usage(
    entries: &mut Vec<StatusMenuEntry>,
    monitoring: &str,
    has_kimi: bool,
    has_codex: bool,
    updated: &str,
)
    ensures
        status_entry_views(final(entries)@) == status_entry_views(old(entries)@) + usage_entries(
            monitoring@,
            has_kimi,
            has_codex,
            updated@,
        ),
{
    let mut monitored = String::from_str("Monitoring: ");
    monitored.append(monitoring);
    push_status(entries, StatusMenuEntry::Label(monitored));
    push_status(entries, StatusMenuEntry::Separator);
    if has_kimi {
        push_status(entries, StatusMenuEntry::UsageSection(String::from_str("Kimi Code")));
    }
    if has_codex {
        push_status(entries, StatusMenuEntry::UsageSection(String::from_str("Codex")));
    }
    if !has_kimi && !has_codex {
        push_label(entries, "  Configure API keys to see usage");
    }
    push_label(entries, updated);
    push_status(entries, StatusMenuEntry::Separator);
    proof {
        assert(status_entry_views(entries@) =~= status_entry_views(old(entries)@) + usage_entries(
            monitoring@,
            has_kimi,
            has_codex,
            updated@,
        ));
    }
}

fn push_setup(entries: &mut Vec<StatusMenuEntry>, has_kimi: bool, has_codex: bool)
    ensures
        status_entry_views(final(entries)@) == status_entry_views(old(entries)@) + setup_entries(
            has_kimi,
            has_codex,
        ),
{
    if !has_kimi {
        push_status(
            entries,
            StatusMenuEntry::Action {
                title: String::from_str("\u{26A0} Set Kimi API Key..."),
                action: StatusAction::SetKimiKey,
            },
        );
    }
    if !has_codex {
        push_label(entries, "\u{26A0} Codex: login with 'codex login' in terminal");
    }
    push_status(entries, StatusMenuEntry::Separator);
    push_label(entries, "Tool Selection");
    proof {
        assert(status_entry_views(entries@) =~= status_entry_views(old(entries)@) + setup_entries(
            has_kimi,
            has_codex,
        ));
    }
}

fn push_selection(entries: &mut Vec<StatusMenuEntry>, tools: &[ToolInfo], selected: &[String])
    ensures
        status_entry_views(final(entries)@) == status_entry_views(old(entries)@)
            + selection_entries(tools@, selected@),
{
    if tools.len() == 0 {
        push_label(entries, "  No detected tools");
    } else {
        push_toggles(entries, tools, selected);
    }
    push_status(entries, StatusMenuEntry::Separator);
    if selected.len() == 0 {
        push_label(entries, "No tools selected");
        push_status(entries, StatusMenuEntry::Separator);
    }
    proof {
        assert(status_entry_views(entries@) =~= status_entry_views(old(entries)@)
            + selection_entries(tools@, selected@));
    }
}

fn push_launchers(entries: &mut Vec<StatusMenuEntry>, tools: &[ToolInfo], selected: &[String])
    ensures
        status_entry_views(final(entries)@) == status_entry_views(old(entries)@)
            + launcher_entries(tools@, selected@),
{
    let ides = launch_list(tools, selected, ToolType::IDE);
    if ides.len() > 0 {
        push_label(entries, "IDE & Apps");
        push_all(entries, ides);
        push_status(entries, StatusMenuEntry::Separator);
    }
    let clis = launch_list(tools, selected, ToolType::CLI);
    if clis.len() > 0 {
        push_label(entries, "CLI Tools (pick folder → Ghostty)");
        push_all(entries, clis);
    }
    proof {
        assert(status_entry_views(entries@) =~= status_entry_views(old(entries)@)
            + launcher_entries(tools@, selected@));
    }
}

fn push_actions(entries: &mut Vec<StatusMenuEntry>)
    ensures
        status_entry_views(final(entries)@) == status_entry_views(old(entries)@) + action_entries(),
{
    push_status(entries, StatusMenuEntry::Separator);
    push_status(
        entries,
        StatusMenuEntry::Action { title: String::from_str("Refresh Now"), action: StatusAction::RefreshNow },
    );
    push_status(entries, StatusMenuEntry::Separator);
    push_status(
        entries,
        StatusMenuEntry::Action { title: String::from_str("Quit"), action: StatusAction::Quit },
    );
    proof {
        assert(status_entry_views(entries@) =~= status_entry_views(old(entries)@) + action_entries());
    }
}

/// The entry that asks for a Kimi API key.
pub open spec fn set_kimi_key_entry() -> StatusMenuEntryView {
    StatusMenuEntryView::Action { title: "\u{26A0} Set Kimi API Key..."@, action: StatusAction::SetKimiKey }
}

/// The entry that tells how to log in to Codex.
pub open spec fn codex_login_entry() -> StatusMenuEntryView {
    label("\u{26A0} Codex: login with 'codex login' in terminal"@)
}

/// No entry of `entries` asks for a key.
pub open spec fn asks_for_no_key(entries: Seq<StatusMenuEntryView>) -> bool {
    forall|k: int| 0 <= k < entries.len() ==> !(#[trigger] entries[k] is Action && entries[k]->action
        == StatusAction::SetKimiKey)
}

proof fn lemma_joined_asks_for_no_key(a: Seq<StatusMenuEntryView>, b: Seq<StatusMenuEntryView>)
    requires
        asks_for_no_key(a),
        asks_for_no_key(b),
    ensures
        asks_for_no_key(a + b),
{
    assert forall|k: int| 0 <= k < (a + b).len() implies !(#[trigger] (a + b)[k] is Action && (a
        + b)[k]->action == StatusAction::SetKimiKey) by {
        if k < a.len() {
            assert((a + b)[k] == a[k]);
        } else {
            assert((a + b)[k] == b[k - a.len()]);
        }
    }
}

proof fn lemma_toggles_ask_for_no_key(tools: Seq<ToolInfo>, selected: Seq<String>)
    ensures
        asks_for_no_key(toggle_entries(tools, selected)),
    decreases tools.len(),
{
    if tools.len() > 0 {
        lemma_toggles_ask_for_no_key(tools.drop_last(), selected);
    }
}

proof fn lemma_launchers_ask_for_no_key(tools: Seq<ToolInfo>, selected: Seq<String>, kind: ToolType)
    ensures
        asks_for_no_key(launch_entries(tools, selected, kind)),
    decreases tools.len(),
{
    if tools.len() > 0 {
        lemma_launchers_ask_for_no_key(tools.drop_last(), selected, kind);
    }
}

/// The classic menu offers to set a Kimi API key exactly when Kimi has no
/// accepted credentials, whatever the state of Codex; and it tells how to log
/// in to Codex whenever Codex has none.
pub proof fn the_menu_asks_for_missing_credentials(
    monitoring: Seq<char>,
    has_kimi: bool,
    has_codex: bool,
    updated: Seq<char>,
    tools: Seq<ToolInfo>,
    selected: Seq<String>,
)
    ensures
        status_menu_entries(monitoring, has_kimi, has_codex, updated, tools, selected).contains(
            set_kimi_key_entry(),
        ) <==> !has_kimi,
        !has_codex ==> status_menu_entries(monitoring, has_kimi, has_codex, updated, tools, selected).contains(
            codex_login_entry(),
        ),
{
    let usage = usage_entries(monitoring, has_kimi, has_codex, updated);
    let setup = setup_entries(has_kimi, has_codex);
    let selection = selection_entries(tools, selected);
    let launchers = launcher_entries(tools, selected);
    let all = status_menu_entries(monitoring, has_kimi, has_codex, updated, tools, selected);
    let rest = selection + launchers + action_entries();
    assert(all =~= usage + setup + rest);
    if !has_kimi {
        assert(all[usage.len() as int] == set_kimi_key_entry());
    }
    if !has_codex {
        let at: int = if has_kimi { usage.len() as int } else { usage.len() as int + 1 };
        assert(all[at] == codex_login_entry());
    }
    assert(asks_for_no_key(usage)) by {
        assert forall|k: int| 0 <= k < usage.len() implies !(#[trigger] usage[k] is Action
            && usage[k]->action == StatusAction::SetKimiKey) by {
            let head = seq![label("Monitoring: "@ + monitoring), StatusMenuEntryView::Separator];
            let kimi = when(has_kimi, seq![StatusMenuEntryView::UsageSection("Kimi Code"@)]);
            let codex = when(has_codex, seq![StatusMenuEntryView::UsageSection("Codex"@)]);
            let hint = when(!has_kimi && !has_codex, seq![label("  Configure API keys to see usage"@)]);
            let tail = seq![label(updated), StatusMenuEntryView::Separator];
            assert(usage =~= head + kimi + codex + hint + tail);
        }
    }
    lemma_toggles_ask_for_no_key(tools, selected);
    assert(asks_for_no_key(selection)) by {
        let picks = if tools.len() == 0 {
            seq![label("  No detected tools"@)]
        } else {
            toggle_entries(tools, selected)
        };
        let note = when(selected.len() == 0, seq![label("No tools selected"@), StatusMenuEntryView::Separator]);
        assert(selection =~= picks + seq![StatusMenuEntryView::Separator] + note);
        lemma_joined_asks_for_no_key(picks, seq![StatusMenuEntryView::Separator]);
        lemma_joined_asks_for_no_key(picks + seq![StatusMenuEntryView::Separator], note);
    }
    assert(asks_for_no_key(launchers)) by {
        let ides = launch_entries(tools, selected, ToolType::IDE);
        let clis = launch_entries(tools, selected, ToolType::CLI);
        lemma_launchers_ask_for_no_key(tools, selected, ToolType::IDE);
        lemma_launchers_ask_for_no_key(tools, selected, ToolType::CLI);
        let ide_part = seq![label("IDE & Apps"@)] + ides + seq![StatusMenuEntryView::Separator];
        let cli_part = seq![label("CLI Tools (pick folder → Ghostty)"@)] + clis;
        lemma_joined_asks_for_no_key(seq![label("IDE & Apps"@)], ides);
        lemma_joined_asks_for_no_key(seq![label("IDE & Apps"@)] + ides, seq![StatusMenuEntryView::Separator]);
        lemma_joined_asks_for_no_key(seq![label("CLI Tools (pick folder → Ghostty)"@)], clis);
        lemma_joined_asks_for_no_key(when(ides.len() > 0, ide_part), when(clis.len() > 0, cli_part));
    }
    lemma_joined_asks_for_no_key(selection, launchers);
    lemma_joined_asks_for_no_key(selection + launchers, action_entries());
    if has_kimi {
        lemma_joined_asks_for_no_key(usage, setup);
        lemma_joined_asks_for_no_key(usage + setup, rest);
        if all.contains(set_kimi_key_entry()) {
            let k = choose|k: int| 0 <= k < all.len() && all[k] == set_kimi_key_entry();
            assert(all[k] is Action);
        }
    }
}

/// The classic status menu, given the name of the monitored service, whether
/// each service has accepted credentials, the "updated" line, the detected
/// tools and the ids of the selected ones.
pub fn status_menu(
    monitoring: &str,
    has_kimi: bool,
    has_codex: bool,
    updated: &str,
    tools: &[ToolInfo],
    selected: &[String],
) -> (entries: Vec<StatusMenuEntry>)
    ensures
        status_entry_views(entries@) == status_menu_entries(
            monitoring@,
            has_kimi,
            has_codex,
            updated@,
            tools@,
            selected@,
        ),
        status_entry_views(entries@).contains(set_kimi_key_entry()) <==> !has_kimi,
        !has_codex ==> status_entry_views(entries@).contains(codex_login_entry()),
{
    let mut entries: Vec<StatusMenuEntry> = Vec::new();
    push_usage(&mut entries, monitoring, has_kimi, has_codex, updated);
    push_setup(&mut entries, has_kimi, has_codex);
    push_selection(&mut entries, tools, selected);
    push_launchers(&mut entries, tools, selected);
    push_actions(&mut entries);
    proof {
        assert(status_entry_views(entries@) =~= status_menu_entries(
            monitoring@,
            has_kimi,
            has_codex,
            updated@,
            tools@,
            selected@,
        ));
        the_menu_asks_for_missing_credentials(monitoring@, has_kimi, has_codex, updated@, tools@, selected@);
    }
    entries
}

/// The ids of the installed tools, in order.
pub open spec fn installed_ids(tools: Seq<ToolInfo>) -> Seq<Seq<char>>
    decreases tools.len(),
{
    if tools.len() == 0 {
        Seq::empty()
    } else if tools.last().installed {
        installed_ids(tools.drop_last()).push(tools.last().id@)
    } else {
        installed_ids(tools.drop_last())
    }
}

/// The tools selected on a first run: every installed tool.
pub fn installed_tool_ids(tools: &[ToolInfo]) -> (ids: Vec<String>)
    ensures
        ids@.map_values(|s: String| s@) == installed_ids(tools@),
{
    let mut ids: Vec<String> = Vec::new();
    let mut i: usize = 0;
    while i < tools.len()
        invariant
            i <= tools@.len(),
            ids@.map_values(|s: String| s@) == installed_ids(tools@.take(i as int)),
        decreases tools@.len() - i,
    {
        proof {
            assert(tools@.take(i + 1).drop_last() =~= tools@.take(i as int));
        }
        if tools[i].installed {
            let id = tools[i].id.clone();
            let ghost before = ids@;
            ids.push(id);
            proof {
                assert(ids@.map_values(|s: String| s@) =~= before.map_values(|s: String| s@).push(
                    id@,
                ));
            }
        }
        i += 1;
    }
    proof {
        assert(tools@.take(tools@.len() as int) =~= tools@);
    }
    ids
}

} // verus!

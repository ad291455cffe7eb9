use quota_control::menu::{
    has_valid_credentials, installed_tool_ids, kimi_tray_visible, monitored_service, status_menu,
    tray_command, tray_menu, tray_refresh, updated_line, StatusAction, StatusMenuEntry,
    TrayCommand, TrayMenuEntry, TrayRefresh,
};
use quota_control::refresh::{finish_refresh, services_to_query};
use quota_control::selection::{is_text_before, toggle_tool_selection};
use quota_control::types::{AppRuntimeState, QuotaTier, ServiceQuota, ToolInfo, ToolType};

fn item(id: &str, label: &str, enabled: bool) -> TrayMenuEntry {
    TrayMenuEntry::Item {
        id: id.to_string(),
        label: label.to_string(),
        enabled,
    }
}

fn label(text: &str) -> StatusMenuEntry {
    StatusMenuEntry::Label(text.to_string())
}

fn tool(id: &str, name: &str, tool_type: ToolType, installed: bool) -> ToolInfo {
    ToolInfo {
        id: id.to_string(),
        name: name.to_string(),
        tool_type,
        installed,
        install_path: None,
        launch_as: None,
    }
}

#[test]
fn the_tray_menu_lists_shown_services_and_the_chatgpt_launcher() {
    let menu = tray_menu(Some("h1% · w2% · 够"), None, true, false);
    assert_eq!(
        menu,
        vec![
            item("open_dashboard", "打开控制台", true),
            TrayMenuEntry::Separator,
            item("kimi_status", "Kimi Code: h1% · w2% · 够", false),
            item("refresh_usage", "刷新用量", true),
            TrayMenuEntry::Separator,
            item("launch_chatgpt_7897", "通过 7897 代理打开 ChatGPT", true),
            TrayMenuEntry::Separator,
            item("quit", "退出", true),
        ]
    );
    let without_chatgpt = tray_menu(None, Some("x"), false, false);
    assert_eq!(without_chatgpt[2], item("codex_status", "Codex: x", false));
    assert_eq!(
        without_chatgpt[5],
        item("launch_chatgpt_7897", "未找到 ChatGPT.app", false)
    );
}

#[test]
fn tray_commands_follow_the_entry_ids() {
    assert_eq!(tray_command("open_dashboard"), Some(TrayCommand::OpenDashboard));
    assert_eq!(tray_command("refresh_usage"), Some(TrayCommand::RefreshUsage));
    assert_eq!(tray_command("launch_chatgpt_7897"), Some(TrayCommand::LaunchChatGpt));
    assert_eq!(tray_command("quit"), Some(TrayCommand::Quit));
    assert_eq!(tray_command("kimi_status"), None);
    assert_eq!(tray_refresh(true, false), TrayRefresh::Update);
    assert_eq!(tray_refresh(false, true), TrayRefresh::Create);
    assert_eq!(tray_refresh(false, false), TrayRefresh::Skip);
    assert!(kimi_tray_visible(true, &Ok(Some("sk".to_string()))));
    assert!(!kimi_tray_visible(true, &Ok(None)));
    assert!(!kimi_tray_visible(true, &Err("locked".to_string())));
    assert!(!kimi_tray_visible(false, &Ok(Some("sk".to_string()))));
}

#[test]
fn the_classic_menu_without_credentials_or_tools() {
    let menu = status_menu("Codex", false, false, "  Updated: never", &[], &[]);
    assert_eq!(
        menu,
        vec![
            label("Monitoring: Codex"),
            StatusMenuEntry::Separator,
            label("  Configure API keys to see usage"),
            label("  Updated: never"),
            StatusMenuEntry::Separator,
            StatusMenuEntry::Action {
                title: "\u{26A0} Set Kimi API Key...".to_string(),
                action: StatusAction::SetKimiKey
            },
            label("\u{26A0} Codex: login with 'codex login' in terminal"),
            StatusMenuEntry::Separator,
            label("Tool Selection"),
            label("  No detected tools"),
            StatusMenuEntry::Separator,
            label("No tools selected"),
            StatusMenuEntry::Separator,
            StatusMenuEntry::Separator,
            StatusMenuEntry::Action {
                title: "Refresh Now".to_string(),
                action: StatusAction::RefreshNow
            },
            StatusMenuEntry::Separator,
            StatusMenuEntry::Action {
                title: "Quit".to_string(),
                action: StatusAction::Quit
            },
        ]
    );
}

#[test]
fn the_classic_menu_lists_selected_apps_and_command_line_tools() {
    let mut cursor = tool("cursor", "Cursor", ToolType::IDE, true);
    cursor.launch_as = Some("Cursor.app".to_string());
    let mut codex = tool("codex_cli", "Codex CLI", ToolType::CLI, true);
    codex.install_path = Some("/usr/local/bin/codex".to_string());
    let idle = tool("zed", "Zed", ToolType::IDE, false);
    let tools = vec![cursor, codex, idle];
    let selected = vec!["codex_cli".to_string(), "cursor".to_string()];
    let menu = status_menu("Kimi Code", true, true, "  Updated: 5s ago", &tools, &selected);
    assert_eq!(
        menu,
        vec![
            label("Monitoring: Kimi Code"),
            StatusMenuEntry::Separator,
            StatusMenuEntry::UsageSection("Kimi Code".to_string()),
            StatusMenuEntry::UsageSection("Codex".to_string()),
            label("  Updated: 5s ago"),
            StatusMenuEntry::Separator,
            StatusMenuEntry::Separator,
            label("Tool Selection"),
            StatusMenuEntry::ToolToggle {
                label: "    IDE: Cursor".to_string(),
                tool_id: "cursor".to_string(),
                checked: true
            },
            StatusMenuEntry::ToolToggle {
                label: "    CLI: Codex CLI".to_string(),
                tool_id: "codex_cli".to_string(),
                checked: true
            },
            StatusMenuEntry::ToolToggle {
                label: "    IDE: Zed".to_string(),
                tool_id: "zed".to_string(),
                checked: false
            },
            StatusMenuEntry::Separator,
            label("IDE & Apps"),
            StatusMenuEntry::OpenTool {
                label: "    Cursor.app".to_string(),
                launch_name: "Cursor.app".to_string()
            },
            StatusMenuEntry::Separator,
            label("CLI Tools (pick folder → Ghostty)"),
            StatusMenuEntry::OpenCli {
                label: "    Codex CLI".to_string(),
                binary: "/usr/local/bin/codex".to_string()
            },
            StatusMenuEntry::Separator,
            StatusMenuEntry::Action {
                title: "Refresh Now".to_string(),
                action: StatusAction::RefreshNow
            },
            StatusMenuEntry::Separator,
            StatusMenuEntry::Action {
                title: "Quit".to_string(),
                action: StatusAction::Quit
            },
        ]
    );
    assert_eq!(installed_tool_ids(&tools), vec!["cursor", "codex_cli"]);
}

#[test]
fn the_most_recently_queried_service_is_monitored() {
    assert_eq!(monitored_service(Some(900), Some(800), 1_000), "Kimi Code");
    assert_eq!(monitored_service(Some(800), Some(900), 1_000), "Codex");
    assert_eq!(monitored_service(None, None, 1_000), "Codex");
    assert_eq!(monitored_service(Some(1), None, 1_000), "Kimi Code");
    assert_eq!(updated_line(None, None, 5_000), "  Updated: never");
    assert_eq!(updated_line(Some(1_000), Some(3_000), 65_500), "  Updated: 1m ago");
    assert_eq!(updated_line(Some(9_000), None, 5_000), "  Updated: 0s ago");
}

#[test]
fn refresh_queries_monitored_services_and_keeps_their_results() {
    assert_eq!(services_to_query(&["codex".to_string()]), (false, true));
    let quota = ServiceQuota {
        service: "codex".to_string(),
        display_name: "Codex".to_string(),
        success: true,
        tiers: vec![QuotaTier {
            name: "seven_day".to_string(),
            utilization: 100.0,
            resets_at: Some("2026-07-30T00:00:00Z".to_string()),
            used: None,
            limit: None,
            remaining: None,
        }],
        error: None,
        queried_at: Some(1),
        credential_valid: true,
    };
    let mut events = Vec::new();
    let mut runtime = AppRuntimeState::new();
    finish_refresh(&mut events, &mut runtime, None, &[], Some(quota.clone()), &[true], 42);
    assert_eq!(events.len(), 1);
    assert_eq!(events[0].reached_at_secs, 42);
    assert_eq!(runtime.kimi_quota, None);
    assert_eq!(runtime.codex_quota, Some(quota.clone()));
    assert!(has_valid_credentials(&Some(quota)));
    assert!(!has_valid_credentials::<f64>(&None));
}

#[test]
fn toggling_a_tool_removes_it_or_adds_it_in_order() {
    let mut selected = vec!["zed".to_string(), "cursor".to_string(), "zed".to_string()];
    toggle_tool_selection(&mut selected, "zed");
    assert_eq!(selected, vec!["cursor", "zed"]);
    toggle_tool_selection(&mut selected, "codex_cli");
    assert_eq!(selected, vec!["codex_cli", "cursor", "zed"]);
    let mut unsorted = vec!["b".to_string(), "a".to_string(), "b".to_string()];
    toggle_tool_selection(&mut unsorted, "c");
    assert_eq!(unsorted, vec!["a", "b", "c"]);
    let mut empty: Vec<String> = Vec::new();
    toggle_tool_selection(&mut empty, "x");
    assert_eq!(empty, vec!["x"]);
    assert!(is_text_before("ab", "abc"));
    assert!(is_text_before("Z", "a"));
    assert!(!is_text_before("b", "abc"));
    assert!(!is_text_before("same", "same"));
}

use quota_control::chatgpt::{
    chatgpt_launch_spec, chatgpt_menu_item, is_runnable_file, validate_launch_state,
};
use quota_control::launcher::{
    applescript_string, cli_folder_command, resolve_launch, resolve_launch_given, shell_quote,
};
use quota_control::types::{ToolInfo, ToolType};

fn is_file(path: &str) -> bool {
    std::path::Path::new(path).is_file()
}

fn cli(path: &str) -> ToolInfo {
    ToolInfo {
        id: "codex_cli".to_string(),
        name: "Codex CLI".to_string(),
        tool_type: ToolType::CLI,
        installed: true,
        install_path: Some(path.to_string()),
        launch_as: None,
    }
}

#[test]
fn cli_rejects_config_directory_as_executable() {
    let error = resolve_launch(&cli("/Users/test/.codex"), Some("/Users/test"), true, is_file)
        .unwrap_err();

    assert!(error.contains("not an executable file"));
}

#[test]
fn ide_uses_open_application_name() {
    let tool = ToolInfo {
        id: "vscode".to_string(),
        name: "VS Code".to_string(),
        tool_type: ToolType::IDE,
        installed: true,
        install_path: Some("/Applications/Visual Studio Code.app".to_string()),
        launch_as: Some("Visual Studio Code".to_string()),
    };

    let resolved = resolve_launch(&tool, None, false, is_file).unwrap();

    assert_eq!(resolved.command, ["open", "-a", "Visual Studio Code"]);
}

#[test]
fn ghostty_command_uses_open_with_zsh_login_command() {
    // A file that exists on every machine these tests run on.
    let path = "/bin/sh";
    let resolved = resolve_launch(
        &cli(path),
        Some("/Users/test/Project A"),
        true,
        is_file,
    )
    .unwrap();

    assert_eq!(
        &resolved.command[0..6],
        ["open", "-na", "Ghostty.app", "--args", "-e", "/bin/zsh"]
    );
    assert!(resolved
        .command
        .last()
        .unwrap()
        .contains("cd '/Users/test/Project A'"));
}

#[test]
fn only_the_install_path_of_a_command_line_tool_is_checked() {
    let asked = std::cell::RefCell::new(Vec::new());
    let check = |path: &str| {
        asked.borrow_mut().push(path.to_string());
        true
    };
    let resolved = resolve_launch(&cli("/opt/codex"), Some("/w"), true, check).unwrap();
    assert_eq!(resolved.command[7], "cd '/w' && exec '/opt/codex'");
    assert_eq!(*asked.borrow(), vec!["/opt/codex".to_string()]);
    let mut ide = cli("/Applications/Cursor.app");
    ide.tool_type = ToolType::IDE;
    resolve_launch(&ide, None, false, check).unwrap();
    assert_eq!(asked.borrow().len(), 1);
}

#[test]
fn ghostty_launch_enters_the_folder_with_a_zsh_login_shell() {
    let resolved =
        resolve_launch_given(&cli("/usr/local/bin/codex"), Some("/Users/test/Project A"), true, true)
            .unwrap();
    assert_eq!(
        resolved.command,
        [
            "open",
            "-na",
            "Ghostty.app",
            "--args",
            "-e",
            "/bin/zsh",
            "-lc",
            "cd '/Users/test/Project A' && exec '/usr/local/bin/codex'"
        ]
    );
    let terminal =
        resolve_launch_given(&cli("/bin/co\"dex"), Some("/p"), false, true).unwrap();
    assert_eq!(
        terminal.command,
        [
            "osascript",
            "-e",
            "tell application \"Terminal\" to do script \"cd '/p' && exec '/bin/co\\\"dex'\""
        ]
    );
}

#[test]
fn cli_launch_needs_a_path_and_a_folder() {
    let mut no_path = cli("x");
    no_path.install_path = None;
    assert_eq!(
        resolve_launch_given(&no_path, Some("/p"), true, false),
        Err("Codex CLI has no executable path".to_string())
    );
    assert_eq!(
        resolve_launch_given(&cli("/bin/codex"), None, true, true),
        Err("Project folder is required".to_string())
    );
}

#[test]
fn shell_quote_handles_spaces_and_single_quotes() {
    assert_eq!(
        shell_quote("/Users/test/Project's Folder"),
        "'/Users/test/Project'\\''s Folder'"
    );
}

#[test]
fn applescript_string_escapes_quotes_and_backslashes() {
    assert_eq!(
        applescript_string("cd \"/Users/test\" && echo \\ok"),
        "\"cd \\\"/Users/test\\\" && echo \\\\ok\""
    );
}

#[test]
fn folder_commands_open_ghostty_or_terminal() {
    assert_eq!(
        cli_folder_command("/w", "codex", true),
        ["open", "-a", "Ghostty", "--args", "-e", "/bin/zsh", "-c", "cd '/w' && 'codex'"]
    );
    assert_eq!(
        cli_folder_command("/w", "codex", false),
        [
            "osascript",
            "-e",
            "tell application \"Terminal\" to do script \"cd '/w' && 'codex'\""
        ]
    );
}

#[test]
fn launch_spec_matches_the_7897_shell_launcher_contract() {
    let spec = chatgpt_launch_spec();

    assert_eq!(
        spec.executable,
        "/Applications/ChatGPT.app/Contents/MacOS/ChatGPT"
    );
    assert!(spec.args.contains(&"--proxy-server=http://127.0.0.1:7897"));
    assert!(spec
        .args
        .contains(&"--proxy-bypass-list=localhost;127.0.0.1;::1"));
    assert_eq!(spec.env("HTTP_PROXY"), Some("http://127.0.0.1:7897"));
    assert_eq!(spec.env("HTTPS_PROXY"), Some("http://127.0.0.1:7897"));
    assert_eq!(spec.env("ALL_PROXY"), Some("socks5://127.0.0.1:7897"));
    assert_eq!(spec.env("NO_PROXY"), Some("localhost,127.0.0.1,::1"));
    assert_eq!(spec.env("http_proxy"), spec.env("HTTP_PROXY"));
    assert_eq!(spec.env("https_proxy"), spec.env("HTTPS_PROXY"));
    assert_eq!(spec.env("all_proxy"), spec.env("ALL_PROXY"));
    assert_eq!(spec.env("no_proxy"), spec.env("NO_PROXY"));
    assert_eq!(spec.env("PATH"), None);
}

#[test]
fn launch_validation_rejects_missing_or_running_chatgpt() {
    assert_eq!(
        validate_launch_state(false, false),
        Err("未找到 /Applications/ChatGPT.app".to_string())
    );
    assert_eq!(
        validate_launch_state(true, true),
        Err("ChatGPT 已在运行，请先完全退出后再使用 7897 代理启动".to_string())
    );
    assert_eq!(validate_launch_state(true, false), Ok(()));
}

#[test]
fn chatgpt_counts_as_installed_only_as_an_executable_file() {
    assert!(is_runnable_file(true, 0o755));
    assert!(is_runnable_file(true, 0o100));
    assert!(!is_runnable_file(true, 0o644));
    assert!(!is_runnable_file(false, 0o755));
    assert_eq!(chatgpt_menu_item(false, false), ("未找到 ChatGPT.app", false));
    assert_eq!(
        chatgpt_menu_item(true, true),
        ("ChatGPT 已运行，请先完全退出", false)
    );
    assert_eq!(chatgpt_menu_item(true, false), ("通过 7897 代理打开 ChatGPT", true));
}

//! How the ChatGPT desktop application is started behind the local proxy on
//! port 7897, and when it may be started.
use crate::text::same_text;
use vstd::prelude::*;

verus! {

/// The ChatGPT executable.
pub const CHATGPT_EXECUTABLE: &'static str = "/Applications/ChatGPT.app/Contents/MacOS/ChatGPT";

/// The HTTP form of the local proxy.
pub const PROXY_HTTP: &'static str = "http://127.0.0.1:7897";

/// The SOCKS form of the local proxy.
pub const PROXY_SOCKS: &'static str = "socks5://127.0.0.1:7897";

/// Hosts that bypass the proxy.
pub const NO_PROXY: &'static str = "localhost,127.0.0.1,::1";

/// The program, arguments and environment ChatGPT is started with.
#[derive(Debug, PartialEq, Eq)]
pub struct ChatGptLaunchSpec {
    pub executable: &'static str,
    pub args: [&'static str; 2],
    pub environment: [(&'static str, &'static str); 8],
}

/// The environment of the launch, as names and values.
pub open spec fn environment_of(spec: ChatGptLaunchSpec) -> Seq<(Seq<char>, Seq<char>)> {
    spec.environment@.map_values(|e: (&'static str, &'static str)| (e.0@, e.1@))
}

/// Whether `i` is the first entry of `entries` named `name`.
pub open spec fn is_first_named(entries: Seq<(Seq<char>, Seq<char>)>, name: Seq<char>, i: int) -> bool {
    0 <= i < entries.len() && entries[i].0 == name && forall|j: int|
        0 <= j < i ==> #[trigger] entries[j].0 != name
}

impl ChatGptLaunchSpec {
    /// The value of the first environment entry named `name`, if any.
    pub fn env(&self, name: &str) -> (value: Option<&'static str>)
        ensures
            match value {
                Some(v) => exists|i: int|
                    #[trigger] is_first_named(environment_of(*self), name@, i) && environment_of(
                        *self,
                    )[i].1 == v@,
                None => forall|i: int|
                    0 <= i < environment_of(*self).len() ==> #[trigger] environment_of(*self)[i].0
                        != name@,
            },
    {
        let ghost entries = environment_of(*self);
        let mut i: usize = 0;
        while i < 8
            invariant
                i <= 8,
                entries == environment_of(*self),
                entries.len() == 8,
                forall|j: int| 0 <= j < i ==> #[trigger] entries[j].0 != name@,
            decreases 8 - i,
        {
            let (key, value) = self.environment[i];
            if same_text(key, name) {
                proof {
                    assert(entries[i as int] == (key@, value@));
                    assert(is_first_named(entries, name@, i as int));
                }
                return Some(value);
            }
            proof {
                assert(entries[i as int] == (key@, value@));
            }
            i += 1;
        }
        None
    }
}

/// The launch of ChatGPT: its executable, proxy arguments, and the proxy
/// variables in upper and lower case.
pub fn chatgpt_launch_spec() -> (spec: ChatGptLaunchSpec)
    ensures
        spec.executable@ == CHATGPT_EXECUTABLE@,
        spec.args@.map_values(|a: &'static str| a@) == seq![
            "--proxy-server=http://127.0.0.1:7897"@,
            "--proxy-bypass-list=localhost;127.0.0.1;::1"@,
        ],
        environment_of(spec) == seq![
            ("HTTP_PROXY"@, PROXY_HTTP@),
            ("HTTPS_PROXY"@, PROXY_HTTP@),
            ("ALL_PROXY"@, PROXY_SOCKS@),
            ("NO_PROXY"@, NO_PROXY@),
            ("http_proxy"@, PROXY_HTTP@),
            ("https_proxy"@, PROXY_HTTP@),
            ("all_proxy"@, PROXY_SOCKS@),
            ("no_proxy"@, NO_PROXY@),
        ],
{
    let spec = ChatGptLaunchSpec {
        executable: CHATGPT_EXECUTABLE,
        args: ["--proxy-server=http://127.0.0.1:7897", "--proxy-bypass-list=localhost;127.0.0.1;::1"],
        environment: [
            ("HTTP_PROXY", PROXY_HTTP),
            ("HTTPS_PROXY", PROXY_HTTP),
            ("ALL_PROXY", PROXY_SOCKS),
            ("NO_PROXY", NO_PROXY),
            ("http_proxy", PROXY_HTTP),
            ("https_proxy", PROXY_HTTP),
            ("all_proxy", PROXY_SOCKS),
            ("no_proxy", NO_PROXY),
        ],
    };
    proof {
        assert(spec.args@.map_values(|a: &'static str| a@) =~= seq![
            "--proxy-server=http://127.0.0.1:7897"@,
            "--proxy-bypass-list=localhost;127.0.0.1;::1"@,
        ]);
        assert(environment_of(spec) =~= seq![
            ("HTTP_PROXY"@, PROXY_HTTP@),
            ("HTTPS_PROXY"@, PROXY_HTTP@),
            ("ALL_PROXY"@, PROXY_SOCKS@),
            ("NO_PROXY"@, NO_PROXY@),
            ("http_proxy"@, PROXY_HTTP@),
            ("https_proxy"@, PROXY_HTTP@),
            ("all_proxy"@, PROXY_SOCKS@),
            ("no_proxy"@, NO_PROXY@),
        ]);
    }
    spec
}

/// The message when ChatGPT is not installed.
pub open spec fn missing_app_message() -> Seq<char> {
    "未找到 /Applications/ChatGPT.app"@
}

/// The message when ChatGPT is already running.
pub open spec fn already_running_message() -> Seq<char> {
    "ChatGPT 已在运行，请先完全退出后再使用 7897 代理启动"@
}

/// ChatGPT may be started when it is installed and not running.
pub fn validate_launch_state(installed: bool, running: bool) -> (result: Result<(), String>)
    ensures
        match result {
            Ok(()) => installed && !running,
            Err(message) => if !installed {
                message@ == missing_app_message()
            } else {
                running && message@ == already_running_message()
            },
        },
{
    if !installed {
        return Err(String::from_str("未找到 /Applications/ChatGPT.app"));
    }
    if running {
        return Err(String::from_str("ChatGPT 已在运行，请先完全退出后再使用 7897 代理启动"));
    }
    Ok(())
}

/// A file is runnable when it is a regular file with an execute bit set.
pub fn is_runnable_file(is_file: bool, mode: u32) -> (runnable: bool)
    ensures
        runnable == (is_file && mode & 0o111 != 0),
{
    is_file && mode & 0o111 != 0
}

/// The label of the menu item that starts ChatGPT.
pub open spec fn chatgpt_item_label(installed: bool, running: bool) -> Seq<char> {
    if !installed {
        "未找到 ChatGPT.app"@
    } else if running {
        "ChatGPT 已运行，请先完全退出"@
    } else {
        "通过 7897 代理打开 ChatGPT"@
    }
}

/// The label and enabled state of the menu item that starts ChatGPT.
pub fn chatgpt_menu_item(installed: bool, running: bool) -> (item: (&'static str, bool))
    ensures
        item.0@ == chatgpt_item_label(installed, running),
        item.1 == (installed && !running),
{
    if !installed {
        ("未找到 ChatGPT.app", false)
    } else if running {
        ("ChatGPT 已运行，请先完全退出", false)
    } else {
        ("通过 7897 代理打开 ChatGPT", true)
    }
}

} // verus!

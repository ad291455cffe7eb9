//! Choosing the proxy for a service's requests, and describing the choice.
use crate::text::{decimal_text, push_decimal, same_text};
use crate::types::{ProxyMode, ProxyTestResult, ServiceProxyConfig};
use vstd::prelude::*;

verus! {

/// What a service's requests go through.
#[derive(Debug, Clone, PartialEq, Eq)]
pub enum ProxySelection {
    Direct,
    Proxy(String),
    Unavailable(String),
}

/// The view of a proxy selection.
pub enum SelectionView {
    Direct,
    Proxy(Seq<char>),
    Unavailable(Seq<char>),
}

impl View for ProxySelection {
    type V = SelectionView;

    open spec fn view(&self) -> SelectionView {
        match self {
            ProxySelection::Direct => SelectionView::Direct,
            ProxySelection::Proxy(url) => SelectionView::Proxy(url@),
            ProxySelection::Unavailable(message) => SelectionView::Unavailable(message@),
        }
    }
}

/// The scheme and host that the `url` crate reads from a URL, if it reads one.
pub uninterp spec fn url_scheme_and_host(text: Seq<char>) -> Option<(Seq<char>, Option<Seq<char>>)>;

/// Calls `url::Url::parse` and takes the scheme (`Url::scheme`) and the host
/// (`Url::host_str`) of the result, named by `url_scheme_and_host`.
#[verifier::external_body]
fn parse_scheme_and_host(text: &str) -> (parts: Option<(String, Option<String>)>)
    ensures
        match parts {
            Some((scheme, host)) => url_scheme_and_host(text@) == Some(
                (scheme@, crate::types::opt_str(host)),
            ),
            None => url_scheme_and_host(text@) is None,
        },
{
    match url::Url::parse(text) {
        Ok(url) => Some((url.scheme().to_string(), url.host_str().map(|host| host.to_string()))),
        Err(_) => None,
    }
}

/// A proxy URL is usable when it reads as a URL with scheme http, https or
/// socks5 and a host.
pub open spec fn valid_proxy_url(text: Seq<char>) -> bool {
    match url_scheme_and_host(text) {
        Some((scheme, host)) => (scheme == "http"@ || scheme == "https"@ || scheme == "socks5"@)
            && host is Some,
        None => false,
    }
}

/// Whether a proxy URL is usable.
pub fn is_valid_proxy_url(value: &str) -> (valid: bool)
    ensures
        valid == valid_proxy_url(value@),
{
    match parse_scheme_and_host(value) {
        Some((scheme, host)) => (same_text(scheme.as_str(), "http") || same_text(
            scheme.as_str(),
            "https",
        ) || same_text(scheme.as_str(), "socks5")) && host.is_some(),
        None => false,
    }
}

/// The local proxy address on `port`.
pub open spec fn local_proxy_url(port: u16) -> Seq<char> {
    "http://127.0.0.1:"@ + decimal_text(port as nat)
}

/// The proxies that automatic mode tries, in order: the configured URL when
/// it is set and not empty, then the local proxy on each automatic port.
pub open spec fn proxy_candidates(proxy_url: Option<Seq<char>>, ports: Seq<u16>) -> Seq<Seq<char>> {
    let configured = match proxy_url {
        Some(url) => if url.len() > 0 {
            seq![url]
        } else {
            Seq::empty()
        },
        None => Seq::empty(),
    };
    configured + ports.map_values(|port: u16| local_proxy_url(port))
}

/// The proxies that automatic mode tries, in order.
pub fn auto_candidates(config: &ServiceProxyConfig) -> (candidates: Vec<String>)
    ensures
        candidates@.map_values(|c: String| c@) == proxy_candidates(
            crate::types::opt_str(config.proxy_url),
            config.auto_ports@,
        ),
{
    let mut candidates: Vec<String> = Vec::new();
    if let Some(url) = &config.proxy_url {
        if !url.as_str().is_empty() {
            candidates.push(url.clone());
        }
    }
    let ghost head = candidates@.map_values(|c: String| c@);
    let mut i: usize = 0;
    while i < config.auto_ports.len()
        invariant
            i <= config.auto_ports@.len(),
            candidates@.map_values(|c: String| c@) == head + config.auto_ports@.take(i as int).map_values(
                |port: u16| local_proxy_url(port),
            ),
        decreases config.auto_ports@.len() - i,
    {
        let mut url = String::from_str("http://127.0.0.1:");
        push_decimal(&mut url, config.auto_ports[i] as u64);
        proof {
            assert(candidates@.push(url).map_values(|c: String| c@) =~= candidates@.map_values(
                |c: String| c@,
            ).push(url@));
            assert(config.auto_ports@.take(i + 1).map_values(|port: u16| local_proxy_url(port))
                =~= config.auto_ports@.take(i as int).map_values(|port: u16| local_proxy_url(port)).push(
                local_proxy_url(config.auto_ports@[i as int]),
            ));
        }
        candidates.push(url);
        i += 1;
    }
    proof {
        assert(config.auto_ports@.take(config.auto_ports@.len() as int) =~= config.auto_ports@);
        let configured = match crate::types::opt_str(config.proxy_url) {
            Some(url) => if url.len() > 0 {
                seq![url]
            } else {
                Seq::empty()
            },
            None => Seq::empty(),
        };
        assert(head =~= configured);
    }
    candidates
}

/// The message when forced proxy mode has an unusable URL.
pub open spec fn invalid_url_message() -> Seq<char> {
    "Invalid proxy URL"@
}

/// The message when forced proxy mode has no URL.
pub open spec fn missing_url_message() -> Seq<char> {
    "Proxy URL is required"@
}

/// Whether the probe `can_connect` answered `answer` for `url` and `timeout_ms`.
pub open spec fn probe_answered<F: Fn(&str, u64) -> bool>(
    can_connect: F,
    url: Seq<char>,
    timeout_ms: u64,
    answer: bool,
) -> bool {
    exists|s: &str| s@ == url && #[trigger] call_ensures(can_connect, (s, timeout_ms), answer)
}

/// Whether `selection` is how a service's requests go out under `config`,
/// with `can_connect` probing.
///
/// Off: directly. On: through the configured URL when it is usable; otherwise
/// unavailable. Auto: through the first candidate (see `proxy_candidates`)
/// that is usable and that `can_connect` accepts within the configured
/// timeout; directly when none is. Only usable candidates are probed.
pub open spec fn is_selection<F: Fn(&str, u64) -> bool>(
    config: ServiceProxyConfig,
    can_connect: F,
    selection: SelectionView,
) -> bool {
    &&& config.mode == ProxyMode::Off ==> selection == SelectionView::Direct
    &&& config.mode == ProxyMode::On ==> selection == match crate::types::opt_str(config.proxy_url) {
        Some(url) => if valid_proxy_url(url) {
            SelectionView::Proxy(url)
        } else {
            SelectionView::Unavailable(invalid_url_message())
        },
        None => SelectionView::Unavailable(missing_url_message()),
    }
    &&& config.mode == ProxyMode::Auto ==> {
        let candidates = proxy_candidates(crate::types::opt_str(config.proxy_url), config.auto_ports@);
        &&& selection is Direct || selection is Proxy
        &&& selection is Direct ==> forall|i: int|
            0 <= i < candidates.len() && valid_proxy_url(#[trigger] candidates[i]) ==> probe_answered(
                can_connect,
                candidates[i],
                config.timeout_ms,
                false,
            )
        &&& selection is Proxy ==> exists|i: int|
            0 <= i < candidates.len() && selection == SelectionView::Proxy(#[trigger] candidates[i])
                && valid_proxy_url(candidates[i]) && probe_answered(
                can_connect,
                candidates[i],
                config.timeout_ms,
                true,
            ) && forall|j: int|
                0 <= j < i && valid_proxy_url(#[trigger] candidates[j]) ==> probe_answered(
                    can_connect,
                    candidates[j],
                    config.timeout_ms,
                    false,
                )
    }
}

/// Whether a selection under `config` may probe `url` with `timeout_ms`: only
/// in automatic mode, only a usable candidate, only with the configured
/// timeout. Off and on modes never probe.
pub open spec fn may_probe(config: ServiceProxyConfig, url: Seq<char>, timeout_ms: u64) -> bool {
    &&& config.mode == ProxyMode::Auto
    &&& timeout_ms == config.timeout_ms
    &&& valid_proxy_url(url)
    &&& proxy_candidates(crate::types::opt_str(config.proxy_url), config.auto_ports@).contains(url)
}

/// Chooses how a service's requests go out (see `is_selection`). The probe
/// `can_connect` is needed only where `may_probe` allows; a call anywhere else
/// would not meet its `requires`, so none is made.
pub fn select_proxy<F: Fn(&str, u64) -> bool>(config: &ServiceProxyConfig, can_connect: F) -> (selection: ProxySelection)
    requires
        forall|s: &str, t: u64|
            may_probe(*config, s@, t) ==> #[trigger] call_requires(can_connect, (s, t)),
    ensures
        is_selection(*config, can_connect, selection@),
{
    match config.mode {
        ProxyMode::Off => ProxySelection::Direct,
        ProxyMode::On => match &config.proxy_url {
            Some(url) => if is_valid_proxy_url(url.as_str()) {
                ProxySelection::Proxy(url.clone())
            } else {
                ProxySelection::Unavailable(String::from_str("Invalid proxy URL"))
            },
            None => ProxySelection::Unavailable(String::from_str("Proxy URL is required")),
        },
        ProxyMode::Auto => {
            let candidates = auto_candidates(config);
            let ghost cands = candidates@.map_values(|c: String| c@);
            let mut i: usize = 0;
            while i < candidates.len()
                invariant
                    i <= candidates@.len(),
                    cands == candidates@.map_values(|c: String| c@),
                    config.mode == ProxyMode::Auto,
                    cands == proxy_candidates(crate::types::opt_str(config.proxy_url), config.auto_ports@),
                    forall|s: &str, t: u64|
                        may_probe(*config, s@, t) ==> #[trigger] call_requires(can_connect, (s, t)),
                    forall|j: int|
                        0 <= j < i && valid_proxy_url(#[trigger] cands[j]) ==> probe_answered(
                            can_connect,
                            cands[j],
                            config.timeout_ms,
                            false,
                        ),
                decreases candidates@.len() - i,
            {
                let candidate = candidates[i].as_str();
                if is_valid_proxy_url(candidate) {
                    proof {
                        assert(cands[i as int] == candidate@);
                        assert(may_probe(*config, candidate@, config.timeout_ms));
                    }
                    let accepted = can_connect(candidate, config.timeout_ms);
                    proof {
                        assert(cands[i as int] == candidate@);
                        assert(call_ensures(can_connect, (candidate, config.timeout_ms), accepted));
                        assert(probe_answered(can_connect, cands[i as int], config.timeout_ms, accepted));
                    }
                    if accepted {
                        let selected = ProxySelection::Proxy(candidates[i].clone());
                        proof {
                            assert(selected@ == SelectionView::Proxy(cands[i as int]));
                        }
                        return selected;
                    }
                }
                i += 1;
            }
            ProxySelection::Direct
        },
    }
}

/// The message shown for an unavailable proxy.
pub open spec fn unavailable_text(message: Seq<char>) -> Seq<char> {
    if message == invalid_url_message() {
        "代理地址无效，请使用 http、https 或 socks5 地址"@
    } else if message == missing_url_message() {
        "已开启强制代理，但尚未填写代理地址"@
    } else {
        "代理未连通："@ + message
    }
}

/// The message shown for an unavailable proxy.
pub fn localized_unavailable_message(message: &str) -> (text: String)
    ensures
        text@ == unavailable_text(message@),
{
    if same_text(message, "Invalid proxy URL") {
        String::from_str("代理地址无效，请使用 http、https 或 socks5 地址")
    } else if same_text(message, "Proxy URL is required") {
        String::from_str("已开启强制代理，但尚未填写代理地址")
    } else {
        let mut text = String::from_str("代理未连通：");
        text.append(message);
        text
    }
}

/// The test result shown for a selection.
pub open spec fn test_result_of(selection: SelectionView) -> (Seq<char>, Option<Seq<char>>, Seq<char>) {
    match selection {
        SelectionView::Proxy(url) => ("proxy"@, Some(url), "代理已连接："@ + url),
        SelectionView::Direct => ("direct"@, None, "未检测到可用代理，当前走直连"@),
        SelectionView::Unavailable(message) => ("unavailable"@, None, unavailable_text(message)),
    }
}

/// The test result shown for a selection.
pub fn proxy_test_result(selection: &ProxySelection) -> (result: ProxyTestResult)
    ensures
        (result.status@, crate::types::opt_str(result.proxy_url), result.message@) == test_result_of(
            selection@,
        ),
{
    match selection {
        ProxySelection::Proxy(url) => {
            let mut message = String::from_str("代理已连接：");
            message.append(url.as_str());
            ProxyTestResult {
                status: String::from_str("proxy"),
                proxy_url: Some(url.clone()),
                message,
            }
        },
        ProxySelection::Direct => ProxyTestResult {
            status: String::from_str("direct"),
            proxy_url: None,
            message: String::from_str("未检测到可用代理，当前走直连"),
        },
        ProxySelection::Unavailable(message) => ProxyTestResult {
            status: String::from_str("unavailable"),
            proxy_url: None,
            message: localized_unavailable_message(message.as_str()),
        },
    }
}

/// Tests a proxy configuration, probing candidates with `can_connect`.
pub fn test_proxy_config<F: Fn(&str, u64) -> bool>(config: &ServiceProxyConfig, can_connect: F) -> (result: ProxyTestResult)
    requires
        forall|s: &str, t: u64|
            may_probe(*config, s@, t) ==> #[trigger] call_requires(can_connect, (s, t)),
    ensures
        exists|selection: SelectionView|
            #[trigger] is_selection(*config, can_connect, selection) && (
            result.status@,
            crate::types::opt_str(result.proxy_url),
            result.message@,
        ) == test_result_of(selection),
{
    let selection = select_proxy(config, can_connect);
    proxy_test_result(&selection)
}

} // verus!

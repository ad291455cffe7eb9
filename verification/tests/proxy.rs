use quota_control::proxy::{
    auto_candidates, is_valid_proxy_url, localized_unavailable_message, proxy_test_result,
    select_proxy, test_proxy_config, ProxySelection,
};
use quota_control::types::{ProxyMode, ServiceProxyConfig};
use std::cell::RefCell;

fn config(mode: ProxyMode) -> ServiceProxyConfig {
    ServiceProxyConfig {
        mode,
        proxy_url: None,
        auto_ports: vec![7897, 7890],
        timeout_ms: 250,
    }
}

#[test]
fn auto_chooses_first_available_port() {
    let selected = select_proxy(&config(ProxyMode::Auto), |url, _| url.ends_with(":7897"));

    assert_eq!(
        selected,
        ProxySelection::Proxy("http://127.0.0.1:7897".to_string())
    );
}

#[test]
fn auto_falls_back_to_second_port() {
    let selected = select_proxy(&config(ProxyMode::Auto), |url, _| url.ends_with(":7890"));

    assert_eq!(
        selected,
        ProxySelection::Proxy("http://127.0.0.1:7890".to_string())
    );
}

#[test]
fn auto_returns_direct_when_no_proxy_available() {
    assert_eq!(
        select_proxy(&config(ProxyMode::Auto), |_, _| false),
        ProxySelection::Direct
    );
}

#[test]
fn on_requires_valid_proxy_url() {
    let mut config = config(ProxyMode::On);
    config.proxy_url = Some("not a url".to_string());

    assert!(matches!(
        select_proxy(&config, |_, _| true),
        ProxySelection::Unavailable(_)
    ));
}

#[test]
fn off_never_probes_ports() {
    let selected = select_proxy(&config(ProxyMode::Off), |_, _| panic!("should not probe"));

    assert_eq!(selected, ProxySelection::Direct);
}

#[test]
fn on_uses_a_valid_url_without_probing_and_needs_one() {
    let mut on = config(ProxyMode::On);
    on.proxy_url = Some("socks5://10.0.0.2:1080".to_string());
    assert_eq!(
        select_proxy(&on, |_, _| panic!("should not probe")),
        ProxySelection::Proxy("socks5://10.0.0.2:1080".to_string())
    );
    on.proxy_url = None;
    assert_eq!(
        select_proxy(&on, |_, _| true),
        ProxySelection::Unavailable("Proxy URL is required".to_string())
    );
    on.proxy_url = Some("ftp://host".to_string());
    assert_eq!(
        select_proxy(&on, |_, _| true),
        ProxySelection::Unavailable("Invalid proxy URL".to_string())
    );
}

#[test]
fn auto_tries_the_configured_url_first_with_the_timeout() {
    let mut auto = config(ProxyMode::Auto);
    auto.proxy_url = Some("http://proxy.local:3128".to_string());
    let probes = RefCell::new(Vec::new());
    let selected = select_proxy(&auto, |url, timeout| {
        probes.borrow_mut().push((url.to_string(), timeout));
        false
    });
    assert_eq!(selected, ProxySelection::Direct);
    assert_eq!(
        *probes.borrow(),
        vec![
            ("http://proxy.local:3128".to_string(), 250),
            ("http://127.0.0.1:7897".to_string(), 250),
            ("http://127.0.0.1:7890".to_string(), 250),
        ]
    );
    assert_eq!(
        auto_candidates(&auto),
        vec![
            "http://proxy.local:3128".to_string(),
            "http://127.0.0.1:7897".to_string(),
            "http://127.0.0.1:7890".to_string(),
        ]
    );
}

#[test]
fn auto_skips_invalid_candidates_without_probing_them() {
    let mut auto = config(ProxyMode::Auto);
    auto.proxy_url = Some("not a url".to_string());
    let probes = RefCell::new(Vec::new());
    let selected = select_proxy(&auto, |url, _| {
        probes.borrow_mut().push(url.to_string());
        true
    });
    assert_eq!(
        selected,
        ProxySelection::Proxy("http://127.0.0.1:7897".to_string())
    );
    assert_eq!(*probes.borrow(), vec!["http://127.0.0.1:7897".to_string()]);
}

#[test]
fn proxy_urls_need_a_known_scheme_and_a_host() {
    assert!(is_valid_proxy_url("http://127.0.0.1:7897"));
    assert!(is_valid_proxy_url("https://proxy.example"));
    assert!(is_valid_proxy_url("socks5://localhost:1080"));
    assert!(!is_valid_proxy_url("ftp://proxy.example"));
    assert!(!is_valid_proxy_url("http://"));
    assert!(!is_valid_proxy_url(""));
}

#[test]
fn test_results_describe_each_selection() {
    let proxy = proxy_test_result(&ProxySelection::Proxy("http://p:1".to_string()));
    assert_eq!(proxy.status, "proxy");
    assert_eq!(proxy.proxy_url.as_deref(), Some("http://p:1"));
    assert_eq!(proxy.message, "代理已连接：http://p:1");
    let direct = proxy_test_result(&ProxySelection::Direct);
    assert_eq!(direct.status, "direct");
    assert_eq!(direct.proxy_url, None);
    assert_eq!(direct.message, "未检测到可用代理，当前走直连");
    let invalid = proxy_test_result(&ProxySelection::Unavailable("Invalid proxy URL".to_string()));
    assert_eq!(invalid.status, "unavailable");
    assert_eq!(invalid.message, "代理地址无效，请使用 http、https 或 socks5 地址");
    assert_eq!(
        localized_unavailable_message("Proxy URL is required"),
        "已开启强制代理，但尚未填写代理地址"
    );
    assert_eq!(localized_unavailable_message("timeout"), "代理未连通：timeout");
    let tested = test_proxy_config(&config(ProxyMode::Auto), |_, _| false);
    assert_eq!(tested, direct);
}

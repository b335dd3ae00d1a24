use rcurl::proxy::{
    connect_request, connect_response_ok, get_proxy_from_env, headers_complete,
    resolve_proxy_plan, should_bypass_proxy, HttpForwardProxyConnector, ProxyEnv, ProxyPlan,
};

fn env_with(http: Option<&str>, https: Option<&str>, no_proxy: Option<&str>) -> ProxyEnv {
    ProxyEnv {
        https_proxy: https.map(|s| s.to_string()),
        https_proxy_lower: None,
        http_proxy: http.map(|s| s.to_string()),
        http_proxy_lower: None,
        all_proxy: None,
        all_proxy_lower: None,
        no_proxy: no_proxy.map(|s| s.to_string()),
        no_proxy_lower: None,
    }
}

#[test]
fn dot_suffix_entry_bypasses_subdomain_and_bare_domain() {
    assert!(should_bypass_proxy(Some("api.example.com"), Some(".example.com")));
    assert!(should_bypass_proxy(Some("example.com"), Some(".example.com")));
    assert!(!should_bypass_proxy(Some("notexample.com"), Some(".example.com")));
}

#[test]
fn bypass_list_entries_are_trimmed_and_matched_exactly() {
    assert!(should_bypass_proxy(Some("localhost"), Some("127.0.0.1, localhost ,.corp.net")));
    assert!(should_bypass_proxy(Some("db.corp.net"), Some("127.0.0.1, localhost ,.corp.net")));
    assert!(!should_bypass_proxy(Some("host.other"), Some("127.0.0.1, localhost ,.corp.net")));
    assert!(!should_bypass_proxy(Some("anything"), Some("")));
    assert!(!should_bypass_proxy(None, Some("example.com")));
    assert!(!should_bypass_proxy(Some("example.com"), None));
}

#[test]
fn proxy_url_yields_host_and_port() {
    let env = env_with(Some("http://127.0.0.1:7890"), None, None);
    assert_eq!(get_proxy_from_env("http", &env).unwrap(), "127.0.0.1:7890");
}

#[test]
fn proxy_url_defaults_ports_by_scheme() {
    let env = env_with(Some("http://proxy.example.com"), None, None);
    assert_eq!(get_proxy_from_env("http", &env).unwrap(), "proxy.example.com:80");
    let env2 = env_with(Some("https://proxy.example.com"), None, None);
    assert_eq!(get_proxy_from_env("http", &env2).unwrap(), "proxy.example.com:443");
}

#[test]
fn https_requests_read_the_https_variable_first() {
    let env = env_with(Some("http://a:1"), Some("http://b:2"), None);
    assert_eq!(get_proxy_from_env("https", &env).unwrap(), "b:2");
    assert_eq!(get_proxy_from_env("http", &env).unwrap(), "a:1");
}

#[test]
fn unsupported_proxy_scheme_means_no_proxy() {
    let env = env_with(Some("socks5://127.0.0.1:1080"), None, None);
    assert!(get_proxy_from_env("http", &env).is_none());
}

#[test]
fn bare_host_port_value_passes_through() {
    let env = env_with(Some("127.0.0.1:7890"), None, None);
    assert_eq!(get_proxy_from_env("http", &env).unwrap(), "127.0.0.1:7890");
}

#[test]
fn plan_tunnels_https_and_forwards_http() {
    let env = env_with(Some("http://p:3128"), Some("http://p:3128"), None);
    let plan = resolve_proxy_plan("https", Some("example.com"), false, &env);
    assert!(matches!(plan, ProxyPlan::Tunnel { .. }));
    let plan2 = resolve_proxy_plan("http", Some("example.com"), false, &env);
    match plan2 {
        ProxyPlan::ForwardProxy { proxy_addr } => assert_eq!(proxy_addr, "p:3128"),
        _ => panic!("expected a forward proxy"),
    }
}

#[test]
fn bypass_flag_and_list_win_over_configuration() {
    let env = env_with(Some("http://p:3128"), None, Some(".example.com"));
    assert!(matches!(
        resolve_proxy_plan("http", Some("x.example.com"), false, &env),
        ProxyPlan::NoProxy
    ));
    let env2 = env_with(Some("http://p:3128"), None, None);
    assert!(matches!(
        resolve_proxy_plan("http", Some("x.example.com"), true, &env2),
        ProxyPlan::NoProxy
    ));
}

#[test]
fn connect_request_text_is_exact() {
    let req = connect_request("example.com", 443);
    assert_eq!(
        req,
        "CONNECT example.com:443 HTTP/1.1\r\nHost: example.com:443\r\nProxy-Connection: Keep-Alive\r\n\r\n"
    );
}

#[test]
fn proxy_authentication_required_is_a_tunnel_failure() {
    assert!(!connect_response_ok("HTTP/1.1 407 Proxy Authentication Required"));
    assert!(connect_response_ok("HTTP/1.1 200 Connection established"));
    assert!(connect_response_ok("HTTP/1.0 200 OK"));
    assert!(!connect_response_ok("HTTP/1.1 500 Internal Server Error"));
    assert!(!connect_response_ok("garbage"));
}

#[test]
fn header_block_ends_at_blank_line() {
    let full: Vec<u8> = b"HTTP/1.1 200 OK\r\nVia: x\r\n\r\n".to_vec();
    assert!(headers_complete(&full));
    let partial: Vec<u8> = b"HTTP/1.1 200 OK\r\nVia: x\r\n".to_vec();
    assert!(!headers_complete(&partial));
    let tiny: Vec<u8> = b"\r\n".to_vec();
    assert!(!tiny.is_empty() && !headers_complete(&tiny));
}

#[test]
fn forward_proxy_connector_keeps_its_address() {
    let c = HttpForwardProxyConnector::new("p:3128".to_string());
    assert_eq!(c.proxy_addr, "p:3128");
}

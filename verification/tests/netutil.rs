use bridge_core::netutil::{macos_proxy, normalize, proxy_env_keys, proxy_from_env, windows_proxy};

#[test]
fn normalize_proxy_settings() {
    assert_eq!(normalize("  127.0.0.1:7890 "), Some("http://127.0.0.1:7890".to_string()));
    assert_eq!(normalize("https://p:1"), Some("https://p:1".to_string()));
    assert_eq!(normalize("socks5://p:1"), Some("socks5://p:1".to_string()));
    assert_eq!(normalize("   "), None);
    assert_eq!(normalize(""), None);
    let once = normalize("host:3128").unwrap();
    assert_eq!(normalize(&once), Some(once.clone()));
}

#[test]
fn environment_order() {
    assert_eq!(
        proxy_env_keys(),
        vec!["HTTPS_PROXY", "https_proxy", "ALL_PROXY", "all_proxy", "HTTP_PROXY", "http_proxy"]
    );
    let values = vec![None, Some("  ".to_string()), None, Some("a:1".to_string()), Some("b:2".to_string()), None];
    assert_eq!(proxy_from_env(&values), Some("http://a:1".to_string()));
    assert_eq!(proxy_from_env(&vec![None, None]), None);
}

#[test]
fn windows_registry_output() {
    let enable = "\r\nHKEY_CURRENT_USER\\Software\\Microsoft\\Windows\\CurrentVersion\\Internet Settings\r\n    ProxyEnable    REG_DWORD    0x1\r\n\r\n";
    let server = "\r\nHKEY_CURRENT_USER\\...\r\n    ProxyServer    REG_SZ    127.0.0.1:7890\r\n\r\n";
    assert_eq!(windows_proxy(enable, server), Some("http://127.0.0.1:7890".to_string()));
    let split = "    ProxyServer    REG_SZ    http=127.0.0.1:1;https=127.0.0.1:2\r\n";
    assert_eq!(windows_proxy(enable, split), Some("http://127.0.0.1:2".to_string()));
    let only_http = "    ProxyServer    REG_SZ    http=127.0.0.1:1\r\n";
    assert_eq!(windows_proxy(enable, only_http), Some("http://127.0.0.1:1".to_string()));
    let disabled = "    ProxyEnable    REG_DWORD    0x0\r\n";
    assert_eq!(windows_proxy(disabled, server), None);
    assert_eq!(windows_proxy("", server), None);
}

#[test]
fn macos_scutil_output() {
    let out = "<dictionary> {\n  HTTPEnable : 1\n  HTTPPort : 7890\n  HTTPProxy : 127.0.0.1\n  HTTPSEnable : 1\n}\n";
    assert_eq!(macos_proxy(out), Some("http://127.0.0.1:7890".to_string()));
    let no_port = "<dictionary> {\n  HTTPEnable : 1\n  HTTPProxy : proxy.local\n}\n";
    assert_eq!(macos_proxy(no_port), Some("http://proxy.local:80".to_string()));
    let off = "<dictionary> {\n  HTTPEnable : 0\n  HTTPProxy : p\n}\n";
    assert_eq!(macos_proxy(off), None);
}

#[test]
fn detected_proxies_are_urls() {
    for raw in ["  127.0.0.1:7890 ", "http://p:1", "https://p:2", "socks5://p:3", "\tp:4\n"] {
        let p = bridge_core::netutil::normalize(raw).unwrap();
        assert_eq!(p.trim(), p);
        assert!(!p.is_empty());
        assert!(p.starts_with("http://") || p.starts_with("https://") || p.starts_with("socks"));
    }
    assert_eq!(bridge_core::netutil::normalize("   "), None);
}

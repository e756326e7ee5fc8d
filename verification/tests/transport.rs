use kb_mcp::transport::{
    loopback_addr, HostAddress, HttpTransportConfig, SocketAddress, Transport, TransportConfig,
    TransportKind, TransportKindConfig,
};

fn v4(a: u8, b: u8, c: u8, d: u8, port: u16) -> SocketAddress {
    SocketAddress { host: HostAddress::V4 { a, b, c, d }, port }
}

fn http(addr: SocketAddress) -> Transport {
    Transport::Http { addr, allowed_hosts: None, healthz_public: true }
}

#[test]
fn test_resolve_default_is_stdio() {
    let t = Transport::resolve(None, None, None, None, None).unwrap();
    assert_eq!(t, Transport::Stdio);
}

#[test]
fn test_resolve_cli_http_default_bind() {
    let t = Transport::resolve(Some(TransportKind::Http), None, None, None, None).unwrap();
    assert_eq!(t, http(v4(127, 0, 0, 1, 3100)));
}

#[test]
fn test_resolve_cli_port_only() {
    let t = Transport::resolve(Some(TransportKind::Http), None, Some(4000), None, None).unwrap();
    assert_eq!(t, http(v4(127, 0, 0, 1, 4000)));
}

#[test]
fn test_resolve_cli_bind_full_wins() {
    let t = Transport::resolve(
        Some(TransportKind::Http),
        Some(v4(0, 0, 0, 0, 9000)),
        Some(4000),
        None,
        None,
    )
    .unwrap();
    assert_eq!(t, http(v4(0, 0, 0, 0, 9000)));
}

#[test]
fn test_resolve_cli_overrides_config() {
    let cfg = TransportConfig { kind: Some(TransportKindConfig::Http), http: None };
    let t = Transport::resolve(Some(TransportKind::Stdio), None, None, Some(&cfg), None).unwrap();
    assert_eq!(t, Transport::Stdio);
}

#[test]
fn test_resolve_http_section_implies_http_kind() {
    let cfg = TransportConfig {
        kind: None,
        http: Some(HttpTransportConfig {
            bind: Some("127.0.0.1:5555".into()),
            allowed_hosts: None,
            ..HttpTransportConfig::default()
        }),
    };
    let read = Some(Ok(v4(127, 0, 0, 1, 5555)));
    let t = Transport::resolve(None, None, None, Some(&cfg), read).unwrap();
    assert_eq!(t, http(v4(127, 0, 0, 1, 5555)));
}

#[test]
fn test_resolve_config_bind_malformed_is_error() {
    let cfg = TransportConfig {
        kind: Some(TransportKindConfig::Http),
        http: Some(HttpTransportConfig {
            bind: Some("not-an-address".into()),
            allowed_hosts: None,
            ..HttpTransportConfig::default()
        }),
    };
    let read = || Some(Err("invalid socket address syntax".to_string()));
    let err = Transport::resolve(None, None, None, Some(&cfg), read()).expect_err("must reject");
    assert!(err.contains("SocketAddr"));
    assert!(err.contains("not-an-address"));
    // an address from the command line makes the one of the configuration irrelevant
    let t = Transport::resolve(None, None, Some(1), Some(&cfg), read()).unwrap();
    assert_eq!(t, http(v4(127, 0, 0, 1, 1)));
}

#[test]
fn test_resolve_config_allowed_hosts_passes_through() {
    let cfg = TransportConfig {
        kind: Some(TransportKindConfig::Http),
        http: Some(HttpTransportConfig {
            bind: Some("0.0.0.0:3100".into()),
            allowed_hosts: Some(vec![
                "kb.example.lan".to_string(),
                "192.168.1.10".to_string(),
            ]),
            ..HttpTransportConfig::default()
        }),
    };
    let read = Some(Ok(v4(0, 0, 0, 0, 3100)));
    match Transport::resolve(None, None, None, Some(&cfg), read).unwrap() {
        Transport::Http { addr, allowed_hosts, healthz_public: _ } => {
            assert_eq!(addr, v4(0, 0, 0, 0, 3100));
            assert_eq!(
                allowed_hosts,
                Some(vec![
                    "kb.example.lan".to_string(),
                    "192.168.1.10".to_string()
                ])
            );
        }
        _ => panic!("expected Transport::Http"),
    }
}

#[test]
fn test_resolve_config_stdio() {
    let cfg = TransportConfig { kind: Some(TransportKindConfig::Stdio), http: None };
    let t = Transport::resolve(None, None, None, Some(&cfg), None).unwrap();
    assert_eq!(t, Transport::Stdio);
}

#[test]
fn an_address_needs_a_listener() {
    assert!(Transport::Stdio.ignores_address(true, false));
    assert!(Transport::Stdio.ignores_address(false, true));
    assert!(!Transport::Stdio.ignores_address(false, false));
    assert!(!http(loopback_addr(1)).ignores_address(true, true));
    let closed = TransportConfig {
        kind: None,
        http: Some(HttpTransportConfig {
            healthz_public: Some(false),
            ..HttpTransportConfig::default()
        }),
    };
    assert_eq!(
        Transport::resolve(None, None, None, Some(&closed), None).unwrap(),
        Transport::Http {
            addr: v4(127, 0, 0, 1, 3100),
            allowed_hosts: None,
            healthz_public: false,
        }
    );
}

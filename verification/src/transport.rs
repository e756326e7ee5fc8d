//! How the server is reached.
use vstd::prelude::*;

use crate::text;

verus! {

/// The transport asked for on the command line.
#[derive(Debug, Clone, Copy, PartialEq, Eq, Structural)]
pub enum TransportKind {
    Stdio,
    Http,
}

/// The transport named in the configuration.
#[derive(Debug, Clone, Copy, PartialEq, Eq, Structural)]
pub enum TransportKindConfig {
    Stdio,
    Http,
}

/// The `[transport.http]` section of the configuration.
#[derive(Debug, Clone, PartialEq)]
pub struct HttpTransportConfig {
    /// The address to listen on, as a text.
    pub bind: Option<String>,
    /// The `Host` headers to accept; where none are named, those of the local machine.
    pub allowed_hosts: Option<Vec<String>>,
    /// Whether the health check answers any host.
    pub healthz_public: Option<bool>,
}

impl Default for HttpTransportConfig {
    fn default() -> (r: Self)
        ensures
            r.bind is None,
            r.allowed_hosts is None,
            r.healthz_public is None,
    {
        HttpTransportConfig { bind: None, allowed_hosts: None, healthz_public: None }
    }
}

/// The `[transport]` section of the configuration.
#[derive(Debug, Clone, PartialEq)]
pub struct TransportConfig {
    pub kind: Option<TransportKindConfig>,
    pub http: Option<HttpTransportConfig>,
}

impl Default for TransportConfig {
    fn default() -> (r: Self)
        ensures
            r.kind is None,
            r.http is None,
    {
        TransportConfig { kind: None, http: None }
    }
}

/// The address of a host.
#[derive(Debug, Clone, Copy, PartialEq, Eq, Structural)]
pub enum HostAddress {
    V4 { a: u8, b: u8, c: u8, d: u8 },
    V6 { bits: u128, flowinfo: u32, scope_id: u32 },
}

/// An address to listen on.
#[derive(Debug, Clone, Copy, PartialEq, Eq, Structural)]
pub struct SocketAddress {
    pub host: HostAddress,
    pub port: u16,
}

/// The port of an address that names none.
pub const DEFAULT_HTTP_PORT: u16 = 3100;

/// A port of the local machine.
pub open spec fn loopback(port: u16) -> SocketAddress {
    SocketAddress { host: HostAddress::V4 { a: 127, b: 0, c: 0, d: 1 }, port }
}

/// A port of the local machine.
pub fn loopback_addr(port: u16) -> (r: SocketAddress)
    ensures
        r == loopback(port),
{
    SocketAddress { host: HostAddress::V4 { a: 127, b: 0, c: 0, d: 1 }, port }
}

/// The transport that is used.
#[derive(Debug, Clone, PartialEq)]
pub enum Transport {
    Stdio,
    Http { addr: SocketAddress, allowed_hosts: Option<Vec<String>>, healthz_public: bool },
}

/// The texts of an optional list.
pub open spec fn opt_list(o: Option<Vec<String>>) -> Option<Seq<Seq<char>>> {
    match o {
        Some(v) => Some(text::views(v@)),
        None => None,
    }
}

/// The transport in force: the one asked for, else the one of the configuration, else HTTP where
/// the configuration has a section for it, else standard input and output.
pub open spec fn kind_spec(
    cli_transport: Option<TransportKind>,
    cfg: Option<&TransportConfig>,
) -> TransportKindConfig {
    match cli_transport {
        Some(TransportKind::Stdio) => TransportKindConfig::Stdio,
        Some(TransportKind::Http) => TransportKindConfig::Http,
        None => match cfg {
            Some(c) => match c.kind {
                Some(k) => k,
                None => if c.http is Some {
                    TransportKindConfig::Http
                } else {
                    TransportKindConfig::Stdio
                },
            },
            None => TransportKindConfig::Stdio,
        },
    }
}

/// The address to listen on: the one asked for, else the port asked for on the local machine,
/// else the one of the configuration, else the default port on the local machine.
pub open spec fn addr_spec(
    cli_bind: Option<SocketAddress>,
    cli_port: Option<u16>,
    config_bind: Option<Result<SocketAddress, String>>,
) -> Result<SocketAddress, String> {
    match cli_bind {
        Some(a) => Ok(a),
        None => match cli_port {
            Some(p) => Ok(loopback(p)),
            None => match config_bind {
                Some(r) => r,
                None => Ok(loopback(DEFAULT_HTTP_PORT)),
            },
        },
    }
}

/// The HTTP section of a configuration.
pub open spec fn http_section(cfg: Option<&TransportConfig>) -> Option<HttpTransportConfig> {
    match cfg {
        Some(c) => c.http,
        None => None,
    }
}

/// The address to listen on.
fn resolve_http_addr(
    cli_bind: Option<SocketAddress>,
    cli_port: Option<u16>,
    config_bind: Option<Result<SocketAddress, String>>,
) -> (r: Result<SocketAddress, String>)
    ensures
        r == addr_spec(cli_bind, cli_port, config_bind),
{
    if let Some(a) = cli_bind {
        return Ok(a);
    }
    if let Some(p) = cli_port {
        return Ok(loopback_addr(p));
    }
    match config_bind {
        Some(r) => r,
        None => Ok(loopback_addr(DEFAULT_HTTP_PORT)),
    }
}

/// That the address of the configuration cannot be read, in words.
pub open spec fn bad_bind_spec(cfg: Option<&TransportConfig>, reason: Seq<char>) -> Seq<char> {
    "[transport.http].bind is not a valid SocketAddr: "@ + (match http_section(cfg) {
        Some(h) => match h.bind {
            Some(b) => b@,
            None => ""@,
        },
        None => ""@,
    }) + ": "@ + reason
}

/// That the address of the configuration cannot be read, in words.
fn bad_bind(cfg: Option<&TransportConfig>, reason: &str) -> (r: String)
    ensures
        r@ == bad_bind_spec(cfg, reason@),
{
    let bind = match cfg {
        Some(c) => match &c.http {
            Some(h) => match &h.bind {
                Some(b) => b.as_str(),
                None => "",
            },
            None => "",
        },
        None => "",
    };
    let mut r = text::copy("[transport.http].bind is not a valid SocketAddr: ");
    r.append(bind);
    r.append(": ");
    r.append(reason);
    r
}

/// A copy of an optional list.
fn copy_list(o: &Option<Vec<String>>) -> (r: Option<Vec<String>>)
    ensures
        opt_list(r) == opt_list(*o),
{
    match o {
        Some(v) => Some(text::copy_all(v)),
        None => None,
    }
}

/// Whether `r` is the transport to use, or why there is none.
pub open spec fn resolves(
    cli_transport: Option<TransportKind>,
    cli_bind: Option<SocketAddress>,
    cli_port: Option<u16>,
    cfg: Option<&TransportConfig>,
    config_bind: Option<Result<SocketAddress, String>>,
    r: Result<Transport, String>,
) -> bool {
    match kind_spec(cli_transport, cfg) {
        TransportKindConfig::Stdio => r == Ok::<Transport, String>(Transport::Stdio),
        TransportKindConfig::Http => match addr_spec(cli_bind, cli_port, config_bind) {
            Err(e) => r matches Err(m) && m@ == bad_bind_spec(cfg, e@),
            Ok(a) => {
                &&& r is Ok
                &&& r->Ok_0 matches Transport::Http { addr, allowed_hosts, healthz_public }
                &&& addr == a
                &&& opt_list(allowed_hosts) == match http_section(cfg) {
                    Some(h) => opt_list(h.allowed_hosts),
                    None => None,
                }
                &&& healthz_public == match http_section(cfg) {
                    Some(h) => match h.healthz_public {
                        Some(b) => b,
                        None => true,
                    },
                    None => true,
                }
            },
        },
    }
}

impl Transport {
    /// The transport to use. What is asked for on the command line wins over the configuration.
    /// `config_bind` is what the address of the configuration's HTTP section reads as, or why it
    /// cannot be read; it matters only where that address is the one to listen on.
    pub fn resolve(
        cli_transport: Option<TransportKind>,
        cli_bind: Option<SocketAddress>,
        cli_port: Option<u16>,
        cfg: Option<&TransportConfig>,
        config_bind: Option<Result<SocketAddress, String>>,
    ) -> (r: Result<Transport, String>)
        ensures
            resolves(cli_transport, cli_bind, cli_port, cfg, config_bind, r),
    {
        let kind = match cli_transport {
            Some(TransportKind::Stdio) => TransportKindConfig::Stdio,
            Some(TransportKind::Http) => TransportKindConfig::Http,
            None => match cfg {
                Some(c) => match c.kind {
                    Some(k) => k,
                    None => if c.http.is_some() {
                        TransportKindConfig::Http
                    } else {
                        TransportKindConfig::Stdio
                    },
                },
                None => TransportKindConfig::Stdio,
            },
        };
        match kind {
            TransportKindConfig::Stdio => Ok(Transport::Stdio),
            TransportKindConfig::Http => {
                let addr = match resolve_http_addr(cli_bind, cli_port, config_bind) {
                    Ok(a) => a,
                    Err(e) => {
                        return Err(bad_bind(cfg, e.as_str()));
                    },
                };
                let none = HttpTransportConfig::default();
                let section = match cfg {
                    Some(c) => match &c.http {
                        Some(h) => h,
                        None => &none,
                    },
                    None => &none,
                };
                let allowed_hosts = copy_list(&section.allowed_hosts);
                let healthz_public = match section.healthz_public {
                    Some(b) => b,
                    None => true,
                };
                Ok(Transport::Http { addr, allowed_hosts, healthz_public })
            },
        }
    }

    /// Whether an address or a port was asked for that nothing will listen on.
    pub fn ignores_address(&self, bind_given: bool, port_given: bool) -> (r: bool)
        ensures
            r == (*self is Stdio && (bind_given || port_given)),
    {
        match self {
            Transport::Stdio => bind_given || port_given,
            _ => false,
        }
    }
}

/// Which transport is used: the one asked for on the command line, else the one that the
/// configuration names, else HTTP if it has a section for that, else standard input and output.
/// With HTTP the address is the one asked for, else the port asked for on the local machine, else
/// that of the configuration, else port 3100 of the local machine; the rest is as configured.
pub proof fn what_is_asked_for_comes_first(
    cli_transport: Option<TransportKind>,
    cli_bind: Option<SocketAddress>,
    cli_port: Option<u16>,
    cfg: Option<&TransportConfig>,
    config_bind: Option<Result<SocketAddress, String>>,
    r: Result<Transport, String>,
)
    requires
        resolves(cli_transport, cli_bind, cli_port, cfg, config_bind, r),
    ensures
        ({
            let named = cfg is Some && cfg->0.kind is Some;
            let http = cli_transport == Some(TransportKind::Http) || (cli_transport is None && cfg
                is Some && (cfg->0.kind == Some(TransportKindConfig::Http) || (cfg->0.kind is None
                && cfg->0.http is Some)));
            let local = |port: u16|
                SocketAddress { host: HostAddress::V4 { a: 127, b: 0, c: 0, d: 1 }, port };
            let unread = cli_bind is None && cli_port is None && config_bind is Some
                && config_bind->0 is Err;
            &&& !http ==> r is Ok && r->Ok_0 is Stdio
            &&& http ==> (r is Err <==> unread)
            &&& http && !unread ==> r->Ok_0 is Http
            &&& http && !unread && cli_bind is Some ==> r->Ok_0->addr == cli_bind->0
            &&& http && cli_bind is None && cli_port is Some ==> r->Ok_0->addr == local(
                cli_port->0,
            )
            &&& http && !unread && cli_bind is None && cli_port is None && config_bind is Some
                ==> r->Ok_0->addr == config_bind->0->Ok_0
            &&& http && cli_bind is None && cli_port is None && config_bind is None
                ==> r->Ok_0->addr == local(3100)
            &&& http && !unread && (cfg is None || cfg->0.http is None)
                ==> r->Ok_0->allowed_hosts is None && r->Ok_0->healthz_public
            &&& http && !unread && cfg is Some && cfg->0.http is Some ==> {
                let section = cfg->0.http->0;
                &&& r->Ok_0->allowed_hosts is Some <==> section.allowed_hosts is Some
                &&& section.allowed_hosts is Some ==> text::views(r->Ok_0->allowed_hosts->0@)
                    == text::views(section.allowed_hosts->0@)
                &&& r->Ok_0->healthz_public <==> section.healthz_public != Some(false)
            }
        }),
{
}

/// What is said of an address that cannot be read names it as it was written, and the reason.
pub proof fn an_address_that_cannot_be_read_is_named(
    http: HttpTransportConfig,
    cfg: TransportConfig,
    reason: Seq<char>,
)
    requires
        cfg.http == Some(http),
        http.bind is Some,
    ensures
        bad_bind_spec(Some(&cfg), reason) == "[transport.http].bind is not a valid SocketAddr: "@
            + http.bind->0@ + ": "@ + reason,
        text::ends_with_spec(bad_bind_spec(None, reason), reason),
{
    text::parts_stand_in_a_text(
        seq![],
        "[transport.http].bind is not a valid SocketAddr: "@ + ""@ + ": "@,
        reason,
    );
}

} // verus!

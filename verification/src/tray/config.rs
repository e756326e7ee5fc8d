//! Which service the tray watches, and at which addresses.
use vstd::prelude::*;

use crate::path;
use crate::service;
use crate::text;

verus! {

/// Which service the tray watches, and at which addresses.
#[derive(Debug, Clone)]
pub struct Config {
    pub service_name: String,
    /// The address of the service as it is configured.
    pub bind: String,
    pub base_url: String,
    pub status_url: String,
    pub ui_url: String,
}

/// The address of a service that does not say otherwise.
pub fn default_bind() -> (r: String)
    ensures
        r@ == "127.0.0.1:3100"@,
{
    text::copy("127.0.0.1:3100")
}

/// The file that holds the service's configuration: in the directory that the command line
/// names, else in the one for the service. The error in words, if there is neither.
pub fn toml_path(kb_path: Option<&str>, config_dir: Option<&str>, service_name: &str) -> (r: Result<
    String,
    String,
>)
    ensures
        match (kb_path, config_dir) {
            (Some(p), _) => r matches Ok(t) && t@ == path::join_spec(p@, "kb-mcp.toml"@),
            (None, Some(d)) => r matches Ok(t) && t@ == path::join_spec(
                service::config_home(d@, service_name@),
                "kb-mcp.toml"@,
            ),
            (None, None) => r matches Err(e) && e@ == "config_dir not found"@,
        },
{
    match kb_path {
        Some(p) => Ok(path::join(p, "kb-mcp.toml")),
        None => match config_dir {
            Some(d) => {
                let outer = path::join(d, "kb-mcp");
                let home = path::join(outer.as_str(), service_name);
                Ok(path::join(home.as_str(), "kb-mcp.toml"))
            },
            None => Err(text::copy("config_dir not found")),
        },
    }
}

/// The host and the port of an address. A host between square brackets ends at the first
/// closing one; any other at the last colon. What cannot be taken apart is all host.
pub open spec fn host_port_spec(bind: Seq<char>) -> (Seq<char>, Seq<char>) {
    if bind.len() > 0 && bind[0] == '[' {
        let rest = bind.skip(1);
        match text::find_spec(rest, ']') {
            Some(close) => (
                rest.take(close),
                text::trim_start_set_spec(rest.skip(close + 1), seq![':']),
            ),
            None => (bind, seq![]),
        }
    } else {
        match text::rfind_spec(bind, ':') {
            Some(i) => (bind.take(i), bind.skip(i + 1)),
            None => (bind, seq![]),
        }
    }
}

/// The host and the port of an address.
pub fn split_host_port(bind: &str) -> (r: (String, String))
    ensures
        (r.0@, r.1@) == host_port_spec(bind@),
{
    let v = text::to_chars(bind);
    if v.len() > 0 && v[0] == '[' {
        let rest = text::to_chars(text::from_chars(&v, 1, v.len()).as_str());
        assert(rest@ =~= bind@.skip(1));
        match text::find(&rest, ']') {
            Some(close) => {
                let host = text::from_chars(&rest, 0, close);
                assert(host@ =~= rest@.take(close as int));
                let mut colon: Vec<char> = Vec::new();
                colon.push(':');
                assert(colon@ =~= seq![':']);
                let tail = text::from_chars(&rest, close + 1, rest.len());
                assert(tail@ =~= rest@.skip(close + 1));
                (host, text::trim_start_set(tail.as_str(), &colon))
            },
            None => (text::copy(bind), String::new()),
        }
    } else {
        match text::rfind(&v, ':') {
            Some(i) => {
                let host = text::from_chars(&v, 0, i);
                assert(host@ =~= bind@.take(i as int));
                let port = text::from_chars(&v, i + 1, v.len());
                assert(port@ =~= bind@.skip(i + 1));
                (host, port)
            },
            None => (text::copy(bind), String::new()),
        }
    }
}

/// The host of an address.
pub fn host_of(bind: &str) -> (r: String)
    ensures
        r@ == host_port_spec(bind@).0,
{
    split_host_port(bind).0
}

/// Whether a host is the local machine.
pub open spec fn loopback_host(host: Seq<char>) -> bool {
    host == "127.0.0.1"@ || host == "localhost"@ || host == "::1"@
}

/// Whether a host stands for every address of the machine.
pub open spec fn wildcard_host(host: Seq<char>) -> bool {
    host == "0.0.0.0"@ || host == "::"@
}

fn is_loopback_host(host: &str) -> (r: bool)
    ensures
        r == loopback_host(host@),
{
    *host == *"127.0.0.1" || *host == *"localhost" || *host == *"::1"
}

/// Where the tray reaches a service with this address: always on the local machine, as the
/// administration is reached from there only.
pub open spec fn loopback_spec(bind: Seq<char>) -> Seq<char> {
    let (host, port) = host_port_spec(bind);
    if loopback_host(host) {
        if host == "::1"@ {
            "[::1]:"@ + port
        } else {
            host + seq![':'] + port
        }
    } else {
        "127.0.0.1:"@ + port
    }
}

/// Where the tray reaches a service with this address.
pub fn normalize_to_loopback(bind: &str) -> (r: String)
    ensures
        r@ == loopback_spec(bind@),
{
    let (host, port) = split_host_port(bind);
    if is_loopback_host(host.as_str()) {
        if *host.as_str() == *"::1" {
            let mut r = text::copy("[::1]:");
            r.append(port.as_str());
            r
        } else {
            let mut r = host;
            r.push(':');
            r.append(port.as_str());
            assert(r@ =~= host@ + seq![':'] + port@);
            r
        }
    } else {
        let mut r = text::copy("127.0.0.1:");
        r.append(port.as_str());
        r
    }
}

/// The warning to give for an address: a service at one address of the network does not listen
/// where the tray looks for it.
pub open spec fn warning_spec(bind: Seq<char>) -> Option<Seq<char>> {
    let host = host_port_spec(bind).0;
    if loopback_host(host) || wildcard_host(host) {
        None
    } else {
        Some(
            "daemon bind '"@ + bind
                + "' is specific non-loopback; tray polls 127.0.0.1 but the daemon does not listen there. Either change the daemon bind to loopback (127.0.0.1) or wildcard (0.0.0.0), or remove --with-tray."@,
        )
    }
}

/// Where the tray reaches a service with this address, with the warning to give, if there is
/// one.
pub fn normalize_to_loopback_with_warning(bind: &str) -> (r: (String, Option<String>))
    ensures
        r.0@ == loopback_spec(bind@),
        text::opt_view(r.1) == warning_spec(bind@),
{
    let host_port = normalize_to_loopback(bind);
    let host = host_of(bind);
    let wildcard = *host.as_str() == *"0.0.0.0" || *host.as_str() == *"::";
    if is_loopback_host(host.as_str()) || wildcard {
        (host_port, None)
    } else {
        let mut w = text::copy("daemon bind '");
        w.append(bind);
        w.append(
            "' is specific non-loopback; tray polls 127.0.0.1 but the daemon does not listen there. Either change the daemon bind to loopback (127.0.0.1) or wildcard (0.0.0.0), or remove --with-tray.",
        );
        (host_port, Some(w))
    }
}

/// What the tray watches, from the service's name and its address as configured, if it is;
/// with the warning to give, if there is one.
pub fn resolve(service_name: &str, bind: Option<String>) -> (r: (Config, Option<String>))
    ensures
        ({
            let b = match bind {
                Some(t) => t@,
                None => "127.0.0.1:3100"@,
            };
            let base = "http://"@ + loopback_spec(b);
            &&& r.0.service_name@ == service_name@
            &&& r.0.bind@ == b
            &&& r.0.base_url@ == base
            &&& r.0.status_url@ == base + "/api/admin/status"@
            &&& r.0.ui_url@ == base + "/ui"@
            &&& text::opt_view(r.1) == warning_spec(b)
        }),
{
    let bind = match bind {
        Some(b) => b,
        None => default_bind(),
    };
    let (host_port, warning) = normalize_to_loopback_with_warning(bind.as_str());
    let mut base_url = text::copy("http://");
    base_url.append(host_port.as_str());
    let mut status_url = text::copy(base_url.as_str());
    status_url.append("/api/admin/status");
    let mut ui_url = text::copy(base_url.as_str());
    ui_url.append("/ui");
    (
        Config { service_name: text::copy(service_name), bind, base_url, status_url, ui_url },
        warning,
    )
}

/// The tray only ever talks to the local machine, whatever address the service has.
pub proof fn the_tray_stays_on_the_machine(bind: Seq<char>)
    ensures
        exists|host: Seq<char>, port: Seq<char>|
            (loopback_host(host) || host == "[::1]"@) && loopback_spec(bind) == #[trigger] (host
                + seq![':'] + port),
{
    let (host, port) = host_port_spec(bind);
    reveal_strlit("[::1]:");
    reveal_strlit("[::1]");
    reveal_strlit("127.0.0.1:");
    reveal_strlit("127.0.0.1");
    if loopback_host(host) {
        if host == "::1"@ {
            assert("[::1]:"@ =~= "[::1]"@ + seq![':']);
            assert(loopback_spec(bind) == "[::1]"@ + seq![':'] + port);
        } else {
            assert(loopback_spec(bind) == host + seq![':'] + port);
        }
    } else {
        assert("127.0.0.1:"@ =~= "127.0.0.1"@ + seq![':']);
        assert(loopback_spec(bind) == "127.0.0.1"@ + seq![':'] + port);
    }
}

/// An address is a host and a port with a colon between them, and the host stands in brackets
/// where it holds colons itself; without a colon all of it is the host.
pub proof fn an_address_is_a_host_and_a_port(host: Seq<char>, port: Seq<char>)
    ensures
        !port.contains(':') && (host.len() == 0 || host[0] != '[') ==> host_port_spec(
            host + seq![':'] + port,
        ) == (host, port),
        !host.contains(']') && (port.len() == 0 || port[0] != ':') ==> host_port_spec(
            seq!['['] + host + seq![']'] + seq![':'] + port,
        ) == (host, port),
        !host.contains(':') && (host.len() == 0 || host[0] != '[') ==> host_port_spec(host) == (
            host,
            Seq::<char>::empty(),
        ),
{
    if !port.contains(':') && (host.len() == 0 || host[0] != '[') {
        let bind = host + seq![':'] + port;
        text::a_character_is_found_where_it_is(host, ':', port);
        assert(bind[0] == if host.len() == 0 {
            ':'
        } else {
            host[0]
        });
        assert(bind.take(host.len() as int) =~= host);
        assert(bind.skip(host.len() as int + 1) =~= port);
    }
    if !host.contains(']') && (port.len() == 0 || port[0] != ':') {
        let bind = seq!['['] + host + seq![']'] + seq![':'] + port;
        let rest = host + seq![']'] + (seq![':'] + port);
        assert(bind.skip(1) =~= rest);
        assert(bind[0] == '[');
        text::a_character_is_found_where_it_is(host, ']', seq![':'] + port);
        assert(rest.take(host.len() as int) =~= host);
        assert(rest.skip(host.len() as int + 1) =~= seq![':'] + port);
        let colon = seq![':'];
        assert(colon[0] == ':');
        if port.len() > 0 {
            assert(!colon.contains(port[0]));
        }
        text::characters_of_a_set_are_taken_off(colon, port, colon);
    }
    if !host.contains(':') && (host.len() == 0 || host[0] != '[') {
        text::a_character_is_found_where_it_is(host, ':', port);
    }
}

/// The tray keeps the port of an address, and the host where that is the local machine already;
/// any other becomes the local machine. It warns exactly of a host that is neither the local
/// machine nor every address of it.
pub proof fn the_tray_keeps_the_port(host: Seq<char>, port: Seq<char>)
    requires
        !port.contains(':'),
        host.len() == 0 || host[0] != '[',
    ensures
        ({
            let bind = host + seq![':'] + port;
            let local = host == "127.0.0.1"@ || host == "localhost"@;
            &&& local ==> loopback_spec(bind) == bind
            &&& !local && host != "::1"@ ==> loopback_spec(bind) == "127.0.0.1:"@ + port
            &&& host == "::1"@ ==> loopback_spec(bind) == "[::1]:"@ + port
            &&& warning_spec(bind) is None <==> local || host == "::1"@ || host == "0.0.0.0"@
                || host == "::"@
        }),
{
    an_address_is_a_host_and_a_port(host, port);
    reveal_strlit("::1");
    reveal_strlit("127.0.0.1");
    reveal_strlit("localhost");
    assert("::1"@.len() == 3 && "127.0.0.1"@.len() == 9 && "localhost"@.len() == 9);
}

} // verus!

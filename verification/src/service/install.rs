//! Registering a service.
use vstd::prelude::*;

use super::{bad_name_text, valid_name, validate_service_name};
use crate::text;

verus! {

/// What a service is to be registered with.
#[derive(Debug, Clone)]
pub struct InstallParams {
    pub service_name: String,
    pub kb_path: Option<String>,
    pub bind: String,
    pub auto_start: bool,
    pub force: bool,
    pub i_know_non_loopback: bool,
    pub with_tray: bool,
}

/// Whether an address is one of the local machine, by the start of its text.
pub open spec fn loopback_addr_spec(s: Seq<char>) -> bool {
    text::starts_with_spec(s, "127."@) || text::starts_with_spec(s, "[::1]"@)
        || text::starts_with_spec(s, "localhost"@)
}

/// Whether an address is one of the local machine, by the start of its text.
pub fn is_loopback_addr(s: &str) -> (r: bool)
    ensures
        r == loopback_addr_spec(s@),
{
    text::starts_with(s, "127.") || text::starts_with(s, "[::1]") || text::starts_with(
        s,
        "localhost",
    )
}

/// Why a service is not registered.
#[derive(Debug, Clone)]
pub enum InstallError {
    BadName { message: String },
    /// The address cannot be read.
    BadBind { bind: String },
    /// The address is reached from other machines, and nobody said that this is meant.
    NotLoopback { bind: String },
    /// There is a configuration already, and it is not to be overwritten.
    ConfigExists { path: String },
    /// There is no tray on this system.
    NoTray,
    /// Nobody says where the knowledge base is.
    NoKbPath,
    /// The configuration is no TOML.
    BadToml { reason: String },
    /// The configuration does not say where the knowledge base is.
    NoKbPathInToml { path: String },
}

impl InstallError {
    /// The error in words.
    pub fn message(&self) -> (r: String)
        ensures
            r@ == match self {
                InstallError::BadName { message } => message@,
                InstallError::BadBind { bind } => "--bind '"@ + bind@
                    + "' is not a valid socket address (e.g. '127.0.0.1:3100')"@,
                InstallError::NotLoopback { bind } => "bind="@ + bind@
                    + " は non-loopback です。kb-mcp は auth を持ちません — untrusted network での公開は危険。確認して進める場合は --i-know を付けて再実行してください。"@,
                InstallError::ConfigExists { path } => "kb-mcp.toml が既存: "@ + path@
                    + " (--force で上書き)"@,
                InstallError::NoTray => "--with-tray is only supported on Windows"@,
                InstallError::NoKbPath =>
                "kb_path が解決できません: --kb-path flag を指定するか、kb-mcp.toml に top-level `kb_path` を書いてください"@,
                InstallError::BadToml { reason } => reason@,
                InstallError::NoKbPathInToml { path } => path@
                    + " に top-level `kb_path` がありません"@,
            },
    {
        match self {
            InstallError::BadName { message } => message.clone(),
            InstallError::BadBind { bind } => {
                let mut r = text::copy("--bind '");
                r.append(bind.as_str());
                r.append("' is not a valid socket address (e.g. '127.0.0.1:3100')");
                r
            },
            InstallError::NotLoopback { bind } => {
                let mut r = text::copy("bind=");
                r.append(bind.as_str());
                r.append(
                    " は non-loopback です。kb-mcp は auth を持ちません — untrusted network での公開は危険。確認して進める場合は --i-know を付けて再実行してください。",
                );
                r
            },
            InstallError::ConfigExists { path } => {
                let mut r = text::copy("kb-mcp.toml が既存: ");
                r.append(path.as_str());
                r.append(" (--force で上書き)");
                r
            },
            InstallError::NoTray => text::copy("--with-tray is only supported on Windows"),
            InstallError::NoKbPath => text::copy(
                "kb_path が解決できません: --kb-path flag を指定するか、kb-mcp.toml に top-level `kb_path` を書いてください",
            ),
            InstallError::BadToml { reason } => reason.clone(),
            InstallError::NoKbPathInToml { path } => {
                let mut r = path.clone();
                r.append(" に top-level `kb_path` がありません");
                r
            },
        }
    }
}

/// What comes before anything is written: the service's name and its address have to be in
/// order, and an address that other machines reach has to be meant. `bind_valid` says whether
/// the address can be read. Returns the name, and whether to point out that the administration
/// is reached from the local machine only.
pub fn check_request(params: &InstallParams, bind_valid: bool) -> (r: Result<
    (String, bool),
    InstallError,
>)
    ensures
        if !valid_name(params.service_name@) {
            r matches Err(InstallError::BadName { message }) && message@ == bad_name_text(
                params.service_name@,
            )
        } else if !bind_valid {
            r matches Err(InstallError::BadBind { bind }) && bind@ == params.bind@
        } else if !loopback_addr_spec(params.bind@) && !params.i_know_non_loopback {
            r matches Err(InstallError::NotLoopback { bind }) && bind@ == params.bind@
        } else {
            r matches Ok((name, note)) && name@ == params.service_name@ && note
                == !loopback_addr_spec(params.bind@)
        },
{
    let name = match validate_service_name(params.service_name.as_str()) {
        Ok(n) => n,
        Err(message) => {
            return Err(InstallError::BadName { message });
        },
    };
    if !bind_valid {
        return Err(InstallError::BadBind { bind: params.bind.clone() });
    }
    let local = is_loopback_addr(params.bind.as_str());
    if !local && !params.i_know_non_loopback {
        return Err(InstallError::NotLoopback { bind: params.bind.clone() });
    }
    Ok((name, !local))
}

/// Whether a configuration may be written at `path`: there is none yet, or it is to be
/// overwritten.
pub fn check_overwrite(path: &str, present: bool, force: bool) -> (r: Result<(), InstallError>)
    ensures
        if present && !force {
            r matches Err(InstallError::ConfigExists { path: p }) && p@ == path@
        } else {
            r is Ok
        },
{
    if present && !force {
        return Err(InstallError::ConfigExists { path: text::copy(path) });
    }
    Ok(())
}

/// Whether the tray can be set up as asked.
pub fn check_tray(with_tray: bool, on_windows: bool) -> (r: Result<(), InstallError>)
    ensures
        r == if with_tray && !on_windows {
            Err::<(), InstallError>(InstallError::NoTray)
        } else {
            Ok::<(), InstallError>(())
        },
{
    if with_tray && !on_windows {
        return Err(InstallError::NoTray);
    }
    Ok(())
}

/// Setting up the tray alone, on a system that has none: refused, in words.
pub fn run_tray_install(service_name: &str, force: bool) -> (r: Result<(), String>)
    ensures
        r matches Err(e) && e@ == "tray-install is only supported on Windows"@,
{
    Err(text::copy("tray-install is only supported on Windows"))
}

// ---------------------------------------------------------------------------
// Where the knowledge base is
// ---------------------------------------------------------------------------
/// What `toml` finds under a path of keys in a TOML text: the text of a string; nothing for
/// anything else or a missing key; or why the text is no TOML.
pub uninterp spec fn toml_string_spec(document: Seq<char>, keys: Seq<Seq<char>>) -> Result<
    Option<Seq<char>>,
    Seq<char>,
>;

/// A looked-up string, or an error, by its view.
pub open spec fn lookup_view(r: Result<Option<String>, String>) -> Result<
    Option<Seq<char>>,
    Seq<char>,
> {
    match r {
        Ok(o) => Ok(text::opt_view(o)),
        Err(e) => Err(e@),
    }
}

/// `toml::from_str` to a `toml::Value`, with `Value::get` and `Value::as_str` on its result: the
/// string under a key of the root table. What is found depends on the document and the key
/// alone. The grammar of TOML is not restated here.
#[verifier::external_body]
pub(crate) fn toml_root_string(document: &str, key: &str) -> (r: Result<Option<String>, String>)
    ensures
        lookup_view(r) == toml_string_spec(document@, seq![key@]),
{
    match toml::from_str::<toml::Value>(document) {
        Ok(v) => Ok(v.get(key).and_then(|s| s.as_str()).map(str::to_owned)),
        Err(e) => Err(e.to_string()),
    }
}

/// `toml::from_str` to a `toml::Value`, with `Value::get` and `Value::as_str` on its result: the
/// string under a key two tables below the root. What is found depends on the document and the
/// keys alone.
#[verifier::external_body]
pub(crate) fn toml_nested_string(document: &str, outer: &str, inner: &str, key: &str) -> (r: Result<
    Option<String>,
    String,
>)
    ensures
        lookup_view(r) == toml_string_spec(document@, seq![outer@, inner@, key@]),
{
    match toml::from_str::<toml::Value>(document) {
        Ok(v) => {
            let table = v.get(outer).and_then(|t| t.get(inner));
            Ok(table.and_then(|t| t.get(key)).and_then(|s| s.as_str()).map(str::to_owned))
        },
        Err(e) => Err(e.to_string()),
    }
}

/// Where the knowledge base is: where the command line says, else where the configuration says.
/// `lookup` is what stands under `kb_path` in the configuration at `toml_path`, if there is one.
pub open spec fn kb_path_spec(
    flag: Option<Seq<char>>,
    toml_path: Option<Seq<char>>,
    lookup: Result<Option<Seq<char>>, Seq<char>>,
    r: Result<String, InstallError>,
) -> bool {
    match flag {
        Some(p) => r matches Ok(q) && q@ == p,
        None => match toml_path {
            None => r == Err::<String, InstallError>(InstallError::NoKbPath),
            Some(t) => match lookup {
                Err(e) => r matches Err(InstallError::BadToml { reason }) && reason@ == e,
                Ok(None) => r matches Err(InstallError::NoKbPathInToml { path }) && path@ == t,
                Ok(Some(p)) => r matches Ok(q) && q@ == p,
            },
        },
    }
}

/// Where the knowledge base is, from what the configuration was found to say.
pub fn choose_kb_path(
    flag: Option<String>,
    toml_path: Option<&str>,
    lookup: Result<Option<String>, String>,
) -> (r: Result<String, InstallError>)
    ensures
        kb_path_spec(
            text::opt_view(flag),
            match toml_path {
                Some(t) => Some(t@),
                None => None,
            },
            lookup_view(lookup),
            r,
        ),
{
    if let Some(p) = flag {
        return Ok(p);
    }
    let t = match toml_path {
        Some(t) => t,
        None => {
            return Err(InstallError::NoKbPath);
        },
    };
    match lookup {
        Err(reason) => Err(InstallError::BadToml { reason }),
        Ok(None) => Err(InstallError::NoKbPathInToml { path: text::copy(t) }),
        Ok(Some(p)) => Ok(p),
    }
}

/// Where the knowledge base is: where the command line says, else where the configuration says.
/// `toml` is the path and the text of the configuration.
pub fn resolve_kb_path(flag: Option<String>, toml: Option<(&str, &str)>) -> (r: Result<
    String,
    InstallError,
>)
    ensures
        kb_path_spec(
            text::opt_view(flag),
            match toml {
                Some((p, document)) => Some(p@),
                None => None,
            },
            match toml {
                Some((p, document)) => toml_string_spec(document@, seq!["kb_path"@]),
                None => Ok(None),
            },
            r,
        ),
{
    match toml {
        Some((p, document)) => {
            let lookup = toml_root_string(document, "kb_path");
            choose_kb_path(flag, Some(p), lookup)
        },
        None => choose_kb_path(flag, None, Ok(None)),
    }
}

/// An address is one of the local machine exactly where it begins with the digits of the loopback
/// network, with the loopback address of IPv6 in brackets, or with the name of the local machine.
pub proof fn which_addresses_are_local(s: Seq<char>)
    ensures
        loopback_addr_spec(s) <==> (exists|tail: Seq<char>| s == #[trigger] ("127."@ + tail)) || (
        exists|tail: Seq<char>| s == #[trigger] ("[::1]"@ + tail)) || (exists|tail: Seq<char>|
            s == #[trigger] ("localhost"@ + tail)),
{
    text::ending_is_what_comes_last(s, "127."@);
    text::ending_is_what_comes_last(s, "[::1]"@);
    text::ending_is_what_comes_last(s, "localhost"@);
}

/// The knowledge base is where the command line says; only without that the configuration is
/// asked, and it has to be there, to be TOML and to name the place.
pub proof fn the_command_line_says_where_the_knowledge_base_is(
    flag: Option<Seq<char>>,
    toml_path: Option<Seq<char>>,
    lookup: Result<Option<Seq<char>>, Seq<char>>,
    r: Result<String, InstallError>,
)
    requires
        kb_path_spec(flag, toml_path, lookup, r),
    ensures
        r is Ok <==> flag is Some || (toml_path is Some && lookup is Ok && lookup->Ok_0 is Some),
        flag is Some ==> r is Ok && r->Ok_0@ == flag->0,
        flag is None && r is Ok ==> Some(r->Ok_0@) == lookup->Ok_0,
        r is Err && toml_path is None ==> r->Err_0 is NoKbPath,
        r is Err && toml_path is Some && lookup is Err ==> r->Err_0 is BadToml
            && r->Err_0->reason@ == lookup->Err_0,
        r is Err && toml_path is Some && lookup is Ok ==> r->Err_0 is NoKbPathInToml
            && r->Err_0->NoKbPathInToml_path@ == toml_path->0,
{
}

} // verus!

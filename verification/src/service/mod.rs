//! The server as a service of the operating system.
//!
//! Services are registered by outside programs; this module says with what texts, what their
//! answers mean, and what is shown of them.
use vstd::prelude::*;

use crate::path;
use crate::text;

pub mod install;
pub mod linux;
pub mod macos;
pub mod status;
pub mod toml_file;
pub mod uninstall;
pub mod windows;

verus! {

/// What a service is registered with.
#[derive(Debug, Clone)]
pub struct InstallContext {
    pub service_name: String,
    pub kb_path: String,
    pub bind: String,
    /// The directory that holds the service's configuration.
    pub config_home: String,
    pub binary_path: String,
    pub auto_start: bool,
    pub force: bool,
}

/// What is known of a service.
#[derive(Debug, Clone)]
pub enum ServiceState {
    Running {
        uptime_secs: u64,
        bind: Option<String>,
        kb_path: Option<String>,
        model: Option<String>,
    },
    Stopped { bind: Option<String>, kb_path: Option<String> },
    NotFound,
}

/// What a [`ServiceState`] says.
pub enum StateModel {
    Running {
        uptime_secs: u64,
        bind: Option<Seq<char>>,
        kb_path: Option<Seq<char>>,
        model: Option<Seq<char>>,
    },
    Stopped { bind: Option<Seq<char>>, kb_path: Option<Seq<char>> },
    NotFound,
}

impl View for ServiceState {
    type V = StateModel;

    open spec fn view(&self) -> StateModel {
        match self {
            ServiceState::Running { uptime_secs, bind, kb_path, model } => StateModel::Running {
                uptime_secs: *uptime_secs,
                bind: text::opt_view(*bind),
                kb_path: text::opt_view(*kb_path),
                model: text::opt_view(*model),
            },
            ServiceState::Stopped { bind, kb_path } => StateModel::Stopped {
                bind: text::opt_view(*bind),
                kb_path: text::opt_view(*kb_path),
            },
            ServiceState::NotFound => StateModel::NotFound,
        }
    }
}

/// A service that runs, and of which nothing else is known.
pub open spec fn just_running() -> StateModel {
    StateModel::Running { uptime_secs: 0, bind: None, kb_path: None, model: None }
}

/// A service that does not run, and of which nothing else is known.
pub open spec fn just_stopped() -> StateModel {
    StateModel::Stopped { bind: None, kb_path: None }
}

/// The state of a service of which it is known only whether it runs.
pub fn bare_state(running: bool) -> (r: ServiceState)
    ensures
        r@ == if running {
            just_running()
        } else {
            just_stopped()
        },
{
    if running {
        ServiceState::Running { uptime_secs: 0, bind: None, kb_path: None, model: None }
    } else {
        ServiceState::Stopped { bind: None, kb_path: None }
    }
}

/// The directory of a service's configuration below the directory for configurations.
pub open spec fn config_home(base: Seq<char>, service_name: Seq<char>) -> Seq<char> {
    path::join_spec(path::join_spec(base, "kb-mcp"@), service_name)
}

/// The directory of a service's configuration: below the directory that the environment names,
/// else below the one of the system. If there is neither, the error in words.
pub fn resolve_config_home(
    from_env: Option<String>,
    from_system: Option<String>,
    service_name: &str,
) -> (r: Result<String, String>)
    ensures
        match (from_env, from_system) {
            (Some(base), _) => r matches Ok(p) && p@ == config_home(base@, service_name@),
            (None, Some(base)) => r matches Ok(p) && p@ == config_home(base@, service_name@),
            (None, None) => r matches Err(e) && e@
                == "config dir 解決失敗 (KB_MCP_CONFIG_HOME / XDG_CONFIG_HOME / HOME いずれも未設定)"@,
        },
{
    let base = match from_env {
        Some(b) => b,
        None => match from_system {
            Some(b) => b,
            None => {
                return Err(
                    text::copy(
                        "config dir 解決失敗 (KB_MCP_CONFIG_HOME / XDG_CONFIG_HOME / HOME いずれも未設定)",
                    ),
                );
            },
        },
    };
    let outer = path::join(base.as_str(), "kb-mcp");
    Ok(path::join(outer.as_str(), service_name))
}

/// Whether a character may stand in the name of a service.
pub open spec fn name_char(c: char) -> bool {
    text::ascii_alphanumeric_spec(c) || c == '_' || c == '-'
}

/// Whether a text may be the name of a service.
pub open spec fn valid_name(s: Seq<char>) -> bool {
    s.len() > 0 && forall|i: int| 0 <= i < s.len() ==> name_char(#[trigger] s[i])
}

/// What is said of a text that may not be the name of a service.
pub open spec fn bad_name_text(s: Seq<char>) -> Seq<char> {
    if s.len() == 0 {
        "service-name must not be empty"@
    } else {
        "invalid service-name "@ + text::quoted_spec(s) + ": must match [a-zA-Z0-9_-]+"@
    }
}

/// The name of a service, if the text may be one; if not, the error in words.
pub fn validate_service_name(s: &str) -> (r: Result<String, String>)
    ensures
        match r {
            Ok(name) => valid_name(s@) && name@ == s@,
            Err(e) => !valid_name(s@) && e@ == bad_name_text(s@),
        },
{
    if s.is_empty() {
        return Err(text::copy("service-name must not be empty"));
    }
    let v = text::to_chars(s);
    let mut i: usize = 0;
    while i < v.len()
        invariant
            v@ == s@,
            i <= v@.len(),
            forall|j: int| 0 <= j < i ==> name_char(#[trigger] v@[j]),
        decreases v@.len() - i,
    {
        let c: char = v[i];
        let ok = ('a' <= c && c <= 'z') || ('A' <= c && c <= 'Z') || ('0' <= c && c <= '9') || c
            == '_' || c == '-';
        if !ok {
            assert(!name_char(s@[i as int]));
            let mut e = text::copy("invalid service-name ");
            e.append(text::quoted(s).as_str());
            e.append(": must match [a-zA-Z0-9_-]+");
            return Err(e);
        }
        i += 1;
    }
    Ok(text::copy(s))
}

/// The name of a service is one part of a path, so its configuration lies in a directory of its
/// own.
pub proof fn a_valid_name_is_one_part_of_a_path(s: Seq<char>)
    requires
        valid_name(s),
    ensures
        !s.contains('/'),
        !s.contains('\\'),
        !s.contains('.'),
        !s.contains('\''),
        !path::absolute_spec(s, path::PathStyle::Unix),
        !path::absolute_spec(s, path::PathStyle::Windows),
{
    assert(name_char(s[0]));
    if s.contains('/') {
        let k = choose|k: int| 0 <= k < s.len() && s[k] == '/';
        assert(name_char(s[k]));
    }
    if s.contains('\\') {
        let k = choose|k: int| 0 <= k < s.len() && s[k] == '\\';
        assert(name_char(s[k]));
    }
    if s.contains('.') {
        let k = choose|k: int| 0 <= k < s.len() && s[k] == '.';
        assert(name_char(s[k]));
    }
    if s.contains('\'') {
        let k = choose|k: int| 0 <= k < s.len() && s[k] == '\'';
        assert(name_char(s[k]));
    }
}

/// A service may be called anything of ASCII letters, digits, underscores and hyphens, but not
/// nothing; its configuration lies below a directory of this program.
pub proof fn which_names_a_service_may_have(s: Seq<char>, base: Seq<char>)
    ensures
        valid_name(s) <==> s.len() > 0 && forall|i: int|
            0 <= i < s.len() ==> 'a' <= (#[trigger] s[i]) <= 'z' || 'A' <= s[i] <= 'Z' || '0'
                <= s[i] <= '9' || s[i] == '_' || s[i] == '-',
        valid_name(s) && base.len() > 0 && base.last() != '/' ==> config_home(base, s) == base
            + "/kb-mcp/"@ + s,
{
    if valid_name(s) {
        assert forall|i: int| 0 <= i < s.len() implies 'a' <= (#[trigger] s[i]) <= 'z' || 'A'
            <= s[i] <= 'Z' || '0' <= s[i] <= '9' || s[i] == '_' || s[i] == '-' by {
            assert(name_char(s[i]));
        }
        reveal_strlit("/kb-mcp/");
        reveal_strlit("kb-mcp");
        assert(name_char(s[0]));
        let outer = path::join_spec(base, "kb-mcp"@);
        assert("kb-mcp"@[0] == 'k');
        path::a_relative_path_is_put_behind_its_base(base, "kb-mcp"@);
        path::a_relative_path_is_put_behind_its_base(outer, s);
        assert(outer.last() == 'p');
        let between = seq!['/'] + "kb-mcp"@ + seq!['/'];
        assert("/kb-mcp/"@ =~= between);
        assert(config_home(base, s) == outer + seq!['/'] + s);
        assert(base + seq!['/'] + "kb-mcp"@ + seq!['/'] + s =~= base + between + s);
    }
}

} // verus!

//! Taking a service away.
use vstd::prelude::*;

use super::install::{toml_root_string, toml_string_spec};
use super::status::found;
use super::{bad_name_text, valid_name, validate_service_name};
use crate::text;
use crate::{db_path, resolve_db_path};

verus! {

/// What is to be taken away.
#[derive(Debug, Clone)]
pub struct UninstallParams {
    pub service_name: String,
    /// Whether the index and the configuration go too.
    pub purge: bool,
    /// Whether that is meant.
    pub yes: bool,
}

/// What is said where the index and the configuration are to go and nobody said that it is
/// meant.
pub open spec fn purge_warning() -> Seq<char> {
    "--purge will delete the index database (.kb-mcp.db) and kb-mcp.toml.\nRe-installing will require a full re-index (~minutes to hours for large KBs).\nThis is destructive and irreversible. Re-run with --yes to confirm."@
}

/// Whether a service may be taken away as asked: its name has to be in order, and a loss has to
/// be meant. Returns the name, or the error in words.
pub fn check_request(params: &UninstallParams) -> (r: Result<String, String>)
    ensures
        r is Ok <==> valid_name(params.service_name@) && (params.purge ==> params.yes),
        r matches Ok(name) ==> name@ == params.service_name@,
        r matches Err(e) ==> e@ == if valid_name(params.service_name@) {
            purge_warning()
        } else {
            bad_name_text(params.service_name@)
        },
{
    let name = match validate_service_name(params.service_name.as_str()) {
        Ok(n) => n,
        Err(e) => {
            return Err(e);
        },
    };
    if params.purge && !params.yes {
        return Err(
            text::copy(
                "--purge will delete the index database (.kb-mcp.db) and kb-mcp.toml.\nRe-installing will require a full re-index (~minutes to hours for large KBs).\nThis is destructive and irreversible. Re-run with --yes to confirm.",
            ),
        );
    }
    Ok(name)
}

/// Taking away the tray alone, on a system that has none: refused, in words.
pub fn run_tray_uninstall(service_name: &str) -> (r: Result<(), String>)
    ensures
        r matches Err(e) && e@ == "tray-uninstall is only supported on Windows"@,
{
    Err(text::copy("tray-uninstall is only supported on Windows"))
}

/// The index of the knowledge base that a configuration names, if it names one.
pub fn index_to_remove(document: Option<&str>) -> (r: Option<String>)
    ensures
        text::opt_view(r) == match document {
            None => None,
            Some(t) => match found(toml_string_spec(t@, seq!["kb_path"@])) {
                Some(kb) => Some(db_path(kb)),
                None => None,
            },
        },
{
    match document {
        None => None,
        Some(t) => match toml_root_string(t, "kb_path") {
            Ok(Some(kb)) => Some(resolve_db_path(kb.as_str())),
            _ => None,
        },
    }
}

} // verus!

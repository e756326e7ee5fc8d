//! What is shown of services.
use vstd::prelude::*;

use super::install::{lookup_view, toml_nested_string, toml_root_string, toml_string_spec};
use super::{ServiceState, StateModel, bad_name_text, valid_name, validate_service_name};
use crate::text;

verus! {

/// What is known, or else what the configuration says.
pub open spec fn or_from<T>(known: Option<T>, other: Option<T>) -> Option<T> {
    match known {
        Some(v) => Some(v),
        None => other,
    }
}

/// What is known of a service together with what its configuration says.
pub open spec fn enriched(
    state: StateModel,
    bind_toml: Option<Seq<char>>,
    kb_toml: Option<Seq<char>>,
) -> StateModel {
    match state {
        StateModel::Running { uptime_secs, bind, kb_path, model } => StateModel::Running {
            uptime_secs,
            bind: or_from(bind, bind_toml),
            kb_path: or_from(kb_path, kb_toml),
            model,
        },
        StateModel::Stopped { bind, kb_path } => StateModel::Stopped {
            bind: or_from(bind, bind_toml),
            kb_path: or_from(kb_path, kb_toml),
        },
        StateModel::NotFound => StateModel::NotFound,
    }
}

fn first_of(a: Option<String>, b: Option<String>) -> (r: Option<String>)
    ensures
        text::opt_view(r) == or_from(text::opt_view(a), text::opt_view(b)),
{
    match a {
        Some(v) => Some(v),
        None => b,
    }
}

/// Completes what is known of a service by what its configuration says.
pub fn enrich(state: ServiceState, bind_toml: Option<String>, kb_toml: Option<String>) -> (r:
    ServiceState)
    ensures
        r@ == enriched(state@, text::opt_view(bind_toml), text::opt_view(kb_toml)),
{
    match state {
        ServiceState::Running { uptime_secs, bind, kb_path, model } => ServiceState::Running {
            uptime_secs,
            bind: first_of(bind, bind_toml),
            kb_path: first_of(kb_path, kb_toml),
            model,
        },
        ServiceState::Stopped { bind, kb_path } => ServiceState::Stopped {
            bind: first_of(bind, bind_toml),
            kb_path: first_of(kb_path, kb_toml),
        },
        ServiceState::NotFound => ServiceState::NotFound,
    }
}

/// The string that a lookup found, if it found one.
pub open spec fn found(lookup: Result<Option<Seq<char>>, Seq<char>>) -> Option<Seq<char>> {
    match lookup {
        Ok(o) => o,
        Err(_) => None,
    }
}

fn found_string(lookup: Result<Option<String>, String>) -> (r: Option<String>)
    ensures
        text::opt_view(r) == found(lookup_view(lookup)),
{
    match lookup {
        Ok(o) => o,
        Err(_) => None,
    }
}

/// Completes what is known of a service by the text of its configuration, if there is one. A
/// text that is no TOML adds nothing.
pub fn enrich_with_toml(document: Option<&str>, state: ServiceState) -> (r: ServiceState)
    ensures
        r@ == with_document(
            state@,
            match document {
                Some(t) => Some(t@),
                None => None,
            },
        ),
{
    match document {
        None => state,
        Some(t) => {
            let bind = found_string(toml_nested_string(t, "transport", "http", "bind"));
            let kb = found_string(toml_root_string(t, "kb_path"));
            enrich(state, bind, kb)
        },
    }
}

/// What is known, or that it is not.
pub open spec fn or_unknown(o: Option<Seq<char>>) -> Seq<char> {
    match o {
        Some(s) => s,
        None => "(unknown)"@,
    }
}

fn known<'a>(o: &'a Option<String>) -> (r: &'a str)
    ensures
        r@ == or_unknown(text::opt_view(*o)),
{
    match o {
        Some(s) => s.as_str(),
        None => "(unknown)",
    }
}

/// A service in one sentence.
pub open spec fn state_text(name: Seq<char>, state: StateModel) -> Seq<char> {
    match state {
        StateModel::Running { uptime_secs, bind, kb_path, model } => name + ": running (uptime "@
            + text::decimal_spec(uptime_secs as nat) + "s, bind "@ + or_unknown(bind)
            + ", kb_path "@ + or_unknown(kb_path) + ", model "@ + or_unknown(model) + ")"@,
        StateModel::Stopped { bind, kb_path } => name + ": stopped (bind "@ + or_unknown(bind)
            + ", kb_path "@ + or_unknown(kb_path) + ")"@,
        StateModel::NotFound => name + ": not found"@,
    }
}

/// A service in one sentence.
pub fn format_state(name: &str, state: &ServiceState) -> (r: String)
    ensures
        r@ == state_text(name@, state@),
{
    let mut r = text::copy(name);
    match state {
        ServiceState::Running { uptime_secs, bind, kb_path, model } => {
            r.append(": running (uptime ");
            r.append(text::decimal(*uptime_secs).as_str());
            r.append("s, bind ");
            r.append(known(bind));
            r.append(", kb_path ");
            r.append(known(kb_path));
            r.append(", model ");
            r.append(known(model));
            r.append(")");
        },
        ServiceState::Stopped { bind, kb_path } => {
            r.append(": stopped (bind ");
            r.append(known(bind));
            r.append(", kb_path ");
            r.append(known(kb_path));
            r.append(")");
        },
        ServiceState::NotFound => {
            r.append(": not found");
        },
    }
    r
}

/// A service as a row of a table.
pub open spec fn row_text(name: Seq<char>, state: StateModel) -> Seq<char> {
    match state {
        StateModel::Running { uptime_secs, bind, kb_path, model } => text::pad_right_spec(
            name,
            10,
        ) + " running    "@ + text::pad_right_spec(or_unknown(bind), 18) + " "@
            + text::pad_right_spec(or_unknown(kb_path), 22) + " "@ + text::decimal_spec(
            uptime_secs as nat,
        ) + "s"@,
        StateModel::Stopped { bind, kb_path } => text::pad_right_spec(name, 10) + " stopped    "@
            + text::pad_right_spec(or_unknown(bind), 18) + " "@ + text::pad_right_spec(
            or_unknown(kb_path),
            22,
        ) + " -"@,
        StateModel::NotFound => text::pad_right_spec(name, 10) + " not-found"@,
    }
}

/// A service as a row of a table.
pub fn format_row(name: &str, state: &ServiceState) -> (r: String)
    ensures
        r@ == row_text(name@, state@),
{
    let mut r = text::pad_right(name, 10);
    match state {
        ServiceState::Running { uptime_secs, bind, kb_path, model } => {
            r.append(" running    ");
            r.append(text::pad_right(known(bind), 18).as_str());
            r.append(" ");
            r.append(text::pad_right(known(kb_path), 22).as_str());
            r.append(" ");
            r.append(text::decimal(*uptime_secs).as_str());
            r.append("s");
        },
        ServiceState::Stopped { bind, kb_path } => {
            r.append(" stopped    ");
            r.append(text::pad_right(known(bind), 18).as_str());
            r.append(" ");
            r.append(text::pad_right(known(kb_path), 22).as_str());
            r.append(" -");
        },
        ServiceState::NotFound => {
            r.append(" not-found");
        },
    }
    r
}

/// A service as the system knows it, with the text of its configuration, if there is one.
#[derive(Debug, Clone)]
pub struct Listed {
    pub name: String,
    pub state: ServiceState,
    pub document: Option<String>,
}

/// What is known of a service together with the text of its configuration.
pub open spec fn with_document(state: StateModel, document: Option<Seq<char>>) -> StateModel {
    match document {
        Some(t) => enriched(
            state,
            found(toml_string_spec(t, seq!["transport"@, "http"@, "bind"@])),
            found(toml_string_spec(t, seq!["kb_path"@])),
        ),
        None => state,
    }
}

/// A service in one sentence, with what its configuration says. A name that no service can have
/// is refused, in words.
pub fn run_status(service_name: &str, state: ServiceState, document: Option<&str>) -> (r: Result<
    String,
    String,
>)
    ensures
        if valid_name(service_name@) {
            r matches Ok(t) && t@ == state_text(
                service_name@,
                with_document(
                    state@,
                    match document {
                        Some(d) => Some(d@),
                        None => None,
                    },
                ),
            )
        } else {
            r matches Err(e) && e@ == bad_name_text(service_name@)
        },
{
    let name = match validate_service_name(service_name) {
        Ok(n) => n,
        Err(e) => {
            return Err(e);
        },
    };
    let state = enrich_with_toml(document, state);
    Ok(format_state(name.as_str(), &state))
}

/// The rows of a list of services.
pub open spec fn rows_text(entries: Seq<Listed>) -> Seq<char>
    decreases entries.len(),
{
    if entries.len() == 0 {
        seq![]
    } else {
        let e = entries.last();
        rows_text(entries.drop_last()) + row_text(
            e.name@,
            with_document(e.state@, text::opt_view(e.document)),
        ) + seq!['\n']
    }
}

fn copy_state(state: &ServiceState) -> (r: ServiceState)
    ensures
        r@ == state@,
{
    match state {
        ServiceState::Running { uptime_secs, bind, kb_path, model } => ServiceState::Running {
            uptime_secs: *uptime_secs,
            bind: text::copy_opt(bind),
            kb_path: text::copy_opt(kb_path),
            model: text::copy_opt(model),
        },
        ServiceState::Stopped { bind, kb_path } => ServiceState::Stopped {
            bind: text::copy_opt(bind),
            kb_path: text::copy_opt(kb_path),
        },
        ServiceState::NotFound => ServiceState::NotFound,
    }
}

/// A table of services, with a head and with what their configurations say.
pub fn run_list(entries: &Vec<Listed>) -> (r: String)
    ensures
        r@ == "NAME       STATUS     BIND               KB_PATH                UPTIME\n"@
            + rows_text(entries@),
{
    let mut s = text::copy(
        "NAME       STATUS     BIND               KB_PATH                UPTIME\n",
    );
    let ghost head = s@;
    let mut i: usize = 0;
    assert(s@ =~= head + rows_text(entries@.take(0)));
    while i < entries.len()
        invariant
            i <= entries@.len(),
            s@ == head + rows_text(entries@.take(i as int)),
        decreases entries@.len() - i,
    {
        assert(entries@.take(i + 1).drop_last() =~= entries@.take(i as int));
        let document = match &entries[i].document {
            Some(d) => Some(d.as_str()),
            None => None,
        };
        let state = enrich_with_toml(document, copy_state(&entries[i].state));
        s.append(format_row(entries[i].name.as_str(), &state).as_str());
        s.push('\n');
        assert(s@ =~= head + rows_text(entries@.take(i + 1)));
        i += 1;
    }
    assert(entries@.take(i as int) =~= entries@);
    s
}

/// What is known already is never replaced by what the configuration says.
pub proof fn enriching_keeps_what_is_known(
    state: StateModel,
    bind_toml: Option<Seq<char>>,
    kb_toml: Option<Seq<char>>,
)
    ensures
        match (state, enriched(state, bind_toml, kb_toml)) {
            (
                StateModel::Running { uptime_secs: u, bind: b, kb_path: k, model: m },
                StateModel::Running { uptime_secs: u2, bind: b2, kb_path: k2, model: m2 },
            ) => u == u2 && m == m2 && (b is Some ==> b2 == b) && (k is Some ==> k2 == k),
            (
                StateModel::Stopped { bind: b, kb_path: k },
                StateModel::Stopped { bind: b2, kb_path: k2 },
            ) => (b is Some ==> b2 == b) && (k is Some ==> k2 == k),
            (StateModel::NotFound, StateModel::NotFound) => true,
            _ => false,
        },
{
}

/// What is not known of a service is what its configuration says, if that says it; a service that
/// is not there stays so.
pub proof fn the_configuration_fills_what_is_not_known(
    state: StateModel,
    bind_toml: Option<Seq<char>>,
    kb_toml: Option<Seq<char>>,
)
    ensures
        ({
            let r = enriched(state, bind_toml, kb_toml);
            &&& state is Running <==> r is Running
            &&& state is Stopped <==> r is Stopped
            &&& state is Running && state->Running_bind is None ==> r->Running_bind == bind_toml
            &&& state is Running && state->Running_kb_path is None ==> r->Running_kb_path
                == kb_toml
            &&& state is Stopped && state->Stopped_bind is None ==> r->Stopped_bind == bind_toml
            &&& state is Stopped && state->Stopped_kb_path is None ==> r->Stopped_kb_path
                == kb_toml
        }),
{
}

/// The configuration is asked for the address under `transport`, `http`, `bind` and for the
/// knowledge base under `kb_path`; without a configuration nothing is added.
pub proof fn where_the_configuration_is_asked(state: StateModel, document: Seq<char>)
    ensures
        with_document(state, None) == state,
        ({
            let bind = toml_string_spec(document, seq!["transport"@, "http"@, "bind"@]);
            let kb = toml_string_spec(document, seq!["kb_path"@]);
            let r = with_document(state, Some(document));
            &&& state == super::just_running() && bind is Ok ==> r->Running_bind == bind->Ok_0
            &&& state == super::just_running() && kb is Ok ==> r->Running_kb_path == kb->Ok_0
            &&& state == super::just_stopped() && bind is Ok ==> r->Stopped_bind == bind->Ok_0
            &&& state == super::just_stopped() && kb is Ok ==> r->Stopped_kb_path == kb->Ok_0
            &&& bind is Err && kb is Err ==> r == state
        }),
{
}

/// The sentence on a service begins with its name, says whether it runs, and shows what is known,
/// or that it is not known.
pub proof fn a_sentence_tells_the_state(
    name: Seq<char>,
    uptime_secs: u64,
    bind: Option<Seq<char>>,
    kb_path: Option<Seq<char>>,
    model: Option<Seq<char>>,
)
    ensures
        ({
            let shown = |o: Option<Seq<char>>|
                if o is Some {
                    o->0
                } else {
                    "(unknown)"@
                };
            let up = state_text(name, StateModel::Running { uptime_secs, bind, kb_path, model });
            let down = state_text(name, StateModel::Stopped { bind, kb_path });
            &&& up == name + ": running (uptime "@ + text::decimal_spec(uptime_secs as nat)
                + "s, bind "@ + shown(bind) + ", kb_path "@ + shown(kb_path) + ", model "@ + shown(
                model,
            ) + ")"@
            &&& down == name + ": stopped (bind "@ + shown(bind) + ", kb_path "@ + shown(kb_path)
                + ")"@
            &&& state_text(name, StateModel::NotFound) == name + ": not found"@
        }),
{
}

/// Each service has one row of the table, in order; the row begins with its name.
pub proof fn each_service_has_its_row(entries: Seq<Listed>, e: Listed)
    ensures
        rows_text(entries.push(e)) == rows_text(entries) + row_text(
            e.name@,
            with_document(e.state@, text::opt_view(e.document)),
        ) + seq!['\n'],
        rows_text(seq![]).len() == 0,
        e.state@ is NotFound ==> rows_text(seq![e]) == text::pad_right_spec(e.name@, 10)
            + " not-found"@ + seq!['\n'],
{
    assert(entries.push(e).drop_last() =~= entries);
    assert(seq![e].drop_last() =~= seq![]);
    if e.state@ is NotFound {
        assert(seq![e].last() == e);
        assert(rows_text(seq![e].drop_last()) =~= seq![]);
        let row = text::pad_right_spec(e.name@, 10) + " not-found"@;
        assert(with_document(e.state@, text::opt_view(e.document)) is NotFound);
        assert(rows_text(seq![e]) == Seq::<char>::empty() + row + seq!['\n']);
        assert(Seq::<char>::empty() + row =~= row);
    }
}

} // verus!

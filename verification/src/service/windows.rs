//! Scheduled tasks of Windows.
use vstd::prelude::*;

use super::{ServiceState, StateModel, bare_state, just_running, just_stopped};
use crate::text;

verus! {

/// The name of a service's task.
pub open spec fn task_name_spec(service_name: Seq<char>) -> Seq<char> {
    "kb-mcp-"@ + service_name
}

/// The name of a service's task.
pub fn task_name(service_name: &str) -> (r: String)
    ensures
        r@ == task_name_spec(service_name@),
{
    let mut r = text::copy("kb-mcp-");
    r.append(service_name);
    r
}

/// A text as it stands between single quotes in PowerShell: each single quote is doubled.
pub open spec fn escaped(s: Seq<char>) -> Seq<char> {
    text::replace_char_spec(s, '\'', "''"@)
}

/// The text between single quotes of which PowerShell reads `s`: each pair of quotes is one.
pub open spec fn unescaped(s: Seq<char>) -> Seq<char>
    decreases s.len(),
{
    if s.len() == 0 {
        seq![]
    } else if s.len() >= 2 && s.last() == '\'' && s[s.len() - 2] == '\'' {
        unescaped(s.take(s.len() - 2)).push('\'')
    } else {
        unescaped(s.drop_last()).push(s.last())
    }
}

/// An escaped text stands for the text that was escaped, whatever quotes that holds.
pub proof fn escaping_is_undone(s: Seq<char>)
    ensures
        unescaped(escaped(s)) == s,
    decreases s.len(),
{
    reveal_strlit("''");
    if s.len() > 0 {
        let before = escaped(s.drop_last());
        escaping_is_undone(s.drop_last());
        assert(s =~= s.drop_last().push(s.last()));
        if s.last() == '\'' {
            assert("''"@.len() == 2);
            assert(escaped(s) =~= before + "''"@);
            assert(escaped(s).take(escaped(s).len() - 2) =~= before);
        } else {
            assert(escaped(s).drop_last() =~= before);
        }
    }
}

/// `s` between single quotes, as PowerShell reads it.
pub open spec fn ps_quote_spec(s: Seq<char>) -> Seq<char> {
    seq!['\''] + escaped(s) + seq!['\'']
}

/// `s` between single quotes, as PowerShell reads it.
pub fn ps_quote(s: &str) -> (r: String)
    ensures
        r@ == ps_quote_spec(s@),
{
    let mut r: String = String::new();
    r.push('\'');
    r.append(text::replace_char(s, '\'', "''").as_str());
    r.push('\'');
    assert(r@ =~= ps_quote_spec(s@));
    r
}

/// The PowerShell script that registers a service's task.
pub open spec fn register_script_spec(
    service_name: Seq<char>,
    binary_path: Seq<char>,
    config_home: Seq<char>,
    auto_start: bool,
    force: bool,
) -> Seq<char> {
    let task = task_name_spec(service_name);
    "$ErrorActionPreference='Stop'; $action = New-ScheduledTaskAction -Execute '"@ + escaped(
        binary_path,
    ) + "' -Argument 'serve' -WorkingDirectory '"@ + escaped(config_home)
        + "'; $trigger = New-ScheduledTaskTrigger -AtLogOn -User \"$env:USERDOMAIN\\$env:USERNAME\"; $trigger.Enabled = "@
        + (if auto_start {
        "$true"@
    } else {
        "$false"@
    })
        + "; $settings = New-ScheduledTaskSettingsSet -RestartCount 3 -RestartInterval (New-TimeSpan -Minutes 1) -Priority 7; Register-ScheduledTask -TaskName '"@
        + task
        + "' -Action $action -Trigger $trigger -Settings $settings -RunLevel Limited -Description 'kb-mcp loopback HTTP MCP server ("@
        + task + ")'"@ + (if force {
        " -Force"@
    } else {
        ""@
    }) + " | Out-Null"@
}

/// The PowerShell script that registers a service's task. The task runs with the rights of the
/// user, and starts at logon unless it is not to.
pub fn register_script(
    service_name: &str,
    binary_path: &str,
    config_home: &str,
    auto_start: bool,
    force: bool,
) -> (r: String)
    ensures
        r@ == register_script_spec(
            service_name@,
            binary_path@,
            config_home@,
            auto_start,
            force,
        ),
{
    let task = task_name(service_name);
    let mut r = text::copy(
        "$ErrorActionPreference='Stop'; $action = New-ScheduledTaskAction -Execute '",
    );
    r.append(text::replace_char(binary_path, '\'', "''").as_str());
    r.append("' -Argument 'serve' -WorkingDirectory '");
    r.append(text::replace_char(config_home, '\'', "''").as_str());
    r.append(
        "'; $trigger = New-ScheduledTaskTrigger -AtLogOn -User \"$env:USERDOMAIN\\$env:USERNAME\"; $trigger.Enabled = ",
    );
    r.append(
        if auto_start {
            "$true"
        } else {
            "$false"
        },
    );
    r.append(
        "; $settings = New-ScheduledTaskSettingsSet -RestartCount 3 -RestartInterval (New-TimeSpan -Minutes 1) -Priority 7; Register-ScheduledTask -TaskName '",
    );
    r.append(task.as_str());
    r.append(
        "' -Action $action -Trigger $trigger -Settings $settings -RunLevel Limited -Description 'kb-mcp loopback HTTP MCP server (",
    );
    r.append(task.as_str());
    r.append(")'");
    r.append(
        if force {
            " -Force"
        } else {
            ""
        },
    );
    r.append(" | Out-Null");
    r
}

/// What `schtasks /Query` of one task means: without success there is no such task; with it, the
/// task runs if the answer says so.
pub fn parse_status(success: bool, stdout: &str) -> (r: ServiceState)
    ensures
        r@ == if !success {
            StateModel::NotFound
        } else if text::contains_spec(stdout@, "Running"@) {
            just_running()
        } else {
            just_stopped()
        },
{
    if !success {
        return ServiceState::NotFound;
    }
    bare_state(text::contains(stdout, "Running"))
}

/// The first field of a line, without quotes around it and backslashes before it.
pub open spec fn task_field(line: Seq<char>) -> Seq<char> {
    text::trim_start_set_spec(
        text::trim_end_set_spec(
            text::trim_start_set_spec(text::split_spec(line, ',')[0], seq!['"']),
            seq!['"'],
        ),
        seq!['\\'],
    )
}

/// The services of this program among the lines of `schtasks /Query`.
pub open spec fn listed_services(lines: Seq<Seq<char>>) -> Seq<Seq<char>>
    decreases lines.len(),
{
    if lines.len() == 0 {
        seq![]
    } else {
        let before = listed_services(lines.drop_last());
        let field = task_field(lines.last());
        if text::starts_with_spec(field, "kb-mcp-"@) {
            before.push(field.skip("kb-mcp-"@.len() as int))
        } else {
            before
        }
    }
}

/// The services of this program that `schtasks /Query` lists.
pub fn parse_list(stdout: &str) -> (r: Vec<String>)
    ensures
        text::views(r@) == listed_services(text::lines_spec(stdout@)),
{
    let lines = text::lines(stdout);
    let ghost all = text::lines_spec(stdout@);
    let mut quote: Vec<char> = Vec::new();
    quote.push('"');
    assert(quote@ =~= seq!['"']);
    let mut backslash: Vec<char> = Vec::new();
    backslash.push('\\');
    assert(backslash@ =~= seq!['\\']);
    let mut out: Vec<String> = Vec::new();
    let mut i: usize = 0;
    assert(text::views(out@) =~= listed_services(all.take(0)));
    while i < lines.len()
        invariant
            i <= lines@.len(),
            all == text::views(lines@),
            quote@ == seq!['"'],
            backslash@ == seq!['\\'],
            text::views(out@) == listed_services(all.take(i as int)),
        decreases lines@.len() - i,
    {
        assert(all.take(i + 1).drop_last() =~= all.take(i as int));
        let line = lines[i].as_str();
        proof {
            text::split_is_not_empty(line@, ',');
        }
        let fields = text::split(line, ',');
        assert(text::views(fields@)[0] == fields@[0]@);
        let a = text::trim_start_set(fields[0].as_str(), &quote);
        let b = text::trim_end_set(a.as_str(), &quote);
        let field = text::trim_start_set(b.as_str(), &backslash);
        assert(field@ == task_field(line@));
        let ghost before = text::views(out@);
        if let Some(rest) = text::strip_prefix(field.as_str(), "kb-mcp-") {
            assert(rest@ =~= field@.skip("kb-mcp-"@.len() as int));
            out.push(rest);
            assert(text::views(out@) =~= before.push(rest@));
        }
        i += 1;
    }
    assert(all.take(i as int) =~= all);
    out
}

/// Between single quotes each quote of a text is written twice, and everything else as it is.
pub proof fn quotes_are_doubled(a: Seq<char>, b: Seq<char>)
    ensures
        escaped(a + seq!['\''] + b) == escaped(a) + seq!['\'', '\''] + escaped(b),
        !a.contains('\'') ==> escaped(a) == a,
        ps_quote_spec(a) == seq!['\''] + escaped(a) + seq!['\''],
    decreases b.len(),
{
    reveal_strlit("''");
    assert("''"@ =~= seq!['\'', '\'']);
    let all = a + seq!['\''] + b;
    if b.len() == 0 {
        assert(all.drop_last() =~= a);
        assert(all.last() == '\'');
        assert(escaped(all) =~= escaped(a) + seq!['\'', '\''] + escaped(b));
    } else {
        quotes_are_doubled(a, b.drop_last());
        assert(all.drop_last() =~= a + seq!['\''] + b.drop_last());
        assert(all.last() == b.last());
        assert(escaped(all) =~= escaped(a) + seq!['\'', '\''] + escaped(b));
    }
    if !a.contains('\'') {
        what_has_no_quote_stays(a);
    }
}

proof fn what_has_no_quote_stays(a: Seq<char>)
    requires
        !a.contains('\''),
    ensures
        escaped(a) == a,
    decreases a.len(),
{
    if a.len() > 0 {
        let rest = a.drop_last();
        assert(a[a.len() - 1] != '\'');
        assert(!rest.contains('\'')) by {
            if rest.contains('\'') {
                let i = choose|i: int| 0 <= i < rest.len() && rest[i] == '\'';
                assert(a[i] == '\'');
            }
        }
        what_has_no_quote_stays(rest);
        assert(escaped(a) =~= a);
    } else {
        assert(escaped(a) =~= a);
    }
}

/// A task that was registered for a service is listed under the service's name, whatever else the
/// line says; a line on any other task adds nothing.
pub proof fn a_registered_service_is_listed(
    lines: Seq<Seq<char>>,
    name: Seq<char>,
    other: Seq<char>,
    rest: Seq<char>,
)
    requires
        super::valid_name(name),
        super::valid_name(other),
        !text::starts_with_spec(other, "kb-mcp-"@),
    ensures
        ({
            let line = |task: Seq<char>| seq!['"', '\\'] + task + seq!['"'] + seq![','] + rest;
            &&& listed_services(lines.push(line(task_name_spec(name)))) == listed_services(
                lines,
            ).push(name)
            &&& listed_services(lines.push(line(other))) == listed_services(lines)
        }),
        listed_services(seq![]).len() == 0,
{
    reveal_strlit("kb-mcp-");
    let task = task_name_spec(name);
    assert forall|i: int| 0 <= i < task.len() implies super::name_char(#[trigger] task[i]) by {
        if i >= "kb-mcp-"@.len() {
            assert(task[i] == name[i - "kb-mcp-"@.len()]);
        }
    }
    a_task_is_the_first_field(task, rest);
    a_task_is_the_first_field(other, rest);
    let of_task = seq!['"', '\\'] + task + seq!['"'] + seq![','] + rest;
    let of_other = seq!['"', '\\'] + other + seq!['"'] + seq![','] + rest;
    assert(lines.push(of_task).drop_last() =~= lines);
    assert(lines.push(of_other).drop_last() =~= lines);
    text::parts_stand_in_a_text("kb-mcp-"@, name, seq![]);
    assert(task.skip("kb-mcp-"@.len() as int) =~= name);
}

proof fn a_task_is_the_first_field(task: Seq<char>, rest: Seq<char>)
    requires
        super::valid_name(task),
    ensures
        task_field(seq!['"', '\\'] + task + seq!['"'] + seq![','] + rest) == task,
{
    let field = seq!['"', '\\'] + task + seq!['"'];
    let line = field + seq![','] + rest;
    assert(!field.contains(',')) by {
        if field.contains(',') {
            let i = choose|i: int| 0 <= i < field.len() && field[i] == ',';
            if 2 <= i < 2 + task.len() {
                assert(super::name_char(task[i - 2]));
            }
        }
    }
    text::splitting_goes_on_behind_a_separator(field, rest, ',');
    let only = seq![field];
    assert(only.drop_last() =~= seq![]);
    text::splitting_undoes_joining(only, ',');
    assert(text::join_spec(only, seq![',']) =~= field);
    text::split_is_not_empty(rest, ',');
    assert(text::split_spec(line, ',')[0] == field);
    let quote = seq!['"'];
    let backslash = seq!['\\'];
    assert(quote[0] == '"' && backslash[0] == '\\');
    let a = seq!['\\'] + task + quote;
    let b = backslash + task;
    assert(super::name_char(task[0]));
    assert(super::name_char(task[task.len() - 1]));
    assert(quote + a =~= field);
    assert(a[0] == '\\');
    assert(!quote.contains(a[0]));
    text::characters_of_a_set_are_taken_off(quote, a, quote);
    assert(b + quote =~= a);
    assert(b.last() == task[task.len() - 1]);
    assert(!quote.contains(b.last()));
    text::characters_of_a_set_are_taken_off(quote, b, quote);
    assert(!backslash.contains(task[0]));
    text::characters_of_a_set_are_taken_off(backslash, task, backslash);
}

/// The script names the program, its directory and the task, each as PowerShell reads it between
/// single quotes; it overwrites only if asked, and starts at logon only if asked.
pub proof fn a_script_registers_what_is_asked(
    service_name: Seq<char>,
    binary_path: Seq<char>,
    config_home: Seq<char>,
    auto_start: bool,
    force: bool,
)
    ensures
        ({
            let r = register_script_spec(
                service_name,
                binary_path,
                config_home,
                auto_start,
                force,
            );
            &&& text::starts_with_spec(
                r,
                "$ErrorActionPreference='Stop'; $action = New-ScheduledTaskAction -Execute '"@
                    + escaped(binary_path) + "' -Argument 'serve' -WorkingDirectory '"@ + escaped(
                    config_home,
                )
                    + "'; $trigger = New-ScheduledTaskTrigger -AtLogOn -User \"$env:USERDOMAIN\\$env:USERNAME\"; $trigger.Enabled = "@
                    + if auto_start {
                    "$true"@
                } else {
                    "$false"@
                },
            )
            &&& text::ends_with_spec(
                r,
                "; $settings = New-ScheduledTaskSettingsSet -RestartCount 3 -RestartInterval (New-TimeSpan -Minutes 1) -Priority 7; Register-ScheduledTask -TaskName '"@
                    + ("kb-mcp-"@ + service_name)
                    + "' -Action $action -Trigger $trigger -Settings $settings -RunLevel Limited -Description 'kb-mcp loopback HTTP MCP server ("@
                    + ("kb-mcp-"@ + service_name) + ")'"@ + if force {
                    " -Force | Out-Null"@
                } else {
                    " | Out-Null"@
                },
            )
        }),
{
    let task = "kb-mcp-"@ + service_name;
    let head = "$ErrorActionPreference='Stop'; $action = New-ScheduledTaskAction -Execute '"@
        + escaped(binary_path) + "' -Argument 'serve' -WorkingDirectory '"@ + escaped(config_home)
        + "'; $trigger = New-ScheduledTaskTrigger -AtLogOn -User \"$env:USERDOMAIN\\$env:USERNAME\"; $trigger.Enabled = "@
        + if auto_start {
        "$true"@
    } else {
        "$false"@
    };
    let settings = "; $settings = New-ScheduledTaskSettingsSet -RestartCount 3 -RestartInterval (New-TimeSpan -Minutes 1) -Priority 7; Register-ScheduledTask -TaskName '"@;
    let about = "' -Action $action -Trigger $trigger -Settings $settings -RunLevel Limited -Description 'kb-mcp loopback HTTP MCP server ("@;
    let forced = if force {
        " -Force"@
    } else {
        ""@
    };
    let end = if force {
        " -Force | Out-Null"@
    } else {
        " | Out-Null"@
    };
    reveal_strlit(" -Force");
    reveal_strlit("");
    reveal_strlit(" | Out-Null");
    reveal_strlit(" -Force | Out-Null");
    assert(forced + " | Out-Null"@ =~= end);
    let r = register_script_spec(service_name, binary_path, config_home, auto_start, force);
    parts_in_a_row(head, settings, task, about, ")'"@, forced, " | Out-Null"@);
    let tail = settings + task + about + task + ")'"@ + end;
    assert(r == head + tail);
    text::parts_stand_in_a_text(head, tail, seq![]);
    text::parts_stand_in_a_text(seq![], head, tail);
}

proof fn parts_in_a_row(
    head: Seq<char>,
    settings: Seq<char>,
    task: Seq<char>,
    about: Seq<char>,
    close: Seq<char>,
    forced: Seq<char>,
    end: Seq<char>,
)
    ensures
        head + settings + task + about + task + close + forced + end == head + (settings + task
            + about + task + close + (forced + end)),
{
    assert(head + settings + task + about + task + close + forced + end =~= head + (settings + task
        + about + task + close + (forced + end)));
}

} // verus!

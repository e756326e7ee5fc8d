//! Launch agents of macOS.
use vstd::prelude::*;

use super::{InstallContext, ServiceState, StateModel, bare_state, just_running, just_stopped};
use crate::path;
use crate::text;

verus! {

/// The property list of a launch agent.
pub open spec fn plist_spec(ctx: InstallContext) -> Seq<char> {
    let on = if ctx.auto_start {
        "<true/>"@
    } else {
        "<false/>"@
    };
    "<?xml version=\"1.0\" encoding=\"UTF-8\"?>\n<plist version=\"1.0\">\n<dict>\n    <key>Label</key>\n    <string>com.kb-mcp."@
        + ctx.service_name@
        + "</string>\n    <key>ProgramArguments</key>\n    <array>\n        <string>"@
        + ctx.binary_path@
        + "</string>\n        <string>serve</string>\n    </array>\n    <key>WorkingDirectory</key>\n    <string>"@
        + ctx.config_home@ + "</string>\n    <key>RunAtLoad</key>\n    "@ + on
        + "\n    <key>KeepAlive</key>\n    "@ + on
        + "\n    <key>EnvironmentVariables</key>\n    <dict>\n        <key>RUST_LOG</key>\n        <string>info</string>\n    </dict>\n    <key>StandardOutPath</key>\n    <string>"@
        + ctx.config_home@
        + "/kb-mcp.out</string>\n    <key>StandardErrorPath</key>\n    <string>"@
        + ctx.config_home@ + "/kb-mcp.err</string>\n</dict>\n</plist>\n"@
}

/// The property list of a launch agent. An agent that is not to start by itself is not kept
/// alive either.
pub fn render_plist(ctx: &InstallContext) -> (r: String)
    ensures
        r@ == plist_spec(*ctx),
{
    let on = if ctx.auto_start {
        "<true/>"
    } else {
        "<false/>"
    };
    let mut r = text::copy(
        "<?xml version=\"1.0\" encoding=\"UTF-8\"?>\n<plist version=\"1.0\">\n<dict>\n    <key>Label</key>\n    <string>com.kb-mcp.",
    );
    r.append(ctx.service_name.as_str());
    r.append("</string>\n    <key>ProgramArguments</key>\n    <array>\n        <string>");
    r.append(ctx.binary_path.as_str());
    r.append(
        "</string>\n        <string>serve</string>\n    </array>\n    <key>WorkingDirectory</key>\n    <string>",
    );
    r.append(ctx.config_home.as_str());
    r.append("</string>\n    <key>RunAtLoad</key>\n    ");
    r.append(on);
    r.append("\n    <key>KeepAlive</key>\n    ");
    r.append(on);
    r.append(
        "\n    <key>EnvironmentVariables</key>\n    <dict>\n        <key>RUST_LOG</key>\n        <string>info</string>\n    </dict>\n    <key>StandardOutPath</key>\n    <string>",
    );
    r.append(ctx.config_home.as_str());
    r.append("/kb-mcp.out</string>\n    <key>StandardErrorPath</key>\n    <string>");
    r.append(ctx.config_home.as_str());
    r.append("/kb-mcp.err</string>\n</dict>\n</plist>\n");
    r
}

/// The file of a launch agent's property list, below the home directory.
pub fn plist_path(home: &str, service_name: &str) -> (r: String)
    ensures
        r@ == path::join_spec(
            home@,
            "Library/LaunchAgents/com.kb-mcp."@ + service_name@ + ".plist"@,
        ),
{
    let mut name = text::copy("Library/LaunchAgents/com.kb-mcp.");
    name.append(service_name);
    name.append(".plist");
    path::join(home, name.as_str())
}

/// Whether a line of `launchctl list` says that the agent has a process.
pub open spec fn names_process(line: Seq<char>) -> bool {
    let t = text::trim_spec(line);
    text::starts_with_spec(t, "\"PID\" ="@) || text::starts_with_spec(t, "PID ="@)
}

/// What `launchctl list` of one agent means: without success there is no such agent; with it,
/// the agent runs if a process is named.
pub open spec fn status_spec(success: bool, stdout: Seq<char>) -> StateModel {
    if !success {
        StateModel::NotFound
    } else if exists|i: int|
        0 <= i < text::lines_spec(stdout).len() && names_process(
            #[trigger] text::lines_spec(stdout)[i],
        ) {
        just_running()
    } else {
        just_stopped()
    }
}

/// What `launchctl list` of one agent means.
pub fn parse_status(success: bool, stdout: &str) -> (r: ServiceState)
    ensures
        r@ == status_spec(success, stdout@),
{
    if !success {
        return ServiceState::NotFound;
    }
    let lines = text::lines(stdout);
    let ghost all = text::lines_spec(stdout@);
    let mut i: usize = 0;
    while i < lines.len()
        invariant
            i <= lines@.len(),
            all == text::views(lines@),
            all == text::lines_spec(stdout@),
            success,
            forall|j: int| 0 <= j < i ==> !names_process(#[trigger] all[j]),
        decreases lines@.len() - i,
    {
        let t = text::trim(lines[i].as_str());
        assert(all[i as int] == lines@[i as int]@);
        if text::starts_with(t.as_str(), "\"PID\" =") || text::starts_with(t.as_str(), "PID =") {
            assert(names_process(all[i as int]));
            return bare_state(true);
        }
        assert(!names_process(all[i as int]));
        i += 1;
    }
    bare_state(false)
}

/// The service whose property list a file is, if it is one of this program.
pub fn service_of_file(file_name: &str) -> (r: Option<String>)
    ensures
        match r {
            Some(s) => file_name@ == "com.kb-mcp."@ + s@ + ".plist"@,
            None => forall|s: Seq<char>|
                file_name@ != #[trigger] ("com.kb-mcp."@ + s) + ".plist"@,
        },
{
    let ghost head = "com.kb-mcp."@;
    let ghost tail = ".plist"@;
    match text::strip_prefix(file_name, "com.kb-mcp.") {
        None => {
            proof {
                assert forall|s: Seq<char>| file_name@ != #[trigger] (head + s) + tail by {
                    if file_name@ == (head + s) + tail {
                        assert(file_name@.subrange(0, head.len() as int) =~= head);
                    }
                }
            }
            None
        },
        Some(rest) => match text::strip_suffix(rest.as_str(), ".plist") {
            None => {
                proof {
                    assert forall|s: Seq<char>| file_name@ != #[trigger] (head + s) + tail by {
                        if file_name@ == (head + s) + tail {
                            assert(rest@ =~= file_name@.skip(head.len() as int));
                            assert(rest@ =~= s + tail);
                            assert(rest@.subrange(rest@.len() - tail.len(), rest@.len() as int)
                                =~= tail);
                        }
                    }
                }
                None
            },
            Some(s) => {
                assert(file_name@ =~= head + s@ + tail);
                Some(s)
            },
        },
    }
}

/// The launch agent of a service in the domain of a user.
pub fn agent_target(uid: &str, service_name: &str) -> (r: String)
    ensures
        r@ == "gui/"@ + uid@ + "/com.kb-mcp."@ + service_name@,
{
    let mut r = text::copy("gui/");
    r.append(uid);
    r.append("/com.kb-mcp.");
    r.append(service_name);
    r
}

/// Without success there is no such agent. With it, an agent runs exactly where one of the lines
/// says so, whichever it is.
pub proof fn an_agent_runs_where_a_line_says_so(line: Seq<char>, rest: Seq<char>)
    requires
        !line.contains('\n'),
        line.len() == 0 || line.last() != '\r',
    ensures
        status_spec(false, line) is NotFound,
        status_spec(true, seq![]) == just_stopped(),
        status_spec(true, line + seq!['\n'] + rest) == if names_process(line) {
            just_running()
        } else {
            status_spec(true, rest)
        },
{
    text::lines_end_at_line_feeds(line, rest);
    let behind = text::lines_spec(rest);
    let all = seq![line] + behind;
    assert(text::lines_spec(line + seq!['\n'] + rest) == all);
    assert(all[0] == line);
    if names_process(line) {
        assert(names_process(all[0]));
    } else if exists|i: int| 0 <= i < behind.len() && names_process(#[trigger] behind[i]) {
        let i = choose|i: int| 0 <= i < behind.len() && names_process(#[trigger] behind[i]);
        assert(all[i + 1] == behind[i]);
    } else {
        assert forall|i: int| 0 <= i < all.len() implies !names_process(#[trigger] all[i]) by {
            if i > 0 {
                assert(all[i] == behind[i - 1]);
            }
        }
    }
}

/// A line names a process where, behind white space, it begins with `PID =`, with or without
/// quotes around the name.
pub proof fn a_process_is_named_at_the_head_of_a_line(
    space: Seq<char>,
    tail: Seq<char>,
    other: Seq<char>,
)
    requires
        text::all_space(space),
        other.len() > 0 && !text::whitespace_spec(other[0]),
        other[0] != 'P' && other[0] != '"',
    ensures
        names_process(space + "PID ="@ + tail),
        names_process(space + "\"PID\" ="@ + tail),
        !names_process(space + other),
{
    reveal_strlit("PID =");
    reveal_strlit("\"PID\" =");
    head_stays(space, "PID ="@, tail);
    head_stays(space, "\"PID\" ="@, tail);
    let one = seq![other[0]];
    let rest = other.skip(1);
    assert(other =~= one + rest);
    assert(space + one + rest =~= space + other);
    head_stays(space, one, rest);
    let t = text::trim_spec(space + other);
    assert(t[0] == t.subrange(0, 1)[0]);
    if text::starts_with_spec(t, "PID ="@) {
        assert(t.subrange(0, "PID ="@.len() as int)[0] == 'P');
    }
    if text::starts_with_spec(t, "\"PID\" ="@) {
        assert(t.subrange(0, "\"PID\" ="@.len() as int)[0] == '"');
    }
}

proof fn head_stays(space: Seq<char>, head: Seq<char>, tail: Seq<char>)
    requires
        text::all_space(space),
        head.len() > 0,
        !text::whitespace_spec(head[0]),
        !text::whitespace_spec(head.last()),
    ensures
        text::starts_with_spec(text::trim_spec(space + head + tail), head),
{
    let all = head + tail;
    assert(space + head + tail =~= space + all);
    assert(all[0] == head[0]);
    let after = text::trimmed_end_is_white_space(all);
    let kept = text::trim_end_spec(all);
    if kept.len() < head.len() {
        let i = head.len() - 1;
        assert(all[i] == head.last());
        assert(all[i] == after[i - kept.len()]);
    }
    assert(kept =~= all.take(kept.len() as int));
    assert(kept.subrange(0, head.len() as int) =~= head);
    lead_goes(space, all);
}

proof fn lead_goes(space: Seq<char>, all: Seq<char>)
    requires
        text::all_space(space),
        all.len() > 0,
        !text::whitespace_spec(all[0]),
    ensures
        text::trim_start_spec(space + all) == all,
    decreases space.len(),
{
    if space.len() == 0 {
        assert(space + all =~= all);
    } else {
        assert((space + all)[0] == space[0]);
        assert((space + all).drop_first() =~= space.drop_first() + all);
        lead_goes(space.drop_first(), all);
    }
}

/// The property list runs the program with `serve` in the directory of the configuration; it
/// starts by itself, and is kept alive, exactly if asked.
pub proof fn an_agent_runs_what_is_installed(ctx: InstallContext)
    ensures
        ({
            let r = plist_spec(ctx);
            let on = if ctx.auto_start {
                "<true/>"@
            } else {
                "<false/>"@
            };
            &&& text::contains_spec(
                r,
                ctx.service_name@
                    + "</string>\n    <key>ProgramArguments</key>\n    <array>\n        <string>"@
                    + ctx.binary_path@
                    + "</string>\n        <string>serve</string>\n    </array>\n    <key>WorkingDirectory</key>\n    <string>"@
                    + ctx.config_home@ + "</string>\n    <key>RunAtLoad</key>\n    "@ + on
                    + "\n    <key>KeepAlive</key>\n    "@ + on,
            )
        }),
{
    let on = if ctx.auto_start {
        "<true/>"@
    } else {
        "<false/>"@
    };
    let head = "<?xml version=\"1.0\" encoding=\"UTF-8\"?>\n<plist version=\"1.0\">\n<dict>\n    <key>Label</key>\n    <string>com.kb-mcp."@;
    let a = "</string>\n    <key>ProgramArguments</key>\n    <array>\n        <string>"@;
    let b = "</string>\n        <string>serve</string>\n    </array>\n    <key>WorkingDirectory</key>\n    <string>"@;
    let c = "</string>\n    <key>RunAtLoad</key>\n    "@;
    let d = "\n    <key>KeepAlive</key>\n    "@;
    let e = "\n    <key>EnvironmentVariables</key>\n    <dict>\n        <key>RUST_LOG</key>\n        <string>info</string>\n    </dict>\n    <key>StandardOutPath</key>\n    <string>"@;
    let f = "/kb-mcp.out</string>\n    <key>StandardErrorPath</key>\n    <string>"@;
    let g = "/kb-mcp.err</string>\n</dict>\n</plist>\n"@;
    let name = ctx.service_name@;
    let exe = ctx.binary_path@;
    let home = ctx.config_home@;
    let body = name + a + exe + b + home + c + on + d + on;
    let tail = e + home + f + home + g;
    assert(plist_spec(ctx) =~= head + body + tail);
    text::parts_stand_in_a_text(head, body, tail);
}

} // verus!

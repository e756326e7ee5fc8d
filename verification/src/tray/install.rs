//! Starting the tray at logon.
use vstd::prelude::*;

use crate::service::windows::{ps_quote, ps_quote_spec};
use crate::text;

verus! {

/// The name of the shortcut that starts the tray.
pub open spec fn shortcut_name(service_name: Seq<char>) -> Seq<char> {
    "kb-mcp-tray-"@ + service_name + ".lnk"@
}

fn quoted_shortcut(service_name: &str) -> (r: String)
    ensures
        r@ == ps_quote_spec(shortcut_name(service_name@)),
{
    let mut name = text::copy("kb-mcp-tray-");
    name.append(service_name);
    name.append(".lnk");
    ps_quote(name.as_str())
}

fn quoted_join(a: &str, b: &str) -> (r: String)
    ensures
        r@ == ps_quote_spec(a@ + b@),
{
    let mut t = text::copy(a);
    t.append(b);
    ps_quote(t.as_str())
}

/// The first half of the script that makes the shortcut.
pub open spec fn install_head(service_name: Seq<char>, exe: Seq<char>) -> Seq<char> {
    "$ErrorActionPreference='Stop'\n$startup = [Environment]::GetFolderPath('Startup')\n$lnk = Join-Path $startup "@
        + ps_quote_spec(shortcut_name(service_name))
        + "\n$shell = New-Object -ComObject WScript.Shell\n$shortcut = $shell.CreateShortcut($lnk)\n$shortcut.TargetPath = "@
        + ps_quote_spec(exe) + "\n$shortcut.Arguments = "@ + ps_quote_spec(
        "--service-name "@ + service_name,
    )
}

/// The script that makes the shortcut.
pub open spec fn install_script_spec(
    service_name: Seq<char>,
    exe: Seq<char>,
    working_directory: Seq<char>,
) -> Seq<char> {
    install_head(service_name, exe) + "\n$shortcut.WorkingDirectory = "@ + ps_quote_spec(
        working_directory,
    ) + "\n$shortcut.IconLocation = "@ + ps_quote_spec(exe + ",0"@)
        + "\n$shortcut.WindowStyle = 7\n$shortcut.Description = "@ + ps_quote_spec(
        "kb-mcp tray monitor for service "@ + service_name,
    ) + "\n$shortcut.Save()\nWrite-Output $lnk\n"@
}

/// The PowerShell script that makes a shortcut to the tray among the programs that start at
/// logon, and prints where it is.
pub fn build_install_script(
    service_name: &str,
    tray_exe_path: &str,
    working_directory: &str,
) -> (r: String)
    ensures
        r@ == install_script_spec(service_name@, tray_exe_path@, working_directory@),
{
    let mut r = text::copy(
        "$ErrorActionPreference='Stop'\n$startup = [Environment]::GetFolderPath('Startup')\n$lnk = Join-Path $startup ",
    );
    r.append(quoted_shortcut(service_name).as_str());
    r.append(
        "\n$shell = New-Object -ComObject WScript.Shell\n$shortcut = $shell.CreateShortcut($lnk)\n$shortcut.TargetPath = ",
    );
    r.append(ps_quote(tray_exe_path).as_str());
    r.append("\n$shortcut.Arguments = ");
    r.append(quoted_join("--service-name ", service_name).as_str());
    assert(r@ == install_head(service_name@, tray_exe_path@));
    r.append("\n$shortcut.WorkingDirectory = ");
    r.append(ps_quote(working_directory).as_str());
    r.append("\n$shortcut.IconLocation = ");
    r.append(quoted_join(tray_exe_path, ",0").as_str());
    r.append("\n$shortcut.WindowStyle = 7\n$shortcut.Description = ");
    r.append(quoted_join("kb-mcp tray monitor for service ", service_name).as_str());
    r.append("\n$shortcut.Save()\nWrite-Output $lnk\n");
    r
}

/// The PowerShell script that takes the shortcut away, if it is there.
pub fn build_uninstall_script(service_name: &str) -> (r: String)
    ensures
        r@
            == "$ErrorActionPreference='Stop'\n$startup = [Environment]::GetFolderPath('Startup')\n$lnk = Join-Path $startup "@
            + ps_quote_spec(shortcut_name(service_name@))
            + "\nif (Test-Path $lnk) { Remove-Item $lnk -Force }\nWrite-Output 'ok'\n"@,
{
    let mut r = text::copy(
        "$ErrorActionPreference='Stop'\n$startup = [Environment]::GetFolderPath('Startup')\n$lnk = Join-Path $startup ",
    );
    r.append(quoted_shortcut(service_name).as_str());
    r.append("\nif (Test-Path $lnk) { Remove-Item $lnk -Force }\nWrite-Output 'ok'\n");
    r
}

/// The script that finds out whether the tray starts at logon already.
pub open spec fn duplicate_script_spec(service_name: Seq<char>) -> Seq<char> {
    "$ErrorActionPreference='SilentlyContinue'\n$startup = [Environment]::GetFolderPath('Startup')\n$lnk = Join-Path $startup "@
        + ps_quote_spec(shortcut_name(service_name))
        + "\n$startup_exists = Test-Path $lnk\n$run_exists = $null -ne (Get-ItemProperty -Path 'HKCU:\\Software\\Microsoft\\Windows\\CurrentVersion\\Run' -Name "@
        + ps_quote_spec("kb-mcp-tray-"@ + service_name)
        + " -ErrorAction SilentlyContinue)\n$task_exists = $null -ne (Get-ScheduledTask -TaskName "@
        + ps_quote_spec("\\kb-mcp-tray-"@ + service_name)
        + " -ErrorAction SilentlyContinue)\n@{startup=$startup_exists; run=$run_exists; task=$task_exists} | ConvertTo-Json -Compress\n"@
}

/// The PowerShell script that finds out whether the tray starts at logon already: by the
/// shortcut, by the registry or by a scheduled task.
pub fn build_duplicate_check_script(service_name: &str) -> (r: String)
    ensures
        r@ == duplicate_script_spec(service_name@),
{
    let mut r = text::copy(
        "$ErrorActionPreference='SilentlyContinue'\n$startup = [Environment]::GetFolderPath('Startup')\n$lnk = Join-Path $startup ",
    );
    r.append(quoted_shortcut(service_name).as_str());
    r.append(
        "\n$startup_exists = Test-Path $lnk\n$run_exists = $null -ne (Get-ItemProperty -Path 'HKCU:\\Software\\Microsoft\\Windows\\CurrentVersion\\Run' -Name ",
    );
    r.append(quoted_join("kb-mcp-tray-", service_name).as_str());
    r.append(
        " -ErrorAction SilentlyContinue)\n$task_exists = $null -ne (Get-ScheduledTask -TaskName ",
    );
    r.append(quoted_join("\\kb-mcp-tray-", service_name).as_str());
    r.append(
        " -ErrorAction SilentlyContinue)\n@{startup=$startup_exists; run=$run_exists; task=$task_exists} | ConvertTo-Json -Compress\n",
    );
    r
}

// ---------------------------------------------------------------------------
// The answer of the duplicate check
// ---------------------------------------------------------------------------
/// What `serde_json` finds under a key of a JSON text: a truth value; nothing for anything else
/// or a missing key; or why the text is no JSON.
pub uninterp spec fn json_bool_spec(document: Seq<char>, key: Seq<char>) -> Result<
    Option<bool>,
    Seq<char>,
>;

/// A looked-up truth value, or an error, by its view.
pub open spec fn json_view(r: Result<Option<bool>, String>) -> Result<Option<bool>, Seq<char>> {
    match r {
        Ok(o) => Ok(o),
        Err(e) => Err(e@),
    }
}

/// `serde_json::from_str` to a `serde_json::Value`, with `Value::as_bool` on what stands under a
/// key of it. What is found depends on the text and the key alone. The grammar of JSON is not
/// restated here.
#[verifier::external_body]
fn json_bool(document: &str, key: &str) -> (r: Result<Option<bool>, String>)
    ensures
        json_view(r) == json_bool_spec(document@, key@),
{
    match serde_json::from_str::<serde_json::Value>(document) {
        Ok(v) => Ok(v[key].as_bool()),
        Err(e) => Err(e.to_string()),
    }
}

/// Why the tray is not set up to start at logon.
#[derive(Debug, Clone)]
pub enum TrayError {
    /// The program is not there.
    ExeMissing { path: String },
    /// The answer of the check cannot be read.
    BadAnswer { reason: String },
    /// The tray starts at logon already.
    AlreadyThere { service_name: String },
}

impl TrayError {
    /// The error in words.
    pub fn message(&self) -> (r: String)
        ensures
            r@ == match self {
                TrayError::ExeMissing { path } => path@
                    + " not found. Install kb-mcp-tray.exe from the v0.9.0 release zip into the same directory as kb-mcp.exe."@,
                TrayError::BadAnswer { reason } => "parse duplicate check JSON"@,
                TrayError::AlreadyThere { service_name } =>
                "tray autostart entry already exists for service '"@ + service_name@
                    + "'. Use --force to overwrite."@,
            },
    {
        match self {
            TrayError::ExeMissing { path } => {
                let mut r = path.clone();
                r.append(
                    " not found. Install kb-mcp-tray.exe from the v0.9.0 release zip into the same directory as kb-mcp.exe.",
                );
                r
            },
            TrayError::BadAnswer { reason } => text::copy("parse duplicate check JSON"),
            TrayError::AlreadyThere { service_name } => {
                let mut r = text::copy("tray autostart entry already exists for service '");
                r.append(service_name.as_str());
                r.append("'. Use --force to overwrite.");
                r
            },
        }
    }
}

/// Whether the program of the tray is there.
pub fn check_exe(path: &str, present: bool) -> (r: Result<(), TrayError>)
    ensures
        if present {
            r is Ok
        } else {
            r matches Err(TrayError::ExeMissing { path: p }) && p@ == path@
        },
{
    if present {
        Ok(())
    } else {
        Err(TrayError::ExeMissing { path: text::copy(path) })
    }
}

/// Whether any of the three lookups found the value true.
pub fn any_signal(startup: Option<bool>, run: Option<bool>, task: Option<bool>) -> (r: bool)
    ensures
        r == (startup == Some(true) || run == Some(true) || task == Some(true)),
{
    let a = match startup {
        Some(b) => b,
        None => false,
    };
    let b = match run {
        Some(b) => b,
        None => false,
    };
    let c = match task {
        Some(b) => b,
        None => false,
    };
    a || b || c
}

/// What follows from the three lookups in the answer of the check, in the order in which they
/// are made. The first that fails counts.
pub open spec fn duplicates_spec(
    service_name: Seq<char>,
    startup: Result<Option<bool>, Seq<char>>,
    run: Result<Option<bool>, Seq<char>>,
    task: Result<Option<bool>, Seq<char>>,
    r: Result<(), TrayError>,
) -> bool {
    match (startup, run, task) {
        (Err(e), _, _) => r matches Err(TrayError::BadAnswer { reason }) && reason@ == e,
        (Ok(_), Err(e), _) => r matches Err(TrayError::BadAnswer { reason }) && reason@ == e,
        (Ok(_), Ok(_), Err(e)) => r matches Err(TrayError::BadAnswer { reason }) && reason@ == e,
        (Ok(a), Ok(b), Ok(c)) => if a == Some(true) || b == Some(true) || c == Some(true) {
            r matches Err(TrayError::AlreadyThere { service_name: s }) && s@ == service_name
        } else {
            r is Ok
        },
    }
}

/// What follows from the three lookups in the answer of the check.
pub fn judge_duplicates(
    service_name: &str,
    startup: Result<Option<bool>, String>,
    run: Result<Option<bool>, String>,
    task: Result<Option<bool>, String>,
) -> (r: Result<(), TrayError>)
    ensures
        duplicates_spec(service_name@, json_view(startup), json_view(run), json_view(task), r),
{
    let a = match startup {
        Ok(a) => a,
        Err(reason) => {
            return Err(TrayError::BadAnswer { reason });
        },
    };
    let b = match run {
        Ok(b) => b,
        Err(reason) => {
            return Err(TrayError::BadAnswer { reason });
        },
    };
    let c = match task {
        Ok(c) => c,
        Err(reason) => {
            return Err(TrayError::BadAnswer { reason });
        },
    };
    if any_signal(a, b, c) {
        Err(TrayError::AlreadyThere { service_name: text::copy(service_name) })
    } else {
        Ok(())
    }
}

/// Whether the tray may be set up to start at logon, by the answer of the check: not if any of
/// the three ways is in use already.
pub fn check_duplicates(service_name: &str, answer: &str) -> (r: Result<(), TrayError>)
    ensures
        duplicates_spec(
            service_name@,
            json_bool_spec(text::trim_spec(answer@), "startup"@),
            json_bool_spec(text::trim_spec(answer@), "run"@),
            json_bool_spec(text::trim_spec(answer@), "task"@),
            r,
        ),
{
    let trimmed = text::trim(answer);
    let startup = json_bool(trimmed.as_str(), "startup");
    let run = json_bool(trimmed.as_str(), "run");
    let task = json_bool(trimmed.as_str(), "task");
    judge_duplicates(service_name, startup, run, task)
}

/// The tray may be set up exactly where all three lookups can be read and none is true. An answer
/// that cannot be read counts before one that says yes.
pub proof fn one_way_to_start_is_enough(
    service_name: Seq<char>,
    startup: Result<Option<bool>, Seq<char>>,
    run: Result<Option<bool>, Seq<char>>,
    task: Result<Option<bool>, Seq<char>>,
    r: Result<(), TrayError>,
)
    requires
        duplicates_spec(service_name, startup, run, task, r),
    ensures
        ({
            let yes = |a: Result<Option<bool>, Seq<char>>|
                a == Ok::<Option<bool>, Seq<char>>(Some(true));
            let unread = startup is Err || run is Err || task is Err;
            &&& r is Ok <==> !unread && !yes(startup) && !yes(run) && !yes(task)
            &&& unread ==> r is Err && r->Err_0 is BadAnswer
            &&& !unread && r is Err ==> r->Err_0 is AlreadyThere
                && r->Err_0->AlreadyThere_service_name@ == service_name
        }),
{
}

/// Whatever goes into a script stands in it as PowerShell reads it between single quotes.
pub proof fn scripts_hold_what_goes_into_them_quoted(
    service_name: Seq<char>,
    exe: Seq<char>,
    working_directory: Seq<char>,
)
    ensures
        ({
            let r = install_script_spec(service_name, exe, working_directory);
            let link = "kb-mcp-tray-"@ + service_name + ".lnk"@;
            &&& text::contains_spec(r, ps_quote_spec(link))
            &&& text::contains_spec(r, ps_quote_spec(exe))
            &&& text::contains_spec(r, ps_quote_spec("--service-name "@ + service_name))
            &&& text::contains_spec(r, ps_quote_spec(working_directory))
            &&& text::contains_spec(r, ps_quote_spec(exe + ",0"@))
            &&& text::contains_spec(duplicate_script_spec(service_name), ps_quote_spec(link))
            &&& text::contains_spec(
                duplicate_script_spec(service_name),
                ps_quote_spec("kb-mcp-tray-"@ + service_name),
            )
            &&& text::contains_spec(
                duplicate_script_spec(service_name),
                ps_quote_spec("\\kb-mcp-tray-"@ + service_name),
            )
        }),
{
    let a = "$ErrorActionPreference='Stop'\n$startup = [Environment]::GetFolderPath('Startup')\n$lnk = Join-Path $startup "@;
    let b = "\n$shell = New-Object -ComObject WScript.Shell\n$shortcut = $shell.CreateShortcut($lnk)\n$shortcut.TargetPath = "@;
    let link = ps_quote_spec(shortcut_name(service_name));
    let program = ps_quote_spec(exe);
    let arguments = ps_quote_spec("--service-name "@ + service_name);
    let dir = ps_quote_spec(working_directory);
    let icon = ps_quote_spec(exe + ",0"@);
    let about = ps_quote_spec("kb-mcp tray monitor for service "@ + service_name);
    let c = "\n$shortcut.Arguments = "@;
    let d = "\n$shortcut.WorkingDirectory = "@;
    let e = "\n$shortcut.IconLocation = "@;
    let f = "\n$shortcut.WindowStyle = 7\n$shortcut.Description = "@;
    let g = "\n$shortcut.Save()\nWrite-Output $lnk\n"@;
    let rest = f + about + g;
    five_values(a, link, b, program, c, arguments, d, dir, e, icon, rest);
    let r = install_script_spec(service_name, exe, working_directory);
    assert(r =~= a + link + b + program + c + arguments + d + dir + e + icon + rest);
    let x = "$ErrorActionPreference='SilentlyContinue'\n$startup = [Environment]::GetFolderPath('Startup')\n$lnk = Join-Path $startup "@;
    let y = "\n$startup_exists = Test-Path $lnk\n$run_exists = $null -ne (Get-ItemProperty -Path 'HKCU:\\Software\\Microsoft\\Windows\\CurrentVersion\\Run' -Name "@;
    let z = " -ErrorAction SilentlyContinue)\n$task_exists = $null -ne (Get-ScheduledTask -TaskName "@;
    let end = " -ErrorAction SilentlyContinue)\n@{startup=$startup_exists; run=$run_exists; task=$task_exists} | ConvertTo-Json -Compress\n"@;
    let key = ps_quote_spec("kb-mcp-tray-"@ + service_name);
    let task = ps_quote_spec("\\kb-mcp-tray-"@ + service_name);
    let none = Seq::<char>::empty();
    five_values(x, link, y, key, z, task, end, none, none, none, none);
    let q = duplicate_script_spec(service_name);
    assert(q =~= x + link + y + key + z + task + end + none + none + none + none);
}

proof fn five_values(
    a: Seq<char>,
    v: Seq<char>,
    b: Seq<char>,
    w: Seq<char>,
    c: Seq<char>,
    x: Seq<char>,
    d: Seq<char>,
    y: Seq<char>,
    e: Seq<char>,
    z: Seq<char>,
    rest: Seq<char>,
)
    ensures
        ({
            let r = a + v + b + w + c + x + d + y + e + z + rest;
            &&& text::contains_spec(r, v)
            &&& text::contains_spec(r, w)
            &&& text::contains_spec(r, x)
            &&& text::contains_spec(r, y)
            &&& text::contains_spec(r, z)
        }),
{
    let r = a + v + b + w + c + x + d + y + e + z + rest;
    assert(r =~= a + v + (b + w + c + x + d + y + e + z + rest));
    text::parts_stand_in_a_text(a, v, b + w + c + x + d + y + e + z + rest);
    assert(r =~= (a + v + b) + w + (c + x + d + y + e + z + rest));
    text::parts_stand_in_a_text(a + v + b, w, c + x + d + y + e + z + rest);
    assert(r =~= (a + v + b + w + c) + x + (d + y + e + z + rest));
    text::parts_stand_in_a_text(a + v + b + w + c, x, d + y + e + z + rest);
    assert(r =~= (a + v + b + w + c + x + d) + y + (e + z + rest));
    text::parts_stand_in_a_text(a + v + b + w + c + x + d, y, e + z + rest);
    text::parts_stand_in_a_text(a + v + b + w + c + x + d + y + e, z, rest);
}

} // verus!

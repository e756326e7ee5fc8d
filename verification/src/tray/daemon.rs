//! Starting and stopping the service from the tray.
use vstd::prelude::*;

use crate::service::windows;
use crate::text;

verus! {

/// How long a service is given to end before it is started again, in milliseconds.
pub const RESTART_GRACE_MS: u64 = 800;

/// The name of a service's task.
pub fn task_name(service_name: &str) -> (r: String)
    ensures
        r@ == windows::task_name_spec(service_name@),
{
    windows::task_name(service_name)
}

/// A text as it stands between single quotes in PowerShell: each single quote is doubled.
pub fn escape_single_quote(s: &str) -> (r: String)
    ensures
        r@ == windows::escaped(s@),
{
    text::replace_char(s, '\'', "''")
}

/// The PowerShell script that starts a service.
pub fn start_script(service_name: &str) -> (r: String)
    ensures
        r@ == "Start-ScheduledTask -TaskName '"@ + windows::escaped(
            windows::task_name_spec(service_name@),
        ) + "'"@,
{
    let mut r = text::copy("Start-ScheduledTask -TaskName '");
    r.append(escape_single_quote(task_name(service_name).as_str()).as_str());
    r.append("'");
    r
}

/// The PowerShell script that stops a service.
pub fn stop_script(service_name: &str) -> (r: String)
    ensures
        r@ == "Stop-ScheduledTask -TaskName '"@ + windows::escaped(
            windows::task_name_spec(service_name@),
        ) + "'"@,
{
    let mut r = text::copy("Stop-ScheduledTask -TaskName '");
    r.append(escape_single_quote(task_name(service_name).as_str()).as_str());
    r.append("'");
    r
}

} // verus!

//! Services of systemd.
use vstd::prelude::*;

use super::InstallContext;
use crate::text;

verus! {

/// The unit file of a service.
pub open spec fn unit_spec(ctx: InstallContext) -> Seq<char> {
    "[Unit]\nDescription=kb-mcp loopback HTTP MCP server ("@ + ctx.service_name@
        + ")\n\n[Service]\nType=simple\nExecStart="@ + ctx.binary_path@
        + " serve\nWorkingDirectory="@ + ctx.config_home@
        + "\nRestart=on-failure\n\n[Install]\nWantedBy=default.target\n"@
}

/// The unit file of a service.
pub fn render_unit(ctx: &InstallContext) -> (r: String)
    ensures
        r@ == unit_spec(*ctx),
{
    let mut r = text::copy("[Unit]\nDescription=kb-mcp loopback HTTP MCP server (");
    r.append(ctx.service_name.as_str());
    r.append(")\n\n[Service]\nType=simple\nExecStart=");
    r.append(ctx.binary_path.as_str());
    r.append(" serve\nWorkingDirectory=");
    r.append(ctx.config_home.as_str());
    r.append("\nRestart=on-failure\n\n[Install]\nWantedBy=default.target\n");
    r
}

/// The unit runs the program with `serve` in the directory of the configuration.
pub proof fn a_unit_runs_what_is_installed(ctx: InstallContext)
    ensures
        text::contains_spec(
            unit_spec(ctx),
            ctx.service_name@ + ")\n\n[Service]\nType=simple\nExecStart="@ + ctx.binary_path@
                + " serve\nWorkingDirectory="@ + ctx.config_home@
                + "\nRestart=on-failure\n\n[Install]\nWantedBy=default.target\n"@,
        ),
{
    let head = "[Unit]\nDescription=kb-mcp loopback HTTP MCP server ("@;
    let body = ctx.service_name@ + ")\n\n[Service]\nType=simple\nExecStart="@ + ctx.binary_path@
        + " serve\nWorkingDirectory="@ + ctx.config_home@
        + "\nRestart=on-failure\n\n[Install]\nWantedBy=default.target\n"@;
    assert(unit_spec(ctx) =~= head + body + seq![]);
    text::parts_stand_in_a_text(head, body, seq![]);
}

} // verus!

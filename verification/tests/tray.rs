use kb_mcp::tray::config::{
    default_bind, host_of, normalize_to_loopback, normalize_to_loopback_with_warning, resolve,
    split_host_port, toml_path,
};
use kb_mcp::tray::daemon::{escape_single_quote, start_script, stop_script, task_name};
use kb_mcp::tray::install::{
    any_signal, build_duplicate_check_script, build_install_script, build_uninstall_script,
    check_duplicates, check_exe, judge_duplicates, TrayError,
};
use kb_mcp::tray::status::{menu_for, Failures, MenuState, StatusDot, FAILURES_UNTIL_DOWN};

fn bind_in(document: &str) -> Option<String> {
    let value: toml::Value = toml::from_str(document).unwrap();
    value
        .get("transport")
        .and_then(|t| t.get("http"))
        .and_then(|h| h.get("bind"))
        .and_then(|b| b.as_str())
        .map(String::from)
}

#[test]
fn resolves_default_bind_when_toml_empty() {
    let (cfg, warning) = resolve("kb-mcp", bind_in(""));
    assert_eq!(cfg.service_name, "kb-mcp");
    assert_eq!(cfg.bind, "127.0.0.1:3100");
    assert_eq!(cfg.base_url, "http://127.0.0.1:3100");
    assert_eq!(cfg.status_url, "http://127.0.0.1:3100/api/admin/status");
    assert_eq!(cfg.ui_url, "http://127.0.0.1:3100/ui");
    assert_eq!(warning, None);
}

#[test]
fn resolves_custom_bind() {
    let (cfg, _) = resolve(
        "kb-mcp",
        bind_in("\n[transport.http]\nbind = \"127.0.0.1:4242\"\n"),
    );
    assert_eq!(cfg.bind, "127.0.0.1:4242");
    assert_eq!(cfg.ui_url, "http://127.0.0.1:4242/ui");
    assert_eq!(cfg.status_url, "http://127.0.0.1:4242/api/admin/status");
}

#[test]
fn wildcard_bind_normalizes_to_loopback() {
    let (cfg, warning) = resolve(
        "kb-mcp",
        bind_in("\n[transport.http]\nbind = \"0.0.0.0:3100\"\n"),
    );
    assert_eq!(cfg.bind, "0.0.0.0:3100");
    assert_eq!(cfg.base_url, "http://127.0.0.1:3100");
    assert_eq!(cfg.status_url, "http://127.0.0.1:3100/api/admin/status");
    assert_eq!(cfg.ui_url, "http://127.0.0.1:3100/ui");
    assert_eq!(warning, None);
}

#[test]
fn loopback_bind_passes_through() {
    assert_eq!(normalize_to_loopback("127.0.0.1:3100"), "127.0.0.1:3100");
    assert_eq!(normalize_to_loopback("localhost:8080"), "localhost:8080");
    assert_eq!(normalize_to_loopback("[::1]:3100"), "[::1]:3100");
}

#[test]
fn wildcard_bind_rewrites_host_to_loopback() {
    assert_eq!(normalize_to_loopback("0.0.0.0:3100"), "127.0.0.1:3100");
    assert_eq!(normalize_to_loopback("[::]:3100"), "127.0.0.1:3100");
}

#[test]
fn specific_non_loopback_bind_rewrites_to_loopback() {
    assert_eq!(normalize_to_loopback("192.168.1.5:8080"), "127.0.0.1:8080");
    assert_eq!(normalize_to_loopback("10.0.0.42:3100"), "127.0.0.1:3100");
}

#[test]
fn an_address_is_taken_apart() {
    let pair = |h: &str, p: &str| (h.to_string(), p.to_string());
    assert_eq!(split_host_port("[::1]:3100"), pair("::1", "3100"));
    assert_eq!(split_host_port("[::1]::80"), pair("::1", "80"));
    assert_eq!(split_host_port("[::1]"), pair("::1", ""));
    assert_eq!(split_host_port("[::1"), pair("[::1", ""));
    assert_eq!(split_host_port("a:b:80"), pair("a:b", "80"));
    assert_eq!(split_host_port("host"), pair("host", ""));
    assert_eq!(split_host_port(""), pair("", ""));
    assert_eq!(host_of("localhost:1"), "localhost");
    assert_eq!(default_bind(), "127.0.0.1:3100");
}

#[test]
fn a_service_on_one_network_address_brings_a_warning() {
    let (host_port, warning) = normalize_to_loopback_with_warning("192.168.1.5:8080");
    assert_eq!(host_port, "127.0.0.1:8080");
    assert_eq!(
        warning.unwrap(),
        "daemon bind '192.168.1.5:8080' is specific non-loopback; tray polls 127.0.0.1 \
         but the daemon does not listen there. Either change the daemon bind \
         to loopback (127.0.0.1) or wildcard (0.0.0.0), or remove --with-tray."
    );
    assert_eq!(normalize_to_loopback_with_warning("[::]:1").1, None);
    assert_eq!(normalize_to_loopback_with_warning("localhost:1").1, None);
    assert!(resolve("a", Some("10.0.0.1:1".to_string())).1.is_some());
}

#[test]
fn the_configuration_of_the_tray_is_looked_for() {
    assert_eq!(
        toml_path(Some("/kb"), Some("/cfg"), "work").unwrap(),
        "/kb/kb-mcp.toml"
    );
    assert_eq!(
        toml_path(None, Some("/cfg"), "work").unwrap(),
        "/cfg/kb-mcp/work/kb-mcp.toml"
    );
    assert_eq!(toml_path(None, None, "work").unwrap_err(), "config_dir not found");
}

#[test]
fn task_name_uses_kb_mcp_prefix() {
    assert_eq!(task_name("kb-mcp"), "kb-mcp-kb-mcp");
    assert_eq!(task_name("work"), "kb-mcp-work");
    assert_eq!(task_name("a-b"), "kb-mcp-a-b");
}

#[test]
fn escape_doubles_each_apostrophe() {
    assert_eq!(escape_single_quote("O'Brien"), "O''Brien");
    assert_eq!(escape_single_quote("plain"), "plain");
    assert_eq!(escape_single_quote("a'b'c"), "a''b''c");
    assert_eq!(escape_single_quote("''"), "''''");
}

#[test]
fn a_service_is_started_and_stopped_by_its_task() {
    assert_eq!(start_script("work"), "Start-ScheduledTask -TaskName 'kb-mcp-work'");
    assert_eq!(stop_script("it's"), "Stop-ScheduledTask -TaskName 'kb-mcp-it''s'");
}

#[test]
fn install_script_contains_required_lines() {
    let s = build_install_script(
        "kb-mcp",
        r"C:\Users\x\.cargo\bin\kb-mcp-tray.exe",
        r"C:\Users\x\AppData\Roaming\kb-mcp\kb-mcp",
    );
    assert!(s.contains("WScript.Shell"));
    assert!(s.contains("$shortcut.TargetPath ="));
    assert!(s.contains("$shortcut.Arguments ="));
    assert!(s.contains("$shortcut.WorkingDirectory ="));
    assert!(s.contains("--service-name kb-mcp"));
    assert!(s.contains("kb-mcp-tray-kb-mcp.lnk"));
    assert!(s.contains("WindowStyle = 7"));
}

#[test]
fn install_script_escapes_apostrophe() {
    let s = build_install_script(
        "kb-mcp",
        r"C:\Users\O'Brien\bin\kb-mcp-tray.exe",
        r"C:\Users\O'Brien\AppData\Roaming\kb-mcp\kb-mcp",
    );
    assert!(s.contains("O''Brien"));
    let target_line = s
        .lines()
        .find(|l| l.contains("TargetPath"))
        .expect("TargetPath line");
    let single_quote_count = target_line.matches('\'').count();
    assert!(
        single_quote_count % 2 == 0,
        "unbalanced quotes: {target_line}"
    );
}

#[test]
fn the_install_script_is_complete() {
    let expected = r#"$ErrorActionPreference='Stop'
$startup = [Environment]::GetFolderPath('Startup')
$lnk = Join-Path $startup 'kb-mcp-tray-w.lnk'
$shell = New-Object -ComObject WScript.Shell
$shortcut = $shell.CreateShortcut($lnk)
$shortcut.TargetPath = 'C:\t.exe'
$shortcut.Arguments = '--service-name w'
$shortcut.WorkingDirectory = 'C:\d'
$shortcut.IconLocation = 'C:\t.exe,0'
$shortcut.WindowStyle = 7
$shortcut.Description = 'kb-mcp tray monitor for service w'
$shortcut.Save()
Write-Output $lnk
"#;
    assert_eq!(build_install_script("w", r"C:\t.exe", r"C:\d"), expected);
}

#[test]
fn uninstall_script_is_idempotent() {
    let s = build_uninstall_script("work");
    assert!(s.contains("Test-Path"));
    assert!(s.contains("Remove-Item"));
    assert!(s.contains("kb-mcp-tray-work.lnk"));
    assert!(s.contains("if (Test-Path $lnk) { Remove-Item $lnk -Force }\n"));
}

#[test]
fn duplicate_check_emits_three_signals() {
    let s = build_duplicate_check_script("kb-mcp");
    assert!(s.contains("$startup_exists"));
    assert!(s.contains("$run_exists"));
    assert!(s.contains("$task_exists"));
    assert!(s.contains("HKCU:\\Software\\Microsoft\\Windows\\CurrentVersion\\Run"));
    assert!(s.contains("Get-ScheduledTask"));
    assert!(s.contains(
        "@{startup=$startup_exists; run=$run_exists; task=$task_exists} | ConvertTo-Json -Compress\n"
    ));
    assert!(s.contains(r"-TaskName '\kb-mcp-tray-kb-mcp' "));
}

#[test]
fn the_answer_of_the_check_decides() {
    let ok = check_duplicates("w", "{\"startup\":false,\"run\":false,\"task\":false}\r\n");
    assert!(ok.is_ok());
    for key in ["startup", "run", "task"] {
        let answer = format!("{{\"{key}\":true}}");
        match check_duplicates("w", &answer) {
            Err(TrayError::AlreadyThere { service_name }) => assert_eq!(service_name, "w"),
            other => panic!("unexpected: {other:?}"),
        }
    }
    // what is no truth value, or not there, says nothing
    assert!(check_duplicates("w", "{\"startup\":1,\"run\":\"true\"}").is_ok());
    assert!(check_duplicates("w", "[true]").is_ok());
    match check_duplicates("w", "no json") {
        Err(e @ TrayError::BadAnswer { .. }) => {
            assert_eq!(e.message(), "parse duplicate check JSON")
        }
        other => panic!("unexpected: {other:?}"),
    }
    let there = check_duplicates("w", "{\"run\":true}").unwrap_err();
    assert_eq!(
        there.message(),
        "tray autostart entry already exists for service 'w'. Use --force to overwrite."
    );
}

#[test]
fn the_first_lookup_that_fails_counts() {
    let bad = || Err("bad".to_string());
    assert!(matches!(
        judge_duplicates("w", Ok(Some(true)), bad(), Ok(None)),
        Err(TrayError::BadAnswer { .. })
    ));
    assert!(matches!(
        judge_duplicates("w", Ok(None), Ok(None), bad()),
        Err(TrayError::BadAnswer { .. })
    ));
    assert!(judge_duplicates("w", Ok(None), Ok(Some(false)), Ok(None)).is_ok());
    assert!(any_signal(None, None, Some(true)));
    assert!(!any_signal(Some(false), None, None));
}

#[test]
fn the_program_has_to_be_there() {
    assert!(check_exe("t.exe", true).is_ok());
    assert_eq!(
        check_exe("t.exe", false).unwrap_err().message(),
        "t.exe not found. Install kb-mcp-tray.exe from the v0.9.0 release zip into the same directory as kb-mcp.exe."
    );
}

#[test]
fn twelve_failures_in_a_row_mean_down() {
    let mut f = Failures::new();
    for i in 0..FAILURES_UNTIL_DOWN {
        assert!(!f.is_down(), "down after {i}");
        f.on_failure();
    }
    assert!(f.is_down());
    f.on_failure();
    assert!(f.is_down());
    f.on_success();
    assert!(!f.is_down());
    assert_eq!(f.consecutive_failures, 0);
    let mut full = Failures { consecutive_failures: u32::MAX };
    full.on_failure();
    assert_eq!(full.consecutive_failures, u32::MAX);
}

#[test]
fn the_menu_follows_the_icon() {
    let down = MenuState { start: true, stop: false, restart: false };
    let up = MenuState { start: false, stop: true, restart: true };
    assert_eq!(menu_for(StatusDot::Red), down);
    assert_eq!(menu_for(StatusDot::Gray), down);
    assert_eq!(menu_for(StatusDot::Green), up);
    assert_eq!(menu_for(StatusDot::Yellow), up);
}

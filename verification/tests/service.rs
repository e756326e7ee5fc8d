use kb_mcp::service::install::{
    check_overwrite, check_request, check_tray, choose_kb_path, is_loopback_addr, resolve_kb_path,
    run_tray_install, InstallError, InstallParams,
};
use kb_mcp::service::linux::render_unit;
use kb_mcp::service::macos;
use kb_mcp::service::macos::render_plist;
use kb_mcp::service::status::{
    enrich_with_toml, format_row, format_state, run_list, run_status, Listed,
};
use kb_mcp::service::toml_file::{write_toml, TomlFileError};
use kb_mcp::service::uninstall;
use kb_mcp::service::uninstall::UninstallParams;
use kb_mcp::service::windows;
use kb_mcp::service::{
    bare_state, resolve_config_home, validate_service_name, InstallContext, ServiceState,
};

#[test]
fn validate_service_name_accepts_valid() {
    assert!(validate_service_name("kb-mcp").is_ok());
    assert!(validate_service_name("work_kb").is_ok());
    assert!(validate_service_name("kb-2024").is_ok());
    assert!(validate_service_name("A").is_ok());
}

#[test]
fn validate_service_name_rejects_invalid() {
    assert!(validate_service_name("").is_err());
    assert!(validate_service_name("my/kb").is_err());
    assert!(validate_service_name("kb mcp").is_err());
    assert!(validate_service_name("kb.mcp").is_err());
    assert!(validate_service_name("日本語").is_err());
}

#[test]
fn a_refused_name_is_quoted() {
    assert_eq!(validate_service_name("").unwrap_err(), "service-name must not be empty");
    assert_eq!(
        validate_service_name("a\"b").unwrap_err(),
        "invalid service-name \"a\\\"b\": must match [a-zA-Z0-9_-]+"
    );
}

#[test]
fn resolve_config_home_uses_env_var_when_set() {
    let env = Some("/tmp/kb-mcp-test-override".to_string());
    assert_eq!(
        resolve_config_home(env, Some("/home/u/.config".to_string()), "svc").unwrap(),
        "/tmp/kb-mcp-test-override/kb-mcp/svc"
    );
    assert_eq!(
        resolve_config_home(None, Some("/home/u/.config".to_string()), "svc").unwrap(),
        "/home/u/.config/kb-mcp/svc"
    );
    assert!(resolve_config_home(None, None, "svc").unwrap_err().starts_with("config dir"));
}

fn params() -> InstallParams {
    InstallParams {
        service_name: "kb-mcp".to_string(),
        kb_path: None,
        bind: "127.0.0.1:3100".to_string(),
        auto_start: true,
        force: false,
        i_know_non_loopback: false,
        with_tray: false,
    }
}

#[test]
fn a_request_is_checked_before_anything_is_written() {
    assert_eq!(check_request(&params(), true).unwrap(), ("kb-mcp".to_string(), false));
    let bad = InstallParams { service_name: "a b".to_string(), ..params() };
    assert!(check_request(&bad, true).unwrap_err().message().starts_with("invalid service-name"));
    let unread = InstallParams { bind: "localhost:3100".to_string(), ..params() };
    assert_eq!(
        check_request(&unread, false).unwrap_err().message(),
        "--bind 'localhost:3100' is not a valid socket address (e.g. '127.0.0.1:3100')"
    );
    let open = InstallParams { bind: "0.0.0.0:3100".to_string(), ..params() };
    let message = check_request(&open, true).unwrap_err().message();
    assert!(message.starts_with("bind=0.0.0.0:3100 は non-loopback です。"));
    assert!(message.contains("--i-know"));
    let meant = InstallParams { i_know_non_loopback: true, ..open };
    assert_eq!(check_request(&meant, true).unwrap(), ("kb-mcp".to_string(), true));
}

#[test]
fn a_configuration_is_overwritten_only_by_force() {
    assert!(check_overwrite("/c/kb-mcp.toml", false, false).is_ok());
    assert!(check_overwrite("/c/kb-mcp.toml", true, true).is_ok());
    assert_eq!(
        check_overwrite("/c/kb-mcp.toml", true, false).unwrap_err().message(),
        "kb-mcp.toml が既存: /c/kb-mcp.toml (--force で上書き)"
    );
}

#[test]
fn there_is_a_tray_on_windows_only() {
    assert!(check_tray(false, false).is_ok());
    assert!(check_tray(true, true).is_ok());
    assert_eq!(
        check_tray(true, false).unwrap_err().message(),
        "--with-tray is only supported on Windows"
    );
    assert_eq!(
        run_tray_install("kb-mcp", false).unwrap_err(),
        "tray-install is only supported on Windows"
    );
    assert_eq!(
        uninstall::run_tray_uninstall("kb-mcp").unwrap_err(),
        "tray-uninstall is only supported on Windows"
    );
}

#[test]
fn local_addresses_are_known_by_their_start() {
    assert!(is_loopback_addr("127.0.0.1:3100"));
    assert!(is_loopback_addr("127.9.9.9:1"));
    assert!(is_loopback_addr("[::1]:3100"));
    assert!(is_loopback_addr("localhost:3100"));
    assert!(!is_loopback_addr("0.0.0.0:3100"));
    assert!(!is_loopback_addr("[::]:3100"));
}

#[test]
fn install_resolves_kb_path_from_flag() {
    let result = resolve_kb_path(Some("/tmp/my-kb".to_string()), None).unwrap();
    assert_eq!(result, "/tmp/my-kb");
    let both = resolve_kb_path(
        Some("/tmp/my-kb".to_string()),
        Some(("/c/kb-mcp.toml", "kb_path = '/other'\n")),
    );
    assert_eq!(both.unwrap(), "/tmp/my-kb");
}

#[test]
fn install_resolves_kb_path_from_toml_when_no_flag() {
    let result = resolve_kb_path(None, Some(("/c/kb-mcp.toml", "kb_path = '/tmp/toml-kb'\n")));
    assert_eq!(result.unwrap(), "/tmp/toml-kb");
}

#[test]
fn install_resolve_kb_path_errors_when_neither_provided() {
    assert!(resolve_kb_path(None, None).is_err());
    assert!(resolve_kb_path(None, None).unwrap_err().message().starts_with("kb_path が解決できません"));
}

#[test]
fn a_configuration_without_a_kb_path_is_refused() {
    for text in ["", "kb_path = 3\n", "[index]\nkb_path = 'x'\n"] {
        let e = resolve_kb_path(None, Some(("/c/kb-mcp.toml", text))).unwrap_err();
        assert_eq!(e.message(), "/c/kb-mcp.toml に top-level `kb_path` がありません");
    }
    assert!(matches!(
        resolve_kb_path(None, Some(("/c/kb-mcp.toml", "a = b = c"))),
        Err(InstallError::BadToml { .. })
    ));
    assert_eq!(
        choose_kb_path(None, Some("/c"), Ok(Some("/kb".to_string()))).unwrap(),
        "/kb"
    );
    assert_eq!(
        choose_kb_path(None, Some("/c"), Err("why".to_string())).unwrap_err().message(),
        "why"
    );
}

#[test]
fn linux_unit_template_renders_correctly() {
    let ctx = InstallContext {
        service_name: "kb-mcp".into(),
        kb_path: "/home/u/kb".into(),
        bind: "127.0.0.1:3100".into(),
        config_home: "/home/u/.config/kb-mcp/kb-mcp".into(),
        binary_path: "/home/u/.cargo/bin/kb-mcp".into(),
        auto_start: true,
        force: false,
    };
    let unit = render_unit(&ctx);
    assert!(unit.contains("[Unit]"));
    assert!(unit.contains("ExecStart=/home/u/.cargo/bin/kb-mcp serve"));
    assert!(unit.contains("WorkingDirectory=/home/u/.config/kb-mcp/kb-mcp"));
    assert!(unit.contains("Description=kb-mcp loopback HTTP MCP server (kb-mcp)"));
    assert!(unit.contains("Restart=on-failure"));
}

#[test]
fn macos_plist_template_renders_correctly() {
    let ctx = InstallContext {
        service_name: "kb-mcp".into(),
        kb_path: "/Users/me/kb".into(),
        bind: "127.0.0.1:3100".into(),
        config_home: "/Users/me/Library/Application Support/kb-mcp/kb-mcp".into(),
        binary_path: "/Users/me/.cargo/bin/kb-mcp".into(),
        auto_start: true,
        force: false,
    };
    let plist = render_plist(&ctx);
    assert!(plist.contains("<key>Label</key>"));
    assert!(plist.contains("<string>com.kb-mcp.kb-mcp</string>"));
    assert!(plist.contains("<string>/Users/me/.cargo/bin/kb-mcp</string>"));
    assert!(plist.contains("<string>serve</string>"));
    assert!(plist.contains("<key>WorkingDirectory</key>"));
    let off = InstallContext { auto_start: false, ..ctx };
    assert!(plist.contains("<key>RunAtLoad</key>\n    <true/>\n    <key>KeepAlive</key>\n    <true/>"));
    assert!(render_plist(&off)
        .contains("<key>RunAtLoad</key>\n    <false/>\n    <key>KeepAlive</key>\n    <false/>"));
    assert!(plist.ends_with("/kb-mcp.err</string>\n</dict>\n</plist>\n"));
}

#[test]
fn launch_agents_are_named_and_read() {
    assert_eq!(
        macos::plist_path("/Users/me", "work"),
        "/Users/me/Library/LaunchAgents/com.kb-mcp.work.plist"
    );
    assert_eq!(macos::agent_target("501", "work"), "gui/501/com.kb-mcp.work");
    assert_eq!(macos::service_of_file("com.kb-mcp.work.plist"), Some("work".to_string()));
    assert_eq!(macos::service_of_file("com.kb-mcp.plist"), None);
    assert_eq!(macos::service_of_file("com.apple.work.plist"), None);
    assert_eq!(macos::service_of_file("com.kb-mcp.work.txt"), None);
    assert!(matches!(macos::parse_status(false, "\"PID\" = 3;"), ServiceState::NotFound));
    let up = "{\n\t\"Label\" = \"x\";\n\t\"PID\" = 77;\n};\n";
    assert!(matches!(macos::parse_status(true, up), ServiceState::Running { uptime_secs: 0, .. }));
    assert!(matches!(macos::parse_status(true, "  PID = 1"), ServiceState::Running { .. }));
    let down = "{\n\t\"LastExitStatus\" = 256;\n};\n";
    assert!(matches!(macos::parse_status(true, down), ServiceState::Stopped { .. }));
}

#[test]
fn scheduled_tasks_are_registered_and_read() {
    let script = windows::register_script("work", r"C:\O'B\kb.exe", r"C:\cfg", true, false);
    assert_eq!(
        script,
        "$ErrorActionPreference='Stop'; \
         $action = New-ScheduledTaskAction -Execute 'C:\\O''B\\kb.exe' -Argument 'serve' -WorkingDirectory 'C:\\cfg'; \
         $trigger = New-ScheduledTaskTrigger -AtLogOn -User \"$env:USERDOMAIN\\$env:USERNAME\"; \
         $trigger.Enabled = $true; \
         $settings = New-ScheduledTaskSettingsSet -RestartCount 3 -RestartInterval (New-TimeSpan -Minutes 1) -Priority 7; \
         Register-ScheduledTask -TaskName 'kb-mcp-work' -Action $action -Trigger $trigger -Settings $settings -RunLevel Limited -Description 'kb-mcp loopback HTTP MCP server (kb-mcp-work)' | Out-Null"
    );
    let forced = windows::register_script("work", "b", "h", false, true);
    assert!(forced.contains("$trigger.Enabled = $false; "));
    assert!(forced.ends_with("(kb-mcp-work)' -Force | Out-Null"));
    assert_eq!(windows::ps_quote("it's"), "'it''s'");
    assert!(matches!(windows::parse_status(false, "Running"), ServiceState::NotFound));
    assert!(matches!(
        windows::parse_status(true, "\"\\kb-mcp-w\",\"N/A\",\"Running\""),
        ServiceState::Running { .. }
    ));
    assert!(matches!(
        windows::parse_status(true, "\"\\kb-mcp-w\",\"N/A\",\"Ready\""),
        ServiceState::Stopped { .. }
    ));
    let list = "\"\\kb-mcp-work\",\"N/A\",\"Ready\"\r\n\"\\other\",\"N/A\",\"Ready\"\r\nkb-mcp-b\r\n\r\n";
    assert_eq!(windows::parse_list(list), vec!["work".to_string(), "b".to_string()]);
}

#[test]
fn uninstall_purge_without_yes_returns_abort_msg() {
    let result = uninstall::check_request(&UninstallParams {
        service_name: "test".into(),
        purge: true,
        yes: false,
    });
    let err = result.unwrap_err();
    assert!(err.contains("--yes") || err.contains("confirm"));
}

#[test]
fn a_service_is_taken_away_as_asked() {
    let ask = |name: &str, purge: bool, yes: bool| {
        uninstall::check_request(&UninstallParams { service_name: name.to_string(), purge, yes })
    };
    assert_eq!(ask("test", true, true).unwrap(), "test");
    assert_eq!(ask("test", false, false).unwrap(), "test");
    assert_eq!(ask("", true, false).unwrap_err(), "service-name must not be empty");
    assert_eq!(
        uninstall::index_to_remove(Some("kb_path = \"/data/kb\"\n")),
        Some("/data/.kb-mcp.db".to_string())
    );
    assert_eq!(uninstall::index_to_remove(Some("x = 1\n")), None);
    assert_eq!(uninstall::index_to_remove(Some("no = toml = here")), None);
    assert_eq!(uninstall::index_to_remove(None), None);
}

#[test]
fn write_toml_creates_minimal_doc_when_file_absent() {
    let body = write_toml(None, "/tmp/kb", "127.0.0.1:3100").unwrap();
    let parsed: toml_edit::DocumentMut = body.parse().unwrap();
    assert_eq!(parsed["kb_path"].as_str().unwrap(), "/tmp/kb");
    assert_eq!(
        parsed["transport"]["http"]["bind"].as_str().unwrap(),
        "127.0.0.1:3100"
    );
    assert!(
        body.contains("[transport.http]"),
        "fresh install should emit explicit [transport.http] header, got:\n{body}"
    );
}

#[test]
fn write_toml_errors_when_existing_transport_is_scalar_not_table() {
    let existing = "kb_path = \"/old\"\ntransport = \"stdio\"\n";
    let result = write_toml(Some(existing), "/new", "127.0.0.1:3100");
    assert!(matches!(result, Err(TomlFileError::TransportNotTable)));
    let err = result.unwrap_err().message("/c/kb-mcp.toml");
    assert!(
        err.contains("`transport`") && err.contains("table"),
        "error should explain that `transport` is not a table, got: {err}"
    );
    for text in ["transport = { http = 1 }\n", "[[transport]]\n", "transport = []\n"] {
        assert!(matches!(
            write_toml(Some(text), "/new", "b"),
            Err(TomlFileError::TransportNotTable)
        ));
    }
    let http = write_toml(Some("[transport]\nhttp = 3\n"), "/new", "b").unwrap_err();
    assert!(matches!(http, TomlFileError::HttpNotTable));
    assert!(http.message("/c").contains("`[transport.http]`"));
}

#[test]
fn write_toml_preserves_user_customized_fields_on_force_rewrite() {
    let original = "kb_path = \"/old/path\"\n\
        model = \"bge-m3\"\n\
        fastembed_cache_dir = \"/cache/hf\"\n\
        exclude_dirs = [\".obsidian\", \"weeknotes\"]\n\
        \n\
        [best_practice]\n\
        path_templates = [\"best-practices/{target}/PERFECT.md\"]\n\
        \n\
        [transport.http]\n\
        bind = \"127.0.0.1:3000\"\n";
    let body = write_toml(Some(original), "/new/path", "127.0.0.1:3100").unwrap();
    let doc: toml_edit::DocumentMut = body.parse().unwrap();
    assert_eq!(doc["kb_path"].as_str().unwrap(), "/new/path");
    assert_eq!(
        doc["transport"]["http"]["bind"].as_str().unwrap(),
        "127.0.0.1:3100"
    );
    assert_eq!(doc["model"].as_str().unwrap(), "bge-m3");
    assert_eq!(doc["fastembed_cache_dir"].as_str().unwrap(), "/cache/hf");
    let exclude_dirs = doc["exclude_dirs"].as_array().unwrap();
    assert_eq!(exclude_dirs.len(), 2);
    assert_eq!(exclude_dirs.get(0).unwrap().as_str().unwrap(), ".obsidian");
    assert_eq!(exclude_dirs.get(1).unwrap().as_str().unwrap(), "weeknotes");
    let path_templates = doc["best_practice"]["path_templates"].as_array().unwrap();
    assert_eq!(path_templates.len(), 1);
    assert_eq!(
        path_templates.get(0).unwrap().as_str().unwrap(),
        "best-practices/{target}/PERFECT.md"
    );
}

#[test]
fn write_toml_preserves_inline_comments_on_force_rewrite() {
    let original = "# top-level comment about kb_path\n\
        kb_path = \"/old/path\"\n\
        # inline reasoning for model choice\n\
        model = \"bge-m3\"\n\
        \n\
        [transport.http]\n\
        # bind is loopback-only by default\n\
        bind = \"127.0.0.1:3100\"\n";
    let body = write_toml(Some(original), "/new/path", "127.0.0.1:3200").unwrap();
    assert!(
        body.contains("# top-level comment about kb_path"),
        "lost top-level comment:\n{body}"
    );
    assert!(
        body.contains("# inline reasoning for model choice"),
        "lost model comment:\n{body}"
    );
    assert!(
        body.contains("# bind is loopback-only by default"),
        "lost bind comment:\n{body}"
    );
}

#[test]
fn write_toml_errors_on_invalid_toml_instead_of_overwriting() {
    let result = write_toml(Some("this = is = not = valid = toml"), "/new/path", "127.0.0.1:3100");
    let err = result.unwrap_err();
    assert!(matches!(err, TomlFileError::Invalid { .. }));
    let message = err.message("/c/kb-mcp.toml");
    assert!(
        message.contains("invalid TOML"),
        "error should mention invalid TOML, got: {message}"
    );
    assert!(message.contains("/c/kb-mcp.toml"));
}

#[test]
fn a_setting_replaces_whatever_stood_there() {
    let body = write_toml(
        Some("[kb_path]\ninner = 1\n\n[transport.http]\nbind = 7\nport = 8\n"),
        "/O'Brien/kb",
        "127.0.0.1:1",
    )
    .unwrap();
    let doc: toml_edit::DocumentMut = body.parse().unwrap();
    assert_eq!(doc["kb_path"].as_str().unwrap(), "/O'Brien/kb");
    assert_eq!(doc["transport"]["http"]["bind"].as_str().unwrap(), "127.0.0.1:1");
    assert_eq!(doc["transport"]["http"]["port"].as_integer().unwrap(), 8);
}

fn running(bind: Option<&str>, kb: Option<&str>) -> ServiceState {
    ServiceState::Running {
        uptime_secs: 0,
        bind: bind.map(String::from),
        kb_path: kb.map(String::from),
        model: None,
    }
}

#[test]
fn a_service_is_described() {
    assert_eq!(
        format_state("w", &running(Some("127.0.0.1:1"), None)),
        "w: running (uptime 0s, bind 127.0.0.1:1, kb_path (unknown), model (unknown))"
    );
    let stopped = ServiceState::Stopped { bind: None, kb_path: Some("/kb".to_string()) };
    assert_eq!(format_state("w", &stopped), "w: stopped (bind (unknown), kb_path /kb)");
    assert_eq!(format_state("w", &ServiceState::NotFound), "w: not found");
    assert_eq!(
        format_row("w", &running(Some("127.0.0.1:3100"), Some("/kb"))),
        "w          running    127.0.0.1:3100     /kb                    0s"
    );
    assert_eq!(
        format_row("a-long-service-name", &stopped),
        "a-long-service-name stopped    (unknown)          /kb                    -"
    );
    assert_eq!(format_row("w", &ServiceState::NotFound), "w          not-found");
    assert!(matches!(bare_state(true), ServiceState::Running { uptime_secs: 0, .. }));
    assert!(matches!(bare_state(false), ServiceState::Stopped { bind: None, kb_path: None }));
}

const CONFIGURED: &str = "kb_path = \"/kb\"\n[transport.http]\nbind = \"127.0.0.1:9\"\n";

#[test]
fn the_configuration_completes_what_is_known() {
    let state = enrich_with_toml(Some(CONFIGURED), running(None, Some("/known")));
    assert_eq!(
        format_state("w", &state),
        "w: running (uptime 0s, bind 127.0.0.1:9, kb_path /known, model (unknown))"
    );
    for nothing in [None, Some("bad = toml = here"), Some("kb_path = 1\ntransport = 2\n")] {
        let state = enrich_with_toml(nothing, bare_state(false));
        assert_eq!(format_state("w", &state), "w: stopped (bind (unknown), kb_path (unknown))");
    }
    assert!(matches!(
        enrich_with_toml(Some(CONFIGURED), ServiceState::NotFound),
        ServiceState::NotFound
    ));
}

#[test]
fn services_are_listed_with_their_configuration() {
    let entries = vec![
        Listed {
            name: "a".to_string(),
            state: bare_state(true),
            document: Some(CONFIGURED.to_string()),
        },
        Listed { name: "b".to_string(), state: ServiceState::NotFound, document: None },
    ];
    assert_eq!(
        run_list(&entries),
        "NAME       STATUS     BIND               KB_PATH                UPTIME\n\
         a          running    127.0.0.1:9        /kb                    0s\n\
         b          not-found\n"
    );
    assert_eq!(
        run_status("a", bare_state(false), Some(CONFIGURED)).unwrap(),
        "a: stopped (bind 127.0.0.1:9, kb_path /kb)"
    );
    assert!(run_status("a b", bare_state(false), None).is_err());
}

/// What a TOML text says, with the two settings of an installation in place.
fn with_settings(text: &str, kb_path: &str, bind: &str) -> toml::Table {
    let empty = || toml::Value::Table(toml::Table::new());
    let mut t: toml::Table = toml::from_str(text).unwrap();
    t.insert("kb_path".into(), kb_path.into());
    let transport = t.entry("transport").or_insert(empty()).as_table_mut().unwrap();
    let http = transport.entry("http").or_insert(empty()).as_table_mut().unwrap();
    http.insert("bind".into(), bind.into());
    t
}

#[test]
fn a_completed_file_reads_as_it_was_but_for_the_two_settings() {
    let files = [
        "",
        "# only a comment",
        "kb_path.x = 1\nmodel = 'a'\n",
        "[kb_path]\nx = 1\n[other]\ny = [1, 2]\n",
        "transport.kind = 'http'\nn = 1.5\n",
        "transport.http.bind = 'x'\nd = 1979-05-27\n",
        "[transport]\nkind = 'http'\nhttp.bind = 'x' # here\n",
        "[transport.stdio]\na = { b = [1, { c = 2 }] }\n",
        "[transport.http.deep]\na = 1\n[[list]]\nb = 1\n[list.sub]\nc = 2\n[[list]]\nb = 2\n",
        "[transport.http]\n[transport.http.bind]\na = 1\n",
        "[z]\na = 1\r\n[a.b]\nc = \"\"\"x\ny\"\"\"\n[a]\nd = true\n",
        "\"kb_path\" = 1\n[ transport . http ]\n# c\nbind = 1\nallowed_hosts = []\n",
    ];
    let values = [
        "/kb",
        "C:\\kb",
        "O'Brien \"x\"",
        "two\nlines\r\n",
        "'''\"\"\"",
        "'\"\"",
        "\u{1}\u{7f}é",
        "",
    ];
    for text in files {
        for value in values {
            let body = write_toml(Some(text), value, value).unwrap();
            let got: toml::Table = toml::from_str(&body).unwrap();
            assert_eq!(got, with_settings(text, value, value), "{text:?} -> {body:?}");
        }
    }
}

#[test]
fn a_completed_file_keeps_its_layout() {
    let text = "# top\nz = 1\n# why\nkb_path = 'old'\n\n# about b\n[b]\n# k\nk = [ 1,2 ]\n\n\
                [transport]\n# kind\nkind = 'http'\n# the end\n";
    let body = write_toml(Some(text), "new", "h:1").unwrap();
    assert_eq!(
        body,
        "# top\nz = 1\n# why\nkb_path = \"new\"\n\n# about b\n[b]\n# k\nk = [ 1,2 ]\n\n\
         [transport]\n# kind\nkind = 'http'\n\n[transport.http]\nbind = \"h:1\"\n# the end\n"
    );
}

/// The comments in a piece of text between keys.
fn comments(raw: Option<&toml_edit::RawString>) -> Vec<String> {
    let text = raw.and_then(|r| r.as_str()).unwrap_or("");
    text.lines().map(|l| l.trim().to_string()).filter(|l| l.starts_with('#')).collect()
}

/// The keys of a table and of those below it, each with its table and its comments, as read.
fn lines_of(
    table: &toml_edit::Table,
    at: &str,
    out: &mut Vec<(String, String, Vec<String>, Vec<String>)>,
) {
    for (key, item) in table.iter() {
        let name = table.key(key).unwrap();
        let (above, behind) = match item {
            toml_edit::Item::Value(v) => {
                (comments(name.leaf_decor().prefix()), comments(v.decor().suffix()))
            }
            toml_edit::Item::Table(t) => {
                (comments(t.decor().prefix()), comments(t.decor().suffix()))
            }
            _ => (vec![], vec![]),
        };
        out.push((at.to_string(), format!("{at}{key}"), above, behind));
    }
    for (key, item) in table.iter() {
        if let toml_edit::Item::Table(t) = item {
            lines_of(t, &format!("{at}{key}."), out);
        }
    }
}

/// The same of a text, with its tables in one order.
fn read_lines(text: &str) -> Vec<(String, String, Vec<String>, Vec<String>)> {
    let doc: toml_edit::DocumentMut = text.parse().unwrap();
    let mut out = vec![];
    lines_of(doc.as_table(), "", &mut out);
    out.sort_by(|a, b| a.0.cmp(&b.0));
    out
}

#[test]
fn a_completed_file_reads_with_its_comments_and_order() {
    // each with the keys that need not keep their place
    let files: [(&str, &[&str]); 13] = [
        ("# only a comment", &[]),
        ("# a\nz = 1 # b\n# c\nkb_path = 'x' # gone\n# d\ny = 2\n# e\n", &[]),
        ("z = 1\n# a\n[b] # b\nk = 1 # k\n# t\n[transport] # tt\n# p\np = 1\n[c]\n# end\n", &[]),
        ("# a\n[transport.http] # b\n# h\nhosts = [] # i\n[c]\nd = 1\n", &[]),
        ("[transport.http]\n# b\nbind = 'x' # gone\n# h\nhosts = [] # i\n[c]\nd = 1\n", &[]),
        ("a = 1\n# t\ntransport.http.port = 1 # u\n# b\nb = 2\n[c]\n", &[]),
        ("[transport.ws]\n# a\na = 1\n[c]\n[transport.tls]\nb = 1\n", &[]),
        ("a = 1\n# gone\n[kb_path]\nx = 1\n# c\n[c]\ny = 1\n", &["kb_path"]),
        ("# a\na = 1\n# gone\n[[kb_path]]\nx = 1\n# c\n[c]\ny = 1\n", &["kb_path"]),
        ("[k.x]\ny = 1\n# k\n[k]\n[transport.http.tls]\na = 1\n", &["transport", "transport.http"]),
        ("[transport.http.bind]\nx = 1\n# c\n[c]\n[transport.http]\n# p\np = 1\n", &[
            "transport",
            "transport.http.bind",
        ]),
        ("# e\n[empty] # f\n[a.b.c]\n# d\nd = 1\n[a]\n# e\ne = 1\n", &[]),
        ("[[l]]\na = 1\n# s\n[l.s]\nb = 1\n[[l]]\na = 2\n# m\n[m]\nc = 1\n", &[]),
    ];
    for (text, open) in files {
        let body = write_toml(Some(text), "new", "h:1").unwrap();
        let stays = |key: &str| -> bool {
            !open.contains(&key)
                && !key.starts_with("kb_path.")
                && !key.starts_with("transport.http.bind.")
        };
        let mut had = read_lines(text);
        let mut has = read_lines(&body);
        let known: Vec<String> = had.iter().map(|l| l.1.clone()).collect();
        had.retain(|l| stays(&l.1));
        has.retain(|l| stays(&l.1) && known.contains(&l.1));
        for l in had.iter_mut() {
            if l.1 == "kb_path" || l.1 == "transport.http.bind" {
                l.3.clear();
            }
        }
        assert_eq!(has, had, "{text:?} -> {body:?}");
        let end = |t: &str| -> Vec<String> {
            let doc: toml_edit::DocumentMut = t.parse().unwrap();
            comments(Some(doc.trailing()))
        };
        assert_eq!(end(&body), end(text), "{text:?} -> {body:?}");
    }
}

#[test]
fn a_completed_file_has_the_headers_it_had() {
    let headers = |text: &str| -> Vec<String> {
        let body = write_toml(Some(text), "new", "h:1").unwrap();
        body.lines().filter(|l| l.starts_with('[')).map(|l| l.to_string()).collect()
    };
    assert_eq!(headers(""), vec!["[transport.http]"]);
    assert_eq!(headers("[a.b]\n[transport]\n"), vec!["[a.b]", "[transport]", "[transport.http]"]);
    assert_eq!(headers("[transport.http]\n[c]\n"), vec!["[transport.http]", "[c]"]);
    assert_eq!(
        headers("[transport.http.tls]\na = 1\n"),
        vec!["[transport.http]", "[transport.http.tls]"]
    );
    assert!(headers("transport.http.port = 1\n").is_empty());
}

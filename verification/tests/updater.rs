use aura::updater::extract_check_payload;
use aura::updater::{read_check_output, CheckOutput};
use aura::updater::{
    inactive_status, quote_windows_arg, quote_windows_args, updater_status_in_progress, worker_step,
    RestartContext, UpdaterEvent, UpdaterStatus, WorkerAction, WorkerInput,
};

#[test]
fn quote_windows_arg_handles_spaces_and_quotes() {
    assert_eq!(quote_windows_arg("abc"), "abc");
    assert_eq!(quote_windows_arg("a b"), "\"a b\"");
    assert_eq!(quote_windows_arg(r#"a "b""#), r#""a \"b\"""#);
}

#[test]
fn quote_windows_arg_doubles_backslashes_before_quotes_and_end() {
    assert_eq!(quote_windows_arg(""), "\"\"");
    assert_eq!(quote_windows_arg(r"C:\dir\"), r"C:\dir\");
    assert_eq!(quote_windows_arg(r"C:\my dir\"), r#""C:\my dir\\""#);
    assert_eq!(quote_windows_arg(r#"a\"b c"#), r#""a\\\"b c""#);
}

#[test]
fn quote_windows_args_joins_with_spaces() {
    let args = vec!["--no-tray".to_string(), "my config.hcl".to_string()];
    assert_eq!(quote_windows_args(&args), "--no-tray \"my config.hcl\"");
    assert_eq!(quote_windows_args(&Vec::new()), "");
}

#[test]
fn status_labels_and_progress() {
    assert_eq!(UpdaterStatus::InstalledPendingRestart.label(), "Installed (Restart Pending)");
    assert_eq!(UpdaterStatus::UpToDate.label(), "Up To Date");
    assert!(updater_status_in_progress(UpdaterStatus::Checking));
    assert!(updater_status_in_progress(UpdaterStatus::Installing));
    assert!(!updater_status_in_progress(UpdaterStatus::Idle));
    assert!(!updater_status_in_progress(UpdaterStatus::Error));
    assert_eq!(inactive_status(false), UpdaterStatus::Disabled);
    assert_eq!(inactive_status(true), UpdaterStatus::Unsupported);
}

#[test]
fn worker_reports_install_sequence() {
    let (events, next) = worker_step(WorkerInput::UpdateFound);
    assert_eq!(
        events,
        vec![
            UpdaterEvent::Status(UpdaterStatus::UpdateAvailable),
            UpdaterEvent::Status(UpdaterStatus::Installing)
        ]
    );
    assert_eq!(next, WorkerAction::Install);
    let (events, next) = worker_step(WorkerInput::Installed);
    assert_eq!(
        events,
        vec![
            UpdaterEvent::Status(UpdaterStatus::InstalledPendingRestart),
            UpdaterEvent::InstallReady
        ]
    );
    assert_eq!(next, WorkerAction::Wait);
}

#[test]
fn restart_arguments_without_and_with_relaunch_args() {
    let ctx = RestartContext {
        update_exe: r"C:\aura\Update.exe".to_string(),
        app_exe_name: "aura.exe".to_string(),
        relaunch_args: Vec::new(),
    };
    assert_eq!(
        ctx.restart_arguments(),
        vec![
            vec!["--processStart".to_string(), "aura.exe".to_string()],
            vec!["--processStart=aura.exe".to_string()]
        ]
    );
    let ctx = RestartContext {
        update_exe: r"C:\aura\Update.exe".to_string(),
        app_exe_name: "aura.exe".to_string(),
        relaunch_args: vec!["--no-tray".to_string()],
    };
    let variants = ctx.restart_arguments();
    assert_eq!(variants.len(), 4);
    assert_eq!(variants[1], vec!["--processStart".to_string(), "aura.exe".to_string(), "--process-start-args=--no-tray".to_string()]);
}

#[test]
fn check_payload_from_single_line_json() {
    let payload = r#"{"releasesToApply":[{"Version":"1.2.4"}]}"#;
    assert_eq!(extract_check_payload(payload), Some(payload.to_string()));
}

#[test]
fn check_payload_from_multi_line_output() {
    let payload = "Downloading RELEASES\r\nDone\n{\"releasesToApply\":[]}\n";
    assert_eq!(extract_check_payload(payload), Some("{\"releasesToApply\":[]}".to_string()));
    let inline = "noise {\"a\":1} trailing";
    assert_eq!(extract_check_payload(inline), Some("{\"a\":1}".to_string()));
    assert_eq!(extract_check_payload("} before {"), None);
}

#[test]
fn check_output_without_payload() {
    assert!(matches!(read_check_output("Checking...\nNo Updates Available"), CheckOutput::NoUpdates));
    assert!(matches!(read_check_output("app is Up To Date"), CheckOutput::NoUpdates));
    match read_check_output("  something odd \n") {
        CheckOutput::Unreadable(t) => assert_eq!(t, "something odd"),
        _ => panic!("expected unreadable output"),
    }
    match read_check_output("x\n{\"releasesToApply\":[1]}") {
        CheckOutput::Payload(p) => assert_eq!(p, "{\"releasesToApply\":[1]}"),
        _ => panic!("expected a payload"),
    }
}

fn read_windows_arg(s: &str) -> String {
    let mut out = String::new();
    let mut quoted = false;
    let mut pending = 0usize;
    for c in s.chars() {
        if c == '\\' {
            pending += 1;
            continue;
        }
        if c == '"' {
            out.push_str(&"\\".repeat(pending / 2));
            if pending % 2 == 0 {
                quoted = !quoted;
            } else {
                out.push('"');
            }
            pending = 0;
            continue;
        }
        if c.is_whitespace() && !quoted {
            break;
        }
        out.push_str(&"\\".repeat(pending));
        pending = 0;
        out.push(c);
    }
    out.push_str(&"\\".repeat(pending));
    out
}

#[test]
fn quoted_arguments_read_back_unchanged() {
    for arg in ["", "plain", "a b", r#"say "hi""#, r"C:\Program Files\", r#"\\"\\"#, "tab\there", r"trail\\"] {
        assert_eq!(read_windows_arg(&quote_windows_arg(arg)), arg);
    }
}

#[test]
fn updater_starts_idle_only_when_installed() {
    use_initialize();
}

fn use_initialize() {
    let config = aura::config::UpdaterConfig { enabled: true, check_interval: 3600, feed_url: "https://u".to_string() };
    let (status, interval, ctx) = aura::updater::initialize(&config, None, Vec::new());
    assert_eq!(status, UpdaterStatus::Unsupported);
    assert!(interval.is_none() && ctx.is_none());
    let (status, interval, ctx) =
        aura::updater::initialize(&config, Some("C:\\aura\\Update.exe".to_string()), vec!["--no-tray".to_string()]);
    assert_eq!(status, UpdaterStatus::Idle);
    assert_eq!(interval, Some(3600));
    let ctx = ctx.unwrap();
    assert_eq!(ctx.app_exe_name, "aura.exe");
    assert_eq!(ctx.relaunch_args, vec!["--no-tray".to_string()]);
    let disabled = aura::config::UpdaterConfig { enabled: false, check_interval: 3600, feed_url: String::new() };
    assert_eq!(aura::updater::initialize(&disabled, Some("x".to_string()), Vec::new()).0, UpdaterStatus::Disabled);
}

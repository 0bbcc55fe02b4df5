use aura::cli::{expand_tilde, parse_cli_options, parse_cli_options_with_home};
use aura::installer::SquirrelEvent;
use std::path::Path;

#[test]
fn cli_defaults_to_tray_with_default_path() {
    let options = parse_cli_options(&vec![]).unwrap();
    assert!(options.tray_enabled);
    assert!(!options.debug_terminal);
    assert!(!options.print_version);
    assert_eq!(options.squirrel_event, None);
    assert_eq!(Path::new(&options.config_path).file_name().unwrap(), "aura.hcl");
}

#[test]
fn cli_supports_no_tray_flag() {
    let options = parse_cli_options(&vec!["--no-tray".to_string()]).unwrap();
    assert!(!options.tray_enabled);
    assert!(!options.debug_terminal);
    assert!(!options.print_version);
    assert_eq!(options.squirrel_event, None);
}

#[test]
fn cli_supports_debug_flag() {
    let options = parse_cli_options(&vec!["--debug".to_string()]).unwrap();
    assert!(options.tray_enabled);
    assert!(options.debug_terminal);
    assert!(!options.print_version);
    assert_eq!(options.squirrel_event, None);
}

#[test]
fn cli_supports_version_flag() {
    let options = parse_cli_options(&vec!["--version".to_string()]).unwrap();
    assert!(!options.debug_terminal);
    assert!(options.print_version);
    assert_eq!(options.squirrel_event, None);
    assert!(options.config_path.is_empty());
}

#[test]
fn cli_supports_version_with_no_tray() {
    let options =
        parse_cli_options(&vec!["--version".to_string(), "--no-tray".to_string()]).unwrap();
    assert!(options.print_version);
    assert!(!options.tray_enabled);
    assert!(!options.debug_terminal);
    assert_eq!(options.squirrel_event, None);
}

#[test]
fn cli_supports_debug_with_version_and_no_tray() {
    let options = parse_cli_options(&vec![
        "--debug".to_string(),
        "--version".to_string(),
        "--no-tray".to_string(),
    ])
    .unwrap();
    assert!(options.print_version);
    assert!(!options.tray_enabled);
    assert!(options.debug_terminal);
    assert_eq!(options.squirrel_event, None);
}

#[test]
fn cli_supports_squirrel_install_flag() {
    let options = parse_cli_options(&vec!["--squirrel-install".to_string()]).unwrap();
    assert_eq!(options.squirrel_event, Some(SquirrelEvent::Install));
}

#[test]
fn cli_supports_squirrel_firstrun_flag() {
    let options = parse_cli_options(&vec!["--squirrel-firstrun".to_string()]).unwrap();
    assert_eq!(options.squirrel_event, Some(SquirrelEvent::Firstrun));
}

#[test]
fn cli_rejects_multiple_squirrel_flags() {
    let result = parse_cli_options(&vec![
        "--squirrel-install".to_string(),
        "--squirrel-updated".to_string(),
    ]);
    assert!(result.is_err());
}

#[test]
fn cli_errors_name_their_cause() {
    let home = Some("/home/u");
    let r = parse_cli_options_with_home(&vec!["--bogus".to_string()], home, '/');
    assert_eq!(r.unwrap_err(), "unknown flag: --bogus");
    let r = parse_cli_options_with_home(&vec!["a.hcl".to_string(), "b.hcl".to_string()], home, '/');
    assert_eq!(r.unwrap_err(), "only one config path positional argument is supported");
    let r = parse_cli_options_with_home(&vec![], None, '/');
    assert_eq!(r.unwrap_err(), "failed to resolve home directory");
}

#[test]
fn cli_resolves_config_paths_against_home() {
    let home = Some("/home/u");
    let o = parse_cli_options_with_home(&vec![], home, '/').unwrap();
    assert_eq!(o.config_path, "/home/u/.config/aura.hcl");
    let o = parse_cli_options_with_home(&vec!["~/cfg/a.hcl".to_string()], home, '/').unwrap();
    assert_eq!(o.config_path, "/home/u/cfg/a.hcl");
    let o = parse_cli_options_with_home(&vec!["--version".to_string(), "x.hcl".to_string()], home, '/').unwrap();
    assert_eq!(o.config_path, "x.hcl");
    assert_eq!(expand_tilde("~", home, '/').unwrap(), "/home/u");
    assert_eq!(expand_tilde("/etc/a.hcl", None, '/').unwrap(), "/etc/a.hcl");
    assert!(expand_tilde("~/a", None, '/').is_err());
}

use aura::installer::{
    app_icon_destination_path_from_current_exe, app_icon_source_path_from_current_exe,
    binary_filename_with_extension, display_icon_value_for_executable,
    display_icon_value_for_icon_file, ensure_startup_registered_inner, handle,
    handle_squirrel_event, normalize_publisher_value, resolve_display_icon_value,
    shortcut_argument_variants, squirrel_root_dir_from_current_exe,
    startup_shortcut_path_from_appdata, uninstall_registry_subkey,
    update_exe_path_from_current_exe, LifecycleAction, SquirrelEvent, StartupRegistrationStatus,
};

const EXE: &str = r"C:\Users\alice\AppData\Local\aura\app-1.2.3\aura.exe";

#[test]
fn startup_shortcut_path_uses_expected_windows_location() {
    let appdata = r"C:\Users\alice\AppData\Roaming";
    let shortcut = startup_shortcut_path_from_appdata(appdata, '\\');
    assert!(shortcut.ends_with(r"Startup\aura.lnk"));
    assert_eq!(
        shortcut,
        r"C:\Users\alice\AppData\Roaming\Microsoft\Windows\Start Menu\Programs\Startup\aura.lnk"
    );
}

#[test]
fn update_exe_path_resolves_from_current_exe_layout() {
    let update_exe = update_exe_path_from_current_exe(EXE, &Vec::new(), '\\').unwrap();
    assert_eq!(update_exe, r"C:\Users\alice\AppData\Local\aura\Update.exe");
}

#[test]
fn startup_registration_skips_when_not_installed() {
    let status = ensure_startup_registered_inner(None, false, |_: &str| -> Result<(), String> {
        Err("create should not be called".to_string())
    })
    .unwrap();
    assert_eq!(status, StartupRegistrationStatus::SkippedNotInstalled);
}

#[test]
fn startup_registration_is_noop_when_shortcut_exists() {
    let status = ensure_startup_registered_inner(Some("Update.exe"), true, |_: &str| -> Result<(), String> {
        Err("create should not be called".to_string())
    })
    .unwrap();
    assert_eq!(status, StartupRegistrationStatus::AlreadyRegistered);
}

#[test]
fn startup_registration_restores_when_shortcut_is_missing() {
    let mut create_called = false;
    let status = ensure_startup_registered_inner(Some("Update.exe"), false, |_: &str| -> Result<(), String> {
        create_called = true;
        Ok(())
    })
    .unwrap();
    assert_eq!(status, StartupRegistrationStatus::RegisteredNow);
    assert!(create_called);
}

#[test]
fn startup_registration_passes_on_creation_failure() {
    let result = ensure_startup_registered_inner(Some("Update.exe"), false, |_: &str| -> Result<(), String> {
        Err("boom".to_string())
    });
    assert_eq!(result, Err("boom".to_string()));
}

#[test]
fn app_icon_source_path_resolves_from_current_exe_layout() {
    let source = app_icon_source_path_from_current_exe(EXE, '\\').unwrap();
    assert_eq!(source, r"C:\Users\alice\AppData\Local\aura\app-1.2.3\app.ico");
}

#[test]
fn app_icon_destination_path_resolves_to_squirrel_root() {
    let destination = app_icon_destination_path_from_current_exe(EXE, &Vec::new(), '\\').unwrap();
    assert_eq!(destination, r"C:\Users\alice\AppData\Local\aura\app.ico");
}

#[test]
fn squirrel_root_dir_prefers_nearest_update_exe_ancestor() {
    let existing = vec!["/tmp/x/aura/Update.exe".to_string()];
    let root = squirrel_root_dir_from_current_exe("/tmp/x/aura/app-1.2.3/aura.exe", &existing, '/').unwrap();
    assert_eq!(root, "/tmp/x/aura");
}

#[test]
fn squirrel_root_dir_supports_root_executable_layout_with_update_exe() {
    let existing = vec!["/tmp/x/aura/Update.exe".to_string()];
    let root = squirrel_root_dir_from_current_exe("/tmp/x/aura/aura.exe", &existing, '/').unwrap();
    assert_eq!(root, "/tmp/x/aura");
}

#[test]
fn uninstall_registry_subkey_is_app_specific() {
    assert_eq!(
        uninstall_registry_subkey(),
        r"Software\Microsoft\Windows\CurrentVersion\Uninstall\aura"
    );
}

#[test]
fn display_icon_value_for_executable_appends_icon_index() {
    assert_eq!(
        display_icon_value_for_executable(EXE),
        r"C:\Users\alice\AppData\Local\aura\app-1.2.3\aura.exe,0"
    );
}

#[test]
fn display_icon_value_for_icon_file_uses_plain_path() {
    let icon_path = r"C:\Users\alice\AppData\Local\aura\app.ico";
    assert_eq!(
        display_icon_value_for_icon_file(icon_path),
        r"C:\Users\alice\AppData\Local\aura\app.ico"
    );
}

#[test]
fn display_icon_falls_back_in_order() {
    assert_eq!(resolve_display_icon_value(EXE, Some("X.ico"), &Vec::new(), '\\'), "X.ico");
    let root_icon = vec![r"C:\Users\alice\AppData\Local\aura\app.ico".to_string()];
    assert_eq!(
        resolve_display_icon_value(EXE, None, &root_icon, '\\'),
        r"C:\Users\alice\AppData\Local\aura\app.ico"
    );
    assert_eq!(resolve_display_icon_value(EXE, None, &Vec::new(), '\\'), format!("{EXE},0"));
}

#[test]
fn normalize_publisher_value_returns_none_for_empty_input() {
    assert_eq!(normalize_publisher_value(""), None);
    assert_eq!(normalize_publisher_value("   "), None);
}

#[test]
fn normalize_publisher_value_trims_non_empty_input() {
    assert_eq!(
        normalize_publisher_value("  Aura Publisher  "),
        Some("Aura Publisher".to_string())
    );
}

#[test]
fn lifecycle_events_are_planned() {
    assert_eq!(SquirrelEvent::from_flag("--squirrel-obsolete"), Some(SquirrelEvent::Obsolete));
    assert_eq!(SquirrelEvent::from_flag("--squirrel"), None);
    assert_eq!(handle(SquirrelEvent::Install).action, LifecycleAction::Register);
    assert!(handle(SquirrelEvent::Install).exit);
    assert_eq!(handle(SquirrelEvent::Uninstall).action, LifecycleAction::Unregister);
    assert!(!handle(SquirrelEvent::Firstrun).exit);
    assert!(!handle_squirrel_event(None).exit);
}

#[test]
fn shortcut_variants_name_the_executable() {
    assert_eq!(binary_filename_with_extension(), "aura.exe");
    let variants = shortcut_argument_variants(true);
    assert_eq!(variants.len(), 4);
    assert_eq!(variants[0], vec!["--createShortcut", "aura.exe", "--shortcut-locations=Startup,StartMenu"]);
    assert_eq!(shortcut_argument_variants(false)[3], vec!["--removeShortcut=aura.exe", "-l=Startup,StartMenu"]);
}

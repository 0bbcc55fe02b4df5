//! Installer lifecycle: the Squirrel events the application is started
//! with, and the paths, registry values and commands it derives for them.
//!
//! Running `Update.exe`, copying files and writing the registry are the
//! application's part.

use vstd::prelude::*;
use crate::paths::{join, parent, path_join, path_parent};
use crate::text::{owned, push_str, str_eq, trim, trimmed};
use crate::version::{APP_NAME, BINARY_FILENAME};

verus! {

/// What a startup registration check found or did.
#[derive(Clone, Copy, Debug, PartialEq, Eq, Structural)]
pub enum StartupRegistrationStatus {
    SkippedNotInstalled,
    AlreadyRegistered,
    RegisteredNow,
}

/// The Squirrel lifecycle events, each passed as a command-line flag.
#[derive(Clone, Copy, Debug, PartialEq, Eq, Structural)]
pub enum SquirrelEvent {
    Install,
    Updated,
    Uninstall,
    Obsolete,
    Firstrun,
}

/// The event a command-line flag names.
pub open spec fn event_of_flag(flag: Seq<char>) -> Option<SquirrelEvent> {
    if flag == "--squirrel-install"@ {
        Some(SquirrelEvent::Install)
    } else if flag == "--squirrel-updated"@ {
        Some(SquirrelEvent::Updated)
    } else if flag == "--squirrel-uninstall"@ {
        Some(SquirrelEvent::Uninstall)
    } else if flag == "--squirrel-obsolete"@ {
        Some(SquirrelEvent::Obsolete)
    } else if flag == "--squirrel-firstrun"@ {
        Some(SquirrelEvent::Firstrun)
    } else {
        None
    }
}

impl SquirrelEvent {
    /// The event a command-line flag names, if any.
    pub fn from_flag(flag: &str) -> (r: Option<SquirrelEvent>)
        ensures
            r == event_of_flag(flag@),
    {
        if str_eq(flag, "--squirrel-install") {
            Some(SquirrelEvent::Install)
        } else if str_eq(flag, "--squirrel-updated") {
            Some(SquirrelEvent::Updated)
        } else if str_eq(flag, "--squirrel-uninstall") {
            Some(SquirrelEvent::Uninstall)
        } else if str_eq(flag, "--squirrel-obsolete") {
            Some(SquirrelEvent::Obsolete)
        } else if str_eq(flag, "--squirrel-firstrun") {
            Some(SquirrelEvent::Firstrun)
        } else {
            None
        }
    }
}

/// What the installer does about a lifecycle event.
#[derive(Clone, Copy, Debug, PartialEq, Eq, Structural)]
pub enum LifecycleAction {
    /// Create the startup and start-menu shortcuts and record the
    /// uninstall metadata.
    Register,
    /// Remove the shortcuts.
    Unregister,
    /// Nothing.
    Nothing,
}

/// The handling of a lifecycle event: what to do, and whether the process
/// exits once it is done.
#[derive(Clone, Copy, Debug, PartialEq, Eq, Structural)]
pub struct LifecyclePlan {
    pub action: LifecycleAction,
    pub exit: bool,
}

/// How an event is handled: install and update register and exit,
/// uninstall unregisters and exits, obsolete just exits, and the first run
/// goes on to start the application.
pub open spec fn plan_of(event: SquirrelEvent) -> LifecyclePlan {
    match event {
        SquirrelEvent::Install | SquirrelEvent::Updated => LifecyclePlan {
            action: LifecycleAction::Register,
            exit: true,
        },
        SquirrelEvent::Uninstall => LifecyclePlan { action: LifecycleAction::Unregister, exit: true },
        SquirrelEvent::Obsolete => LifecyclePlan { action: LifecycleAction::Nothing, exit: true },
        SquirrelEvent::Firstrun => LifecyclePlan { action: LifecycleAction::Nothing, exit: false },
    }
}

/// How a lifecycle event is handled.
pub fn handle(event: SquirrelEvent) -> (r: LifecyclePlan)
    ensures
        r == plan_of(event),
{
    match event {
        SquirrelEvent::Install | SquirrelEvent::Updated => LifecyclePlan {
            action: LifecycleAction::Register,
            exit: true,
        },
        SquirrelEvent::Uninstall => LifecyclePlan { action: LifecycleAction::Unregister, exit: true },
        SquirrelEvent::Obsolete => LifecyclePlan { action: LifecycleAction::Nothing, exit: true },
        SquirrelEvent::Firstrun => LifecyclePlan { action: LifecycleAction::Nothing, exit: false },
    }
}

/// The handling of the event the application was started with, if any:
/// without one, nothing is done and the application starts.
pub fn handle_squirrel_event(event: Option<SquirrelEvent>) -> (r: LifecyclePlan)
    ensures
        r == match event {
            Some(e) => plan_of(e),
            None => LifecyclePlan { action: LifecycleAction::Nothing, exit: false },
        },
{
    match event {
        Some(e) => handle(e),
        None => LifecyclePlan { action: LifecycleAction::Nothing, exit: false },
    }
}

/// Decides the startup registration: skipped when the application is not
/// installed (no `Update.exe`), nothing to do when the startup shortcut
/// exists, and otherwise the shortcuts are created with `create_shortcuts`,
/// whose failure is passed on.
pub fn ensure_startup_registered_inner<F: FnOnce(&str) -> Result<(), String>>(
    update_exe: Option<&str>,
    startup_shortcut_exists: bool,
    create_shortcuts: F,
) -> (r: Result<StartupRegistrationStatus, String>)
    requires
        update_exe is Some && !startup_shortcut_exists ==> call_requires(
            create_shortcuts,
            (update_exe.unwrap(),),
        ),
    ensures
        update_exe is None ==> r == Ok::<StartupRegistrationStatus, String>(
            StartupRegistrationStatus::SkippedNotInstalled,
        ),
        update_exe is Some && startup_shortcut_exists ==> r == Ok::<
            StartupRegistrationStatus,
            String,
        >(StartupRegistrationStatus::AlreadyRegistered),
        update_exe is Some && !startup_shortcut_exists ==> exists|res: Result<(), String>|
            call_ensures(create_shortcuts, (update_exe.unwrap(),), res) && match res {
                Ok(_) => r == Ok::<StartupRegistrationStatus, String>(
                    StartupRegistrationStatus::RegisteredNow,
                ),
                Err(e) => r == Err::<StartupRegistrationStatus, String>(e),
            },
{
    let update_exe = match update_exe {
        Some(u) => u,
        None => return Ok(StartupRegistrationStatus::SkippedNotInstalled),
    };
    if startup_shortcut_exists {
        return Ok(StartupRegistrationStatus::AlreadyRegistered);
    }
    let res = create_shortcuts(update_exe);
    match res {
        Ok(()) => Ok(StartupRegistrationStatus::RegisteredNow),
        Err(e) => Err(e),
    }
}

// ---------------------------------------------------------------------------
// Paths of an installation

/// The startup shortcut below the roaming application-data directory.
pub open spec fn startup_shortcut(appdata: Seq<char>, sep: char) -> Seq<char> {
    join(
        join(
            join(join(join(join(appdata, "Microsoft"@, sep), "Windows"@, sep), "Start Menu"@, sep), "Programs"@, sep),
            "Startup"@,
            sep,
        ),
        "aura.lnk"@,
        sep,
    )
}

/// The startup shortcut below the roaming application-data directory:
/// `Microsoft\Windows\Start Menu\Programs\Startup\aura.lnk`.
pub fn startup_shortcut_path_from_appdata(appdata: &str, sep: char) -> (r: String)
    ensures
        r@ == startup_shortcut(appdata@, sep),
{
    let mut name = owned(BINARY_FILENAME);
    push_str(&mut name, ".lnk");
    proof {
        reveal_strlit("aura");
        reveal_strlit(".lnk");
        reveal_strlit("aura.lnk");
        assert(name@ =~= "aura.lnk"@);
    }
    let a = path_join(appdata, "Microsoft", sep);
    let b = path_join(a.as_str(), "Windows", sep);
    let c = path_join(b.as_str(), "Start Menu", sep);
    let d = path_join(c.as_str(), "Programs", sep);
    let e = path_join(d.as_str(), "Startup", sep);
    path_join(e.as_str(), name.as_str(), sep)
}

/// The nearest of `dir` and its first `fuel` ancestors that holds
/// `Update.exe`, among the paths known to exist.
pub open spec fn nearest_update_dir(dir: Seq<char>, existing: Seq<Seq<char>>, sep: char, fuel: nat) -> Option<
    Seq<char>,
>
    decreases fuel,
{
    if existing.contains(join(dir, "Update.exe"@, sep)) {
        Some(dir)
    } else if fuel == 0 {
        None
    } else {
        match parent(dir, sep) {
            Some(p) => nearest_update_dir(p, existing, sep, (fuel - 1) as nat),
            None => None,
        }
    }
}

/// The root of the Squirrel installation of the executable at `exe`, given
/// the paths known to exist: the nearest ancestor of its directory that
/// holds `Update.exe`, else the parent of its directory (the usual
/// `root\app-<version>\` layout); none when the path has no such parents.
pub open spec fn squirrel_root(exe: Seq<char>, existing: Seq<Seq<char>>, sep: char) -> Option<Seq<char>> {
    match parent(exe, sep) {
        None => None,
        Some(app_dir) => match nearest_update_dir(app_dir, existing, sep, app_dir.len()) {
            Some(d) => Some(d),
            None => parent(app_dir, sep),
        },
    }
}

/// The optional path's view.
pub open spec fn opt_view(o: Option<String>) -> Option<Seq<char>> {
    match o {
        Some(s) => Some(s@),
        None => None,
    }
}

/// The nearest ancestor of `dir` holding `Update.exe`.
fn nearest_update_dir_exec(dir: &str, existing: &Vec<String>, sep: char) -> (r: Option<String>)
    ensures
        opt_view(r) == nearest_update_dir(dir@, existing.deep_view(), sep, dir@.len()),
{
    let mut cur = owned(dir);
    let mut fuel: usize = dir.unicode_len();
    loop
        invariant
            nearest_update_dir(dir@, existing.deep_view(), sep, dir@.len()) == nearest_update_dir(
                cur@,
                existing.deep_view(),
                sep,
                fuel as nat,
            ),
        decreases fuel,
    {
        let candidate = path_join(cur.as_str(), "Update.exe", sep);
        if crate::text::contains_text(existing, candidate.as_str()) {
            return Some(cur);
        }
        if fuel == 0 {
            return None;
        }
        match path_parent(cur.as_str(), sep) {
            Some(p) => {
                cur = p;
                fuel = fuel - 1;
            },
            None => return None,
        }
    }
}

/// The root of the Squirrel installation of the running executable, given
/// the paths known to exist.
pub fn squirrel_root_dir_from_current_exe(current_exe: &str, existing: &Vec<String>, sep: char) -> (r:
    Option<String>)
    ensures
        opt_view(r) == squirrel_root(current_exe@, existing.deep_view(), sep),
{
    let app_dir = match path_parent(current_exe, sep) {
        Some(d) => d,
        None => return None,
    };
    match nearest_update_dir_exec(app_dir.as_str(), existing, sep) {
        Some(d) => Some(d),
        None => path_parent(app_dir.as_str(), sep),
    }
}

/// Where `Update.exe` of the running executable's installation is.
pub fn update_exe_path_from_current_exe(current_exe: &str, existing: &Vec<String>, sep: char) -> (r:
    Option<String>)
    ensures
        opt_view(r) == match squirrel_root(current_exe@, existing.deep_view(), sep) {
            Some(root) => Some(join(root, "Update.exe"@, sep)),
            None => None,
        },
{
    match squirrel_root_dir_from_current_exe(current_exe, existing, sep) {
        Some(root) => Some(path_join(root.as_str(), "Update.exe", sep)),
        None => None,
    }
}

/// The icon shipped beside the running executable.
pub fn app_icon_source_path_from_current_exe(current_exe: &str, sep: char) -> (r: Option<String>)
    ensures
        opt_view(r) == match parent(current_exe@, sep) {
            Some(d) => Some(join(d, "app.ico"@, sep)),
            None => None,
        },
{
    match path_parent(current_exe, sep) {
        Some(d) => Some(path_join(d.as_str(), "app.ico", sep)),
        None => None,
    }
}

/// Where the icon is copied to at the installation's root.
pub fn app_icon_destination_path_from_current_exe(
    current_exe: &str,
    existing: &Vec<String>,
    sep: char,
) -> (r: Option<String>)
    ensures
        opt_view(r) == match squirrel_root(current_exe@, existing.deep_view(), sep) {
            Some(root) => Some(join(root, "app.ico"@, sep)),
            None => None,
        },
{
    match squirrel_root_dir_from_current_exe(current_exe, existing, sep) {
        Some(root) => Some(path_join(root.as_str(), "app.ico", sep)),
        None => None,
    }
}

/// The `DisplayIcon` registry value naming the executable's first icon.
pub fn display_icon_value_for_executable(current_exe: &str) -> (r: String)
    ensures
        r@ == current_exe@ + ",0"@,
{
    let mut r = owned(current_exe);
    push_str(&mut r, ",0");
    r
}

/// The `DisplayIcon` registry value naming an icon file.
pub fn display_icon_value_for_icon_file(icon_path: &str) -> (r: String)
    ensures
        r@ == icon_path@,
{
    owned(icon_path)
}

/// The `DisplayIcon` value, given where the icon copy went (if it
/// succeeded) and the paths known to exist: the copy, else an existing
/// root icon, else an existing shipped icon, else the executable's icon.
pub open spec fn display_icon(
    exe: Seq<char>,
    synced: Option<Seq<char>>,
    existing: Seq<Seq<char>>,
    sep: char,
) -> Seq<char> {
    match synced {
        Some(p) => p,
        None => {
            let root_icon = match squirrel_root(exe, existing, sep) {
                Some(root) => Some(join(root, "app.ico"@, sep)),
                None => None,
            };
            let source_icon = match parent(exe, sep) {
                Some(d) => Some(join(d, "app.ico"@, sep)),
                None => None,
            };
            if root_icon is Some && existing.contains(root_icon.unwrap()) {
                root_icon.unwrap()
            } else if source_icon is Some && existing.contains(source_icon.unwrap()) {
                source_icon.unwrap()
            } else {
                exe + ",0"@
            }
        },
    }
}

/// The `DisplayIcon` registry value.
pub fn resolve_display_icon_value(
    current_exe: &str,
    synced: Option<&str>,
    existing: &Vec<String>,
    sep: char,
) -> (r: String)
    ensures
        r@ == display_icon(
            current_exe@,
            match synced {
                Some(p) => Some(p@),
                None => None,
            },
            existing.deep_view(),
            sep,
        ),
{
    if let Some(p) = synced {
        return display_icon_value_for_icon_file(p);
    }
    if let Some(root_icon) = app_icon_destination_path_from_current_exe(current_exe, existing, sep) {
        if crate::text::contains_text(existing, root_icon.as_str()) {
            return display_icon_value_for_icon_file(root_icon.as_str());
        }
    }
    if let Some(source_icon) = app_icon_source_path_from_current_exe(current_exe, sep) {
        if crate::text::contains_text(existing, source_icon.as_str()) {
            return display_icon_value_for_icon_file(source_icon.as_str());
        }
    }
    display_icon_value_for_executable(current_exe)
}

/// The registry key, below the current user's hive, holding the
/// application's uninstall entry.
pub fn uninstall_registry_subkey() -> (r: String)
    ensures
        r@ == "Software\\Microsoft\\Windows\\CurrentVersion\\Uninstall\\aura"@,
{
    let mut r = owned("Software\\Microsoft\\Windows\\CurrentVersion\\Uninstall");
    push_str(&mut r, "\\");
    push_str(&mut r, APP_NAME);
    proof {
        reveal_strlit("Software\\Microsoft\\Windows\\CurrentVersion\\Uninstall");
        reveal_strlit("\\");
        reveal_strlit("aura");
        reveal_strlit("Software\\Microsoft\\Windows\\CurrentVersion\\Uninstall\\aura");
        assert(r@ =~= "Software\\Microsoft\\Windows\\CurrentVersion\\Uninstall\\aura"@);
    }
    r
}

/// The publisher recorded for the uninstall entry: the trimmed value, or
/// none when that is empty.
pub fn normalize_publisher_value(raw_value: &str) -> (r: Option<String>)
    ensures
        opt_view(r) == if trim(raw_value@).len() == 0 {
            None
        } else {
            Some(trim(raw_value@))
        },
{
    let value = trimmed(raw_value);
    if value.unicode_len() == 0 {
        None
    } else {
        Some(value)
    }
}

/// The executable's file name.
pub fn binary_filename_with_extension() -> (r: String)
    ensures
        r@ == "aura.exe"@,
{
    let mut r = owned(BINARY_FILENAME);
    push_str(&mut r, ".exe");
    proof {
        reveal_strlit("aura");
        reveal_strlit(".exe");
        reveal_strlit("aura.exe");
        assert(r@ =~= "aura.exe"@);
    }
    r
}

/// The argument lists tried in turn with `Update.exe` to create (or
/// remove) the shortcuts, for the option spellings of the Squirrel
/// versions in use.
pub open spec fn shortcut_variants(create: bool) -> Seq<Seq<Seq<char>>> {
    let verb = if create {
        "--createShortcut"@
    } else {
        "--removeShortcut"@
    };
    let exe = "aura.exe"@;
    seq![
        seq![verb, exe, "--shortcut-locations=Startup,StartMenu"@],
        seq![verb + "="@ + exe, "--shortcut-locations=Startup,StartMenu"@],
        seq![verb, exe, "-l=Startup,StartMenu"@],
        seq![verb + "="@ + exe, "-l=Startup,StartMenu"@],
    ]
}

/// The argument lists tried to create (`create`) or remove the shortcuts.
pub fn shortcut_argument_variants(create: bool) -> (r: Vec<Vec<String>>)
    ensures
        r.deep_view() == shortcut_variants(create),
{
    proof {
        reveal_strlit("--createShortcut");
        reveal_strlit("--removeShortcut");
        reveal_strlit("=");
        reveal_strlit("aura.exe");
    }
    let exe = binary_filename_with_extension();
    let verb = if create {
        owned("--createShortcut")
    } else {
        owned("--removeShortcut")
    };
    let mut joined = verb.clone();
    push_str(&mut joined, "=");
    push_str(&mut joined, exe.as_str());
    let long = "--shortcut-locations=Startup,StartMenu";
    let short = "-l=Startup,StartMenu";
    let r = vec![
        vec![verb.clone(), exe.clone(), owned(long)],
        vec![joined.clone(), owned(long)],
        vec![verb.clone(), exe.clone(), owned(short)],
        vec![joined.clone(), owned(short)],
    ];
    assert(r.deep_view() =~~= shortcut_variants(create));
    r
}

} // verus!

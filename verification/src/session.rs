//! The decisions of the application's main loop.
//!
//! The loop waits for the next event (a timer, the tray, the updater, the
//! shader renderer, or Ctrl-C) and hands it here; the answer is the next
//! state and the actions to perform, in order, which the application
//! carries out and whose outcomes come back as further events.

use vstd::prelude::*;
use crate::sources::Origin;
use crate::updater::{in_progress, UpdateTrigger, UpdaterStatus};

verus! {

/// What draws the desktop.
#[derive(Clone, Copy, Debug, PartialEq, Eq, Structural)]
pub enum ActiveMode {
    Image,
    Shader,
}

/// What the shader renderer reports.
#[derive(Clone, Debug)]
pub enum RendererEvent {
    Ready,
    Running,
    Fatal { message: String },
    Stopped,
}

/// The ticks of the wallpaper timers.
#[derive(Clone, Copy, Debug, PartialEq, Eq, Structural)]
pub enum SchedulerEvent {
    SwitchImage,
    RefreshRemote,
}

/// What the main loop remembers between events.
#[derive(Clone, Copy, Debug, PartialEq, Eq, Structural)]
pub struct RunState {
    pub active_mode: ActiveMode,
    /// An update check or installation is under way.
    pub update_in_progress: bool,
    /// An update was installed; the application restarts at the next
    /// opportunity.
    pub restart_pending: bool,
    /// The startup update check waits for its delay.
    pub delayed_startup_check: bool,
}

/// An event of the main loop.
#[derive(Clone, Copy, Debug, PartialEq, Eq, Structural)]
pub enum RunEvent {
    /// Ctrl-C was pressed.
    Interrupted,
    /// The delay before the startup update check ran out.
    StartupCheckDue,
    /// The periodic update check is due.
    PeriodicCheckDue,
    /// The updater answered a check request: whether it took it.
    CheckRequestAnswered(bool),
    /// The updater reported a status.
    UpdaterStatusChanged(UpdaterStatus),
    /// The updater installed an update.
    InstallReady,
    /// The updater's channel closed.
    UpdaterClosed,
    /// The shader renderer failed for good.
    RendererFailed,
    /// The shader renderer reported progress.
    RendererProgress,
    /// The tray asked for the next wallpaper.
    TrayNextWallpaper,
    /// The tray asked to reload the settings.
    TrayReloadSettings,
    /// The tray asked for an update check.
    TrayCheckForUpdates,
    /// The tray asked to exit, or its channel closed.
    TrayExit,
    /// The wallpaper timer ticked.
    SwitchTimer,
    /// The remote refresh timer ticked.
    RefreshTimer,
    /// The reloaded settings took effect: whether the shader renderer
    /// started, and whether the new updater is idle.
    SettingsReloaded { shader_started: bool, updater_idle: bool },
}

/// An action of the main loop.
#[derive(Clone, Copy, Debug, PartialEq, Eq, Structural)]
pub enum RunAction {
    /// Stop the renderer, save the rotation state and leave the loop.
    Shutdown,
    /// Ask the updater for a check.
    RequestUpdateCheck(UpdateTrigger),
    /// Show the updater's status in the tray.
    ShowUpdaterStatus(UpdaterStatus),
    /// Restart into the installed update; on success stop the renderer and
    /// leave the loop.
    RestartForUpdate,
    /// Stop the shader renderer and show that images are drawn.
    StopShader,
    /// Refresh the local sources and merge them with the feed images held.
    RefreshLocal,
    /// Refresh every source and rebuild the pool.
    RefreshAll,
    /// Show the next wallpaper and save the state; `manual` counts a skip.
    SwitchWallpaper { manual: bool },
    /// Load the settings again and rebuild the cache, the sources, the
    /// updater and the renderer from them.
    ReloadSettings,
    /// Save the rotation state.
    SaveState,
}

/// The request of an update check, unless one is under way.
pub open spec fn check_request(s: RunState, trigger: UpdateTrigger) -> Seq<RunAction> {
    if s.update_in_progress {
        Seq::empty()
    } else {
        seq![RunAction::RequestUpdateCheck(trigger)]
    }
}

/// The restart into an installed update, when one is pending.
pub open spec fn restart_if_pending(s: RunState) -> Seq<RunAction> {
    if s.restart_pending {
        seq![RunAction::RestartForUpdate]
    } else {
        Seq::empty()
    }
}

/// The next state and the actions for an event.
pub open spec fn plan(s: RunState, e: RunEvent) -> (RunState, Seq<RunAction>) {
    match e {
        RunEvent::Interrupted | RunEvent::TrayExit => (s, seq![RunAction::Shutdown]),
        RunEvent::StartupCheckDue => (
            RunState { delayed_startup_check: false, ..s },
            check_request(s, UpdateTrigger::Startup),
        ),
        RunEvent::PeriodicCheckDue => (s, check_request(s, UpdateTrigger::Periodic)),
        RunEvent::TrayCheckForUpdates => (s, check_request(s, UpdateTrigger::Manual)),
        RunEvent::CheckRequestAnswered(accepted) => (
            RunState { update_in_progress: s.update_in_progress || accepted, ..s },
            Seq::empty(),
        ),
        RunEvent::UpdaterStatusChanged(status) => (
            RunState { update_in_progress: in_progress(status), ..s },
            seq![RunAction::ShowUpdaterStatus(status)],
        ),
        RunEvent::InstallReady => {
            let n = RunState { restart_pending: true, ..s };
            (
                n,
                if s.active_mode == ActiveMode::Shader {
                    seq![RunAction::RestartForUpdate]
                } else {
                    Seq::empty()
                },
            )
        },
        RunEvent::UpdaterClosed => (
            RunState { update_in_progress: false, ..s },
            seq![RunAction::ShowUpdaterStatus(UpdaterStatus::Unsupported)],
        ),
        RunEvent::RendererFailed => (
            RunState { active_mode: ActiveMode::Image, ..s },
            seq![RunAction::StopShader, RunAction::SwitchWallpaper { manual: false }],
        ),
        RunEvent::RendererProgress => (s, Seq::empty()),
        RunEvent::TrayNextWallpaper => if s.active_mode == ActiveMode::Image {
            (
                s,
                seq![RunAction::RefreshLocal, RunAction::SwitchWallpaper { manual: true }]
                    + restart_if_pending(s),
            )
        } else {
            (s, Seq::empty())
        },
        RunEvent::SwitchTimer => if s.active_mode == ActiveMode::Image {
            (
                s,
                seq![RunAction::RefreshLocal, RunAction::SwitchWallpaper { manual: false }]
                    + restart_if_pending(s),
            )
        } else {
            (s, Seq::empty())
        },
        RunEvent::RefreshTimer => (s, seq![RunAction::RefreshAll]),
        RunEvent::TrayReloadSettings => (s, seq![RunAction::ReloadSettings]),
        RunEvent::SettingsReloaded { shader_started, updater_idle } => {
            let n = RunState {
                active_mode: if shader_started {
                    ActiveMode::Shader
                } else {
                    ActiveMode::Image
                },
                update_in_progress: false,
                delayed_startup_check: false,
                ..s
            };
            (
                n,
                (if updater_idle {
                    seq![RunAction::RequestUpdateCheck(UpdateTrigger::Startup)]
                } else {
                    Seq::empty()
                }) + (if shader_started {
                    restart_if_pending(s)
                } else {
                    seq![RunAction::SwitchWallpaper { manual: false }]
                }) + seq![RunAction::SaveState],
            )
        },
    }
}

fn check_request_exec(s: RunState, trigger: UpdateTrigger) -> (r: Vec<RunAction>)
    ensures
        r@ == check_request(s, trigger),
{
    if s.update_in_progress {
        Vec::new()
    } else {
        let r = vec![RunAction::RequestUpdateCheck(trigger)];
        assert(r@ =~= check_request(s, trigger));
        r
    }
}

fn push_restart_if_pending(actions: &mut Vec<RunAction>, s: RunState)
    ensures
        final(actions)@ == old(actions)@ + restart_if_pending(s),
{
    if s.restart_pending {
        actions.push(RunAction::RestartForUpdate);
        assert(actions@ =~= old(actions)@ + restart_if_pending(s));
    } else {
        assert(actions@ =~= old(actions)@ + restart_if_pending(s));
    }
}

#[verifier::rlimit(50)]
/// The next state of the main loop and the actions to perform, in order,
/// for an event.
///
/// An update check is never requested while one is under way; a wallpaper
/// is switched only in image mode; and a restart into an update is tried
/// only once one is installed.
pub fn plan_event(s: RunState, e: RunEvent) -> (r: (RunState, Vec<RunAction>))
    ensures
        r.0 == plan(s, e).0,
        r.1@ == plan(s, e).1,
        forall|t: UpdateTrigger| #[trigger] r.1@.contains(RunAction::RequestUpdateCheck(t))
            ==> !s.update_in_progress || e matches RunEvent::SettingsReloaded { .. },
        forall|m: bool| #[trigger] r.1@.contains(RunAction::SwitchWallpaper { manual: m })
            ==> r.0.active_mode == ActiveMode::Image,
        r.1@.contains(RunAction::RestartForUpdate) ==> r.0.restart_pending,
{
    let r: (RunState, Vec<RunAction>) = match e {
        RunEvent::Interrupted | RunEvent::TrayExit => (s, vec![RunAction::Shutdown]),
        RunEvent::StartupCheckDue => (
            RunState { delayed_startup_check: false, ..s },
            check_request_exec(s, UpdateTrigger::Startup),
        ),
        RunEvent::PeriodicCheckDue => (s, check_request_exec(s, UpdateTrigger::Periodic)),
        RunEvent::TrayCheckForUpdates => (s, check_request_exec(s, UpdateTrigger::Manual)),
        RunEvent::CheckRequestAnswered(accepted) => (
            RunState { update_in_progress: s.update_in_progress || accepted, ..s },
            Vec::new(),
        ),
        RunEvent::UpdaterStatusChanged(status) => (
            RunState { update_in_progress: crate::updater::updater_status_in_progress(status), ..s },
            vec![RunAction::ShowUpdaterStatus(status)],
        ),
        RunEvent::InstallReady => {
            let n = RunState { restart_pending: true, ..s };
            if s.active_mode == ActiveMode::Shader {
                (n, vec![RunAction::RestartForUpdate])
            } else {
                (n, Vec::new())
            }
        },
        RunEvent::UpdaterClosed => (
            RunState { update_in_progress: false, ..s },
            vec![RunAction::ShowUpdaterStatus(UpdaterStatus::Unsupported)],
        ),
        RunEvent::RendererFailed => (
            RunState { active_mode: ActiveMode::Image, ..s },
            vec![RunAction::StopShader, RunAction::SwitchWallpaper { manual: false }],
        ),
        RunEvent::RendererProgress => (s, Vec::new()),
        RunEvent::TrayNextWallpaper | RunEvent::SwitchTimer => {
            if s.active_mode == ActiveMode::Image {
                let manual = match e {
                    RunEvent::TrayNextWallpaper => true,
                    _ => false,
                };
                let mut a = vec![RunAction::RefreshLocal, RunAction::SwitchWallpaper { manual }];
                push_restart_if_pending(&mut a, s);
                (s, a)
            } else {
                (s, Vec::new())
            }
        },
        RunEvent::RefreshTimer => (s, vec![RunAction::RefreshAll]),
        RunEvent::TrayReloadSettings => (s, vec![RunAction::ReloadSettings]),
        RunEvent::SettingsReloaded { shader_started, updater_idle } => {
            let n = RunState {
                active_mode: if shader_started {
                    ActiveMode::Shader
                } else {
                    ActiveMode::Image
                },
                update_in_progress: false,
                delayed_startup_check: false,
                ..s
            };
            let mut a: Vec<RunAction> = Vec::new();
            if updater_idle {
                a.push(RunAction::RequestUpdateCheck(UpdateTrigger::Startup));
            }
            if shader_started {
                push_restart_if_pending(&mut a, s);
            } else {
                a.push(RunAction::SwitchWallpaper { manual: false });
            }
            a.push(RunAction::SaveState);
            (n, a)
        },
    };
    assert(r.1@ =~= plan(s, e).1);
    r
}

/// The state and actions at startup, given whether the shader renderer
/// started, whether the updater is idle, and whether this is the first run
/// after installation (which delays the startup update check).
pub open spec fn startup_plan(shader_started: bool, updater_idle: bool, first_run: bool) -> (
    RunState,
    Seq<RunAction>,
) {
    let s = RunState {
        active_mode: if shader_started {
            ActiveMode::Shader
        } else {
            ActiveMode::Image
        },
        update_in_progress: false,
        restart_pending: false,
        delayed_startup_check: updater_idle && first_run,
    };
    (
        s,
        (if shader_started {
            Seq::empty()
        } else {
            seq![RunAction::SwitchWallpaper { manual: false }]
        }) + (if updater_idle && !first_run {
            seq![RunAction::RequestUpdateCheck(UpdateTrigger::Startup)]
        } else {
            Seq::empty()
        }),
    )
}

/// The state and actions of the main loop at startup.
pub fn plan_startup(shader_started: bool, updater_idle: bool, first_run: bool) -> (r: (
    RunState,
    Vec<RunAction>,
))
    ensures
        r.0 == startup_plan(shader_started, updater_idle, first_run).0,
        r.1@ == startup_plan(shader_started, updater_idle, first_run).1,
{
    let s = RunState {
        active_mode: if shader_started {
            ActiveMode::Shader
        } else {
            ActiveMode::Image
        },
        update_in_progress: false,
        restart_pending: false,
        delayed_startup_check: updater_idle && first_run,
    };
    let mut a: Vec<RunAction> = Vec::new();
    if !shader_started {
        a.push(RunAction::SwitchWallpaper { manual: false });
    }
    if updater_idle && !first_run {
        a.push(RunAction::RequestUpdateCheck(UpdateTrigger::Startup));
    }
    assert(a@ =~= startup_plan(shader_started, updater_idle, first_run).1);
    (s, a)
}


/// What became of resolving a candidate to a local file.
#[derive(Clone, Copy, Debug, PartialEq, Eq, Structural)]
pub enum ResolveOutcome {
    /// The file is there.
    Found,
    /// The candidate has no file to show (a feed image without content).
    Missing,
    /// Resolving it failed.
    Failed,
}

/// What a wallpaper switch does with a candidate.
#[derive(Clone, Copy, Debug, PartialEq, Eq, Structural)]
pub enum SwitchStep {
    /// Show it.
    Use,
    /// Try the next candidate.
    Skip,
    /// Give up the switch with the error.
    Abort,
}

/// What a switch does with a candidate: a found file is shown; a missing
/// one is skipped; a failure is skipped for a feed image, whose download
/// may fail, and ends the switch otherwise.
pub open spec fn switch_step_of(origin: Origin, outcome: ResolveOutcome) -> SwitchStep {
    match outcome {
        ResolveOutcome::Found => SwitchStep::Use,
        ResolveOutcome::Missing => SwitchStep::Skip,
        ResolveOutcome::Failed => if origin == Origin::Rss {
            SwitchStep::Skip
        } else {
            SwitchStep::Abort
        },
    }
}

/// What a switch does with a candidate.
pub fn switch_step(origin: Origin, outcome: ResolveOutcome) -> (r: SwitchStep)
    ensures
        r == switch_step_of(origin, outcome),
{
    match outcome {
        ResolveOutcome::Found => SwitchStep::Use,
        ResolveOutcome::Missing => SwitchStep::Skip,
        ResolveOutcome::Failed => match origin {
            Origin::Rss => SwitchStep::Skip,
            _ => SwitchStep::Abort,
        },
    }
}


/// The remote refresh timer refreshes every source, feeds included, and
/// changes nothing else; no other event asks for that full refresh.
pub proof fn lemma_refresh_timer_refreshes_all(s: RunState, e: RunEvent)
    ensures
        plan(s, RunEvent::RefreshTimer) == (s, seq![RunAction::RefreshAll]),
        plan(s, e).1.contains(RunAction::RefreshAll) ==> e == RunEvent::RefreshTimer,
{
    assert(seq![RunAction::RefreshAll][0] == RunAction::RefreshAll);
    if plan(s, e).1.contains(RunAction::RefreshAll) && e != RunEvent::RefreshTimer {
        let a = plan(s, e).1;
        let k = choose|k: int| 0 <= k < a.len() && a[k] == RunAction::RefreshAll;
        assert(a[k] == RunAction::RefreshAll);
    }
}

} // verus!

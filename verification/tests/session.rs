use aura::session::{plan_event, plan_startup, switch_step, ActiveMode, ResolveOutcome, RunAction, RunEvent, RunState, SwitchStep};
use aura::sources::Origin;
use aura::updater::{UpdateTrigger, UpdaterStatus};

fn state(mode: ActiveMode) -> RunState {
    RunState { active_mode: mode, update_in_progress: false, restart_pending: false, delayed_startup_check: false }
}

#[test]
fn timer_switches_only_in_image_mode() {
    let (_, actions) = plan_event(state(ActiveMode::Image), RunEvent::SwitchTimer);
    assert_eq!(actions, vec![RunAction::RefreshLocal, RunAction::SwitchWallpaper { manual: false }]);
    let (_, actions) = plan_event(state(ActiveMode::Shader), RunEvent::TrayNextWallpaper);
    assert!(actions.is_empty());
}

#[test]
fn checks_are_not_requested_twice() {
    let mut s = state(ActiveMode::Image);
    let (n, actions) = plan_event(s, RunEvent::TrayCheckForUpdates);
    assert_eq!(actions, vec![RunAction::RequestUpdateCheck(UpdateTrigger::Manual)]);
    s = n;
    let (n, _) = plan_event(s, RunEvent::CheckRequestAnswered(true));
    assert!(n.update_in_progress);
    let (_, actions) = plan_event(n, RunEvent::PeriodicCheckDue);
    assert!(actions.is_empty());
    let (n, _) = plan_event(n, RunEvent::UpdaterStatusChanged(UpdaterStatus::UpToDate));
    assert!(!n.update_in_progress);
}

#[test]
fn installed_update_restarts_at_next_switch() {
    let (s, actions) = plan_event(state(ActiveMode::Image), RunEvent::InstallReady);
    assert!(actions.is_empty());
    assert!(s.restart_pending);
    let (_, actions) = plan_event(s, RunEvent::TrayNextWallpaper);
    assert_eq!(
        actions,
        vec![RunAction::RefreshLocal, RunAction::SwitchWallpaper { manual: true }, RunAction::RestartForUpdate]
    );
    let (_, actions) = plan_event(state(ActiveMode::Shader), RunEvent::InstallReady);
    assert_eq!(actions, vec![RunAction::RestartForUpdate]);
}

#[test]
fn renderer_failure_falls_back_to_images() {
    let (s, actions) = plan_event(state(ActiveMode::Shader), RunEvent::RendererFailed);
    assert_eq!(s.active_mode, ActiveMode::Image);
    assert_eq!(actions, vec![RunAction::StopShader, RunAction::SwitchWallpaper { manual: false }]);
}

#[test]
fn startup_delays_first_run_check() {
    let (s, actions) = plan_startup(false, true, true);
    assert!(s.delayed_startup_check);
    assert_eq!(actions, vec![RunAction::SwitchWallpaper { manual: false }]);
    let (_, actions) = plan_startup(true, true, false);
    assert_eq!(actions, vec![RunAction::RequestUpdateCheck(UpdateTrigger::Startup)]);
    let (_, actions) = plan_event(s, RunEvent::Interrupted);
    assert_eq!(actions, vec![RunAction::Shutdown]);
}

#[test]
fn failed_feed_downloads_are_skipped() {
    assert_eq!(switch_step(Origin::Rss, ResolveOutcome::Failed), SwitchStep::Skip);
    assert_eq!(switch_step(Origin::Directory, ResolveOutcome::Failed), SwitchStep::Abort);
    assert_eq!(switch_step(Origin::Rss, ResolveOutcome::Missing), SwitchStep::Skip);
    assert_eq!(switch_step(Origin::File, ResolveOutcome::Found), SwitchStep::Use);
}

use aura::config::ShaderDesktopScope;
use aura::display::{
    choose_desktop_host, compute_internal_render_size, desktop_rect_for_scope,
    estimate_swapchain_memory_bytes, load_spirv_words, scale_dimension, DesktopHostKind,
    DesktopMetrics, DesktopRect,
};

fn metrics() -> DesktopMetrics {
    DesktopMetrics {
        virtual_x: -1920,
        virtual_y: 0,
        virtual_width: 3840,
        virtual_height: 1080,
        primary_width: 1920,
        primary_height: 1080,
    }
}

#[test]
fn estimates_swapchain_memory_from_resolution_and_latency() {
    let bytes = estimate_swapchain_memory_bytes(3840, 2160, 1);
    assert_eq!(bytes, 66_355_200);
}

#[test]
fn computes_internal_render_size_from_percentage() {
    let scaled = compute_internal_render_size(1920, 1080, 50);
    assert_eq!(scaled, (960, 540));
}

#[test]
fn keeps_full_size_at_hundred_percent() {
    let scaled = compute_internal_render_size(1920, 1080, 100);
    assert_eq!(scaled, (1920, 1080));
}

#[test]
fn internal_render_size_clamps_to_at_least_one_pixel() {
    let scaled = compute_internal_render_size(10, 10, 1);
    assert_eq!(scaled, (1, 1));
}

#[test]
fn scale_dimension_rounds_down() {
    assert_eq!(scale_dimension(333, 50), 166);
    assert_eq!(scale_dimension(0, 100), 1);
}

#[test]
fn chooses_workerw_when_available() {
    let host = choose_desktop_host(11, 22, 33).expect("host should exist");
    assert_eq!(host.kind, DesktopHostKind::WorkerW);
    assert_eq!(host.hwnd, 11);
}

#[test]
fn falls_back_to_shell_host_when_workerw_missing() {
    let host = choose_desktop_host(0, 22, 33).expect("host should exist");
    assert_eq!(host.kind, DesktopHostKind::ShellHost);
    assert_eq!(host.hwnd, 22);
}

#[test]
fn falls_back_to_progman_when_no_enum_candidates() {
    let host = choose_desktop_host(0, 0, 33).expect("host should exist");
    assert_eq!(host.kind, DesktopHostKind::ProgmanFallback);
    assert_eq!(host.hwnd, 33);
}

#[test]
fn returns_none_when_all_hosts_missing() {
    let host = choose_desktop_host(0, 0, 0);
    assert!(host.is_none());
}

#[test]
fn desktop_scope_virtual_uses_virtual_rect() {
    let m = metrics();
    let from_scope = desktop_rect_for_scope(ShaderDesktopScope::Virtual, &m);
    let direct = DesktopRect { x: m.virtual_x, y: m.virtual_y, width: m.virtual_width, height: m.virtual_height };
    assert_eq!(from_scope.x, direct.x);
    assert_eq!(from_scope.y, direct.y);
    assert_eq!(from_scope.width, direct.width);
    assert_eq!(from_scope.height, direct.height);
}

#[test]
fn desktop_scope_primary_uses_primary_rect() {
    let m = metrics();
    let from_scope = desktop_rect_for_scope(ShaderDesktopScope::Primary, &m);
    let direct = DesktopRect { x: 0, y: 0, width: m.primary_width, height: m.primary_height };
    assert_eq!(from_scope.x, direct.x);
    assert_eq!(from_scope.y, direct.y);
    assert_eq!(from_scope.width, direct.width);
    assert_eq!(from_scope.height, direct.height);
}

#[test]
fn host_kind_names() {
    assert_eq!(DesktopHostKind::WorkerW.as_str(), "workerw");
    assert_eq!(DesktopHostKind::ProgmanFallback.as_str(), "progman_fallback");
}

#[test]
fn spirv_words_are_little_endian() {
    assert_eq!(load_spirv_words(&[0x03, 0x02, 0x23, 0x07, 1, 0, 0, 0]), Some(vec![0x0723_0203, 1]));
    assert_eq!(load_spirv_words(&[1, 2, 3]), None);
    assert_eq!(load_spirv_words(&[]), Some(Vec::new()));
}

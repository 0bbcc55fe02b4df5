//! Geometry of the shader renderer: which desktop window it attaches to,
//! the area it covers, the size it renders at, and the memory and shader
//! words it needs.
//!
//! The window handles and system metrics come from the platform.

use vstd::prelude::*;
use crate::config::ShaderDesktopScope;

verus! {

/// A rectangle of the desktop, in pixels.
#[derive(Clone, Copy, Debug, PartialEq, Eq, Structural)]
pub struct DesktopRect {
    pub x: i32,
    pub y: i32,
    pub width: i32,
    pub height: i32,
}

/// The size of a screen, in pixels.
#[derive(Clone, Copy, Debug, PartialEq, Eq, Structural)]
pub struct ScreenSpec {
    pub width: u32,
    pub height: u32,
}

/// The system metrics the desktop area is read from: the virtual screen's
/// origin and size, and the primary screen's size.
#[derive(Clone, Copy, Debug, PartialEq, Eq, Structural)]
pub struct DesktopMetrics {
    pub virtual_x: i32,
    pub virtual_y: i32,
    pub virtual_width: i32,
    pub virtual_height: i32,
    pub primary_width: i32,
    pub primary_height: i32,
}

/// The area covered for a scope: the whole virtual screen, or the primary
/// screen from the origin.
pub open spec fn rect_for(scope: ShaderDesktopScope, m: DesktopMetrics) -> DesktopRect {
    match scope {
        ShaderDesktopScope::Virtual => DesktopRect {
            x: m.virtual_x,
            y: m.virtual_y,
            width: m.virtual_width,
            height: m.virtual_height,
        },
        ShaderDesktopScope::Primary => DesktopRect {
            x: 0,
            y: 0,
            width: m.primary_width,
            height: m.primary_height,
        },
    }
}

/// The area the renderer covers for a scope.
pub fn desktop_rect_for_scope(scope: ShaderDesktopScope, metrics: &DesktopMetrics) -> (r:
    DesktopRect)
    ensures
        r == rect_for(scope, *metrics),
{
    match scope {
        ShaderDesktopScope::Virtual => DesktopRect {
            x: metrics.virtual_x,
            y: metrics.virtual_y,
            width: metrics.virtual_width,
            height: metrics.virtual_height,
        },
        ShaderDesktopScope::Primary => DesktopRect {
            x: 0,
            y: 0,
            width: metrics.primary_width,
            height: metrics.primary_height,
        },
    }
}

/// Whether an area can be covered: both sides positive.
pub fn rect_is_valid(rect: &DesktopRect) -> (r: bool)
    ensures
        r == (rect.width > 0 && rect.height > 0),
{
    rect.width > 0 && rect.height > 0
}

/// Which window the renderer's window is attached to.
#[derive(Clone, Copy, Debug, PartialEq, Eq, Structural)]
pub enum DesktopHostKind {
    WorkerW,
    ShellHost,
    ProgmanFallback,
}

impl DesktopHostKind {
    /// The name a host kind is logged under.
    pub fn as_str(self) -> (r: &'static str)
        ensures
            r@ == match self {
                DesktopHostKind::WorkerW => "workerw"@,
                DesktopHostKind::ShellHost => "shell_host"@,
                DesktopHostKind::ProgmanFallback => "progman_fallback"@,
            },
    {
        match self {
            DesktopHostKind::WorkerW => "workerw",
            DesktopHostKind::ShellHost => "shell_host",
            DesktopHostKind::ProgmanFallback => "progman_fallback",
        }
    }
}

/// The window chosen to host the renderer, by its handle.
#[derive(Clone, Copy, Debug, PartialEq, Eq, Structural)]
pub struct DesktopHost {
    pub hwnd: usize,
    pub kind: DesktopHostKind,
}

/// The host chosen among the windows found (a zero handle where none was
/// found): the `WorkerW` window behind the icons, else the window holding
/// the shell view, else the program manager; none when all are missing.
pub open spec fn host_choice(workerw: usize, shell_host: usize, progman: usize) -> Option<DesktopHost> {
    if workerw != 0 {
        Some(DesktopHost { hwnd: workerw, kind: DesktopHostKind::WorkerW })
    } else if shell_host != 0 {
        Some(DesktopHost { hwnd: shell_host, kind: DesktopHostKind::ShellHost })
    } else if progman != 0 {
        Some(DesktopHost { hwnd: progman, kind: DesktopHostKind::ProgmanFallback })
    } else {
        None
    }
}

/// Chooses the window that hosts the renderer.
pub fn choose_desktop_host(workerw: usize, shell_host: usize, progman: usize) -> (r: Option<
    DesktopHost,
>)
    ensures
        r == host_choice(workerw, shell_host, progman),
{
    if workerw != 0 {
        return Some(DesktopHost { hwnd: workerw, kind: DesktopHostKind::WorkerW });
    }
    if shell_host != 0 {
        return Some(DesktopHost { hwnd: shell_host, kind: DesktopHostKind::ShellHost });
    }
    if progman != 0 {
        return Some(DesktopHost { hwnd: progman, kind: DesktopHostKind::ProgmanFallback });
    }
    None
}

/// A side scaled to a percentage, at least one pixel, kept to 32 bits.
pub open spec fn scaled_side(dimension: u32, percent: u8) -> u32 {
    let s = (dimension as nat * percent as nat) / 100;
    if s < 1 {
        1
    } else {
        (s % 0x1_0000_0000) as u32
    }
}

/// A side of the output scaled to the render resolution percentage.
pub fn scale_dimension(dimension: u32, resolution_percent: u8) -> (r: u32)
    ensures
        r == scaled_side(dimension, resolution_percent),
{
    assert(dimension as u64 * resolution_percent as u64 <= 0xFFFF_FFFFu64 * 255) by (nonlinear_arith)
        requires
            dimension <= 0xFFFF_FFFFu32,
            resolution_percent <= 255u8,
    ;
    let scaled: u64 = (dimension as u64 * resolution_percent as u64) / 100;
    let s: u64 = if scaled < 1 {
        1
    } else {
        scaled
    };
    let r: u32 = (s % 0x1_0000_0000) as u32;
    r
}

/// The size the shader renders at, from the output size and the render
/// resolution percentage.
pub fn compute_internal_render_size(width: u32, height: u32, resolution_percent: u8) -> (r: (
    u32,
    u32,
))
    ensures
        r == (scaled_side(width, resolution_percent), scaled_side(height, resolution_percent)),
{
    (scale_dimension(width, resolution_percent), scale_dimension(height, resolution_percent))
}

/// The memory the swap chain holds: four bytes a pixel, for each frame in
/// flight plus the one shown.
pub open spec fn swapchain_bytes(width: u32, height: u32, max_frame_latency: u8) -> nat {
    width as nat * height as nat * 4 * (max_frame_latency as nat + 1)
}

/// Estimates the memory the swap chain holds.
pub fn estimate_swapchain_memory_bytes(width: u32, height: u32, max_frame_latency: u8) -> (r: u64)
    requires
        swapchain_bytes(width, height, max_frame_latency) <= u64::MAX,
    ensures
        r == swapchain_bytes(width, height, max_frame_latency),
{
    let ghost l = max_frame_latency as nat + 1;
    assert(width as nat * height as nat * 4 <= width as nat * height as nat * 4 * l) by (nonlinear_arith)
        requires
            l >= 1,
    ;
    assert(width as nat * height as nat <= width as nat * height as nat * 4) by (nonlinear_arith);
    let frame: u64 = width as u64 * height as u64 * 4;
    assert(frame as nat * (max_frame_latency as nat + 1) == swapchain_bytes(width, height, max_frame_latency));
    frame * (max_frame_latency as u64 + 1)
}

/// The little-endian 32-bit words of a shader binary, or `None` when its
/// length is not a multiple of four.
pub open spec fn spirv_words(bytes: Seq<u8>) -> Option<Seq<u32>> {
    if bytes.len() % 4 != 0 {
        None
    } else {
        Some(
            Seq::new(
                bytes.len() / 4,
                |i: int|
                    (bytes[4 * i] as nat + bytes[4 * i + 1] as nat * 0x100 + bytes[4 * i + 2] as nat
                        * 0x1_0000 + bytes[4 * i + 3] as nat * 0x100_0000) as u32,
            ),
        )
    }
}

/// Reads a shader binary as little-endian 32-bit words.
pub fn load_spirv_words(bytes: &[u8]) -> (r: Option<Vec<u32>>)
    ensures
        match r {
            Some(w) => spirv_words(bytes@) == Some(w@),
            None => spirv_words(bytes@) is None,
        },
{
    if bytes.len() % 4 != 0 {
        return None;
    }
    let n = bytes.len() / 4;
    let mut words: Vec<u32> = Vec::new();
    let mut i: usize = 0;
    while i < n
        invariant
            i <= n,
            n == bytes@.len() / 4,
            bytes@.len() == bytes.len(),
            bytes@.len() % 4 == 0,
            words@.len() == i,
            forall|k: int| 0 <= k < i ==> #[trigger] words@[k] == (bytes@[4 * k] as nat + bytes@[4 * k
                + 1] as nat * 0x100 + bytes@[4 * k + 2] as nat * 0x1_0000 + bytes@[4 * k + 3] as nat
                * 0x100_0000) as u32,
        decreases n - i,
    {
        assert(4 * i + 4 <= bytes@.len()) by (nonlinear_arith)
            requires
                i < n,
                n == bytes@.len() / 4,
        ;
        let b = 4 * i;
        let w: u32 = bytes[b] as u32 + bytes[b + 1] as u32 * 0x100 + bytes[b + 2] as u32 * 0x1_0000
            + bytes[b + 3] as u32 * 0x100_0000;
        words.push(w);
        i += 1;
    }
    assert(words@ =~= spirv_words(bytes@).unwrap());
    Some(words)
}

} // verus!

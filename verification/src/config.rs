//! The configuration model, and how a parsed document becomes a configuration.
//!
//! Reading is lenient: a value of the wrong kind, an unknown key, or a value
//! out of range never fails the load. Each is replaced by its default and
//! reported as a [`ConfigWarning`], in the order the reader meets them.

use vstd::prelude::*;
use crate::document::{
    collect_extras, dec_bool, dec_choice, dec_str, dec_strings, dec_uint, entries_of, extra_views,
    extras, field, find_field, got_object, is_null, lenient, lenient_object, read_bool, read_choice,
    read_str, read_strings, read_uint, ExtraKey, Got, HclEntry, HclNode, HclValue,
};
use crate::duration::{duration_parse, parse_duration_string};
use crate::paths::{join, path_join};
use crate::text::{
    decimal, decimal_string, lower_seq, owned, push_decimal, push_str, starts_with,
    str_eq, str_starts_with, trim, trimmed, ascii_lowercase, chars_of, string_of_range,
};

verus! {

/// Image format written for the wallpaper.
#[derive(Debug, Clone, Copy, PartialEq, Eq, Structural)]
pub enum OutputFormat {
    Jpg,
    Png,
}

/// File extension written for a format.
pub open spec fn format_ext(f: OutputFormat) -> Seq<char> {
    match f {
        OutputFormat::Jpg => "jpg"@,
        OutputFormat::Png => "png"@,
    }
}

impl OutputFormat {
    /// The file extension for this format.
    pub fn extension(self) -> (r: &'static str)
        ensures
            r@ == format_ext(self),
    {
        proof {
            reveal_strlit("jpg");
            reveal_strlit("png");
        }
        match self {
            OutputFormat::Jpg => "jpg",
            OutputFormat::Png => "png",
        }
    }
}

/// What draws the desktop: still images or a live shader.
#[derive(Debug, Clone, Copy, PartialEq, Eq, Structural)]
pub enum RendererMode {
    Image,
    Shader,
}

/// Which part of the desktop a shader covers.
#[derive(Debug, Clone, Copy, PartialEq, Eq, Structural)]
pub enum ShaderDesktopScope {
    Virtual,
    Primary,
}

/// How a shader's output is encoded.
#[derive(Debug, Clone, Copy, PartialEq, Eq, Structural)]
pub enum ShaderColorSpace {
    Unorm,
    Srgb,
}

/// Seconds between wallpaper switches when none is configured.
pub const DEFAULT_TIMER_SECS: u64 = 300;
/// Seconds between remote refreshes when none is configured.
pub const DEFAULT_REMOTE_UPDATE_TIMER_SECS: u64 = 3600;
/// Seconds between update checks when none is configured.
pub const DEFAULT_UPDATER_CHECK_INTERVAL_SECS: u64 = 21600;
/// Shortest accepted switch interval.
pub const MIN_TIMER_SECS: u64 = 5;
/// Shortest accepted remote refresh interval.
pub const MIN_REMOTE_UPDATE_SECS: u64 = 30;
/// Shortest accepted update-check interval.
pub const MIN_UPDATER_CHECK_INTERVAL_SECS: u64 = 600;
/// JPEG quality when none is configured.
pub const DEFAULT_JPEG_QUALITY: u8 = 90;
/// Shader frame rate when none is configured.
pub const DEFAULT_SHADER_TARGET_FPS: u16 = 60;
/// Shader render resolution (percent) when none is configured.
pub const DEFAULT_SHADER_RESOLUTION_PERCENT: u8 = 100;
/// Cache size limit (MiB) when none is configured.
pub const DEFAULT_MAX_CACHE_MB: u64 = 1024;
/// Cache age limit (days) when none is configured.
pub const DEFAULT_MAX_CACHE_AGE_DAYS: u64 = 30;
/// Number of feed items an RSS source takes when none is configured.
pub const DEFAULT_RSS_MAX_ITEMS: usize = 1000;

/// The shader used when none is named.
pub open spec fn default_shader_name() -> Seq<char> {
    "gradient_glossy"@
}

/// The update feed used when none is configured.
pub open spec fn default_feed_url() -> Seq<char> {
    "https://github.com/hmerritt/aura/releases/latest/download"@
}

/// One image source.
pub enum SourceConfig {
    File { path: String },
    Directory { path: String, recursive: bool, extensions: Option<Vec<String>> },
    Rss { url: String, max_items: usize, download_dir: Option<String> },
}

/// The mathematical form of a [`SourceConfig`].
pub enum SourceView {
    File { path: Seq<char> },
    Directory { path: Seq<char>, recursive: bool, extensions: Option<Seq<Seq<char>>> },
    Rss { url: Seq<char>, max_items: usize, download_dir: Option<Seq<char>> },
}

/// The view of an optional string.
pub open spec fn opt_view(o: Option<String>) -> Option<Seq<char>> {
    match o {
        Some(s) => Some(s@),
        None => None,
    }
}

/// The view of an optional list of strings.
pub open spec fn opt_strings_view(o: Option<Vec<String>>) -> Option<Seq<Seq<char>>> {
    match o {
        Some(v) => Some(v.deep_view()),
        None => None,
    }
}

impl View for SourceConfig {
    type V = SourceView;

    open spec fn view(&self) -> SourceView {
        match self {
            SourceConfig::File { path } => SourceView::File { path: path@ },
            SourceConfig::Directory { path, recursive, extensions } => SourceView::Directory {
                path: path@,
                recursive: *recursive,
                extensions: opt_strings_view(*extensions),
            },
            SourceConfig::Rss { url, max_items, download_dir } => SourceView::Rss {
                url: url@,
                max_items: *max_items,
                download_dir: opt_view(*download_dir),
            },
        }
    }
}

/// Views of a list of sources.
pub open spec fn sources_view(v: Seq<SourceConfig>) -> Seq<SourceView> {
    v.map_values(|s: SourceConfig| s@)
}

/// Image-mode settings. Durations are in seconds.
pub struct ImageConfig {
    pub timer: u64,
    pub remote_update_timer: u64,
    pub sources: Vec<SourceConfig>,
    pub format: OutputFormat,
    pub jpeg_quality: u8,
}

/// The mathematical form of an [`ImageConfig`].
pub struct ImageView {
    pub timer: u64,
    pub remote_update_timer: u64,
    pub sources: Seq<SourceView>,
    pub format: OutputFormat,
    pub jpeg_quality: u8,
}

impl View for ImageConfig {
    type V = ImageView;

    open spec fn view(&self) -> ImageView {
        ImageView {
            timer: self.timer,
            remote_update_timer: self.remote_update_timer,
            sources: sources_view(self.sources@),
            format: self.format,
            jpeg_quality: self.jpeg_quality,
        }
    }
}

/// Self-update settings. The interval is in seconds.
pub struct UpdaterConfig {
    pub enabled: bool,
    pub check_interval: u64,
    pub feed_url: String,
}

/// The mathematical form of an [`UpdaterConfig`].
pub struct UpdaterView {
    pub enabled: bool,
    pub check_interval: u64,
    pub feed_url: Seq<char>,
}

impl View for UpdaterConfig {
    type V = UpdaterView;

    open spec fn view(&self) -> UpdaterView {
        UpdaterView {
            enabled: self.enabled,
            check_interval: self.check_interval,
            feed_url: self.feed_url@,
        }
    }
}

/// Shader-mode settings.
pub struct ShaderConfig {
    pub name: String,
    pub target_fps: u16,
    pub resolution: u8,
    pub mouse_enabled: bool,
    pub desktop_scope: ShaderDesktopScope,
    pub color_space: ShaderColorSpace,
}

/// The mathematical form of a [`ShaderConfig`].
pub struct ShaderView {
    pub name: Seq<char>,
    pub target_fps: u16,
    pub resolution: u8,
    pub mouse_enabled: bool,
    pub desktop_scope: ShaderDesktopScope,
    pub color_space: ShaderColorSpace,
}

impl View for ShaderConfig {
    type V = ShaderView;

    open spec fn view(&self) -> ShaderView {
        ShaderView {
            name: self.name@,
            target_fps: self.target_fps,
            resolution: self.resolution,
            mouse_enabled: self.mouse_enabled,
            desktop_scope: self.desktop_scope,
            color_space: self.color_space,
        }
    }
}

/// The shader settings used when shader mode has none.
pub open spec fn default_shader_view() -> ShaderView {
    ShaderView {
        name: default_shader_name(),
        target_fps: 60,
        resolution: 100,
        mouse_enabled: false,
        desktop_scope: ShaderDesktopScope::Virtual,
        color_space: ShaderColorSpace::Unorm,
    }
}

/// The shader settings used when shader mode has none.
pub fn default_shader_config() -> (r: ShaderConfig)
    ensures
        r@ == default_shader_view(),
{
    proof {
        reveal_strlit("gradient_glossy");
    }
    ShaderConfig {
        name: owned("gradient_glossy"),
        target_fps: DEFAULT_SHADER_TARGET_FPS,
        resolution: DEFAULT_SHADER_RESOLUTION_PERCENT,
        mouse_enabled: false,
        desktop_scope: ShaderDesktopScope::Virtual,
        color_space: ShaderColorSpace::Unorm,
    }
}

/// The whole runtime configuration. Cache age is in seconds.
pub struct AuraConfig {
    pub image: ImageConfig,
    pub updater: UpdaterConfig,
    pub cache_dir: String,
    pub state_file: String,
    pub log_level: String,
    pub max_cache_bytes: u64,
    pub max_cache_age: u64,
    pub renderer: RendererMode,
    pub shader: Option<ShaderConfig>,
}

/// The mathematical form of an [`AuraConfig`].
pub struct AuraView {
    pub image: ImageView,
    pub updater: UpdaterView,
    pub cache_dir: Seq<char>,
    pub state_file: Seq<char>,
    pub log_level: Seq<char>,
    pub max_cache_bytes: u64,
    pub max_cache_age: u64,
    pub renderer: RendererMode,
    pub shader: Option<ShaderView>,
}

impl View for AuraConfig {
    type V = AuraView;

    open spec fn view(&self) -> AuraView {
        AuraView {
            image: self.image@,
            updater: self.updater@,
            cache_dir: self.cache_dir@,
            state_file: self.state_file@,
            log_level: self.log_level@,
            max_cache_bytes: self.max_cache_bytes,
            max_cache_age: self.max_cache_age,
            renderer: self.renderer,
            shader: match self.shader {
                Some(s) => Some(s@),
                None => None,
            },
        }
    }
}

/// A problem found while reading the configuration, and what was done about it.
#[derive(Debug, Clone, PartialEq, Eq)]
pub struct ConfigWarning {
    pub key_path: String,
    pub issue: String,
    pub fallback: String,
    pub raw_value: Option<String>,
}

/// The mathematical form of a [`ConfigWarning`].
pub struct WarningView {
    pub key_path: Seq<char>,
    pub issue: Seq<char>,
    pub fallback: Seq<char>,
    pub raw_value: Option<Seq<char>>,
}

impl View for ConfigWarning {
    type V = WarningView;

    open spec fn view(&self) -> WarningView {
        WarningView {
            key_path: self.key_path@,
            issue: self.issue@,
            fallback: self.fallback@,
            raw_value: opt_view(self.raw_value),
        }
    }
}

/// Views of a list of warnings.
pub open spec fn warnings_view(v: Seq<ConfigWarning>) -> Seq<WarningView> {
    v.map_values(|w: ConfigWarning| w@)
}

/// A warning as its four parts.
pub open spec fn warn(
    key_path: Seq<char>,
    issue: Seq<char>,
    fallback: Seq<char>,
    raw_value: Option<Seq<char>>,
) -> WarningView {
    WarningView { key_path, issue, fallback, raw_value }
}

/// A configuration together with the warnings its reading produced.
pub struct ConfigWithWarnings {
    pub config: AuraConfig,
    pub warnings: Vec<ConfigWarning>,
}

/// Appends one warning.
pub fn push_warning(ws: &mut Vec<ConfigWarning>, w: ConfigWarning)
    ensures
        warnings_view(final(ws)@) == warnings_view(old(ws)@).push(w@),
{
    ws.push(w);
    assert(warnings_view(ws@) =~= warnings_view(old(ws)@).push(w@));
}

/// A warning built from its parts.
pub fn make_warning(key_path: String, issue: String, fallback: String, raw_value: Option<String>) -> (r:
    ConfigWarning)
    ensures
        r@ == warn(key_path@, issue@, fallback@, opt_view(raw_value)),
{
    ConfigWarning { key_path, issue, fallback, raw_value }
}

// ---------------------------------------------------------------------------
// Unknown keys

/// The key path of `key` under section `prefix` (the key alone at top level).
pub open spec fn key_path(prefix: Seq<char>, key: Seq<char>) -> Seq<char> {
    if prefix.len() == 0 {
        key
    } else {
        prefix + "."@ + key
    }
}

/// One warning per unknown attribute, in order.
pub open spec fn unknown_warnings(prefix: Seq<char>, ex: Seq<(Seq<char>, Seq<char>)>) -> Seq<
    WarningView,
> {
    Seq::new(
        ex.len(),
        |i: int| warn(key_path(prefix, ex[i].0), "unknown key"@, "ignored"@, Some(ex[i].1)),
    )
}

fn make_key_path(prefix: &str, key: &str) -> (r: String)
    ensures
        r@ == key_path(prefix@, key@),
{
    proof {
        reveal_strlit(".");
    }
    if prefix.unicode_len() == 0 {
        owned(key)
    } else {
        let mut s = owned(prefix);
        push_str(&mut s, ".");
        push_str(&mut s, key);
        s
    }
}

/// Reports the unknown attributes of a section.
pub fn warn_unknown_keys(prefix: &str, ex: &Vec<ExtraKey>, ws: &mut Vec<ConfigWarning>)
    ensures
        warnings_view(final(ws)@) == warnings_view(old(ws)@) + unknown_warnings(
            prefix@,
            extra_views(ex@),
        ),
{
    proof {
        reveal_strlit("unknown key");
        reveal_strlit("ignored");
    }
    let ghost start = warnings_view(ws@);
    let mut i: usize = 0;
    while i < ex.len()
        invariant
            i <= ex.len(),
            warnings_view(ws@) == start + unknown_warnings(
                prefix@,
                extra_views(ex@).subrange(0, i as int),
            ),
        decreases ex.len() - i,
    {
        let w = make_warning(
            make_key_path(prefix, ex[i].key.as_str()),
            owned("unknown key"),
            owned("ignored"),
            Some(ex[i].text.clone()),
        );
        push_warning(ws, w);
        i += 1;
        assert(unknown_warnings(prefix@, extra_views(ex@).subrange(0, i as int)) =~= unknown_warnings(
            prefix@,
            extra_views(ex@).subrange(0, i - 1),
        ).push(w@));
    }
    assert(extra_views(ex@).subrange(0, ex.len() as int) =~= extra_views(ex@));
}

// ---------------------------------------------------------------------------
// Lenient fields

/// The value of a lenient field, and the warning an invalid one produces.
pub open spec fn take<T>(key: Seq<char>, g: Got<T>, fallback: Seq<char>) -> (Option<T>, Seq<
    WarningView,
>) {
    match g {
        Got::Valid(v) => (Some(v), Seq::empty()),
        Got::Invalid(raw) => (
            None,
            seq![warn(key, "invalid value"@, fallback, Some(raw))],
        ),
        Got::Absent => (None, Seq::empty()),
    }
}

/// The value a lenient field gives, or `d`.
pub open spec fn take_or<T>(key: Seq<char>, g: Got<T>, fallback: Seq<char>, d: T) -> T {
    match take(key, g, fallback).0 {
        Some(v) => v,
        None => d,
    }
}

/// The warnings a lenient field gives.
pub open spec fn take_w<T>(key: Seq<char>, g: Got<T>, fallback: Seq<char>) -> Seq<WarningView> {
    take(key, g, fallback).1
}

/// Records the warning for an invalid lenient field.
fn note_invalid(key: &str, raw: &HclNode, fallback: &str, ws: &mut Vec<ConfigWarning>)
    ensures
        warnings_view(final(ws)@) == warnings_view(old(ws)@).push(
            warn(key@, "invalid value"@, fallback@, Some(raw.text@)),
        ),
{
    proof {
        reveal_strlit("invalid value");
    }
    push_warning(
        ws,
        make_warning(owned(key), owned("invalid value"), owned(fallback), Some(raw.text.clone())),
    );
}

/// The node of an optional lookup.
pub open spec fn node_of(n: Option<&HclNode>) -> Option<HclNode> {
    match n {
        Some(x) => Some(*x),
        None => None,
    }
}

/// Takes a lenient non-negative integer of at most `max`.
pub fn take_uint(
    key: &str,
    n: Option<&HclNode>,
    max: u64,
    fallback: &str,
    ws: &mut Vec<ConfigWarning>,
) -> (r: Option<u64>)
    ensures
        ({
            let g = lenient(
                node_of(n),
                match node_of(n) {
                    Some(x) => dec_uint(x, max),
                    None => None,
                },
            );
            &&& r == take(key@, g, fallback@).0
            &&& warnings_view(final(ws)@) == warnings_view(old(ws)@) + take_w(key@, g, fallback@)
        }),
{
    match n {
        None => {
            assert(warnings_view(ws@) =~= warnings_view(ws@) + Seq::<WarningView>::empty());
            None
        },
        Some(x) => {
            if is_null(x) {
                assert(warnings_view(ws@) =~= warnings_view(ws@) + Seq::<WarningView>::empty());
                return None;
            }
            match read_uint(x, max) {
                Some(v) => {
                    assert(warnings_view(ws@) =~= warnings_view(ws@) + Seq::<WarningView>::empty());
                    Some(v)
                },
                None => {
                    note_invalid(key, x, fallback, ws);
                    None
                },
            }
        },
    }
}

/// Takes a lenient boolean.
pub fn take_bool(key: &str, n: Option<&HclNode>, fallback: &str, ws: &mut Vec<ConfigWarning>) -> (r:
    Option<bool>)
    ensures
        ({
            let g = lenient(
                node_of(n),
                match node_of(n) {
                    Some(x) => dec_bool(x),
                    None => None,
                },
            );
            &&& r == take(key@, g, fallback@).0
            &&& warnings_view(final(ws)@) == warnings_view(old(ws)@) + take_w(key@, g, fallback@)
        }),
{
    match n {
        None => {
            assert(warnings_view(ws@) =~= warnings_view(ws@) + Seq::<WarningView>::empty());
            None
        },
        Some(x) => {
            if is_null(x) {
                assert(warnings_view(ws@) =~= warnings_view(ws@) + Seq::<WarningView>::empty());
                return None;
            }
            match read_bool(x) {
                Some(v) => {
                    assert(warnings_view(ws@) =~= warnings_view(ws@) + Seq::<WarningView>::empty());
                    Some(v)
                },
                None => {
                    note_invalid(key, x, fallback, ws);
                    None
                },
            }
        },
    }
}

/// Takes a lenient string.
pub fn take_str(key: &str, n: Option<&HclNode>, fallback: &str, ws: &mut Vec<ConfigWarning>) -> (r:
    Option<String>)
    ensures
        ({
            let g = lenient(
                node_of(n),
                match node_of(n) {
                    Some(x) => dec_str(x),
                    None => None,
                },
            );
            &&& opt_view(r) == take(key@, g, fallback@).0
            &&& warnings_view(final(ws)@) == warnings_view(old(ws)@) + take_w(key@, g, fallback@)
        }),
{
    match n {
        None => {
            assert(warnings_view(ws@) =~= warnings_view(ws@) + Seq::<WarningView>::empty());
            None
        },
        Some(x) => {
            if is_null(x) {
                assert(warnings_view(ws@) =~= warnings_view(ws@) + Seq::<WarningView>::empty());
                return None;
            }
            match read_str(x) {
                Some(v) => {
                    assert(warnings_view(ws@) =~= warnings_view(ws@) + Seq::<WarningView>::empty());
                    Some(v)
                },
                None => {
                    note_invalid(key, x, fallback, ws);
                    None
                },
            }
        },
    }
}

/// Takes a lenient two-variant unit enum (variant index).
pub fn take_choice(
    key: &str,
    n: Option<&HclNode>,
    a: &str,
    b: &str,
    fallback: &str,
    ws: &mut Vec<ConfigWarning>,
) -> (r: Option<usize>)
    ensures
        ({
            let g = lenient(
                node_of(n),
                match node_of(n) {
                    Some(x) => dec_choice(x, a@, b@),
                    None => None,
                },
            );
            &&& (match r {
                Some(i) => take(key@, g, fallback@).0 == Some(i as nat),
                None => take(key@, g, fallback@).0 is None,
            })
            &&& warnings_view(final(ws)@) == warnings_view(old(ws)@) + take_w(key@, g, fallback@)
        }),
{
    match n {
        None => {
            assert(warnings_view(ws@) =~= warnings_view(ws@) + Seq::<WarningView>::empty());
            None
        },
        Some(x) => {
            if is_null(x) {
                assert(warnings_view(ws@) =~= warnings_view(ws@) + Seq::<WarningView>::empty());
                return None;
            }
            match read_choice(x, a, b) {
                Some(v) => {
                    assert(warnings_view(ws@) =~= warnings_view(ws@) + Seq::<WarningView>::empty());
                    Some(v)
                },
                None => {
                    note_invalid(key, x, fallback, ws);
                    None
                },
            }
        },
    }
}

/// Takes a lenient object (a section), as its entries.
pub fn take_section<'a>(
    key: &str,
    n: Option<&'a HclNode>,
    fallback: &str,
    ws: &mut Vec<ConfigWarning>,
) -> (r: Option<&'a Vec<HclEntry>>)
    ensures
        ({
            let g = got_object(node_of(n));
            &&& (match r {
                Some(es) => take(key@, g, fallback@).0 == Some(es@),
                None => take(key@, g, fallback@).0 is None,
            })
            &&& warnings_view(final(ws)@) == warnings_view(old(ws)@) + take_w(key@, g, fallback@)
        }),
{
    proof {
        reveal_strlit("invalid value");
    }
    let (es, raw) = lenient_object(n);
    match raw {
        Some(t) => {
            push_warning(
                ws,
                make_warning(owned(key), owned("invalid value"), owned(fallback), Some(t)),
            );
        },
        None => {
            assert(warnings_view(ws@) =~= warnings_view(ws@) + Seq::<WarningView>::empty());
        },
    }
    es
}

} // verus!

//! The settings document: the editable form of a configuration, and its
//! canonical HCL rendering.

use vstd::prelude::*;
use crate::config::{
    opt_strings_view, opt_view, AuraConfig, ConfigWarning, OutputFormat, RendererMode,
    ShaderColorSpace, ShaderConfig, ShaderDesktopScope, SourceConfig, SourceView, WarningView,
    warnings_view, default_shader_config, default_shader_view, ConfigWithWarnings,
};
use crate::config_load::{config_warnings, limits_fit, LoadEnv};
use crate::document::HclNode;
use crate::duration::{duration_text, format_duration_value};
use crate::text::{chars_of, decimal, owned, push_char, push_decimal, push_str};

verus! {

/// Image settings of a settings document; durations as duration strings.
pub struct SettingsImageConfig {
    pub timer: String,
    pub remote_update_timer: String,
    pub sources: Vec<SettingsSourceConfig>,
    pub format: OutputFormat,
    pub jpeg_quality: u8,
}

/// One source of a settings document.
pub enum SettingsSourceConfig {
    File { path: String },
    Directory { path: String, recursive: bool, extensions: Option<Vec<String>> },
    Rss { url: String, max_items: usize, download_dir: Option<String> },
}

impl View for SettingsSourceConfig {
    type V = SourceView;

    open spec fn view(&self) -> SourceView {
        match self {
            SettingsSourceConfig::File { path } => SourceView::File { path: path@ },
            SettingsSourceConfig::Directory { path, recursive, extensions } => SourceView::Directory {
                path: path@,
                recursive: *recursive,
                extensions: opt_strings_view(*extensions),
            },
            SettingsSourceConfig::Rss { url, max_items, download_dir } => SourceView::Rss {
                url: url@,
                max_items: *max_items,
                download_dir: opt_view(*download_dir),
            },
        }
    }
}

/// Shader settings of a settings document.
pub struct SettingsShaderConfig {
    pub name: String,
    pub target_fps: u16,
    pub resolution: u8,
    pub mouse_enabled: bool,
    pub desktop_scope: ShaderDesktopScope,
    pub color_space: ShaderColorSpace,
}

/// Updater settings of a settings document.
pub struct SettingsUpdaterConfig {
    pub enabled: bool,
    pub check_interval: String,
    pub feed_url: String,
}

/// The editable form of a configuration.
pub struct SettingsDocument {
    pub renderer: RendererMode,
    pub image: SettingsImageConfig,
    pub shader: SettingsShaderConfig,
    pub updater: SettingsUpdaterConfig,
    pub cache_dir: String,
    pub state_file: String,
    pub log_level: String,
    pub max_cache_mb: u64,
    pub max_cache_age_days: u64,
}

/// A settings document together with the warnings its load gave.
pub struct SettingsLoadResult {
    pub document: SettingsDocument,
    pub warnings: Vec<ConfigWarning>,
}

/// The warnings a settings document would give if saved.
pub struct SettingsValidationResult {
    pub warnings: Vec<ConfigWarning>,
}

/// Views of the sources of a settings document.
pub open spec fn settings_sources_view(v: Seq<SettingsSourceConfig>) -> Seq<SourceView> {
    v.map_values(|s: SettingsSourceConfig| s@)
}

/// Copies one configured source into the settings form.
pub fn settings_source_from(source: &SourceConfig) -> (r: SettingsSourceConfig)
    ensures
        r@ == source@,
{
    match source {
        SourceConfig::File { path } => SettingsSourceConfig::File { path: path.clone() },
        SourceConfig::Directory { path, recursive, extensions } => SettingsSourceConfig::Directory {
            path: path.clone(),
            recursive: *recursive,
            extensions: match extensions {
                Some(l) => Some(clone_strings(l)),
                None => None,
            },
        },
        SourceConfig::Rss { url, max_items, download_dir } => SettingsSourceConfig::Rss {
            url: url.clone(),
            max_items: *max_items,
            download_dir: match download_dir {
                Some(d) => Some(d.clone()),
                None => None,
            },
        },
    }
}

/// A copy of a list of strings.
pub fn clone_strings(l: &Vec<String>) -> (r: Vec<String>)
    ensures
        r.deep_view() == l.deep_view(),
{
    let mut out: Vec<String> = Vec::new();
    let mut i: usize = 0;
    while i < l.len()
        invariant
            i <= l.len(),
            out.deep_view() == l.deep_view().subrange(0, i as int),
        decreases l.len() - i,
    {
        let ghost prev = out.deep_view();
        let c = l[i].clone();
        assert(c@ == l.deep_view()[i as int]);
        out.push(c);
        assert(out.deep_view() =~= prev.push(c@));
        i += 1;
        assert(out.deep_view() =~= l.deep_view().subrange(0, i as int));
    }
    assert(l.deep_view().subrange(0, l.len() as int) =~= l.deep_view());
    out
}

/// The settings form of a configuration's shader settings, or the defaults.
pub open spec fn settings_shader_spec(config: AuraConfig) -> crate::config::ShaderView {
    match config.shader {
        Some(s) => s@,
        None => default_shader_view(),
    }
}

/// The view of a settings shader block.
pub open spec fn settings_shader_view(s: SettingsShaderConfig) -> crate::config::ShaderView {
    crate::config::ShaderView {
        name: s.name@,
        target_fps: s.target_fps,
        resolution: s.resolution,
        mouse_enabled: s.mouse_enabled,
        desktop_scope: s.desktop_scope,
        color_space: s.color_space,
    }
}

/// Whether `d` is the settings form of `config`: durations rendered by
/// [`duration_text`], the shader block or its defaults, and cache limits in
/// whole MiB and days.
pub open spec fn is_settings_of(d: SettingsDocument, config: AuraConfig) -> bool {
    &&& d.renderer == config.renderer
    &&& d.image.timer@ == duration_text(config.image.timer as nat)
    &&& d.image.remote_update_timer@ == duration_text(config.image.remote_update_timer as nat)
    &&& settings_sources_view(d.image.sources@) == crate::config::sources_view(config.image.sources@)
    &&& d.image.format == config.image.format
    &&& d.image.jpeg_quality == config.image.jpeg_quality
    &&& settings_shader_view(d.shader) == settings_shader_spec(config)
    &&& d.updater.enabled == config.updater.enabled
    &&& d.updater.check_interval@ == duration_text(config.updater.check_interval as nat)
    &&& d.updater.feed_url@ == config.updater.feed_url@
    &&& d.cache_dir@ == config.cache_dir@
    &&& d.state_file@ == config.state_file@
    &&& d.log_level@ == config.log_level@
    &&& d.max_cache_mb == config.max_cache_bytes / 1048576
    &&& d.max_cache_age_days == config.max_cache_age / 86400
}

impl SettingsDocument {
    /// The settings form of a configuration.
    pub fn from_config(config: &AuraConfig) -> (r: SettingsDocument)
        ensures
            is_settings_of(r, *config),
    {
        let shader = match &config.shader {
            Some(s) => ShaderConfig {
                name: s.name.clone(),
                target_fps: s.target_fps,
                resolution: s.resolution,
                mouse_enabled: s.mouse_enabled,
                desktop_scope: s.desktop_scope,
                color_space: s.color_space,
            },
            None => default_shader_config(),
        };
        let mut sources: Vec<SettingsSourceConfig> = Vec::new();
        let mut i: usize = 0;
        while i < config.image.sources.len()
            invariant
                i <= config.image.sources.len(),
                settings_sources_view(sources@) == crate::config::sources_view(
                    config.image.sources@.subrange(0, i as int),
                ),
            decreases config.image.sources.len() - i,
        {
            let ghost prev = settings_sources_view(sources@);
            let s = settings_source_from(&config.image.sources[i]);
            sources.push(s);
            assert(settings_sources_view(sources@) =~= prev.push(config.image.sources@[i as int]@));
            i += 1;
            assert(settings_sources_view(sources@) =~= crate::config::sources_view(
                config.image.sources@.subrange(0, i as int),
            ));
        }
        assert(config.image.sources@.subrange(0, config.image.sources.len() as int)
            =~= config.image.sources@);
        SettingsDocument {
            renderer: config.renderer,
            image: SettingsImageConfig {
                timer: format_duration_value(config.image.timer),
                remote_update_timer: format_duration_value(config.image.remote_update_timer),
                sources,
                format: config.image.format,
                jpeg_quality: config.image.jpeg_quality,
            },
            shader: SettingsShaderConfig {
                name: shader.name,
                target_fps: shader.target_fps,
                resolution: shader.resolution,
                mouse_enabled: shader.mouse_enabled,
                desktop_scope: shader.desktop_scope,
                color_space: shader.color_space,
            },
            updater: crate::settings::SettingsUpdaterConfig {
                enabled: config.updater.enabled,
                check_interval: format_duration_value(config.updater.check_interval),
                feed_url: config.updater.feed_url.clone(),
            },
            cache_dir: config.cache_dir.clone(),
            state_file: config.state_file.clone(),
            log_level: config.log_level.clone(),
            max_cache_mb: config.max_cache_bytes / 1048576,
            max_cache_age_days: config.max_cache_age / 86400,
        }
    }
}

// ---------------------------------------------------------------------------
// Rendering

/// How one character is written inside an HCL string literal.
pub open spec fn escape_char(c: char) -> Seq<char> {
    if c == '\\' {
        seq!['\\', '\\']
    } else if c == '"' {
        seq!['\\', '"']
    } else if c == '\n' {
        seq!['\\', 'n']
    } else if c == '\r' {
        seq!['\\', 'r']
    } else if c == '\t' {
        seq!['\\', 't']
    } else {
        seq![c]
    }
}

/// A character sequence written inside an HCL string literal.
pub open spec fn escape(s: Seq<char>) -> Seq<char>
    decreases s.len(),
{
    if s.len() == 0 {
        Seq::empty()
    } else {
        escape(s.drop_last()) + escape_char(s.last())
    }
}

/// An HCL string literal holding `s`.
pub open spec fn hcl_quoted(s: Seq<char>) -> Seq<char> {
    seq!['"'] + escape(s) + seq!['"']
}

/// Appends `s` as an HCL string literal.
pub fn push_hcl_string(out: &mut String, s: &str)
    ensures
        final(out)@ == old(out)@ + hcl_quoted(s@),
{
    let v = chars_of(s);
    let ghost start = out@;
    push_char(out, '"');
    let mut i: usize = 0;
    while i < v.len()
        invariant
            i <= v.len(),
            v@ == s@,
            out@ == start + seq!['"'] + escape(v@.subrange(0, i as int)),
        decreases v.len() - i,
    {
        let c = v[i];
        if c == '\\' {
            push_char(out, '\\');
            push_char(out, '\\');
        } else if c == '"' {
            push_char(out, '\\');
            push_char(out, '"');
        } else if c == '\n' {
            push_char(out, '\\');
            push_char(out, 'n');
        } else if c == '\r' {
            push_char(out, '\\');
            push_char(out, 'r');
        } else if c == '\t' {
            push_char(out, '\\');
            push_char(out, 't');
        } else {
            push_char(out, c);
        }
        i += 1;
        assert(v@.subrange(0, i as int).drop_last() =~= v@.subrange(0, i - 1));
        assert(out@ =~= start + seq!['"'] + escape(v@.subrange(0, i as int)));
    }
    push_char(out, '"');
    assert(v@.subrange(0, v.len() as int) =~= v@);
    assert(out@ =~= start + hcl_quoted(s@));
}

/// An HCL string literal holding `s` (`hcl_string`).
pub fn hcl_string(s: &str) -> (r: String)
    ensures
        r@ == hcl_quoted(s@),
{
    let mut out = String::new();
    push_hcl_string(&mut out, s);
    assert(out@ =~= hcl_quoted(s@));
    out
}

/// `true` or `false`.
pub open spec fn bool_text(b: bool) -> Seq<char> {
    if b {
        "true"@
    } else {
        "false"@
    }
}

fn push_bool(out: &mut String, b: bool)
    ensures
        final(out)@ == old(out)@ + bool_text(b),
{
    proof {
        reveal_strlit("true");
        reveal_strlit("false");
    }
    if b {
        push_str(out, "true");
    } else {
        push_str(out, "false");
    }
}

/// Items joined by a separator.
pub open spec fn join_with(items: Seq<Seq<char>>, sep: Seq<char>) -> Seq<char>
    decreases items.len(),
{
    if items.len() == 0 {
        Seq::empty()
    } else if items.len() == 1 {
        items[0]
    } else {
        join_with(items.drop_last(), sep) + sep + items.last()
    }
}

/// The quoted forms of a list of strings.
pub open spec fn quoted_all(l: Seq<Seq<char>>) -> Seq<Seq<char>> {
    Seq::new(l.len(), |i: int| hcl_quoted(l[i]))
}

/// The HCL object literal of one source, on one line.
pub open spec fn source_hcl(s: SourceView) -> Seq<char> {
    match s {
        SourceView::File { path } => "{ type = \"file\", path = "@ + hcl_quoted(path) + " }"@,
        SourceView::Directory { path, recursive, extensions } => "{ type = \"directory\", path = "@
            + hcl_quoted(path) + ", recursive = "@ + bool_text(recursive) + (match extensions {
            Some(l) => ", extensions = ["@ + join_with(quoted_all(l), ", "@) + "]"@,
            None => Seq::empty(),
        }) + " }"@,
        SourceView::Rss { url, max_items, download_dir } => "{ type = \"rss\", url = "@
            + hcl_quoted(url) + ", max_items = "@ + decimal(max_items as nat) + (match download_dir {
            Some(d) => ", download_dir = "@ + hcl_quoted(d),
            None => Seq::empty(),
        }) + " }"@,
    }
}

fn push_quoted_list(out: &mut String, l: &Vec<String>)
    ensures
        final(out)@ == old(out)@ + join_with(quoted_all(l.deep_view()), ", "@),
{
    proof {
        reveal_strlit(", ");
    }
    let ghost start = out@;
    let mut i: usize = 0;
    while i < l.len()
        invariant
            i <= l.len(),
            out@ == start + join_with(quoted_all(l.deep_view().subrange(0, i as int)), ", "@),
        decreases l.len() - i,
    {
        let ghost q = quoted_all(l.deep_view().subrange(0, i + 1));
        assert(q.drop_last() =~= quoted_all(l.deep_view().subrange(0, i as int)));
        assert(q.last() == hcl_quoted(l[i as int]@));
        if i > 0 {
            push_str(out, ", ");
        } else {
            assert(join_with(quoted_all(l.deep_view().subrange(0, 0)), ", "@) =~= Seq::<char>::empty());
        }
        push_hcl_string(out, l[i].as_str());
        i += 1;
        assert(out@ =~= start + join_with(quoted_all(l.deep_view().subrange(0, i as int)), ", "@));
    }
    assert(l.deep_view().subrange(0, l.len() as int) =~= l.deep_view());
}

/// Appends the HCL object literal of one source.
pub fn push_source_hcl(out: &mut String, s: &SettingsSourceConfig)
    ensures
        final(out)@ == old(out)@ + source_hcl(s@),
{
    proof {
        reveal_strlit("{ type = \"file\", path = ");
        reveal_strlit(" }");
        reveal_strlit("{ type = \"directory\", path = ");
        reveal_strlit(", recursive = ");
        reveal_strlit(", extensions = [");
        reveal_strlit("]");
        reveal_strlit("{ type = \"rss\", url = ");
        reveal_strlit(", max_items = ");
        reveal_strlit(", download_dir = ");
    }
    let ghost start = out@;
    match s {
        SettingsSourceConfig::File { path } => {
            push_str(out, "{ type = \"file\", path = ");
            push_hcl_string(out, path.as_str());
            push_str(out, " }");
        },
        SettingsSourceConfig::Directory { path, recursive, extensions } => {
            push_str(out, "{ type = \"directory\", path = ");
            push_hcl_string(out, path.as_str());
            push_str(out, ", recursive = ");
            push_bool(out, *recursive);
            let ghost mid = out@;
            match extensions {
                Some(l) => {
                    push_str(out, ", extensions = [");
                    push_quoted_list(out, l);
                    push_str(out, "]");
                },
                None => {
                    assert(out@ =~= mid + Seq::<char>::empty());
                },
            }
            push_str(out, " }");
        },
        SettingsSourceConfig::Rss { url, max_items, download_dir } => {
            push_str(out, "{ type = \"rss\", url = ");
            push_hcl_string(out, url.as_str());
            push_str(out, ", max_items = ");
            push_decimal(out, *max_items as u64);
            let ghost mid = out@;
            match download_dir {
                Some(d) => {
                    push_str(out, ", download_dir = ");
                    push_hcl_string(out, d.as_str());
                },
                None => {
                    assert(out@ =~= mid + Seq::<char>::empty());
                },
            }
            push_str(out, " }");
        },
    }
    assert(out@ =~= start + source_hcl(s@));
}


/// The segments of `s` between line feeds (at least one).
pub open spec fn split_lf(s: Seq<char>) -> Seq<Seq<char>>
    decreases s.len(),
{
    if s.len() == 0 {
        seq![Seq::<char>::empty()]
    } else if s.last() == '\n' {
        split_lf(s.drop_last()).push(Seq::empty())
    } else {
        let p = split_lf(s.drop_last());
        p.update(p.len() - 1, p.last().push(s.last()))
    }
}

proof fn lemma_split_lf_nonempty(s: Seq<char>)
    ensures
        split_lf(s).len() >= 1,
    decreases s.len(),
{
    if s.len() > 0 {
        lemma_split_lf_nonempty(s.drop_last());
    }
}

/// A line without its carriage return.
pub open spec fn strip_cr(l: Seq<char>) -> Seq<char> {
    if l.len() > 0 && l.last() == '\r' {
        l.drop_last()
    } else {
        l
    }
}

/// The lines of `s` (`str::lines`): split at line feeds, without a final
/// empty line, each without a trailing carriage return.
pub open spec fn lines(s: Seq<char>) -> Seq<Seq<char>> {
    let segs = split_lf(s);
    let kept = if segs.last().len() == 0 {
        segs.drop_last()
    } else {
        segs
    };
    Seq::new(kept.len(), |i: int| strip_cr(kept[i]))
}

/// `n` spaces.
pub open spec fn spaces(n: nat) -> Seq<char> {
    Seq::new(n, |i: int| ' ')
}

/// Every line of `s` indented by `n` spaces, joined by line feeds.
pub open spec fn indented(s: Seq<char>, n: nat) -> Seq<char> {
    let ls = lines(s);
    join_with(Seq::new(ls.len(), |i: int| spaces(n) + ls[i]), "\n"@)
}

fn push_spaces(out: &mut String, n: usize)
    ensures
        final(out)@ == old(out)@ + spaces(n as nat),
{
    let ghost start = out@;
    let mut i: usize = 0;
    while i < n
        invariant
            i <= n,
            out@ == start + spaces(i as nat),
        decreases n - i,
    {
        push_char(out, ' ');
        i += 1;
        assert(out@ =~= start + spaces(i as nat));
    }
}

/// Indents every line of a block (`indent_block`).
pub fn indent_block(value: &str, n: usize) -> (r: String)
    ensures
        r@ == indented(value@, n as nat),
{
    proof {
        reveal_strlit("\n");
    }
    let v = chars_of(value);
    let mut segs: Vec<Vec<char>> = Vec::new();
    segs.push(Vec::new());
    let mut i: usize = 0;
    assert(segs.deep_view() =~~= split_lf(v@.subrange(0, 0)));
    while i < v.len()
        invariant
            i <= v.len(),
            v@ == value@,
            segs.deep_view() == split_lf(v@.subrange(0, i as int)),
            segs.len() >= 1,
        decreases v.len() - i,
    {
        let ghost pre = v@.subrange(0, i as int);
        let ghost cur = v@.subrange(0, i + 1);
        assert(cur.drop_last() =~= pre);
        assert(cur.last() == v@[i as int]);
        if v[i] == '\n' {
            let ghost before = segs.deep_view();
            segs.push(Vec::new());
            assert(segs.deep_view() =~~= before.push(Seq::empty()));
        } else {
            let last = segs.len() - 1;
            let ghost all_before = segs.deep_view();
            let mut seg = segs.pop().unwrap();
            let ghost before = seg@;
            assert(before == all_before[last as int]);
            seg.push(v[i]);
            segs.push(seg);
            assert(segs.deep_view() =~~= all_before.update(last as int, before.push(v@[i as int])));
        }
        i += 1;
    }
    assert(v@.subrange(0, v.len() as int) =~= v@);
    let ghost all = segs.deep_view();
    let mut count = segs.len();
    if segs[count - 1].len() == 0 {
        count = count - 1;
    }
    let ghost kept = if all.last().len() == 0 {
        all.drop_last()
    } else {
        all
    };
    assert(kept.len() == count);
    let ghost ls = lines(value@);
    let ghost items = Seq::new(ls.len(), |k: int| spaces(n as nat) + ls[k]);
    let mut out = String::new();
    let mut k: usize = 0;
    while k < count
        invariant
            k <= count,
            count <= segs.len(),
            segs.deep_view() == all,
            kept.len() == count,
            forall|j: int| 0 <= j < count ==> kept[j] == all[j],
            ls == Seq::new(kept.len(), |j: int| strip_cr(kept[j])),
            items == Seq::new(ls.len(), |j: int| spaces(n as nat) + ls[j]),
            out@ == join_with(items.subrange(0, k as int), "\n"@),
        decreases count - k,
    {
        let ghost sub = items.subrange(0, k + 1);
        assert(sub.drop_last() =~= items.subrange(0, k as int));
        if k > 0 {
            push_char(&mut out, '\n');
        } else {
            assert(out@ =~= Seq::<char>::empty());
        }
        let ghost before = out@;
        push_spaces(&mut out, n);
        let seg = &segs[k];
        let mut len = seg.len();
        if len > 0 && seg[len - 1] == '\r' {
            len = len - 1;
        }
        let mut j: usize = 0;
        let ghost mid = out@;
        while j < len
            invariant
                j <= len <= seg.len(),
                out@ == mid + seg@.subrange(0, j as int),
            decreases len - j,
        {
            push_char(&mut out, seg[j]);
            j += 1;
            assert(out@ =~= mid + seg@.subrange(0, j as int));
        }
        assert(seg@ == all[k as int]);
        assert(seg@.subrange(0, len as int) =~= strip_cr(kept[k as int]));
        assert(items[k as int] == spaces(n as nat) + strip_cr(kept[k as int]));
        assert(out@ =~= before + items[k as int]);
        proof {
            reveal_strlit("\n");
        }
        assert("\n"@ =~= seq!['\n']);
        assert(sub.last() == items[k as int]);
        k += 1;
        assert(out@ =~= join_with(items.subrange(0, k as int), "\n"@));
    }
    assert(items.subrange(0, count as int) =~= items);
    out
}


/// The HCL name of a renderer mode.
pub open spec fn renderer_name(r: RendererMode) -> Seq<char> {
    match r {
        RendererMode::Image => "image"@,
        RendererMode::Shader => "shader"@,
    }
}

/// The HCL name of a desktop scope.
pub open spec fn scope_name(s: ShaderDesktopScope) -> Seq<char> {
    match s {
        ShaderDesktopScope::Virtual => "virtual"@,
        ShaderDesktopScope::Primary => "primary"@,
    }
}

/// The HCL name of a color space.
pub open spec fn color_name(c: ShaderColorSpace) -> Seq<char> {
    match c {
        ShaderColorSpace::Unorm => "unorm"@,
        ShaderColorSpace::Srgb => "srgb"@,
    }
}

/// The source literals of a document, one per line.
pub open spec fn sources_block(srcs: Seq<SourceView>) -> Seq<char> {
    join_with(Seq::new(srcs.len(), |i: int| source_hcl(srcs[i])), ",\n"@)
}

/// The `image` block of a rendered document.
pub open spec fn image_block(d: SettingsDocument) -> Seq<char> {
    "image = {\n  timer = "@ + hcl_quoted(d.image.timer@) + "\n  remoteUpdateTimer = "@
        + hcl_quoted(d.image.remote_update_timer@) + "\n  sources = [\n"@ + indented(
        sources_block(settings_sources_view(d.image.sources@)),
        4,
    ) + "\n  ]\n  format = "@ + hcl_quoted(crate::config::format_ext(d.image.format))
        + "\n  jpeg_quality = "@ + decimal(d.image.jpeg_quality as nat) + "\n}\n\n"@
}

/// The `shader` block of a rendered document.
pub open spec fn shader_block(d: SettingsDocument) -> Seq<char> {
    "shader = {\n  name = "@ + hcl_quoted(d.shader.name@) + "\n  target_fps = "@ + decimal(
        d.shader.target_fps as nat,
    ) + "\n  resolution = "@ + decimal(d.shader.resolution as nat) + "\n  mouse_enabled = "@
        + bool_text(d.shader.mouse_enabled) + "\n  desktop_scope = "@ + hcl_quoted(
        scope_name(d.shader.desktop_scope),
    ) + "\n  color_space = "@ + hcl_quoted(color_name(d.shader.color_space)) + "\n}\n\n"@
}

/// The `updater` block of a rendered document.
pub open spec fn updater_block(d: SettingsDocument) -> Seq<char> {
    "updater = {\n  enabled = "@ + bool_text(d.updater.enabled) + "\n  checkInterval = "@
        + hcl_quoted(d.updater.check_interval@) + "\n  feedUrl = "@ + hcl_quoted(
        d.updater.feed_url@,
    ) + "\n}\n\n"@
}

/// The top-level attributes that close a rendered document.
pub open spec fn tail_block(d: SettingsDocument) -> Seq<char> {
    "cache_dir = "@ + hcl_quoted(d.cache_dir@) + "\nstate_file = "@ + hcl_quoted(d.state_file@)
        + "\nlog_level = "@ + hcl_quoted(d.log_level@) + "\nmax_cache_mb = "@ + decimal(
        d.max_cache_mb as nat,
    ) + "\nmax_cache_age_days = "@ + decimal(d.max_cache_age_days as nat) + "\n"@
}

/// The canonical HCL text of a settings document.
pub open spec fn document_hcl(d: SettingsDocument) -> Seq<char> {
    "renderer = "@ + hcl_quoted(renderer_name(d.renderer)) + "\n\n"@ + image_block(d) + shader_block(
        d,
    ) + updater_block(d) + tail_block(d)
}

fn push_sources_block(out: &mut String, srcs: &Vec<SettingsSourceConfig>)
    ensures
        final(out)@ == old(out)@ + sources_block(settings_sources_view(srcs@)),
{
    proof {
        reveal_strlit(",\n");
    }
    let ghost start = out@;
    let ghost all = settings_sources_view(srcs@);
    let ghost items = Seq::new(all.len(), |i: int| source_hcl(all[i]));
    let mut i: usize = 0;
    while i < srcs.len()
        invariant
            i <= srcs.len(),
            all == settings_sources_view(srcs@),
            items == Seq::new(all.len(), |k: int| source_hcl(all[k])),
            out@ == start + join_with(items.subrange(0, i as int), ",\n"@),
        decreases srcs.len() - i,
    {
        let ghost sub = items.subrange(0, i + 1);
        assert(sub.drop_last() =~= items.subrange(0, i as int));
        if i > 0 {
            push_str(out, ",\n");
        } else {
            assert(join_with(items.subrange(0, 0), ",\n"@) =~= Seq::<char>::empty());
        }
        push_source_hcl(out, &srcs[i]);
        i += 1;
        assert(out@ =~= start + join_with(items.subrange(0, i as int), ",\n"@));
    }
    assert(items.subrange(0, srcs.len() as int) =~= items);
}

fn push_image_block(out: &mut String, d: &SettingsDocument)
    ensures
        final(out)@ == old(out)@ + image_block(*d),
{
    proof {
        reveal_strlit("image = {\n  timer = ");
        reveal_strlit("\n  remoteUpdateTimer = ");
        reveal_strlit("\n  sources = [\n");
        reveal_strlit("\n  ]\n  format = ");
        reveal_strlit("\n  jpeg_quality = ");
        reveal_strlit("\n}\n\n");
    }
    let ghost start = out@;
    push_str(out, "image = {\n  timer = ");
    push_hcl_string(out, d.image.timer.as_str());
    push_str(out, "\n  remoteUpdateTimer = ");
    push_hcl_string(out, d.image.remote_update_timer.as_str());
    push_str(out, "\n  sources = [\n");
    let mut joined = String::new();
    push_sources_block(&mut joined, &d.image.sources);
    assert(joined@ =~= sources_block(settings_sources_view(d.image.sources@)));
    let block = indent_block(joined.as_str(), 4);
    push_str(out, block.as_str());
    push_str(out, "\n  ]\n  format = ");
    push_hcl_string(out, d.image.format.extension());
    push_str(out, "\n  jpeg_quality = ");
    push_decimal(out, d.image.jpeg_quality as u64);
    push_str(out, "\n}\n\n");
    assert(out@ =~= start + image_block(*d));
}

fn scope_text(s: ShaderDesktopScope) -> (r: &'static str)
    ensures
        r@ == scope_name(s),
{
    proof {
        reveal_strlit("virtual");
        reveal_strlit("primary");
    }
    match s {
        ShaderDesktopScope::Virtual => "virtual",
        ShaderDesktopScope::Primary => "primary",
    }
}

fn color_text(c: ShaderColorSpace) -> (r: &'static str)
    ensures
        r@ == color_name(c),
{
    proof {
        reveal_strlit("unorm");
        reveal_strlit("srgb");
    }
    match c {
        ShaderColorSpace::Unorm => "unorm",
        ShaderColorSpace::Srgb => "srgb",
    }
}

fn push_shader_block(out: &mut String, d: &SettingsDocument)
    ensures
        final(out)@ == old(out)@ + shader_block(*d),
{
    proof {
        reveal_strlit("shader = {\n  name = ");
        reveal_strlit("\n  target_fps = ");
        reveal_strlit("\n  resolution = ");
        reveal_strlit("\n  mouse_enabled = ");
        reveal_strlit("\n  desktop_scope = ");
        reveal_strlit("\n  color_space = ");
        reveal_strlit("\n}\n\n");
    }
    let ghost start = out@;
    push_str(out, "shader = {\n  name = ");
    push_hcl_string(out, d.shader.name.as_str());
    push_str(out, "\n  target_fps = ");
    push_decimal(out, d.shader.target_fps as u64);
    push_str(out, "\n  resolution = ");
    push_decimal(out, d.shader.resolution as u64);
    push_str(out, "\n  mouse_enabled = ");
    push_bool(out, d.shader.mouse_enabled);
    push_str(out, "\n  desktop_scope = ");
    push_hcl_string(out, scope_text(d.shader.desktop_scope));
    push_str(out, "\n  color_space = ");
    push_hcl_string(out, color_text(d.shader.color_space));
    push_str(out, "\n}\n\n");
    assert(out@ =~= start + shader_block(*d));
}

fn push_updater_block(out: &mut String, d: &SettingsDocument)
    ensures
        final(out)@ == old(out)@ + updater_block(*d),
{
    proof {
        reveal_strlit("updater = {\n  enabled = ");
        reveal_strlit("\n  checkInterval = ");
        reveal_strlit("\n  feedUrl = ");
        reveal_strlit("\n}\n\n");
    }
    let ghost start = out@;
    push_str(out, "updater = {\n  enabled = ");
    push_bool(out, d.updater.enabled);
    push_str(out, "\n  checkInterval = ");
    push_hcl_string(out, d.updater.check_interval.as_str());
    push_str(out, "\n  feedUrl = ");
    push_hcl_string(out, d.updater.feed_url.as_str());
    push_str(out, "\n}\n\n");
    assert(out@ =~= start + updater_block(*d));
}

fn push_tail_block(out: &mut String, d: &SettingsDocument)
    ensures
        final(out)@ == old(out)@ + tail_block(*d),
{
    proof {
        reveal_strlit("cache_dir = ");
        reveal_strlit("\nstate_file = ");
        reveal_strlit("\nlog_level = ");
        reveal_strlit("\nmax_cache_mb = ");
        reveal_strlit("\nmax_cache_age_days = ");
        reveal_strlit("\n");
    }
    let ghost start = out@;
    push_str(out, "cache_dir = ");
    push_hcl_string(out, d.cache_dir.as_str());
    push_str(out, "\nstate_file = ");
    push_hcl_string(out, d.state_file.as_str());
    push_str(out, "\nlog_level = ");
    push_hcl_string(out, d.log_level.as_str());
    push_str(out, "\nmax_cache_mb = ");
    push_decimal(out, d.max_cache_mb);
    push_str(out, "\nmax_cache_age_days = ");
    push_decimal(out, d.max_cache_age_days);
    push_str(out, "\n");
    assert(out@ =~= start + tail_block(*d));
}

impl SettingsDocument {
    /// The canonical HCL text of this document.
    pub fn render_hcl(&self) -> (r: String)
        ensures
            r@ == document_hcl(*self),
    {
        proof {
            reveal_strlit("renderer = ");
            reveal_strlit("\n\n");
            reveal_strlit("image");
            reveal_strlit("shader");
        }
        let mut out = owned("renderer = ");
        let name = match self.renderer {
            RendererMode::Image => "image",
            RendererMode::Shader => "shader",
        };
        push_hcl_string(&mut out, name);
        push_str(&mut out, "\n\n");
        push_image_block(&mut out, self);
        push_shader_block(&mut out, self);
        push_updater_block(&mut out, self);
        push_tail_block(&mut out, self);
        out
    }
}

/// `key: issue` for every warning, joined by `; `.
pub open spec fn warnings_summary(ws: Seq<WarningView>) -> Seq<char> {
    join_with(Seq::new(ws.len(), |i: int| ws[i].key_path + ": "@ + ws[i].issue), "; "@)
}

/// Summarises warnings on one line (`format_settings_warnings`).
pub fn format_settings_warnings(warnings: &Vec<ConfigWarning>) -> (r: String)
    ensures
        r@ == warnings_summary(warnings_view(warnings@)),
{
    proof {
        reveal_strlit(": ");
        reveal_strlit("; ");
    }
    let ghost all = warnings_view(warnings@);
    let ghost items = Seq::new(all.len(), |i: int| all[i].key_path + ": "@ + all[i].issue);
    let mut out = String::new();
    let mut i: usize = 0;
    while i < warnings.len()
        invariant
            i <= warnings.len(),
            all == warnings_view(warnings@),
            items == Seq::new(all.len(), |k: int| all[k].key_path + ": "@ + all[k].issue),
            out@ == join_with(items.subrange(0, i as int), "; "@),
        decreases warnings.len() - i,
    {
        let ghost sub = items.subrange(0, i + 1);
        assert(sub.drop_last() =~= items.subrange(0, i as int));
        if i > 0 {
            push_str(&mut out, "; ");
        } else {
            assert(out@ =~= Seq::<char>::empty());
        }
        push_str(&mut out, warnings[i].key_path.as_str());
        push_str(&mut out, ": ");
        push_str(&mut out, warnings[i].issue.as_str());
        i += 1;
        assert(out@ =~= join_with(items.subrange(0, i as int), "; "@));
    }
    assert(items.subrange(0, warnings.len() as int) =~= items);
    out
}


/// The starter configuration up to the default source's path.
pub const DEFAULT_HCL_HEAD: &'static str = "# aura (Wallpaper Manager) configuration file\n\n# Runtime renderer mode: \"image\" | \"shader\"\nrenderer = \"image\"\n\n# Image mode options (used when renderer = \"image\")\nimage = {\n\t# Image sources. Multiple sources will be combined together to pick the next wallpaper from.\n\t# Supported source types: \"file\" | \"directory\" | \"rss\"\n\tsources = [\n        # RSS feed of ambient-tv images (~120 high-quality images)\n        # { type = \"rss\", url = \"https://mrrtt.me/atv\" }\n\n        # Your own directory of images\n        { type = \"directory\", path = \"";

/// The starter configuration after the default source's path.
pub const DEFAULT_HCL_TAIL: &'static str = "\" }\n    ]\n    timer = \"3h\"                     # \"40s\" | \"12m\" | \"3h\"\n\tremoteUpdateTimer = \"2h\"         # \"40s\" | \"12m\" | \"3h\"\n\tformat = \"jpg\"                   # \"jpg\" | \"png\"\n\tjpeg_quality = 90                # 1-100\n}\n\n# Shader mode options (used when renderer = \"shader\")\nshader = {\n\tname = \"gradient_glossy\"         # \"gradient_glossy\" | \"limestone_cave\" | \"dither_asci_1\" | \"dither_asci_2\" | \"dither_warp\" | \"silk\"\n\ttarget_fps = 50                  # 1-999\n\tresolution = 100                 # 1-100 (% internal shader render resolution; output stays full-screen)\n\tmouse_enabled = false            # false | true\n\tdesktop_scope = \"virtual\"        # \"virtual\" | \"primary\"\n\tcolor_space = \"unorm\"            # \"unorm\" | \"srgb\"\n}\n\n# App update settings\nupdater = {\n    enabled = true\n    checkInterval = \"6h\"\n    feedUrl = \"https://github.com/hmerritt/aura/releases/latest/download\"\n}\n";

/// How one path character is written in the starter configuration.
pub open spec fn path_char(c: char) -> Seq<char> {
    if c == '\\' {
        seq!['/']
    } else if c == '"' {
        seq!['\\', '"']
    } else {
        seq![c]
    }
}

/// A path written in the starter configuration: `\` becomes `/` and `"`
/// is escaped.
pub open spec fn hcl_path_text(s: Seq<char>) -> Seq<char>
    decreases s.len(),
{
    if s.len() == 0 {
        Seq::empty()
    } else {
        hcl_path_text(s.drop_last()) + path_char(s.last())
    }
}

/// Writes a path for the starter configuration (`hcl_path`).
pub fn hcl_path(p: &str) -> (r: String)
    ensures
        r@ == hcl_path_text(p@),
{
    let v = chars_of(p);
    let mut out = String::new();
    let mut i: usize = 0;
    while i < v.len()
        invariant
            i <= v.len(),
            v@ == p@,
            out@ == hcl_path_text(v@.subrange(0, i as int)),
        decreases v.len() - i,
    {
        let c = v[i];
        if c == '\\' {
            push_char(&mut out, '/');
        } else if c == '"' {
            push_char(&mut out, '\\');
            push_char(&mut out, '"');
        } else {
            push_char(&mut out, c);
        }
        i += 1;
        assert(v@.subrange(0, i as int).drop_last() =~= v@.subrange(0, i - 1));
        assert(out@ =~= hcl_path_text(v@.subrange(0, i as int)));
    }
    assert(v@.subrange(0, v.len() as int) =~= v@);
    out
}

/// The starter configuration whose directory source is `pictures_dir`.
pub open spec fn default_hcl_text(pictures_dir: Seq<char>) -> Seq<char> {
    DEFAULT_HCL_HEAD@ + hcl_path_text(pictures_dir) + DEFAULT_HCL_TAIL@
}

/// The commented starter configuration written on first run.
pub fn default_hcl(pictures_dir: &str) -> (r: String)
    ensures
        r@ == default_hcl_text(pictures_dir@),
{
    let mut out = owned(DEFAULT_HCL_HEAD);
    let p = hcl_path(pictures_dir);
    push_str(&mut out, p.as_str());
    push_str(&mut out, DEFAULT_HCL_TAIL);
    out
}


/// A copy of a list of warnings.
pub fn clone_warnings(ws: &Vec<ConfigWarning>) -> (r: Vec<ConfigWarning>)
    ensures
        warnings_view(r@) == warnings_view(ws@),
{
    let mut out: Vec<ConfigWarning> = Vec::new();
    let mut i: usize = 0;
    while i < ws.len()
        invariant
            i <= ws.len(),
            warnings_view(out@) == warnings_view(ws@.subrange(0, i as int)),
        decreases ws.len() - i,
    {
        let w = &ws[i];
        let c = crate::config::make_warning(
            w.key_path.clone(),
            w.issue.clone(),
            w.fallback.clone(),
            match &w.raw_value {
                Some(v) => Some(v.clone()),
                None => None,
            },
        );
        let ghost before = warnings_view(out@);
        out.push(c);
        assert(warnings_view(out@) =~= before.push(c@));
        assert(warnings_view(ws@.subrange(0, i + 1)) =~= warnings_view(ws@.subrange(0, i as int)).push(
            ws[i as int]@,
        ));
        i += 1;
    }
    assert(ws@.subrange(0, ws.len() as int) =~= ws@);
    out
}

/// The settings document of a loaded configuration, with the warnings its
/// reading gave.
pub fn load_settings_document(loaded: &ConfigWithWarnings) -> (r: SettingsLoadResult)
    ensures
        is_settings_of(r.document, loaded.config),
        warnings_view(r.warnings@) == warnings_view(loaded.warnings@),
{
    SettingsLoadResult {
        document: SettingsDocument::from_config(&loaded.config),
        warnings: clone_warnings(&loaded.warnings),
    }
}

/// The warnings a settings document gives, from the parsed form of its
/// rendering ([`SettingsDocument::render_hcl`]); `None` when its cache
/// limits cannot be held in bytes and seconds.
pub fn validate_settings_document(parsed: &HclNode, env: &LoadEnv) -> (r: Option<
    SettingsValidationResult,
>)
    ensures
        r is Some <==> limits_fit(*parsed),
        match r {
            Some(v) => warnings_view(v.warnings@) == config_warnings(*parsed, *env),
            None => true,
        },
{
    if !crate::config_load::config_limits_fit(parsed) {
        return None;
    }
    let loaded = crate::config_load::config_from_document(parsed, env);
    Some(SettingsValidationResult { warnings: loaded.warnings })
}

} // verus!

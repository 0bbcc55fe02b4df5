//! Reading a configuration out of a parsed document.

use vstd::prelude::*;
use crate::config::{
    default_feed_url, default_shader_config, default_shader_name, default_shader_view,
    key_path, make_warning, opt_strings_view, opt_view, push_warning, sources_view, take, take_bool,
    take_choice, take_or, take_section, take_str, take_uint, take_w, unknown_warnings, warn,
    warn_unknown_keys, warnings_view, AuraConfig, AuraView, ConfigWarning, ConfigWithWarnings,
    ImageConfig, ImageView, OutputFormat, RendererMode, ShaderColorSpace, ShaderConfig,
    ShaderDesktopScope, ShaderView, SourceConfig, SourceView, UpdaterConfig, UpdaterView,
    WarningView, DEFAULT_JPEG_QUALITY, DEFAULT_MAX_CACHE_AGE_DAYS, DEFAULT_MAX_CACHE_MB,
    DEFAULT_REMOTE_UPDATE_TIMER_SECS, DEFAULT_RSS_MAX_ITEMS, DEFAULT_SHADER_RESOLUTION_PERCENT,
    DEFAULT_SHADER_TARGET_FPS, DEFAULT_TIMER_SECS, DEFAULT_UPDATER_CHECK_INTERVAL_SECS,
    MIN_REMOTE_UPDATE_SECS, MIN_TIMER_SECS, MIN_UPDATER_CHECK_INTERVAL_SECS,
};
use crate::document::{
    collect_extras, dec_bool, dec_str, dec_strings, dec_uint, entries_of, extra_views, extras, extras_from, field, find_from,
    find_field, got_object, is_null, lenient, read_bool, read_str, read_strings, read_uint, ExtraKey, Got,
    HclEntry, HclNode, HclValue,
};
use crate::duration::{duration_parse, parse_duration_string};
use crate::paths::{join, path_join};
use crate::urls::{parts_view, UrlParts};
use crate::text::{
    decimal, lower_seq, owned, push_decimal, push_str, starts_with, str_eq, str_starts_with, trim,
};

verus! {

// ---------------------------------------------------------------------------
// Durations

/// A duration as written: a number of seconds or a duration string.
pub enum DurationInput {
    Seconds(u64),
    Text(Seq<char>),
}

/// A duration value: a non-negative integer or a string.
pub open spec fn dec_duration(n: HclNode) -> Option<DurationInput> {
    match n.value {
        HclValue::PosInt(v) => Some(DurationInput::Seconds(v)),
        HclValue::Str(s) => Some(DurationInput::Text(s@)),
        _ => None,
    }
}

/// `using default Ns`.
pub open spec fn using_default_secs(d: u64) -> Seq<char> {
    "using default "@ + decimal(d as nat) + "s"@
}

/// Seconds of a duration field, and its warnings: an unreadable value or an
/// invalid duration string falls back to `default`.
pub open spec fn duration_field(key: Seq<char>, n: Option<HclNode>, default: u64) -> (u64, Seq<
    WarningView,
>) {
    match lenient(
        n,
        match n {
            Some(x) => dec_duration(x),
            None => None,
        },
    ) {
        Got::Absent => (default, Seq::empty()),
        Got::Valid(DurationInput::Seconds(s)) => (s, Seq::empty()),
        Got::Valid(DurationInput::Text(t)) => match duration_parse(key, t) {
            Ok(s) => (s, Seq::empty()),
            Err(e) => (default, seq![warn(key, e, using_default_secs(default), None)]),
        },
        Got::Invalid(raw) => (
            default,
            seq![warn(key, "invalid duration value"@, using_default_secs(default), Some(raw))],
        ),
    }
}

/// A value below `min` is replaced by `default`, with a warning.
pub open spec fn at_least(key: Seq<char>, v: u64, min: u64, default: u64) -> (u64, Seq<
    WarningView,
>) {
    if v < min {
        (
            default,
            seq![
                warn(
                    key,
                    "must be at least "@ + decimal(min as nat) + " seconds"@,
                    using_default_secs(default),
                    None,
                ),
            ],
        )
    } else {
        (v, Seq::empty())
    }
}

fn using_default_secs_text(d: u64) -> (r: String)
    ensures
        r@ == using_default_secs(d),
{
    proof {
        reveal_strlit("using default ");
        reveal_strlit("s");
    }
    let mut s = owned("using default ");
    push_decimal(&mut s, d);
    push_str(&mut s, "s");
    s
}

/// Reads a duration field.
pub fn read_duration_field(
    key: &str,
    n: Option<&HclNode>,
    default: u64,
    ws: &mut Vec<ConfigWarning>,
) -> (r: u64)
    ensures
        r == duration_field(key@, crate::config::node_of(n), default).0,
        warnings_view(final(ws)@) == warnings_view(old(ws)@) + duration_field(
            key@,
            crate::config::node_of(n),
            default,
        ).1,
{
    proof {
        reveal_strlit("invalid duration value");
    }
    let ghost w0 = warnings_view(ws@);
    match n {
        None => {
            assert(warnings_view(ws@) =~= w0 + Seq::<WarningView>::empty());
            default
        },
        Some(x) => match &x.value {
            HclValue::Null => {
                assert(warnings_view(ws@) =~= w0 + Seq::<WarningView>::empty());
                default
            },
            HclValue::PosInt(v) => {
                assert(warnings_view(ws@) =~= w0 + Seq::<WarningView>::empty());
                *v
            },
            HclValue::Str(t) => match parse_duration_string(key, t.as_str()) {
                Ok(s) => {
                    assert(warnings_view(ws@) =~= w0 + Seq::<WarningView>::empty());
                    s
                },
                Err(e) => {
                    push_warning(ws, make_warning(owned(key), e, using_default_secs_text(default), None));
                    default
                },
            },
            _ => {
                push_warning(
                    ws,
                    make_warning(
                        owned(key),
                        owned("invalid duration value"),
                        using_default_secs_text(default),
                        Some(x.text.clone()),
                    ),
                );
                default
            },
        },
    }
}

/// Replaces a value below `min` by `default`, with a warning.
pub fn check_at_least(
    key: &str,
    v: u64,
    min: u64,
    default: u64,
    ws: &mut Vec<ConfigWarning>,
) -> (r: u64)
    ensures
        r == at_least(key@, v, min, default).0,
        warnings_view(final(ws)@) == warnings_view(old(ws)@) + at_least(key@, v, min, default).1,
{
    proof {
        reveal_strlit("must be at least ");
        reveal_strlit(" seconds");
    }
    if v < min {
        let mut issue = owned("must be at least ");
        push_decimal(&mut issue, min);
        push_str(&mut issue, " seconds");
        push_warning(ws, make_warning(owned(key), issue, using_default_secs_text(default), None));
        default
    } else {
        assert(warnings_view(ws@) =~= warnings_view(ws@) + Seq::<WarningView>::empty());
        v
    }
}


// ---------------------------------------------------------------------------
// Environment

/// What reading a configuration needs to know of the machine: where the
/// configuration lives, the per-user data directory, the directory proposed
/// for the default source, and which candidate paths are files and which are
/// directories.
pub struct LoadEnv {
    pub config_parent: String,
    pub data_local_dir: Option<String>,
    pub default_source_dir: String,
    pub files: Vec<String>,
    pub dirs: Vec<String>,
    pub sep: char,
}

/// Whether `p` is a known file.
pub open spec fn env_is_file(env: LoadEnv, p: Seq<char>) -> bool {
    env.files.deep_view().contains(p)
}

/// Whether `p` is a known directory.
pub open spec fn env_is_dir(env: LoadEnv, p: Seq<char>) -> bool {
    env.dirs.deep_view().contains(p)
}

fn list_contains(v: &Vec<String>, p: &String) -> (r: bool)
    ensures
        r == v.deep_view().contains(p@),
{
    let mut i: usize = 0;
    while i < v.len()
        invariant
            i <= v.len(),
            forall|k: int| 0 <= k < i ==> v.deep_view()[k] != p@,
        decreases v.len() - i,
    {
        if str_eq(v[i].as_str(), p.as_str()) {
            assert(v.deep_view()[i as int] == p@);
            return true;
        }
        i += 1;
    }
    false
}

/// `path` resolved against the configuration's directory.
pub open spec fn resolve(env: LoadEnv, path: Seq<char>) -> Seq<char> {
    join(env.config_parent@, path, env.sep)
}

// ---------------------------------------------------------------------------
// Sources

/// A source entry as written, before its paths are checked.
pub enum RawSource {
    File { path: Seq<char>, extra: Seq<(Seq<char>, Seq<char>)> },
    Directory {
        path: Seq<char>,
        recursive: bool,
        extensions: Option<Seq<Seq<char>>>,
        extra: Seq<(Seq<char>, Seq<char>)>,
    },
    Rss {
        url: Seq<char>,
        max_items: Option<usize>,
        download_dir: Option<Seq<char>>,
        extra: Seq<(Seq<char>, Seq<char>)>,
    },
}

/// The executable form of [`RawSource`].
pub enum RawSourceExec {
    File { path: String, extra: Vec<ExtraKey> },
    Directory {
        path: String,
        recursive: bool,
        extensions: Option<Vec<String>>,
        extra: Vec<ExtraKey>,
    },
    Rss {
        url: String,
        max_items: Option<usize>,
        download_dir: Option<String>,
        extra: Vec<ExtraKey>,
    },
}

impl View for RawSourceExec {
    type V = RawSource;

    open spec fn view(&self) -> RawSource {
        match self {
            RawSourceExec::File { path, extra } => RawSource::File {
                path: path@,
                extra: extra_views(extra@),
            },
            RawSourceExec::Directory { path, recursive, extensions, extra } => RawSource::Directory {
                path: path@,
                recursive: *recursive,
                extensions: opt_strings_view(*extensions),
                extra: extra_views(extra@),
            },
            RawSourceExec::Rss { url, max_items, download_dir, extra } => RawSource::Rss {
                url: url@,
                max_items: *max_items,
                download_dir: opt_view(*download_dir),
                extra: extra_views(extra@),
            },
        }
    }
}

/// The variant a source's `type` attribute names: its name, or its index.
pub open spec fn source_tag(es: Seq<HclEntry>) -> Option<nat> {
    match field(es, "type"@) {
        Some(t) => match t.value {
            HclValue::Str(s) => if s@ == "file"@ {
                Some(0)
            } else if s@ == "directory"@ {
                Some(1)
            } else if s@ == "rss"@ {
                Some(2)
            } else {
                None
            },
            HclValue::PosInt(v) => if v < 3 {
                Some(v as nat)
            } else {
                None
            },
            _ => None,
        },
        None => None,
    }
}

/// An optional attribute: `Some(None)` when missing or null, `Some(Some(v))`
/// when `d` reads it, `None` (a refusal) otherwise.
pub open spec fn opt_attr<T>(n: Option<HclNode>, d: Option<T>) -> Option<Option<T>> {
    match n {
        None => Some(None),
        Some(x) => if x.value is Null {
            Some(None)
        } else {
            match d {
                Some(v) => Some(Some(v)),
                None => None,
            }
        },
    }
}

/// A required string attribute.
pub open spec fn req_str(n: Option<HclNode>) -> Option<Seq<char>> {
    match n {
        Some(x) => dec_str(x),
        None => None,
    }
}

/// Attributes of a source variant other than the tag.
pub open spec fn file_keys() -> Seq<Seq<char>> {
    seq!["type"@, "path"@]
}

/// Attributes of a directory source.
pub open spec fn directory_keys() -> Seq<Seq<char>> {
    seq!["type"@, "path"@, "recursive"@, "extensions"@]
}

/// Attributes of an RSS source.
pub open spec fn rss_keys() -> Seq<Seq<char>> {
    seq!["type"@, "url"@, "max_items"@, "download_dir"@]
}

/// A source entry as written, when it is one.
pub open spec fn decode_source(n: HclNode) -> Option<RawSource> {
    match n.value {
        HclValue::Object(es) => {
            let es = es@;
            let tag = source_tag(es);
            if tag == Some(0nat) {
                match req_str(field(es, "path"@)) {
                    Some(p) => Some(RawSource::File { path: p, extra: extras(es, file_keys()) }),
                    None => None,
                }
            } else if tag == Some(1nat) {
                    let p = req_str(field(es, "path"@));
                    let rec = match field(es, "recursive"@) {
                        None => Some(true),
                        Some(x) => dec_bool(x),
                    };
                    let ext = opt_attr(
                        field(es, "extensions"@),
                        match field(es, "extensions"@) {
                            Some(x) => dec_strings(x),
                            None => None,
                        },
                    );
                    if p is Some && rec is Some && ext is Some {
                        Some(
                            RawSource::Directory {
                                path: p.unwrap(),
                                recursive: rec.unwrap(),
                                extensions: ext.unwrap(),
                                extra: extras(es, directory_keys()),
                            },
                        )
                    } else {
                        None
                    }
            } else if tag == Some(2nat) {
                    let u = req_str(field(es, "url"@));
                    let m = opt_attr(
                        field(es, "max_items"@),
                        match field(es, "max_items"@) {
                            Some(x) => match dec_uint(x, usize::MAX as u64) {
                                Some(v) => Some(v as usize),
                                None => None,
                            },
                            None => None,
                        },
                    );
                    let d = opt_attr(
                        field(es, "download_dir"@),
                        match field(es, "download_dir"@) {
                            Some(x) => dec_str(x),
                            None => None,
                        },
                    );
                    if u is Some && m is Some && d is Some {
                        Some(
                            RawSource::Rss {
                                url: u.unwrap(),
                                max_items: m.unwrap(),
                                download_dir: d.unwrap(),
                                extra: extras(es, rss_keys()),
                            },
                        )
                    } else {
                        None
                    }
            } else {
                None
            }
        },
        _ => None,
    }
}

fn key_list(keys: &[&str]) -> (r: Vec<String>)
    ensures
        r.deep_view() == Seq::new(keys@.len(), |i: int| keys@[i]@),
{
    let mut out: Vec<String> = Vec::new();
    let mut i: usize = 0;
    while i < keys.len()
        invariant
            i <= keys.len(),
            out.deep_view() == Seq::new(i as nat, |k: int| keys@[k]@),
        decreases keys.len() - i,
    {
        let ghost prev = out.deep_view();
        let s = owned(keys[i]);
        assert(s@ == keys@[i as int]@);
        out.push(s);
        assert(out.deep_view() =~= prev.push(s@));
        i += 1;
        assert(out.deep_view() =~= Seq::new(i as nat, |k: int| keys@[k]@));
    }
    out
}

fn read_tag(es: &Vec<HclEntry>) -> (r: Option<u8>)
    ensures
        match r {
            Some(t) => source_tag(es@) == Some(t as nat),
            None => source_tag(es@) is None,
        },
{
    proof {
        reveal_strlit("type");
        reveal_strlit("file");
        reveal_strlit("directory");
        reveal_strlit("rss");
    }
    match find_field(es, "type") {
        Some(t) => match &t.value {
            HclValue::Str(s) => if str_eq(s.as_str(), "file") {
                Some(0)
            } else if str_eq(s.as_str(), "directory") {
                Some(1)
            } else if str_eq(s.as_str(), "rss") {
                Some(2)
            } else {
                None
            },
            HclValue::PosInt(v) => if *v < 3 {
                Some(*v as u8)
            } else {
                None
            },
            _ => None,
        },
        None => None,
    }
}

/// Reads one source entry.
pub fn read_source(n: &HclNode) -> (r: Option<RawSourceExec>)
    ensures
        match r {
            Some(s) => decode_source(*n) == Some(s@),
            None => decode_source(*n) is None,
        },
{
    proof {
        reveal_strlit("type");
        reveal_strlit("path");
        reveal_strlit("recursive");
        reveal_strlit("extensions");
        reveal_strlit("url");
        reveal_strlit("max_items");
        reveal_strlit("download_dir");
    }
    let es = match &n.value {
        HclValue::Object(es) => es,
        _ => {
            return None;
        },
    };
    let tag = match read_tag(es) {
        Some(t) => t,
        None => {
            return None;
        },
    };
    if tag == 0 {
        let path = match find_field(es, "path") {
            Some(x) => match read_str(x) {
                Some(p) => p,
                None => {
                    return None;
                },
            },
            None => {
                return None;
            },
        };
        let known = key_list(&["type", "path"]);
        assert(known.deep_view() =~= file_keys());
        let extra = collect_extras(es, &known);
        Some(RawSourceExec::File { path, extra })
    } else if tag == 1 {
        let path = match find_field(es, "path") {
            Some(x) => match read_str(x) {
                Some(p) => p,
                None => {
                    return None;
                },
            },
            None => {
                return None;
            },
        };
        let recursive = match find_field(es, "recursive") {
            None => true,
            Some(x) => match read_bool(x) {
                Some(b) => b,
                None => {
                    return None;
                },
            },
        };
        let extensions = match find_field(es, "extensions") {
            None => None,
            Some(x) => if is_null(x) {
                None
            } else {
                match read_strings(x) {
                    Some(v) => Some(v),
                    None => {
                        return None;
                    },
                }
            },
        };
        let known = key_list(&["type", "path", "recursive", "extensions"]);
        assert(known.deep_view() =~= directory_keys());
        let extra = collect_extras(es, &known);
        Some(RawSourceExec::Directory { path, recursive, extensions, extra })
    } else {
        let url = match find_field(es, "url") {
            Some(x) => match read_str(x) {
                Some(p) => p,
                None => {
                    return None;
                },
            },
            None => {
                return None;
            },
        };
        let max_items = match find_field(es, "max_items") {
            None => None,
            Some(x) => if is_null(x) {
                None
            } else {
                match read_uint(x, usize::MAX as u64) {
                    Some(v) => Some(v as usize),
                    None => {
                        return None;
                    },
                }
            },
        };
        let download_dir = match find_field(es, "download_dir") {
            None => None,
            Some(x) => if is_null(x) {
                None
            } else {
                match read_str(x) {
                    Some(v) => Some(v),
                    None => {
                        return None;
                    },
                }
            },
        };
        let known = key_list(&["type", "url", "max_items", "download_dir"]);
        assert(known.deep_view() =~= rss_keys());
        let extra = collect_extras(es, &known);
        Some(RawSourceExec::Rss { url, max_items, download_dir, extra })
    }
}


// ---------------------------------------------------------------------------
// Validating sources

/// `s` without its leading dots (`trim_start_matches('.')`).
pub open spec fn strip_dots(s: Seq<char>) -> Seq<char>
    decreases s.len(),
{
    if s.len() > 0 && s[0] == '.' {
        strip_dots(s.drop_first())
    } else {
        s
    }
}

/// An extension as a directory source keeps it: trimmed, without leading
/// dots, ASCII lower-case.
pub open spec fn norm_ext(x: Seq<char>) -> Seq<char> {
    lower_seq(strip_dots(trim(x)))
}

/// Normalised extensions, dropping those that end up empty.
pub open spec fn norm_exts(l: Seq<Seq<char>>) -> Seq<Seq<char>>
    decreases l.len(),
{
    if l.len() == 0 {
        Seq::empty()
    } else {
        let rest = norm_exts(l.drop_last());
        let e = norm_ext(l.last());
        if e.len() > 0 {
            rest.push(e)
        } else {
            rest
        }
    }
}

/// Normalises one extension.
pub fn normalize_extension(x: &str) -> (r: String)
    ensures
        r@ == norm_ext(x@),
{
    let t = crate::text::trimmed(x);
    let v = crate::text::chars_of(t.as_str());
    let mut i: usize = 0;
    assert(v@.subrange(0, v.len() as int) == v@);
    while i < v.len() && v[i] == '.'
        invariant
            i <= v.len(),
            strip_dots(v@) == strip_dots(v@.subrange(i as int, v.len() as int)),
        decreases v.len() - i,
    {
        let ghost rest = v@.subrange(i as int, v.len() as int);
        assert(rest.drop_first() == v@.subrange(i + 1, v.len() as int));
        i += 1;
    }
    let ghost rest = v@.subrange(i as int, v.len() as int);
    assert(strip_dots(rest) == rest);
    let stripped = crate::text::string_of_range(&v, i, v.len());
    crate::text::ascii_lowercase(stripped.as_str())
}

/// Normalises a list of extensions, dropping empty results.
pub fn normalize_extensions(l: &Vec<String>) -> (r: Vec<String>)
    ensures
        r.deep_view() == norm_exts(l.deep_view()),
{
    let mut out: Vec<String> = Vec::new();
    let mut i: usize = 0;
    while i < l.len()
        invariant
            i <= l.len(),
            out.deep_view() == norm_exts(l.deep_view().subrange(0, i as int)),
        decreases l.len() - i,
    {
        let e = normalize_extension(l[i].as_str());
        let ghost pre = l.deep_view().subrange(0, i as int);
        let ghost cur = l.deep_view().subrange(0, i + 1);
        assert(cur.drop_last() == pre);
        assert(cur.last() == l[i as int]@);
        if e.unicode_len() > 0 {
            let ghost before = out.deep_view();
            out.push(e);
            assert(out.deep_view() =~= before.push(e@));
        }
        i += 1;
    }
    assert(l.deep_view().subrange(0, l.len() as int) == l.deep_view());
    out
}

/// A source with its paths resolved and checked, or why it is dropped.
pub open spec fn validate(src: RawSource, env: LoadEnv) -> Result<SourceView, Seq<char>> {
    match src {
        RawSource::File { path, .. } => {
            let p = resolve(env, path);
            if env_is_file(env, p) {
                Ok(SourceView::File { path: p })
            } else {
                Err("file source does not exist or is not a file: "@ + p)
            }
        },
        RawSource::Directory { path, recursive, extensions, .. } => {
            let p = resolve(env, path);
            if env_is_dir(env, p) {
                Ok(
                    SourceView::Directory {
                        path: p,
                        recursive,
                        extensions: match extensions {
                            Some(l) => Some(norm_exts(l)),
                            None => None,
                        },
                    },
                )
            } else {
                Err("directory source does not exist or is not a directory: "@ + p)
            }
        },
        RawSource::Rss { url, max_items, download_dir, .. } => {
            if !(starts_with(url, "http://"@) || starts_with(url, "https://"@)) {
                Err("rss url must start with http:// or https://: "@ + url)
            } else {
                Ok(
                    SourceView::Rss {
                        url,
                        max_items: match max_items {
                            Some(m) => m,
                            None => 1000,
                        },
                        download_dir: match download_dir {
                            Some(d) => Some(resolve(env, d)),
                            None => None,
                        },
                    },
                )
            }
        },
    }
}

fn message(head: &str, tail: &str) -> (r: String)
    ensures
        r@ == head@ + tail@,
{
    let mut s = owned(head);
    push_str(&mut s, tail);
    s
}

/// Resolves and checks one source entry.
pub fn validate_source(src: &RawSourceExec, env: &LoadEnv) -> (r: Result<SourceConfig, String>)
    ensures
        match r {
            Ok(s) => validate(src@, *env) == Ok::<SourceView, Seq<char>>(s@),
            Err(e) => validate(src@, *env) == Err::<SourceView, Seq<char>>(e@),
        },
{
    proof {
        reveal_strlit("file source does not exist or is not a file: ");
        reveal_strlit("directory source does not exist or is not a directory: ");
        reveal_strlit("rss url must start with http:// or https://: ");
        reveal_strlit("http://");
        reveal_strlit("https://");
    }
    match src {
        RawSourceExec::File { path, .. } => {
            let p = path_join(env.config_parent.as_str(), path.as_str(), env.sep);
            if list_contains(&env.files, &p) {
                Ok(SourceConfig::File { path: p })
            } else {
                Err(message("file source does not exist or is not a file: ", p.as_str()))
            }
        },
        RawSourceExec::Directory { path, recursive, extensions, .. } => {
            let p = path_join(env.config_parent.as_str(), path.as_str(), env.sep);
            if list_contains(&env.dirs, &p) {
                let exts = match extensions {
                    Some(l) => Some(normalize_extensions(l)),
                    None => None,
                };
                Ok(SourceConfig::Directory { path: p, recursive: *recursive, extensions: exts })
            } else {
                Err(
                    message(
                        "directory source does not exist or is not a directory: ",
                        p.as_str(),
                    ),
                )
            }
        },
        RawSourceExec::Rss { url, max_items, download_dir, .. } => {
            if !(str_starts_with(url.as_str(), "http://") || str_starts_with(
                url.as_str(),
                "https://",
            )) {
                return Err(message("rss url must start with http:// or https://: ", url.as_str()));
            }
            let m = match max_items {
                Some(m) => *m,
                None => DEFAULT_RSS_MAX_ITEMS,
            };
            let d = match download_dir {
                Some(d) => Some(path_join(env.config_parent.as_str(), d.as_str(), env.sep)),
                None => None,
            };
            Ok(SourceConfig::Rss { url: url.clone(), max_items: m, download_dir: d })
        },
    }
}

/// The unknown attributes of a source entry.
pub open spec fn raw_extra(src: RawSource) -> Seq<(Seq<char>, Seq<char>)> {
    match src {
        RawSource::File { extra, .. } => extra,
        RawSource::Directory { extra, .. } => extra,
        RawSource::Rss { extra, .. } => extra,
    }
}

/// `image.sources[i]`.
pub open spec fn source_key(i: nat) -> Seq<char> {
    "image.sources["@ + decimal(i) + "]"@
}

/// Sources kept from the first `n` entries of a source list, with warnings.
pub open spec fn sources_upto(items: Seq<HclNode>, n: int, env: LoadEnv) -> (Seq<SourceView>, Seq<
    WarningView,
>)
    decreases n,
{
    if n <= 0 {
        (Seq::empty(), Seq::empty())
    } else {
        let (s, w) = sources_upto(items, n - 1, env);
        let i = n - 1;
        let key = source_key(i as nat);
        match decode_source(items[i]) {
            None => (
                s,
                w.push(warn(key, "invalid value"@, "dropping source entry"@, Some(items[i].text@))),
            ),
            Some(src) => {
                let wu = unknown_warnings(key, raw_extra(src));
                match validate(src, env) {
                    Ok(v) => (s.push(v), w + wu),
                    Err(e) => (s, w + wu.push(warn(key, e, "dropping source entry"@, None))),
                }
            },
        }
    }
}

fn source_key_text(i: usize) -> (r: String)
    ensures
        r@ == source_key(i as nat),
{
    proof {
        reveal_strlit("image.sources[");
        reveal_strlit("]");
    }
    let mut s = owned("image.sources[");
    push_decimal(&mut s, i as u64);
    push_str(&mut s, "]");
    s
}

/// Reads a source list, dropping (with a warning) each entry that cannot be
/// read or whose path does not exist.
pub fn read_sources(items: &Vec<HclNode>, env: &LoadEnv, ws: &mut Vec<ConfigWarning>) -> (r: Vec<
    SourceConfig,
>)
    ensures
        sources_view(r@) == sources_upto(items@, items@.len() as int, *env).0,
        warnings_view(final(ws)@) == warnings_view(old(ws)@) + sources_upto(
            items@,
            items@.len() as int,
            *env,
        ).1,
{
    proof {
        reveal_strlit("invalid value");
        reveal_strlit("dropping source entry");
    }
    let ghost w0 = warnings_view(ws@);
    let mut out: Vec<SourceConfig> = Vec::new();
    let mut i: usize = 0;
    while i < items.len()
        invariant
            i <= items.len(),
            sources_view(out@) == sources_upto(items@, i as int, *env).0,
            warnings_view(ws@) == w0 + sources_upto(items@, i as int, *env).1,
        decreases items.len() - i,
    {
        let key = source_key_text(i);
        let ghost wbefore = warnings_view(ws@);
        match read_source(&items[i]) {
            None => {
                push_warning(
                    ws,
                    make_warning(
                        key,
                        owned("invalid value"),
                        owned("dropping source entry"),
                        Some(items[i].text.clone()),
                    ),
                );
            },
            Some(src) => {
                let extra = match &src {
                    RawSourceExec::File { extra, .. } => extra,
                    RawSourceExec::Directory { extra, .. } => extra,
                    RawSourceExec::Rss { extra, .. } => extra,
                };
                warn_unknown_keys(key.as_str(), extra, ws);
                match validate_source(&src, env) {
                    Ok(v) => {
                        let ghost before = sources_view(out@);
                        out.push(v);
                        assert(sources_view(out@) =~= before.push(v@));
                    },
                    Err(e) => {
                        push_warning(
                            ws,
                            make_warning(key, e, owned("dropping source entry"), None),
                        );
                    },
                }
            },
        }
        i += 1;
        assert(warnings_view(ws@) =~= w0 + sources_upto(items@, i as int, *env).1);
    }
    out
}

/// The extensions a default source accepts.
pub open spec fn default_exts() -> Seq<Seq<char>> {
    seq!["jpg"@, "jpeg"@, "png"@, "webp"@, "bmp"@, "gif"@]
}

/// The sources used when none are configured: the proposed default
/// directory when it exists, else the configuration's own directory.
pub open spec fn default_sources(env: LoadEnv) -> (Seq<SourceView>, Seq<WarningView>) {
    let p = resolve(env, env.default_source_dir@);
    if env_is_dir(env, p) {
        (
            seq![SourceView::Directory { path: p, recursive: true, extensions: Some(norm_exts(default_exts())) }],
            Seq::empty(),
        )
    } else {
        (
            seq![
                SourceView::Directory {
                    path: env.config_parent@,
                    recursive: true,
                    extensions: Some(default_exts()),
                },
            ],
            seq![
                warn(
                    "image.sources"@,
                    "directory source does not exist or is not a directory: "@ + p,
                    "dropping source entry"@,
                    None,
                ),
            ],
        )
    }
}

fn default_ext_list() -> (r: Vec<String>)
    ensures
        r.deep_view() == default_exts(),
{
    let l = key_list(&["jpg", "jpeg", "png", "webp", "bmp", "gif"]);
    proof {
        reveal_strlit("jpg");
        reveal_strlit("jpeg");
        reveal_strlit("png");
        reveal_strlit("webp");
        reveal_strlit("bmp");
        reveal_strlit("gif");
    }
    assert(l.deep_view() =~= default_exts());
    l
}

/// Builds the default sources.
pub fn read_default_sources(env: &LoadEnv, ws: &mut Vec<ConfigWarning>) -> (r: Vec<SourceConfig>)
    ensures
        sources_view(r@) == default_sources(*env).0,
        warnings_view(final(ws)@) == warnings_view(old(ws)@) + default_sources(*env).1,
{
    proof {
        reveal_strlit("image.sources");
        reveal_strlit("dropping source entry");
    }
    let raw = RawSourceExec::Directory {
        path: env.default_source_dir.clone(),
        recursive: true,
        extensions: Some(default_ext_list()),
        extra: Vec::new(),
    };
    let mut out: Vec<SourceConfig> = Vec::new();
    match validate_source(&raw, env) {
        Ok(v) => {
            out.push(v);
            assert(sources_view(out@) =~= default_sources(*env).0);
            assert(warnings_view(ws@) =~= warnings_view(ws@) + Seq::<WarningView>::empty());
        },
        Err(e) => {
            push_warning(
                ws,
                make_warning(owned("image.sources"), e, owned("dropping source entry"), None),
            );
            let fallback = SourceConfig::Directory {
                path: env.config_parent.clone(),
                recursive: true,
                extensions: Some(default_ext_list()),
            };
            out.push(fallback);
            assert(sources_view(out@) =~= default_sources(*env).0);
        },
    }
    out
}


// ---------------------------------------------------------------------------
// Sections

/// A lenient non-negative integer of at most `max`.
pub open spec fn got_uint(n: Option<HclNode>, max: u64) -> Got<u64> {
    lenient(
        n,
        match n {
            Some(x) => dec_uint(x, max),
            None => None,
        },
    )
}

/// A lenient boolean.
pub open spec fn got_bool(n: Option<HclNode>) -> Got<bool> {
    lenient(
        n,
        match n {
            Some(x) => dec_bool(x),
            None => None,
        },
    )
}

/// A lenient string.
pub open spec fn got_str(n: Option<HclNode>) -> Got<Seq<char>> {
    lenient(
        n,
        match n {
            Some(x) => dec_str(x),
            None => None,
        },
    )
}

/// A lenient two-variant choice.
pub open spec fn got_choice(n: Option<HclNode>, a: Seq<char>, b: Seq<char>) -> Got<nat> {
    lenient(
        n,
        match n {
            Some(x) => crate::document::dec_choice(x, a, b),
            None => None,
        },
    )
}

/// A lenient array.
pub open spec fn got_array(n: Option<HclNode>) -> Got<Seq<HclNode>> {
    lenient(
        n,
        match n {
            Some(x) => match x.value {
                HclValue::Array(items) => Some(items@),
                _ => None,
            },
            None => None,
        },
    )
}

/// Attributes of the `image` section.
pub open spec fn image_keys() -> Seq<Seq<char>> {
    seq!["timer"@, "remoteUpdateTimer"@, "sources"@, "format"@, "jpeg_quality"@]
}

/// A value outside `[1, max]` is replaced by `default`, with a warning.
pub open spec fn in_range(key: Seq<char>, v: u64, max: u64, default: u64) -> (u64, Seq<WarningView>) {
    if v == 0 || v > max {
        (
            default,
            seq![
                warn(
                    key,
                    "must be between 1 and "@ + decimal(max as nat) + ", got "@ + decimal(v as nat),
                    "using default "@ + decimal(default as nat),
                    None,
                ),
            ],
        )
    } else {
        (v, Seq::empty())
    }
}

/// The source list of the `image` section, with the warnings it gives.
#[verifier::opaque]
pub open spec fn image_sources(es: Seq<HclEntry>, env: LoadEnv) -> (Seq<SourceView>, Seq<WarningView>) {
    let g = got_array(field(es, "sources"@));
    let (so, w1) = take("image.sources"@, g, "using default source list"@);
    let (s1, w2) = match so {
        Some(items) => sources_upto(items, items.len() as int, env),
        None => default_sources(env),
    };
    if s1.len() == 0 {
        (
            default_sources(env).0,
            w1 + w2 + seq![
                warn("image.sources"@, "no valid sources found"@, "using default source list"@, None),
            ] + default_sources(env).1,
        )
    } else {
        (s1, w1 + w2)
    }
}

/// Switch interval of the `image` section.
pub open spec fn image_timer(es: Seq<HclEntry>) -> u64 {
    at_least(
        "image.timer"@,
        duration_field("image.timer"@, field(es, "timer"@), 300).0,
        5,
        300,
    ).0
}

/// Remote refresh interval of the `image` section.
pub open spec fn image_remote(es: Seq<HclEntry>) -> u64 {
    at_least(
        "image.remoteUpdateTimer"@,
        duration_field("image.remoteUpdateTimer"@, field(es, "remoteUpdateTimer"@), 3600).0,
        30,
        3600,
    ).0
}

/// JPEG quality as given (before the range check).
pub open spec fn image_quality_raw(es: Seq<HclEntry>) -> u64 {
    take_or(
        "image.jpeg_quality"@,
        got_uint(field(es, "jpeg_quality"@), 255),
        "using default jpeg quality"@,
        90,
    )
}

/// Output format index of the `image` section.
pub open spec fn image_format_index(es: Seq<HclEntry>) -> nat {
    take_or("image.format"@, got_choice(field(es, "format"@), "jpg"@, "png"@), "using default image format"@, 0)
}

/// The `image` section.
#[verifier::opaque]
pub open spec fn image_section(es: Seq<HclEntry>, env: LoadEnv) -> ImageView {
    ImageView {
        timer: image_timer(es),
        remote_update_timer: image_remote(es),
        sources: image_sources(es, env).0,
        format: if image_format_index(es) == 0 {
            OutputFormat::Jpg
        } else {
            OutputFormat::Png
        },
        jpeg_quality: in_range("image.jpeg_quality"@, image_quality_raw(es), 100, 90).0 as u8,
    }
}

/// `pre` followed by the warnings of the `image` section, in order.
#[verifier::opaque]
pub open spec fn image_warnings(pre: Seq<WarningView>, es: Seq<HclEntry>, env: LoadEnv) -> Seq<
    WarningView,
> {
    let t0 = duration_field("image.timer"@, field(es, "timer"@), 300);
    let r0 = duration_field("image.remoteUpdateTimer"@, field(es, "remoteUpdateTimer"@), 3600);
    pre + unknown_warnings("image"@, extras(es, image_keys())) + t0.1 + at_least(
        "image.timer"@,
        t0.0,
        5,
        300,
    ).1 + r0.1 + at_least("image.remoteUpdateTimer"@, r0.0, 30, 3600).1 + take_w(
        "image.jpeg_quality"@,
        got_uint(field(es, "jpeg_quality"@), 255),
        "using default jpeg quality"@,
    ) + in_range("image.jpeg_quality"@, image_quality_raw(es), 100, 90).1 + image_sources(
        es,
        env,
    ).1 + take_w(
        "image.format"@,
        got_choice(field(es, "format"@), "jpg"@, "png"@),
        "using default image format"@,
    )
}

/// Replaces a value outside `[1, max]` by `default`, with a warning.
fn check_in_range(key: &str, v: u64, max: u64, default: u64, ws: &mut Vec<ConfigWarning>) -> (r: u64)
    ensures
        r == in_range(key@, v, max, default).0,
        warnings_view(final(ws)@) == warnings_view(old(ws)@) + in_range(key@, v, max, default).1,
{
    proof {
        reveal_strlit("must be between 1 and ");
        reveal_strlit(", got ");
        reveal_strlit("using default ");
    }
    if v == 0 || v > max {
        let mut issue = owned("must be between 1 and ");
        push_decimal(&mut issue, max);
        push_str(&mut issue, ", got ");
        push_decimal(&mut issue, v);
        let mut fb = owned("using default ");
        push_decimal(&mut fb, default);
        push_warning(ws, make_warning(owned(key), issue, fb, None));
        default
    } else {
        assert(warnings_view(ws@) =~= warnings_view(ws@) + Seq::<WarningView>::empty());
        v
    }
}

fn read_image_sources(es: &Vec<HclEntry>, env: &LoadEnv, ws: &mut Vec<ConfigWarning>) -> (r: Vec<
    SourceConfig,
>)
    ensures
        sources_view(r@) == image_sources(es@, *env).0,
        warnings_view(final(ws)@) == warnings_view(old(ws)@) + image_sources(es@, *env).1,
{
    proof {
        reveal(image_sources);
        reveal_strlit("sources");
        reveal_strlit("image.sources");
        reveal_strlit("invalid value");
        reveal_strlit("using default source list");
        reveal_strlit("no valid sources found");
    }
    let ghost w0 = warnings_view(ws@);
    let n = find_field(es, "sources");
    let items: Option<&Vec<HclNode>> = match n {
        None => None,
        Some(x) => match &x.value {
            HclValue::Null => None,
            HclValue::Array(items) => Some(items),
            _ => {
                push_warning(
                    ws,
                    make_warning(
                        owned("image.sources"),
                        owned("invalid value"),
                        owned("using default source list"),
                        Some(x.text.clone()),
                    ),
                );
                None
            },
        },
    };
    let ghost w1 = warnings_view(ws@);
    assert(w1 =~= w0 + take_w("image.sources"@, got_array(field(es@, "sources"@)), "using default source list"@));
    let sources = match items {
        Some(items) => read_sources(items, env, ws),
        None => read_default_sources(env, ws),
    };
    if sources.len() == 0 {
        push_warning(
            ws,
            make_warning(
                owned("image.sources"),
                owned("no valid sources found"),
                owned("using default source list"),
                None,
            ),
        );
        let d = read_default_sources(env, ws);
        assert(warnings_view(ws@) =~= w0 + image_sources(es@, *env).1);
        d
    } else {
        assert(warnings_view(ws@) =~= w0 + image_sources(es@, *env).1);
        sources
    }
}

/// Reads the `image` section (absent entries give the defaults).
pub fn read_image_section(es: &Vec<HclEntry>, env: &LoadEnv, ws: &mut Vec<ConfigWarning>) -> (r:
    ImageConfig)
    ensures
        r@ == image_section(es@, *env),
        warnings_view(final(ws)@) == image_warnings(warnings_view(old(ws)@), es@, *env),
{
    proof {
        reveal(image_section);
        reveal(image_warnings);
        reveal_strlit("image");
        reveal_strlit("timer");
        reveal_strlit("remoteUpdateTimer");
        reveal_strlit("sources");
        reveal_strlit("format");
        reveal_strlit("jpeg_quality");
        reveal_strlit("image.timer");
        reveal_strlit("image.remoteUpdateTimer");
        reveal_strlit("image.jpeg_quality");
        reveal_strlit("using default jpeg quality");
        reveal_strlit("image.format");
        reveal_strlit("using default image format");
        reveal_strlit("jpg");
        reveal_strlit("png");
    }
    let ghost w0 = warnings_view(ws@);
    let known = key_list(&["timer", "remoteUpdateTimer", "sources", "format", "jpeg_quality"]);
    assert(known.deep_view() =~= image_keys());
    let extra = collect_extras(es, &known);
    warn_unknown_keys("image", &extra, ws);
    let t0 = read_duration_field("image.timer", find_field(es, "timer"), DEFAULT_TIMER_SECS, ws);
    let t = check_at_least("image.timer", t0, MIN_TIMER_SECS, DEFAULT_TIMER_SECS, ws);
    let r0 = read_duration_field(
        "image.remoteUpdateTimer",
        find_field(es, "remoteUpdateTimer"),
        DEFAULT_REMOTE_UPDATE_TIMER_SECS,
        ws,
    );
    let r = check_at_least(
        "image.remoteUpdateTimer",
        r0,
        MIN_REMOTE_UPDATE_SECS,
        DEFAULT_REMOTE_UPDATE_TIMER_SECS,
        ws,
    );
    let q0 = match take_uint(
        "image.jpeg_quality",
        find_field(es, "jpeg_quality"),
        255,
        "using default jpeg quality",
        ws,
    ) {
        Some(q) => q,
        None => DEFAULT_JPEG_QUALITY as u64,
    };
    let q = check_in_range("image.jpeg_quality", q0, 100, DEFAULT_JPEG_QUALITY as u64, ws);
    let sources = read_image_sources(es, env, ws);
    let f = match take_choice(
        "image.format",
        find_field(es, "format"),
        "jpg",
        "png",
        "using default image format",
        ws,
    ) {
        Some(i) => i,
        None => 0,
    };
    let format = if f == 0 {
        OutputFormat::Jpg
    } else {
        OutputFormat::Png
    };
    ImageConfig { timer: t, remote_update_timer: r, sources, format, jpeg_quality: q as u8 }
}


// ---------------------------------------------------------------------------
// The `updater` section

/// Attributes of the `updater` section.
pub open spec fn updater_keys() -> Seq<Seq<char>> {
    seq!["enabled"@, "checkInterval"@, "feedUrl"@]
}

/// `s` without trailing `/` (`trim_end_matches('/')`).
pub open spec fn strip_slashes(s: Seq<char>) -> Seq<char>
    decreases s.len(),
{
    if s.len() > 0 && s.last() == '/' {
        strip_slashes(s.drop_last())
    } else {
        s
    }
}

/// The verdict on a trimmed, non-empty feed URL `t`, given how
/// `url::Url::parse` read it (`parts`): refused when it did not parse or is
/// not http(s); otherwise kept without trailing slashes.
pub open spec fn feed_url_verdict(t: Seq<char>, parts: Option<(Seq<char>, Seq<char>)>) -> Result<
    Seq<char>,
    Seq<char>,
> {
    match parts {
        None => Err("updater.feedUrl must be a valid URL: "@ + t),
        Some(parts) => if parts.0 != "http"@ && parts.0 != "https"@ {
            Err("updater.feedUrl must use http:// or https://"@)
        } else {
            Ok(strip_slashes(t))
        },
    }
}

/// An update feed URL as kept: trimmed, an http(s) URL, without trailing
/// slashes; or why it is refused.
pub open spec fn normalize_feed_url(raw: Seq<char>) -> Result<Seq<char>, Seq<char>> {
    let t = trim(raw);
    if t.len() == 0 {
        Err("updater.feedUrl must not be empty"@)
    } else {
        feed_url_verdict(t, crate::urls::url_parts(t))
    }
}

/// Judges a trimmed, non-empty feed URL `url` from the parts that
/// `url::Url::parse` gave for it (`None` when it refused it).
pub fn check_feed_url(url: &str, parts: &Option<UrlParts>) -> (r: Result<String, String>)
    ensures
        match r {
            Ok(u) => feed_url_verdict(url@, parts_view(*parts)) == Ok::<Seq<char>, Seq<char>>(u@),
            Err(e) => feed_url_verdict(url@, parts_view(*parts)) == Err::<Seq<char>, Seq<char>>(e@),
        },
{
    proof {
        reveal_strlit("updater.feedUrl must be a valid URL: ");
        reveal_strlit("updater.feedUrl must use http:// or https://");
        reveal_strlit("http");
        reveal_strlit("https");
    }
    match parts {
        None => Err(message("updater.feedUrl must be a valid URL: ", url)),
        Some(parts) => {
            if !str_eq(parts.scheme.as_str(), "http") && !str_eq(parts.scheme.as_str(), "https") {
                return Err(owned("updater.feedUrl must use http:// or https://"));
            }
            let v = crate::text::chars_of(url);
            let mut end = v.len();
            assert(v@.subrange(0, end as int) == v@);
            while end > 0 && v[end - 1] == '/'
                invariant
                    end <= v.len(),
                    strip_slashes(v@) == strip_slashes(v@.subrange(0, end as int)),
                decreases end,
            {
                assert(v@.subrange(0, end as int).drop_last() == v@.subrange(0, end - 1));
                end -= 1;
            }
            Ok(crate::text::string_of_range(&v, 0, end))
        },
    }
}

/// Normalises an update feed URL.
pub fn normalize_updater_feed_url(raw: &str) -> (r: Result<String, String>)
    ensures
        match r {
            Ok(u) => normalize_feed_url(raw@) == Ok::<Seq<char>, Seq<char>>(u@),
            Err(e) => normalize_feed_url(raw@) == Err::<Seq<char>, Seq<char>>(e@),
        },
{
    proof {
        reveal_strlit("updater.feedUrl must not be empty");
    }
    let t = crate::text::trimmed(raw);
    if t.unicode_len() == 0 {
        return Err(owned("updater.feedUrl must not be empty"));
    }
    let parts = crate::urls::parse_url(t.as_str());
    check_feed_url(t.as_str(), &parts)
}

/// Update check interval as given (before the minimum).
pub open spec fn updater_interval_raw(es: Seq<HclEntry>) -> (u64, Seq<WarningView>) {
    duration_field("updater.checkInterval"@, field(es, "checkInterval"@), 21600)
}

/// Feed URL as given (before normalising).
pub open spec fn updater_feed_raw(es: Seq<HclEntry>) -> Seq<char> {
    take_or(
        "updater.feedUrl"@,
        got_str(field(es, "feedUrl"@)),
        "using default updater feed URL"@,
        default_feed_url(),
    )
}

/// The feed URL kept, and the warning a refused one gives.
pub open spec fn updater_feed(es: Seq<HclEntry>) -> (Seq<char>, Seq<WarningView>) {
    match normalize_feed_url(updater_feed_raw(es)) {
        Ok(u) => (u, Seq::empty()),
        Err(e) => (
            default_feed_url(),
            seq![warn("updater.feedUrl"@, e, "using default "@ + default_feed_url(), None)],
        ),
    }
}

/// The `updater` section.
#[verifier::opaque]
pub open spec fn updater_section(es: Seq<HclEntry>) -> UpdaterView {
    UpdaterView {
        enabled: take_or("updater.enabled"@, got_bool(field(es, "enabled"@)), "using updater default"@, true),
        check_interval: at_least("updater.checkInterval"@, updater_interval_raw(es).0, 600, 21600).0,
        feed_url: updater_feed(es).0,
    }
}

/// `pre` followed by the warnings of the `updater` section, in order.
#[verifier::opaque]
pub open spec fn updater_warnings(pre: Seq<WarningView>, es: Seq<HclEntry>) -> Seq<WarningView> {
    pre + unknown_warnings("updater"@, extras(es, updater_keys())) + updater_interval_raw(es).1
        + at_least("updater.checkInterval"@, updater_interval_raw(es).0, 600, 21600).1 + take_w(
        "updater.feedUrl"@,
        got_str(field(es, "feedUrl"@)),
        "using default updater feed URL"@,
    ) + updater_feed(es).1 + take_w(
        "updater.enabled"@,
        got_bool(field(es, "enabled"@)),
        "using updater default"@,
    )
}

fn default_feed_url_text() -> (r: String)
    ensures
        r@ == default_feed_url(),
{
    proof {
        reveal_strlit("https://github.com/hmerritt/aura/releases/latest/download");
    }
    owned("https://github.com/hmerritt/aura/releases/latest/download")
}

/// Reads the `updater` section.
pub fn read_updater_section(es: &Vec<HclEntry>, ws: &mut Vec<ConfigWarning>) -> (r: UpdaterConfig)
    ensures
        r@ == updater_section(es@),
        warnings_view(final(ws)@) == updater_warnings(warnings_view(old(ws)@), es@),
{
    proof {
        reveal(updater_section);
        reveal(updater_warnings);
        reveal_strlit("updater");
        reveal_strlit("enabled");
        reveal_strlit("checkInterval");
        reveal_strlit("feedUrl");
        reveal_strlit("updater.checkInterval");
        reveal_strlit("updater.feedUrl");
        reveal_strlit("using default updater feed URL");
        reveal_strlit("updater.enabled");
        reveal_strlit("using updater default");
        reveal_strlit("using default ");
    }
    let known = key_list(&["enabled", "checkInterval", "feedUrl"]);
    assert(known.deep_view() =~= updater_keys());
    let extra = collect_extras(es, &known);
    warn_unknown_keys("updater", &extra, ws);
    let c0 = read_duration_field(
        "updater.checkInterval",
        find_field(es, "checkInterval"),
        DEFAULT_UPDATER_CHECK_INTERVAL_SECS,
        ws,
    );
    let c = check_at_least(
        "updater.checkInterval",
        c0,
        MIN_UPDATER_CHECK_INTERVAL_SECS,
        DEFAULT_UPDATER_CHECK_INTERVAL_SECS,
        ws,
    );
    let input = match take_str(
        "updater.feedUrl",
        find_field(es, "feedUrl"),
        "using default updater feed URL",
        ws,
    ) {
        Some(u) => u,
        None => default_feed_url_text(),
    };
    let feed_url = match normalize_updater_feed_url(input.as_str()) {
        Ok(u) => {
            assert(warnings_view(ws@) =~= warnings_view(ws@) + Seq::<WarningView>::empty());
            u
        },
        Err(e) => {
            let mut fb = owned("using default ");
            let d = default_feed_url_text();
            push_str(&mut fb, d.as_str());
            push_warning(ws, make_warning(owned("updater.feedUrl"), e, fb, None));
            default_feed_url_text()
        },
    };
    let enabled = match take_bool(
        "updater.enabled",
        find_field(es, "enabled"),
        "using updater default",
        ws,
    ) {
        Some(b) => b,
        None => true,
    };
    UpdaterConfig { enabled, check_interval: c, feed_url }
}


// ---------------------------------------------------------------------------
// The `shader` section

/// Attributes of the `shader` section.
pub open spec fn shader_keys() -> Seq<Seq<char>> {
    seq!["name"@, "target_fps"@, "resolution"@, "mouse_enabled"@, "desktop_scope"@, "color_space"@]
}

/// Frame rate as given.
pub open spec fn shader_fps_raw(es: Seq<HclEntry>) -> u64 {
    take_or("shader.target_fps"@, got_uint(field(es, "target_fps"@), 65535), "using default shader FPS"@, 60)
}

/// Resolution percentage as given.
pub open spec fn shader_res_raw(es: Seq<HclEntry>) -> u64 {
    take_or(
        "shader.resolution"@,
        got_uint(field(es, "resolution"@), 255),
        "using default shader resolution"@,
        100,
    )
}

/// Shader name as given, trimmed.
pub open spec fn shader_name_raw(es: Seq<HclEntry>) -> Seq<char> {
    trim(take_or("shader.name"@, got_str(field(es, "name"@)), "using default shader name"@, default_shader_name()))
}

/// The shader name kept: an empty name gives the default, and the legacy
/// `gradient_shader` is an alias of `gradient_glossy`.
pub open spec fn shader_name(es: Seq<HclEntry>) -> Seq<char> {
    let n = if shader_name_raw(es).len() == 0 {
        default_shader_name()
    } else {
        shader_name_raw(es)
    };
    if n == "gradient_shader"@ {
        default_shader_name()
    } else {
        n
    }
}

/// The warning an empty shader name gives.
pub open spec fn shader_name_w(es: Seq<HclEntry>) -> Seq<WarningView> {
    if shader_name_raw(es).len() == 0 {
        seq![warn("shader.name"@, "must not be empty"@, "using default gradient_glossy"@, None)]
    } else {
        Seq::empty()
    }
}

/// The settings of a present `shader` section.
#[verifier::opaque]
pub open spec fn shader_section(es: Seq<HclEntry>) -> ShaderView {
    ShaderView {
        name: shader_name(es),
        target_fps: in_range("shader.target_fps"@, shader_fps_raw(es), 999, 60).0 as u16,
        resolution: in_range("shader.resolution"@, shader_res_raw(es), 100, 100).0 as u8,
        mouse_enabled: take_or(
            "shader.mouse_enabled"@,
            got_bool(field(es, "mouse_enabled"@)),
            "using shader mouse default"@,
            false,
        ),
        desktop_scope: if take_or(
            "shader.desktop_scope"@,
            got_choice(field(es, "desktop_scope"@), "virtual"@, "primary"@),
            "using shader desktop scope default"@,
            0,
        ) == 0 {
            ShaderDesktopScope::Virtual
        } else {
            ShaderDesktopScope::Primary
        },
        color_space: if take_or(
            "shader.color_space"@,
            got_choice(field(es, "color_space"@), "unorm"@, "srgb"@),
            "using shader color space default"@,
            0,
        ) == 0 {
            ShaderColorSpace::Unorm
        } else {
            ShaderColorSpace::Srgb
        },
    }
}

/// `pre` followed by the warnings of a present `shader` section.
#[verifier::opaque]
pub open spec fn shader_warnings(pre: Seq<WarningView>, es: Seq<HclEntry>) -> Seq<WarningView> {
    pre + unknown_warnings("shader"@, extras(es, shader_keys())) + take_w(
        "shader.target_fps"@,
        got_uint(field(es, "target_fps"@), 65535),
        "using default shader FPS"@,
    ) + in_range("shader.target_fps"@, shader_fps_raw(es), 999, 60).1 + take_w(
        "shader.resolution"@,
        got_uint(field(es, "resolution"@), 255),
        "using default shader resolution"@,
    ) + in_range("shader.resolution"@, shader_res_raw(es), 100, 100).1 + take_w(
        "shader.name"@,
        got_str(field(es, "name"@)),
        "using default shader name"@,
    ) + shader_name_w(es) + take_w(
        "shader.mouse_enabled"@,
        got_bool(field(es, "mouse_enabled"@)),
        "using shader mouse default"@,
    ) + take_w(
        "shader.desktop_scope"@,
        got_choice(field(es, "desktop_scope"@), "virtual"@, "primary"@),
        "using shader desktop scope default"@,
    ) + take_w(
        "shader.color_space"@,
        got_choice(field(es, "color_space"@), "unorm"@, "srgb"@),
        "using shader color space default"@,
    )
}

fn read_shader_name(es: &Vec<HclEntry>, ws: &mut Vec<ConfigWarning>) -> (r: String)
    ensures
        r@ == shader_name(es@),
        warnings_view(final(ws)@) == warnings_view(old(ws)@) + take_w(
            "shader.name"@,
            got_str(field(es@, "name"@)),
            "using default shader name"@,
        ) + shader_name_w(es@),
{
    proof {
        reveal_strlit("name");
        reveal_strlit("shader.name");
        reveal_strlit("using default shader name");
        reveal_strlit("gradient_glossy");
        reveal_strlit("gradient_shader");
        reveal_strlit("must not be empty");
        reveal_strlit("using default gradient_glossy");
    }
    let given = match take_str("shader.name", find_field(es, "name"), "using default shader name", ws) {
        Some(n) => n,
        None => owned("gradient_glossy"),
    };
    let t = crate::text::trimmed(given.as_str());
    let n = if t.unicode_len() == 0 {
        push_warning(
            ws,
            make_warning(
                owned("shader.name"),
                owned("must not be empty"),
                owned("using default gradient_glossy"),
                None,
            ),
        );
        owned("gradient_glossy")
    } else {
        assert(warnings_view(ws@) =~= warnings_view(ws@) + Seq::<WarningView>::empty());
        t
    };
    if str_eq(n.as_str(), "gradient_shader") {
        owned("gradient_glossy")
    } else {
        n
    }
}

/// Reads a present `shader` section.
pub fn read_shader_section(es: &Vec<HclEntry>, ws: &mut Vec<ConfigWarning>) -> (r: ShaderConfig)
    ensures
        r@ == shader_section(es@),
        warnings_view(final(ws)@) == shader_warnings(warnings_view(old(ws)@), es@),
{
    proof {
        reveal(shader_section);
        reveal(shader_warnings);
        reveal_strlit("shader");
        reveal_strlit("name");
        reveal_strlit("target_fps");
        reveal_strlit("resolution");
        reveal_strlit("mouse_enabled");
        reveal_strlit("desktop_scope");
        reveal_strlit("color_space");
        reveal_strlit("shader.target_fps");
        reveal_strlit("using default shader FPS");
        reveal_strlit("shader.resolution");
        reveal_strlit("using default shader resolution");
        reveal_strlit("shader.mouse_enabled");
        reveal_strlit("using shader mouse default");
        reveal_strlit("shader.desktop_scope");
        reveal_strlit("using shader desktop scope default");
        reveal_strlit("virtual");
        reveal_strlit("primary");
        reveal_strlit("shader.color_space");
        reveal_strlit("using shader color space default");
        reveal_strlit("unorm");
        reveal_strlit("srgb");
    }
    let known = key_list(
        &["name", "target_fps", "resolution", "mouse_enabled", "desktop_scope", "color_space"],
    );
    assert(known.deep_view() =~= shader_keys());
    let extra = collect_extras(es, &known);
    warn_unknown_keys("shader", &extra, ws);
    let fps0 = match take_uint(
        "shader.target_fps",
        find_field(es, "target_fps"),
        65535,
        "using default shader FPS",
        ws,
    ) {
        Some(v) => v,
        None => DEFAULT_SHADER_TARGET_FPS as u64,
    };
    let fps = check_in_range("shader.target_fps", fps0, 999, DEFAULT_SHADER_TARGET_FPS as u64, ws);
    let res0 = match take_uint(
        "shader.resolution",
        find_field(es, "resolution"),
        255,
        "using default shader resolution",
        ws,
    ) {
        Some(v) => v,
        None => DEFAULT_SHADER_RESOLUTION_PERCENT as u64,
    };
    let res = check_in_range(
        "shader.resolution",
        res0,
        100,
        DEFAULT_SHADER_RESOLUTION_PERCENT as u64,
        ws,
    );
    let name = read_shader_name(es, ws);
    let mouse = match take_bool(
        "shader.mouse_enabled",
        find_field(es, "mouse_enabled"),
        "using shader mouse default",
        ws,
    ) {
        Some(b) => b,
        None => false,
    };
    let scope = match take_choice(
        "shader.desktop_scope",
        find_field(es, "desktop_scope"),
        "virtual",
        "primary",
        "using shader desktop scope default",
        ws,
    ) {
        Some(i) => i,
        None => 0,
    };
    let color = match take_choice(
        "shader.color_space",
        find_field(es, "color_space"),
        "unorm",
        "srgb",
        "using shader color space default",
        ws,
    ) {
        Some(i) => i,
        None => 0,
    };
    ShaderConfig {
        name,
        target_fps: fps as u16,
        resolution: res as u8,
        mouse_enabled: mouse,
        desktop_scope: if scope == 0 {
            ShaderDesktopScope::Virtual
        } else {
            ShaderDesktopScope::Primary
        },
        color_space: if color == 0 {
            ShaderColorSpace::Unorm
        } else {
            ShaderColorSpace::Srgb
        },
    }
}


// ---------------------------------------------------------------------------
// The whole document

/// Top-level attributes.
pub open spec fn top_keys() -> Seq<Seq<char>> {
    seq![
        "image"@,
        "updater"@,
        "cache_dir"@,
        "state_file"@,
        "log_level"@,
        "max_cache_mb"@,
        "max_cache_age_days"@,
        "renderer"@,
        "shader"@,
    ]
}

/// The per-user application directory: `<data dir>/aura`, or `./aura`.
pub open spec fn app_dir(env: LoadEnv) -> Seq<char> {
    join(
        match env.data_local_dir {
            Some(d) => d@,
            None => "."@,
        },
        "aura"@,
        env.sep,
    )
}

/// Cache size limit in MiB as given.
pub open spec fn cache_mb(es: Seq<HclEntry>) -> u64 {
    take_or("max_cache_mb"@, got_uint(field(es, "max_cache_mb"@), u64::MAX), "using default max cache size"@, 1024)
}

/// Cache age limit in days as given.
pub open spec fn cache_days(es: Seq<HclEntry>) -> u64 {
    take_or(
        "max_cache_age_days"@,
        got_uint(field(es, "max_cache_age_days"@), u64::MAX),
        "using default max cache age"@,
        30,
    )
}

/// Whether the cache limits of a document can be held in bytes and seconds.
pub open spec fn limits_fit(doc: HclNode) -> bool {
    let es = crate::document::entries_of(doc);
    cache_mb(es) * 1048576 <= u64::MAX && cache_days(es) * 86400 <= u64::MAX
}

/// Renderer index of a document.
pub open spec fn renderer_index(es: Seq<HclEntry>) -> nat {
    take_or("renderer"@, got_choice(field(es, "renderer"@), "image"@, "shader"@), "using default renderer mode"@, 0)
}

/// The shader settings of a document, given its renderer.
pub open spec fn shader_of(es: Seq<HclEntry>, renderer: RendererMode) -> Option<ShaderView> {
    match take("shader"@, got_object(field(es, "shader"@)), "using default shader settings"@).0 {
        Some(sh) => Some(shader_section(sh)),
        None => if renderer == RendererMode::Shader {
            Some(default_shader_view())
        } else {
            None
        },
    }
}

/// Entries of a taken section, none when it was not taken.
pub open spec fn section_entries(o: Option<Seq<HclEntry>>) -> Seq<HclEntry> {
    match o {
        Some(es) => es,
        None => Seq::empty(),
    }
}

/// The cache directory of a document.
pub open spec fn cache_dir_of(es: Seq<HclEntry>, env: LoadEnv) -> Seq<char> {
    resolve(
        env,
        take_or(
            "cache_dir"@,
            got_str(field(es, "cache_dir"@)),
            "using default cache directory"@,
            join(app_dir(env), "cache"@, env.sep),
        ),
    )
}

/// The state file of a document.
pub open spec fn state_file_of(es: Seq<HclEntry>, env: LoadEnv) -> Seq<char> {
    resolve(
        env,
        take_or(
            "state_file"@,
            got_str(field(es, "state_file"@)),
            "using default state file path"@,
            join(app_dir(env), "state.json"@, env.sep),
        ),
    )
}

/// The configuration a document gives.
pub open spec fn config_of(doc: HclNode, env: LoadEnv) -> AuraView {
    let es = crate::document::entries_of(doc);
    let image = section_entries(take("image"@, got_object(field(es, "image"@)), "using default image settings"@).0);
    let updater = section_entries(take("updater"@, got_object(field(es, "updater"@)), "using default updater settings"@).0);
    let renderer = if renderer_index(es) == 0 {
        RendererMode::Image
    } else {
        RendererMode::Shader
    };
    AuraView {
        image: image_section(image, env),
        updater: updater_section(updater),
        cache_dir: cache_dir_of(es, env),
        state_file: state_file_of(es, env),
        log_level: take_or("log_level"@, got_str(field(es, "log_level"@)), "using default log level"@, "info"@),
        max_cache_bytes: (cache_mb(es) * 1048576) as u64,
        max_cache_age: (cache_days(es) * 86400) as u64,
        renderer,
        shader: shader_of(es, renderer),
    }
}

/// The warnings a document gives, in the order they are found.
pub open spec fn config_warnings(doc: HclNode, env: LoadEnv) -> Seq<WarningView> {
    let es = crate::document::entries_of(doc);
    let gi = got_object(field(es, "image"@));
    let gu = got_object(field(es, "updater"@));
    let gs = got_object(field(es, "shader"@));
    let renderer = if renderer_index(es) == 0 {
        RendererMode::Image
    } else {
        RendererMode::Shader
    };
    let w1 = Seq::<WarningView>::empty() + unknown_warnings(Seq::empty(), extras(es, top_keys()))
        + take_w("cache_dir"@, got_str(field(es, "cache_dir"@)), "using default cache directory"@)
        + take_w("state_file"@, got_str(field(es, "state_file"@)), "using default state file path"@)
        + take_w("image"@, gi, "using default image settings"@);
    let w2 = image_warnings(w1, section_entries(take("image"@, gi, "using default image settings"@).0), env)
        + take_w("updater"@, gu, "using default updater settings"@);
    let w3 = updater_warnings(w2, section_entries(take("updater"@, gu, "using default updater settings"@).0))
        + take_w("max_cache_mb"@, got_uint(field(es, "max_cache_mb"@), u64::MAX), "using default max cache size"@)
        + take_w("max_cache_age_days"@, got_uint(field(es, "max_cache_age_days"@), u64::MAX), "using default max cache age"@)
        + take_w("renderer"@, got_choice(field(es, "renderer"@), "image"@, "shader"@), "using default renderer mode"@)
        + take_w("shader"@, gs, "using default shader settings"@);
    let w4 = match take("shader"@, gs, "using default shader settings"@).0 {
        Some(sh) => shader_warnings(w3, sh),
        None => w3,
    };
    w4 + take_w("log_level"@, got_str(field(es, "log_level"@)), "using default log level"@)
}

fn app_dir_text(env: &LoadEnv) -> (r: String)
    ensures
        r@ == app_dir(*env),
{
    proof {
        reveal_strlit(".");
        reveal_strlit("aura");
    }
    match &env.data_local_dir {
        Some(d) => path_join(d.as_str(), "aura", env.sep),
        None => path_join(".", "aura", env.sep),
    }
}

fn read_paths(es: &Vec<HclEntry>, env: &LoadEnv, ws: &mut Vec<ConfigWarning>) -> (r: (String, String))
    ensures
        r.0@ == cache_dir_of(es@, *env),
        r.1@ == state_file_of(es@, *env),
        warnings_view(final(ws)@) == warnings_view(old(ws)@)
            + take_w("cache_dir"@, got_str(field(es@, "cache_dir"@)), "using default cache directory"@)
            + take_w("state_file"@, got_str(field(es@, "state_file"@)), "using default state file path"@),
{
    proof {
        reveal_strlit("cache_dir");
        reveal_strlit("state_file");
        reveal_strlit("using default cache directory");
        reveal_strlit("using default state file path");
        reveal_strlit("cache");
        reveal_strlit("state.json");
    }
    let app = app_dir_text(env);
    let cache_path = match take_str("cache_dir", find_field(es, "cache_dir"), "using default cache directory", ws) {
        Some(p) => p,
        None => path_join(app.as_str(), "cache", env.sep),
    };
    let state_path = match take_str("state_file", find_field(es, "state_file"), "using default state file path", ws) {
        Some(p) => p,
        None => path_join(app.as_str(), "state.json", env.sep),
    };
    (
        path_join(env.config_parent.as_str(), cache_path.as_str(), env.sep),
        path_join(env.config_parent.as_str(), state_path.as_str(), env.sep),
    )
}


/// Whether a document's cache limits fit in bytes and seconds.
pub fn config_limits_fit(doc: &HclNode) -> (r: bool)
    ensures
        r == limits_fit(*doc),
{
    proof {
        reveal_strlit("max_cache_mb");
        reveal_strlit("max_cache_age_days");
        reveal_strlit("using default max cache size");
        reveal_strlit("using default max cache age");
    }
    let empty: Vec<HclEntry> = Vec::new();
    let es = match &doc.value {
        HclValue::Object(es) => es,
        _ => &empty,
    };
    assert(es@ == crate::document::entries_of(*doc));
    let mut scratch: Vec<ConfigWarning> = Vec::new();
    let mb = match take_uint("max_cache_mb", find_field(es, "max_cache_mb"), u64::MAX, "using default max cache size", &mut scratch) {
        Some(v) => v,
        None => DEFAULT_MAX_CACHE_MB,
    };
    let days = match take_uint("max_cache_age_days", find_field(es, "max_cache_age_days"), u64::MAX, "using default max cache age", &mut scratch) {
        Some(v) => v,
        None => DEFAULT_MAX_CACHE_AGE_DAYS,
    };
    mb.checked_mul(1048576).is_some() && days.checked_mul(86400).is_some()
}

#[verifier::rlimit(50)]
/// Reads a configuration out of a parsed document. Nothing in the document
/// fails the read: every refused value is replaced by its default and
/// reported, in order.
pub fn config_from_document(doc: &HclNode, env: &LoadEnv) -> (r: ConfigWithWarnings)
    requires
        limits_fit(*doc),
    ensures
        r.config@ == config_of(*doc, *env),
        warnings_view(r.warnings@) == config_warnings(*doc, *env),
{
    proof {
        reveal_strlit("");
        reveal_strlit("image");
        reveal_strlit("updater");
        reveal_strlit("cache_dir");
        reveal_strlit("state_file");
        reveal_strlit("log_level");
        reveal_strlit("max_cache_mb");
        reveal_strlit("max_cache_age_days");
        reveal_strlit("renderer");
        reveal_strlit("shader");
        reveal_strlit("using default image settings");
        reveal_strlit("using default updater settings");
        reveal_strlit("using default max cache size");
        reveal_strlit("using default max cache age");
        reveal_strlit("using default renderer mode");
        reveal_strlit("using default shader settings");
        reveal_strlit("using default log level");
        reveal_strlit("info");
    }
    let empty: Vec<HclEntry> = Vec::new();
    let es = match &doc.value {
        HclValue::Object(es) => es,
        _ => &empty,
    };
    assert(es@ == crate::document::entries_of(*doc));
    let mut ws: Vec<ConfigWarning> = Vec::new();
    assert(warnings_view(ws@) =~= Seq::<WarningView>::empty());
    let known = key_list(
        &[
            "image",
            "updater",
            "cache_dir",
            "state_file",
            "log_level",
            "max_cache_mb",
            "max_cache_age_days",
            "renderer",
            "shader",
        ],
    );
    assert(known.deep_view() =~= top_keys());
    let extra = collect_extras(es, &known);
    assert(""@ =~= Seq::<char>::empty());
    warn_unknown_keys("", &extra, &mut ws);
    let (cache_dir, state_file) = read_paths(es, env, &mut ws);
    let image_es = match take_section("image", find_field(es, "image"), "using default image settings", &mut ws) {
        Some(x) => x,
        None => &empty,
    };
    let ghost gi = got_object(field(es@, "image"@));
    assert(image_es@ == section_entries(take("image"@, gi, "using default image settings"@).0));
    assert(warnings_view(ws@) == Seq::<WarningView>::empty() + unknown_warnings(Seq::empty(), extras(es@, top_keys()))
        + take_w("cache_dir"@, got_str(field(es@, "cache_dir"@)), "using default cache directory"@)
        + take_w("state_file"@, got_str(field(es@, "state_file"@)), "using default state file path"@)
        + take_w("image"@, gi, "using default image settings"@));
    let image = read_image_section(image_es, env, &mut ws);
    let updater_es = match take_section("updater", find_field(es, "updater"), "using default updater settings", &mut ws) {
        Some(x) => x,
        None => &empty,
    };
    let updater = read_updater_section(updater_es, &mut ws);
    let mb = match take_uint("max_cache_mb", find_field(es, "max_cache_mb"), u64::MAX, "using default max cache size", &mut ws) {
        Some(v) => v,
        None => DEFAULT_MAX_CACHE_MB,
    };
    let days = match take_uint("max_cache_age_days", find_field(es, "max_cache_age_days"), u64::MAX, "using default max cache age", &mut ws) {
        Some(v) => v,
        None => DEFAULT_MAX_CACHE_AGE_DAYS,
    };
    let r = match take_choice("renderer", find_field(es, "renderer"), "image", "shader", "using default renderer mode", &mut ws) {
        Some(i) => i,
        None => 0,
    };
    let renderer = if r == 0 {
        RendererMode::Image
    } else {
        RendererMode::Shader
    };
    let shader = match take_section("shader", find_field(es, "shader"), "using default shader settings", &mut ws) {
        Some(sh) => Some(read_shader_section(sh, &mut ws)),
        None => if renderer == RendererMode::Shader {
            Some(default_shader_config())
        } else {
            None
        },
    };
    let log_level = match take_str("log_level", find_field(es, "log_level"), "using default log level", &mut ws) {
        Some(l) => l,
        None => owned("info"),
    };
    let config = AuraConfig {
        image,
        updater,
        cache_dir,
        state_file,
        log_level,
        max_cache_bytes: mb * 1048576,
        max_cache_age: days * 86400,
        renderer,
        shader,
    };
    ConfigWithWarnings { config, warnings: ws }
}


// ---------------------------------------------------------------------------
// Unknown attributes

/// The warning an attribute `e` that its section (named by `prefix`, empty
/// at the top level) does not know gives: an unknown key, ignored, with the
/// attribute's text.
pub open spec fn unknown_key_warning(prefix: Seq<char>, e: HclEntry) -> WarningView {
    warn(key_path(prefix, e.key@), "unknown key"@, "ignored"@, Some(e.node.text@))
}

/// The attributes of the `image` section as it is read (none when the
/// section is absent or not an object).
pub open spec fn image_attributes(doc: HclNode) -> Seq<HclEntry> {
    section_entries(
        take("image"@, got_object(field(entries_of(doc), "image"@)), "using default image settings"@).0,
    )
}

/// The attributes of the `updater` section as it is read.
pub open spec fn updater_attributes(doc: HclNode) -> Seq<HclEntry> {
    section_entries(
        take("updater"@, got_object(field(entries_of(doc), "updater"@)), "using default updater settings"@).0,
    )
}

/// The attributes of the `shader` section as it is read.
pub open spec fn shader_attributes(doc: HclNode) -> Seq<HclEntry> {
    section_entries(
        take("shader"@, got_object(field(entries_of(doc), "shader"@)), "using default shader settings"@).0,
    )
}

proof fn lemma_prefix_contains(s: Seq<WarningView>, pre: Seq<WarningView>, x: WarningView)
    requires
        pre.len() <= s.len(),
        s.subrange(0, pre.len() as int) == pre,
        pre.contains(x),
    ensures
        s.contains(x),
{
    let k = choose|k: int| 0 <= k < pre.len() && pre[k] == x;
    assert(s.subrange(0, pre.len() as int)[k] == s[k]);
}

proof fn lemma_extras_from_has(es: Seq<HclEntry>, known: Seq<Seq<char>>, i: int, j: int)
    requires
        0 <= i <= j < es.len(),
        !known.contains(es[j].key@),
    ensures
        extras_from(es, known, i).contains((es[j].key@, es[j].node.text@)),
    decreases j - i,
{
    let p = (es[j].key@, es[j].node.text@);
    if i == j {
        assert(extras_from(es, known, i)[0] == p);
    } else {
        lemma_extras_from_has(es, known, i + 1, j);
        let rest = extras_from(es, known, i + 1);
        let k = choose|k: int| 0 <= k < rest.len() && rest[k] == p;
        if !known.contains(es[i].key@) {
            assert(extras_from(es, known, i)[k + 1] == p);
        }
    }
}

/// An attribute that its section does not know is among that section's
/// unknown-key warnings.
proof fn lemma_unknown_listed(prefix: Seq<char>, es: Seq<HclEntry>, known: Seq<Seq<char>>, j: int)
    requires
        0 <= j < es.len(),
        !known.contains(es[j].key@),
    ensures
        unknown_warnings(prefix, extras(es, known)).contains(unknown_key_warning(prefix, es[j])),
{
    lemma_extras_from_has(es, known, 0, j);
    let ex = extras(es, known);
    let k = choose|k: int| 0 <= k < ex.len() && ex[k] == (es[j].key@, es[j].node.text@);
    assert(unknown_warnings(prefix, ex)[k] == unknown_key_warning(prefix, es[j]));
}

/// Every attribute that the configuration does not know is reported, with
/// its text, as an unknown key that is ignored: at the top level, and in
/// the `image`, `updater` and `shader` sections as they are read (their key
/// path then starts with the section's name and a dot).
#[verifier::spinoff_prover]
#[verifier::rlimit(40)]
pub proof fn lemma_unknown_keys_reported(doc: HclNode, env: LoadEnv)
    ensures
        forall|j: int|
            0 <= j < entries_of(doc).len() && !top_keys().contains(#[trigger] entries_of(doc)[j].key@)
                ==> config_warnings(doc, env).contains(unknown_key_warning(Seq::empty(), entries_of(doc)[j])),
        forall|j: int|
            0 <= j < image_attributes(doc).len() && !image_keys().contains(#[trigger] image_attributes(doc)[j].key@)
                ==> config_warnings(doc, env).contains(unknown_key_warning("image"@, image_attributes(doc)[j])),
        forall|j: int|
            0 <= j < updater_attributes(doc).len() && !updater_keys().contains(
                #[trigger] updater_attributes(doc)[j].key@,
            ) ==> config_warnings(doc, env).contains(unknown_key_warning("updater"@, updater_attributes(doc)[j])),
        forall|j: int|
            0 <= j < shader_attributes(doc).len() && !shader_keys().contains(#[trigger] shader_attributes(doc)[j].key@)
                ==> config_warnings(doc, env).contains(unknown_key_warning("shader"@, shader_attributes(doc)[j])),
{
    reveal(image_warnings);
    reveal(updater_warnings);
    reveal(shader_warnings);
    let es = entries_of(doc);
    let gi = got_object(field(es, "image"@));
    let gu = got_object(field(es, "updater"@));
    let gs = got_object(field(es, "shader"@));
    let ut = unknown_warnings(Seq::empty(), extras(es, top_keys()));
    let w1 = Seq::<WarningView>::empty() + ut
        + take_w("cache_dir"@, got_str(field(es, "cache_dir"@)), "using default cache directory"@)
        + take_w("state_file"@, got_str(field(es, "state_file"@)), "using default state file path"@)
        + take_w("image"@, gi, "using default image settings"@);
    let iw = image_warnings(w1, image_attributes(doc), env);
    let w2 = iw + take_w("updater"@, gu, "using default updater settings"@);
    let uw = updater_warnings(w2, updater_attributes(doc));
    let w3 = uw
        + take_w("max_cache_mb"@, got_uint(field(es, "max_cache_mb"@), u64::MAX), "using default max cache size"@)
        + take_w("max_cache_age_days"@, got_uint(field(es, "max_cache_age_days"@), u64::MAX), "using default max cache age"@)
        + take_w("renderer"@, got_choice(field(es, "renderer"@), "image"@, "shader"@), "using default renderer mode"@)
        + take_w("shader"@, gs, "using default shader settings"@);
    let w4 = match take("shader"@, gs, "using default shader settings"@).0 {
        Some(sh) => shader_warnings(w3, sh),
        None => w3,
    };
    let all = config_warnings(doc, env);
    assert(all == w4 + take_w("log_level"@, got_str(field(es, "log_level"@)), "using default log level"@));
    assert(all.subrange(0, w4.len() as int) =~= w4);
    assert(w4.subrange(0, w3.len() as int) =~= w3);
    assert(w3.subrange(0, uw.len() as int) =~= uw);
    assert(uw.subrange(0, w2.len() as int) =~= w2);
    assert(w2.subrange(0, iw.len() as int) =~= iw);
    assert(iw.subrange(0, w1.len() as int) =~= w1);
    assert(w1.subrange(0, ut.len() as int) =~= ut);
    assert forall|x: WarningView| w1.contains(x) implies all.contains(x) by {
        lemma_prefix_contains(iw, w1, x);
        lemma_prefix_contains(w2, iw, x);
        lemma_prefix_contains(uw, w2, x);
        lemma_prefix_contains(w3, uw, x);
        lemma_prefix_contains(w4, w3, x);
        lemma_prefix_contains(all, w4, x);
    }
    assert forall|j: int|
        0 <= j < es.len() && !top_keys().contains(#[trigger] es[j].key@) implies all.contains(
        unknown_key_warning(Seq::empty(), es[j]),
    ) by {
        lemma_unknown_listed(Seq::empty(), es, top_keys(), j);
        lemma_prefix_contains(w1, ut, unknown_key_warning(Seq::empty(), es[j]));
    }
    let isec = image_attributes(doc);
    let ipre = w1 + unknown_warnings("image"@, extras(isec, image_keys()));
    assert(iw.subrange(0, ipre.len() as int) =~= ipre);
    assert forall|j: int|
        0 <= j < isec.len() && !image_keys().contains(#[trigger] isec[j].key@) implies all.contains(
        unknown_key_warning("image"@, isec[j]),
    ) by {
        let x = unknown_key_warning("image"@, isec[j]);
        lemma_unknown_listed("image"@, isec, image_keys(), j);
        let u = unknown_warnings("image"@, extras(isec, image_keys()));
        let k = choose|k: int| 0 <= k < u.len() && u[k] == x;
        assert(ipre[w1.len() + k] == x);
        lemma_prefix_contains(iw, ipre, x);
        lemma_prefix_contains(w2, iw, x);
        lemma_prefix_contains(uw, w2, x);
        lemma_prefix_contains(w3, uw, x);
        lemma_prefix_contains(w4, w3, x);
        lemma_prefix_contains(all, w4, x);
    }
    let usec = updater_attributes(doc);
    let upre = w2 + unknown_warnings("updater"@, extras(usec, updater_keys()));
    assert(uw.subrange(0, upre.len() as int) =~= upre);
    assert forall|j: int|
        0 <= j < usec.len() && !updater_keys().contains(#[trigger] usec[j].key@) implies all.contains(
        unknown_key_warning("updater"@, usec[j]),
    ) by {
        let x = unknown_key_warning("updater"@, usec[j]);
        lemma_unknown_listed("updater"@, usec, updater_keys(), j);
        let u = unknown_warnings("updater"@, extras(usec, updater_keys()));
        let k = choose|k: int| 0 <= k < u.len() && u[k] == x;
        assert(upre[w2.len() + k] == x);
        lemma_prefix_contains(uw, upre, x);
        lemma_prefix_contains(w3, uw, x);
        lemma_prefix_contains(w4, w3, x);
        lemma_prefix_contains(all, w4, x);
    }
    let ssec = shader_attributes(doc);
    assert forall|j: int|
        0 <= j < ssec.len() && !shader_keys().contains(#[trigger] ssec[j].key@) implies all.contains(
        unknown_key_warning("shader"@, ssec[j]),
    ) by {
        let x = unknown_key_warning("shader"@, ssec[j]);
        let sh = take("shader"@, gs, "using default shader settings"@).0.unwrap();
        assert(ssec == sh);
        assert(w4 == shader_warnings(w3, sh));
        let spre = w3 + unknown_warnings("shader"@, extras(sh, shader_keys()));
        assert(w4.subrange(0, spre.len() as int) =~= spre);
        lemma_unknown_listed("shader"@, sh, shader_keys(), j);
        let u = unknown_warnings("shader"@, extras(sh, shader_keys()));
        let k = choose|k: int| 0 <= k < u.len() && u[k] == x;
        assert(spre[w3.len() + k] == x);
        lemma_prefix_contains(w4, spre, x);
        lemma_prefix_contains(all, w4, x);
    }
}


/// The attributes of `es` whose keys are in `known`, in order.
pub open spec fn known_only(es: Seq<HclEntry>, known: Seq<Seq<char>>) -> Seq<HclEntry>
    decreases es.len(),
{
    if es.len() == 0 {
        Seq::empty()
    } else if known.contains(es[0].key@) {
        seq![es[0]] + known_only(es.drop_first(), known)
    } else {
        known_only(es.drop_first(), known)
    }
}

/// A source entry without its unknown attributes.
pub open spec fn without_extra(src: RawSource) -> RawSource {
    match src {
        RawSource::File { path, .. } => RawSource::File { path, extra: Seq::empty() },
        RawSource::Directory { path, recursive, extensions, .. } => RawSource::Directory {
            path,
            recursive,
            extensions,
            extra: Seq::empty(),
        },
        RawSource::Rss { url, max_items, download_dir, .. } => RawSource::Rss {
            url,
            max_items,
            download_dir,
            extra: Seq::empty(),
        },
    }
}

proof fn lemma_find_from_shift(es: Seq<HclEntry>, key: Seq<char>, i: int)
    requires
        0 <= i,
        es.len() > 0,
    ensures
        find_from(es, key, i + 1) == find_from(es.drop_first(), key, i),
    decreases es.len() - i,
{
    if i + 1 < es.len() {
        assert(es[i + 1] == es.drop_first()[i]);
        lemma_find_from_shift(es, key, i + 1);
    }
}

/// Looking up a known key finds the same value with or without the
/// unknown attributes.
proof fn lemma_known_only_field(es: Seq<HclEntry>, known: Seq<Seq<char>>, key: Seq<char>)
    requires
        known.contains(key),
    ensures
        field(known_only(es, known), key) == field(es, key),
    decreases es.len(),
{
    if es.len() > 0 {
        let rest = known_only(es.drop_first(), known);
        lemma_known_only_field(es.drop_first(), known, key);
        lemma_find_from_shift(es, key, 0);
        if known.contains(es[0].key@) {
            let k = seq![es[0]] + rest;
            assert(k[0] == es[0]);
            assert(k.drop_first() =~= rest);
            lemma_find_from_shift(k, key, 0);
        }
    }
}

proof fn lemma_top_unknown_ignored(doc: HclNode, stripped: HclNode, env: LoadEnv)
    requires
        entries_of(stripped) == known_only(entries_of(doc), top_keys()),
    ensures
        config_of(stripped, env) == config_of(doc, env),
{
    let es = entries_of(doc);
    let ks = entries_of(stripped);
    let t = top_keys();
    assert(t[0] == "image"@ && t[1] == "updater"@ && t[2] == "cache_dir"@ && t[3] == "state_file"@);
    assert(t[4] == "log_level"@ && t[5] == "max_cache_mb"@ && t[6] == "max_cache_age_days"@);
    assert(t[7] == "renderer"@ && t[8] == "shader"@);
    lemma_known_only_field(es, t, "image"@);
    lemma_known_only_field(es, t, "updater"@);
    lemma_known_only_field(es, t, "cache_dir"@);
    lemma_known_only_field(es, t, "state_file"@);
    lemma_known_only_field(es, t, "log_level"@);
    lemma_known_only_field(es, t, "max_cache_mb"@);
    lemma_known_only_field(es, t, "max_cache_age_days"@);
    lemma_known_only_field(es, t, "renderer"@);
    lemma_known_only_field(es, t, "shader"@);
    assert(renderer_index(ks) == renderer_index(es));
    assert(cache_mb(ks) == cache_mb(es));
    assert(cache_days(ks) == cache_days(es));
    assert(cache_dir_of(ks, env) == cache_dir_of(es, env));
    assert(state_file_of(ks, env) == state_file_of(es, env));
}

proof fn lemma_image_unknown_ignored(image: Seq<HclEntry>, env: LoadEnv)
    ensures
        image_section(known_only(image, image_keys()), env) == image_section(image, env),
{
    reveal(image_section);
    reveal(image_sources);
    let k = image_keys();
    assert(k[0] == "timer"@ && k[1] == "remoteUpdateTimer"@ && k[2] == "sources"@ && k[3] == "format"@
        && k[4] == "jpeg_quality"@);
    lemma_known_only_field(image, k, "timer"@);
    lemma_known_only_field(image, k, "remoteUpdateTimer"@);
    lemma_known_only_field(image, k, "sources"@);
    lemma_known_only_field(image, k, "format"@);
    lemma_known_only_field(image, k, "jpeg_quality"@);
}

proof fn lemma_updater_unknown_ignored(updater: Seq<HclEntry>)
    ensures
        updater_section(known_only(updater, updater_keys())) == updater_section(updater),
{
    reveal(updater_section);
    let k = updater_keys();
    assert(k[0] == "enabled"@ && k[1] == "checkInterval"@ && k[2] == "feedUrl"@);
    lemma_known_only_field(updater, k, "enabled"@);
    lemma_known_only_field(updater, k, "checkInterval"@);
    lemma_known_only_field(updater, k, "feedUrl"@);
}

proof fn lemma_shader_unknown_ignored(shader: Seq<HclEntry>)
    ensures
        shader_section(known_only(shader, shader_keys())) == shader_section(shader),
{
    reveal(shader_section);
    let k = shader_keys();
    assert(k[0] == "name"@ && k[1] == "target_fps"@ && k[2] == "resolution"@ && k[3] == "mouse_enabled"@
        && k[4] == "desktop_scope"@ && k[5] == "color_space"@);
    lemma_known_only_field(shader, k, "name"@);
    lemma_known_only_field(shader, k, "target_fps"@);
    lemma_known_only_field(shader, k, "resolution"@);
    lemma_known_only_field(shader, k, "mouse_enabled"@);
    lemma_known_only_field(shader, k, "desktop_scope"@);
    lemma_known_only_field(shader, k, "color_space"@);
}

/// Unknown attributes do not change the configuration. At the top level,
/// a document and the same document without its unknown attributes give
/// the same configuration; in the `image`, `updater` and `shader`
/// sections, the settings read from a section's attributes are those read
/// from its known attributes alone; and a source entry gives the same
/// source with or without its unknown attributes.
pub proof fn lemma_unknown_keys_ignored(
    doc: HclNode,
    stripped: HclNode,
    env: LoadEnv,
    image: Seq<HclEntry>,
    updater: Seq<HclEntry>,
    shader: Seq<HclEntry>,
    src: RawSource,
)
    requires
        entries_of(stripped) == known_only(entries_of(doc), top_keys()),
    ensures
        config_of(stripped, env) == config_of(doc, env),
        image_section(known_only(image, image_keys()), env) == image_section(image, env),
        updater_section(known_only(updater, updater_keys())) == updater_section(updater),
        shader_section(known_only(shader, shader_keys())) == shader_section(shader),
        validate(without_extra(src), env) == validate(src, env),
{
    lemma_top_unknown_ignored(doc, stripped, env);
    lemma_image_unknown_ignored(image, env);
    lemma_updater_unknown_ignored(updater);
    lemma_shader_unknown_ignored(shader);
}


// ---------------------------------------------------------------------------
// Timers

/// No warning of `ws` is about the attribute at `key`.
pub open spec fn key_free(ws: Seq<WarningView>, key: Seq<char>) -> bool {
    forall|i: int| 0 <= i < ws.len() ==> (#[trigger] ws[i]).key_path != key
}

proof fn lemma_key_free_concat(a: Seq<WarningView>, b: Seq<WarningView>, key: Seq<char>)
    requires
        key_free(a, key),
        key_free(b, key),
    ensures
        key_free(a + b, key),
{
    assert forall|i: int| 0 <= i < (a + b).len() implies (#[trigger] (a + b)[i]).key_path != key by {
        if i < a.len() {
            assert((a + b)[i] == a[i]);
        } else {
            assert((a + b)[i] == b[i - a.len()]);
        }
    }
}

/// The warnings of one attribute, all under its own key.
proof fn lemma_field_warnings_keyed(k: Seq<char>, n: Option<HclNode>, default: u64, v: u64, min: u64, key: Seq<char>)
    requires
        k != key,
    ensures
        key_free(duration_field(k, n, default).1, key),
        key_free(at_least(k, v, min, default).1, key),
        key_free(in_range(k, v, min, default).1, key),
        key_free(take_w(k, got_uint(n, 255), "using default jpeg quality"@), key),
        key_free(take_w(k, got_choice(n, "jpg"@, "png"@), "using default image format"@), key),
        key_free(take_w(k, got_array(n), "using default source list"@), key),
{
}

/// Every warning of a source list is about the list (`image.sources`) or
/// one of its entries (`image.sources[i]`, and their attributes).
proof fn lemma_source_warning_keys(items: Seq<HclNode>, n: int, env: LoadEnv)
    ensures
        forall|i: int| 0 <= i < sources_upto(items, n, env).1.len() ==> (#[trigger] sources_upto(items, n, env).1[i]).key_path.len() >= 14,
    decreases n,
{
    reveal_strlit("image.sources[");
    reveal_strlit("]");
    reveal_strlit(".");
    if n > 0 {
        lemma_source_warning_keys(items, n - 1, env);
        let (s, w) = sources_upto(items, n - 1, env);
        let i = n - 1;
        let key = source_key(i as nat);
        assert(key.len() >= 14);
        match decode_source(items[i]) {
            None => {
                let r = w.push(warn(key, "invalid value"@, "dropping source entry"@, Some(items[i].text@)));
                assert forall|j: int| 0 <= j < r.len() implies (#[trigger] r[j]).key_path.len() >= 14 by {
                    if j < w.len() {
                        assert(r[j] == w[j]);
                    }
                }
            },
            Some(src) => {
                let wu = unknown_warnings(key, raw_extra(src));
                assert forall|j: int| 0 <= j < wu.len() implies (#[trigger] wu[j]).key_path.len() >= 14 by {
                    assert(wu[j].key_path == key + "."@ + raw_extra(src)[j].0);
                }
                match validate(src, env) {
                    Ok(v) => {
                        let r = w + wu;
                        assert forall|j: int| 0 <= j < r.len() implies (#[trigger] r[j]).key_path.len() >= 14 by {
                            if j < w.len() {
                                assert(r[j] == w[j]);
                            } else {
                                assert(r[j] == wu[j - w.len()]);
                            }
                        }
                    },
                    Err(e) => {
                        let r = w + wu.push(warn(key, e, "dropping source entry"@, None));
                        let u2 = wu.push(warn(key, e, "dropping source entry"@, None));
                        assert forall|j: int| 0 <= j < r.len() implies (#[trigger] r[j]).key_path.len() >= 14 by {
                            if j < w.len() {
                                assert(r[j] == w[j]);
                            } else {
                                assert(r[j] == u2[j - w.len()]);
                                if j - w.len() < wu.len() {
                                    assert(u2[j - w.len()] == wu[j - w.len()]);
                                }
                            }
                        }
                    },
                }
            },
        }
    }
}

/// The unknown attributes of the `image` section are reported under
/// `image.` and their own names, none of which is `timer`.
proof fn lemma_image_unknown_not_timer(es: Seq<HclEntry>)
    ensures
        key_free(unknown_warnings("image"@, extras(es, image_keys())), "image.timer"@),
{
    reveal_strlit("image.timer");
    reveal_strlit("image");
    reveal_strlit(".");
    reveal_strlit("timer");
    let ex = extras(es, image_keys());
    let u = unknown_warnings("image"@, ex);
    assert forall|i: int| 0 <= i < u.len() implies (#[trigger] u[i]).key_path != "image.timer"@ by {
        let k = ex[i].0;
        lemma_extras_unknown(es, image_keys(), 0, i);
        let kp = "image"@ + "."@ + k;
        assert(u[i].key_path == kp);
        if kp == "image.timer"@ {
            assert(k.len() == 5);
            assert forall|j: int| 0 <= j < 5 implies k[j] == "timer"@[j] by {
                assert(kp[6 + j] == k[j]);
                assert("image.timer"@[6 + j] == "timer"@[j]);
            }
            assert(k =~= "timer"@);
            assert(image_keys()[0] == "timer"@);
        }
    }
}

/// Every attribute listed by `extras_from` is unknown.
proof fn lemma_extras_unknown(es: Seq<HclEntry>, known: Seq<Seq<char>>, i: int, j: int)
    requires
        0 <= j < extras_from(es, known, i).len(),
    ensures
        !known.contains(extras_from(es, known, i)[j].0),
    decreases es.len() - i,
{
    if 0 <= i < es.len() {
        if known.contains(es[i].key@) {
            lemma_extras_unknown(es, known, i + 1, j);
        } else if j > 0 {
            lemma_extras_unknown(es, known, i + 1, j - 1);
        }
    }
}

/// A timer long enough is kept as written. When the `image` section's
/// `timer` reads as `d` seconds, the switch interval is `d` if `d` is at
/// least 5 seconds, and the default of 300 seconds otherwise; a timer of
/// at least 5 seconds that reads without trouble gives no warning about
/// `image.timer`. Likewise the remote refresh interval is kept when it is
/// at least 30 seconds, and is 3600 seconds otherwise.
pub proof fn lemma_timers_kept_above_minimum(doc: HclNode, env: LoadEnv)
    ensures
        ({
            let es = image_attributes(doc);
            let t = duration_field("image.timer"@, field(es, "timer"@), 300);
            let r = duration_field("image.remoteUpdateTimer"@, field(es, "remoteUpdateTimer"@), 3600);
            &&& t.0 >= 5 ==> config_of(doc, env).image.timer == t.0
            &&& t.0 < 5 ==> config_of(doc, env).image.timer == 300
            &&& r.0 >= 30 ==> config_of(doc, env).image.remote_update_timer == r.0
            &&& r.0 < 30 ==> config_of(doc, env).image.remote_update_timer == 3600
            &&& (t.0 >= 5 && t.1.len() == 0) ==> key_free(image_warnings(Seq::empty(), es, env), "image.timer"@)
        }),
{
    reveal(image_section);
    let es = image_attributes(doc);
    let t = duration_field("image.timer"@, field(es, "timer"@), 300);
    if t.0 >= 5 && t.1.len() == 0 {
        reveal(image_warnings);
        reveal(image_sources);
        reveal_strlit("image.timer");
        reveal_strlit("image.remoteUpdateTimer");
        reveal_strlit("image.jpeg_quality");
        reveal_strlit("image.sources");
        reveal_strlit("image.format");
        let key = "image.timer"@;
        let r0 = duration_field("image.remoteUpdateTimer"@, field(es, "remoteUpdateTimer"@), 3600);
        assert(key.len() == 11);
        assert("image.remoteUpdateTimer"@.len() != 11);
        assert("image.jpeg_quality"@.len() != 11);
        assert("image.sources"@.len() != 11);
        assert("image.format"@.len() != 11);
        lemma_image_unknown_not_timer(es);
        lemma_field_warnings_keyed("image.remoteUpdateTimer"@, field(es, "remoteUpdateTimer"@), 3600, r0.0, 30, key);
        lemma_field_warnings_keyed("image.jpeg_quality"@, field(es, "jpeg_quality"@), 90, image_quality_raw(es), 100, key);
        lemma_field_warnings_keyed("image.format"@, field(es, "format"@), 0, 0, 0, key);
        lemma_field_warnings_keyed("image.sources"@, field(es, "sources"@), 0, 0, 0, key);
        let a0 = Seq::<WarningView>::empty() + unknown_warnings("image"@, extras(es, image_keys()));
        assert(a0 =~= unknown_warnings("image"@, extras(es, image_keys())));
        let a1 = a0 + t.1;
        assert(t.1 =~= Seq::<WarningView>::empty());
        assert(a1 =~= a0);
        let at = at_least("image.timer"@, t.0, 5, 300).1;
        assert(at =~= Seq::<WarningView>::empty());
        let a2 = a1 + at;
        assert(a2 =~= a1);
        lemma_key_free_concat(a2, r0.1, key);
        let a3 = a2 + r0.1;
        lemma_key_free_concat(a3, at_least("image.remoteUpdateTimer"@, r0.0, 30, 3600).1, key);
        let a4 = a3 + at_least("image.remoteUpdateTimer"@, r0.0, 30, 3600).1;
        let tj = take_w("image.jpeg_quality"@, got_uint(field(es, "jpeg_quality"@), 255), "using default jpeg quality"@);
        lemma_key_free_concat(a4, tj, key);
        let a5 = a4 + tj;
        let ij = in_range("image.jpeg_quality"@, image_quality_raw(es), 100, 90).1;
        lemma_key_free_concat(a5, ij, key);
        let a6 = a5 + ij;
        let g = got_array(field(es, "sources"@));
        let (so, w1) = take("image.sources"@, g, "using default source list"@);
        let sw: Seq<WarningView> = match so {
            Some(items) => {
                lemma_source_warning_keys(items, items.len() as int, env);
                sources_upto(items, items.len() as int, env).1
            },
            None => default_sources(env).1,
        };
        assert(key_free(sw, key));
        assert(key_free(w1, key));
        lemma_key_free_concat(w1, sw, key);
        let ds = default_sources(env).1;
        assert(key_free(ds, key));
        let last = seq![warn("image.sources"@, "no valid sources found"@, "using default source list"@, None)];
        assert(key_free(last, key));
        lemma_key_free_concat(w1 + sw, last, key);
        lemma_key_free_concat(w1 + sw + last, ds, key);
        let isw = image_sources(es, env).1;
        assert(key_free(isw, key));
        lemma_key_free_concat(a6, isw, key);
        let a7 = a6 + isw;
        let tf = take_w("image.format"@, got_choice(field(es, "format"@), "jpg"@, "png"@), "using default image format"@);
        lemma_key_free_concat(a7, tf, key);
        assert(image_warnings(Seq::empty(), es, env) == a7 + tf);
    }
}

} // verus!

use aura::config::{ConfigWarning, OutputFormat, RendererMode, SourceConfig};
use aura::config_load::{check_feed_url, config_from_document, config_limits_fit, normalize_updater_feed_url, LoadEnv};
use aura::urls::UrlParts;
use aura::document::{HclEntry, HclNode, HclValue};
use aura::duration::{format_duration_value, parse_duration_string};
use aura::pipeline::CacheManager;
use aura::settings::{
    default_hcl, format_settings_warnings, hcl_string, load_settings_document,
    validate_settings_document, SettingsDocument,
};

fn node(value: HclValue, text: &str) -> HclNode {
    HclNode { value, text: text.to_string() }
}

fn string(s: &str) -> HclNode {
    node(HclValue::Str(s.to_string()), &format!("\"{s}\""))
}

fn object(entries: Vec<(&str, HclNode)>) -> HclNode {
    node(
        HclValue::Object(
            entries.into_iter().map(|(k, n)| HclEntry { key: k.to_string(), node: n }).collect(),
        ),
        "{...}",
    )
}

fn env() -> LoadEnv {
    LoadEnv {
        config_parent: "/home/u/.config".to_string(),
        data_local_dir: Some("/home/u/.local/share".to_string()),
        default_source_dir: "/home/u/Pictures".to_string(),
        files: Vec::new(),
        dirs: vec!["/home/u/Pictures".to_string(), "/home/u/.config".to_string()],
        sep: '/',
    }
}

fn has_warning(warnings: &[ConfigWarning], key_path: &str) -> bool {
    warnings.iter().any(|warning| warning.key_path == key_path)
}

#[test]
fn missing_image_uses_defaults() {
    let doc = object(vec![]);
    let cfg = config_from_document(&doc, &env()).config;
    assert_eq!(cfg.image.timer, 300);
    assert_eq!(cfg.image.remote_update_timer, 3600);
    assert!(cfg.updater.enabled);
    assert_eq!(cfg.updater.check_interval, 21_600);
    assert_eq!(cfg.updater.feed_url, "https://github.com/hmerritt/aura/releases/latest/download");
    assert_eq!(cfg.image.format, OutputFormat::Jpg);
    assert_eq!(cfg.image.jpeg_quality, 90);
    assert_eq!(cfg.image.sources.len(), 1);
}

#[test]
fn tiny_timer_falls_back_with_warning() {
    let doc = object(vec![(
        "image",
        object(vec![("timer", string("2s")), ("format", string("png"))]),
    )]);
    let loaded = config_from_document(&doc, &env());
    assert_eq!(loaded.config.image.timer, 300);
    assert_eq!(loaded.config.image.format, OutputFormat::Png);
    assert!(has_warning(&loaded.warnings, "image.timer"));
}

#[test]
fn unknown_keys_and_wrong_types_are_reported() {
    let doc = object(vec![
        ("timer", string("5m")),
        ("renderer", node(HclValue::PosInt(3), "3")),
        ("max_cache_mb", node(HclValue::PosInt(16), "16")),
    ]);
    let loaded = config_from_document(&doc, &env());
    assert!(has_warning(&loaded.warnings, "timer"));
    assert!(has_warning(&loaded.warnings, "renderer"));
    assert_eq!(loaded.config.renderer, RendererMode::Image);
    assert_eq!(loaded.config.max_cache_bytes, 16 * 1024 * 1024);
}

#[test]
fn cache_limits_that_overflow_are_detected() {
    let doc = object(vec![("max_cache_mb", node(HclValue::PosInt(u64::MAX), "18446744073709551615"))]);
    assert!(!config_limits_fit(&doc));
    assert!(config_limits_fit(&object(vec![])));
}

#[test]
fn directory_sources_are_read_and_checked() {
    let source = object(vec![
        ("type", string("directory")),
        ("path", string("/home/u/Pictures")),
        ("extensions", node(HclValue::Array(vec![string(".JPG")]), "[\".JPG\"]")),
    ]);
    let missing = object(vec![("type", string("directory")), ("path", string("/nowhere"))]);
    let doc = object(vec![(
        "image",
        object(vec![("sources", node(HclValue::Array(vec![source, missing]), "[...]"))]),
    )]);
    let loaded = config_from_document(&doc, &env());
    assert_eq!(loaded.config.image.sources.len(), 1);
    match &loaded.config.image.sources[0] {
        SourceConfig::Directory { path, extensions, .. } => {
            assert_eq!(path, "/home/u/Pictures");
            assert_eq!(extensions, &Some(vec!["jpg".to_string()]));
        }
        _ => panic!("expected a directory source"),
    }
    assert!(has_warning(&loaded.warnings, "image.sources[1]"));
}

#[test]
fn settings_document_round_trips_warnings() {
    let doc = object(vec![("image", object(vec![("timer", string("2s"))]))]);
    let loaded = config_from_document(&doc, &env());
    let settings = load_settings_document(&loaded);
    assert_eq!(settings.warnings, loaded.warnings);
    assert_eq!(settings.document.image.timer, "5m");
    let validation = validate_settings_document(&doc, &env()).unwrap();
    assert!(has_warning(&validation.warnings, "image.timer"));
    let summary = format_settings_warnings(&validation.warnings);
    assert!(summary.starts_with("image.timer: "));
}

#[test]
fn rendered_settings_start_with_renderer() {
    let loaded = config_from_document(&object(vec![]), &env());
    let document = SettingsDocument::from_config(&loaded.config);
    let text = document.render_hcl();
    assert!(text.starts_with("renderer = \"image\"\n\n"));
    assert!(text.contains("max_cache_mb = 1024\n"));
    assert!(text.ends_with("max_cache_age_days = 30\n"));
}

#[test]
fn default_hcl_names_the_pictures_directory() {
    let text = default_hcl("C:\\Users\\me\\Pictures");
    assert!(text.starts_with("# aura (Wallpaper Manager) configuration file"));
    assert!(text.contains("{ type = \"directory\", path = \"C:/Users/me/Pictures\" }"));
}

#[test]
fn hcl_strings_are_escaped() {
    assert_eq!(hcl_string("a\"b\\c"), "\"a\\\"b\\\\c\"");
}

#[test]
fn durations_parse_and_format() {
    assert_eq!(parse_duration_string("image.timer", " 3H "), Ok(10_800));
    assert_eq!(parse_duration_string("image.timer", "40s"), Ok(40));
    assert!(parse_duration_string("image.timer", "12").is_err());
    assert!(parse_duration_string("image.timer", "x5m").is_err());
    assert_eq!(format_duration_value(7200), "2h");
    assert_eq!(format_duration_value(90), "90s");
}

#[test]
fn cache_paths_follow_configuration() {
    let loaded = config_from_document(&object(vec![("cache_dir", string("/var/cache/aura"))]), &env());
    let cache = CacheManager::new(&loaded.config, '/');
    assert_eq!(cache.processed_dir(), "/var/cache/aura/processed");
    assert_eq!(cache.processed_path_for_key("k", OutputFormat::Png), "/var/cache/aura/processed/k.png");
    let hint = "https://mrrtt.me/atv";
    let digest = blake3::hash(hint.as_bytes()).to_hex().to_string();
    assert_eq!(cache.remote_source_dir(hint), format!("/var/cache/aura/remote/{digest}"));
    assert_eq!(cache.max_bytes(), 1024 * 1024 * 1024);
}

#[test]
fn formatted_durations_read_back() {
    for secs in [0u64, 1, 59, 60, 90, 3600, 5400, 7200, 86_399, 86_400, 90_000, 172_800] {
        assert_eq!(parse_duration_string("image.timer", &format_duration_value(secs)), Ok(secs));
    }
    assert_eq!(format_duration_value(86_400), "24h");
    assert_eq!(format_duration_value(900), "15m");
    assert_eq!(format_duration_value(45), "45s");
    assert_eq!(format_duration_value(0), "0s");
}

#[test]
fn shader_target_fps_accepts_documented_range() {
    let shader = |fps: u64| {
        object(vec![
            ("renderer", string("shader")),
            ("shader", object(vec![("target_fps", node(HclValue::PosInt(fps), &fps.to_string()))])),
        ])
    };
    let loaded = config_from_document(&shader(500), &env());
    assert_eq!(loaded.config.shader.as_ref().map(|s| s.target_fps), Some(500));
    assert!(!has_warning(&loaded.warnings, "shader.target_fps"));
    let loaded = config_from_document(&shader(999), &env());
    assert_eq!(loaded.config.shader.as_ref().map(|s| s.target_fps), Some(999));
    let loaded = config_from_document(&shader(1000), &env());
    assert_eq!(loaded.config.shader.as_ref().map(|s| s.target_fps), Some(60));
    assert!(has_warning(&loaded.warnings, "shader.target_fps"));
}

#[test]
fn feed_urls_are_judged_from_their_parts() {
    let parts = |scheme: &str| Some(UrlParts { scheme: scheme.to_string(), path: "/d/".to_string() });
    assert_eq!(check_feed_url("https://e.com/d//", &parts("https")), Ok("https://e.com/d".to_string()));
    assert!(check_feed_url("ftp://e.com/d", &parts("ftp")).is_err());
    assert_eq!(
        check_feed_url("e.com", &None),
        Err("updater.feedUrl must be a valid URL: e.com".to_string())
    );
    assert_eq!(normalize_updater_feed_url("  http://e.com/x/ "), Ok("http://e.com/x".to_string()));
    assert!(normalize_updater_feed_url("   ").is_err());
}

#[test]
fn unknown_keys_in_every_section_are_ignored_with_warning() {
    let doc = object(vec![
        ("image_format", string("png")),
        ("image", object(vec![("scale", string("fit"))])),
        ("updater", object(vec![("channel", string("beta"))])),
        ("renderer", string("shader")),
        ("shader", object(vec![("quality", string("high")), ("hot_reload", string("yes"))])),
    ]);
    let loaded = config_from_document(&doc, &env());
    for (key, raw) in [
        ("image_format", "\"png\""),
        ("image.scale", "\"fit\""),
        ("updater.channel", "\"beta\""),
        ("shader.quality", "\"high\""),
        ("shader.hot_reload", "\"yes\""),
    ] {
        let w = loaded.warnings.iter().find(|w| w.key_path == key).unwrap();
        assert_eq!(w.issue, "unknown key");
        assert_eq!(w.fallback, "ignored");
        assert_eq!(w.raw_value.as_deref(), Some(raw));
    }
    assert_eq!(loaded.config.image.format, OutputFormat::Jpg);
}

#[test]
fn unknown_keys_leave_the_configuration_unchanged() {
    let with_unknown = object(vec![
        ("image_format", string("png")),
        ("image", object(vec![("timer", string("10m")), ("scale", string("fit"))])),
        ("updater", object(vec![("checkInterval", string("2h")), ("channel", string("beta"))])),
        ("renderer", string("shader")),
        ("shader", object(vec![("target_fps", node(HclValue::PosInt(30), "30")), ("quality", string("high"))])),
        ("max_cache_mb", node(HclValue::PosInt(16), "16")),
    ]);
    let known = object(vec![
        ("image", object(vec![("timer", string("10m"))])),
        ("updater", object(vec![("checkInterval", string("2h"))])),
        ("renderer", string("shader")),
        ("shader", object(vec![("target_fps", node(HclValue::PosInt(30), "30"))])),
        ("max_cache_mb", node(HclValue::PosInt(16), "16")),
    ]);
    let a = config_from_document(&with_unknown, &env()).config;
    let b = config_from_document(&known, &env()).config;
    assert_eq!(a.image.timer, b.image.timer);
    assert_eq!(a.image.timer, 600);
    assert_eq!(a.image.format, b.image.format);
    assert_eq!(a.updater.check_interval, b.updater.check_interval);
    assert_eq!(a.renderer, b.renderer);
    assert_eq!(a.shader.as_ref().map(|s| s.target_fps), b.shader.as_ref().map(|s| s.target_fps));
    assert_eq!(a.shader.as_ref().map(|s| s.target_fps), Some(30));
    assert_eq!(a.max_cache_bytes, b.max_cache_bytes);
    assert_eq!(a.cache_dir, b.cache_dir);
}

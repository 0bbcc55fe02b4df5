use aura::config::OutputFormat;
use aura::pipeline::{
    build_cache_key, cache_total, convert_for_output, eviction_order, path_output_format, should_passthrough,
    total_after_removal, CacheFile,
};

#[test]
fn maps_path_extensions_to_output_format() {
    assert_eq!(path_output_format("photo.jpg", '/'), Some(OutputFormat::Jpg));
    assert_eq!(path_output_format("photo.jpeg", '/'), Some(OutputFormat::Jpg));
    assert_eq!(path_output_format("photo.JPG", '/'), Some(OutputFormat::Jpg));
    assert_eq!(path_output_format("photo.png", '/'), Some(OutputFormat::Png));
    assert_eq!(path_output_format("photo.webp", '/'), None);
}

#[test]
fn passthrough_only_for_matching_format() {
    assert!(should_passthrough("/pics/a.JPEG", OutputFormat::Jpg, '/'));
    assert!(!should_passthrough("/pics/a.png", OutputFormat::Jpg, '/'));
    assert!(!should_passthrough("/pics/source.bin", OutputFormat::Png, '/'));
}

#[test]
fn cache_key_hashes_source_digest_format_and_quality() {
    let source = b"pixels";
    let inner = blake3::hash(source).to_hex().to_string();
    let expected = blake3::hash(format!("{inner}:jpg:90").as_bytes()).to_hex().to_string();
    assert_eq!(build_cache_key(source, OutputFormat::Jpg, 90), expected);
    assert_ne!(build_cache_key(source, OutputFormat::Jpg, 80), expected);
}

fn file(path: &str, modified: u128, len: u64) -> CacheFile {
    CacheFile { path: path.to_string(), modified, len }
}

#[test]
fn eviction_order_is_oldest_first_and_stable() {
    let files = vec![file("c", 30, 1), file("a", 10, 1), file("b", 30, 1), file("d", 5, 1)];
    let order: Vec<String> = eviction_order(&files).into_iter().map(|f| f.path).collect();
    assert_eq!(order, vec!["d", "a", "c", "b"]);
    assert_eq!(cache_total(&files), 4);
}

#[test]
fn removal_reduces_total_only_when_it_succeeds() {
    assert_eq!(total_after_removal(10, 4, true), 6);
    assert_eq!(total_after_removal(10, 4, false), 10);
    assert_eq!(total_after_removal(3, 4, true), 0);
}

fn tiny_png() -> Vec<u8> {
    let img = image::RgbaImage::from_pixel(2, 2, image::Rgba([10, 20, 30, 255]));
    let mut out = std::io::Cursor::new(Vec::new());
    image::DynamicImage::ImageRgba8(img).write_to(&mut out, image::ImageFormat::Png).unwrap();
    out.into_inner()
}

#[test]
fn conversion_reencodes_to_requested_format() {
    let jpeg = convert_for_output(&tiny_png(), OutputFormat::Jpg, 90).unwrap();
    assert_eq!(&jpeg[..2], &[0xFF, 0xD8]);
    assert_eq!(image::guess_format(&jpeg).unwrap(), image::ImageFormat::Jpeg);
    let png = convert_for_output(&jpeg, OutputFormat::Png, 90).unwrap();
    assert_eq!(image::guess_format(&png).unwrap(), image::ImageFormat::Png);
    let decoded = image::load_from_memory(&png).unwrap();
    assert_eq!((decoded.width(), decoded.height()), (2, 2));
}

#[test]
fn conversion_refuses_bytes_that_are_no_image() {
    assert_eq!(convert_for_output(b"not an image", OutputFormat::Jpg, 90), None);
    assert_eq!(convert_for_output(&[], OutputFormat::Png, 90), None);
}

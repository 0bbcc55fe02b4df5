use aura::sources::{extract_feed_image_urls, find_urls_in_text, image_urls_of_entries, looks_like_image_url, FeedEntry};
use aura::sources::{
    count_images_by_origin, dedup_by_id, download_target, extension_from_content_type,
    find_cached_image_path, image_id, is_supported_image, merge_candidates, origin_name,
    rss_candidate, DirectorySource, FileEntry, ImageCandidate, Origin, SingleSource,
};

fn hex(text: &str) -> String {
    blake3::hash(text.as_bytes()).to_hex().to_string()
}

#[test]
fn image_id_hashes_prefix_and_path() {
    assert_eq!(image_id("file", "/pics/a.jpg"), hex("file:/pics/a.jpg"));
    assert_ne!(image_id("directory", "/pics/a.jpg"), image_id("file", "/pics/a.jpg"));
}

#[test]
fn supported_images_by_extension() {
    assert!(is_supported_image("/pics/a.JPG", '/'));
    assert!(is_supported_image("b.webp", '/'));
    assert!(!is_supported_image("/pics/a.tiff", '/'));
    assert!(!is_supported_image("/pics/jpg", '/'));
}

#[test]
fn directory_source_filters_listing() {
    let source = DirectorySource::new("/pics".to_string(), true, vec![" .PNG ".to_string(), "png".to_string()]);
    let entries = vec![
        FileEntry { path: "/pics/a.png".to_string(), is_file: true, mtime: Some(5) },
        FileEntry { path: "/pics/b.jpg".to_string(), is_file: true, mtime: None },
        FileEntry { path: "/pics/c.PNG".to_string(), is_file: true, mtime: None },
        FileEntry { path: "/pics/d.png".to_string(), is_file: false, mtime: None },
    ];
    let found = source.candidates_from(&entries, '/');
    let paths: Vec<String> = found.iter().map(|c| c.display_source()).collect();
    assert_eq!(paths, vec!["/pics/a.png".to_string(), "/pics/c.PNG".to_string()]);
    assert_eq!(found[0].id, hex("directory:/pics/a.png"));
    assert_eq!(found[0].mtime, Some(5));
    let all = DirectorySource::new("/pics".to_string(), false, Vec::new());
    assert_eq!(all.candidates_from(&entries, '/').len(), 3);
}

#[test]
fn single_source_offers_its_image() {
    let source = SingleSource::new("/pics/a.jpg".to_string());
    assert_eq!(source.candidates_from(true, None, '/').len(), 1);
    assert_eq!(source.candidates_from(false, None, '/').len(), 0);
    assert_eq!(source.candidates_from(true, None, '/')[0].id, hex("file:/pics/a.jpg"));
}

#[test]
fn finds_cached_image_by_url_hash_stem() {
    let url = "https://example.com/a.png";
    let stem = hex(url);
    let names = vec![
        "other.png".to_string(),
        format!("{stem}.png"),
        format!("{stem}.jpg"),
    ];
    assert_eq!(
        find_cached_image_path("/cache/rss", url, &names, '/'),
        Some(format!("/cache/rss/{stem}.jpg"))
    );
    assert_eq!(find_cached_image_path("/cache/rss", url, &vec!["x.png".to_string()], '/'), None);
    let candidate = rss_candidate(url, "/cache/rss", None);
    assert_eq!(candidate.cached_local_path(&names, '/'), Some(format!("/cache/rss/{stem}.jpg")));
    assert!(candidate.is_prefetchable());
    assert_eq!(candidate.id, hex(&format!("rss:{url}")));
}

#[test]
fn download_target_uses_content_type_then_url() {
    let url = "https://example.com/pic.webp";
    let stem = hex(url);
    assert_eq!(
        download_target("/d", url, Some("Image/PNG"), 10, '/'),
        Some(format!("/d/{stem}.png"))
    );
    assert_eq!(download_target("/d", url, None, 10, '/'), Some(format!("/d/{stem}.webp")));
    assert_eq!(download_target("/d", url, Some("text/html"), 10, '/'), Some(format!("/d/{stem}.webp")));
    assert_eq!(download_target("/d", "https://example.com/page", Some("text/html"), 10, '/'), None);
    assert_eq!(download_target("/d", url, None, 0, '/'), None);
    assert_eq!(extension_from_content_type(Some("image/jpg")), Some("jpg".to_string()));
    assert_eq!(extension_from_content_type(Some("image/tiff")), None);
}

#[test]
fn merge_dedupes_and_orders_newest_first() {
    let a = ImageCandidate::local("a".to_string(), Origin::File, "/z.jpg".to_string(), Some(10));
    let b = ImageCandidate::local("b".to_string(), Origin::Directory, "/b.jpg".to_string(), Some(20));
    let a2 = ImageCandidate::local("a".to_string(), Origin::Directory, "/a.jpg".to_string(), Some(99));
    let c = ImageCandidate::local("c".to_string(), Origin::Directory, "/c.jpg".to_string(), Some(10));
    let d = ImageCandidate::rss("d".to_string(), "https://x/d.jpg".to_string(), "/d".to_string(), None);
    let items = vec![a, b, a2, c, d];
    assert_eq!(dedup_by_id(&items).len(), 4);
    let merged: Vec<String> = merge_candidates(&items).into_iter().map(|c| c.id).collect();
    assert_eq!(merged, vec!["b", "c", "a", "d"]);
    assert_eq!(count_images_by_origin(&items), (4, 1));
    assert_eq!(origin_name(Origin::Rss), "rss");
}

#[test]
fn feed_image_urls_are_collected_once_in_order() {
    let feed = r#"<?xml version="1.0"?>
<rss version="2.0"><channel><title>t</title><link>https://ex.com</link><description>d</description>
<item><title>a</title><link>https://ex.com/a.jpg</link><description>&lt;img src="https://ex.com/b.png"&gt; and https://ex.com/a.jpg</description></item>
<item><title>b</title><link>https://ex.com/page</link><description>see https://ex.com/c.webp</description></item>
</channel></rss>"#;
    let urls = extract_feed_image_urls(feed.as_bytes(), '/').unwrap();
    assert_eq!(
        urls,
        vec![
            "https://ex.com/a.jpg".to_string(),
            "https://ex.com/b.png".to_string(),
            "https://ex.com/c.webp".to_string()
        ]
    );
    assert!(extract_feed_image_urls(b"not a feed", '/').is_none());
    assert!(looks_like_image_url("https://ex.com/x/PIC.JPEG?size=2", '/'));
    assert!(!looks_like_image_url("https://ex.com/page", '/'));
    assert!(!looks_like_image_url("not a url", '/'));
}

#[test]
fn finds_image_urls_written_in_text() {
    let text = "<p><img src=\"https://e.com/a.png\"> see https://e.com/b.JPG and http://e.com/c.webp'</p>";
    assert_eq!(find_urls_in_text(text), vec!["https://e.com/a.png", "http://e.com/c.webp"]);
    assert!(find_urls_in_text("no links here").is_empty());
}

#[test]
fn image_urls_of_entries_keep_first_occurrences() {
    let entries = vec![
        FeedEntry {
            links: vec!["https://e.com/a.jpg".to_string(), "https://e.com/page".to_string()],
            summary: Some("https://e.com/b.png".to_string()),
            content: None,
        },
        FeedEntry {
            links: vec!["https://e.com/b.png".to_string()],
            summary: None,
            content: Some("<img src='https://e.com/c.gif'>".to_string()),
        },
    ];
    assert_eq!(
        image_urls_of_entries(&entries, '/'),
        vec!["https://e.com/a.jpg", "https://e.com/b.png", "https://e.com/c.gif"]
    );
}

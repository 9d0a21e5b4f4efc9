use hlsd::server::{content_meta, index_page, sanitize};

#[test]
fn sanitize_keeps_normal_components() {
    assert_eq!(sanitize("stream.m3u8").as_deref(), Some("stream.m3u8"));
    assert_eq!(sanitize("a/./b//c").as_deref(), Some("a/b/c"));
    assert_eq!(sanitize("dir/seg-00001.m4s/").as_deref(), Some("dir/seg-00001.m4s"));
    assert_eq!(sanitize("..hidden").as_deref(), Some("..hidden"));
}

#[test]
fn sanitize_rejects_traversal_and_roots() {
    assert_eq!(sanitize("../etc/passwd"), None);
    assert_eq!(sanitize("a/../b"), None);
    assert_eq!(sanitize("a/.."), None);
    assert_eq!(sanitize("/etc/passwd"), None);
    assert_eq!(sanitize("./stream.m3u8"), None);
    assert_eq!(sanitize("."), None);
    assert_eq!(sanitize(""), None);
    assert_eq!(sanitize("//"), None);
}

#[test]
fn sanitize_is_idempotent_on_examples() {
    for p in ["a/./b//c", "x/y/", "seg-00001.m4s"] {
        let once = sanitize(p).unwrap();
        assert_eq!(sanitize(&once).as_deref(), Some(once.as_str()));
    }
}

#[test]
fn content_types_and_caching() {
    assert_eq!(content_meta("out/stream.m3u8"), ("application/vnd.apple.mpegurl", "no-cache"));
    assert_eq!(content_meta("out/master.M3U8"), ("application/vnd.apple.mpegurl", "no-cache"));
    assert_eq!(content_meta("stream.mpd"), ("application/dash+xml", "no-cache"));
    assert_eq!(content_meta("init.mp4"), ("video/mp4", "public, max-age=31536000, immutable"));
    assert_eq!(content_meta("seg-00001.m4s"), ("video/iso.segment", "public, max-age=3600"));
    assert_eq!(content_meta("notes.txt"), ("application/octet-stream", "no-cache"));
    assert_eq!(content_meta("README"), ("application/octet-stream", "no-cache"));
    assert_eq!(content_meta(".m3u8"), ("application/octet-stream", "no-cache"));
    assert_eq!(content_meta("x.tar.mp4"), ("video/mp4", "public, max-age=31536000, immutable"));
}

#[test]
fn landing_page_lists_enabled_outputs() {
    let hls_only = index_page(true, false);
    assert!(hls_only.starts_with("<!doctype html>"));
    assert!(hls_only.contains("<a href=\"/stream.m3u8\">"));
    assert!(hls_only.contains("<a href=\"/master.m3u8\">"));
    assert!(hls_only.contains("<audio controls src=\"/stream.m3u8\"></audio>"));
    assert!(!hls_only.contains("stream.mpd"));
    let dash_only = index_page(false, true);
    assert!(dash_only.contains("<a href=\"/stream.mpd\">/stream.mpd</a> (MPEG-DASH)"));
    assert!(!dash_only.contains("<audio"));
    assert_eq!(
        index_page(false, false),
        "<!doctype html><html><head><meta charset=\"utf-8\"><title>hlsd</title></head><body><h1>hlsd</h1><ul></ul></body></html>"
    );
}

#[test]
fn content_type_ignores_trailing_separators() {
    assert_eq!(content_meta("a.m3u8/"), ("application/vnd.apple.mpegurl", "no-cache"));
    assert_eq!(content_meta("dir/x.mpd/."), ("application/dash+xml", "no-cache"));
    assert_eq!(content_meta("x.mp4/.."), ("application/octet-stream", "no-cache"));
    assert_eq!(content_meta("./"), ("application/octet-stream", "no-cache"));
}

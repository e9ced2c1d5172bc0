use bo::youtube::url::{classify_url, YoutubeUrlMatch};

fn supported(input: &str) -> (String, String) {
    match classify_url(input) {
        YoutubeUrlMatch::Supported(s) => (s.video_id().to_string(), s.normalized_url().to_string()),
        other => panic!("expected supported, got {:?}", other),
    }
}

fn unsupported_reason(input: &str) -> String {
    match classify_url(input) {
        YoutubeUrlMatch::Unsupported { reason, .. } => reason,
        other => panic!("expected unsupported, got {:?}", other),
    }
}

#[test]
fn watch_url_is_supported() {
    let (id, url) = supported("https://www.youtube.com/watch?v=a1mhk7mAetk");
    assert_eq!(id, "a1mhk7mAetk");
    assert_eq!(url, "https://www.youtube.com/watch?v=a1mhk7mAetk");
}

#[test]
fn short_link_and_shorts_are_supported() {
    assert_eq!(supported("https://youtu.be/a1mhk7mAetk").0, "a1mhk7mAetk");
    assert_eq!(supported("https://YouTube.com/shorts/a1mhk7mAetk/").0, "a1mhk7mAetk");
}

#[test]
fn unsupported_youtube_pages_give_reasons() {
    assert_eq!(
        unsupported_reason("https://www.youtube.com/embed/a1mhk7mAetk"),
        "embed URLs are not collected; collect the containing page or original video URL"
    );
    assert_eq!(
        unsupported_reason("https://www.youtube.com/playlist?list=x"),
        "playlist collection is out of scope"
    );
    assert_eq!(
        unsupported_reason("https://www.youtube.com/@someone"),
        "channel collection is out of scope"
    );
    assert_eq!(
        unsupported_reason("https://www.youtube.com/watch?x=1"),
        "watch URL is missing v parameter"
    );
    assert_eq!(
        unsupported_reason("https://www.youtube.com/watch?v=short"),
        "video ID must be 11 URL-safe characters"
    );
    assert_eq!(
        unsupported_reason("https://youtu.be/"),
        "video ID is missing"
    );
    assert_eq!(
        unsupported_reason("https://youtu.be/a1mhk7mAe!k"),
        "video ID contains unsupported characters"
    );
    assert_eq!(
        unsupported_reason("https://m.youtube.com/watch?v=a1mhk7mAetk"),
        "host 'm.youtube.com' is not supported"
    );
    assert_eq!(
        unsupported_reason("ftp://youtube.com/x"),
        "scheme 'ftp' is not supported"
    );
}

#[test]
fn other_urls_are_not_youtube() {
    assert_eq!(classify_url("https://example.com/article"), YoutubeUrlMatch::NotYoutube);
    assert_eq!(classify_url("not a url"), YoutubeUrlMatch::NotYoutube);
}

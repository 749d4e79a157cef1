use arse::common::{slugify, with_trailing_newline};
use arse::config::AppConfig;
use arse::errors::RenderError;
use arse::render::Engine;
use arse::routes::mime_from_ext;

fn engine() -> Engine {
    let config = AppConfig::generate(
        "/srv/example",
        "Site Name",
        "Author Name",
        "https://my.example.site",
        "One, Two",
    );
    Engine::new(config).unwrap()
}

#[test]
fn post_id_with_dot_dot_is_forbidden() {
    let engine = engine();
    assert!(matches!(
        engine.post_path("one", ".."),
        Err(RenderError::Forbidden)
    ));
    assert!(matches!(
        engine.post_path("one", "../secret"),
        Err(RenderError::Forbidden)
    ));
    assert!(matches!(
        engine.post_path("one", "a/../b"),
        Err(RenderError::Forbidden)
    ));
    assert!(matches!(
        engine.post_path("one", "."),
        Err(RenderError::Forbidden)
    ));
}

#[test]
fn clean_post_id_resolves_under_webroot() {
    let engine = engine();
    let path = engine.post_path("one", "post1").unwrap();
    assert_eq!(path, "/srv/example/site/webroot/one/posts/post1.md");
    // Dots inside a component are not traversal.
    let dotted = engine.post_path("one", "v1.2-notes").unwrap();
    assert_eq!(dotted, "/srv/example/site/webroot/one/posts/v1.2-notes.md");
}

#[test]
fn asset_names_with_dot_segments_are_forbidden() {
    let engine = engine();
    assert!(matches!(
        engine.static_asset_path("../../etc/passwd"),
        Err(RenderError::Forbidden)
    ));
    assert!(matches!(
        engine.static_asset_path("css/../.."),
        Err(RenderError::Forbidden)
    ));
    assert!(matches!(
        engine.topic_asset_path("one", "./x"),
        Err(RenderError::Forbidden)
    ));
    let fine = engine.static_asset_path("css/style.css").unwrap();
    assert_eq!(fine, "/srv/example/site/webroot/static/css/style.css");
    let ext = engine.topic_asset_path("one", "img.png").unwrap();
    assert_eq!(ext, "/srv/example/site/webroot/one/ext/img.png");
}

#[test]
fn slugify_lowers_and_hyphenates() {
    assert_eq!(slugify("And More"), "and-more");
    assert_eq!(slugify("One"), "one");
    assert_eq!(slugify("A\tB"), "a-b");
}

#[test]
fn trailing_newline_added_once() {
    assert_eq!(with_trailing_newline("a = 1"), "a = 1\n");
    assert_eq!(with_trailing_newline("a = 1\n"), "a = 1\n");
    assert_eq!(with_trailing_newline(""), "\n");
}

#[test]
fn unclean_roots_are_unavailable() {
    // A web root the glob library would not read verbatim is refused
    // before any filesystem work: metacharacters, doubled separators,
    // or dot components.
    for dir in ["/srv/ex*mple", "/srv//example", "/srv/./example"] {
        let config = AppConfig::generate(
            dir,
            "Site Name",
            "Author Name",
            "https://my.example.site",
            "One, Two",
        );
        let engine = Engine::new(config).unwrap();
        assert!(matches!(
            engine.topic_sources("one"),
            Err(RenderError::ContentUnavailable(_))
        ));
        assert!(matches!(
            engine.gallery_sources(),
            Err(RenderError::ContentUnavailable(_))
        ));
        assert!(matches!(
            engine.rss_sources(),
            Err(RenderError::ContentUnavailable(_))
        ));
    }
}

#[test]
fn mime_lookup_uses_table_with_plain_fallback() {
    let table = vec![
        ("png".to_string(), "image/png".to_string()),
        ("css".to_string(), "text/css".to_string()),
    ];
    assert_eq!(mime_from_ext(&Some("png".to_string()), &table), "image/png");
    assert_eq!(mime_from_ext(&Some("css".to_string()), &table), "text/css");
    assert_eq!(mime_from_ext(&Some("bin".to_string()), &table), "text/plain");
    assert_eq!(mime_from_ext(&None, &table), "text/plain");
}

use arse::config::AppConfig;
use arse::errors::RenderError;
use arse::feed::PostSource;
use arse::render::Engine;

fn special_engine(dir: &str) -> Engine {
    let input = "Site Name\nAuthor Name\nhttps://special.example.site\nOne, Gallery\nadmin\n";
    let mut lines = input.lines();
    let config = AppConfig::generate(
        dir,
        lines.next().unwrap(),
        lines.next().unwrap(),
        lines.next().unwrap(),
        lines.next().unwrap(),
    );
    Engine::new(config).unwrap()
}

fn source(path: &str, content: &str) -> PostSource {
    PostSource {
        path: path.to_string(),
        content: content.to_string(),
        mtime_secs: 1_700_000_000,
    }
}

#[test]
fn check_render_rss() {
    let engine = special_engine("/srv/example");

    let main_post = "\n### The Main Page\n\nThis is just a main topic page.\n";
    let one_post1 = "\n### A first post in One\n\nSuper Wow!\n";
    let one_post2 = "\n### [A second post in One](/one/posts/2)\n\nSuper Wow TWICE!\n";

    let webroot = "/srv/example/site/webroot";
    let sources = vec![
        source(&format!("{}/main/posts/index.md", webroot), main_post),
        source(&format!("{}/one/posts/2.md", webroot), one_post2),
        source(&format!("{}/one/posts/1.md", webroot), one_post1),
    ];

    let rss = engine.rss(&sources).unwrap();

    assert!(rss.contains("The Main Page"));
    assert!(rss.contains("Super Wow!"));
    assert!(rss.contains("A second post in One"));
}

#[test]
fn rss_item_count_matches_post_count() {
    let engine = special_engine("/srv/example");
    let webroot = "/srv/example/site/webroot";

    let sources = vec![
        source(&format!("{}/main/posts/index.md", webroot), "### Main\n\nBody\n"),
        source(&format!("{}/one/posts/2.md", webroot), "### Two\n\nBody\n"),
        source(&format!("{}/one/posts/1.md", webroot), "### One\n\nBody\n"),
    ];
    let rss = engine.rss(&sources).unwrap();
    assert_eq!(rss.matches("<item>").count(), sources.len());
}

#[test]
fn rss_links_join_topic_and_stem() {
    let engine = special_engine("/srv/example");
    let webroot = "/srv/example/site/webroot";

    let sources = vec![source(&format!("{}/one/posts/hello.md", webroot), "### Hi\n\nThere\n")];
    let rss = engine.rss(&sources).unwrap();
    assert!(rss.contains("<link>https://special.example.site/one/hello</link>"));
    assert!(rss.contains("<title>Site Name</title>"));
    assert!(rss.contains("Site Name RSS Feed"));
}

#[test]
fn rss_dates_are_rfc2822() {
    let engine = special_engine("/srv/example");
    let webroot = "/srv/example/site/webroot";

    // 1700000000 seconds after the epoch, in UTC.
    let sources = vec![source(&format!("{}/one/posts/a.md", webroot), "### A\n\nB\n")];
    let rss = engine.rss(&sources).unwrap();
    assert!(rss.contains("Tue, 14 Nov 2023 22:13:20 +0000"));
}

#[test]
fn rss_rejects_stray_source_paths() {
    let engine = special_engine("/srv/example");

    let stray = source("/elsewhere/one/posts/x.md", "### X\n");
    let result = engine.rss(&vec![stray]);
    assert!(matches!(result, Err(RenderError::ContentUnavailable(_))));
}

#[test]
fn rss_rejects_unrepresentable_timestamp() {
    let engine = special_engine("/srv/example");
    let webroot = "/srv/example/site/webroot";

    // The first second of year 10000 has no RFC 2822 form.
    let late = PostSource {
        path: format!("{}/one/posts/a.md", webroot),
        content: "### A\n".to_string(),
        mtime_secs: 253_402_300_800,
    };
    let result = engine.rss(&vec![late]);
    assert!(matches!(result, Err(RenderError::ContentUnavailable(_))));
}

#[test]
fn rss_of_empty_site_has_no_items() {
    let dir = tempfile::tempdir().unwrap();
    let engine = special_engine(dir.path().to_str().unwrap());

    // With no post files under this web root, the enumeration is empty.
    let paths = engine.rss_sources().unwrap();
    assert!(paths.is_empty());

    let rss = engine.rss(&Vec::new()).unwrap();
    assert_eq!(rss.matches("<item>").count(), 0);
    assert!(rss.contains("Site Name RSS Feed"));
}

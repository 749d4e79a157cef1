use std::io::Write;

use arse::common::sort_paths_desc;
use arse::config::AppConfig;
use arse::errors::RenderError;
use arse::render::Engine;

fn config_from(dir: &str, input: &str) -> AppConfig {
    let mut lines = input.lines();
    AppConfig::generate(
        dir,
        lines.next().unwrap(),
        lines.next().unwrap(),
        lines.next().unwrap(),
        lines.next().unwrap(),
    )
}

fn special_engine(dir: &str) -> Engine {
    let config = config_from(
        dir,
        "Site Name\nAuthor Name\nhttps://special.example.site\nOne, Gallery\nadmin\n",
    );
    Engine::new(config).unwrap()
}

#[test]
fn check_default_template() {
    let config = config_from(
        "/srv/example",
        "Site Name\nAuthor Name\nhttps://special.example.site\nOne, Gallery\nadmin\n",
    );
    let engine = Engine::new(config);
    assert!(engine.is_ok())
}

#[test]
fn check_render_post() {
    let engine = special_engine("/srv/example");

    let post = "\n### Something\n\nVery cool, but maybe not super useful\n";
    let post2 = "\n### Something Again\n\nSuper Wow!\n";

    let path1 = engine.post_path("one", "post1").unwrap();
    let page1 = engine.render_post(&path1, &Some(post.to_string())).unwrap();

    let path2 = engine.post_path("one", "post2").unwrap();
    let page2 = engine.render_post(&path2, &Some(post2.to_string())).unwrap();

    assert!(page1.contains("super useful"));
    assert!(page2.contains("Super Wow!"));

    // A post whose file could not be read is unavailable content.
    let missing = engine.post_path("one", "missing").unwrap();
    let result = engine.render_post(&missing, &None);
    assert!(matches!(result, Err(RenderError::ContentUnavailable(_))));
}

#[test]
fn check_render_topic() {
    let engine = special_engine("/srv/example");

    let post = "\n### Something\n\nVery cool, but maybe not super useful\n";
    let post2 = "\n### Something Again\n\nSuper Wow!\n";

    // Newest first: the later file name comes first, as topic_sources
    // orders the files it finds.
    let contents = vec![post2.to_string(), post.to_string()];
    let page = engine.render_topic("one", &contents).unwrap();

    assert!(page.contains("super useful"));
    assert!(page.contains("Super Wow!"));
    // The page carries the site metadata handed to the template.
    assert!(page.contains("Site Name"));
}

#[test]
fn check_render_empty_topic() {
    let dir = tempfile::tempdir().unwrap();
    let engine = special_engine(dir.path().to_str().unwrap());

    // No post files exist under this web root, so the listing is empty and
    // the template's empty state answers.
    let sources = engine.topic_sources("one").unwrap();
    assert!(sources.is_empty());
    let contents: Vec<String> = Vec::new();
    let page = engine.render_topic("one", &contents).unwrap();

    assert!(page.contains("Coming Soon"));
}

fn fixed_subdir(parent: &std::path::Path, name: &str) -> tempfile::TempDir {
    tempfile::Builder::new()
        .prefix(name)
        .rand_bytes(0)
        .tempdir_in(parent)
        .unwrap()
}

fn fixed_file(parent: &std::path::Path, stem: &str, bytes: &[u8]) -> tempfile::NamedTempFile {
    let mut file = tempfile::Builder::new()
        .prefix(stem)
        .suffix(".jpg")
        .rand_bytes(0)
        .tempfile_in(parent)
        .unwrap();
    file.write_all(bytes).unwrap();
    file
}

#[test]
fn check_render_gallery_topic() {
    let base = tempfile::tempdir().unwrap();
    let site = fixed_subdir(base.path(), "site");
    let webroot = fixed_subdir(site.path(), "webroot");
    let gallery = fixed_subdir(webroot.path(), "gallery");
    let ext = fixed_subdir(gallery.path(), "ext");

    let img0 = fixed_file(ext.path(), "0", b"some bytes");
    let img1 = fixed_file(ext.path(), "1", b"some more bytes");

    let engine = special_engine(base.path().to_str().unwrap());
    let page = engine.render_topic("gallery", &Vec::new()).unwrap();

    assert!(page.contains("<script>"));
    assert!(page.contains("gallery/ext/0.jpg"));

    // The enumeration lists exactly the two images, web-relative and
    // newest first.
    let images = engine.gallery_sources().unwrap();
    assert_eq!(images, vec!["gallery/ext/1.jpg", "gallery/ext/0.jpg"]);

    drop((img0, img1));
}

#[test]
fn render_gallery_from_lists_images() {
    let engine = special_engine("/srv/example");

    let images = vec!["gallery/ext/0.jpg".to_string(), "gallery/ext/1.jpg".to_string()];
    let page = engine.render_gallery_from(&images).unwrap();

    assert!(page.contains("<script>"));
    assert!(page.contains("gallery/ext/0.jpg"));
}

#[test]
fn check_render_empty_gallery() {
    let dir = tempfile::tempdir().unwrap();
    let engine = special_engine(dir.path().to_str().unwrap());

    // Nothing exists under this web root, so the gallery listing is empty.
    let page = engine.render_topic("gallery", &Vec::new()).unwrap();

    assert!(page.contains("Coming Soon"));
}

#[test]
fn sort_paths_newest_first() {
    let paths = vec![
        "one/posts/a.md".to_string(),
        "one/posts/c.md".to_string(),
        "one/posts/b.md".to_string(),
    ];
    assert_eq!(
        sort_paths_desc(paths),
        vec!["one/posts/c.md", "one/posts/b.md", "one/posts/a.md"]
    );
}

#[test]
fn render_topic_idempotent() {
    let engine = special_engine("/srv/example");

    let contents = vec!["### A post\n\nBody text".to_string()];
    let page1 = engine.render_topic("one", &contents).unwrap();
    let page2 = engine.render_topic("one", &contents).unwrap();
    assert_eq!(page1, page2);
}

#[test]
fn render_post_converts_markdown() {
    let engine = special_engine("/srv/example");

    let body = Some("### Heading\n\nBody".to_string());
    let page = engine.render_post("unused", &body).unwrap();
    assert!(page.contains("<h3>Heading</h3>"));
    assert!(!page.contains("### Heading"));
}

#[test]
fn startup_fails_on_missing_template() {
    let mut config = config_from(
        "/srv/example",
        "Site Name\nAuthor Name\nhttps://special.example.site\nOne, Gallery\nadmin\n",
    );
    config.site.template = "custom.tmpl".to_string();
    let engine = Engine::new(config);
    assert!(matches!(engine, Err(RenderError::StartupFailure)));
}

#[test]
fn known_topics_and_gallery_are_valid() {
    let engine = special_engine("/srv/example");

    assert!(engine.is_topic("one"));
    assert!(engine.is_topic("gallery"));
    assert!(!engine.is_topic("badtopic"));
}

use arse::config::{csv_to_vec, AppConfig, DocPaths, Server, Site};

#[test]
fn handle_csv_topics() {
    let reference_topics: Vec<String> = vec![
        "One".to_owned(),
        "Two".to_owned(),
        "Three".to_owned(),
        "And More".to_owned(),
    ];
    let topics = "One, Two, Three, And More".to_owned();
    assert_eq!(reference_topics, csv_to_vec(&topics))
}

#[test]
fn build_config_from_input() {
    let dir_str = "/srv/example";
    // Setup all target fields
    let src = "Site Name\nAuthor Name\nhttps://my.example.site\nOne, Two, Three, And More\n";
    let mut lines = src.lines();
    let config = AppConfig::generate(
        dir_str,
        lines.next().unwrap(),
        lines.next().unwrap(),
        lines.next().unwrap(),
        lines.next().unwrap(),
    );
    assert_eq!(config.site.name, "Site Name");
    assert_eq!(config.site.author, "Author Name");
    assert_eq!(config.site.url, "https://my.example.site");
    assert_eq!(config.site.template, "default.tmpl");
    assert_eq!(
        config.site.topics,
        vec!["One", "Two", "Three", "And More"]
    );
    assert_eq!(config.server.bind, "0.0.0.0");
    assert_eq!(config.server.port, 9090);
    assert_eq!(config.docpaths.templates, format!("{}/site/templates", dir_str));
    assert_eq!(config.docpaths.webroot, format!("{}/site/webroot", dir_str));
}

#[test]
fn csv_single_empty_field() {
    assert_eq!(csv_to_vec(""), vec![String::new()]);
}

#[test]
fn csv_trims_each_field() {
    assert_eq!(csv_to_vec("  a ,\tb , c\n"), vec!["a", "b", "c"]);
}

#[test]
fn site_from_input_trims_lines() {
    let site = Site::new_from_input(" Site \n", "Author\n", " https://x.example \n", "One\n");
    assert_eq!(site.name, "Site");
    assert_eq!(site.author, "Author");
    assert_eq!(site.url, "https://x.example");
    assert_eq!(site.template, "default.tmpl");
    assert_eq!(site.topics, vec!["One"]);
}

#[test]
fn server_defaults() {
    let server = Server::new();
    assert_eq!(server.bind, "0.0.0.0");
    assert_eq!(server.port, 9090);
}

#[test]
fn docpaths_under_dir() {
    let docpaths = DocPaths::new("/srv/blog");
    assert_eq!(docpaths.templates, "/srv/blog/site/templates");
    assert_eq!(docpaths.webroot, "/srv/blog/site/webroot");
}

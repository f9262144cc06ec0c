use viki::data::entry::WalkEntry;
use viki::error::BuildError;
use viki::rendering::style::load_stylesheets;
use viki::rendering::style::logical_name;
use viki::rendering::style::process_style;
use viki::rendering::style::StyleEmbed;
use viki::rendering::style::StyleState;
use viki::rendering::style::Stylesheets;
use viki::rendering::style::DEFAULT_SHEET_NAME;
use viki::rendering::style::EMBED_THRESHOLD;

fn walk_file(path: &str) -> WalkEntry {
    WalkEntry { path: path.to_string(), is_file: true, is_dir: false }
}

fn walk_dir(path: &str) -> WalkEntry {
    WalkEntry { path: path.to_string(), is_file: false, is_dir: true }
}

fn registry(paths: &[&str]) -> Stylesheets {
    let entries: Vec<WalkEntry> = paths.iter().map(|p| walk_file(p)).collect();
    load_stylesheets("styles", &entries).unwrap()
}

fn source_of(styles: &Stylesheets, name: &str) -> Option<String> {
    match styles.get_processed_style(name) {
        StyleState::Source(path) => Some(path),
        _ => None,
    }
}

#[test]
fn constants_are_the_base_name_and_the_threshold() {
    assert_eq!(DEFAULT_SHEET_NAME, "style");
    assert_eq!(EMBED_THRESHOLD, 512);
}

#[test]
fn logical_name_is_the_relative_path_without_extension() {
    assert_eq!(logical_name("post.scss", "styles/post.scss"), "post");
    assert_eq!(logical_name("blog/post.scss", "styles/blog/post.scss"), "blog/post");
    assert_eq!(logical_name("a/b/c.min.css", "styles/a/b/c.min.css"), "a/b/c.min");
    assert_eq!(logical_name("plain", "styles/plain"), "plain");
    assert_eq!(logical_name("", "styles"), "styles");
}

#[test]
fn load_stylesheets_indexes_files_by_logical_name() {
    let entries = vec![
        walk_dir("styles/blog"),
        walk_file("styles/style.scss"),
        walk_file("styles/blog/post.scss"),
        walk_file("styles/plain"),
    ];
    let styles = load_stylesheets("styles", &entries).unwrap();
    assert_eq!(source_of(&styles, "style"), Some("styles/style.scss".to_string()));
    assert_eq!(source_of(&styles, "blog/post"), Some("styles/blog/post.scss".to_string()));
    assert_eq!(source_of(&styles, "plain"), Some("styles/plain".to_string()));
    assert!(matches!(styles.get_processed_style("blog"), StyleState::Absent));
    assert!(matches!(styles.get_processed_style("post"), StyleState::Absent));
}

#[test]
fn load_stylesheets_lets_a_later_file_replace_an_earlier_one() {
    let styles = registry(&["styles/a.scss", "styles/a.css"]);
    assert_eq!(source_of(&styles, "a"), Some("styles/a.css".to_string()));
}

#[test]
fn load_stylesheets_of_nothing_is_empty() {
    let styles = load_stylesheets("styles", &Vec::new()).unwrap();
    assert!(matches!(styles.get_processed_style("style"), StyleState::Absent));
    match styles.get_style_embed("post") {
        StyleEmbed::Ready(html) => assert_eq!(html, ""),
        _ => panic!("nothing to compile"),
    }
}

#[test]
fn load_stylesheets_fails_on_a_file_outside_the_root() {
    let entries = vec![walk_file("styles/a.scss"), walk_file("elsewhere/b.scss"), walk_file("other/c.scss")];
    match load_stylesheets("styles", &entries) {
        Err(BuildError::Io(path)) => assert_eq!(path, "elsewhere/b.scss"),
        _ => panic!("expected an i/o error"),
    }
}

#[test]
fn load_stylesheets_passes_over_directories_outside_the_root() {
    let entries = vec![walk_dir("elsewhere"), walk_file("styles/a.scss")];
    let styles = load_stylesheets("styles", &entries).unwrap();
    assert_eq!(source_of(&styles, "a"), Some("styles/a.scss".to_string()));
}

#[test]
fn small_stylesheet_is_embedded_inline() {
    let css = b"body{color:red}\n".to_vec();
    let processed = process_style("post", css, "out").unwrap();
    assert_eq!(processed.html, "<style type=\"text/css\">body{color:red}\n</style>");
    assert!(processed.file.is_none());
}

#[test]
fn empty_stylesheet_is_embedded_inline() {
    let processed = process_style("post", Vec::new(), "out").unwrap();
    assert_eq!(processed.html, "<style type=\"text/css\"></style>");
    assert!(processed.file.is_none());
}

#[test]
fn stylesheet_just_below_the_threshold_is_embedded_inline() {
    let css = vec![b'a'; 511];
    let processed = process_style("post", css.clone(), "out").unwrap();
    let text = String::from_utf8(css).unwrap();
    assert_eq!(processed.html, format!("<style type=\"text/css\">{}</style>", text));
    assert!(processed.file.is_none());
}

#[test]
fn stylesheet_at_the_threshold_is_linked_and_written() {
    let css = vec![b'a'; 512];
    let processed = process_style("post", css.clone(), "out").unwrap();
    assert_eq!(processed.html, "<link rel=\"stylesheet\" href=\"/post.css\">");
    let file = processed.file.unwrap();
    assert_eq!(file.path, "out/post.css");
    assert_eq!(file.contents, css);
}

#[test]
fn large_nested_stylesheet_is_written_below_the_output_root() {
    let css = vec![b'x'; 2000];
    let processed = process_style("blog/post", css.clone(), "site/out").unwrap();
    assert_eq!(processed.html, "<link rel=\"stylesheet\" href=\"/blog/post.css\">");
    let file = processed.file.unwrap();
    assert_eq!(file.path, "site/out/blog/post.css");
    assert_eq!(file.contents, css);
}

#[test]
fn linked_stylesheet_is_written_where_its_link_points() {
    let css = "a".repeat(600).into_bytes();
    let processed = process_style("v1.2", css.clone(), "out").unwrap();
    assert_eq!(processed.html, "<link rel=\"stylesheet\" href=\"/v1.2.css\">");
    let file = processed.file.unwrap();
    assert_eq!(file.path, "out/v1.2.css");
    assert_eq!(file.contents, css);
    let styles = registry(&["styles/v1.2.scss"]);
    assert_eq!(source_of(&styles, "v1.2"), Some("styles/v1.2.scss".to_string()));
}

#[test]
fn large_stylesheet_need_not_be_text() {
    let css = vec![0xffu8; 600];
    let processed = process_style("bin", css.clone(), "out").unwrap();
    assert_eq!(processed.file.unwrap().contents, css);
}

#[test]
fn small_stylesheet_that_is_not_text_is_a_style_compile_error() {
    match process_style("broken", vec![b'a', 0xff, b'b'], "out") {
        Err(BuildError::StyleCompile(name)) => assert_eq!(name, "broken"),
        _ => panic!("expected a style compile error"),
    }
}

#[test]
fn inline_fragment_keeps_non_ascii_text() {
    let processed = process_style("p", "a::after{content:\"é→\"}".as_bytes().to_vec(), "out").unwrap();
    assert_eq!(processed.html, "<style type=\"text/css\">a::after{content:\"é→\"}</style>");
}

#[test]
fn embed_asks_for_the_base_stylesheet_first() {
    let styles = registry(&["styles/style.scss", "styles/post.scss"]);
    match styles.get_style_embed("post") {
        StyleEmbed::Compile { name, source } => {
            assert_eq!(name, "style");
            assert_eq!(source, "styles/style.scss");
        }
        _ => panic!("the base stylesheet is not compiled yet"),
    }
}

#[test]
fn embed_composes_base_then_named() {
    let mut styles = registry(&["styles/style.scss", "styles/post.scss"]);
    styles.store_compiled("style", b"a{b:c}".to_vec(), "out").unwrap();
    match styles.get_style_embed("post") {
        StyleEmbed::Compile { name, source } => {
            assert_eq!(name, "post");
            assert_eq!(source, "styles/post.scss");
        }
        _ => panic!("the page stylesheet is not compiled yet"),
    }
    styles.store_compiled("post", vec![b'p'; 600], "out").unwrap();
    match styles.get_style_embed("post") {
        StyleEmbed::Ready(html) => assert_eq!(
            html,
            "<style type=\"text/css\">a{b:c}</style><link rel=\"stylesheet\" href=\"/post.css\">"
        ),
        _ => panic!("nothing is left to compile"),
    }
}

#[test]
fn embed_without_base_is_the_named_fragment_alone() {
    let mut styles = registry(&["styles/post.scss"]);
    styles.store_compiled("post", b"p{}".to_vec(), "out").unwrap();
    match styles.get_style_embed("post") {
        StyleEmbed::Ready(html) => assert_eq!(html, "<style type=\"text/css\">p{}</style>"),
        _ => panic!("nothing is left to compile"),
    }
}

#[test]
fn embed_of_an_unknown_name_is_the_base_fragment_alone() {
    let mut styles = registry(&["styles/style.scss"]);
    styles.store_compiled("style", b"s{}".to_vec(), "out").unwrap();
    match styles.get_style_embed("nothing") {
        StyleEmbed::Ready(html) => assert_eq!(html, "<style type=\"text/css\">s{}</style>"),
        _ => panic!("nothing is left to compile"),
    }
}

#[test]
fn embed_of_the_base_name_holds_the_base_fragment_twice() {
    let mut styles = registry(&["styles/style.scss"]);
    styles.store_compiled("style", b"s{}".to_vec(), "out").unwrap();
    match styles.get_style_embed("style") {
        StyleEmbed::Ready(html) => assert_eq!(
            html,
            "<style type=\"text/css\">s{}</style><style type=\"text/css\">s{}</style>"
        ),
        _ => panic!("nothing is left to compile"),
    }
}

#[test]
fn a_stylesheet_is_compiled_into_the_cache_once() {
    let mut styles = registry(&["styles/post.scss"]);
    let first = styles.store_compiled("post", vec![b'p'; 700], "out").unwrap().unwrap();
    assert!(first.file.is_some());
    assert!(styles.store_compiled("post", b"other{}".to_vec(), "out").unwrap().is_none());
    match styles.get_processed_style("post") {
        StyleState::Cached(html) => assert_eq!(html, "<link rel=\"stylesheet\" href=\"/post.css\">"),
        _ => panic!("the stylesheet is cached"),
    }
}

#[test]
fn a_stylesheet_without_source_is_refused() {
    let mut styles = registry(&["styles/post.scss"]);
    assert!(styles.store_compiled("ghost", b"g{}".to_vec(), "out").unwrap().is_none());
    assert!(styles.store_compiled("ghost", vec![0xff], "out").unwrap().is_none());
    assert!(matches!(styles.get_processed_style("ghost"), StyleState::Absent));
    match styles.get_style_embed("ghost") {
        StyleEmbed::Compile { .. } => panic!("nothing of the name has a source"),
        StyleEmbed::Ready(html) => assert_eq!(html, ""),
    }
}

#[test]
fn every_request_gets_the_same_fragment() {
    let mut styles = registry(&["styles/style.scss", "styles/post.scss", "styles/other.scss"]);
    styles.store_compiled("style", b"s{}".to_vec(), "out").unwrap();
    styles.store_compiled("post", b"p{}".to_vec(), "out").unwrap();
    let first = match styles.get_style_embed("post") {
        StyleEmbed::Ready(html) => html,
        _ => panic!("nothing is left to compile"),
    };
    styles.store_compiled("other", b"o{}".to_vec(), "out").unwrap();
    styles.store_compiled("post", b"changed{}".to_vec(), "out").unwrap();
    let second = match styles.get_style_embed("post") {
        StyleEmbed::Ready(html) => html,
        _ => panic!("nothing is left to compile"),
    };
    assert_eq!(first, second);
    assert_eq!(first, "<style type=\"text/css\">s{}</style><style type=\"text/css\">p{}</style>");
}

#[test]
fn a_failed_store_leaves_the_stylesheet_pending() {
    let mut styles = registry(&["styles/post.scss"]);
    assert!(styles.store_compiled("post", vec![0xff], "out").is_err());
    assert!(matches!(styles.get_processed_style("post"), StyleState::Source(_)));
}

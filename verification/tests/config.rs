use viki::config::Config;
use viki::config::ConfigLoader;
use viki::config::Folders;
use viki::config::CONFIG_FILE_NAME;
use viki::context::Dirs;
use viki::error::BuildError;
use viki::Paths;
use viki::Viki;

fn config(content: Option<&str>, output: Option<&str>) -> Config {
    Config {
        folders: Folders {
            content: content.map(|s| s.to_string()),
            templates: None,
            stylesheets: Some("styles".to_string()),
            output: output.map(|s| s.to_string()),
        },
    }
}

#[test]
fn config_path_is_the_file_in_the_site_directory() {
    assert_eq!(CONFIG_FILE_NAME, "viki.toml");
    assert_eq!(ConfigLoader::config_path("site"), "site/viki.toml");
    assert_eq!(ConfigLoader::config_path("."), "./viki.toml");
    assert_eq!(ConfigLoader::config_path(""), "viki.toml");
}

#[test]
fn get_gives_the_loaded_configuration() {
    let loader = ConfigLoader::load("site".to_string(), config(Some("content"), None));
    assert_eq!(loader.dir(), "site");
    let got = Config::get(&loader);
    assert_eq!(got.folders.content, Some("content".to_string()));
    assert_eq!(got.folders.templates, None);
    assert_eq!(got.folders.stylesheets, Some("styles".to_string()));
    assert_eq!(got.folders.output, None);
}

#[test]
fn reload_replaces_the_configuration() {
    let mut loader = ConfigLoader::load("site".to_string(), config(Some("content"), None));
    loader.reload(config(Some("pages"), Some("public")));
    let got = Config::get(&loader);
    assert_eq!(got.folders.content, Some("pages".to_string()));
    assert_eq!(got.folders.output, Some("public".to_string()));
    assert_eq!(loader.dir(), "site");
}

#[test]
fn a_site_holds_and_reloads_its_configuration() {
    let mut site = Viki::load(Paths { config: "site".to_string() }, config(None, Some("out")));
    assert_eq!(site.config().folders.output, Some("out".to_string()));
    site.reload(config(Some("c"), None));
    assert_eq!(site.config().folders.content, Some("c".to_string()));
    assert_eq!(site.config().folders.output, None);
}

#[test]
fn error_message_names_kind_and_detail() {
    assert_eq!(BuildError::Io("a/b".to_string()).message(), "i/o error: a/b");
    assert_eq!(BuildError::Parse("bad".to_string()).message(), "parse error: bad");
    assert_eq!(BuildError::Template("t.html".to_string()).message(), "template error: t.html");
    assert_eq!(BuildError::StyleCompile("s".to_string()).message(), "style compile error: s");
    assert_eq!(BuildError::Glob("[".to_string()).message(), "glob error: [");
    assert_eq!(BuildError::Glob("[".to_string()).detail(), "[");
}

#[test]
fn dirs_lie_below_the_site_directory() {
    let folders = Folders {
        content: Some("content".to_string()),
        templates: Some("templates/".to_string()),
        stylesheets: Some("/abs/styles".to_string()),
        output: Some("public".to_string()),
    };
    let dirs = Dirs::resolve("site", &folders).unwrap();
    assert_eq!(dirs.content_dir, "site/content");
    assert_eq!(dirs.template_dir, "site/templates/");
    assert_eq!(dirs.stylesheet_dir, "/abs/styles");
    assert_eq!(dirs.output_dir, "site/public");
    let here = Dirs::resolve("", &folders).unwrap();
    assert_eq!(here.content_dir, "content");
}

#[test]
fn dirs_need_all_four_folders() {
    let all = Folders {
        content: Some("c".to_string()),
        templates: Some("t".to_string()),
        stylesheets: Some("s".to_string()),
        output: Some("o".to_string()),
    };
    assert!(Dirs::resolve(".", &all).is_some());
    assert!(Dirs::resolve(".", &Folders { content: None, ..all.clone() }).is_none());
    assert!(Dirs::resolve(".", &Folders { templates: None, ..all.clone() }).is_none());
    assert!(Dirs::resolve(".", &Folders { stylesheets: None, ..all.clone() }).is_none());
    assert!(Dirs::resolve(".", &Folders { output: None, ..all.clone() }).is_none());
}

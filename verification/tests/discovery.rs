use viki::content_loader::ContentLoader;
use viki::content_loader::TemplateName;
use viki::data::dir_loader::build_glob_set;
use viki::data::dir_loader::find_pages;
use viki::data::dir_loader::glob_set;
use viki::data::dir_loader::is_reserved;
use viki::data::dir_loader::DirListing;
use viki::data::dir_loader::DirLoader;
use viki::data::dir_loader::INDEX_FILE_NAME;
use viki::data::entry::DirEntry;
use viki::data::entry::WalkEntry;
use viki::data::index::IndexData;
use viki::error::BuildError;

fn file(name: &str) -> DirEntry {
    DirEntry { name: name.to_string(), is_file: true }
}

fn dir(name: &str) -> DirEntry {
    DirEntry { name: name.to_string(), is_file: false }
}

fn index(template: Option<&str>, wanted: &[&str], unwanted: &[&str]) -> IndexData {
    IndexData {
        default_template: template.map(|t| t.to_string()),
        include_files: wanted.iter().map(|p| p.to_string()).collect(),
        excluded_files: unwanted.iter().map(|p| p.to_string()).collect(),
    }
}

fn walk_file(path: &str) -> WalkEntry {
    WalkEntry { path: path.to_string(), is_file: true, is_dir: false }
}

fn walk_dir(path: &str) -> WalkEntry {
    WalkEntry { path: path.to_string(), is_file: false, is_dir: true }
}

#[test]
fn find_pages_keeps_matching_files_in_listing_order() {
    let entries = vec![file("b.toml"), file("a.toml"), file("notes.md"), file("_index.toml"), dir("sub.toml")];
    let pages = find_pages("content/blog", &index(None, &["*.toml"], &[]), &entries).unwrap();
    assert_eq!(pages, vec!["content/blog/b.toml".to_string(), "content/blog/a.toml".to_string()]);
}

#[test]
fn find_pages_applies_the_exclude_filter() {
    let entries = vec![file("a.toml"), file("draft-b.toml"), file("c.md")];
    let pages = find_pages("content", &index(None, &["*"], &["draft-*"]), &entries).unwrap();
    assert_eq!(pages, vec!["content/a.toml".to_string(), "content/c.md".to_string()]);
}

#[test]
fn find_pages_judges_the_entry_within_its_folder() {
    let entries = vec![file("_index.toml"), file("a.toml")];
    let pages = find_pages("content/drafts", &index(None, &["*.toml"], &["*draft*"]), &entries).unwrap();
    assert_eq!(pages, vec!["content/drafts/a.toml".to_string()]);
    let by_path = find_pages("content/blog", &index(None, &["content/blog/*.toml"], &[]), &entries).unwrap();
    assert!(by_path.is_empty());
}

#[test]
fn find_pages_supports_recursive_wildcards() {
    let entries = vec![file("a.toml"), file("b.toml")];
    let pages = find_pages("content/x/y", &index(None, &["**/a.toml"], &[]), &entries).unwrap();
    assert_eq!(pages, vec!["content/x/y/a.toml".to_string()]);
    let all = find_pages("content/x/y", &index(None, &["**"], &["**/b.*"]), &entries).unwrap();
    assert_eq!(all, vec!["content/x/y/a.toml".to_string()]);
}

#[test]
fn find_pages_never_takes_reserved_names() {
    let entries = vec![file("_index.toml"), file("_draft.toml"), file("x_.toml")];
    let pages = find_pages("c", &index(None, &["*"], &[]), &entries).unwrap();
    assert_eq!(pages, vec!["c/x_.toml".to_string()]);
}

#[test]
fn find_pages_without_include_patterns_finds_nothing() {
    let entries = vec![file("a.toml")];
    let pages = find_pages("c", &index(None, &[], &[]), &entries).unwrap();
    assert!(pages.is_empty());
}

#[test]
fn find_pages_with_no_matching_file_is_empty_not_an_error() {
    let entries = vec![file("a.md"), file("b.txt"), dir("c.toml")];
    let pages = find_pages("c", &index(Some("post"), &["*.toml"], &[]), &entries).unwrap();
    assert!(pages.is_empty());
    let nothing: Vec<DirEntry> = Vec::new();
    assert!(find_pages("c", &index(None, &["*.toml"], &[]), &nothing).unwrap().is_empty());
}

#[test]
fn malformed_include_pattern_is_a_glob_error_with_the_pattern() {
    let entries = vec![file("a.toml")];
    let r = find_pages("c", &index(None, &["*.toml", "[", "{"], &[]), &entries);
    match r {
        Err(BuildError::Glob(p)) => assert_eq!(p, "["),
        other => panic!("unexpected: {:?}", other),
    }
}

#[test]
fn malformed_exclude_pattern_is_a_glob_error_with_the_pattern() {
    let entries = vec![file("a.toml")];
    let r = find_pages("c", &index(None, &["*.toml"], &["a{b"]), &entries);
    match r {
        Err(BuildError::Glob(p)) => assert_eq!(p, "a{b"),
        other => panic!("unexpected: {:?}", other),
    }
}

#[test]
fn build_glob_set_and_glob_set_accept_well_formed_patterns() {
    let patterns = vec!["*.toml".to_string(), "**/x".to_string()];
    assert!(build_glob_set(&patterns).is_ok());
    let set = glob_set(&patterns).unwrap();
    assert_eq!(set.len(), 2);
    assert!(set.is_match("b.toml"));
    assert!(!set.is_match("a/b.toml"));
    assert!(set.is_match("a/b/x"));
    assert!(!set.is_match("b.md"));
    let empty: Vec<String> = Vec::new();
    let none = glob_set(&empty).unwrap();
    assert!(!none.is_match("anything"));
}

#[test]
fn build_glob_set_reports_the_first_malformed_pattern() {
    let patterns = vec!["ok".to_string(), "[z".to_string(), "[y".to_string()];
    match build_glob_set(&patterns) {
        Err(BuildError::Glob(p)) => assert_eq!(p, "[z"),
        _ => panic!("expected a glob error"),
    }
}

#[test]
fn reserved_names_start_with_an_underscore() {
    assert!(is_reserved("_index.toml"));
    assert!(is_reserved(INDEX_FILE_NAME));
    assert!(is_reserved("_"));
    assert!(!is_reserved("index.toml"));
    assert!(!is_reserved(""));
}

#[test]
fn index_path_is_the_descriptor_in_the_directory() {
    assert_eq!(DirLoader::index_path("content/blog"), "content/blog/_index.toml");
}

#[test]
fn directories_are_the_base_then_the_directories_of_the_walk() {
    let loader = DirLoader::new("content".to_string());
    assert_eq!(loader.base_path(), "content");
    let walk = vec![walk_dir("content/blog"), walk_file("content/blog/a.toml"), walk_dir("content/blog/deep"), walk_file("content/x")];
    assert_eq!(
        loader.directories(&walk),
        vec!["content".to_string(), "content/blog".to_string(), "content/blog/deep".to_string()]
    );
    assert_eq!(loader.directories(&Vec::new()), vec!["content".to_string()]);
}

#[test]
fn read_dir_without_descriptor_is_no_folder() {
    let loader = DirLoader::new("content".to_string());
    let listing = DirListing { path: "content/img".to_string(), index: None, entries: vec![file("a.toml")] };
    assert!(loader.read_dir(listing).unwrap().is_none());
}

#[test]
fn read_dir_with_descriptor_gives_the_folder() {
    let loader = DirLoader::new("content".to_string());
    let listing = DirListing {
        path: "content/blog".to_string(),
        index: Some(index(Some("post"), &["*.toml"], &[])),
        entries: vec![file("_index.toml"), file("a.toml")],
    };
    let folder = loader.read_dir(listing).unwrap().unwrap();
    assert_eq!(folder.content_root, "content");
    assert_eq!(folder.path, "content/blog");
    assert_eq!(folder.index.default_template, Some("post".to_string()));
    assert_eq!(folder.pages, vec!["content/blog/a.toml".to_string()]);
}

#[test]
fn read_dir_with_descriptor_and_no_match_gives_an_empty_folder() {
    let loader = DirLoader::new("content".to_string());
    let listing = DirListing {
        path: "content/empty".to_string(),
        index: Some(index(None, &["*.toml"], &[])),
        entries: vec![file("_index.toml"), file("readme.md")],
    };
    let folder = loader.read_dir(listing).unwrap().unwrap();
    assert_eq!(folder.path, "content/empty");
    assert!(folder.pages.is_empty());
}

#[test]
fn read_content_keeps_folders_in_order_and_skips_the_rest() {
    let loader = DirLoader::new("content".to_string());
    let listings = vec![
        DirListing { path: "content".to_string(), index: None, entries: vec![dir("blog"), dir("img"), dir("docs")] },
        DirListing { path: "content/blog".to_string(), index: Some(index(Some("post"), &["*.toml"], &[])), entries: vec![file("_index.toml"), file("a.toml")] },
        DirListing { path: "content/img".to_string(), index: None, entries: vec![file("x.png")] },
        DirListing { path: "content/docs".to_string(), index: Some(index(None, &["*.md"], &["wip.md"])), entries: vec![file("wip.md"), file("b.md")] },
    ];
    let folders = loader.read_content(listings).unwrap();
    assert_eq!(folders.len(), 2);
    assert_eq!(folders[0].path, "content/blog");
    assert_eq!(folders[0].pages, vec!["content/blog/a.toml".to_string()]);
    assert_eq!(folders[1].path, "content/docs");
    assert_eq!(folders[1].pages, vec!["content/docs/b.md".to_string()]);
    assert_eq!(folders[1].content_root, "content");
}

#[test]
fn read_content_fails_with_the_first_failing_directory() {
    let loader = DirLoader::new("content".to_string());
    let listings = vec![
        DirListing { path: "content/a".to_string(), index: Some(index(None, &["*"], &[])), entries: vec![] },
        DirListing { path: "content/b".to_string(), index: Some(index(None, &["[first"], &[])), entries: vec![] },
        DirListing { path: "content/c".to_string(), index: Some(index(None, &["[second"], &[])), entries: vec![] },
    ];
    match loader.read_content(listings) {
        Err(BuildError::Glob(p)) => assert_eq!(p, "[first"),
        _ => panic!("expected a glob error"),
    }
}

#[test]
fn read_content_of_nothing_is_nothing() {
    let loader = DirLoader::new("content".to_string());
    assert!(loader.read_content(Vec::new()).unwrap().is_empty());
}

#[test]
fn content_loader_finds_lower_case_toml_entries() {
    let loader = ContentLoader::new("content".to_string());
    assert_eq!(loader.path(), "content");
    let walk = vec![walk_file("content/a.toml"), walk_file("content/b.TOML"), walk_dir("content/c.toml"), walk_file("content/d.md"), walk_file("content/toml")];
    assert_eq!(loader.find_files(&walk), vec!["content/a.toml".to_string(), "content/c.toml".to_string()]);
}

#[test]
fn template_name_is_its_text() {
    let name = TemplateName("post".to_string());
    assert_eq!(name.as_ref(), "post");
}

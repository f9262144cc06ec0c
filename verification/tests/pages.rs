use viki::data::page::Page;
use viki::data::page::PageData;
use viki::data::page::PageMetadata;
use viki::data::page_loader::eq_ignore_ascii_case;
use viki::data::page_loader::is_data_path;
use viki::data::page_loader::load_page;
use viki::data::page_loader::to_ascii_lower;
use viki::data::page_loader::DATA_EXTENSION;
use viki::error::BuildError;

fn parse(text: String) -> Result<PageData, BuildError> {
    let mut table = match text.parse::<toml::Table>() {
        Ok(table) => table,
        Err(e) => return Err(BuildError::Parse(e.to_string())),
    };
    let template = match table.remove("metadata") {
        Some(toml::Value::Table(meta)) => match meta.get("template") {
            Some(toml::Value::String(t)) => Some(t.clone()),
            Some(_) => return Err(BuildError::Parse("template is no text".to_string())),
            None => None,
        },
        Some(_) => return Err(BuildError::Parse("metadata is no table".to_string())),
        None => None,
    };
    Ok(PageData { metadata: PageMetadata { template }, data: toml::Value::Table(table) })
}

fn never(_text: String) -> Result<PageData, BuildError> {
    panic!("the parser is not called for a page of text")
}

#[test]
fn data_extension_is_toml() {
    assert_eq!(DATA_EXTENSION, "toml");
}

#[test]
fn data_paths_have_the_toml_extension_in_any_case() {
    assert!(is_data_path("content/blog/a.toml"));
    assert!(is_data_path("a.TOML"));
    assert!(is_data_path("a.ToMl"));
    assert!(is_data_path("a.b.toml"));
    assert!(is_data_path(".hidden.toml"));
}

#[test]
fn other_paths_are_not_data_paths() {
    assert!(!is_data_path("content/blog/a.md"));
    assert!(!is_data_path("content/blog/a"));
    assert!(!is_data_path("content/blog/toml"));
    assert!(!is_data_path("content/blog/.toml"));
    assert!(!is_data_path("a.toml/b"));
    assert!(!is_data_path("a.tomll"));
    assert!(!is_data_path("a.tom"));
    assert!(!is_data_path("a.toml."));
    assert!(!is_data_path("a.tömL"));
    assert!(!is_data_path(""));
}

#[test]
fn ascii_lower_changes_capitals_only() {
    assert_eq!(to_ascii_lower('A'), 'a');
    assert_eq!(to_ascii_lower('Z'), 'z');
    assert_eq!(to_ascii_lower('q'), 'q');
    assert_eq!(to_ascii_lower('@'), '@');
    assert_eq!(to_ascii_lower('['), '[');
    assert_eq!(to_ascii_lower('É'), 'É');
    assert_eq!(to_ascii_lower('0'), '0');
}

#[test]
fn eq_ignore_ascii_case_compares_letter_by_letter() {
    assert!(eq_ignore_ascii_case("TOML", "toml"));
    assert!(eq_ignore_ascii_case("", ""));
    assert!(eq_ignore_ascii_case("a1-B", "A1-b"));
    assert!(!eq_ignore_ascii_case("toml", "tomi"));
    assert!(!eq_ignore_ascii_case("toml", "tom"));
    assert!(!eq_ignore_ascii_case("é", "É"));
}

#[test]
fn a_page_of_text_is_its_content_unchanged() {
    let text = "# Title\n\nsome *text* with = signs\n".to_string();
    match load_page("content/blog/a.md", text.clone(), never).unwrap() {
        Page::Content(content) => assert_eq!(content, text),
        Page::Data(_) => panic!("expected a page of text"),
    }
}

#[test]
fn a_page_without_extension_is_a_page_of_text() {
    match load_page("content/blog/README", "hello".to_string(), never).unwrap() {
        Page::Content(content) => assert_eq!(content, "hello"),
        Page::Data(_) => panic!("expected a page of text"),
    }
}

#[test]
fn a_toml_page_is_a_page_of_data() {
    let page = load_page("content/blog/a.toml", "title = \"Hi\"\n".to_string(), parse).unwrap();
    match page {
        Page::Data(data) => {
            assert_eq!(data.metadata.template, None);
            assert_eq!(data.data.get("title").and_then(|v| v.as_str()), Some("Hi"));
        }
        Page::Content(_) => panic!("expected a page of data"),
    }
}

#[test]
fn an_upper_case_toml_page_is_a_page_of_data_too() {
    let page = load_page("A.TOML", "[metadata]\ntemplate = \"custom\"\n".to_string(), parse).unwrap();
    assert_eq!(page.template(), Some("custom"));
    assert!(matches!(page, Page::Data(_)));
}

#[test]
fn a_malformed_toml_page_is_a_parse_error() {
    match load_page("a.toml", "title = ".to_string(), parse) {
        Err(BuildError::Parse(message)) => assert!(!message.is_empty()),
        _ => panic!("expected a parse error"),
    }
}

#[test]
fn malformed_toml_in_a_page_of_text_is_no_error() {
    assert!(load_page("a.txt", "title = ".to_string(), never).is_ok());
}

#[test]
fn page_template_is_that_of_its_metadata() {
    let data = PageData {
        metadata: PageMetadata { template: Some("custom".to_string()) },
        data: toml::Value::Table(toml::Table::new()),
    };
    assert_eq!(Page::Data(data).template(), Some("custom"));
    assert_eq!(Page::Content("x".to_string()).template(), None);
    assert_eq!(PageMetadata::default().template, None);
}

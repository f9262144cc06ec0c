//! A page of the content tree, once loaded.

use vstd::prelude::*;

verus! {

/// `toml::Value`, the fields of a page; they are carried, never read.
#[verifier::external_type_specification]
#[verifier::external_body]
pub struct ExTomlValue(toml::Value);

/// A loaded page: structured data, or text taken as it is.
#[derive(Debug)]
pub enum Page {
    Data(PageData),
    Content(String),
}

/// The structured data of a page.
#[derive(Debug)]
pub struct PageData {
    /// What the page says of its own rendering.
    pub metadata: PageMetadata,
    /// The fields of the page, which its template reads.
    pub data: toml::Value,
}

/// What a page says of its own rendering.
#[derive(Clone, Debug)]
pub struct PageMetadata {
    /// The template that renders the page, in place of that of its folder.
    pub template: Option<String>,
}

impl Default for PageMetadata {
    /// Metadata that names no template.
    fn default() -> (r: Self)
        ensures
            r.template is None,
    {
        PageMetadata { template: None }
    }
}

impl PageMetadata {
    /// The template that the page names, as text.
    pub open spec fn spec_template(&self) -> Option<Seq<char>> {
        match self.template {
            Some(t) => Some(t@),
            None => None,
        }
    }
}

impl Page {
    /// The template that the page names: a page of text names none.
    pub open spec fn spec_template(&self) -> Option<Seq<char>> {
        match *self {
            Page::Data(d) => d.metadata.spec_template(),
            Page::Content(_) => None,
        }
    }

    /// The template that the page names.
    pub fn template(&self) -> (r: Option<&str>)
        ensures
            match r {
                Some(t) => self.spec_template() == Some(t@),
                None => self.spec_template() is None,
            },
    {
        match self {
            Page::Data(d) => match &d.metadata.template {
                Some(t) => Some(t.as_str()),
                None => None,
            },
            Page::Content(_) => None,
        }
    }
}

} // verus!

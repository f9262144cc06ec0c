//! The filter that turns Markdown into HTML.

use vstd::prelude::*;

verus! {

/// The filter that renders a text of Markdown as HTML.
pub struct Markdown;

/// The HTML that `comrak::markdown_to_html` makes of `text` with the default
/// options.
pub uninterp spec fn markdown_html(text: Seq<char>) -> Seq<char>;

/// `comrak::markdown_to_html` with the default options.
#[verifier::external_body]
fn markdown_to_html(text: &str) -> (html: String)
    ensures
        html@ == markdown_html(text@),
{
    comrak::markdown_to_html(text, &comrak::Options::default())
}

impl Markdown {
    /// Renders the Markdown `value` as HTML.
    pub fn filter(&self, value: &str) -> (html: String)
        ensures
            html@ == markdown_html(value@),
    {
        markdown_to_html(value)
    }
}

} // verus!

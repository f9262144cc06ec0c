//! The descriptor of a content folder.

use vstd::prelude::*;

verus! {

/// What the descriptor file of a folder declares.
#[derive(Clone, Debug)]
pub struct IndexData {
    /// The template that renders the pages of the folder which name none.
    pub default_template: Option<String>,
    /// The glob patterns of the files that are rendered.
    pub include_files: Vec<String>,
    /// The glob patterns of the files that are left out.
    pub excluded_files: Vec<String>,
}

/// A descriptor as text.
pub struct IndexDataView {
    pub default_template: Option<Seq<char>>,
    pub include_files: Seq<Seq<char>>,
    pub excluded_files: Seq<Seq<char>>,
}

/// A list of texts, each as its characters.
pub open spec fn texts(list: Seq<String>) -> Seq<Seq<char>> {
    list.map_values(|s: String| s@)
}

impl View for IndexData {
    type V = IndexDataView;

    open spec fn view(&self) -> IndexDataView {
        IndexDataView {
            default_template: match self.default_template {
                Some(t) => Some(t@),
                None => None,
            },
            include_files: texts(self.include_files@),
            excluded_files: texts(self.excluded_files@),
        }
    }
}

} // verus!

//! What can go wrong in a build.

use vstd::prelude::*;

verus! {

/// The first failure of a build. Each variant carries what locates the cause:
/// a path, a template name, a pattern, or the message of the service that
/// failed.
#[derive(Debug)]
pub enum BuildError {
    /// A file or directory could not be read, written or traversed, or a path
    /// lies outside the root it was expected under.
    Io(String),
    /// A structured page or a folder descriptor is malformed.
    Parse(String),
    /// A template is missing or could not be rendered.
    Template(String),
    /// A stylesheet could not be compiled into text.
    StyleCompile(String),
    /// A glob pattern is malformed.
    Glob(String),
}

/// An error as its kind and the text it carries.
pub enum BuildErrorView {
    Io(Seq<char>),
    Parse(Seq<char>),
    Template(Seq<char>),
    StyleCompile(Seq<char>),
    Glob(Seq<char>),
}

impl View for BuildError {
    type V = BuildErrorView;

    open spec fn view(&self) -> BuildErrorView {
        match *self {
            BuildError::Io(s) => BuildErrorView::Io(s@),
            BuildError::Parse(s) => BuildErrorView::Parse(s@),
            BuildError::Template(s) => BuildErrorView::Template(s@),
            BuildError::StyleCompile(s) => BuildErrorView::StyleCompile(s@),
            BuildError::Glob(s) => BuildErrorView::Glob(s@),
        }
    }
}

impl BuildError {
    /// The text that the error carries.
    pub open spec fn spec_detail(&self) -> Seq<char> {
        match *self {
            BuildError::Io(s) => s@,
            BuildError::Parse(s) => s@,
            BuildError::Template(s) => s@,
            BuildError::StyleCompile(s) => s@,
            BuildError::Glob(s) => s@,
        }
    }

    /// The words that name the kind of the error.
    pub open spec fn spec_label(&self) -> Seq<char> {
        match *self {
            BuildError::Io(_) => "i/o error: "@,
            BuildError::Parse(_) => "parse error: "@,
            BuildError::Template(_) => "template error: "@,
            BuildError::StyleCompile(_) => "style compile error: "@,
            BuildError::Glob(_) => "glob error: "@,
        }
    }

    /// The text that the error carries.
    pub fn detail(&self) -> (r: &str)
        ensures
            r@ == self.spec_detail(),
    {
        match self {
            BuildError::Io(s) => s.as_str(),
            BuildError::Parse(s) => s.as_str(),
            BuildError::Template(s) => s.as_str(),
            BuildError::StyleCompile(s) => s.as_str(),
            BuildError::Glob(s) => s.as_str(),
        }
    }

    /// The error in words: its kind, then what it carries.
    pub fn message(&self) -> (r: String)
        ensures
            r@ == self.spec_label() + self.spec_detail(),
    {
        let label: &str = match self {
            BuildError::Io(_) => "i/o error: ",
            BuildError::Parse(_) => "parse error: ",
            BuildError::Template(_) => "template error: ",
            BuildError::StyleCompile(_) => "style compile error: ",
            BuildError::Glob(_) => "glob error: ",
        };
        let mut out = label.to_owned();
        out.append(self.detail());
        out
    }
}

} // verus!

//! Writing a file: which directory has to exist before the bytes are written.

use vstd::prelude::*;
use crate::path::parent;
use crate::path::spec_parent;

verus! {

/// The step that persists one file.
pub struct SaveFile;

/// One file to write: where, and what.
#[derive(Debug)]
pub struct SaveFileParams {
    pub path: String,
    pub contents: Vec<u8>,
}

/// A file to write, as the text of its path and its bytes.
pub struct SaveFileParamsView {
    pub path: Seq<char>,
    pub contents: Seq<u8>,
}

impl View for SaveFileParams {
    type V = SaveFileParamsView;

    open spec fn view(&self) -> SaveFileParamsView {
        SaveFileParamsView { path: self.path@, contents: self.contents@ }
    }
}

impl SaveFile {
    /// The directory that has to exist before `params` is written: the parent
    /// of its path, where it has one that is not empty.
    pub open spec fn spec_directory(path: Seq<char>) -> Option<Seq<char>> {
        match spec_parent(path) {
            Some(dir) => if dir.len() > 0 {
                Some(dir)
            } else {
                None
            },
            None => None,
        }
    }

    /// The directory to create, with all that is missing above it, before the
    /// file of `params` is written.
    pub fn directory(&self, params: &SaveFileParams) -> (r: Option<String>)
        ensures
            match r {
                Some(dir) => Self::spec_directory(params.path@) == Some(dir@),
                None => Self::spec_directory(params.path@) is None,
            },
    {
        match parent(params.path.as_str()) {
            Some(dir) => {
                if dir.unicode_len() > 0 {
                    Some(dir.to_owned())
                } else {
                    None
                }
            },
            None => None,
        }
    }
}

} // verus!

//! Finding the files of a content tree that hold structured data.

use vstd::prelude::*;
use crate::data::entry::walk_view;
use crate::data::entry::WalkEntry;
use crate::data::entry::WalkEntryView;
use crate::data::index::texts;
use crate::path::extension;
use crate::path::spec_extension;
use crate::path::text_eq;

verus! {

/// The name of a template.
#[derive(Debug)]
pub struct TemplateName(pub String);

impl TemplateName {
    /// The name as text.
    pub fn as_ref(&self) -> (r: &str)
        ensures
            r@ == self.0@,
    {
        self.0.as_str()
    }
}

/// A page that names its template, with the rest of its fields.
#[derive(Debug)]
pub struct Page {
    pub template: TemplateName,
    pub data: toml::Value,
}

/// Finds the data files below a path.
pub struct ContentLoader {
    path: String,
}

/// Whether the entry at `path` is a data file: its extension is `toml`, in
/// lower case.
pub open spec fn spec_is_data_file(path: Seq<char>) -> bool {
    spec_extension(path) == Some("toml"@)
}

/// The paths of the data files among `walk`, in its order.
pub open spec fn spec_data_files(walk: Seq<WalkEntryView>) -> Seq<Seq<char>>
    decreases walk.len(),
{
    if walk.len() == 0 {
        Seq::empty()
    } else {
        let rest = spec_data_files(walk.drop_last());
        if spec_is_data_file(walk.last().path) {
            rest.push(walk.last().path)
        } else {
            rest
        }
    }
}

impl ContentLoader {
    /// The path that the loader searches below.
    pub closed spec fn spec_path(&self) -> Seq<char> {
        self.path@
    }

    /// A loader for the content below `path`.
    pub fn new(path: String) -> (loader: Self)
        ensures
            loader.spec_path() == path@,
    {
        Self { path }
    }

    /// The path that the loader searches below.
    pub fn path(&self) -> (r: &str)
        ensures
            r@ == self.spec_path(),
    {
        self.path.as_str()
    }

    /// The data files among the entries of a walk below the path of the
    /// loader, in the order of the walk.
    pub fn find_files(&self, walk: &Vec<WalkEntry>) -> (files: Vec<String>)
        ensures
            texts(files@) == spec_data_files(walk_view(walk@)),
    {
        let ghost all = walk_view(walk@);
        let mut files: Vec<String> = Vec::new();
        assert(texts(files@) =~= Seq::<Seq<char>>::empty());
        let mut i: usize = 0;
        while i < walk.len()
            invariant
                i <= walk.len(),
                all == walk_view(walk@),
                texts(files@) == spec_data_files(all.take(i as int)),
            decreases walk.len() - i,
        {
            let entry = &walk[i];
            proof {
                assert(all.take(i + 1).drop_last() =~= all.take(i as int));
                assert(all.take(i + 1).last() == entry@);
            }
            let is_data: bool = match extension(entry.path.as_str()) {
                Some(e) => text_eq(e, "toml"),
                None => false,
            };
            if is_data {
                let ghost before = texts(files@);
                files.push(entry.path.clone());
                assert(texts(files@) =~= before.push(entry.path@));
            }
            i = i + 1;
        }
        proof {
            assert(all.take(i as int) =~= all);
        }
        files
    }
}

} // verus!

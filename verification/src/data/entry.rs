//! What the file system reports of a directory, as plain values.

use vstd::prelude::*;
use crate::path::last_index_of;

verus! {

/// One entry of a walk through a directory tree.
#[derive(Debug)]
pub struct WalkEntry {
    /// The path of the entry, starting with the path that the walk began at.
    pub path: String,
    /// Whether the entry is a regular file.
    pub is_file: bool,
    /// Whether the entry is a directory.
    pub is_dir: bool,
}

/// A walk entry as the text of its path and its kind.
pub struct WalkEntryView {
    pub path: Seq<char>,
    pub is_file: bool,
    pub is_dir: bool,
}

impl View for WalkEntry {
    type V = WalkEntryView;

    open spec fn view(&self) -> WalkEntryView {
        WalkEntryView { path: self.path@, is_file: self.is_file, is_dir: self.is_dir }
    }
}

/// The entries of a walk, each as its view.
pub open spec fn walk_view(entries: Seq<WalkEntry>) -> Seq<WalkEntryView> {
    entries.map_values(|e: WalkEntry| e@)
}

/// One entry of the listing of a single directory.
#[derive(Debug)]
pub struct DirEntry {
    /// The name of the entry inside its directory.
    pub name: String,
    /// Whether the entry is a regular file.
    pub is_file: bool,
}

/// A directory entry as the text of its name and its kind.
pub struct DirEntryView {
    pub name: Seq<char>,
    pub is_file: bool,
}

impl DirEntryView {
    /// A name as a directory listing gives it: one component, not empty and
    /// without a `/`.
    pub open spec fn is_valid(&self) -> bool {
        self.name.len() > 0 && last_index_of(self.name, '/') == -1
    }
}

impl View for DirEntry {
    type V = DirEntryView;

    open spec fn view(&self) -> DirEntryView {
        DirEntryView { name: self.name@, is_file: self.is_file }
    }
}

/// The entries of a listing, each as its view.
pub open spec fn listing_view(entries: Seq<DirEntry>) -> Seq<DirEntryView> {
    entries.map_values(|e: DirEntry| e@)
}

} // verus!

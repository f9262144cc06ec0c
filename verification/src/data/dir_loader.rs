//! Content discovery: which directories are content folders, and which of
//! their files are pages.

use vstd::prelude::*;
use crate::data::entry::listing_view;
use crate::data::entry::walk_view;
use crate::data::entry::DirEntry;
use crate::data::entry::DirEntryView;
use crate::data::entry::WalkEntry;
use crate::data::entry::WalkEntryView;
use crate::data::glob::add_pattern;
use crate::data::glob::any_match;
use crate::data::glob::build_set;
use crate::data::glob::builder_patterns;
use crate::data::glob::glob_is_valid;
use crate::data::glob::glob_set_builds;
use crate::data::glob::new_builder;
use crate::data::glob::set_is_match;
use crate::data::glob::set_patterns;
use crate::data::index::texts;
use crate::data::index::IndexData;
use crate::data::index::IndexDataView;
use crate::error::BuildError;
use crate::error::BuildErrorView;
use crate::path::char_at;
use crate::path::char_count;
use crate::path::join;
use crate::path::lemma_file_name_of_join;
use crate::path::lemma_last_index_of;
use crate::path::lemma_strip_prefix_of_join;
use crate::path::spec_file_name;
use crate::path::spec_join;
use crate::path::spec_strip_prefix;

verus! {

/// The name of the descriptor file of a content folder.
pub const INDEX_FILE_NAME: &'static str = "_index.toml";

/// A name that is never a page: it starts with `_`, as the descriptor file
/// does.
pub open spec fn spec_is_reserved(name: Seq<char>) -> bool {
    name.len() > 0 && name[0] == '_'
}

/// The first of `patterns` that is no well-formed glob.
pub open spec fn spec_first_invalid(patterns: Seq<Seq<char>>) -> Option<Seq<char>>
    decreases patterns.len(),
{
    if patterns.len() == 0 {
        None
    } else {
        match spec_first_invalid(patterns.drop_last()) {
            Some(p) => Some(p),
            None => if glob_is_valid(patterns.last()) {
                None
            } else {
                Some(patterns.last())
            },
        }
    }
}

/// Whether `patterns` make a glob set: each is well formed and the set of them
/// can be built.
pub open spec fn spec_set_ok(patterns: Seq<Seq<char>>) -> bool {
    spec_first_invalid(patterns) is None && glob_set_builds(patterns)
}

/// The error that `patterns` give where they make no glob set: the first
/// malformed pattern, or where all are well formed, the message of the set
/// that could not be built.
pub open spec fn spec_set_error(patterns: Seq<Seq<char>>, error: BuildErrorView) -> bool {
    match spec_first_invalid(patterns) {
        Some(p) => error == BuildErrorView::Glob(p),
        None => !glob_set_builds(patterns) && error is Glob,
    }
}

/// Whether both filters of a descriptor make glob sets.
pub open spec fn spec_filters_ok(index: IndexDataView) -> bool {
    spec_set_ok(index.include_files) && spec_set_ok(index.excluded_files)
}

/// The error of a descriptor whose filters make no glob sets: that of the
/// include filter, else that of the exclude filter.
pub open spec fn spec_filters_error(index: IndexDataView, error: BuildErrorView) -> bool {
    if !spec_set_ok(index.include_files) {
        spec_set_error(index.include_files, error)
    } else {
        !spec_set_ok(index.excluded_files) && spec_set_error(index.excluded_files, error)
    }
}

/// Whether an entry with the file name `name` is kept as a page, given
/// whether it is a regular file and what the two filters say of its path: it
/// is a regular file, its name is not reserved, the include filter matches
/// and the exclude filter does not.
pub open spec fn spec_keeps(is_file: bool, name: Seq<char>, included: bool, excluded: bool) -> bool {
    is_file && !spec_is_reserved(name) && included && !excluded
}

/// Whether `entry` of a folder is a page. The filters judge the entry within
/// its folder: they see its name, not the path that leads to it.
pub open spec fn spec_is_page(
    includes: Seq<Seq<char>>,
    excludes: Seq<Seq<char>>,
    entry: DirEntryView,
) -> bool {
    spec_keeps(
        entry.is_file,
        entry.name,
        any_match(includes, entry.name),
        any_match(excludes, entry.name),
    )
}

/// The pages of the folder `dir`: the paths of those of `entries` that are
/// pages, in the order of the listing.
pub open spec fn spec_pages(
    includes: Seq<Seq<char>>,
    excludes: Seq<Seq<char>>,
    dir: Seq<char>,
    entries: Seq<DirEntryView>,
) -> Seq<Seq<char>>
    decreases entries.len(),
{
    if entries.len() == 0 {
        Seq::empty()
    } else {
        let rest = spec_pages(includes, excludes, dir, entries.drop_last());
        if spec_is_page(includes, excludes, entries.last()) {
            rest.push(spec_join(dir, entries.last().name))
        } else {
            rest
        }
    }
}

/// A content folder: a directory with a descriptor, and its pages.
#[derive(Clone, Debug)]
pub struct FolderData {
    /// The root of the content tree that the folder was found in.
    pub content_root: String,
    /// The path of the folder.
    pub path: String,
    /// What the descriptor of the folder declares.
    pub index: IndexData,
    /// The paths of the pages of the folder, in the order of its listing.
    pub pages: Vec<String>,
}

/// A content folder as text.
pub struct FolderDataView {
    pub content_root: Seq<char>,
    pub path: Seq<char>,
    pub index: IndexDataView,
    pub pages: Seq<Seq<char>>,
}

/// What holds of every page of a folder: it lies directly in the folder, its
/// name is not reserved, the include filter of the folder matches its name
/// and the exclude filter does not.
pub open spec fn spec_page_ok(index: IndexDataView, dir: Seq<char>, page: Seq<char>) -> bool {
    match spec_strip_prefix(page, dir) {
        Some(name) => {
            &&& spec_file_name(page) == name
            &&& !spec_is_reserved(name)
            &&& any_match(index.include_files, name)
            &&& !any_match(index.excluded_files, name)
        },
        None => false,
    }
}

impl FolderDataView {
    /// The invariant of a content folder: it holds of each of its pages what
    /// holds of every page.
    pub open spec fn is_valid(self) -> bool {
        forall|k: int|
            0 <= k < self.pages.len() ==> spec_page_ok(self.index, self.path, #[trigger] self.pages[k])
    }
}

impl View for FolderData {
    type V = FolderDataView;

    open spec fn view(&self) -> FolderDataView {
        FolderDataView {
            content_root: self.content_root@,
            path: self.path@,
            index: self.index@,
            pages: texts(self.pages@),
        }
    }
}

/// What was read of one directory of the content tree: its descriptor, where
/// it has one, and its listing.
#[derive(Debug)]
pub struct DirListing {
    /// The path of the directory.
    pub path: String,
    /// The descriptor of the directory; `None` where it has no descriptor file.
    pub index: Option<IndexData>,
    /// The entries directly in the directory.
    pub entries: Vec<DirEntry>,
}

/// A directory as text.
pub struct DirListingView {
    pub path: Seq<char>,
    pub index: Option<IndexDataView>,
    pub entries: Seq<DirEntryView>,
}

impl DirListingView {
    /// A listing as the file system gives it: each entry has the name of one
    /// component.
    pub open spec fn is_valid(self) -> bool {
        forall|i: int| 0 <= i < self.entries.len() ==> (#[trigger] self.entries[i]).is_valid()
    }
}

impl View for DirListing {
    type V = DirListingView;

    open spec fn view(&self) -> DirListingView {
        DirListingView {
            path: self.path@,
            index: match self.index {
                Some(ix) => Some(ix@),
                None => None,
            },
            entries: listing_view(self.entries@),
        }
    }
}

/// The directories read, each as its view.
pub open spec fn listings_view(listings: Seq<DirListing>) -> Seq<DirListingView> {
    listings.map_values(|l: DirListing| l@)
}

/// The folders found, each as its view.
pub open spec fn folders_view(folders: Seq<FolderData>) -> Seq<FolderDataView> {
    folders.map_values(|f: FolderData| f@)
}

/// The content folder that the directory `listing` is, if it is one: a
/// directory without a descriptor is none.
pub open spec fn spec_folder(root: Seq<char>, listing: DirListingView) -> Option<FolderDataView> {
    match listing.index {
        None => None,
        Some(ix) => Some(
            FolderDataView {
                content_root: root,
                path: listing.path,
                index: ix,
                pages: spec_pages(
                    ix.include_files,
                    ix.excluded_files,
                    listing.path,
                    listing.entries,
                ),
            },
        ),
    }
}

/// Whether the directory `listing` can be read as a folder or passed over:
/// it has no descriptor, or one whose filters make glob sets.
pub open spec fn spec_listing_ok(listing: DirListingView) -> bool {
    match listing.index {
        None => true,
        Some(ix) => spec_filters_ok(ix),
    }
}

/// The content folders among `listings`, in their order.
pub open spec fn spec_folders(root: Seq<char>, listings: Seq<DirListingView>) -> Seq<
    FolderDataView,
>
    decreases listings.len(),
{
    if listings.len() == 0 {
        Seq::empty()
    } else {
        let rest = spec_folders(root, listings.drop_last());
        match spec_folder(root, listings.last()) {
            Some(folder) => rest.push(folder),
            None => rest,
        }
    }
}

/// The position of the first of `listings` that cannot be read.
pub open spec fn spec_first_failure(listings: Seq<DirListingView>) -> Option<int>
    decreases listings.len(),
{
    if listings.len() == 0 {
        None
    } else {
        match spec_first_failure(listings.drop_last()) {
            Some(k) => Some(k),
            None => if spec_listing_ok(listings.last()) {
                None
            } else {
                Some(listings.len() - 1)
            },
        }
    }
}

/// The directories to look at after a walk from `base`: `base` itself, then
/// the directories that the walk found, in its order.
pub open spec fn spec_directories(base: Seq<char>, walk: Seq<WalkEntryView>) -> Seq<Seq<char>>
    decreases walk.len(),
{
    if walk.len() == 0 {
        seq![base]
    } else {
        let rest = spec_directories(base, walk.drop_last());
        if walk.last().is_dir {
            rest.push(walk.last().path)
        } else {
            rest
        }
    }
}

/// Reads the content tree below a base path.
pub struct DirLoader {
    base_path: String,
}

impl DirLoader {
    /// The root of the content tree.
    pub closed spec fn spec_base_path(&self) -> Seq<char> {
        self.base_path@
    }

    /// A loader for the content tree below `base_path`.
    pub fn new(base_path: String) -> (loader: Self)
        ensures
            loader.spec_base_path() == base_path@,
    {
        Self { base_path }
    }

    /// The root of the content tree.
    pub fn base_path(&self) -> (r: &str)
        ensures
            r@ == self.spec_base_path(),
    {
        self.base_path.as_str()
    }

    /// Where the descriptor of the directory `dir` lies, if it has one.
    pub fn index_path(dir: &str) -> (r: String)
        ensures
            r@ == spec_join(dir@, INDEX_FILE_NAME@),
    {
        join(dir, INDEX_FILE_NAME)
    }

    /// The directories to look at after a walk from the base path: the base
    /// path itself, then each directory of the walk.
    pub fn directories(&self, walk: &Vec<WalkEntry>) -> (dirs: Vec<String>)
        ensures
            texts(dirs@) == spec_directories(self.spec_base_path(), walk_view(walk@)),
    {
        let mut dirs: Vec<String> = Vec::new();
        dirs.push(self.base_path.clone());
        let ghost all = walk_view(walk@);
        assert(texts(dirs@) =~= seq![self.base_path@]);
        let mut i: usize = 0;
        while i < walk.len()
            invariant
                i <= walk.len(),
                all == walk_view(walk@),
                texts(dirs@) == spec_directories(self.spec_base_path(), all.take(i as int)),
            decreases walk.len() - i,
        {
            let entry = &walk[i];
            proof {
                assert(all.take(i + 1).drop_last() =~= all.take(i as int));
                assert(all.take(i + 1).last() == entry@);
            }
            if entry.is_dir {
                let ghost before = texts(dirs@);
                dirs.push(entry.path.clone());
                assert(texts(dirs@) =~= before.push(entry.path@));
            }
            i = i + 1;
        }
        proof {
            assert(all.take(i as int) =~= all);
        }
        dirs
    }

    /// Reads one directory. Without a descriptor it is no content folder and
    /// gives `None`. With one, its pages are picked from `entries` by the
    /// filters of the descriptor; a filter that makes no glob set fails the
    /// directory.
    pub fn read_dir(&self, listing: DirListing) -> (r: Result<Option<FolderData>, BuildError>)
        ensures
            match r {
                Ok(Some(folder)) => spec_listing_ok(listing@) && spec_folder(
                    self.spec_base_path(),
                    listing@,
                ) == Some(folder@),
                Ok(None) => spec_folder(self.spec_base_path(), listing@) is None,
                Err(e) => match listing@.index {
                    Some(ix) => spec_filters_error(ix, e@),
                    None => false,
                },
            },
    {
        let DirListing { path, index, entries } = listing;
        match index {
            None => Ok(None),
            Some(index_data) => {
                let pages = find_pages(path.as_str(), &index_data, &entries)?;
                Ok(
                    Some(
                        FolderData {
                            path,
                            index: index_data,
                            pages,
                            content_root: self.base_path.clone(),
                        },
                    ),
                )
            },
        }
    }

    /// Reads the directories of the content tree and keeps those that are
    /// content folders, in their order. The first directory that cannot be
    /// read fails the whole, with its error.
    pub fn read_content(&self, listings: Vec<DirListing>) -> (r: Result<Vec<FolderData>, BuildError>)
        ensures
            match r {
                Ok(folders) => spec_first_failure(listings_view(listings@)) is None
                    && folders_view(folders@) == spec_folders(
                    self.spec_base_path(),
                    listings_view(listings@),
                ),
                Err(e) => match spec_first_failure(listings_view(listings@)) {
                    Some(k) => 0 <= k < listings.len() && match listings[k]@.index {
                        Some(ix) => spec_filters_error(ix, e@),
                        None => false,
                    },
                    None => false,
                },
            },
    {
        let ghost all = listings_view(listings@);
        let mut folders: Vec<FolderData> = Vec::new();
        assert(folders_view(folders@) =~= Seq::<FolderDataView>::empty());
        for listing in it: listings
            invariant
                all == listings_view(it.seq()),
                all == listings_view(listings@),
                spec_first_failure(all.take(it.index() as int)) is None,
                folders_view(folders@) == spec_folders(
                    self.spec_base_path(),
                    all.take(it.index() as int),
                ),
        {
            let ghost done: int = it.index() as int;
            proof {
                assert(listing@ == all[done]);
                assert(all.take(done + 1).drop_last() =~= all.take(done));
                assert(all.take(done + 1).last() == all[done]);
            }
            match self.read_dir(listing) {
                Ok(Some(folder)) => {
                    let ghost before = folders_view(folders@);
                    folders.push(folder);
                    assert(folders_view(folders@) =~= before.push(folder@));
                },
                Ok(None) => {},
                Err(e) => {
                    proof {
                        lemma_first_failure_stays(all, done + 1);
                        assert(all[done] == listings[done]@);
                    }
                    return Err(e);
                },
            }
        }
        proof {
            assert(all.take(all.len() as int) =~= all);
        }
        Ok(folders)
    }
}

/// A failure among the first `n` listings is the first failure of all of them.
pub proof fn lemma_first_failure_stays(listings: Seq<DirListingView>, n: int)
    requires
        0 <= n <= listings.len(),
        spec_first_failure(listings.take(n)) is Some,
    ensures
        spec_first_failure(listings) == spec_first_failure(listings.take(n)),
    decreases listings.len() - n,
{
    if n < listings.len() {
        assert(listings.take(n + 1).drop_last() =~= listings.take(n));
        lemma_first_failure_stays(listings, n + 1);
    } else {
        assert(listings.take(n) =~= listings);
    }
}

/// A malformed pattern among the first `n` is the first malformed one of all.
pub proof fn lemma_first_invalid_stays(patterns: Seq<Seq<char>>, n: int)
    requires
        0 <= n <= patterns.len(),
        spec_first_invalid(patterns.take(n)) is Some,
    ensures
        spec_first_invalid(patterns) == spec_first_invalid(patterns.take(n)),
    decreases patterns.len() - n,
{
    if n < patterns.len() {
        assert(patterns.take(n + 1).drop_last() =~= patterns.take(n));
        lemma_first_invalid_stays(patterns, n + 1);
    } else {
        assert(patterns.take(n) =~= patterns);
    }
}

/// Every page of a folder lies directly in the folder, has a name that is
/// not reserved, and passes both filters with its name.
pub proof fn lemma_pages_pass_filters(
    includes: Seq<Seq<char>>,
    excludes: Seq<Seq<char>>,
    dir: Seq<char>,
    entries: Seq<DirEntryView>,
    k: int,
)
    requires
        forall|i: int| 0 <= i < entries.len() ==> (#[trigger] entries[i]).is_valid(),
        0 <= k < spec_pages(includes, excludes, dir, entries).len(),
    ensures
        ({
            let page = spec_pages(includes, excludes, dir, entries)[k];
            &&& spec_strip_prefix(page, dir) is Some
            &&& spec_file_name(page) == spec_strip_prefix(page, dir)->0
            &&& !spec_is_reserved(spec_file_name(page))
            &&& any_match(includes, spec_file_name(page))
            &&& !any_match(excludes, spec_file_name(page))
        }),
    decreases entries.len(),
{
    if entries.len() > 0 {
        let rest = spec_pages(includes, excludes, dir, entries.drop_last());
        let last = entries.last();
        if spec_is_page(includes, excludes, last) && k == rest.len() {
            assert(last.is_valid());
            lemma_last_index_of(last.name, '/');
            lemma_strip_prefix_of_join(dir, last.name);
            lemma_file_name_of_join(dir, last.name);
        } else {
            assert forall|i: int| 0 <= i < entries.drop_last().len() implies (
            #[trigger] entries.drop_last()[i]).is_valid() by {
                assert(entries.drop_last()[i] == entries[i]);
            }
            lemma_pages_pass_filters(includes, excludes, dir, entries.drop_last(), k);
        }
    }
}

/// The folder that a directory with a descriptor is keeps the invariant of
/// content folders.
pub proof fn lemma_folder_is_valid(root: Seq<char>, listing: DirListingView)
    requires
        listing.is_valid(),
        listing.index is Some,
    ensures
        spec_folder(root, listing) is Some,
        spec_folder(root, listing)->0.is_valid(),
{
    let ix = listing.index->0;
    let folder = spec_folder(root, listing)->0;
    assert forall|k: int| 0 <= k < folder.pages.len() implies spec_page_ok(
        folder.index,
        folder.path,
        #[trigger] folder.pages[k],
    ) by {
        lemma_pages_pass_filters(
            ix.include_files,
            ix.excluded_files,
            listing.path,
            listing.entries,
            k,
        );
    }
}

/// Every folder that discovery finds keeps the invariant of content folders.
pub proof fn lemma_folders_are_valid(root: Seq<char>, listings: Seq<DirListingView>, k: int)
    requires
        forall|i: int| 0 <= i < listings.len() ==> (#[trigger] listings[i]).is_valid(),
        0 <= k < spec_folders(root, listings).len(),
    ensures
        spec_folders(root, listings)[k].is_valid(),
        spec_folders(root, listings)[k].content_root == root,
    decreases listings.len(),
{
    if listings.len() > 0 {
        let rest = spec_folders(root, listings.drop_last());
        if spec_folder(root, listings.last()) is Some && k == rest.len() {
            assert(listings.last().is_valid());
            lemma_folder_is_valid(root, listings.last());
        } else {
            assert forall|i: int| 0 <= i < listings.drop_last().len() implies (
            #[trigger] listings.drop_last()[i]).is_valid() by {
                assert(listings.drop_last()[i] == listings[i]);
            }
            lemma_folders_are_valid(root, listings.drop_last(), k);
        }
    }
}

/// Whether each directory is listed once: no two of `listings` have the same
/// path.
pub open spec fn spec_listed_once(listings: Seq<DirListingView>) -> bool {
    forall|i: int, j: int|
        0 <= i < j < listings.len() ==> (#[trigger] listings[i]).path != (#[trigger] listings[j]).path
}

/// Every folder that discovery finds is the folder of one of the directories
/// with a descriptor, and stands where as many folders stand before it as
/// directories with a descriptor are listed before that directory.
pub proof fn lemma_folder_has_listing(root: Seq<char>, listings: Seq<DirListingView>, k: int)
    requires
        0 <= k < spec_folders(root, listings).len(),
    ensures
        exists|i: int|
            {
                &&& 0 <= i < listings.len()
                &&& spec_folder(root, #[trigger] listings[i]) == Some(spec_folders(root, listings)[k])
                &&& spec_folders(root, listings.take(i)).len() == k
            },
    decreases listings.len(),
{
    let n: int = listings.len() as int;
    let front = listings.drop_last();
    let rest = spec_folders(root, front);
    assert(listings.take(n - 1) =~= front);
    if spec_folder(root, listings.last()) is Some && k == rest.len() {
        assert(spec_folder(root, listings[n - 1]) == Some(spec_folders(root, listings)[k]));
    } else {
        lemma_folder_has_listing(root, front, k);
        let i = choose|i: int|
            {
                &&& 0 <= i < front.len()
                &&& spec_folder(root, #[trigger] front[i]) == Some(rest[k])
                &&& spec_folders(root, front.take(i)).len() == k
            };
        assert(front[i] == listings[i]);
        assert(front.take(i) =~= listings.take(i));
        assert(spec_folder(root, listings[i]) == Some(spec_folders(root, listings)[k]));
    }
}

/// The folders among the first `n` directories are the first folders among
/// all of them.
pub proof fn lemma_folders_grow(root: Seq<char>, listings: Seq<DirListingView>, n: int)
    requires
        0 <= n <= listings.len(),
    ensures
        spec_folders(root, listings.take(n)).len() <= spec_folders(root, listings).len(),
        forall|k: int|
            0 <= k < spec_folders(root, listings.take(n)).len() ==> spec_folders(
                root,
                listings.take(n),
            )[k] == spec_folders(root, listings)[k],
    decreases listings.len() - n,
{
    if n < listings.len() {
        assert(listings.take(n + 1).drop_last() =~= listings.take(n));
        lemma_folders_grow(root, listings, n + 1);
    } else {
        assert(listings.take(n) =~= listings);
    }
}

/// Where each directory is listed once, a directory with a descriptor has one
/// folder, and no more: the folder that it is stands among the folders found,
/// and it is the only one of them with the path of the directory.
pub proof fn lemma_one_folder_per_directory(root: Seq<char>, listings: Seq<DirListingView>, d: int)
    requires
        spec_listed_once(listings),
        0 <= d < listings.len(),
        listings[d].index is Some,
    ensures
        ({
            let folders = spec_folders(root, listings);
            let at = spec_folders(root, listings.take(d)).len() as int;
            &&& 0 <= at < folders.len()
            &&& Some(folders[at]) == spec_folder(root, listings[d])
            &&& forall|k: int|
                0 <= k < folders.len() && (#[trigger] folders[k]).path == listings[d].path ==> k
                    == at
        }),
{
    let folders = spec_folders(root, listings);
    let at = spec_folders(root, listings.take(d)).len() as int;
    assert(listings.take(d + 1).drop_last() =~= listings.take(d));
    assert(listings.take(d + 1).last() == listings[d]);
    lemma_folders_grow(root, listings, d + 1);
    assert(spec_folders(root, listings.take(d + 1))[at] == spec_folder(root, listings[d])->0);
    assert forall|k: int|
        0 <= k < folders.len() && (#[trigger] folders[k]).path == listings[d].path implies k
        == at by {
        lemma_folder_has_listing(root, listings, k);
        let i = choose|i: int|
            {
                &&& 0 <= i < listings.len()
                &&& spec_folder(root, #[trigger] listings[i]) == Some(folders[k])
                &&& spec_folders(root, listings.take(i)).len() == k
            };
        assert(listings[i].path == listings[d].path);
        if i < d {
            assert(listings[i].path != listings[d].path);
        }
        if d < i {
            assert(listings[d].path != listings[i].path);
        }
    }
}

/// Where each directory is listed once, a directory with a descriptor and no
/// matching file has one folder among the folders found, and that folder has
/// an empty page list.
pub proof fn lemma_empty_folder_is_found(root: Seq<char>, listings: Seq<DirListingView>, d: int)
    requires
        spec_listed_once(listings),
        0 <= d < listings.len(),
        listings[d].index is Some,
        forall|i: int|
            0 <= i < listings[d].entries.len() ==> !spec_is_page(
                listings[d].index->0.include_files,
                listings[d].index->0.excluded_files,
                #[trigger] listings[d].entries[i],
            ),
    ensures
        ({
            let folders = spec_folders(root, listings);
            let at = spec_folders(root, listings.take(d)).len() as int;
            &&& 0 <= at < folders.len()
            &&& folders[at].path == listings[d].path
            &&& folders[at].pages == Seq::<Seq<char>>::empty()
            &&& forall|k: int|
                0 <= k < folders.len() && (#[trigger] folders[k]).path == listings[d].path ==> k
                    == at
        }),
{
    lemma_one_folder_per_directory(root, listings, d);
    lemma_folder_without_pages(root, listings[d]);
}

/// A folder none of whose entries is a page has an empty page list.
pub proof fn lemma_no_page_no_pages(
    includes: Seq<Seq<char>>,
    excludes: Seq<Seq<char>>,
    dir: Seq<char>,
    entries: Seq<DirEntryView>,
)
    requires
        forall|i: int|
            0 <= i < entries.len() ==> !spec_is_page(includes, excludes, #[trigger] entries[i]),
    ensures
        spec_pages(includes, excludes, dir, entries) == Seq::<Seq<char>>::empty(),
    decreases entries.len(),
{
    if entries.len() > 0 {
        assert forall|i: int| 0 <= i < entries.drop_last().len() implies !spec_is_page(
            includes,
            excludes,
            #[trigger] entries.drop_last()[i],
        ) by {
            assert(entries.drop_last()[i] == entries[i]);
        }
        lemma_no_page_no_pages(includes, excludes, dir, entries.drop_last());
        assert(!spec_is_page(includes, excludes, entries.last()));
    }
}

/// A directory with a descriptor and no matching file is a content folder with
/// an empty page list, and reading it fails only where its filters make no
/// glob sets.
pub proof fn lemma_folder_without_pages(root: Seq<char>, listing: DirListingView)
    requires
        listing.index is Some,
        forall|i: int|
            0 <= i < listing.entries.len() ==> !spec_is_page(
                listing.index->0.include_files,
                listing.index->0.excluded_files,
                #[trigger] listing.entries[i],
            ),
    ensures
        spec_folder(root, listing) is Some,
        spec_folder(root, listing)->0.pages == Seq::<Seq<char>>::empty(),
        spec_folder(root, listing)->0.path == listing.path,
{
    let ix = listing.index->0;
    lemma_no_page_no_pages(ix.include_files, ix.excluded_files, listing.path, listing.entries);
}

/// A file whose name is reserved is no page, whatever the filters say.
pub proof fn lemma_reserved_is_no_page(
    includes: Seq<Seq<char>>,
    excludes: Seq<Seq<char>>,
    entry: DirEntryView,
)
    requires
        spec_is_reserved(entry.name),
    ensures
        !spec_is_page(includes, excludes, entry),
{
}

/// Whether `name` is reserved: it starts with `_`.
pub fn is_reserved(name: &str) -> (r: bool)
    ensures
        r == spec_is_reserved(name@),
{
    char_count(name) > 0 && char_at(name, 0) == '_'
}

/// Whether an entry with the file name `name` is kept as a page, given
/// whether it is a regular file, whether the include filter matches its path
/// and whether the exclude filter does.
pub fn keeps(is_file: bool, name: &str, included: bool, excluded: bool) -> (r: bool)
    ensures
        r == spec_keeps(is_file, name@, included, excluded),
{
    is_file && !is_reserved(name) && included && !excluded
}

/// The descriptor file has a reserved name, and so is never a page.
pub proof fn lemma_descriptor_is_reserved()
    ensures
        spec_is_reserved(INDEX_FILE_NAME@),
{
    reveal_strlit("_index.toml");
}

/// Collects `globs` in a glob set builder, in their order. The first pattern
/// that is malformed fails the whole, with the pattern in the error.
pub fn build_glob_set(globs: &Vec<String>) -> (r: Result<globset::GlobSetBuilder, BuildError>)
    ensures
        match r {
            Ok(builder) => spec_first_invalid(texts(globs@)) is None && builder_patterns(builder)
                == texts(globs@),
            Err(e) => match spec_first_invalid(texts(globs@)) {
                Some(p) => e@ == BuildErrorView::Glob(p),
                None => false,
            },
        },
{
    let ghost all = texts(globs@);
    let mut builder = new_builder();
    let mut i: usize = 0;
    while i < globs.len()
        invariant
            i <= globs.len(),
            all == texts(globs@),
            spec_first_invalid(all.take(i as int)) is None,
            builder_patterns(builder) == all.take(i as int),
        decreases globs.len() - i,
    {
        let pattern = &globs[i];
        proof {
            assert(all.take(i + 1).drop_last() =~= all.take(i as int));
            assert(all.take(i + 1).last() == pattern@);
            assert(all.take(i as int).push(pattern@) =~= all.take(i + 1));
        }
        match add_pattern(&mut builder, pattern.as_str()) {
            Ok(()) => {},
            Err(_) => {
                proof {
                    lemma_first_invalid_stays(all, i + 1);
                }
                return Err(BuildError::Glob(pattern.clone()));
            },
        }
        i = i + 1;
    }
    proof {
        assert(all.take(i as int) =~= all);
    }
    Ok(builder)
}

/// Makes a glob set of `globs`.
pub fn glob_set(globs: &Vec<String>) -> (r: Result<globset::GlobSet, BuildError>)
    ensures
        match r {
            Ok(set) => spec_set_ok(texts(globs@)) && set_patterns(set) == texts(globs@),
            Err(e) => !spec_set_ok(texts(globs@)) && spec_set_error(texts(globs@), e@),
        },
{
    let builder = build_glob_set(globs)?;
    match build_set(&builder) {
        Ok(set) => Ok(set),
        Err(error) => Err(BuildError::Glob(error.to_string())),
    }
}

/// Picks the pages of the folder `dir` from the listing `entries`: the regular
/// files whose name is not reserved, which the include patterns of
/// `index_data` match and its excludes patterns do not. Fails where the
/// patterns make no glob sets.
pub fn find_pages(dir: &str, index_data: &IndexData, entries: &Vec<DirEntry>) -> (r: Result<
    Vec<String>,
    BuildError,
>)
    ensures
        match r {
            Ok(pages) => spec_filters_ok(index_data@) && texts(pages@) == spec_pages(
                index_data@.include_files,
                index_data@.excluded_files,
                dir@,
                listing_view(entries@),
            ),
            Err(e) => spec_filters_error(index_data@, e@),
        },
{
    let include_set = glob_set(&index_data.include_files)?;
    let excluded_set = glob_set(&index_data.excluded_files)?;
    let ghost includes = index_data@.include_files;
    let ghost excludes = index_data@.excluded_files;
    let ghost all = listing_view(entries@);
    let mut pages: Vec<String> = Vec::new();
    assert(texts(pages@) =~= Seq::<Seq<char>>::empty());
    let mut i: usize = 0;
    while i < entries.len()
        invariant
            i <= entries.len(),
            all == listing_view(entries@),
            set_patterns(include_set) == includes,
            set_patterns(excluded_set) == excludes,
            texts(pages@) == spec_pages(includes, excludes, dir@, all.take(i as int)),
        decreases entries.len() - i,
    {
        let entry = &entries[i];
        proof {
            assert(all.take(i + 1).drop_last() =~= all.take(i as int));
            assert(all.take(i + 1).last() == entry@);
        }
        let name = entry.name.as_str();
        let included = set_is_match(&include_set, name);
        let excluded = set_is_match(&excluded_set, name);
        if keeps(entry.is_file, name, included, excluded) {
            let entry_path = join(dir, name);
            let ghost before = texts(pages@);
            pages.push(entry_path);
            assert(texts(pages@) =~= before.push(entry_path@));
        }
        i = i + 1;
    }
    proof {
        assert(all.take(i as int) =~= all);
    }
    Ok(pages)
}

} // verus!

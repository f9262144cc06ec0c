//! From a content folder to its pages, each with the default template of the
//! folder.

use vstd::prelude::*;
use crate::data::dir_loader::FolderData;
use crate::data::dir_loader::FolderDataView;
use crate::data::index::texts;
use crate::error::BuildError;
use crate::path::last_component;
use crate::path::last_index_of;
use crate::path::lemma_last_component;
use crate::path::spec_last_component;
use crate::pipeline::ProcessingStep;

verus! {

/// The step that lists the pages of a folder with their default template.
pub struct LoadDirContent;

/// The default template of a folder: the one that its descriptor declares,
/// else the name of its directory, which is the last component of its path
/// that is not empty.
pub open spec fn spec_default_template(folder: FolderDataView) -> Seq<char> {
    match folder.index.default_template {
        Some(t) => t,
        None => spec_last_component(folder.path),
    }
}

/// The pages of a folder, each with the default template of the folder.
pub open spec fn spec_page_jobs(folder: FolderDataView) -> Seq<(Seq<char>, Seq<char>)> {
    folder.pages.map_values(|p: Seq<char>| (p, spec_default_template(folder)))
}

/// Pairs of texts, each as its characters.
pub open spec fn pairs_view(pairs: Seq<(String, String)>) -> Seq<(Seq<char>, Seq<char>)> {
    pairs.map_values(|p: (String, String)| (p.0@, p.1@))
}

/// A folder that declares no template and whose path holds more than
/// separators has the name of its directory as its default template: a name
/// that is not empty and holds no separator.
pub proof fn lemma_default_template_is_directory_name(folder: FolderDataView)
    requires
        folder.index.default_template is None,
        exists|i: int| 0 <= i < folder.path.len() && folder.path[i] != '/',
    ensures
        spec_default_template(folder) == spec_last_component(folder.path),
        spec_default_template(folder).len() > 0,
        last_index_of(spec_default_template(folder), '/') == -1,
{
    lemma_last_component(folder.path);
}

/// The default template of `folder`.
pub fn default_template(folder: &FolderData) -> (r: String)
    ensures
        r@ == spec_default_template(folder@),
{
    match &folder.index.default_template {
        Some(t) => t.clone(),
        None => last_component(folder.path.as_str()).to_owned(),
    }
}

/// The pages of `folder`, in their order, each with the default template of
/// the folder.
pub fn page_jobs(folder: FolderData) -> (r: Vec<(String, String)>)
    ensures
        pairs_view(r@) == spec_page_jobs(folder@),
{
    let template = default_template(&folder);
    let ghost expected = spec_page_jobs(folder@);
    let mut jobs: Vec<(String, String)> = Vec::new();
    let pages = folder.pages;
    for page in it: pages
        invariant
            it.seq() == pages@,
            template@ == spec_default_template(folder@),
            texts(pages@) == folder@.pages,
            expected == spec_page_jobs(folder@),
            jobs.len() == it.index(),
            forall|i: int|
                0 <= i < jobs.len() ==> (#[trigger] jobs[i]).0@ == expected[i].0 && jobs[i].1@
                    == expected[i].1,
    {
        jobs.push((page, template.clone()));
    }
    assert(pairs_view(jobs@) =~= expected);
    jobs
}

impl ProcessingStep for LoadDirContent {
    type Input = FolderData;

    type Output = Vec<(String, String)>;

    /// Every folder is accepted.
    open spec fn accepts(&self, input: Self::Input) -> bool {
        true
    }

    /// The step does not fail, and gives the pages of the folder with its
    /// default template.
    open spec fn outcome(&self, input: Self::Input, result: Result<Self::Output, BuildError>) -> bool {
        match result {
            Ok(jobs) => pairs_view(jobs@) == spec_page_jobs(input@),
            Err(_) => false,
        }
    }

    fn process(&self, input: Self::Input) -> (r: Result<Self::Output, BuildError>) {
        Ok(page_jobs(input))
    }
}

} // verus!

//! The directories of one build.

use vstd::prelude::*;
use crate::config::Folders;
use crate::path::join;
use crate::path::spec_join;

verus! {

/// What every part of a build is handed: where things are.
#[derive(Debug)]
pub struct BuildContext {
    pub dirs: Dirs,
}

/// The four directories of a build.
#[derive(Debug)]
pub struct Dirs {
    /// The root of the content tree.
    pub content_dir: String,
    /// The directory of the templates.
    pub template_dir: String,
    /// The root of the stylesheet sources.
    pub stylesheet_dir: String,
    /// The root of the output tree.
    pub output_dir: String,
}

/// The directory `folder` of a site in `base`: `folder` below `base`.
fn below(base: &str, folder: &Option<String>) -> (r: Option<String>)
    ensures
        match r {
            Some(dir) => folder matches Some(f) && dir@ == spec_join(base@, f@),
            None => folder is None,
        },
{
    match folder {
        Some(f) => Some(join(base, f.as_str())),
        None => None,
    }
}

impl Dirs {
    /// The directories of the site in `base` whose configuration names
    /// `folders`: each folder below `base`. `None` where the configuration
    /// leaves one of the four out.
    pub fn resolve(base: &str, folders: &Folders) -> (r: Option<Dirs>)
        ensures
            match r {
                Some(dirs) => {
                    &&& folders.content matches Some(f) && dirs.content_dir@ == spec_join(base@, f@)
                    &&& folders.templates matches Some(f) && dirs.template_dir@ == spec_join(
                        base@,
                        f@,
                    )
                    &&& folders.stylesheets matches Some(f) && dirs.stylesheet_dir@ == spec_join(
                        base@,
                        f@,
                    )
                    &&& folders.output matches Some(f) && dirs.output_dir@ == spec_join(base@, f@)
                },
                None => folders.content is None || folders.templates is None
                    || folders.stylesheets is None || folders.output is None,
            },
    {
        let content_dir = below(base, &folders.content)?;
        let template_dir = below(base, &folders.templates)?;
        let stylesheet_dir = below(base, &folders.stylesheets)?;
        let output_dir = below(base, &folders.output)?;
        Some(Dirs { content_dir, template_dir, stylesheet_dir, output_dir })
    }
}

impl Clone for Dirs {
    fn clone(&self) -> (r: Self)
        ensures
            r == *self,
    {
        Dirs {
            content_dir: self.content_dir.clone(),
            template_dir: self.template_dir.clone(),
            stylesheet_dir: self.stylesheet_dir.clone(),
            output_dir: self.output_dir.clone(),
        }
    }
}

impl Clone for BuildContext {
    fn clone(&self) -> (r: Self)
        ensures
            r == *self,
    {
        BuildContext { dirs: self.dirs.clone() }
    }
}

} // verus!

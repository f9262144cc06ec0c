//! The configuration of a site: where its directories are.

use vstd::prelude::*;
use crate::path::join;
use crate::path::spec_join;

verus! {

/// The name of the configuration file of a site.
pub const CONFIG_FILE_NAME: &'static str = "viki.toml";

/// The configuration of a site.
#[derive(Debug)]
pub struct Config {
    pub folders: Folders,
}

/// The directories that a configuration names; each may be left out.
#[derive(Debug)]
pub struct Folders {
    pub content: Option<String>,
    pub templates: Option<String>,
    pub stylesheets: Option<String>,
    pub output: Option<String>,
}

/// A copy of a directory that may be left out.
fn clone_folder(folder: &Option<String>) -> (r: Option<String>)
    ensures
        r == *folder,
{
    match folder {
        Some(path) => Some(path.clone()),
        None => None,
    }
}

impl Clone for Folders {
    fn clone(&self) -> (r: Self)
        ensures
            r == *self,
    {
        Folders {
            content: clone_folder(&self.content),
            templates: clone_folder(&self.templates),
            stylesheets: clone_folder(&self.stylesheets),
            output: clone_folder(&self.output),
        }
    }
}

impl Clone for Config {
    fn clone(&self) -> (r: Self)
        ensures
            r == *self,
    {
        Config { folders: self.folders.clone() }
    }
}

impl Config {
    /// The configuration that `loader` holds: the one it was loaded or last
    /// reloaded with.
    pub fn get(loader: &ConfigLoader) -> (r: Self)
        ensures
            r == loader.spec_config(),
    {
        loader.config.clone()
    }
}

/// Holds the configuration of the site in a directory, and takes in a new one
/// when the file has been read again.
pub struct ConfigLoader {
    dir: String,
    config: Config,
}

impl ConfigLoader {
    /// The directory of the site.
    pub closed spec fn spec_dir(&self) -> Seq<char> {
        self.dir@
    }

    /// The configuration held.
    pub closed spec fn spec_config(&self) -> Config {
        self.config
    }

    /// Where the configuration file of the site in `dir` lies.
    pub fn config_path(dir: &str) -> (r: String)
        ensures
            r@ == spec_join(dir@, CONFIG_FILE_NAME@),
    {
        join(dir, CONFIG_FILE_NAME)
    }

    /// A loader for the site in `dir`, with the configuration `config` read
    /// from its configuration file.
    pub fn load(dir: String, config: Config) -> (loader: Self)
        ensures
            loader.spec_dir() == dir@,
            loader.spec_config() == config,
    {
        Self { dir, config }
    }

    /// Takes in `config`, read again from the configuration file, in place of
    /// the configuration held.
    pub fn reload(&mut self, config: Config)
        ensures
            final(self).spec_dir() == old(self).spec_dir(),
            final(self).spec_config() == config,
    {
        self.config = config;
    }

    /// The directory of the site.
    pub fn dir(&self) -> (r: &str)
        ensures
            r@ == self.spec_dir(),
    {
        self.dir.as_str()
    }
}

} // verus!

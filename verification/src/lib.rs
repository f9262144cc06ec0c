//! Builds a static site from a tree of content folders: the rules that decide
//! which files are pages, which template and stylesheet a page is rendered
//! with, and where the rendered page is written.

use vstd::prelude::*;
use crate::config::Config;
use crate::config::ConfigLoader;

pub mod common;
pub mod config;
pub mod content_loader;
pub mod context;
pub mod data;
pub mod error;
pub mod path;
pub mod pipeline;
pub mod processors;
pub mod rendering;

verus! {

/// Where the files of a site are.
#[derive(Debug)]
pub struct Paths {
    /// The directory that holds the configuration file.
    pub config: String,
}

/// A site with its configuration loaded.
pub struct Viki {
    config_loader: ConfigLoader,
}

impl Viki {
    /// The loader of the configuration of the site.
    pub closed spec fn spec_config_loader(&self) -> ConfigLoader {
        self.config_loader
    }

    /// The site at `paths`, with the configuration `config` read from its
    /// configuration file.
    pub fn load(paths: Paths, config: Config) -> (site: Self)
        ensures
            site.spec_config_loader().spec_dir() == paths.config@,
            site.spec_config_loader().spec_config() == config,
    {
        Self { config_loader: ConfigLoader::load(paths.config, config) }
    }

    /// Takes in `config`, read again from the configuration file.
    pub fn reload(&mut self, config: Config)
        ensures
            final(self).spec_config_loader().spec_dir() == old(self).spec_config_loader().spec_dir(),
            final(self).spec_config_loader().spec_config() == config,
    {
        self.config_loader.reload(config);
    }

    /// The configuration of the site.
    pub fn config(&self) -> (r: Config)
        ensures
            r == self.spec_config_loader().spec_config(),
    {
        Config::get(&self.config_loader)
    }
}

} // verus!

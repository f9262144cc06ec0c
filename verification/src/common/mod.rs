//! Steps that more than one part of a build shares.

pub mod save_file;

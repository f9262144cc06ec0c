//! The content tree as data: directory entries, folder descriptors, pages, and
//! the rules that pick the pages of a folder.

pub mod dir_loader;
pub mod entry;
pub mod glob;
pub mod index;
pub mod page;
pub mod page_loader;

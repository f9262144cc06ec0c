//! What templates can do to the values they are handed.

pub mod filters;

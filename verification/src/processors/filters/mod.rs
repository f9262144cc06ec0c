//! The filters that templates can apply.

pub mod markdown;

//! A file-path locator: the rules by which a crawl of the filesystem becomes a
//! catalogue of path entries, and by which queries are matched against it.

pub mod crawl;
pub mod entry;
pub mod path;
pub mod search;
pub mod store;
pub mod text;

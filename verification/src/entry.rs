//! The unit of the catalogue: a path together with its basename.

use crate::path::{last_segment, last_segment_of};
use vstd::prelude::*;

verus! {

/// What a `PathEntry` holds, as text.
pub struct PathEntryView {
    pub path: Seq<char>,
    pub basename: Seq<char>,
}

impl PathEntryView {
    /// The basename is the last segment of the path, and is not empty.
    pub open spec fn well_formed(self) -> bool {
        &&& self.basename == last_segment(self.path)
        &&& self.basename.len() > 0
    }
}

/// One record of the catalogue.
///
/// An entry made by `from_path` is well formed. One made by `new` holds what
/// it was given: the catalogue stores the basename and never derives it again.
#[derive(Debug, PartialEq, Eq)]
pub struct PathEntry {
    path: String,
    basename: String,
}

impl View for PathEntry {
    type V = PathEntryView;

    closed spec fn view(&self) -> PathEntryView {
        PathEntryView { path: self.path@, basename: self.basename@ }
    }
}

impl Clone for PathEntry {
    fn clone(&self) -> (copy: Self)
        ensures
            copy@ == self@,
    {
        PathEntry { path: self.path.clone(), basename: self.basename.clone() }
    }
}

impl PathEntry {
    /// An entry with the given path and basename, as a stored record gives
    /// them.
    pub fn new(path: String, basename: String) -> (entry: PathEntry)
        ensures
            entry@ == (PathEntryView { path: path@, basename: basename@ }),
    {
        PathEntry { path, basename }
    }

    /// The entry for `path`, with the last segment of `path` as its basename.
    ///
    /// There is none where that segment is empty: for the empty path, and for
    /// one that ends in a separator.
    pub fn from_path(path: &str) -> (made: Option<PathEntry>)
        ensures
            match made {
                Some(entry) => entry@.path == path@ && entry@.well_formed(),
                None => last_segment(path@).len() == 0,
            },
    {
        let basename = last_segment_of(path);
        if basename.as_str().is_empty() {
            None
        } else {
            Some(PathEntry { path: String::from_str(path), basename })
        }
    }

    /// The path of the entry.
    pub fn get_path(&self) -> (path: &str)
        ensures
            path@ == self@.path,
    {
        self.path.as_str()
    }

    /// The basename that the entry holds.
    pub fn get_basename(&self) -> (basename: &str)
        ensures
            basename@ == self@.basename,
    {
        self.basename.as_str()
    }
}

/// The views of `entries`, in order.
pub open spec fn entry_views(entries: Seq<PathEntry>) -> Seq<PathEntryView> {
    entries.map_values(|entry: PathEntry| entry@)
}

} // verus!

//! Paths as text: segments delimited by `/`, the last segment of a path, and
//! the directory that holds it.

use crate::text::chars_of;
use vstd::prelude::*;

verus! {

/// The character that delimits the segments of a path.
pub const SEPARATOR: char = '/';

/// `at` is the offset of a separator in `path`, and no separator follows it.
pub open spec fn is_last_separator(path: Seq<char>, at: int) -> bool {
    &&& 0 <= at < path.len()
    &&& path[at] == SEPARATOR
    &&& forall|later: int| at < later < path.len() ==> path[later] != SEPARATOR
}

/// The offset of the last separator in `path`, if it has one.
pub open spec fn last_separator(path: Seq<char>) -> Option<int> {
    if path.contains(SEPARATOR) {
        Some(choose|at: int| is_last_separator(path, at))
    } else {
        None
    }
}

/// The last `/`-delimited segment of `path`: what follows its last separator,
/// or all of it where it has none.
pub open spec fn last_segment(path: Seq<char>) -> Seq<char> {
    match last_separator(path) {
        Some(at) => path.skip(at + 1),
        None => path,
    }
}

/// What stands before the last segment of `path`, its last separator
/// included.
pub open spec fn before_last_segment(path: Seq<char>) -> Seq<char> {
    path.take(path.len() - last_segment(path).len())
}

/// `path` without its last segment and without the separator before it.
pub open spec fn leading_segments(path: Seq<char>) -> Seq<char> {
    match last_separator(path) {
        Some(at) => path.take(at),
        None => Seq::empty(),
    }
}

/// The directory of `path`: its leading segments, closed by a separator.
pub open spec fn parent_directory(path: Seq<char>) -> Seq<char> {
    leading_segments(path).push(SEPARATOR)
}

/// A separator stands at `at`, so some separator is the last one.
proof fn lemma_some_separator_is_last(path: Seq<char>, at: int)
    requires
        0 <= at < path.len(),
        path[at] == SEPARATOR,
    ensures
        exists|last: int| is_last_separator(path, last),
    decreases path.len() - at,
{
    if exists|later: int| at < later < path.len() && path[later] == SEPARATOR {
        let later = choose|later: int| at < later < path.len() && path[later] == SEPARATOR;
        lemma_some_separator_is_last(path, later);
    } else {
        assert(is_last_separator(path, at));
    }
}

/// A last separator is the last separator: no two offsets qualify.
pub proof fn lemma_last_separator_is(path: Seq<char>, at: int)
    requires
        is_last_separator(path, at),
    ensures
        last_separator(path) == Some(at),
{
    assert(path.contains(SEPARATOR));
    let chosen = choose|at: int| is_last_separator(path, at);
    assert(is_last_separator(path, chosen));
}

/// What `last_separator` names is a last separator; it names none exactly
/// where the path holds no separator.
pub proof fn lemma_last_separator_found(path: Seq<char>)
    ensures
        match last_separator(path) {
            Some(at) => is_last_separator(path, at),
            None => forall|i: int| 0 <= i < path.len() ==> path[i] != SEPARATOR,
        },
{
    if path.contains(SEPARATOR) {
        let at = choose|i: int| 0 <= i < path.len() && path[i] == SEPARATOR;
        lemma_some_separator_is_last(path, at);
    }
}

/// The last segment of a path holds no separator.
pub proof fn lemma_last_segment_is_one_segment(path: Seq<char>)
    ensures
        !last_segment(path).contains(SEPARATOR),
{
    lemma_last_separator_found(path);
}

/// A path is what stands before its last segment, followed by that segment.
/// Where the path holds a separator, what stands before is its directory.
pub proof fn lemma_directory_then_last_segment(path: Seq<char>)
    ensures
        before_last_segment(path) + last_segment(path) == path,
        path.contains(SEPARATOR) ==> parent_directory(path) == before_last_segment(path),
        !path.contains(SEPARATOR) ==> before_last_segment(path).len() == 0,
{
    lemma_last_separator_found(path);
    assert(before_last_segment(path) + last_segment(path) =~= path);
    if path.contains(SEPARATOR) {
        assert(parent_directory(path) =~= before_last_segment(path));
    }
}

/// The offset of the last separator among `chars`.
pub fn find_last_separator(chars: &Vec<char>) -> (found: Option<usize>)
    ensures
        match found {
            Some(at) => last_separator(chars@) == Some(at as int),
            None => last_separator(chars@) is None,
        },
{
    let mut end: usize = chars.len();
    while end > 0
        invariant
            end <= chars.len(),
            forall|later: int| end <= later < chars.len() ==> chars@[later] != SEPARATOR,
        decreases end,
    {
        end -= 1;
        if chars[end] == SEPARATOR {
            proof {
                lemma_last_separator_is(chars@, end as int);
            }
            return Some(end);
        }
    }
    None
}

/// The last segment of `path`, as a string of its own.
pub fn last_segment_of(path: &str) -> (segment: String)
    ensures
        segment@ == last_segment(path@),
{
    let chars = chars_of(path);
    match find_last_separator(&chars) {
        Some(at) => {
            proof {
                lemma_last_separator_found(path@);
            }
            String::from_str(path.substring_char(at + 1, chars.len()))
        },
        None => String::from_str(path),
    }
}

/// The directory of `path`, closed by a separator.
pub fn parent_directory_of(path: &str) -> (directory: String)
    ensures
        directory@ == parent_directory(path@),
{
    let chars = chars_of(path);
    match find_last_separator(&chars) {
        Some(at) => {
            proof {
                lemma_last_separator_found(path@);
                assert(at < chars.len());
                assert(path@.subrange(0, at + 1) =~= path@.take(at as int).push(SEPARATOR));
            }
            String::from_str(path.substring_char(0, at + 1))
        },
        None => {
            proof {
                reveal_strlit("/");
                assert("/"@ =~= Seq::<char>::empty().push(SEPARATOR));
            }
            String::from_str("/")
        },
    }
}

} // verus!

//! Character-level text search: where a pattern occurs in a string, and where
//! it occurs first.
//!
//! Offsets count characters, not bytes. Matching is exact: no case folding and
//! no normalisation.

use vstd::prelude::*;

verus! {

/// `needle` stands in `hay` at offset `at`.
pub open spec fn occurs_at(hay: Seq<char>, needle: Seq<char>, at: int) -> bool {
    &&& 0 <= at
    &&& at + needle.len() <= hay.len()
    &&& hay.subrange(at, at + needle.len()) == needle
}

/// `needle` stands somewhere in `hay`.
pub open spec fn occurs_in(hay: Seq<char>, needle: Seq<char>) -> bool {
    exists|at: int| occurs_at(hay, needle, at)
}

/// `needle` stands in `hay` at `at`, and at no smaller offset.
pub open spec fn is_first_occurrence(hay: Seq<char>, needle: Seq<char>, at: int) -> bool {
    &&& occurs_at(hay, needle, at)
    &&& forall|earlier: int| 0 <= earlier < at ==> !occurs_at(hay, needle, earlier)
}

/// The smallest offset at which `needle` stands in `hay`, if there is one.
pub open spec fn first_occurrence(hay: Seq<char>, needle: Seq<char>) -> Option<int> {
    if occurs_in(hay, needle) {
        Some(choose|at: int| is_first_occurrence(hay, needle, at))
    } else {
        None
    }
}

/// Below `bound` there is an occurrence, so there is a first one.
proof fn lemma_some_occurrence_is_first(hay: Seq<char>, needle: Seq<char>, bound: int)
    requires
        exists|at: int| 0 <= at < bound && occurs_at(hay, needle, at),
    ensures
        exists|at: int| is_first_occurrence(hay, needle, at),
    decreases bound,
{
    let at = choose|at: int| 0 <= at < bound && occurs_at(hay, needle, at);
    if exists|earlier: int| 0 <= earlier < at && occurs_at(hay, needle, earlier) {
        lemma_some_occurrence_is_first(hay, needle, at);
    } else {
        assert(is_first_occurrence(hay, needle, at));
    }
}

/// A first occurrence is the first occurrence: no two offsets qualify.
pub proof fn lemma_first_occurrence_is(hay: Seq<char>, needle: Seq<char>, at: int)
    requires
        is_first_occurrence(hay, needle, at),
    ensures
        first_occurrence(hay, needle) == Some(at),
{
    let chosen = choose|at: int| is_first_occurrence(hay, needle, at);
    assert(is_first_occurrence(hay, needle, chosen));
    if chosen < at {
        assert(!occurs_at(hay, needle, chosen));
    } else if at < chosen {
        assert(!occurs_at(hay, needle, at));
    }
}

/// What `first_occurrence` names is a first occurrence, whenever the needle
/// occurs at all.
pub proof fn lemma_first_occurrence_found(hay: Seq<char>, needle: Seq<char>)
    requires
        occurs_in(hay, needle),
    ensures
        first_occurrence(hay, needle) is Some,
        is_first_occurrence(hay, needle, first_occurrence(hay, needle)->0),
{
    let at = choose|at: int| occurs_at(hay, needle, at);
    assert(0 <= at < at + 1 && occurs_at(hay, needle, at));
    lemma_some_occurrence_is_first(hay, needle, at + 1);
}

/// The empty needle occurs first at offset 0, whatever the text.
pub proof fn lemma_empty_needle_at_start(hay: Seq<char>)
    ensures
        first_occurrence(hay, Seq::<char>::empty()) == Some(0int),
{
    assert(hay.subrange(0, 0) =~= Seq::<char>::empty());
    assert(is_first_occurrence(hay, Seq::<char>::empty(), 0));
    lemma_first_occurrence_is(hay, Seq::<char>::empty(), 0);
}

/// The characters of `s`, in order.
pub fn chars_of(s: &str) -> (chars: Vec<char>)
    ensures
        chars@ == s@,
{
    let mut chars: Vec<char> = Vec::new();
    for c in it: s.chars()
        invariant
            chars@ == it.seq().take(it.index() as int),
            it.seq() == s@,
    {
        chars.push(c);
    }
    chars
}

/// Whether `needle` stands in `hay` at `at`.
fn matches_at(hay: &Vec<char>, needle: &Vec<char>, at: usize) -> (matched: bool)
    requires
        at + needle.len() <= hay.len(),
    ensures
        matched == occurs_at(hay@, needle@, at as int),
{
    let mut k: usize = 0;
    while k < needle.len()
        invariant
            k <= needle.len(),
            at + needle.len() <= hay.len(),
            forall|j: int| 0 <= j < k ==> hay@[at + j] == needle@[j],
        decreases needle.len() - k,
    {
        if hay[at + k] != needle[k] {
            assert(hay@.subrange(at as int, at + needle.len())[k as int] == hay@[at + k]);
            return false;
        }
        k += 1;
    }
    assert(hay@.subrange(at as int, at + needle.len()) =~= needle@);
    true
}

/// The first offset at which `needle` stands in `hay`.
pub fn find_first_in(hay: &Vec<char>, needle: &Vec<char>) -> (found: Option<usize>)
    ensures
        match found {
            Some(at) => first_occurrence(hay@, needle@) == Some(at as int),
            None => first_occurrence(hay@, needle@) is None,
        },
{
    if needle.len() > hay.len() {
        return None;
    }
    let last_start: usize = hay.len() - needle.len();
    let mut start: usize = 0;
    loop
        invariant
            start <= last_start,
            last_start == hay.len() - needle.len(),
            forall|earlier: int| 0 <= earlier < start ==> !occurs_at(hay@, needle@, earlier),
        decreases last_start - start,
    {
        if matches_at(hay, needle, start) {
            proof {
                lemma_first_occurrence_is(hay@, needle@, start as int);
            }
            return Some(start);
        }
        if start == last_start {
            return None;
        }
        start += 1;
    }
}

/// The first offset, in characters, at which `needle` stands in `hay`.
///
/// The empty needle is found at offset 0 of every text.
pub fn find_first(hay: &str, needle: &str) -> (found: Option<usize>)
    ensures
        match found {
            Some(at) => first_occurrence(hay@, needle@) == Some(at as int),
            None => first_occurrence(hay@, needle@) is None,
        },
{
    let hay_chars = chars_of(hay);
    let needle_chars = chars_of(needle);
    find_first_in(&hay_chars, &needle_chars)
}

/// Whether two strings hold the same characters.
pub fn same_text(a: &str, b: &str) -> (same: bool)
    ensures
        same == (a@ == b@),
{
    let a_chars = chars_of(a);
    let b_chars = chars_of(b);
    if a_chars.len() != b_chars.len() {
        return false;
    }
    let mut k: usize = 0;
    while k < a_chars.len()
        invariant
            k <= a_chars.len(),
            a_chars.len() == b_chars.len(),
            a_chars@ == a@,
            b_chars@ == b@,
            forall|j: int| 0 <= j < k ==> a_chars@[j] == b_chars@[j],
        decreases a_chars.len() - k,
    {
        if a_chars[k] != b_chars[k] {
            assert(a_chars@[k as int] != b_chars@[k as int]);
            return false;
        }
        k += 1;
    }
    assert(a_chars@ =~= b_chars@);
    true
}

} // verus!

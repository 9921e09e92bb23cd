//! Matching a query against the whole catalogue.
//!
//! A match is reported as a line in three parts: what stands before the
//! highlighted text, the highlighted text, and what follows it. How the
//! highlight is shown is left to the caller.

use crate::entry::{entry_views, PathEntry, PathEntryView};
use crate::path::{
    lemma_directory_then_last_segment, parent_directory, parent_directory_of, SEPARATOR,
};
use crate::text::{
    chars_of, find_first_in, first_occurrence, is_first_occurrence, lemma_empty_needle_at_start,
    lemma_first_occurrence_found, occurs_in, same_text,
};
use vstd::prelude::*;

verus! {

/// What a `HighlightedLine` holds, as text.
pub struct HighlightedLineView {
    pub prefix: Seq<char>,
    pub highlight: Seq<char>,
    pub suffix: Seq<char>,
}

impl HighlightedLineView {
    /// The whole line, highlight included.
    pub open spec fn text(self) -> Seq<char> {
        self.prefix + self.highlight + self.suffix
    }
}

/// One line of a search result.
#[derive(Debug, PartialEq, Eq)]
pub struct HighlightedLine {
    prefix: String,
    highlight: String,
    suffix: String,
}

impl View for HighlightedLine {
    type V = HighlightedLineView;

    closed spec fn view(&self) -> HighlightedLineView {
        HighlightedLineView {
            prefix: self.prefix@,
            highlight: self.highlight@,
            suffix: self.suffix@,
        }
    }
}

impl HighlightedLine {
    /// The text before the highlight.
    pub fn prefix(&self) -> (prefix: &str)
        ensures
            prefix@ == self@.prefix,
    {
        self.prefix.as_str()
    }

    /// The highlighted text.
    pub fn highlight(&self) -> (highlight: &str)
        ensures
            highlight@ == self@.highlight,
    {
        self.highlight.as_str()
    }

    /// The text after the highlight.
    pub fn suffix(&self) -> (suffix: &str)
        ensures
            suffix@ == self@.suffix,
    {
        self.suffix.as_str()
    }

    /// The whole line, without any mark of the highlight.
    pub fn text(&self) -> (text: String)
        ensures
            text@ == self@.text(),
    {
        let mut text = self.prefix.clone();
        text.append(self.highlight.as_str());
        text.append(self.suffix.as_str());
        text
    }
}

/// The views of `lines`, in order.
pub open spec fn line_views(lines: Seq<HighlightedLine>) -> Seq<HighlightedLineView> {
    lines.map_values(|line: HighlightedLine| line@)
}

/// How a pattern is held against an entry.
#[derive(Clone, Copy, Debug, PartialEq, Eq, Structural)]
pub enum SearchMode {
    /// The pattern occurs somewhere in the entry's path.
    Substring,
    /// The pattern is the entry's basename.
    Basename,
}

/// Why a search was not run.
#[derive(Clone, Copy, Debug, PartialEq, Eq, Structural)]
pub enum SearchError {
    /// The name given for the mode is neither `keyword` nor `basename`.
    UnrecognizedMode,
}

/// The line for `path` under substring matching: the path, cut around the
/// first occurrence of `pattern`. There is none where `pattern` does not occur.
pub open spec fn substring_match(path: Seq<char>, pattern: Seq<char>) -> Option<
    HighlightedLineView,
> {
    match first_occurrence(path, pattern) {
        Some(at) => Some(
            HighlightedLineView {
                prefix: path.take(at),
                highlight: path.subrange(at, at + pattern.len()),
                suffix: path.skip(at + pattern.len()),
            },
        ),
        None => None,
    }
}

/// The line for `entry` under basename matching: the directory of its path,
/// then its basename, highlighted. There is none unless the basename is
/// `pattern` itself.
pub open spec fn basename_match(entry: PathEntryView, pattern: Seq<char>) -> Option<
    HighlightedLineView,
> {
    if entry.basename == pattern {
        Some(
            HighlightedLineView {
                prefix: parent_directory(entry.path),
                highlight: entry.basename,
                suffix: Seq::empty(),
            },
        )
    } else {
        None
    }
}

/// The lines of a substring search: one for each entry whose path holds
/// `pattern`, in the order of the catalogue.
pub open spec fn substring_matches(
    catalogue: Seq<PathEntryView>,
    pattern: Seq<char>,
) -> Seq<HighlightedLineView> {
    catalogue.filter_map(|entry: PathEntryView| substring_match(entry.path, pattern))
}

/// The lines of a basename search: one for each entry whose basename is
/// `pattern`, in the order of the catalogue.
pub open spec fn basename_matches(
    catalogue: Seq<PathEntryView>,
    pattern: Seq<char>,
) -> Seq<HighlightedLineView> {
    catalogue.filter_map(|entry: PathEntryView| basename_match(entry, pattern))
}

/// The lines of a search in the given mode.
pub open spec fn search_matches(
    catalogue: Seq<PathEntryView>,
    pattern: Seq<char>,
    mode: SearchMode,
) -> Seq<HighlightedLineView> {
    match mode {
        SearchMode::Substring => substring_matches(catalogue, pattern),
        SearchMode::Basename => basename_matches(catalogue, pattern),
    }
}

/// The mode that a name stands for.
pub open spec fn mode_named(name: Seq<char>) -> Option<SearchMode> {
    if name == "keyword"@ {
        Some(SearchMode::Substring)
    } else if name == "basename"@ {
        Some(SearchMode::Basename)
    } else {
        None
    }
}

/// What substring matching does to one path: there is a line exactly where
/// the pattern occurs; the line is the path, cut in three; its highlight is
/// the pattern; and the pattern occurs nowhere before the highlight.
pub proof fn lemma_substring_match_cuts_the_path(path: Seq<char>, pattern: Seq<char>)
    ensures
        substring_match(path, pattern) is Some <==> occurs_in(path, pattern),
        substring_match(path, pattern) matches Some(line) ==> {
            &&& line.text() == path
            &&& line.highlight == pattern
            &&& is_first_occurrence(path, pattern, line.prefix.len() as int)
        },
{
    if occurs_in(path, pattern) {
        lemma_first_occurrence_found(path, pattern);
        let line = substring_match(path, pattern)->0;
        assert(line.text() =~= path);
    }
}

/// The empty pattern matches every entry at offset 0: the highlight is empty,
/// nothing stands before it, and the whole path follows it.
pub proof fn lemma_empty_pattern_matches_every_entry(catalogue: Seq<PathEntryView>)
    ensures
        substring_matches(catalogue, Seq::empty()).len() == catalogue.len(),
        forall|i: int|
            0 <= i < catalogue.len() ==> (#[trigger] substring_matches(catalogue, Seq::empty())[i])
                == (HighlightedLineView {
                prefix: Seq::empty(),
                highlight: Seq::empty(),
                suffix: catalogue[i].path,
            }),
    decreases catalogue.len(),
{
    let nothing = Seq::<char>::empty();
    if catalogue.len() > 0 {
        let rest = catalogue.drop_last();
        let path = catalogue.last().path;
        lemma_empty_pattern_matches_every_entry(rest);
        lemma_empty_needle_at_start(path);
        let line = substring_match(path, nothing)->0;
        assert(line.prefix =~= nothing);
        assert(line.highlight =~= nothing);
        assert(line.suffix =~= path);
        assert forall|i: int| 0 <= i < catalogue.len() implies (#[trigger] substring_matches(
            catalogue,
            nothing,
        )[i]) == (HighlightedLineView {
            prefix: nothing,
            highlight: nothing,
            suffix: catalogue[i].path,
        }) by {
            if i < rest.len() {
                assert(rest[i] == catalogue[i]);
                assert(substring_matches(catalogue, nothing)[i] == substring_matches(
                    rest,
                    nothing,
                )[i]);
            }
        }
    }
}

/// Under basename matching, the line of a well-formed entry whose path holds a
/// separator is that path: its directory, then its basename.
pub proof fn lemma_basename_match_rejoins_the_path(entry: PathEntryView, pattern: Seq<char>)
    requires
        entry.well_formed(),
        entry.path.contains(SEPARATOR),
    ensures
        basename_match(entry, pattern) matches Some(line) ==> line.text() == entry.path,
{
    lemma_directory_then_last_segment(entry.path);
    if basename_match(entry, pattern) is Some {
        let line = basename_match(entry, pattern)->0;
        assert(line.text() =~= parent_directory(entry.path) + entry.basename);
    }
}

/// In a catalogue of well-formed entries the empty pattern matches no
/// basename.
pub proof fn lemma_empty_pattern_matches_no_basename(catalogue: Seq<PathEntryView>)
    requires
        forall|i: int| 0 <= i < catalogue.len() ==> (#[trigger] catalogue[i]).well_formed(),
    ensures
        basename_matches(catalogue, Seq::empty()).len() == 0,
    decreases catalogue.len(),
{
    if catalogue.len() > 0 {
        let rest = catalogue.drop_last();
        assert forall|i: int| 0 <= i < rest.len() implies (#[trigger] rest[i]).well_formed() by {
            assert(rest[i] == catalogue[i]);
        }
        lemma_empty_pattern_matches_no_basename(rest);
        assert(catalogue.last() == catalogue[catalogue.len() - 1]);
    }
}

/// A search gives one line for each entry that matches, and none for any
/// other: as many lines as there are entries whose path holds the pattern, or
/// whose basename is the pattern.
pub proof fn lemma_one_line_for_each_matching_entry(
    catalogue: Seq<PathEntryView>,
    pattern: Seq<char>,
)
    ensures
        substring_matches(catalogue, pattern).len() == catalogue.filter(
            |entry: PathEntryView| occurs_in(entry.path, pattern),
        ).len(),
        basename_matches(catalogue, pattern).len() == catalogue.filter(
            |entry: PathEntryView| entry.basename == pattern,
        ).len(),
    decreases catalogue.len(),
{
    let holds = |entry: PathEntryView| occurs_in(entry.path, pattern);
    let named = |entry: PathEntryView| entry.basename == pattern;
    if catalogue.len() > 0 {
        let rest = catalogue.drop_last();
        lemma_one_line_for_each_matching_entry(rest, pattern);
        lemma_substring_match_cuts_the_path(catalogue.last().path, pattern);
        assert(rest.push(catalogue.last()) =~= catalogue);
        rest.lemma_filter_push(catalogue.last(), holds);
        rest.lemma_filter_push(catalogue.last(), named);
    } else {
        catalogue.lemma_filter_len(holds);
        catalogue.lemma_filter_len(named);
    }
}

/// A search gives at most one line for each entry, and none over an empty
/// catalogue.
pub proof fn lemma_at_most_one_line_for_each_entry(
    catalogue: Seq<PathEntryView>,
    pattern: Seq<char>,
    mode: SearchMode,
)
    ensures
        search_matches(catalogue, pattern, mode).len() <= catalogue.len(),
        catalogue.len() == 0 ==> search_matches(catalogue, pattern, mode).len() == 0,
    decreases catalogue.len(),
{
    if catalogue.len() > 0 {
        lemma_at_most_one_line_for_each_entry(catalogue.drop_last(), pattern, mode);
    }
}

impl SearchMode {
    /// The mode that `name` stands for: `keyword` for a substring search,
    /// `basename` for a basename search.
    pub fn from_name(name: &str) -> (mode: Option<SearchMode>)
        ensures
            mode == mode_named(name@),
    {
        if same_text(name, "keyword") {
            Some(SearchMode::Substring)
        } else if same_text(name, "basename") {
            Some(SearchMode::Basename)
        } else {
            None
        }
    }
}

/// The line for one path under substring matching, the pattern given by its
/// characters.
fn cut_at_first(path: &str, pattern: &Vec<char>) -> (line: Option<HighlightedLine>)
    ensures
        match line {
            Some(line) => substring_match(path@, pattern@) == Some(line@),
            None => substring_match(path@, pattern@) is None,
        },
{
    let chars = chars_of(path);
    match find_first_in(&chars, pattern) {
        Some(at) => {
            proof {
                lemma_first_occurrence_found(path@, pattern@);
                assert(at + pattern.len() <= chars.len());
            }
            let end: usize = at + pattern.len();
            Some(
                HighlightedLine {
                    prefix: String::from_str(path.substring_char(0, at)),
                    highlight: String::from_str(path.substring_char(at, end)),
                    suffix: String::from_str(path.substring_char(end, chars.len())),
                },
            )
        },
        None => None,
    }
}

/// Every entry whose path holds `pattern`, as a line cut around the first
/// occurrence of `pattern` in that path.
///
/// The empty pattern matches every entry at offset 0.
pub fn match_substring(catalogue: &Vec<PathEntry>, pattern: &str) -> (lines: Vec<HighlightedLine>)
    ensures
        line_views(lines@) == substring_matches(entry_views(catalogue@), pattern@),
        catalogue@.len() == 0 ==> lines@.len() == 0,
{
    let needle = chars_of(pattern);
    let ghost views = entry_views(catalogue@);
    let ghost cut = |entry: PathEntryView| substring_match(entry.path, pattern@);
    let mut lines: Vec<HighlightedLine> = Vec::new();
    let mut i: usize = 0;
    while i < catalogue.len()
        invariant
            i <= catalogue.len(),
            needle@ == pattern@,
            views == entry_views(catalogue@),
            cut == |entry: PathEntryView| substring_match(entry.path, pattern@),
            line_views(lines@) == views.take(i as int).filter_map(cut),
        decreases catalogue.len() - i,
    {
        let found = cut_at_first(catalogue[i].get_path(), &needle);
        proof {
            views.lemma_filter_map_take_succ(cut, i as int);
        }
        match found {
            Some(line) => {
                proof {
                    assert(line_views(lines@.push(line)) =~= line_views(lines@).push(line@));
                }
                lines.push(line);
            },
            None => {},
        }
        i += 1;
    }
    proof {
        assert(views.take(catalogue.len() as int) =~= views);
    }
    lines
}

/// Every entry whose basename is `pattern`, as a line made of the directory of
/// its path and the highlighted basename.
pub fn match_basename(catalogue: &Vec<PathEntry>, pattern: &str) -> (lines: Vec<HighlightedLine>)
    ensures
        line_views(lines@) == basename_matches(entry_views(catalogue@), pattern@),
        catalogue@.len() == 0 ==> lines@.len() == 0,
{
    let ghost views = entry_views(catalogue@);
    let ghost pick = |entry: PathEntryView| basename_match(entry, pattern@);
    let mut lines: Vec<HighlightedLine> = Vec::new();
    let mut i: usize = 0;
    while i < catalogue.len()
        invariant
            i <= catalogue.len(),
            views == entry_views(catalogue@),
            pick == |entry: PathEntryView| basename_match(entry, pattern@),
            line_views(lines@) == views.take(i as int).filter_map(pick),
        decreases catalogue.len() - i,
    {
        let entry = &catalogue[i];
        proof {
            views.lemma_filter_map_take_succ(pick, i as int);
        }
        if same_text(entry.get_basename(), pattern) {
            let line = HighlightedLine {
                prefix: parent_directory_of(entry.get_path()),
                highlight: String::from_str(entry.get_basename()),
                suffix: String::new(),
            };
            proof {
                assert(line_views(lines@.push(line)) =~= line_views(lines@).push(line@));
            }
            lines.push(line);
        }
        i += 1;
    }
    proof {
        assert(views.take(catalogue.len() as int) =~= views);
    }
    lines
}

/// The lines that match `pattern` in the catalogue, in the given mode.
pub fn search(catalogue: &Vec<PathEntry>, pattern: &str, mode: SearchMode) -> (lines: Vec<
    HighlightedLine,
>)
    ensures
        line_views(lines@) == search_matches(entry_views(catalogue@), pattern@, mode),
        catalogue@.len() == 0 ==> lines@.len() == 0,
{
    match mode {
        SearchMode::Substring => match_substring(catalogue, pattern),
        SearchMode::Basename => match_basename(catalogue, pattern),
    }
}

/// Searches the catalogue for `pattern`, the mode given by name.
///
/// The name `keyword` asks for a substring search, `basename` for a basename
/// search. Any other name is an error, and nothing is searched.
pub fn database_search(catalogue: &Vec<PathEntry>, pattern: &str, pattern_type: &str) -> (found:
    Result<Vec<HighlightedLine>, SearchError>)
    ensures
        match mode_named(pattern_type@) {
            Some(mode) => {
                &&& found is Ok
                &&& line_views(found->Ok_0@) == search_matches(
                    entry_views(catalogue@),
                    pattern@,
                    mode,
                )
                &&& catalogue@.len() == 0 ==> found->Ok_0@.len() == 0
            },
            None => found == Err::<Vec<HighlightedLine>, SearchError>(
                SearchError::UnrecognizedMode,
            ),
        },
{
    match SearchMode::from_name(pattern_type) {
        Some(mode) => Ok(search(catalogue, pattern, mode)),
        None => Err(SearchError::UnrecognizedMode),
    }
}

} // verus!

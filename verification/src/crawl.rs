//! The crawl policy: which entries of the top-level listing are walked, and
//! what becomes of each node that a walk yields.
//!
//! Walking the filesystem is the caller's work. It hands over what each walk
//! yielded, node by node, and gets back what the catalogue is to hold and what
//! is to be logged.

use crate::entry::{entry_views, PathEntry, PathEntryView};
use crate::path::{
    before_last_segment, last_segment, lemma_directory_then_last_segment,
    lemma_last_separator_found, SEPARATOR,
};
use crate::text::same_text;
use vstd::prelude::*;

verus! {

/// Why a node could not be visited.
#[derive(Clone, Copy, Debug, PartialEq, Eq, Structural)]
pub enum FailureKind {
    /// Access to the node was denied.
    PermissionDenied,
    /// Any other failure.
    Other,
}

/// What a walk yields for one node.
#[derive(Debug, PartialEq, Eq)]
pub enum WalkItem {
    /// The node was visited; this is its path.
    Found(String),
    /// The node could not be visited; the text describes the failure.
    Failed(FailureKind, String),
}

/// The views of `texts`, in order.
pub open spec fn text_views(texts: Seq<String>) -> Seq<Seq<char>> {
    texts.map_values(|text: String| text@)
}

/// The top-level paths that a crawl never descends into.
#[derive(Debug)]
pub struct ExclusionSet {
    paths: Vec<String>,
}

impl View for ExclusionSet {
    type V = Seq<Seq<char>>;

    closed spec fn view(&self) -> Seq<Seq<char>> {
        text_views(self.paths@)
    }
}

impl ExclusionSet {
    /// The set that holds exactly `paths`.
    pub fn new(paths: Vec<String>) -> (set: ExclusionSet)
        ensures
            set@ == text_views(paths@),
    {
        ExclusionSet { paths }
    }

    /// Whether `path` is a member of the set.
    pub fn excludes(&self, path: &str) -> (member: bool)
        ensures
            member == self@.contains(path@),
    {
        let mut i: usize = 0;
        while i < self.paths.len()
            invariant
                i <= self.paths.len(),
                forall|j: int| 0 <= j < i ==> self@[j] != path@,
            decreases self.paths.len() - i,
        {
            if same_text(self.paths[i].as_str(), path) {
                assert(self@[i as int] == path@);
                return true;
            }
            i += 1;
        }
        false
    }
}

impl Default for ExclusionSet {
    /// The set of a crawl from the filesystem root: the root itself, so that
    /// it is not walked as a whole, and `/mnt`.
    fn default() -> (set: ExclusionSet)
        ensures
            set@ == seq!["/mnt"@, "/"@],
    {
        let mut paths: Vec<String> = Vec::new();
        paths.push(String::from_str("/mnt"));
        paths.push(String::from_str("/"));
        assert(text_views(paths@) =~= seq!["/mnt"@, "/"@]);
        ExclusionSet { paths }
    }
}

/// The root that an item of the top-level listing gives: its path, unless the
/// path is excluded.
pub open spec fn listed_root(item: WalkItem, excluded: Seq<Seq<char>>) -> Option<Seq<char>> {
    match item {
        WalkItem::Found(path) => if excluded.contains(path@) {
            None
        } else {
            Some(path@)
        },
        WalkItem::Failed(_, _) => None,
    }
}

/// What is logged for an item of the top-level listing: the text of every
/// failure.
pub open spec fn listing_report(item: WalkItem) -> Option<Seq<char>> {
    match item {
        WalkItem::Found(_) => None,
        WalkItem::Failed(_, message) => Some(message@),
    }
}

/// The roots that a listing gives, in its order.
pub open spec fn listed_roots(listing: Seq<WalkItem>, excluded: Seq<Seq<char>>) -> Seq<Seq<char>> {
    listing.filter_map(|item: WalkItem| listed_root(item, excluded))
}

/// What is logged for a listing, in its order.
pub open spec fn listing_reports(listing: Seq<WalkItem>) -> Seq<Seq<char>> {
    listing.filter_map(|item: WalkItem| listing_report(item))
}

/// The entry that a walked node gives: one for each path whose last segment
/// is not empty.
pub open spec fn yielded_entry(item: WalkItem) -> Option<PathEntryView> {
    match item {
        WalkItem::Found(path) => if last_segment(path@).len() > 0 {
            Some(PathEntryView { path: path@, basename: last_segment(path@) })
        } else {
            None
        },
        WalkItem::Failed(_, _) => None,
    }
}

/// What is logged for a walked node: the text of a failure, unless access was
/// denied.
pub open spec fn walk_report(item: WalkItem) -> Option<Seq<char>> {
    match item {
        WalkItem::Found(_) => None,
        WalkItem::Failed(kind, message) => if kind == FailureKind::PermissionDenied {
            None
        } else {
            Some(message@)
        },
    }
}

/// The path of a walked node that gives no entry because its last segment is
/// empty.
pub open spec fn unnamed_path(item: WalkItem) -> Option<Seq<char>> {
    match item {
        WalkItem::Found(path) => if last_segment(path@).len() > 0 {
            None
        } else {
            Some(path@)
        },
        WalkItem::Failed(_, _) => None,
    }
}

/// The entries that a walk gives, in its order.
pub open spec fn yielded_entries(walked: Seq<WalkItem>) -> Seq<PathEntryView> {
    walked.filter_map(|item: WalkItem| yielded_entry(item))
}

/// What is logged for a walk, in its order.
pub open spec fn walk_reports(walked: Seq<WalkItem>) -> Seq<Seq<char>> {
    walked.filter_map(|item: WalkItem| walk_report(item))
}

/// The paths of a walk that give no entry, in its order.
pub open spec fn unnamed_paths(walked: Seq<WalkItem>) -> Seq<Seq<char>> {
    walked.filter_map(|item: WalkItem| unnamed_path(item))
}

/// What the top-level listing comes to.
#[derive(Debug)]
pub struct RootListing {
    /// The paths to walk.
    pub roots: Vec<String>,
    /// The failures to log.
    pub reports: Vec<String>,
}

/// What a crawl comes to.
#[derive(Debug)]
pub struct Crawl {
    /// The entries for the catalogue.
    pub entries: Vec<PathEntry>,
    /// The failures to log.
    pub reports: Vec<String>,
    /// The paths that were found but name no file, and so give no entry.
    pub unnamed: Vec<String>,
}

/// `path` is `directory` itself or stands below it.
pub open spec fn lies_under(path: Seq<char>, directory: Seq<char>) -> bool {
    &&& directory.len() <= path.len()
    &&& path.take(directory.len() as int) == directory
    &&& (path.len() == directory.len() || path[directory.len() as int] == SEPARATOR)
}

/// `a` and `b` name entries of one directory: they agree on all that stands
/// before their last segments, and neither last segment is empty.
pub open spec fn are_siblings(a: Seq<char>, b: Seq<char>) -> bool {
    &&& last_segment(a).len() > 0
    &&& last_segment(b).len() > 0
    &&& before_last_segment(a) == before_last_segment(b)
}

/// Nothing stands under two different entries of one directory.
pub proof fn lemma_sibling_subtrees_are_disjoint(a: Seq<char>, b: Seq<char>, path: Seq<char>)
    requires
        are_siblings(a, b),
        a != b,
        lies_under(path, a),
    ensures
        !lies_under(path, b),
{
    if lies_under(path, b) {
        lemma_last_separator_found(a);
        lemma_last_separator_found(b);
        lemma_directory_then_last_segment(a);
        lemma_directory_then_last_segment(b);
        let shared = before_last_segment(a).len() as int;
        if a.len() == b.len() {
            assert(a =~= b);
        } else if a.len() < b.len() {
            // The separator that ends `a` in `path` would stand in the last
            // segment of `b`.
            assert(b[a.len() as int] == path.take(b.len() as int)[a.len() as int]);
            assert(last_segment(b)[a.len() - shared] == b[a.len() as int]);
        } else {
            assert(a[b.len() as int] == path.take(a.len() as int)[b.len() as int]);
            assert(last_segment(a)[b.len() - shared] == a[b.len() as int]);
        }
    }
}

/// A root that the listing gives is the path of one of its nodes, and is not
/// excluded.
pub proof fn lemma_roots_are_listed_and_not_excluded(
    listing: Seq<WalkItem>,
    excluded: Seq<Seq<char>>,
    root: Seq<char>,
)
    requires
        listed_roots(listing, excluded).contains(root),
    ensures
        !excluded.contains(root),
        exists|i: int|
            0 <= i < listing.len() && (#[trigger] listing[i]) is Found
                && listing[i]->Found_0@ == root,
{
    let root_of = |item: WalkItem| listed_root(item, excluded);
    listing.lemma_filter_map_contains(root_of, root);
    let item = choose|item: WalkItem|
        #[trigger] listing.contains(item) && root_of(item) == Some(root);
    let i = choose|i: int| 0 <= i < listing.len() && listing[i] == item;
    assert(listing[i] is Found && listing[i]->Found_0@ == root);
}

/// An excluded entry of the listed directory is shut out with all that stands
/// under it: no path under a root that the listing gives stands under it.
///
/// This holds of the excluded entries that are siblings of the roots. The
/// listed directory itself, which the listing also names, is excluded so that
/// it is not walked as a whole, though every root stands under it.
pub proof fn lemma_excluded_subtrees_are_shut_out(
    listing: Seq<WalkItem>,
    excluded: Seq<Seq<char>>,
    root: Seq<char>,
    shut: Seq<char>,
    path: Seq<char>,
)
    requires
        listed_roots(listing, excluded).contains(root),
        excluded.contains(shut),
        are_siblings(root, shut),
        lies_under(path, root),
    ensures
        !lies_under(path, shut),
{
    lemma_roots_are_listed_and_not_excluded(listing, excluded, root);
    lemma_sibling_subtrees_are_disjoint(root, shut, path);
}

/// Every path that was found lies under one of `roots`.
pub open spec fn walked_under(walked: Seq<WalkItem>, roots: Seq<Seq<char>>) -> bool {
    forall|i: int|
        0 <= i < walked.len() && (#[trigger] walked[i]) is Found ==> exists|root: Seq<char>|
            #[trigger] roots.contains(root) && lies_under(walked[i]->Found_0@, root)
}

/// A crawl gives no entry under an excluded entry of the listed directory:
/// where the roots of the listing were walked, and each is a sibling of the
/// excluded entry, no entry of the crawl stands under that entry.
///
/// The listed directory itself is no sibling of its entries. It is excluded
/// so that it is not walked as a whole, though every root stands under it.
pub proof fn lemma_crawl_gives_nothing_under_an_excluded_entry(
    listing: Seq<WalkItem>,
    excluded: Seq<Seq<char>>,
    walked: Seq<WalkItem>,
    shut: Seq<char>,
    entry: PathEntryView,
)
    requires
        walked_under(walked, listed_roots(listing, excluded)),
        excluded.contains(shut),
        forall|root: Seq<char>| #[trigger]
            listed_roots(listing, excluded).contains(root) ==> are_siblings(root, shut),
        yielded_entries(walked).contains(entry),
    ensures
        !lies_under(entry.path, shut),
{
    let entry_of = |item: WalkItem| yielded_entry(item);
    walked.lemma_filter_map_contains(entry_of, entry);
    let item = choose|item: WalkItem|
        #[trigger] walked.contains(item) && entry_of(item) == Some(entry);
    let i = choose|i: int| 0 <= i < walked.len() && walked[i] == item;
    assert(walked[i] is Found && walked[i]->Found_0@ == entry.path);
    let root = choose|root: Seq<char>| #[trigger]
        listed_roots(listing, excluded).contains(root) && lies_under(walked[i]->Found_0@, root);
    lemma_excluded_subtrees_are_shut_out(listing, excluded, root, shut, entry.path);
}

/// What a sequence gives under `filter_map`, its two parts give one after the
/// other.
proof fn lemma_filter_map_concat<A, B>(a: Seq<A>, b: Seq<A>, f: spec_fn(A) -> Option<B>)
    ensures
        (a + b).filter_map(f) == a.filter_map(f) + b.filter_map(f),
    decreases b.len(),
{
    if b.len() == 0 {
        assert(a + b =~= a);
        assert(a.filter_map(f) + b.filter_map(f) =~= a.filter_map(f));
    } else {
        assert((a + b).drop_last() =~= a + b.drop_last());
        assert((a + b).last() == b.last());
        lemma_filter_map_concat(a, b.drop_last(), f);
        assert((a + b).filter_map(f) =~= a.filter_map(f) + b.filter_map(f));
    }
}

/// A walk in which every node was found, each path with a last segment that
/// is not empty, gives one entry for each node: the node's path, with its last
/// segment as basename. Nothing is logged and no path is handed back.
pub proof fn lemma_walk_without_failures(walked: Seq<WalkItem>)
    requires
        forall|i: int|
            0 <= i < walked.len() ==> (#[trigger] walked[i]) is Found && last_segment(
                walked[i]->Found_0@,
            ).len() > 0,
    ensures
        yielded_entries(walked).len() == walked.len(),
        forall|i: int|
            0 <= i < walked.len() ==> (#[trigger] yielded_entries(walked)[i]) == (PathEntryView {
                path: walked[i]->Found_0@,
                basename: last_segment(walked[i]->Found_0@),
            }),
        walk_reports(walked).len() == 0,
        unnamed_paths(walked).len() == 0,
    decreases walked.len(),
{
    if walked.len() > 0 {
        let rest = walked.drop_last();
        assert forall|i: int| 0 <= i < rest.len() implies (#[trigger] rest[i]) is Found
            && last_segment(rest[i]->Found_0@).len() > 0 by {
            assert(rest[i] == walked[i]);
        }
        lemma_walk_without_failures(rest);
        assert(walked.last() == walked[walked.len() - 1]);
        assert forall|i: int| 0 <= i < walked.len() implies (#[trigger] yielded_entries(
            walked,
        )[i]) == (PathEntryView {
            path: walked[i]->Found_0@,
            basename: last_segment(walked[i]->Found_0@),
        }) by {
            if i < rest.len() {
                assert(rest[i] == walked[i]);
                assert(yielded_entries(walked)[i] == yielded_entries(rest)[i]);
            }
        }
    }
}

/// Every node of a walk is accounted for once: it gives an entry, or its path
/// is handed back, or it is a failure.
pub proof fn lemma_every_node_is_accounted_for(walked: Seq<WalkItem>)
    ensures
        yielded_entries(walked).len() + unnamed_paths(walked).len() + walked.filter(
            |item: WalkItem| item is Failed,
        ).len() == walked.len(),
    decreases walked.len(),
{
    let failed = |item: WalkItem| item is Failed;
    if walked.len() > 0 {
        let rest = walked.drop_last();
        lemma_every_node_is_accounted_for(rest);
        assert(rest.push(walked.last()) =~= walked);
        rest.lemma_filter_push(walked.last(), failed);
    } else {
        walked.lemma_filter_len(failed);
    }
}

/// Every entry that a walk gives is well formed.
pub proof fn lemma_yielded_entries_are_well_formed(walked: Seq<WalkItem>)
    ensures
        forall|i: int|
            0 <= i < yielded_entries(walked).len() ==> (#[trigger] yielded_entries(
                walked,
            )[i]).well_formed(),
    decreases walked.len(),
{
    if walked.len() > 0 {
        let rest = walked.drop_last();
        lemma_yielded_entries_are_well_formed(rest);
        assert forall|i: int| 0 <= i < yielded_entries(walked).len() implies (
        #[trigger] yielded_entries(walked)[i]).well_formed() by {
            if i < yielded_entries(rest).len() {
                assert(yielded_entries(walked)[i] == yielded_entries(rest)[i]);
            }
        }
    }
}

/// No failure stops a crawl: with a failed node among what was walked, the
/// crawl gives the entries that it gives without that node.
pub proof fn lemma_failure_does_not_stop_the_crawl(
    before: Seq<WalkItem>,
    failed: WalkItem,
    after: Seq<WalkItem>,
)
    requires
        failed is Failed,
    ensures
        yielded_entries(before.push(failed) + after) == yielded_entries(before + after),
        unnamed_paths(before.push(failed) + after) == unnamed_paths(before + after),
{
    let entry_of = |item: WalkItem| yielded_entry(item);
    let unnamed_of = |item: WalkItem| unnamed_path(item);
    assert(before.push(failed).drop_last() =~= before);
    lemma_filter_map_concat(before.push(failed), after, entry_of);
    lemma_filter_map_concat(before, after, entry_of);
    lemma_filter_map_concat(before.push(failed), after, unnamed_of);
    lemma_filter_map_concat(before, after, unnamed_of);
}

/// A node to which access was denied leaves no trace: with it among what was
/// walked, the crawl gives and logs what it does without that node.
pub proof fn lemma_denied_node_leaves_no_trace(
    before: Seq<WalkItem>,
    denied: WalkItem,
    after: Seq<WalkItem>,
)
    requires
        denied is Failed,
        denied->Failed_0 == FailureKind::PermissionDenied,
    ensures
        yielded_entries(before.push(denied) + after) == yielded_entries(before + after),
        unnamed_paths(before.push(denied) + after) == unnamed_paths(before + after),
        walk_reports(before.push(denied) + after) == walk_reports(before + after),
{
    let report_of = |item: WalkItem| walk_report(item);
    lemma_failure_does_not_stop_the_crawl(before, denied, after);
    assert(before.push(denied).drop_last() =~= before);
    lemma_filter_map_concat(before.push(denied), after, report_of);
    lemma_filter_map_concat(before, after, report_of);
}

/// Adding one text to a list adds its view to the views of the list.
proof fn lemma_text_views_push(texts: Seq<String>, text: String)
    ensures
        text_views(texts.push(text)) == text_views(texts).push(text@),
{
    assert(text_views(texts.push(text)) =~= text_views(texts).push(text@));
}

/// The roots to walk, from the listing of the top-level directory.
///
/// Every listed path is a root unless the exclusion set holds it. A node that
/// could not be listed is logged and skipped, whatever the failure.
pub fn get_root_dir(listing: &Vec<WalkItem>, excluded: &ExclusionSet) -> (listed: RootListing)
    ensures
        text_views(listed.roots@) == listed_roots(listing@, excluded@),
        text_views(listed.reports@) == listing_reports(listing@),
        forall|i: int|
            0 <= i < listed.roots@.len() ==> !excluded@.contains((#[trigger] listed.roots@[i])@),
{
    let ghost root_of = |item: WalkItem| listed_root(item, excluded@);
    let ghost report_of = |item: WalkItem| listing_report(item);
    let mut roots: Vec<String> = Vec::new();
    let mut reports: Vec<String> = Vec::new();
    let mut i: usize = 0;
    while i < listing.len()
        invariant
            i <= listing.len(),
            root_of == |item: WalkItem| listed_root(item, excluded@),
            report_of == |item: WalkItem| listing_report(item),
            text_views(roots@) == listing@.take(i as int).filter_map(root_of),
            text_views(reports@) == listing@.take(i as int).filter_map(report_of),
        decreases listing.len() - i,
    {
        proof {
            listing@.lemma_filter_map_take_succ(root_of, i as int);
            listing@.lemma_filter_map_take_succ(report_of, i as int);
        }
        match &listing[i] {
            WalkItem::Found(path) => {
                if !excluded.excludes(path.as_str()) {
                    let root = path.clone();
                    proof {
                        lemma_text_views_push(roots@, root);
                    }
                    roots.push(root);
                }
            },
            WalkItem::Failed(_, message) => {
                let report = message.clone();
                proof {
                    lemma_text_views_push(reports@, report);
                }
                reports.push(report);
            },
        }
        i += 1;
    }
    proof {
        assert(listing@.take(listing.len() as int) =~= listing@);
        assert forall|i: int| 0 <= i < roots@.len() implies !excluded@.contains(
            (#[trigger] roots@[i])@,
        ) by {
            assert(text_views(roots@)[i] == roots@[i]@);
            lemma_roots_are_listed_and_not_excluded(listing@, excluded@, roots@[i]@);
        }
    }
    RootListing { roots, reports }
}

/// The entries of a crawl, from what the walks of its roots yielded.
///
/// Every path that was found gives an entry, whose basename is the last
/// segment of the path; a path whose last segment is empty gives none and is
/// handed back. A node to which access was denied is passed over in silence.
/// Any other failure is logged. No failure stops the crawl.
pub fn get_filepaths(walked: &Vec<WalkItem>) -> (crawl: Crawl)
    ensures
        entry_views(crawl.entries@) == yielded_entries(walked@),
        text_views(crawl.reports@) == walk_reports(walked@),
        text_views(crawl.unnamed@) == unnamed_paths(walked@),
        forall|i: int|
            0 <= i < crawl.entries@.len() ==> (#[trigger] crawl.entries@[i])@.well_formed(),
{
    let ghost entry_of = |item: WalkItem| yielded_entry(item);
    let ghost report_of = |item: WalkItem| walk_report(item);
    let ghost unnamed_of = |item: WalkItem| unnamed_path(item);
    let mut entries: Vec<PathEntry> = Vec::new();
    let mut reports: Vec<String> = Vec::new();
    let mut unnamed: Vec<String> = Vec::new();
    let mut i: usize = 0;
    while i < walked.len()
        invariant
            i <= walked.len(),
            entry_of == |item: WalkItem| yielded_entry(item),
            report_of == |item: WalkItem| walk_report(item),
            unnamed_of == |item: WalkItem| unnamed_path(item),
            entry_views(entries@) == walked@.take(i as int).filter_map(entry_of),
            text_views(reports@) == walked@.take(i as int).filter_map(report_of),
            text_views(unnamed@) == walked@.take(i as int).filter_map(unnamed_of),
        decreases walked.len() - i,
    {
        proof {
            walked@.lemma_filter_map_take_succ(entry_of, i as int);
            walked@.lemma_filter_map_take_succ(report_of, i as int);
            walked@.lemma_filter_map_take_succ(unnamed_of, i as int);
        }
        match &walked[i] {
            WalkItem::Found(path) => {
                match PathEntry::from_path(path.as_str()) {
                    Some(entry) => {
                        proof {
                            assert(entry_views(entries@.push(entry)) =~= entry_views(
                                entries@,
                            ).push(entry@));
                        }
                        entries.push(entry);
                    },
                    None => {
                        let path = path.clone();
                        proof {
                            lemma_text_views_push(unnamed@, path);
                        }
                        unnamed.push(path);
                    },
                }
            },
            WalkItem::Failed(kind, message) => {
                match kind {
                    FailureKind::PermissionDenied => {},
                    FailureKind::Other => {
                        let report = message.clone();
                        proof {
                            lemma_text_views_push(reports@, report);
                        }
                        reports.push(report);
                    },
                }
            },
        }
        i += 1;
    }
    proof {
        assert(walked@.take(walked.len() as int) =~= walked@);
        lemma_yielded_entries_are_well_formed(walked@);
        assert forall|i: int| 0 <= i < entries@.len() implies (
        #[trigger] entries@[i])@.well_formed() by {
            assert(entry_views(entries@)[i] == entries@[i]@);
            assert(yielded_entries(walked@)[i].well_formed());
        }
    }
    Crawl { entries, reports, unnamed }
}

} // verus!

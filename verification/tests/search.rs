use rlocate::entry::PathEntry;
use rlocate::search::{
    database_search, match_basename, match_substring, search, HighlightedLine, SearchError,
    SearchMode,
};

fn parts(line: &HighlightedLine) -> (&str, &str, &str) {
    (line.prefix(), line.highlight(), line.suffix())
}

fn catalogue_of(paths: &[&str]) -> Vec<PathEntry> {
    paths.iter().map(|path| PathEntry::from_path(path).unwrap()).collect()
}

#[test]
fn substring_search_marks_the_first_occurrence() {
    let catalogue = catalogue_of(&["/home/foo/bar.txt"]);
    let lines = search(&catalogue, "foo", SearchMode::Substring);
    assert_eq!(lines.len(), 1);
    assert_eq!(parts(&lines[0]), ("/home/", "foo", "/bar.txt"));
}

#[test]
fn basename_search_rebuilds_the_directory() {
    let catalogue = catalogue_of(&["/home/foo/bar.txt"]);
    let lines = search(&catalogue, "bar.txt", SearchMode::Basename);
    assert_eq!(lines.len(), 1);
    assert_eq!(parts(&lines[0]), ("/home/foo/", "bar.txt", ""));
}

#[test]
fn substring_search_over_an_empty_catalogue_gives_nothing() {
    let catalogue: Vec<PathEntry> = Vec::new();
    assert_eq!(match_substring(&catalogue, "foo").len(), 0);
    assert_eq!(match_substring(&catalogue, "").len(), 0);
    assert_eq!(database_search(&catalogue, "foo", "keyword"), Ok(Vec::new()));
}

#[test]
fn basename_search_over_an_empty_catalogue_gives_nothing() {
    let catalogue: Vec<PathEntry> = Vec::new();
    assert_eq!(match_basename(&catalogue, "foo").len(), 0);
    assert_eq!(database_search(&catalogue, "foo", "basename"), Ok(Vec::new()));
}

#[test]
fn substring_search_skips_entries_without_the_pattern() {
    let catalogue = catalogue_of(&["/etc/passwd", "/home/foo/bar.txt", "/usr/bin", "/tmp/foo"]);
    let lines = match_substring(&catalogue, "foo");
    assert_eq!(lines.len(), 2);
    assert_eq!(parts(&lines[0]), ("/home/", "foo", "/bar.txt"));
    assert_eq!(parts(&lines[1]), ("/tmp/", "foo", ""));
}

#[test]
fn substring_search_cuts_at_the_first_of_several_occurrences() {
    let catalogue = catalogue_of(&["/foo/foo/foo"]);
    let lines = match_substring(&catalogue, "foo");
    assert_eq!(lines.len(), 1);
    assert_eq!(parts(&lines[0]), ("/", "foo", "/foo/foo"));
}

#[test]
fn substring_search_is_case_sensitive() {
    let catalogue = catalogue_of(&["/home/Foo", "/home/foo"]);
    let lines = match_substring(&catalogue, "Foo");
    assert_eq!(lines.len(), 1);
    assert_eq!(parts(&lines[0]), ("/home/", "Foo", ""));
}

#[test]
fn substring_search_matches_across_separators() {
    let catalogue = catalogue_of(&["/home/foo/bar.txt"]);
    let lines = match_substring(&catalogue, "e/f");
    assert_eq!(lines.len(), 1);
    assert_eq!(parts(&lines[0]), ("/hom", "e/f", "oo/bar.txt"));
}

#[test]
fn substring_search_with_the_whole_path_as_pattern() {
    let catalogue = catalogue_of(&["/home/foo"]);
    let lines = match_substring(&catalogue, "/home/foo");
    assert_eq!(lines.len(), 1);
    assert_eq!(parts(&lines[0]), ("", "/home/foo", ""));
    assert_eq!(match_substring(&catalogue, "/home/foo/").len(), 0);
}

#[test]
fn substring_search_with_the_empty_pattern_matches_every_entry_at_offset_zero() {
    let catalogue = catalogue_of(&["/etc/passwd", "/home/foo"]);
    let lines = match_substring(&catalogue, "");
    assert_eq!(lines.len(), 2);
    assert_eq!(parts(&lines[0]), ("", "", "/etc/passwd"));
    assert_eq!(parts(&lines[1]), ("", "", "/home/foo"));
}

#[test]
fn substring_search_cuts_between_characters_of_any_width() {
    let catalogue = catalogue_of(&["/höme/日本語/ü.txt"]);
    let lines = match_substring(&catalogue, "日本");
    assert_eq!(lines.len(), 1);
    assert_eq!(parts(&lines[0]), ("/höme/", "日本", "語/ü.txt"));
}

#[test]
fn substring_search_keeps_the_order_of_the_catalogue_and_its_duplicates() {
    let catalogue = catalogue_of(&["/b/x", "/a/x", "/b/x"]);
    let lines = match_substring(&catalogue, "x");
    assert_eq!(lines.len(), 3);
    assert_eq!(lines[0].text(), "/b/x");
    assert_eq!(lines[1].text(), "/a/x");
    assert_eq!(lines[2].text(), "/b/x");
}

#[test]
fn a_substring_line_is_the_path_cut_in_three() {
    let catalogue = catalogue_of(&["/home/foo/bar.txt", "/var/log/foo.log"]);
    let lines = match_substring(&catalogue, "foo");
    assert_eq!(lines[0].text(), "/home/foo/bar.txt");
    assert_eq!(lines[1].text(), "/var/log/foo.log");
}

#[test]
fn basename_search_wants_the_whole_basename() {
    let catalogue = catalogue_of(&["/home/foo/bar.txt", "/home/bar.txt.bak", "/home/bar"]);
    assert_eq!(match_basename(&catalogue, "bar.tx").len(), 0);
    assert_eq!(match_basename(&catalogue, "ar.txt").len(), 0);
    let lines = match_basename(&catalogue, "bar");
    assert_eq!(lines.len(), 1);
    assert_eq!(parts(&lines[0]), ("/home/", "bar", ""));
}

#[test]
fn basename_search_is_case_sensitive() {
    let catalogue = catalogue_of(&["/home/README", "/home/readme"]);
    let lines = match_basename(&catalogue, "readme");
    assert_eq!(lines.len(), 1);
    assert_eq!(lines[0].text(), "/home/readme");
}

#[test]
fn basename_search_does_not_match_a_directory_on_the_way() {
    let catalogue = catalogue_of(&["/home/foo/bar.txt", "/home/foo"]);
    let lines = match_basename(&catalogue, "foo");
    assert_eq!(lines.len(), 1);
    assert_eq!(parts(&lines[0]), ("/home/", "foo", ""));
}

#[test]
fn basename_search_finds_every_entry_of_that_name() {
    let catalogue = catalogue_of(&["/a/notes", "/b/c/notes", "/notes", "/a/notes.txt"]);
    let lines = match_basename(&catalogue, "notes");
    assert_eq!(lines.len(), 3);
    assert_eq!(parts(&lines[0]), ("/a/", "notes", ""));
    assert_eq!(parts(&lines[1]), ("/b/c/", "notes", ""));
    assert_eq!(parts(&lines[2]), ("/", "notes", ""));
}

#[test]
fn basename_search_with_the_empty_pattern_matches_no_well_formed_entry() {
    let catalogue = catalogue_of(&["/etc/passwd", "/home/foo"]);
    assert_eq!(match_basename(&catalogue, "").len(), 0);
}

#[test]
fn basename_search_with_the_empty_pattern_matches_a_stored_empty_basename() {
    let catalogue = vec![PathEntry::new("/home/".to_string(), String::new())];
    let lines = match_basename(&catalogue, "");
    assert_eq!(lines.len(), 1);
    assert_eq!(parts(&lines[0]), ("/home/", "", ""));
}

#[test]
fn basename_search_goes_by_the_stored_basename() {
    let catalogue = vec![PathEntry::new("/home/foo/bar.txt".to_string(), "stored".to_string())];
    assert_eq!(match_basename(&catalogue, "bar.txt").len(), 0);
    let lines = match_basename(&catalogue, "stored");
    assert_eq!(lines.len(), 1);
    assert_eq!(parts(&lines[0]), ("/home/foo/", "stored", ""));
}

#[test]
fn basename_search_of_a_path_without_separator_gives_the_root_as_directory() {
    let catalogue = catalogue_of(&["Makefile"]);
    let lines = match_basename(&catalogue, "Makefile");
    assert_eq!(lines.len(), 1);
    assert_eq!(parts(&lines[0]), ("/", "Makefile", ""));
}

#[test]
fn a_basename_line_of_an_absolute_path_is_that_path() {
    let catalogue = catalogue_of(&["/home/foo/bar.txt"]);
    let lines = match_basename(&catalogue, "bar.txt");
    assert_eq!(lines[0].text(), "/home/foo/bar.txt");
}

#[test]
fn search_mode_from_name() {
    assert_eq!(SearchMode::from_name("keyword"), Some(SearchMode::Substring));
    assert_eq!(SearchMode::from_name("basename"), Some(SearchMode::Basename));
    assert_eq!(SearchMode::from_name("Keyword"), None);
    assert_eq!(SearchMode::from_name("substring"), None);
    assert_eq!(SearchMode::from_name(""), None);
}

#[test]
fn database_search_by_keyword() {
    let catalogue = catalogue_of(&["/home/foo/bar.txt", "/etc/passwd"]);
    let lines = database_search(&catalogue, "foo", "keyword").unwrap();
    assert_eq!(lines.len(), 1);
    assert_eq!(parts(&lines[0]), ("/home/", "foo", "/bar.txt"));
}

#[test]
fn database_search_by_basename() {
    let catalogue = catalogue_of(&["/home/foo/bar.txt", "/etc/passwd"]);
    let lines = database_search(&catalogue, "passwd", "basename").unwrap();
    assert_eq!(lines.len(), 1);
    assert_eq!(parts(&lines[0]), ("/etc/", "passwd", ""));
}

#[test]
fn database_search_refuses_an_unknown_mode() {
    let catalogue = catalogue_of(&["/home/foo/bar.txt"]);
    assert_eq!(database_search(&catalogue, "foo", "regex"), Err(SearchError::UnrecognizedMode));
    assert_eq!(database_search(&catalogue, "foo", ""), Err(SearchError::UnrecognizedMode));
}

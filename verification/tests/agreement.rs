use rlocate::entry::PathEntry;
use rlocate::path::{last_segment_of, parent_directory_of};
use rlocate::search::{match_basename, match_substring};
use rlocate::text::find_first;

const TEXTS: [&str; 14] = [
    "",
    "/",
    "//",
    "a",
    "/a",
    "a/",
    "/home/foo/bar.txt",
    "/home/foo/foo",
    "/höme/日本語/ü.txt",
    "relative/path/to/file",
    "/trailing/slash/",
    "/a//b",
    "/aaa/aa/a",
    "/with space/and.dots/..hidden",
];

const PATTERNS: [&str; 12] =
    ["", "/", "a", "aa", "foo", "oo/", "日本", "ü", ".", "//", "txt", "/home/foo/bar.txt"];

/// The offset in characters of the first occurrence, by way of the standard
/// library's byte offset.
fn first_by_bytes(hay: &str, needle: &str) -> Option<usize> {
    hay.find(needle).map(|byte| hay[..byte].chars().count())
}

#[test]
fn find_first_agrees_with_the_standard_search() {
    for hay in TEXTS {
        for needle in PATTERNS {
            assert_eq!(find_first(hay, needle), first_by_bytes(hay, needle), "{hay:?} {needle:?}");
        }
    }
}

#[test]
fn last_segment_agrees_with_splitting_on_the_separator() {
    for path in TEXTS {
        let last = path.split('/').last().unwrap();
        assert_eq!(last_segment_of(path), last, "{path:?}");
    }
}

#[test]
fn parent_directory_agrees_with_splitting_and_joining() {
    for path in TEXTS {
        let segments: Vec<&str> = path.split('/').collect();
        let directory = format!("{}/", segments[..segments.len() - 1].join("/"));
        assert_eq!(parent_directory_of(path), directory, "{path:?}");
    }
}

#[test]
fn substring_lines_agree_with_splitting_at_the_standard_offset() {
    let catalogue: Vec<PathEntry> =
        TEXTS.iter().map(|path| PathEntry::new(path.to_string(), String::new())).collect();
    for pattern in PATTERNS {
        let mut expected: Vec<(String, String, String)> = Vec::new();
        for path in TEXTS {
            if let Some(start) = path.find(pattern) {
                let (left, right) = path.split_at(start);
                let (middle, right) = right.split_at(pattern.len());
                expected.push((left.to_string(), middle.to_string(), right.to_string()));
            }
        }
        let found: Vec<(String, String, String)> = match_substring(&catalogue, pattern)
            .iter()
            .map(|line| {
                (line.prefix().to_string(), line.highlight().to_string(), line.suffix().to_string())
            })
            .collect();
        assert_eq!(found, expected, "{pattern:?}");
    }
}

#[test]
fn basename_lines_agree_with_comparing_every_basename() {
    let catalogue: Vec<PathEntry> =
        TEXTS.iter().filter_map(|path| PathEntry::from_path(path)).collect();
    for pattern in ["a", "foo", "bar.txt", "file", "ü.txt", "..hidden", "b", "missing", ""] {
        let expected: Vec<String> = catalogue
            .iter()
            .filter(|entry| entry.get_basename() == pattern)
            .map(|entry| entry.get_path().to_string())
            .collect();
        let found: Vec<String> = match_basename(&catalogue, pattern)
            .iter()
            .filter(|line| line.highlight() == pattern && line.suffix().is_empty())
            .map(|line| format!("{}{}", line.prefix(), line.highlight()))
            .collect();
        let expected_lines: Vec<String> = expected
            .iter()
            .map(|path| if path.contains('/') { path.clone() } else { format!("/{path}") })
            .collect();
        assert_eq!(found, expected_lines, "{pattern:?}");
        assert_eq!(match_basename(&catalogue, pattern).len(), expected.len(), "{pattern:?}");
    }
}

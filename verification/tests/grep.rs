use directory_octopus::grep::{search_in_files, GrepError, GrepSearch, MAX_RESULTS};

fn file(path: &str, content: &str) -> (String, Option<String>) {
    (path.to_string(), Some(content.to_string()))
}

/// A directory of the selection: a path with no text to read.
fn directory(path: &str) -> (String, Option<String>) {
    (path.to_string(), None)
}

#[test]
fn finds_matching_lines_with_their_line_number() {
    let files = vec![file("/tmp/a.txt", "hello world\nfoo bar\nhello again\n")];
    let outcome = search_in_files(&files, "hello").ok().unwrap();
    assert_eq!(outcome.matches.len(), 2);
    assert_eq!(outcome.matches[0].line_number, 1);
    assert_eq!(outcome.matches[0].line, "hello world");
    assert_eq!(outcome.matches[1].line_number, 3);
    assert!(!outcome.truncated);
}

#[test]
fn supports_regular_expressions() {
    let files = vec![file("a.txt", "foo123\nbar\nfoo456\n")];
    let outcome = search_in_files(&files, r"foo\d+").ok().unwrap();
    assert_eq!(outcome.matches.len(), 2);
}

#[test]
fn searches_across_multiple_files() {
    let files = vec![file("a.txt", "match here\n"), file("b.txt", "match there\n")];
    let outcome = search_in_files(&files, "match").ok().unwrap();
    assert_eq!(outcome.matches.len(), 2);
    assert_eq!(outcome.matches[1].path, "b.txt");
}

#[test]
fn skips_directories_in_the_selection() {
    let files = vec![directory("/tmp/subdir"), file("/tmp/a.txt", "match\n")];
    let outcome = search_in_files(&files, "match").ok().unwrap();
    assert_eq!(outcome.matches.len(), 1);
    assert_eq!(outcome.matches[0].path, "/tmp/a.txt");
}

#[test]
fn invalid_regex_returns_an_error() {
    let files = vec![file("a.txt", "hello\n")];
    assert!(search_in_files(&files, "(unterminated").is_err());
    assert!(matches!(GrepSearch::new("(unterminated"), Err(GrepError::InvalidPattern(m)) if !m.is_empty()));
}

#[test]
fn stops_at_the_cap_only_when_lines_remain() {
    let exact = "x\n".repeat(MAX_RESULTS);
    let outcome = search_in_files(&vec![file("a", &exact)], "x").ok().unwrap();
    assert_eq!(outcome.matches.len(), MAX_RESULTS);
    assert!(!outcome.truncated);

    let more = "x\n".repeat(MAX_RESULTS + 1);
    let outcome = search_in_files(&vec![file("a", &more), file("b", "x\n")], "x").ok().unwrap();
    assert_eq!(outcome.matches.len(), MAX_RESULTS);
    assert!(outcome.truncated);

    let outcome = search_in_files(&vec![file("a", &exact), file("b", "y\n")], "x").ok().unwrap();
    assert_eq!(outcome.matches.len(), MAX_RESULTS);
    assert!(outcome.truncated);
}

#[test]
fn a_search_fed_file_by_file_stops_asking_once_capped() {
    let mut search = GrepSearch::new("a").ok().unwrap();
    assert!(search.add_file("one", &"a\n".repeat(MAX_RESULTS)));
    assert!(!search.add_file("two", "a\n"));
    assert!(!search.add_file("three", "a\n"));
    let outcome = search.finish();
    assert_eq!(outcome.matches.len(), MAX_RESULTS);
    assert!(outcome.truncated);
}

#[test]
fn the_cap_keeps_the_first_matches_in_file_order() {
    let a = "x\n".repeat(150);
    let b = "y\nx\n".repeat(100);
    let outcome = search_in_files(&vec![file("a", &a), file("b", &b)], "x").ok().unwrap();
    assert_eq!(outcome.matches.len(), MAX_RESULTS);
    assert!(outcome.truncated);
    assert_eq!(outcome.matches[149].path, "a");
    assert_eq!(outcome.matches[149].line_number, 150);
    assert_eq!(outcome.matches[150].path, "b");
    assert_eq!(outcome.matches[150].line_number, 2);
    assert_eq!(outcome.matches[199].line_number, 100);
}

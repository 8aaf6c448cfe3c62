use directory_octopus::search::{Finder, MAX_RESULTS};

/// Walks an in-memory tree the way the application walks the disk.
fn walk(tree: &[(&str, &[(&str, bool)])], root: &str, pattern: &str) -> (Vec<String>, bool) {
    let Some(mut finder) = Finder::new(root, pattern) else { return (Vec::new(), false) };
    while let Some(dir) = finder.next_dir() {
        let entries = tree.iter().find(|(d, _)| *d == dir).map(|(_, e)| *e).unwrap_or(&[]);
        for (name, is_dir) in entries {
            let path = format!("{dir}/{name}");
            if !finder.visit(&path, name, *is_dir) {
                break;
            }
        }
    }
    let outcome = finder.finish();
    (outcome.matches, outcome.truncated)
}

#[test]
fn finds_files_matching_a_star_pattern_recursively() {
    let tree: &[(&str, &[(&str, bool)])] =
        &[("/t", &[("sub", true), ("report.txt", false), ("image.png", false)]), ("/t/sub", &[("notes.txt", false)])];
    let (matches, truncated) = walk(tree, "/t", "*.txt");
    assert_eq!(matches, vec!["/t/report.txt", "/t/sub/notes.txt"]);
    assert!(!truncated);
}

#[test]
fn question_mark_matches_exactly_one_character() {
    let tree: &[(&str, &[(&str, bool)])] = &[("/t", &[("a.txt", false), ("ab.txt", false)])];
    assert_eq!(walk(tree, "/t", "?.txt").0, vec!["/t/a.txt"]);
}

#[test]
fn matching_is_case_insensitive() {
    let tree: &[(&str, &[(&str, bool)])] = &[("/t", &[("Report.TXT", false)])];
    assert_eq!(walk(tree, "/t", "report.txt").0, vec!["/t/Report.TXT"]);
}

#[test]
fn reports_truncated_when_the_result_cap_is_reached() {
    let names: Vec<String> = (0..250).map(|i| format!("f{i}.txt")).collect();
    let entries: Vec<(&str, bool)> = names.iter().map(|n| (n.as_str(), false)).collect();
    let tree: &[(&str, &[(&str, bool)])] = &[("/t", &entries)];
    let (matches, truncated) = walk(tree, "/t", "*.txt");
    assert_eq!(matches.len(), MAX_RESULTS);
    assert!(truncated);
}

#[test]
fn invalid_pattern_returns_no_results_instead_of_panicking() {
    assert!(Finder::new("/t", "[unterminated").is_none());
    let tree: &[(&str, &[(&str, bool)])] = &[("/t", &[("a.txt", false)])];
    assert_eq!(walk(tree, "/t", "[unterminated").0, Vec::<String>::new());
}

#[test]
fn results_are_sorted_component_by_component() {
    let tree: &[(&str, &[(&str, bool)])] = &[("/t", &[("a-b", false), ("a", true)]), ("/t/a", &[("b", false)])];
    // As paths, /t/a/b comes before /t/a-b (the component "a" is shorter).
    assert_eq!(walk(tree, "/t", "*").0, vec!["/t/a", "/t/a/b", "/t/a-b"]);
}

#[test]
fn directories_are_read_last_in_first_out() {
    let mut finder = Finder::new("/r", "*").unwrap();
    assert_eq!(finder.next_dir(), Some("/r".to_string()));
    assert!(finder.visit("/r/x", "x", true));
    assert!(finder.visit("/r/y", "y", true));
    assert_eq!(finder.next_dir(), Some("/r/y".to_string()));
    assert_eq!(finder.next_dir(), Some("/r/x".to_string()));
    assert_eq!(finder.next_dir(), None);
}

#[test]
fn the_first_matches_visited_are_kept() {
    let mut finder = Finder::new("/t", "*.rs").unwrap();
    assert_eq!(finder.next_dir(), Some("/t".to_owned()));
    for i in 0..(MAX_RESULTS + 50) {
        let name = format!("f{i:03}.rs");
        let go_on = finder.visit(&format!("/t/{name}"), &name, false);
        assert_eq!(go_on, i < MAX_RESULTS);
        finder.visit("/t/other.txt", "other.txt", false);
    }
    let outcome = finder.finish();
    assert!(outcome.truncated);
    assert_eq!(outcome.matches.len(), MAX_RESULTS);
    assert_eq!(outcome.matches[0], "/t/f000.rs");
    assert_eq!(outcome.matches[MAX_RESULTS - 1], format!("/t/f{:03}.rs", MAX_RESULTS - 1));
}

#[test]
fn hidden_names_and_separators_match_the_find_way() {
    let tree: &[(&str, &[(&str, bool)])] = &[("/t", &[(".hidden.rs", false), ("Main.RS", false)])];
    assert_eq!(walk(tree, "/t", "*.rs").0, vec!["/t/.hidden.rs", "/t/Main.RS"]);
}

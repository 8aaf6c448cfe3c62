use std::collections::HashSet;

use directory_octopus::panel::{activate_panel, sort_listing, FileEntry, PanelState};

fn sample_panel() -> PanelState {
    PanelState {
        id: "left",
        title: "test".into(),
        size_label: "--".into(),
        path: "/tmp".into(),
        entries: vec![
            FileEntry { name: "docs".into(), size: Some(100), is_dir: true },
            FileEntry { name: "readme.txt".into(), size: Some(20), is_dir: false },
            FileEntry { name: "src".into(), size: Some(40), is_dir: true },
        ],
        selected: HashSet::new(),
        range_anchor: None,
        active: false,
    }
}

fn entry(name: &str, size: u64, is_dir: bool) -> FileEntry {
    FileEntry { name: name.into(), size: Some(size), is_dir }
}

#[test]
fn select_all_and_none_cover_every_entry_regardless_of_type() {
    let mut panel = sample_panel();
    panel.select_all();
    assert_eq!(panel.selected.len(), 3);
    assert_eq!(panel.selected_entries().len(), 3);

    panel.select_none();
    assert!(panel.selected.is_empty());
}

#[test]
fn selected_entries_sums_sizes_across_dirs_and_files() {
    let mut panel = sample_panel();
    panel.selected.insert(0); // "docs" directory
    panel.selected.insert(1); // "readme.txt" file

    let total: u64 = panel.selected_entries().iter().filter_map(|e| e.size).sum();
    assert_eq!(total, 120);

    let dirs_selected = panel.selected_entries().iter().filter(|e| e.is_dir).count();
    let files_selected = panel.selected_entries().iter().filter(|e| !e.is_dir).count();
    assert_eq!(dirs_selected, 1);
    assert_eq!(files_selected, 1);
}

#[test]
fn shift_click_selects_continuous_range_from_anchor() {
    let mut panel = sample_panel();
    panel.entries.push(FileEntry { name: "z.txt".into(), size: Some(1), is_dir: false });

    panel.range_anchor = Some(1);
    panel.select_range_to(3);
    assert_eq!(panel.selected, HashSet::from([1, 2, 3]));

    // The range also works from a larger index towards a smaller one.
    panel.range_anchor = Some(3);
    panel.select_range_to(0);
    assert_eq!(panel.selected, HashSet::from([0, 1, 2, 3]));
}

#[test]
fn shift_click_without_prior_anchor_selects_only_clicked_item() {
    let mut panel = sample_panel();
    assert_eq!(panel.range_anchor, None);
    panel.select_range_to(2);
    assert_eq!(panel.selected, HashSet::from([2]));
}

#[test]
fn listing_puts_directories_first_then_sorts_by_lowercase_name() {
    let raw = vec![
        entry("b.txt", 1, false),
        entry("Zeta", 0, true),
        entry("A.txt", 2, false),
        entry("alpha", 0, true),
        entry("a.TXT", 3, false),
    ];
    let names: Vec<String> = sort_listing(raw).into_iter().map(|e| e.name).collect();
    // "A.txt" and "a.TXT" have the same lowercase name: their order is kept.
    assert_eq!(names, vec!["alpha", "Zeta", "A.txt", "a.TXT", "b.txt"]);
}

#[test]
fn navigate_to_sorts_the_listing_and_forgets_the_selection() {
    let mut panel = sample_panel();
    panel.selected.insert(1);
    panel.range_anchor = Some(1);
    panel.navigate_to("/home/user/docs".into(), vec![entry("x", 1, false), entry("sub", 0, true)]);
    assert_eq!(panel.title, "docs");
    assert_eq!(panel.path, "/home/user/docs");
    assert_eq!(panel.entries[0].name, "sub");
    assert_eq!(panel.entries[1].name, "x");
    assert!(panel.selected.is_empty());
    assert_eq!(panel.range_anchor, None);
}

#[test]
fn the_root_directory_is_titled_by_its_path() {
    let panel = PanelState::at_path("right", "/".into(), Vec::new());
    assert_eq!(panel.title, "/");
    assert_eq!(panel.size_label, "--");
    assert!(!panel.active);
}

#[test]
fn plain_click_selects_only_the_entry_and_sets_the_anchor() {
    let mut panel = sample_panel();
    panel.select_all();
    panel.click_entry(1, false, false);
    assert_eq!(panel.selected, HashSet::from([1]));
    assert_eq!(panel.range_anchor, Some(1));
}

#[test]
fn ctrl_click_toggles_one_entry() {
    let mut panel = sample_panel();
    panel.click_entry(0, false, false);
    panel.click_entry(2, true, false);
    assert_eq!(panel.selected, HashSet::from([0, 2]));
    panel.click_entry(0, true, false);
    assert_eq!(panel.selected, HashSet::from([2]));
    assert_eq!(panel.range_anchor, Some(0));
}

#[test]
fn shift_click_extends_from_the_last_click() {
    let mut panel = sample_panel();
    panel.click_entry(2, false, false);
    panel.click_entry(0, false, true);
    assert_eq!(panel.selected, HashSet::from([0, 1, 2]));
    assert_eq!(panel.range_anchor, Some(2));
}

#[test]
fn header_shows_the_size_label_or_the_selection() {
    let mut panel = sample_panel();
    assert_eq!(panel.header_right_text(), "--");
    panel.selected.insert(0);
    panel.selected.insert(2);
    assert_eq!(panel.header_right_text(), "2 sel. (140)");
}

#[test]
fn selected_paths_join_the_panel_directory() {
    let mut panel = sample_panel();
    panel.selected.insert(1);
    panel.selected.insert(7); // past the end: selects nothing
    assert_eq!(panel.selected_paths(), vec!["/tmp/readme.txt".to_string()]);
}

#[test]
fn jumping_to_an_entry_selects_it_alone() {
    let mut panel = sample_panel();
    panel.select_all();
    panel.select_entry_named("src");
    assert_eq!(panel.selected, HashSet::from([2]));
    assert_eq!(panel.range_anchor, Some(2));
    panel.select_entry_named("missing");
    assert_eq!(panel.selected, HashSet::from([2]));
}

#[test]
fn clicking_a_panel_clears_the_other_selection() {
    let mut left = sample_panel();
    let mut right = sample_panel();
    right.id = "right";
    left.active = true;
    right.select_all();
    right.range_anchor = Some(2);
    activate_panel(&mut right, &mut left);
    assert!(right.active);
    assert!(!left.active);
    assert_eq!(right.selected.len(), 3);
    left.click_entry(0, false, false);
    activate_panel(&mut left, &mut right);
    assert!(left.active && !right.active);
    assert!(right.selected.is_empty());
    assert_eq!(right.range_anchor, None);
    assert_eq!(left.selected, HashSet::from([0]));
}

#[test]
fn renaming_needs_exactly_one_selected_entry() {
    let mut panel = sample_panel();
    assert!(panel.single_selected_entry().is_none());
    panel.selected.insert(1);
    assert_eq!(panel.single_selected_entry().map(|e| e.name.as_str()), Some("readme.txt"));
    panel.selected.insert(2);
    assert!(panel.single_selected_entry().is_none());
    panel.selected.clear();
    panel.selected.insert(9);
    assert!(panel.single_selected_entry().is_none());
}

#[test]
fn each_selected_position_is_listed_once_in_listing_order() {
    let mut panel = sample_panel();
    panel.selected.insert(2);
    panel.selected.insert(0);
    panel.selected.insert(9);
    let names: Vec<&str> = panel.selected_entries().iter().map(|e| e.name.as_str()).collect();
    assert_eq!(names, vec!["docs", "src"]);
}

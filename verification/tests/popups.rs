use directory_octopus::edit_popup::{DriveSlotEdit, EditPopupAction};
use directory_octopus::popups::{
    find_results_heading, line_number_width, permissions_label, save_drive_slot_action, search_result_row,
    search_results_heading, viewer_line, ModalAction, SearchResultLine,
};

#[test]
fn the_editor_starts_from_the_shortcut() {
    let edit = DriveSlotEdit::new(3, "HOME::", Some("/home/user"));
    assert_eq!(edit.row_idx, 3);
    assert_eq!(edit.label, "HOME");
    assert_eq!(edit.path, "/home/user");
    let edit = DriveSlotEdit::new(0, "BOOKMARKS:", None);
    assert_eq!(edit.path, "");
}

#[test]
fn confirming_the_editor_saves_trimmed_values() {
    let edit = DriveSlotEdit { row_idx: 2, label: "  Music ".into(), path: " /music ".into() };
    match edit.save_action() {
        EditPopupAction::Save { row_idx, label, path } => {
            assert_eq!(row_idx, 2);
            assert_eq!(label, "Music:");
            assert_eq!(path.as_deref(), Some("/music"));
        }
        _ => panic!("OK saves"),
    }
    let blank = DriveSlotEdit { row_idx: 0, label: "   ".into(), path: "".into() };
    match save_drive_slot_action(&blank) {
        ModalAction::SaveDriveSlot { label, path, .. } => {
            assert_eq!(label, "UNNAMED");
            assert_eq!(path, None);
        }
        _ => panic!("OK saves"),
    }
}

#[test]
fn an_unchanged_edit_keeps_the_shortcut() {
    let edit = DriveSlotEdit::new(1, "ROOT:", Some("/"));
    let (label, path) = edit.saved_values();
    assert_eq!(label, "ROOT:");
    assert_eq!(path.as_deref(), Some("/"));
}

#[test]
fn result_headings() {
    assert_eq!(find_results_heading(0, false), "No matches found.");
    assert_eq!(find_results_heading(3, false), "3 match(es) — click one to jump there:");
    assert_eq!(
        find_results_heading(200, true),
        "200+ match(es) found (showing the first 200) — refine your search. Click one to jump there:"
    );
    assert_eq!(search_results_heading(1, false), "1 line(s) — click one to view its file:");
    assert_eq!(
        search_results_heading(200, true),
        "200+ line(s) found (showing the first 200) — refine your search. Click one to view its file:"
    );
    let hit = SearchResultLine { path: "/a.txt".into(), line_number: 12, line: "hello".into() };
    assert_eq!(search_result_row(&hit), "/a.txt:12: hello");
}

#[test]
fn permissions_title_and_viewer_lines() {
    assert_eq!(permissions_label(&vec!["/a".to_string()]), "/a");
    assert_eq!(permissions_label(&vec!["/a".to_string(), "/b".to_string()]), "2 items selected");
    assert_eq!(line_number_width(0), 1);
    assert_eq!(line_number_width(9), 1);
    assert_eq!(line_number_width(120), 3);
    assert_eq!(viewer_line(7, 3, "text"), "  7 | text");
    assert_eq!(viewer_line(1234, 3, "x"), "1234 | x");
}

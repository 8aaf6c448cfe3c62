use std::collections::HashSet;

use directory_octopus::app::ButtonAction;
use directory_octopus::button_bar::DriveSlot;
use directory_octopus::commands::{
    command_for, find_step, jump_target, permissions_failure, run_outcome, typed_pattern, upx_failure_message,
    Command, FindStep, SelectedEntry,
};
use directory_octopus::panel::{FileEntry, PanelState};
use directory_octopus::popups::Modal;
use directory_octopus::search::FindOutcome;

fn panel(path: &str, names: &[&str], selected: &[usize]) -> PanelState {
    PanelState {
        id: "left",
        title: "test".into(),
        size_label: "--".into(),
        path: path.into(),
        entries: names.iter().map(|n| FileEntry { name: (*n).into(), size: Some(1), is_dir: false }).collect(),
        selected: selected.iter().copied().collect::<HashSet<usize>>(),
        range_anchor: None,
        active: true,
    }
}

/// The command of `action` for the selection `sel` in a panel on `/d`.
fn command(action: &ButtonAction, for_left: bool, sel: &Vec<SelectedEntry>) -> Command {
    command_for(action, for_left, &panel("/d", &[], &[]), "/e", &Vec::new(), sel)
}

fn dir(path: &str, non_empty: bool) -> SelectedEntry {
    SelectedEntry { path: path.to_owned(), is_file: false, is_non_empty_dir: non_empty }
}

fn file(path: &str) -> SelectedEntry {
    SelectedEntry { path: path.to_owned(), is_file: true, is_non_empty_dir: false }
}

fn error_text(c: Command) -> String {
    match c {
        Command::Open(Modal::Error(t)) => t,
        _ => panic!("expected an error pop-up"),
    }
}

#[test]
fn search_without_files_asks_for_one() {
    let sel = vec![dir("/d/sub", true)];
    assert_eq!(error_text(command(&ButtonAction::Search, true, &sel)), "Select at least one file to search in.");
    assert_eq!(error_text(command(&ButtonAction::Search, true, &Vec::new())), "Select at least one file to search in.");
}

#[test]
fn search_keeps_only_the_files_in_order() {
    let sel = vec![file("/d/a.txt"), dir("/d/sub", false), file("/d/b.txt")];
    match command(&ButtonAction::Search, false, &sel) {
        Command::Open(Modal::Search(s)) => {
            assert_eq!(s.paths, vec!["/d/a.txt".to_owned(), "/d/b.txt".to_owned()]);
            assert_eq!(s.pattern, "");
        }
        _ => panic!("expected the search pop-up"),
    }
}

#[test]
fn run_read_and_hex_take_the_first_file() {
    let sel = vec![dir("/d/sub", false), file("/d/x"), file("/d/y")];
    match command(&ButtonAction::Run, true, &sel) {
        Command::Open(Modal::Run(s)) => {
            assert_eq!(s.path, "/d/x");
            assert_eq!(s.args, "");
        }
        _ => panic!("expected the run pop-up"),
    }
    assert!(matches!(command(&ButtonAction::Read, true, &sel), Command::ViewText(p) if p == "/d/x"));
    assert!(matches!(command(&ButtonAction::HexRead, true, &sel), Command::ViewHex(p) if p == "/d/x"));
    assert!(matches!(command(&ButtonAction::Edit, true, &sel), Command::EditText(p) if p == "/d/x"));
    assert!(matches!(command(&ButtonAction::Upx, true, &sel), Command::Compress(p) if p == "/d/x"));
}

#[test]
fn file_buttons_without_a_file() {
    let sel = vec![dir("/d/sub", false)];
    assert_eq!(error_text(command(&ButtonAction::Run, true, &sel)), "Select a file to run.");
    assert_eq!(error_text(command(&ButtonAction::Read, true, &sel)), "Select a text file to view.");
    assert_eq!(error_text(command(&ButtonAction::HexRead, true, &sel)), "Select a file to view in hex.");
    assert!(matches!(command(&ButtonAction::Edit, true, &sel), Command::Idle));
    assert!(matches!(command(&ButtonAction::Upx, true, &sel), Command::Idle));
    assert!(matches!(command(&ButtonAction::Extract, true, &sel), Command::Idle));
}

#[test]
fn extract_opens_archives_only() {
    let archive = vec![file("/d/pack.TAR.GZ")];
    assert!(matches!(command(&ButtonAction::Extract, true, &archive), Command::OpenArchive(p) if p == "/d/pack.TAR.GZ"));
    let plain = vec![file("/d/notes.txt"), file("/d/pack.zip")];
    assert!(matches!(command(&ButtonAction::Extract, true, &plain), Command::Idle));
}

#[test]
fn permissions_and_datestamp_take_every_entry() {
    let sel = vec![dir("/d/sub", true), file("/d/x")];
    match command(&ButtonAction::Permissions, true, &sel) {
        Command::ReadPermissions(paths) => assert_eq!(paths, vec!["/d/sub".to_owned(), "/d/x".to_owned()]),
        _ => panic!("expected the rights to be read"),
    }
    assert_eq!(
        error_text(command(&ButtonAction::Permissions, true, &Vec::new())),
        "Select at least one file or folder."
    );
    match command(&ButtonAction::Datestamp, true, &sel) {
        Command::Stamp(paths) => assert_eq!(paths, vec!["/d/sub".to_owned(), "/d/x".to_owned()]),
        _ => panic!("expected a datestamp"),
    }
}

#[test]
fn delete_asks_first_for_non_empty_folders() {
    assert!(matches!(command(&ButtonAction::Delete, true, &Vec::new()), Command::Idle));
    let sel = vec![file("/d/x"), dir("/d/full", true), dir("/d/empty", false)];
    match command(&ButtonAction::Delete, false, &sel) {
        Command::Open(Modal::ConfirmDelete(s)) => {
            assert!(!s.for_left);
            assert_eq!(s.paths.len(), 3);
            assert_eq!(s.message, "Delete 3 item(s), including non-empty folder(s)?");
        }
        _ => panic!("expected a confirmation"),
    }
    let sel = vec![file("/d/x"), dir("/d/empty", false)];
    match command(&ButtonAction::Delete, true, &sel) {
        Command::Delete { for_left, paths } => {
            assert!(for_left);
            assert_eq!(paths, vec!["/d/x".to_owned(), "/d/empty".to_owned()]);
        }
        _ => panic!("expected a deletion"),
    }
}

#[test]
fn pop_ups_without_selection() {
    assert!(matches!(command(&ButtonAction::MakeDir, true, &Vec::new()),
        Command::Open(Modal::MakeDir(s)) if s.for_left && s.name.is_empty()));
    assert!(matches!(command(&ButtonAction::Find, false, &Vec::new()),
        Command::Open(Modal::Find(s)) if !s.for_left && s.pattern.is_empty()));
    assert!(matches!(command(&ButtonAction::Mount, false, &Vec::new()),
        Command::Open(Modal::Mount(s)) if s.device.is_empty() && s.mount_point.is_empty()));
    assert!(matches!(command(&ButtonAction::Unknown, false, &vec![file("/d/x")]), Command::Idle));
}

#[test]
fn typed_patterns_are_trimmed() {
    assert_eq!(typed_pattern("  *.rs \n"), Some("*.rs".to_owned()));
    assert_eq!(typed_pattern(" \t "), None);
    assert_eq!(typed_pattern(""), None);
}

#[test]
fn a_single_find_result_is_jumped_to() {
    let one = FindOutcome { matches: vec!["/d/a.rs".to_owned()], truncated: false };
    assert!(matches!(find_step(true, one), FindStep::JumpTo(p) if p == "/d/a.rs"));
    let one_of_many = FindOutcome { matches: vec!["/d/a.rs".to_owned()], truncated: true };
    assert!(matches!(find_step(true, one_of_many), FindStep::Show(r) if r.for_left && r.truncated && r.matches.len() == 1));
    let none = FindOutcome { matches: Vec::new(), truncated: false };
    assert!(matches!(find_step(false, none), FindStep::Show(r) if !r.for_left && r.matches.is_empty()));
    let two = FindOutcome { matches: vec!["/a".to_owned(), "/b".to_owned()], truncated: false };
    assert!(matches!(find_step(false, two), FindStep::Show(r) if r.matches == vec!["/a".to_owned(), "/b".to_owned()]));
}

#[test]
fn run_output_is_shown() {
    match run_outcome("/bin/tool -v", "one\ntwo\n", "", true) {
        Some(Modal::ViewFile(v)) => {
            assert_eq!(v.path, "/bin/tool -v (output)");
            assert_eq!(v.lines, vec!["one".to_owned(), "two".to_owned()]);
            assert!(!v.truncated);
            assert_eq!(v.highlight_line, None);
            assert!(!v.scrolled);
        }
        _ => panic!("expected the output viewer"),
    }
}

#[test]
fn failed_runs_report_their_errors() {
    assert!(matches!(run_outcome("/bin/tool", " \n", "  boom \n", false),
        Some(Modal::Error(t)) if t == "/bin/tool failed:\nboom"));
    assert!(matches!(run_outcome("/bin/tool", "", "", false),
        Some(Modal::Error(t)) if t == "/bin/tool exited with an error."));
    assert!(run_outcome("/bin/tool", "  ", "noise", true).is_none());
}

#[test]
fn upx_and_permission_messages() {
    assert_eq!(upx_failure_message("/d/app", " NotCompressibleException\n"), "upx --best /d/app failed:\nNotCompressibleException");
    assert_eq!(permissions_failure(&Vec::new()), None);
    assert_eq!(
        permissions_failure(&vec!["/a: denied".to_owned(), "/b: denied".to_owned()]),
        Some("Could not change permissions:\n/a: denied\n/b: denied".to_owned())
    );
}

#[test]
fn moves_in_the_tree_go_to_the_active_panel() {
    assert!(matches!(command(&ButtonAction::Goto("/home/me".into()), false, &Vec::new()),
        Command::Navigate { for_left: false, path } if path == "/home/me"));
    let p = panel("/home/me/docs", &[], &[]);
    assert!(matches!(command_for(&ButtonAction::Parent, true, &p, "/", &Vec::new(), &Vec::new()),
        Command::Navigate { for_left: true, path } if path == "/home/me"));
    let root = panel("/", &[], &[]);
    assert!(matches!(command_for(&ButtonAction::Parent, true, &root, "/", &Vec::new(), &Vec::new()), Command::Idle));
    assert!(matches!(command(&ButtonAction::Root, true, &Vec::new()), Command::ToDeviceRoot { for_left: true }));
    assert!(matches!(command(&ButtonAction::SelectAll, false, &Vec::new()), Command::SelectAll { for_left: false }));
    assert!(matches!(command(&ButtonAction::SelectNone, true, &Vec::new()), Command::SelectNone { for_left: true }));
}

#[test]
fn shortcut_edition_needs_an_existing_row() {
    let slots = vec![DriveSlot::new("Home:", "/home/me"), DriveSlot::placeholder("USB")];
    let p = panel("/d", &[], &[]);
    match command_for(&ButtonAction::EditDrive(0), true, &p, "/e", &slots, &Vec::new()) {
        Command::Open(Modal::EditDriveSlot(e)) => {
            assert_eq!(e.row_idx, 0);
            assert_eq!(e.label, "Home");
            assert_eq!(e.path, "/home/me");
        }
        _ => panic!("expected the shortcut edition"),
    }
    match command_for(&ButtonAction::EditDrive(1), true, &p, "/e", &slots, &Vec::new()) {
        Command::Open(Modal::EditDriveSlot(e)) => assert_eq!(e.path, ""),
        _ => panic!("expected the shortcut edition"),
    }
    assert!(matches!(command_for(&ButtonAction::EditDrive(2), true, &p, "/e", &slots, &Vec::new()), Command::Idle));
}

#[test]
fn copies_go_to_the_other_panel_unless_it_shows_the_same_directory() {
    let p = panel("/d", &["a", "b", "c"], &[2, 0, 7]);
    match command_for(&ButtonAction::Move, true, &p, "/e", &Vec::new(), &Vec::new()) {
        Command::Transfer { is_move, for_left, paths, dest_dir } => {
            assert!(is_move);
            assert!(for_left);
            assert_eq!(paths, vec!["/d/a".to_owned(), "/d/c".to_owned()]);
            assert_eq!(dest_dir, "/e");
        }
        _ => panic!("expected a transfer"),
    }
    assert!(matches!(command_for(&ButtonAction::Copy, false, &p, "/e", &Vec::new(), &Vec::new()),
        Command::Transfer { is_move: false, for_left: false, .. }));
    assert!(matches!(command_for(&ButtonAction::Copy, true, &p, "/d", &Vec::new(), &Vec::new()), Command::Idle));
    assert!(matches!(command_for(&ButtonAction::Copy, true, &p, "/d/", &Vec::new(), &Vec::new()), Command::Idle));
}

#[test]
fn rename_takes_the_single_selected_entry() {
    let p = panel("/d", &["a", "b"], &[1]);
    match command_for(&ButtonAction::Rename, false, &p, "/e", &Vec::new(), &Vec::new()) {
        Command::Open(Modal::Rename(s)) => {
            assert!(!s.for_left);
            assert_eq!(s.old_name, "b");
            assert_eq!(s.new_name, "b");
        }
        _ => panic!("expected the rename pop-up"),
    }
    let two = panel("/d", &["a", "b"], &[0, 1]);
    assert!(matches!(command_for(&ButtonAction::Rename, false, &two, "/e", &Vec::new(), &Vec::new()), Command::Idle));
    let past_end = panel("/d", &["a", "b"], &[5]);
    assert!(matches!(command_for(&ButtonAction::Rename, false, &past_end, "/e", &Vec::new(), &Vec::new()), Command::Idle));
}

#[test]
fn find_jumps_to_the_directory_of_an_entry() {
    assert_eq!(jump_target("/d/sub/a.rs"), Some(("/d/sub".to_owned(), Some("a.rs".to_owned()))));
    assert_eq!(jump_target("/d/.."), Some(("/d".to_owned(), None)));
    assert_eq!(jump_target("/"), None);
}

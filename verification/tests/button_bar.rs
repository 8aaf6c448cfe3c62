use directory_octopus::button_bar::{ButtonBarConfig, ButtonSlot, DriveSlot};
use directory_octopus::config::{AppConfig, DriveSlotConfig};
use directory_octopus::theme::ButtonStyle;

#[test]
fn shortcuts_and_buttons_are_built_from_their_parts() {
    let slot = DriveSlot::new("HOME:", "/home/user");
    assert_eq!(slot.label, "HOME:");
    assert_eq!(slot.path.as_deref(), Some("/home/user"));
    let placeholder = DriveSlot::placeholder("BOOKMARKS:");
    assert_eq!(placeholder.path, None);
    let button = ButtonSlot::new("Copy", ButtonStyle::Purple, "copy");
    assert_eq!(button.label, "Copy");
    assert_eq!(button.style, ButtonStyle::Purple);
    assert_eq!(button.action.as_deref(), Some("copy"));
}

#[test]
fn the_default_layout_follows_directory_opus() {
    let config = ButtonBarConfig::default_layout("/home/user", true);
    let labels: Vec<&str> = config.drive_slots.iter().map(|s| s.label.as_str()).collect();
    assert_eq!(labels, vec!["HOME:", "ROOT:", "MEDIA:", "TRASH:", "DEVICES:", "BOOKMARKS:"]);
    assert_eq!(config.drive_slots[3].path.as_deref(), Some("/home/user/.local/share/Trash/files"));
    assert_eq!(config.drive_slots[5].path, None);
    assert_eq!(config.rows.len(), 6);
    assert!(config.rows.iter().all(|row| row.len() == 7));
    assert_eq!(config.rows[0][0].as_ref().unwrap().action.as_deref(), Some("select_all"));
    assert_eq!(config.rows[1][2].as_ref().unwrap().label, "Mount");
    assert_eq!(config.rows[5][1].as_ref().unwrap().style, ButtonStyle::Red);
    assert!(config.rows[4].iter().all(|cell| cell.is_none()));

    let without_mount = ButtonBarConfig::default_layout("/home/user", false);
    assert!(without_mount.rows[1][2].is_none());
}

#[test]
fn editing_a_shortcut_changes_that_row_only() {
    let mut config = ButtonBarConfig::default_layout("/h", true);
    config.set_drive_slot(1, "DATA:".to_string(), Some("/data".to_string()));
    assert_eq!(config.drive_slots[1].label, "DATA:");
    assert_eq!(config.drive_slots[1].path.as_deref(), Some("/data"));
    assert_eq!(config.drive_slots[0].label, "HOME:");
    config.set_drive_slot(99, "X:".to_string(), None);
    assert_eq!(config.drive_slots.len(), 6);
}

#[test]
fn saved_shortcuts_replace_the_default_ones() {
    let saved = AppConfig {
        drive_slots: vec![
            DriveSlotConfig { label: "HOME:".into(), path: Some("/home/user".into()) },
            DriveSlotConfig { label: "BOOKMARKS:".into(), path: None },
        ],
    };
    let config = ButtonBarConfig::load_or_default("/h", true, Some(saved));
    assert_eq!(config.drive_slots.len(), 2);
    assert_eq!(config.drive_slots[0].path.as_deref(), Some("/home/user"));
    assert_eq!(config.drive_slots[1].path, None);

    let empty = AppConfig { drive_slots: Vec::new() };
    assert_eq!(ButtonBarConfig::load_or_default("/h", true, Some(empty)).drive_slots.len(), 6);
    assert_eq!(ButtonBarConfig::load_or_default("/h", true, None).drive_slots.len(), 6);
}

#[test]
fn saving_then_loading_gives_the_shortcuts_back() {
    let mut config = ButtonBarConfig::default_layout("/h", true);
    config.set_drive_slot(2, "USB:".into(), Some("/run/media/usb".into()));
    let saved = config.save_drive_slots();
    assert_eq!(saved.drive_slots.len(), 6);
    let reloaded = ButtonBarConfig::load_or_default("/other", false, Some(saved));
    for (a, b) in config.drive_slots.iter().zip(reloaded.drive_slots.iter()) {
        assert_eq!(a.label, b.label);
        assert_eq!(a.path, b.path);
    }
}

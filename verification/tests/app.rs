use directory_octopus::app::{
    delete_confirmation, hex_dump_lines, hex_view, is_archive_file, lines_from_content, looks_like_text,
    mode_from_flags, mount_failure_message, mount_request, new_folder_name, parse_action, permission_flags,
    rename_target, run_label, split_lines, ButtonAction, MAX_VIEW_LINES,
};
use directory_octopus::button_bar::{edit_drive_action, goto_action};

#[test]
fn lines_split_like_str_lines() {
    assert_eq!(split_lines("a\nb\r\nc"), vec!["a", "b", "c"]);
    assert_eq!(split_lines("a\n"), vec!["a"]);
    assert_eq!(split_lines("a\n\nb\n"), vec!["a", "", "b"]);
    assert_eq!(split_lines("a\rb\r"), vec!["a\rb\r"]);
    assert_eq!(split_lines(""), Vec::<String>::new());
    assert_eq!(split_lines("\n"), vec![""]);
    for text in ["x\ny", "x\r\ny\n", "\r\r\n\n", "é\u{2028}\n"] {
        assert_eq!(split_lines(text), text.lines().collect::<Vec<_>>());
    }
}

#[test]
fn a_final_line_ending_changes_nothing() {
    assert_eq!(split_lines("one\ntwo"), split_lines("one\ntwo\n"));
    assert_eq!(split_lines("one\ntwo"), split_lines("one\ntwo\r\n"));
}

#[test]
fn the_viewer_keeps_at_most_its_line_cap() {
    let (lines, truncated) = lines_from_content("a\nb\n");
    assert_eq!(lines, vec!["a", "b"]);
    assert!(!truncated);
    let long = "x\n".repeat(MAX_VIEW_LINES + 5);
    let (lines, truncated) = lines_from_content(&long);
    assert_eq!(lines.len(), MAX_VIEW_LINES);
    assert!(truncated);
    let exact = "x\n".repeat(MAX_VIEW_LINES);
    let (lines, truncated) = lines_from_content(&exact);
    assert_eq!(lines.len(), MAX_VIEW_LINES);
    assert!(!truncated);
}

#[test]
fn hex_dump_looks_like_hexdump_c() {
    let bytes: Vec<u8> = (0x41u8..0x41 + 18).collect();
    let lines = hex_dump_lines(&bytes);
    assert_eq!(lines.len(), 2);
    assert_eq!(
        lines[0],
        "00000000  41 42 43 44 45 46 47 48  49 4a 4b 4c 4d 4e 4f 50  |ABCDEFGHIJKLMNOP|"
    );
    assert_eq!(
        lines[1],
        "00000010  51 52                                             |QR|"
    );
    let lines = hex_dump_lines(&[0x00, 0x7f, 0x20]);
    assert_eq!(lines, vec![format!("00000000  00 7f 20 {} |.. |", " ".repeat(40))]);
    assert!(hex_dump_lines(&[]).is_empty());
}

#[test]
fn hex_view_cuts_long_files() {
    let bytes = vec![0u8; MAX_VIEW_LINES * 16 + 1];
    let (lines, truncated) = hex_view(&bytes);
    assert!(truncated);
    assert_eq!(lines.len(), MAX_VIEW_LINES);
    let (lines, truncated) = hex_view(&bytes[..17]);
    assert!(!truncated);
    assert_eq!(lines.len(), 2);
}

#[test]
fn text_files_have_no_zero_byte_at_their_start() {
    assert!(looks_like_text(b"hello\n"));
    assert!(looks_like_text(b""));
    assert!(!looks_like_text(b"he\0llo"));
    let mut late_zero = vec![b'a'; 8192];
    late_zero.push(0);
    assert!(looks_like_text(&late_zero));
}

#[test]
fn archives_are_known_by_extension_in_any_case() {
    assert!(is_archive_file("/tmp/photos.ZIP"));
    assert!(is_archive_file("backup.tar.gz"));
    assert!(!is_archive_file("notes.txt"));
    assert!(!is_archive_file(".zip"));
    assert!(!is_archive_file("/tmp/zip"));
}

#[test]
fn permissions_read_and_write_back() {
    let (owner, group, other) = permission_flags(0o100754);
    assert_eq!(owner, [true, true, true]);
    assert_eq!(group, [true, false, true]);
    assert_eq!(other, [true, false, false]);
    assert_eq!(mode_from_flags(owner, group, other), 0o754);
    assert_eq!(mode_from_flags([true, false, false], [false, false, false], [false, true, true]), 0o403);
}

#[test]
fn actions_are_read_back() {
    assert!(matches!(parse_action(&goto_action("/home/user")), ButtonAction::Goto(p) if p == "/home/user"));
    assert!(matches!(parse_action(&edit_drive_action(4)), ButtonAction::EditDrive(4)));
    assert!(matches!(parse_action("edit_drive:+7"), ButtonAction::EditDrive(7)));
    assert!(matches!(parse_action("edit_drive:x"), ButtonAction::Unknown));
    assert!(matches!(parse_action("edit_drive:99999999999999999999999"), ButtonAction::Unknown));
    assert!(matches!(parse_action("select_all"), ButtonAction::SelectAll));
    assert!(matches!(parse_action("hex_read"), ButtonAction::HexRead));
    assert!(matches!(parse_action("delete"), ButtonAction::Delete));
    assert!(matches!(parse_action("encrypt"), ButtonAction::Unknown));
    assert_eq!(edit_drive_action(12), "edit_drive:12");
    assert_eq!(goto_action("/"), "goto:/");
}

#[test]
fn rename_and_makedir_names_are_trimmed() {
    assert_eq!(rename_target("a.txt", "  b.txt "), Some("b.txt".to_string()));
    assert_eq!(rename_target("a.txt", " a.txt"), None);
    assert_eq!(rename_target("a.txt", "   "), None);
    assert_eq!(new_folder_name("\tnew dir \n"), Some("new dir".to_string()));
    assert_eq!(new_folder_name(" "), None);
}

#[test]
fn mount_and_run_texts() {
    assert_eq!(mount_request(" /dev/sdb1 ", "/mnt"), Some(("/dev/sdb1".to_string(), "/mnt".to_string())));
    assert_eq!(mount_request("/dev/sdb1", " "), None);
    assert_eq!(mount_failure_message("/dev/x", "/mnt", "  "), "Mount of /dev/x on /mnt failed.");
    assert_eq!(mount_failure_message("/dev/x", "/mnt", "denied\n"), "Mount of /dev/x on /mnt failed:\ndenied");
    assert_eq!(run_label("/bin/ls", "  -l "), "/bin/ls -l");
    assert_eq!(run_label("/bin/ls", ""), "/bin/ls");
    assert_eq!(delete_confirmation(3), "Delete 3 item(s), including non-empty folder(s)?");
}

#[test]
fn action_rows_parse_like_str_parse() {
    for text in ["0", "+12", "007", "18446744073709551615", "18446744073709551616", "", "+", "-1", "1 ", "٣"] {
        let expected = text.parse::<usize>().ok();
        let got = match parse_action(&format!("edit_drive:{text}")) {
            ButtonAction::EditDrive(row) => Some(row),
            _ => None,
        };
        assert_eq!(got, expected, "row text {text:?}");
    }
}

#[test]
fn hex_dump_lines_read_back_as_their_bytes() {
    let bytes: Vec<u8> = (0u8..=40).map(|b| b.wrapping_mul(7).wrapping_add(30)).collect();
    let lines = hex_dump_lines(&bytes);
    assert_eq!(lines.len(), (bytes.len() + 15) / 16);
    for (i, line) in lines.iter().enumerate() {
        let chunk = &bytes[16 * i..(16 * i + 16).min(bytes.len())];
        assert!(line.starts_with(&format!("{:08x}  ", 16 * i)));
        assert_eq!(line.chars().count(), 62 + chunk.len());
        assert_eq!(line.as_bytes()[60], b'|');
        assert!(line.ends_with('|'));
        let parsed: Vec<u8> =
            line[10..59].split_whitespace().map(|h| u8::from_str_radix(h, 16).unwrap()).collect();
        assert_eq!(parsed, chunk);
        let shown: String = chunk.iter().map(|&b| if (0x20..0x7f).contains(&b) { b as char } else { '.' }).collect();
        assert_eq!(&line[61..61 + chunk.len()], shown);
    }
}

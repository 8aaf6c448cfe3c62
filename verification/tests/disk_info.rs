use directory_octopus::disk_info::{disk_containing, disk_status_line, human_size};

#[test]
fn human_size_picks_the_right_unit_and_precision() {
    assert_eq!(human_size(0), "0B");
    assert_eq!(human_size(500), "500B");
    assert_eq!(human_size(2048), "2.0K");
    assert_eq!(human_size(1_500_000), "1.4M");
    assert_eq!(human_size(10_000_000_000), "9.3G");
}

#[test]
fn human_size_edges() {
    assert_eq!(human_size(1023), "1023B");
    assert_eq!(human_size(1024), "1.0K");
    // 1.25K lies exactly between 1.2K and 1.3K: the even digit wins.
    assert_eq!(human_size(1280), "1.2K");
    assert_eq!(human_size(1_099_511_627_776), "1.0T");
    assert_eq!(human_size(u64::MAX), "16777216.0T");
}

#[test]
fn the_most_precise_mount_point_holds_the_path() {
    let mounts = vec!["/".to_string(), "/run/media/user/stick".to_string(), "/run".to_string()];
    assert_eq!(disk_containing(&mounts, "/run/media/user/stick/photos"), Some(1));
    assert_eq!(disk_containing(&mounts, "/home/user"), Some(0));
    // Components are compared whole: /runner is not under /run.
    assert_eq!(disk_containing(&mounts, "/runner"), Some(0));
    assert_eq!(disk_containing(&mounts, "relative/path"), None);
}

#[test]
fn the_status_line_shows_total_and_free_space() {
    assert_eq!(disk_status_line(Some((10_000_000_000, 2048))), "DISK: 9.3G  FREE: 2.0K");
    assert_eq!(disk_status_line(None), "DISK: --  FREE: --");
}

/// The float formatting the sizes follow.
fn float_size(bytes: u64) -> String {
    const UNITS: [&str; 5] = ["B", "K", "M", "G", "T"];
    let mut value = bytes as f64;
    let mut unit = 0;
    while value >= 1024.0 && unit < UNITS.len() - 1 {
        value /= 1024.0;
        unit += 1;
    }
    if unit == 0 { format!("{value:.0}{}", UNITS[unit]) } else { format!("{value:.1}{}", UNITS[unit]) }
}

#[test]
fn human_size_agrees_with_float_formatting() {
    let mut x: u64 = 0x9E37_79B9_7F4A_7C15;
    let mut samples: Vec<u64> = vec![
        1023, 1024, 1025, 1280, 1331, 1075, 10239, 1048575, 1048576, (1 << 53) - 1, 1 << 53, (1 << 53) + 1,
        (1 << 54) + 2, (1 << 54) + 6, u64::MAX - 1024, u64::MAX, 1_099_511_627_775, 1_099_511_627_776,
    ];
    for shift in 0..64 {
        for _ in 0..40 {
            x ^= x << 13;
            x ^= x >> 7;
            x ^= x << 17;
            samples.push(x >> shift);
        }
    }
    for b in samples {
        assert_eq!(human_size(b), float_size(b), "bytes = {b}");
    }
}

#[test]
fn units_follow_the_size_ranges() {
    assert_eq!(human_size(1023), "1023B");
    assert!(human_size(1024).ends_with('K'));
    assert!(human_size((1 << 20) - 1).ends_with('K'));
    assert!(human_size(1 << 20).ends_with('M'));
    assert!(human_size((1 << 30) - 1).ends_with('M'));
    assert!(human_size(1 << 30).ends_with('G'));
    assert!(human_size((1 << 40) - 1).ends_with('G'));
    assert!(human_size(1 << 40).ends_with('T'));
    assert!(human_size((1 << 53) + 1).ends_with('T'));
    assert!(human_size(u64::MAX).ends_with('T'));
}

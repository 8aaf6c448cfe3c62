use directory_octopus::config::{config_dir, config_file};
use directory_octopus::file_ops::{dest_path, FileOpError};

#[test]
fn settings_live_under_the_xdg_or_home_config_directory() {
    assert_eq!(config_dir(Some("/xdg"), Some("/home/user")), "/xdg/directory-octopus");
    assert_eq!(config_dir(None, Some("/home/user")), "/home/user/.config/directory-octopus");
    assert_eq!(config_dir(None, None), "/.config/directory-octopus");
    assert_eq!(config_file("/xdg/directory-octopus"), "/xdg/directory-octopus/config.toml");
}

#[test]
fn copies_land_under_the_source_name() {
    assert_eq!(dest_path("/src/a.txt", "/dst").ok(), Some("/dst/a.txt".to_string()));
    assert_eq!(dest_path("/src/folder/", "/dst").ok(), Some("/dst/folder".to_string()));
    assert!(matches!(dest_path("/", "/dst"), Err(FileOpError::SourceWithoutName)));
    assert!(matches!(dest_path("/src/..", "/dst"), Err(FileOpError::SourceWithoutName)));
}

//! The user settings kept between two runs, and where they are stored.
use vstd::prelude::*;
use crate::paths::{join_path, path_join};

verus! {

/// A customisable shortcut of the left column, as stored on disk.
pub struct DriveSlotConfig {
    pub label: String,
    pub path: Option<String>,
}

/// The user settings kept between two runs.
pub struct AppConfig {
    pub drive_slots: Vec<DriveSlotConfig>,
}

/// The directory of the settings: `$XDG_CONFIG_HOME/directory-octopus` when
/// that variable is set, else `$HOME/.config/directory-octopus` (with `/`
/// when `HOME` is not set).
pub open spec fn config_dir_of(xdg_config_home: Option<Seq<char>>, home: Option<Seq<char>>) -> Seq<char> {
    match xdg_config_home {
        Some(xdg) => path_join(xdg, "directory-octopus"@),
        None => {
            let base = match home {
                Some(h) => h,
                None => "/"@,
            };
            path_join(path_join(base, ".config"@), "directory-octopus"@)
        },
    }
}

/// The directory of the settings, given the values of the environment
/// variables `XDG_CONFIG_HOME` and `HOME`.
pub fn config_dir(xdg_config_home: Option<&str>, home: Option<&str>) -> (dir: String)
    ensures
        dir@ == config_dir_of(
            match xdg_config_home { Some(x) => Some(x@), None => None },
            match home { Some(h) => Some(h@), None => None },
        ),
{
    match xdg_config_home {
        Some(xdg) => join_path(xdg, "directory-octopus"),
        None => {
            let base = match home {
                Some(h) => h,
                None => "/",
            };
            let config = join_path(base, ".config");
            join_path(config.as_str(), "directory-octopus")
        },
    }
}

/// The file of the settings, in the directory `dir`.
pub fn config_file(dir: &str) -> (file: String)
    ensures
        file@ == path_join(dir@, "config.toml"@),
{
    join_path(dir, "config.toml")
}

} // verus!

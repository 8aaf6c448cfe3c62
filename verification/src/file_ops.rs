//! Where copies and moves land.
use vstd::prelude::*;
use crate::paths::{file_name_of, join_path, path_file_name, path_join};

verus! {

/// Why a file operation cannot be carried out.
pub enum FileOpError {
    /// The source path has no file name (such as `/` or a path ending in `..`).
    SourceWithoutName,
}

/// The path that copying or moving `src` into the directory `dst_dir`
/// creates: `dst_dir/<name of src>`.
pub fn dest_path(src: &str, dst_dir: &str) -> (r: Result<String, FileOpError>)
    ensures
        match path_file_name(src@) {
            Some(name) => r matches Ok(d) && d@ == path_join(dst_dir@, name),
            None => r is Err,
        },
{
    match file_name_of(src) {
        Some(name) => Ok(join_path(dst_dir, name.as_str())),
        None => Err(FileOpError::SourceWithoutName),
    }
}

} // verus!

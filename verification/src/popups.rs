//! The pop-ups shown over the panels: their states, what they ask the
//! application to do, and the texts they show.
use vstd::prelude::*;
use crate::button_bar::opt_view;
use crate::edit_popup::{saved_label, saved_path};
use crate::text::{decimal, push_char, push_decimal, push_str};

pub use crate::edit_popup::DriveSlotEdit;

verus! {

/// Renaming the selected file or directory of a panel.
pub struct RenameState {
    /// Whether the entry is in the left panel.
    pub for_left: bool,
    pub old_name: String,
    pub new_name: String,
}

/// Creating a directory in a panel.
pub struct MakeDirState {
    /// Whether the directory goes in the left panel.
    pub for_left: bool,
    pub name: String,
}

/// Confirmation before deleting entries among which are non-empty directories.
pub struct ConfirmDeleteState {
    pub for_left: bool,
    pub paths: Vec<String>,
    pub message: String,
}

/// The pattern (`*` and `?`) typed for "Find".
pub struct FindState {
    pub for_left: bool,
    pub pattern: String,
}

/// The results of a "Find" that found several entries.
pub struct FindResultsState {
    pub for_left: bool,
    pub matches: Vec<String>,
    /// Whether the search stopped at its cap: there may be more on disk.
    pub truncated: bool,
}

/// Mounting a device by hand (`mount`).
#[derive(Default)]
pub struct MountState {
    pub device: String,
    pub mount_point: String,
}

/// Running the selected file, with optional arguments.
pub struct RunState {
    pub path: String,
    pub args: String,
}

/// The access rights of the selected entries: read, write, execute for the
/// owner, the group and the others.
#[derive(Clone)]
pub struct PermissionsState {
    pub paths: Vec<String>,
    pub owner: [bool; 3],
    pub group: [bool; 3],
    pub other: [bool; 3],
}

/// The pattern (a regular expression) typed for "Search", looked for in the
/// files selected when the pop-up opened.
pub struct SearchState {
    pub paths: Vec<String>,
    pub pattern: String,
}

/// A line found by "Search".
pub struct SearchResultLine {
    pub path: String,
    pub line_number: usize,
    pub line: String,
}

/// The lines found by "Search".
pub struct SearchResultsState {
    pub matches: Vec<SearchResultLine>,
    pub truncated: bool,
}

/// The full-screen viewer of a text file (or of a hex dump).
pub struct ViewFileState {
    pub path: String,
    pub lines: Vec<String>,
    /// Whether the file was cut (too many lines).
    pub truncated: bool,
    /// The line to bring into view on opening (from a "Search" result).
    pub highlight_line: Option<usize>,
    /// Whether the first scroll to `highlight_line` was done.
    pub scrolled: bool,
}

/// The pop-up shown over the rest of the window, if any (one at a time).
pub enum Modal {
    EditDriveSlot(DriveSlotEdit),
    Rename(RenameState),
    MakeDir(MakeDirState),
    Mount(MountState),
    Run(RunState),
    Permissions(PermissionsState),
    Find(FindState),
    FindResults(FindResultsState),
    Search(SearchState),
    SearchResults(SearchResultsState),
    ViewFile(ViewFileState),
    ConfirmDelete(ConfirmDeleteState),
    /// A plain error message, with an OK button.
    Error(String),
    /// A plain notice, with an OK button.
    Info(String),
}

/// What the user made of the pop-up in this frame.
pub enum ModalAction {
    NoAction,
    Close,
    SaveDriveSlot { row_idx: usize, label: String, path: Option<String> },
    ApplyRename { for_left: bool, old_name: String, new_name: String },
    CreateDir { for_left: bool, name: String },
    Mount { device: String, mount_point: String },
    RunProgram { path: String, args: String },
    ApplyPermissions(PermissionsState),
    RunFind { for_left: bool, pattern: String },
    RunSearch { paths: Vec<String>, pattern: String },
    JumpTo { for_left: bool, path: String },
    ViewFile { path: String, line: Option<usize> },
    ConfirmDelete { for_left: bool, paths: Vec<String> },
}

/// The action of the OK button of a shortcut edition.
pub fn save_drive_slot_action(edit: &DriveSlotEdit) -> (action: ModalAction)
    ensures
        match action {
            ModalAction::SaveDriveSlot { row_idx, label, path } => {
                &&& row_idx == edit.row_idx
                &&& label@ == saved_label(edit.label@)
                &&& opt_view(path) == saved_path(edit.path@)
            },
            _ => false,
        },
{
    let (label, path) = edit.saved_values();
    ModalAction::SaveDriveSlot { row_idx: edit.row_idx, label, path }
}

/// The heading of the "Find" results.
pub open spec fn find_heading(count: nat, truncated: bool) -> Seq<char> {
    if count == 0 {
        "No matches found."@
    } else if truncated {
        decimal(count) + "+ match(es) found (showing the first "@ + decimal(count)
            + ") — refine your search. Click one to jump there:"@
    } else {
        decimal(count) + " match(es) — click one to jump there:"@
    }
}

/// The heading of the "Find" results.
pub fn find_results_heading(count: usize, truncated: bool) -> (t: String)
    ensures
        t@ == find_heading(count as nat, truncated),
{
    let mut t = String::new();
    if count == 0 {
        push_str(&mut t, "No matches found.");
    } else if truncated {
        push_decimal(&mut t, count as u64);
        push_str(&mut t, "+ match(es) found (showing the first ");
        push_decimal(&mut t, count as u64);
        push_str(&mut t, ") — refine your search. Click one to jump there:");
    } else {
        push_decimal(&mut t, count as u64);
        push_str(&mut t, " match(es) — click one to jump there:");
    }
    assert(t@ =~= find_heading(count as nat, truncated));
    t
}

/// The heading of the "Search" results.
pub open spec fn search_heading(count: nat, truncated: bool) -> Seq<char> {
    if count == 0 {
        "No matches found."@
    } else if truncated {
        decimal(count) + "+ line(s) found (showing the first "@ + decimal(count)
            + ") — refine your search. Click one to view its file:"@
    } else {
        decimal(count) + " line(s) — click one to view its file:"@
    }
}

/// The prompt of the "Search" pop-up, for `count` selected files.
pub fn search_prompt(count: usize) -> (t: String)
    ensures
        t@ == "Search in "@ + decimal(count as nat) + " selected file(s) (regex)"@,
{
    let mut t = String::new();
    push_str(&mut t, "Search in ");
    push_decimal(&mut t, count as u64);
    push_str(&mut t, " selected file(s) (regex)");
    t
}

/// The heading of the "Search" results.
pub fn search_results_heading(count: usize, truncated: bool) -> (t: String)
    ensures
        t@ == search_heading(count as nat, truncated),
{
    let mut t = String::new();
    if count == 0 {
        push_str(&mut t, "No matches found.");
    } else if truncated {
        push_decimal(&mut t, count as u64);
        push_str(&mut t, "+ line(s) found (showing the first ");
        push_decimal(&mut t, count as u64);
        push_str(&mut t, ") — refine your search. Click one to view its file:");
    } else {
        push_decimal(&mut t, count as u64);
        push_str(&mut t, " line(s) — click one to view its file:");
    }
    assert(t@ =~= search_heading(count as nat, truncated));
    t
}

/// The row of a "Search" result: `path:line: text`.
pub fn search_result_row(hit: &SearchResultLine) -> (t: String)
    ensures
        t@ == hit.path@ + seq![':'] + decimal(hit.line_number as nat) + seq![':', ' '] + hit.line@,
{
    let mut t = String::new();
    push_str(&mut t, hit.path.as_str());
    push_char(&mut t, ':');
    push_decimal(&mut t, hit.line_number as u64);
    push_char(&mut t, ':');
    push_char(&mut t, ' ');
    push_str(&mut t, hit.line.as_str());
    assert(t@ =~= hit.path@ + seq![':'] + decimal(hit.line_number as nat) + seq![':', ' '] + hit.line@);
    t
}

/// What the permissions pop-up names: the path of the only entry, or how
/// many entries are concerned.
pub open spec fn permissions_title(paths: Seq<String>) -> Seq<char> {
    if paths.len() == 1 {
        paths[0]@
    } else {
        decimal(paths.len()) + " items selected"@
    }
}

/// What the permissions pop-up names.
pub fn permissions_label(paths: &Vec<String>) -> (t: String)
    ensures
        t@ == permissions_title(paths@),
{
    if paths.len() == 1 {
        paths[0].clone()
    } else {
        let mut t = String::new();
        push_decimal(&mut t, paths.len() as u64);
        push_str(&mut t, " items selected");
        t
    }
}

/// The width of the line numbers of a viewer showing `count` lines: the
/// number of digits of the largest, at least one.
pub fn line_number_width(count: usize) -> (w: usize)
    ensures
        w == decimal(if count == 0 { 1nat } else { count as nat }).len(),
{
    let n: u64 = if count == 0 { 1 } else { count as u64 };
    let digits = crate::text::decimal_string(n);
    crate::text::chars_of(digits.as_str()).len()
}

/// A line of the viewer: its number right-aligned on `width` columns, a
/// bar, then the text.
pub open spec fn numbered_line(line_no: nat, width: nat, line: Seq<char>) -> Seq<char> {
    let digits = decimal(line_no);
    let pad = if digits.len() < width { (width - digits.len()) as nat } else { 0 };
    Seq::new(pad, |k: int| ' ') + digits + seq![' ', '|', ' '] + line
}

/// A line of the viewer.
pub fn viewer_line(line_no: usize, width: usize, line: &str) -> (t: String)
    ensures
        t@ == numbered_line(line_no as nat, width as nat, line@),
{
    let digits = crate::text::decimal_string(line_no as u64);
    let len = crate::text::chars_of(digits.as_str()).len();
    let mut t = String::new();
    let mut k: usize = len;
    while k < width
        invariant
            len <= k <= width || (len > width && k == len),
            t@ == Seq::new((k - len) as nat, |j: int| ' '),
        decreases width - k,
    {
        push_char(&mut t, ' ');
        assert(t@ =~= Seq::new((k + 1 - len) as nat, |j: int| ' '));
        k = k + 1;
    }
    push_str(&mut t, digits.as_str());
    push_char(&mut t, ' ');
    push_char(&mut t, '|');
    push_char(&mut t, ' ');
    push_str(&mut t, line);
    assert(t@ =~= numbered_line(line_no as nat, width as nat, line@));
    t
}

} // verus!

//! What a button of the grid asks of the application, decided from what the
//! disk says of the entries selected in the active panel; and what the
//! answers of the outside world ("Find", a program run) lead to.
use vstd::prelude::*;
use crate::app::{
    ButtonAction, MAX_VIEW_LINES, delete_confirmation, is_archive_file, is_archive_path, lines_from_content,
    text_lines,
};
use crate::popups::{
    ConfirmDeleteState, FindResultsState, FindState, MakeDirState, Modal, MountState, RunState, SearchState,
    ViewFileState,
};
use crate::button_bar::{DriveSlot, opt_view};
use crate::edit_popup::DriveSlotEdit;
use crate::panel::{PanelState, selected_path_texts};
use crate::paths::{parent_of, path_file_name, path_parent, path_same, same_path, file_name_of};
use crate::popups::RenameState;
use crate::search::FindOutcome;
use crate::text::{decimal, push_char, push_str, trim, trimmed, without_trailing};

verus! {

/// A selected entry of the active panel, with what the disk says of it.
pub struct SelectedEntry {
    pub path: String,
    /// Whether it is a regular file.
    pub is_file: bool,
    /// Whether it is a directory holding at least one entry.
    pub is_non_empty_dir: bool,
}

/// What the application does for a button.
pub enum Command {
    /// Nothing.
    Idle,
    /// Show this directory in the left (or right) panel.
    Navigate { for_left: bool, path: String },
    /// Select every entry of the left (or right) panel.
    SelectAll { for_left: bool },
    /// Clear the selection of the left (or right) panel.
    SelectNone { for_left: bool },
    /// Show, in the left (or right) panel, the root of the storage device
    /// holding its directory.
    ToDeviceRoot { for_left: bool },
    /// Copy (or move) these entries of the left (or right) panel into
    /// `dest_dir`, the directory of the other panel; then read the other
    /// panel again, and after a move this one too.
    Transfer { is_move: bool, for_left: bool, paths: Vec<String>, dest_dir: String },
    /// Open this pop-up.
    Open(Modal),
    /// Show this file in the viewer, as text.
    ViewText(String),
    /// Show this file in the viewer, as a hex dump.
    ViewHex(String),
    /// Read the access rights of the first of these entries, then open the
    /// permissions pop-up on all of them.
    ReadPermissions(Vec<String>),
    /// Open this file with the system's program for it, if it reads as text.
    EditText(String),
    /// Open this archive with the system's program for it.
    OpenArchive(String),
    /// Compress this executable in place (`upx --best`).
    Compress(String),
    /// Give these entries the current time as their access and modification times.
    Stamp(Vec<String>),
    /// Delete these entries of the left (or right) panel, then read it again.
    Delete { for_left: bool, paths: Vec<String> },
}

/// The views of a list of texts.
pub open spec fn texts(v: Seq<String>) -> Seq<Seq<char>> {
    v.map_values(|s: String| s@)
}

/// The paths of the selected entries.
pub open spec fn paths_of(sel: Seq<SelectedEntry>) -> Seq<Seq<char>> {
    sel.map_values(|e: SelectedEntry| e.path@)
}

/// The paths of the selected entries that are files, in order.
pub open spec fn file_paths(sel: Seq<SelectedEntry>) -> Seq<Seq<char>>
    decreases sel.len(),
{
    if sel.len() == 0 {
        Seq::empty()
    } else {
        let before = file_paths(sel.drop_last());
        if sel.last().is_file {
            before.push(sel.last().path@)
        } else {
            before
        }
    }
}

/// The position of the first file among the selected entries from `k` on.
pub open spec fn first_file_from(sel: Seq<SelectedEntry>, k: int) -> Option<int>
    decreases sel.len() - k,
{
    if k < 0 || k >= sel.len() {
        None
    } else if sel[k].is_file {
        Some(k)
    } else {
        first_file_from(sel, k + 1)
    }
}

/// The position of the first file among the selected entries.
pub open spec fn first_file(sel: Seq<SelectedEntry>) -> Option<int> {
    first_file_from(sel, 0)
}

/// Whether some selected entry is a non-empty directory.
pub open spec fn has_non_empty_dir(sel: Seq<SelectedEntry>) -> bool {
    exists|i: int| 0 <= i < sel.len() && #[trigger] sel[i].is_non_empty_dir
}

/// The position of the first file among the selected entries.
fn first_file_index(sel: &Vec<SelectedEntry>) -> (r: Option<usize>)
    ensures
        match r {
            Some(i) => first_file(sel@) == Some(i as int) && i < sel@.len() && sel@[i as int].is_file,
            None => first_file(sel@) is None,
        },
{
    let n = sel.len();
    for i in 0..n
        invariant
            n == sel@.len(),
            first_file_from(sel@, 0) == first_file_from(sel@, i as int),
    {
        if sel[i].is_file {
            return Some(i);
        }
    }
    None
}

/// The paths of all the selected entries.
fn all_paths(sel: &Vec<SelectedEntry>) -> (r: Vec<String>)
    ensures
        texts(r@) == paths_of(sel@),
{
    let mut r: Vec<String> = Vec::new();
    let n = sel.len();
    for i in 0..n
        invariant
            n == sel@.len(),
            r@.len() == i,
            forall|k: int| 0 <= k < i ==> #[trigger] r@[k]@ == sel@[k].path@,
    {
        r.push(sel[i].path.clone());
    }
    assert(texts(r@) =~= paths_of(sel@));
    r
}

/// The paths of the selected entries that are files.
fn all_file_paths(sel: &Vec<SelectedEntry>) -> (r: Vec<String>)
    ensures
        texts(r@) == file_paths(sel@),
{
    let mut r: Vec<String> = Vec::new();
    let n = sel.len();
    for i in 0..n
        invariant
            n == sel@.len(),
            texts(r@) == file_paths(sel@.take(i as int)),
    {
        proof {
            assert(sel@.take(i as int + 1).drop_last() =~= sel@.take(i as int));
        }
        if sel[i].is_file {
            r.push(sel[i].path.clone());
            assert(texts(r@) =~= file_paths(sel@.take(i as int + 1)));
        }
    }
    assert(sel@.take(n as int) =~= sel@);
    r
}

/// Whether some selected entry is a non-empty directory.
fn any_non_empty_dir(sel: &Vec<SelectedEntry>) -> (r: bool)
    ensures
        r == has_non_empty_dir(sel@),
{
    let n = sel.len();
    for i in 0..n
        invariant
            n == sel@.len(),
            forall|k: int| 0 <= k < i ==> !#[trigger] sel@[k].is_non_empty_dir,
    {
        if sel[i].is_non_empty_dir {
            return true;
        }
    }
    false
}

/// An error pop-up with `text`.
fn error_popup(text: &str) -> (m: Modal)
    ensures
        m matches Modal::Error(t) && t@ == text@,
{
    Modal::Error(text.to_owned())
}

/// The shortcut edition that the right click on row `row` opens, for the
/// shortcut `slot`.
pub open spec fn edits_slot(e: DriveSlotEdit, row: usize, slot: DriveSlot) -> bool {
    &&& e.row_idx == row
    &&& e.label@ == without_trailing(slot.label@, ':')
    &&& e.path@ == match slot.path {
        Some(p) => p@,
        None => Seq::<char>::empty(),
    }
}

/// What the button `action` does. The active panel is `active`, the left
/// one when `for_left`; `other_dir` is the directory of the other panel;
/// `slots` are the shortcuts of the button grid; `sel` are the selected
/// entries of the active panel in listing order, with what the disk says of
/// them.
pub fn command_for(
    action: &ButtonAction,
    for_left: bool,
    active: &PanelState,
    other_dir: &str,
    slots: &Vec<DriveSlot>,
    sel: &Vec<SelectedEntry>,
) -> (c: Command)
    ensures
        *action matches ButtonAction::Goto(target) ==> (c matches Command::Navigate { for_left: f, path: p }
            && f == for_left && p@ == target@),
        *action matches ButtonAction::EditDrive(row) ==> if row < slots@.len() {
            c matches Command::Open(Modal::EditDriveSlot(e)) && edits_slot(e, row, slots@[row as int])
        } else {
            c is Idle
        },
        *action is SelectAll ==> (c matches Command::SelectAll { for_left: f } && f == for_left),
        *action is SelectNone ==> (c matches Command::SelectNone { for_left: f } && f == for_left),
        *action is Parent ==> match path_parent(active.path@) {
            Some(d) => c matches Command::Navigate { for_left: f, path: p } && f == for_left && p@ == d,
            None => c is Idle,
        },
        *action is Root ==> (c matches Command::ToDeviceRoot { for_left: f } && f == for_left),
        (*action is Copy || *action is Move) && path_same(active.path@, other_dir@) ==> c is Idle,
        (*action is Copy || *action is Move) && !path_same(active.path@, other_dir@) ==> (c matches Command::Transfer {
            is_move: m,
            for_left: f,
            paths: ps,
            dest_dir: d,
        } && m == (*action is Move) && f == for_left && texts(ps@) == selected_path_texts(*active)
            && d@ == other_dir@),
        *action is Rename && active.selected@.len() != 1 ==> c is Idle,
        *action is Rename && active.selected@.len() == 1 ==> match c {
            Command::Open(Modal::Rename(s)) => s.for_left == for_left && s.new_name@ == s.old_name@
                && exists|i: int| 0 <= i < active.entries@.len() && active.selected@.contains(i as usize)
                && s.old_name@ == active.entries@[i].name@,
            Command::Idle => forall|i: usize| (i as int) < active.entries@.len()
                ==> !#[trigger] active.selected@.contains(i),
            _ => false,
        },
        *action is Rename && active.selected@.len() == 1 && active.selected@.finite() ==> (c matches Command::Open(
            Modal::Rename(s),
        ) ==> exists|i: int| 0 <= i < active.entries@.len() && active.selected@ == set![i as usize]
            && s.old_name@ == active.entries@[i].name@),
        *action is MakeDir ==> (c matches Command::Open(Modal::MakeDir(s)) && s.for_left == for_left
            && s.name@.len() == 0),
        *action is Mount ==> (c matches Command::Open(Modal::Mount(s)) && s.device@.len() == 0
            && s.mount_point@.len() == 0),
        *action is Find ==> (c matches Command::Open(Modal::Find(s)) && s.for_left == for_left
            && s.pattern@.len() == 0),
        *action is Search && file_paths(sel@).len() == 0 ==> (c matches Command::Open(Modal::Error(t))
            && t@ == "Select at least one file to search in."@),
        *action is Search && file_paths(sel@).len() > 0 ==> (c matches Command::Open(Modal::Search(s))
            && texts(s.paths@) == file_paths(sel@) && s.pattern@.len() == 0),
        *action is Run ==> match first_file(sel@) {
            Some(i) => c matches Command::Open(Modal::Run(s)) && s.path@ == sel@[i].path@ && s.args@.len() == 0,
            None => c matches Command::Open(Modal::Error(t)) && t@ == "Select a file to run."@,
        },
        *action is Read ==> match first_file(sel@) {
            Some(i) => c matches Command::ViewText(p) && p@ == sel@[i].path@,
            None => c matches Command::Open(Modal::Error(t)) && t@ == "Select a text file to view."@,
        },
        *action is HexRead ==> match first_file(sel@) {
            Some(i) => c matches Command::ViewHex(p) && p@ == sel@[i].path@,
            None => c matches Command::Open(Modal::Error(t)) && t@ == "Select a file to view in hex."@,
        },
        *action is Edit ==> match first_file(sel@) {
            Some(i) => c matches Command::EditText(p) && p@ == sel@[i].path@,
            None => c is Idle,
        },
        *action is Upx ==> match first_file(sel@) {
            Some(i) => c matches Command::Compress(p) && p@ == sel@[i].path@,
            None => c is Idle,
        },
        *action is Extract ==> match first_file(sel@) {
            Some(i) => if is_archive_path(sel@[i].path@) {
                c matches Command::OpenArchive(p) && p@ == sel@[i].path@
            } else {
                c is Idle
            },
            None => c is Idle,
        },
        *action is Datestamp ==> (c matches Command::Stamp(ps) && texts(ps@) == paths_of(sel@)),
        *action is Permissions && sel@.len() == 0 ==> (c matches Command::Open(Modal::Error(t))
            && t@ == "Select at least one file or folder."@),
        *action is Permissions && sel@.len() > 0 ==> (c matches Command::ReadPermissions(ps)
            && texts(ps@) == paths_of(sel@)),
        *action is Delete && sel@.len() == 0 ==> c is Idle,
        *action is Delete && sel@.len() > 0 && has_non_empty_dir(sel@) ==> (c matches Command::Open(
            Modal::ConfirmDelete(s),
        ) && s.for_left == for_left && texts(s.paths@) == paths_of(sel@) && s.message@ == "Delete "@
            + decimal(sel@.len()) + " item(s), including non-empty folder(s)?"@),
        *action is Delete && sel@.len() > 0 && !has_non_empty_dir(sel@) ==> (c matches Command::Delete {
            for_left: f,
            paths: ps,
        } && f == for_left && texts(ps@) == paths_of(sel@)),
        *action is Unknown ==> c is Idle,
{
    match action {
        ButtonAction::Goto(target) => Command::Navigate { for_left, path: target.clone() },
        ButtonAction::EditDrive(row) => {
            if *row < slots.len() {
                let slot = &slots[*row];
                let path = match &slot.path {
                    Some(p) => Some(p.as_str()),
                    None => None,
                };
                Command::Open(Modal::EditDriveSlot(DriveSlotEdit::new(*row, slot.label.as_str(), path)))
            } else {
                Command::Idle
            }
        },
        ButtonAction::SelectAll => Command::SelectAll { for_left },
        ButtonAction::SelectNone => Command::SelectNone { for_left },
        ButtonAction::Parent => match parent_of(active.path.as_str()) {
            Some(dir) => Command::Navigate { for_left, path: dir },
            None => Command::Idle,
        },
        ButtonAction::Root => Command::ToDeviceRoot { for_left },
        ButtonAction::Copy | ButtonAction::Move => {
            if same_path(active.path.as_str(), other_dir) {
                Command::Idle
            } else {
                let is_move = match action {
                    ButtonAction::Move => true,
                    _ => false,
                };
                let paths = active.selected_paths();
                assert(texts(paths@) =~= paths@.map_values(|s: String| s@));
                Command::Transfer { is_move, for_left, paths, dest_dir: other_dir.to_owned() }
            }
        },
        ButtonAction::Rename => match active.single_selected_entry() {
            Some(entry) => Command::Open(
                Modal::Rename(RenameState { for_left, old_name: entry.name.clone(), new_name: entry.name.clone() }),
            ),
            None => Command::Idle,
        },
        ButtonAction::MakeDir => Command::Open(Modal::MakeDir(MakeDirState { for_left, name: String::new() })),
        ButtonAction::Mount => Command::Open(
            Modal::Mount(MountState { device: String::new(), mount_point: String::new() }),
        ),
        ButtonAction::Find => Command::Open(Modal::Find(FindState { for_left, pattern: String::new() })),
        ButtonAction::Search => {
            let paths = all_file_paths(sel);
            if paths.len() == 0 {
                Command::Open(error_popup("Select at least one file to search in."))
            } else {
                Command::Open(Modal::Search(SearchState { paths, pattern: String::new() }))
            }
        },
        ButtonAction::Run => match first_file_index(sel) {
            Some(i) => Command::Open(Modal::Run(RunState { path: sel[i].path.clone(), args: String::new() })),
            None => Command::Open(error_popup("Select a file to run.")),
        },
        ButtonAction::Read => match first_file_index(sel) {
            Some(i) => Command::ViewText(sel[i].path.clone()),
            None => Command::Open(error_popup("Select a text file to view.")),
        },
        ButtonAction::HexRead => match first_file_index(sel) {
            Some(i) => Command::ViewHex(sel[i].path.clone()),
            None => Command::Open(error_popup("Select a file to view in hex.")),
        },
        ButtonAction::Edit => match first_file_index(sel) {
            Some(i) => Command::EditText(sel[i].path.clone()),
            None => Command::Idle,
        },
        ButtonAction::Upx => match first_file_index(sel) {
            Some(i) => Command::Compress(sel[i].path.clone()),
            None => Command::Idle,
        },
        ButtonAction::Extract => match first_file_index(sel) {
            Some(i) => if is_archive_file(sel[i].path.as_str()) {
                Command::OpenArchive(sel[i].path.clone())
            } else {
                Command::Idle
            },
            None => Command::Idle,
        },
        ButtonAction::Datestamp => Command::Stamp(all_paths(sel)),
        ButtonAction::Permissions => if sel.len() == 0 {
            Command::Open(error_popup("Select at least one file or folder."))
        } else {
            Command::ReadPermissions(all_paths(sel))
        },
        ButtonAction::Delete => if sel.len() == 0 {
            Command::Idle
        } else if any_non_empty_dir(sel) {
            let message = delete_confirmation(sel.len());
            Command::Open(Modal::ConfirmDelete(ConfirmDeleteState { for_left, paths: all_paths(sel), message }))
        } else {
            Command::Delete { for_left, paths: all_paths(sel) }
        },
        ButtonAction::Unknown => Command::Idle,
    }
}

/// Where "Find" sends a panel to show the entry `path`: the directory
/// holding it, and its name to select there (when it has one).
pub fn jump_target(path: &str) -> (r: Option<(String, Option<String>)>)
    ensures
        match path_parent(path@) {
            Some(dir) => r matches Some(t) && t.0@ == dir && opt_view(t.1) == path_file_name(path@),
            None => r is None,
        },
{
    match parent_of(path) {
        Some(dir) => Some((dir, file_name_of(path))),
        None => None,
    }
}

/// The pattern typed for "Find" or "Search", trimmed; `None` when it is
/// blank, and the pop-up then just closes.
pub fn typed_pattern(pattern: &str) -> (r: Option<String>)
    ensures
        match r {
            Some(p) => trimmed(pattern@).len() > 0 && p@ == trimmed(pattern@),
            None => trimmed(pattern@).len() == 0,
        },
{
    let p = trim(pattern);
    if p.as_str().is_empty() {
        None
    } else {
        Some(p)
    }
}

/// Where a "Find" leads.
pub enum FindStep {
    /// Show the panel's directory of this entry, with the entry selected.
    JumpTo(String),
    /// List what was found.
    Show(FindResultsState),
}

/// Where a "Find" from the left (or right) panel leads: a single entry,
/// found without reaching the cap, is jumped to; otherwise what was found is
/// listed.
pub fn find_step(for_left: bool, outcome: FindOutcome) -> (s: FindStep)
    ensures
        outcome.matches@.len() == 1 && !outcome.truncated ==> (s matches FindStep::JumpTo(p)
            && p@ == outcome.matches@[0]@),
        !(outcome.matches@.len() == 1 && !outcome.truncated) ==> (s matches FindStep::Show(r)
            && r.for_left == for_left && r.matches@ == outcome.matches@ && r.truncated == outcome.truncated),
{
    let FindOutcome { mut matches, truncated } = outcome;
    if matches.len() == 1 && !truncated {
        let only = matches.pop();
        match only {
            Some(p) => FindStep::JumpTo(p),
            None => FindStep::Show(FindResultsState { for_left, matches: Vec::new(), truncated }),
        }
    } else {
        FindStep::Show(FindResultsState { for_left, matches, truncated })
    }
}

/// The lines the viewer shows of `content`: its first `MAX_VIEW_LINES` lines.
pub open spec fn viewer_lines(content: Seq<char>) -> Seq<Seq<char>> {
    if text_lines(content).len() > MAX_VIEW_LINES {
        text_lines(content).take(MAX_VIEW_LINES as int)
    } else {
        text_lines(content)
    }
}

/// The message of a run that failed and wrote nothing on its output.
pub open spec fn run_failure_text(label: Seq<char>, stderr: Seq<char>) -> Seq<char> {
    if trimmed(stderr).len() == 0 {
        label + " exited with an error."@
    } else {
        label + " failed:\n"@ + trimmed(stderr)
    }
}

/// What a finished run of a program, named `label` in messages, leads to:
/// its output in the viewer when it wrote some, else an error when it
/// failed, else nothing.
pub fn run_outcome(label: &str, stdout: &str, stderr: &str, success: bool) -> (m: Option<Modal>)
    ensures
        trimmed(stdout@).len() > 0 ==> (m matches Some(Modal::ViewFile(v))
            && v.path@ == label@ + " (output)"@
            && texts(v.lines@) == viewer_lines(stdout@)
            && v.truncated == (text_lines(stdout@).len() > MAX_VIEW_LINES)
            && v.highlight_line is None && !v.scrolled),
        trimmed(stdout@).len() == 0 && !success ==> (m matches Some(Modal::Error(t))
            && t@ == run_failure_text(label@, stderr@)),
        trimmed(stdout@).len() == 0 && success ==> m is None,
{
    let out = trim(stdout);
    if !out.as_str().is_empty() {
        let (lines, truncated) = lines_from_content(stdout);
        assert(texts(lines@) =~= viewer_lines(stdout@));
        let mut path = label.to_owned();
        push_str(&mut path, " (output)");
        Some(Modal::ViewFile(ViewFileState { path, lines, truncated, highlight_line: None, scrolled: false }))
    } else if !success {
        let err = trim(stderr);
        let mut t = label.to_owned();
        if err.as_str().is_empty() {
            push_str(&mut t, " exited with an error.");
        } else {
            push_str(&mut t, " failed:\n");
            push_str(&mut t, err.as_str());
        }
        Some(Modal::Error(t))
    } else {
        None
    }
}

/// The message of a failed `upx --best` on `path`, with its trimmed error output.
pub fn upx_failure_message(path: &str, stderr: &str) -> (t: String)
    ensures
        t@ == "upx --best "@ + path@ + " failed:\n"@ + trimmed(stderr@),
{
    let err = trim(stderr);
    let mut t = String::new();
    push_str(&mut t, "upx --best ");
    push_str(&mut t, path);
    push_str(&mut t, " failed:\n");
    push_str(&mut t, err.as_str());
    t
}

/// `lines` joined, one per line.
pub open spec fn joined_lines(lines: Seq<Seq<char>>) -> Seq<char>
    decreases lines.len(),
{
    if lines.len() == 0 {
        Seq::empty()
    } else if lines.len() == 1 {
        lines[0]
    } else {
        joined_lines(lines.drop_last()) + seq!['\n'] + lines.last()
    }
}

/// The error shown after changing access rights, from the errors met (one
/// per entry that failed); `None` when all went well.
pub fn permissions_failure(errors: &Vec<String>) -> (r: Option<String>)
    ensures
        errors@.len() == 0 ==> r is None,
        errors@.len() > 0 ==> (r matches Some(t)
            && t@ == "Could not change permissions:\n"@ + joined_lines(texts(errors@))),
{
    if errors.len() == 0 {
        return None;
    }
    let mut body = String::new();
    let n = errors.len();
    for i in 0..n
        invariant
            n == errors@.len(),
            body@ == joined_lines(texts(errors@.take(i as int))),
    {
        proof {
            assert(texts(errors@.take(i as int + 1)).drop_last() =~= texts(errors@.take(i as int)));
        }
        if i > 0 {
            push_char(&mut body, '\n');
        }
        push_str(&mut body, errors[i].as_str());
    }
    assert(errors@.take(n as int) =~= errors@);
    let mut t = String::new();
    push_str(&mut t, "Could not change permissions:\n");
    push_str(&mut t, body.as_str());
    Some(t)
}

} // verus!

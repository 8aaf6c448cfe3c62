//! Editing a shortcut of the left column: what the fields start with and
//! what a confirmation saves.
use vstd::prelude::*;
use crate::button_bar::opt_view;
use crate::text::{trim, trimmed, trim_end_char, without_trailing, push_char};

verus! {

/// The edition of a shortcut of the left column (HOME:, ROOT:, ...), opened
/// by a right click on it.
pub struct DriveSlotEdit {
    pub row_idx: usize,
    pub label: String,
    pub path: String,
}

/// The label a confirmed edition saves: the trimmed name followed by `:`,
/// or `UNNAMED` when nothing is left.
pub open spec fn saved_label(label: Seq<char>) -> Seq<char> {
    if trimmed(label).len() == 0 {
        "UNNAMED"@
    } else {
        trimmed(label).push(':')
    }
}

/// The directory a confirmed edition saves: the trimmed text, or none.
pub open spec fn saved_path(path: Seq<char>) -> Option<Seq<char>> {
    if trimmed(path).len() == 0 {
        None
    } else {
        Some(trimmed(path))
    }
}

/// What the user made of the pop-up in this frame.
pub enum EditPopupAction {
    NoAction,
    Save { row_idx: usize, label: String, path: Option<String> },
    Cancel,
}

/// Opening the editor on a shortcut labelled `name:` that leads to `path`
/// and confirming it unchanged saves the same label and directory, when the
/// name and the path have no surrounding white space and the name does not
/// itself end in `:`; a shortcut without directory stays without one.
pub proof fn law_unchanged_edit_keeps_shortcut(name: Seq<char>, path: Seq<char>)
    requires
        name.len() > 0,
        name.last() != ':',
        trimmed(name) == name,
        trimmed(path) == path,
    ensures
        saved_label(without_trailing(name.push(':'), ':')) == name.push(':'),
        saved_path(path) == if path.len() == 0 { None } else { Some(path) },
{
    assert(name.push(':').drop_last() =~= name);
    assert(without_trailing(name.push(':'), ':') == without_trailing(name, ':'));
    assert(without_trailing(name, ':') == name);
    assert(trimmed(name).len() > 0);
}

impl DriveSlotEdit {
    /// The edition of the shortcut at `row_idx`: its label without the
    /// trailing colons, and its directory (empty when it has none).
    pub fn new(row_idx: usize, label: &str, path: Option<&str>) -> (edit: Self)
        ensures
            edit.row_idx == row_idx,
            edit.label@ == without_trailing(label@, ':'),
            edit.path@ == match path {
                Some(p) => p@,
                None => Seq::<char>::empty(),
            },
    {
        DriveSlotEdit {
            row_idx,
            label: trim_end_char(label, ':'),
            path: match path {
                Some(p) => p.to_owned(),
                None => String::new(),
            },
        }
    }

    /// The label and directory that confirming the edition saves.
    pub fn saved_values(&self) -> (r: (String, Option<String>))
        ensures
            r.0@ == saved_label(self.label@),
            opt_view(r.1) == saved_path(self.path@),
    {
        let name = trim(self.label.as_str());
        let label = if name.as_str().is_empty() {
            "UNNAMED".to_owned()
        } else {
            let mut l = name;
            push_char(&mut l, ':');
            l
        };
        let dir = trim(self.path.as_str());
        let path = if dir.as_str().is_empty() { None } else { Some(dir) };
        (label, path)
    }

    /// The action of the OK button: save the edited values for this row.
    pub fn save_action(&self) -> (action: EditPopupAction)
        ensures
            match action {
                EditPopupAction::Save { row_idx, label, path } => {
                    &&& row_idx == self.row_idx
                    &&& label@ == saved_label(self.label@)
                    &&& opt_view(path) == saved_path(self.path@)
                },
                _ => false,
            },
    {
        let (label, path) = self.saved_values();
        EditPopupAction::Save { row_idx: self.row_idx, label, path }
    }
}

} // verus!

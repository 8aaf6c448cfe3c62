//! The left column of shortcuts and the bottom grid of buttons.
use vstd::prelude::*;
use crate::config::{AppConfig, DriveSlotConfig};
use crate::text::{decimal, push_decimal, push_str};
use crate::theme::ButtonStyle;
use crate::theme::ButtonStyle::{Black, Blue, Grey, Orange, Purple, Red};

verus! {

/// The view of an optional text.
pub open spec fn opt_view(o: Option<String>) -> Option<Seq<char>> {
    match o {
        Some(s) => Some(s@),
        None => None,
    }
}

/// A fixed shortcut of the left column (HOME:, ROOT:, ...), leading to its
/// directory when clicked.
pub struct DriveSlot {
    pub label: String,
    pub path: Option<String>,
}

impl View for DriveSlot {
    type V = (Seq<char>, Option<Seq<char>>);

    open spec fn view(&self) -> Self::V {
        (self.label@, opt_view(self.path))
    }
}

impl DriveSlot {
    /// A shortcut to `path`.
    pub fn new(label: &str, path: &str) -> (slot: Self)
        ensures
            slot@ == (label@, Some(path@)),
    {
        DriveSlot { label: label.to_owned(), path: Some(path.to_owned()) }
    }

    /// A shortcut not tied to a path yet.
    pub fn placeholder(label: &str) -> (slot: Self)
        ensures
            slot@ == (label@, None::<Seq<char>>),
    {
        DriveSlot { label: label.to_owned(), path: None }
    }
}

/// A button of the bottom grid; `action` names what a click on it does.
pub struct ButtonSlot {
    pub label: String,
    pub style: ButtonStyle,
    pub action: Option<String>,
}

impl View for ButtonSlot {
    type V = (Seq<char>, ButtonStyle, Option<Seq<char>>);

    open spec fn view(&self) -> Self::V {
        (self.label@, self.style, opt_view(self.action))
    }
}

impl ButtonSlot {
    /// A button labelled `label`, in `style`, that triggers `action`.
    pub fn new(label: &str, style: ButtonStyle, action: &str) -> (slot: Self)
        ensures
            slot@ == (label@, style, Some(action@)),
    {
        ButtonSlot { label: label.to_owned(), style, action: Some(action.to_owned()) }
    }
}

/// The action of a click on a shortcut leading to `path`.
pub fn goto_action(path: &str) -> (a: String)
    ensures
        a@ == "goto:"@ + path@,
{
    let mut a = String::new();
    push_str(&mut a, "goto:");
    push_str(&mut a, path);
    a
}

/// The action of a right click on the shortcut of row `row_idx`.
pub fn edit_drive_action(row_idx: usize) -> (a: String)
    ensures
        a@ == "edit_drive:"@ + decimal(row_idx as nat),
{
    let mut a = String::new();
    push_str(&mut a, "edit_drive:");
    push_decimal(&mut a, row_idx as u64);
    a
}

/// The view of a cell of the grid.
pub open spec fn cell_view(cell: Option<ButtonSlot>) -> Option<(Seq<char>, ButtonStyle, Option<Seq<char>>)> {
    match cell {
        Some(b) => Some(b@),
        None => None,
    }
}

/// The left column of shortcuts and the grid of buttons: `rows` rows, each a
/// list of cells, an empty cell being an inactive grey one.
pub struct ButtonBarConfig {
    pub drive_slots: Vec<DriveSlot>,
    pub rows: Vec<Vec<Option<ButtonSlot>>>,
}

/// The shortcuts of the default layout, for the home directory `home`.
pub open spec fn default_drive_slots(home: Seq<char>) -> Seq<(Seq<char>, Option<Seq<char>>)> {
    seq![
        ("HOME:"@, Some(home)),
        ("ROOT:"@, Some("/"@)),
        ("MEDIA:"@, Some("/run/media"@)),
        ("TRASH:"@, Some(home + "/.local/share/Trash/files"@)),
        ("DEVICES:"@, Some("/dev"@)),
        ("BOOKMARKS:"@, None),
    ]
}

/// A button of the default layout.
pub open spec fn button(label: Seq<char>, style: ButtonStyle, action: Seq<char>) -> Option<
    (Seq<char>, ButtonStyle, Option<Seq<char>>),
> {
    Some((label, style, Some(action)))
}

/// The cell at row `r`, column `c` of the default grid (six rows of seven);
/// the Mount button exists only where `mount` is available.
pub open spec fn default_cell(r: int, c: int, with_mount: bool) -> Option<(Seq<char>, ButtonStyle, Option<Seq<char>>)> {
    if r == 0 {
        if c == 0 { button("All"@, Blue, "select_all"@) }
        else if c == 1 { button("Copy"@, Purple, "copy"@) }
        else if c == 2 { button("Makedir"@, Orange, "makedir"@) }
        else if c == 3 { button("Find"@, Black, "find"@) }
        else if c == 4 { button("Run"@, Orange, "run"@) }
        else if c == 5 { button("Datestamp"@, Grey, "datestamp"@) }
        else { button("Read"@, Red, "read"@) }
    } else if r == 1 {
        if c == 0 { button("None"@, Blue, "select_none"@) }
        else if c == 1 { button("Move"@, Purple, "move"@) }
        else if c == 2 { if with_mount { button("Mount"@, Orange, "mount"@) } else { None } }
        else if c == 3 { button("Search"@, Black, "search"@) }
        else if c == 4 { None }
        else if c == 5 { button("Permissions"@, Grey, "permissions"@) }
        else { button("Hex Read"@, Red, "hex_read"@) }
    } else if r == 2 {
        if c == 0 { button("Parent"@, Blue, "parent"@) }
        else if c == 1 { button("Rename"@, Purple, "rename"@) }
        else if c == 5 { button("Extract"@, Grey, "extract"@) }
        else if c == 6 { button("Edit"@, Red, "edit"@) }
        else { None }
    } else if r == 3 {
        if c == 0 { button("Root"@, Blue, "root"@) }
        else if c == 5 { button("Encrypt"@, Grey, "encrypt"@) }
        else { None }
    } else if r == 5 {
        if c == 1 { button("DELETE"@, Red, "delete"@) } else { None }
    } else {
        None
    }
}

fn some_button(label: &str, style: ButtonStyle, action: &str) -> (cell: Option<ButtonSlot>)
    ensures
        cell_view(cell) == button(label@, style, action@),
{
    Some(ButtonSlot::new(label, style, action))
}

/// The views of a list of shortcuts.
pub open spec fn slots_view(slots: Seq<DriveSlot>) -> Seq<(Seq<char>, Option<Seq<char>>)> {
    Seq::new(slots.len(), |k: int| slots[k]@)
}

/// The views of a list of stored shortcuts.
pub open spec fn stored_view(slots: Seq<DriveSlotConfig>) -> Seq<(Seq<char>, Option<Seq<char>>)> {
    Seq::new(slots.len(), |k: int| (slots[k].label@, opt_view(slots[k].path)))
}

/// The shortcuts of the saved settings, if any were loaded.
pub open spec fn saved_slots(saved: Option<AppConfig>) -> Option<Seq<(Seq<char>, Option<Seq<char>>)>> {
    match saved {
        Some(config) => Some(stored_view(config.drive_slots@)),
        None => None,
    }
}

/// The shortcuts a start shows: the saved ones when there are any, else
/// those of the default layout.
pub open spec fn restored_slots(
    home: Seq<char>,
    saved: Option<Seq<(Seq<char>, Option<Seq<char>>)>>,
) -> Seq<(Seq<char>, Option<Seq<char>>)> {
    match saved {
        Some(slots) => if slots.len() > 0 { slots } else { default_drive_slots(home) },
        None => default_drive_slots(home),
    }
}

/// Shortcuts that were saved come back, as they were, at the next start.
pub proof fn law_saved_shortcuts_come_back(home: Seq<char>, slots: Seq<DriveSlot>)
    requires
        slots.len() > 0,
    ensures
        restored_slots(home, Some(slots_view(slots))) == slots_view(slots),
{
}

impl ButtonBarConfig {
    /// The layout of the Directory Opus 4 screen, with Linux drives in place
    /// of DF0/DF1/RAM/C, for the home directory `home`; `with_mount` tells
    /// whether the platform has `mount`.
    pub fn default_layout(home: &str, with_mount: bool) -> (config: Self)
        ensures
            config.drive_slots@.len() == 6,
            forall|i: int| 0 <= i < 6 ==> #[trigger] config.drive_slots@[i]@ == default_drive_slots(home@)[i],
            config.rows@.len() == 6,
            forall|r: int| 0 <= r < 6 ==> #[trigger] config.rows@[r]@.len() == 7,
            forall|r: int, c: int| 0 <= r < 6 && 0 <= c < 7 ==>
                cell_view(#[trigger] config.rows@[r]@[c]) == default_cell(r, c, with_mount),
    {
        let b = some_button;
        let mut trash = home.to_owned();
        crate::text::push_str(&mut trash, "/.local/share/Trash/files");
        let drive_slots = vec![
            DriveSlot::new("HOME:", home),
            DriveSlot::new("ROOT:", "/"),
            DriveSlot::new("MEDIA:", "/run/media"),
            DriveSlot::new("TRASH:", trash.as_str()),
            DriveSlot::new("DEVICES:", "/dev"),
            DriveSlot::placeholder("BOOKMARKS:"),
        ];
        let mount_button = if with_mount { b("Mount", Orange, "mount") } else { None };
        let row0 = vec![
            b("All", Blue, "select_all"),
            b("Copy", Purple, "copy"),
            b("Makedir", Orange, "makedir"),
            b("Find", Black, "find"),
            b("Run", Orange, "run"),
            b("Datestamp", Grey, "datestamp"),
            b("Read", Red, "read"),
        ];
        let row1 = vec![
            b("None", Blue, "select_none"),
            b("Move", Purple, "move"),
            mount_button,
            b("Search", Black, "search"),
            None,
            b("Permissions", Grey, "permissions"),
            b("Hex Read", Red, "hex_read"),
        ];
        let row2 = vec![
            b("Parent", Blue, "parent"),
            b("Rename", Purple, "rename"),
            None,
            None,
            None,
            b("Extract", Grey, "extract"),
            b("Edit", Red, "edit"),
        ];
        let row3 = vec![
            b("Root", Blue, "root"),
            None,
            None,
            None,
            None,
            b("Encrypt", Grey, "encrypt"),
            None,
        ];
        let row4 = vec![None, None, None, None, None, None, None];
        let row5 = vec![None, b("DELETE", Red, "delete"), None, None, None, None, None];
        let rows = vec![row0, row1, row2, row3, row4, row5];
        let config = ButtonBarConfig { drive_slots, rows };
        assert forall|r: int, c: int| 0 <= r < 6 && 0 <= c < 7 implies
            cell_view(#[trigger] config.rows@[r]@[c]) == default_cell(r, c, with_mount) by {
            if r == 0 {
            } else if r == 1 {
            } else if r == 2 {
            } else if r == 3 {
            } else if r == 4 {
            } else {
            }
        }
        config
    }

    /// Gives the shortcut at `row_idx` a new label and directory (nothing
    /// happens past the last shortcut).
    pub fn set_drive_slot(&mut self, row_idx: usize, label: String, path: Option<String>)
        ensures
            final(self).rows == old(self).rows,
            row_idx < old(self).drive_slots@.len() ==> final(self).drive_slots@ == old(self).drive_slots@.update(
                row_idx as int,
                DriveSlot { label, path },
            ),
            row_idx >= old(self).drive_slots@.len() ==> final(self).drive_slots@ == old(self).drive_slots@,
    {
        if row_idx < self.drive_slots.len() {
            self.drive_slots.set(row_idx, DriveSlot { label, path });
        }
    }

    /// The default layout, whose shortcuts the saved settings replace when
    /// they hold any.
    pub fn load_or_default(home: &str, with_mount: bool, saved: Option<AppConfig>) -> (config: Self)
        ensures
            config.rows@.len() == 6,
            forall|r: int| 0 <= r < 6 ==> #[trigger] config.rows@[r]@.len() == 7,
            forall|r: int, c: int| 0 <= r < 6 && 0 <= c < 7 ==>
                cell_view(#[trigger] config.rows@[r]@[c]) == default_cell(r, c, with_mount),
            slots_view(config.drive_slots@) == restored_slots(home@, saved_slots(saved)),
    {
        let mut config = Self::default_layout(home, with_mount);
        if let Some(saved) = saved {
            if saved.drive_slots.len() > 0 {
                let ghost stored = saved.drive_slots@;
                assert(stored.len() == saved.drive_slots.len());
                let mut slots: Vec<DriveSlot> = Vec::new();
                let mut i: usize = 0;
                for s in it: saved.drive_slots.into_iter()
                    invariant
                        it.seq() == stored,
                        i == it.index(),
                        i <= stored.len(),
                        stored.len() <= usize::MAX,
                        slots@.len() == i,
                        forall|k: int| 0 <= k < i ==>
                            #[trigger] slots@[k]@ == (stored[k].label@, opt_view(stored[k].path)),
                {
                    slots.push(DriveSlot { label: s.label, path: s.path });
                    i = i + 1;
                }
                config.drive_slots = slots;
                assert(slots_view(config.drive_slots@) =~= stored_view(stored));
            }
        }
        assert(slots_view(config.drive_slots@) =~= restored_slots(home@, saved_slots(saved)));
        config
    }

    /// The settings to save: the shortcuts (the rest of the grid cannot be
    /// customised yet, so it is not kept).
    pub fn save_drive_slots(&self) -> (saved: AppConfig)
        ensures
            stored_view(saved.drive_slots@) == slots_view(self.drive_slots@),
    {
        let mut drive_slots: Vec<DriveSlotConfig> = Vec::new();
        let n = self.drive_slots.len();
        for i in 0..n
            invariant
                n == self.drive_slots@.len(),
                drive_slots@.len() == i,
                forall|k: int| 0 <= k < i ==>
                    (#[trigger] drive_slots@[k]).label@ == self.drive_slots@[k].label@
                    && opt_view(drive_slots@[k].path) == opt_view(self.drive_slots@[k].path),
        {
            let slot = &self.drive_slots[i];
            let path = match &slot.path {
                Some(p) => Some(p.clone()),
                None => None,
            };
            drive_slots.push(DriveSlotConfig { label: slot.label.clone(), path });
        }
        assert(stored_view(drive_slots@) =~= slots_view(self.drive_slots@));
        AppConfig { drive_slots }
    }
}

} // verus!

//! The state of one file panel: its listing, in display order, and the selection.
use std::collections::HashSet;
use vstd::prelude::*;
use crate::paths::{file_name_of, join_path, path_file_name, path_join};
use crate::text::{decimal, push_decimal, push_str, chars_of, chars_le, lemma_text_le_reflexive, lemma_text_le_total,
    lemma_text_le_transitive, lowercase, text_le, to_lowercase};

verus! {

broadcast use vstd::std_specs::hash::group_hash_axioms;

/// One row of a panel: a file or a directory.
#[derive(Clone)]
pub struct FileEntry {
    pub name: String,
    pub size: Option<u64>,
    pub is_dir: bool,
}

/// `a` is listed no later than `b`: directories before files, then by
/// lowercase name.
pub open spec fn listed_no_later(a: FileEntry, b: FileEntry) -> bool {
    (a.is_dir && !b.is_dir) || (a.is_dir == b.is_dir && text_le(lowercase(a.name@), lowercase(b.name@)))
}

/// `a` and `b` take the same rank in a listing.
pub open spec fn same_rank(a: FileEntry, b: FileEntry) -> bool {
    a.is_dir == b.is_dir && lowercase(a.name@) == lowercase(b.name@)
}

/// `out` is the listing order of `raw`: the same entries, directories first,
/// each group by lowercase name, entries of the same rank in the order of `raw`.
pub open spec fn is_listing_of(out: Seq<FileEntry>, raw: Seq<FileEntry>) -> bool {
    &&& out.len() == raw.len()
    &&& exists|origin: Seq<int>| {
        &&& origin.len() == out.len()
        &&& forall|k: int| 0 <= k < out.len() ==> 0 <= #[trigger] origin[k] < raw.len()
        &&& forall|k: int| 0 <= k < out.len() ==> out[k] == raw[#[trigger] origin[k]]
        &&& forall|j: int, k: int| 0 <= j < k < out.len() ==> #[trigger] origin[j] != #[trigger] origin[k]
        &&& forall|j: int, k: int| 0 <= j < k < out.len() && same_rank(#[trigger] out[j], #[trigger] out[k])
            ==> origin[j] < origin[k]
    }
    &&& forall|j: int, k: int| 0 <= j < k < out.len() ==> listed_no_later(#[trigger] out[j], #[trigger] out[k])
}

proof fn lemma_listed_transitive(a: FileEntry, b: FileEntry, c: FileEntry)
    requires
        listed_no_later(a, b),
        listed_no_later(b, c),
    ensures
        listed_no_later(a, c),
{
    if a.is_dir == b.is_dir && b.is_dir == c.is_dir {
        lemma_text_le_transitive(lowercase(a.name@), lowercase(b.name@), lowercase(c.name@));
    }
}

proof fn lemma_listed_total(a: FileEntry, b: FileEntry)
    ensures
        listed_no_later(a, b) || listed_no_later(b, a),
{
    lemma_text_le_total(lowercase(a.name@), lowercase(b.name@));
}

proof fn lemma_same_rank_listed(a: FileEntry, b: FileEntry)
    requires
        same_rank(a, b),
    ensures
        listed_no_later(a, b),
{
    lemma_text_le_reflexive(lowercase(a.name@));
}

/// The entries of a directory as they are shown: directories first, then
/// files, each group ordered by lowercase name (stable).
pub fn sort_listing(raw: Vec<FileEntry>) -> (out: Vec<FileEntry>)
    ensures
        is_listing_of(out@, raw@),
        forall|j: int, k: int| 0 <= j < k < out@.len() && !#[trigger] out@[j].is_dir ==> !#[trigger] out@[k].is_dir,
        forall|j: int, k: int| 0 <= j < k < out@.len() && #[trigger] out@[j].is_dir == #[trigger] out@[k].is_dir
            ==> text_le(lowercase(out@[j].name@), lowercase(out@[k].name@)),
{
    let mut out: Vec<FileEntry> = Vec::new();
    let mut keys: Vec<Vec<char>> = Vec::new();
    let ghost mut origin: Seq<int> = Seq::empty();
    let ghost raw_seq = raw@;
    assert(raw_seq.len() == raw.len());
    let mut i: usize = 0;
    for entry in it: raw.into_iter()
        invariant
            it.seq() == raw_seq,
            i == it.index(),
            i <= raw_seq.len(),
            raw_seq.len() <= usize::MAX,
            out@.len() == i,
            keys@.len() == i,
            origin.len() == i,
            forall|k: int| 0 <= k < i ==> keys@[k]@ == lowercase(out@[k].name@),
            forall|k: int| 0 <= k < i ==> 0 <= #[trigger] origin[k] < i,
            forall|k: int| 0 <= k < i ==> out@[k] == raw_seq[#[trigger] origin[k]],
            forall|j: int, k: int| 0 <= j < k < i ==> #[trigger] origin[j] != #[trigger] origin[k],
            forall|j: int, k: int| 0 <= j < k < i && same_rank(#[trigger] out@[j], #[trigger] out@[k])
                ==> origin[j] < origin[k],
            forall|j: int, k: int| 0 <= j < k < i ==> listed_no_later(#[trigger] out@[j], #[trigger] out@[k]),
    {
        assert(it.index() < raw_seq.len());
        let key = chars_of(to_lowercase(entry.name.as_str()).as_str());
        let mut pos: usize = 0;
        while pos < out.len()
            && ((out[pos].is_dir && !entry.is_dir) || (out[pos].is_dir == entry.is_dir && chars_le(&keys[pos], &key)))
            invariant
                pos <= out@.len(),
                out@.len() == keys@.len(),
                forall|k: int| 0 <= k < out@.len() ==> keys@[k]@ == lowercase(out@[k].name@),
                key@ == lowercase(entry.name@),
                forall|k: int| 0 <= k < pos ==> listed_no_later(#[trigger] out@[k], entry),
            decreases out@.len() - pos,
        {
            pos = pos + 1;
        }
        let ghost old_out = out@;
        let ghost old_origin = origin;
        proof {
            if pos < old_out.len() {
                assert(!listed_no_later(old_out[pos as int], entry));
                assert forall|k: int| pos <= k < old_out.len() implies
                    !listed_no_later(#[trigger] old_out[k], entry) && listed_no_later(entry, old_out[k]) by {
                    if listed_no_later(old_out[k], entry) {
                        if k > pos {
                            lemma_listed_transitive(old_out[pos as int], old_out[k], entry);
                        }
                    }
                    lemma_listed_total(old_out[k], entry);
                }
            }
            assert forall|k: int| pos <= k < old_out.len() implies !same_rank(#[trigger] old_out[k], entry) by {
                if same_rank(old_out[k], entry) {
                    lemma_same_rank_listed(old_out[k], entry);
                }
            }
        }
        out.insert(pos, entry);
        keys.insert(pos, key);
        proof {
            origin = old_origin.insert(pos as int, i as int);
            assert(out@[pos as int] == raw_seq[i as int]);
            assert forall|j: int, k: int| 0 <= j < k < i + 1 implies listed_no_later(#[trigger] out@[j], #[trigger] out@[k]) by {
                if j < pos && k > pos {
                    lemma_listed_transitive(old_out[j], entry, old_out[k - 1]);
                }
            }
        }
        i = i + 1;
    }
    assert forall|j: int, k: int| 0 <= j < k < out@.len() && !#[trigger] out@[j].is_dir implies !#[trigger] out@[k].is_dir by {
        assert(listed_no_later(out@[j], out@[k]));
    }
    assert forall|j: int, k: int| 0 <= j < k < out@.len() && #[trigger] out@[j].is_dir == #[trigger] out@[k].is_dir
        implies text_le(lowercase(out@[j].name@), lowercase(out@[k].name@)) by {
        assert(listed_no_later(out@[j], out@[k]));
    }
    out
}


/// The title of a panel showing `path`: its last component, or the whole
/// path when it has none.
pub open spec fn panel_title(path: Seq<char>) -> Seq<char> {
    match path_file_name(path) {
        Some(name) => if name.len() > 0 { name } else { path },
        None => path,
    }
}

/// The entries at the selected positions, in the order of the listing
/// (positions past the end select nothing).
pub open spec fn selection_of(entries: Seq<FileEntry>, selected: Set<usize>, upto: nat) -> Seq<FileEntry>
    decreases upto,
{
    if upto == 0 {
        Seq::empty()
    } else {
        let before = selection_of(entries, selected, (upto - 1) as nat);
        if selected.contains((upto - 1) as usize) {
            before.push(entries[upto - 1])
        } else {
            before
        }
    }
}

/// The paths of the selected entries of `panel`, in listing order: each
/// name joined to the panel's directory.
pub open spec fn selected_path_texts(panel: PanelState) -> Seq<Seq<char>> {
    selection_of(panel.entries@, panel.selected@, panel.entries@.len()).map_values(
        |e: FileEntry| path_join(panel.path@, e.name@),
    )
}

/// The sum of the known sizes of `entries`.
pub open spec fn sizes_total(entries: Seq<FileEntry>) -> nat
    decreases entries.len(),
{
    if entries.len() == 0 {
        0
    } else {
        sizes_total(entries.drop_last()) + match entries.last().size {
            Some(n) => n as nat,
            None => 0,
        }
    }
}

/// The text at the right of a panel's title bar: the size label, or while
/// something is selected the number of selected positions and their total size.
pub open spec fn header_text(panel: PanelState) -> Seq<char> {
    if panel.selected@.is_empty() {
        panel.size_label@
    } else {
        decimal(panel.selected@.len()) + " sel. ("@ + decimal(
            sizes_total(selection_of(panel.entries@, panel.selected@, panel.entries@.len())),
        ) + ")"@
    }
}

proof fn lemma_selection_total_grows(entries: Seq<FileEntry>, selected: Set<usize>, k: nat, n: nat)
    requires
        k <= n,
    ensures
        sizes_total(selection_of(entries, selected, k)) <= sizes_total(selection_of(entries, selected, n)),
    decreases n,
{
    if k < n {
        lemma_selection_total_grows(entries, selected, k, (n - 1) as nat);
        let s = selection_of(entries, selected, (n - 1) as nat);
        if selected.contains((n - 1) as usize) {
            assert(s.push(entries[n - 1]).drop_last() =~= s);
        }
    }
}

proof fn lemma_selection_of_all(entries: Seq<FileEntry>, m: nat)
    requires
        m <= entries.len(),
    ensures
        selection_of(entries, Set::new(|k: usize| (k as int) < entries.len()), m) == entries.take(m as int),
    decreases m,
{
    if m > 0 {
        lemma_selection_of_all(entries, (m - 1) as nat);
        assert(entries.take(m - 1).push(entries[m - 1]) =~= entries.take(m as int));
    } else {
        assert(entries.take(0) =~= Seq::<FileEntry>::empty());
    }
}

proof fn lemma_selection_of_none(entries: Seq<FileEntry>, m: nat)
    ensures
        selection_of(entries, Set::<usize>::empty(), m) == Seq::<FileEntry>::empty(),
    decreases m,
{
    if m > 0 {
        lemma_selection_of_none(entries, (m - 1) as nat);
    }
}

/// Once every position is selected, the selected entries are all the
/// entries, directories and files alike, in listing order.
pub proof fn law_select_all_selects_every_entry(entries: Seq<FileEntry>)
    ensures
        selection_of(entries, Set::new(|k: usize| (k as int) < entries.len()), entries.len()) == entries,
{
    lemma_selection_of_all(entries, entries.len());
    assert(entries.take(entries.len() as int) =~= entries);
}

/// The selected positions below `upto`, in increasing order.
pub open spec fn selected_positions(selected: Set<usize>, upto: nat) -> Seq<int>
    decreases upto,
{
    if upto == 0 {
        Seq::empty()
    } else {
        let before = selected_positions(selected, (upto - 1) as nat);
        if selected.contains((upto - 1) as usize) {
            before.push(upto - 1)
        } else {
            before
        }
    }
}

proof fn lemma_selected_positions(entries: Seq<FileEntry>, selected: Set<usize>, upto: nat)
    requires
        upto <= entries.len(),
        entries.len() <= usize::MAX,
    ensures
        ({
            let pos = selected_positions(selected, upto);
            &&& pos.len() == selection_of(entries, selected, upto).len()
            &&& forall|k: int| 0 <= k < pos.len() ==> 0 <= #[trigger] pos[k] < upto
                && selected.contains(pos[k] as usize) && selection_of(entries, selected, upto)[k] == entries[pos[k]]
            &&& forall|j: int, k: int| 0 <= j < k < pos.len() ==> #[trigger] pos[j] < #[trigger] pos[k]
            &&& forall|i: int| 0 <= i < upto && selected.contains(i as usize) ==> #[trigger] pos.contains(i)
        }),
    decreases upto,
{
    if upto > 0 {
        lemma_selected_positions(entries, selected, (upto - 1) as nat);
        let before = selected_positions(selected, (upto - 1) as nat);
        let pos = selected_positions(selected, upto);
        assert forall|i: int| 0 <= i < upto && selected.contains(i as usize) implies #[trigger] pos.contains(i) by {
            if i < upto - 1 {
                assert(before.contains(i));
                let k = choose|k: int| 0 <= k < before.len() && before[k] == i;
                if selected.contains((upto - 1) as usize) {
                    assert(pos[k] == i);
                }
            } else {
                assert(pos[pos.len() - 1] == i);
            }
        }
    }
}

/// The selected entries are those at the selected positions inside the
/// listing, each exactly once, in listing order: positions past the end
/// select nothing.
pub proof fn law_each_selected_position_once(entries: Seq<FileEntry>, selected: Set<usize>)
    requires
        entries.len() <= usize::MAX,
    ensures
        ({
            let pos = selected_positions(selected, entries.len());
            let chosen = selection_of(entries, selected, entries.len());
            &&& chosen.len() == pos.len()
            &&& forall|k: int| 0 <= k < pos.len() ==> 0 <= #[trigger] pos[k] < entries.len()
                && selected.contains(pos[k] as usize) && chosen[k] == entries[pos[k]]
            &&& forall|j: int, k: int| 0 <= j < k < pos.len() ==> #[trigger] pos[j] != #[trigger] pos[k]
            &&& forall|i: int| 0 <= i < entries.len() && selected.contains(i as usize) ==> #[trigger] pos.contains(i)
        }),
{
    lemma_selected_positions(entries, selected, entries.len());
    let pos = selected_positions(selected, entries.len());
    assert forall|j: int, k: int| 0 <= j < k < pos.len() implies #[trigger] pos[j] != #[trigger] pos[k] by {
        assert(pos[j] < pos[k]);
    }
}

/// The size counted for one entry: its known size, directory or file alike,
/// and nothing when unknown.
pub proof fn law_size_of_one_entry(e: FileEntry)
    ensures
        e.size matches Some(n) ==> sizes_total(seq![e]) == n,
        e.size is None ==> sizes_total(seq![e]) == 0,
{
    let one = seq![e];
    assert(one.drop_last() =~= Seq::<FileEntry>::empty());
    assert(sizes_total(Seq::<FileEntry>::empty()) == 0);
    assert(one.last() == e);
    assert(sizes_total(one) == sizes_total(one.drop_last()) + match e.size {
        Some(n) => n as nat,
        None => 0,
    });
}

/// The total size of a list is the sum of the totals of its parts.
pub proof fn law_sizes_add_up(s: Seq<FileEntry>, t: Seq<FileEntry>)
    ensures
        sizes_total(s + t) == sizes_total(s) + sizes_total(t),
    decreases t.len(),
{
    if t.len() == 0 {
        assert(s + t =~= s);
    } else {
        law_sizes_add_up(s, t.drop_last());
        assert((s + t).drop_last() =~= s + t.drop_last());
        assert((s + t).last() == t.last());
    }
}

/// Whether an entry is a file or a directory plays no part in the total:
/// lists whose entries have the same sizes have the same total.
pub proof fn law_sizes_ignore_kind(s: Seq<FileEntry>, t: Seq<FileEntry>)
    requires
        s.len() == t.len(),
        forall|k: int| 0 <= k < s.len() ==> #[trigger] s[k].size == t[k].size,
    ensures
        sizes_total(s) == sizes_total(t),
    decreases s.len(),
{
    if s.len() > 0 {
        law_sizes_ignore_kind(s.drop_last(), t.drop_last());
        assert(s.last().size == t[t.len() - 1].size);
    }
}

/// A range selection holds every position between its two ends, both
/// included, and nothing else; without an anchor it holds the clicked
/// position alone.
pub proof fn law_range_holds_what_lies_between(anchor: Option<usize>, idx: usize, k: usize)
    ensures
        anchor matches Some(a) ==> (range_selection(anchor, idx).contains(k) <==> (a <= k <= idx || idx <= k <= a)),
        anchor is None ==> (range_selection(anchor, idx).contains(k) <==> k == idx),
{
}

/// With nothing selected, no entry is selected.
pub proof fn law_select_none_selects_nothing(entries: Seq<FileEntry>)
    ensures
        selection_of(entries, Set::<usize>::empty(), entries.len()) == Seq::<FileEntry>::empty(),
{
    lemma_selection_of_none(entries, entries.len());
}

/// A range selection covers the same positions whichever of its two ends
/// was clicked first.
pub proof fn law_range_selection_symmetric(a: usize, b: usize)
    ensures
        range_selection(Some(a), b) == range_selection(Some(b), a),
        range_selection(Some(a), b).contains(a) && range_selection(Some(a), b).contains(b),
{
}

/// The positions from `lo` to `hi`, both included.
pub open spec fn index_range(lo: usize, hi: usize) -> Set<usize> {
    Set::new(|k: usize| lo <= k <= hi)
}

/// The selection that a range selection towards `idx` makes, from the anchor
/// (or from `idx` itself without one).
pub open spec fn range_selection(anchor: Option<usize>, idx: usize) -> Set<usize> {
    let a = match anchor {
        Some(a) => a,
        None => idx,
    };
    if a <= idx {
        index_range(a, idx)
    } else {
        index_range(idx, a)
    }
}

/// The state of one of the two file panels.
pub struct PanelState {
    /// Stable identity of the panel ("left"/"right"), whatever it shows.
    pub id: &'static str,
    pub title: String,
    pub size_label: String,
    pub path: String,
    pub entries: Vec<FileEntry>,
    /// Positions of the selected entries (files and directories alike).
    pub selected: HashSet<usize>,
    /// Where a range selection starts: the last entry clicked alone or with Ctrl.
    pub range_anchor: Option<usize>,
    pub active: bool,
}

impl PanelState {
    /// A panel showing `path`, whose directory holds `listing` (in any order).
    pub fn at_path(id: &'static str, path: String, listing: Vec<FileEntry>) -> (panel: Self)
        ensures
            panel.id == id,
            panel.title@ == panel_title(path@),
            panel.size_label@ == seq!['-', '-'],
            panel.path@ == path@,
            is_listing_of(panel.entries@, listing@),
            panel.selected@ == Set::<usize>::empty(),
            panel.range_anchor is None,
            !panel.active,
    {
        let mut label = String::new();
        crate::text::push_char(&mut label, '-');
        crate::text::push_char(&mut label, '-');
        let mut panel = PanelState {
            id,
            title: String::new(),
            size_label: label,
            path: String::new(),
            entries: Vec::new(),
            selected: HashSet::new(),
            range_anchor: None,
            active: false,
        };
        panel.navigate_to(path, listing);
        panel
    }

    /// Shows the directory `path`, whose entries are `listing` (in any
    /// order), and forgets the selection.
    pub fn navigate_to(&mut self, path: String, listing: Vec<FileEntry>)
        ensures
            final(self).id == old(self).id,
            final(self).size_label == old(self).size_label,
            final(self).active == old(self).active,
            final(self).title@ == panel_title(path@),
            final(self).path@ == path@,
            is_listing_of(final(self).entries@, listing@),
            final(self).selected@ == Set::<usize>::empty(),
            final(self).range_anchor is None,
    {
        self.title = match file_name_of(path.as_str()) {
            Some(name) => if name.as_str().is_empty() { path.clone() } else { name },
            None => path.clone(),
        };
        self.path = path;
        self.entries = sort_listing(listing);
        self.selected.clear();
        self.range_anchor = None;
    }

    /// The selected entries (files and directories alike), in listing order.
    pub fn selected_entries(&self) -> (r: Vec<&FileEntry>)
        ensures
            r@.len() == selection_of(self.entries@, self.selected@, self.entries@.len()).len(),
            forall|k: int| 0 <= k < r@.len() ==>
                *r@[k] == selection_of(self.entries@, self.selected@, self.entries@.len())[k],
    {
        let mut r: Vec<&FileEntry> = Vec::new();
        let n = self.entries.len();
        for i in 0..n
            invariant
                n == self.entries@.len(),
                r@.len() == selection_of(self.entries@, self.selected@, i as nat).len(),
                forall|k: int| 0 <= k < r@.len() ==>
                    *r@[k] == selection_of(self.entries@, self.selected@, i as nat)[k],
        {
            if self.selected.contains(&i) {
                r.push(&self.entries[i]);
            }
        }
        r
    }

    /// The text at the right of the title bar (see `header_text`).
    pub fn header_right_text(&self) -> (t: String)
        requires
            sizes_total(selection_of(self.entries@, self.selected@, self.entries@.len())) <= u64::MAX,
        ensures
            t@ == header_text(*self),
    {
        if self.selected.is_empty() {
            return self.size_label.clone();
        }
        let mut total: u64 = 0;
        let n = self.entries.len();
        for i in 0..n
            invariant
                n == self.entries@.len(),
                total == sizes_total(selection_of(self.entries@, self.selected@, i as nat)),
                sizes_total(selection_of(self.entries@, self.selected@, n as nat)) <= u64::MAX,
        {
            proof {
                lemma_selection_total_grows(self.entries@, self.selected@, (i + 1) as nat, n as nat);
                let s = selection_of(self.entries@, self.selected@, i as nat);
                assert(s.push(self.entries@[i as int]).drop_last() =~= s);
            }
            if self.selected.contains(&i) {
                match self.entries[i].size {
                    Some(size) => total = total + size,
                    None => {},
                }
            }
        }
        let mut t = String::new();
        push_decimal(&mut t, self.selected.len() as u64);
        push_str(&mut t, " sel. (");
        push_decimal(&mut t, total);
        push_str(&mut t, ")");
        proof {
            reveal_strlit(" sel. (");
            reveal_strlit(")");
        }
        assert(t@ =~= header_text(*self));
        t
    }

    /// The paths of the selected entries, in listing order: each name joined
    /// to the panel's directory.
    pub fn selected_paths(&self) -> (r: Vec<String>)
        ensures
            r@.map_values(|s: String| s@) == selected_path_texts(*self),
            r@.len() == selection_of(self.entries@, self.selected@, self.entries@.len()).len(),
            forall|k: int| 0 <= k < r@.len() ==> #[trigger] r@[k]@ == path_join(
                self.path@,
                selection_of(self.entries@, self.selected@, self.entries@.len())[k].name@,
            ),
    {
        let chosen = self.selected_entries();
        let mut r: Vec<String> = Vec::new();
        let n = chosen.len();
        for i in 0..n
            invariant
                n == chosen@.len(),
                chosen@.len() == selection_of(self.entries@, self.selected@, self.entries@.len()).len(),
                forall|k: int| 0 <= k < n ==>
                    *chosen@[k] == selection_of(self.entries@, self.selected@, self.entries@.len())[k],
                r@.len() == i,
                forall|k: int| 0 <= k < i ==> #[trigger] r@[k]@ == path_join(self.path@, chosen@[k].name@),
        {
            r.push(join_path(self.path.as_str(), chosen[i].name.as_str()));
        }
        assert(r@.map_values(|s: String| s@) =~= selected_path_texts(*self));
        r
    }

    /// Selects the first entry named `name`, alone, and makes it the anchor;
    /// nothing changes when no entry has that name.
    pub fn select_entry_named(&mut self, name: &str)
        ensures
            final(self).entries == old(self).entries,
            final(self).id == old(self).id,
            final(self).title == old(self).title,
            final(self).size_label == old(self).size_label,
            final(self).path == old(self).path,
            final(self).active == old(self).active,
            (forall|k: int| 0 <= k < old(self).entries@.len() ==> #[trigger] old(self).entries@[k].name@ != name@)
                ==> final(self).selected@ == old(self).selected@ && final(self).range_anchor == old(self).range_anchor,
            forall|i: int| 0 <= i < old(self).entries@.len() && old(self).entries@[i].name@ == name@
                && (forall|k: int| 0 <= k < i ==> #[trigger] old(self).entries@[k].name@ != name@)
                ==> final(self).selected@ == Set::<usize>::empty().insert(i as usize)
                && final(self).range_anchor == Some(i as usize),
    {
        let wanted = name.to_owned();
        let n = self.entries.len();
        for i in 0..n
            invariant
                n == self.entries@.len(),
                wanted@ == name@,
                forall|k: int| 0 <= k < i ==> #[trigger] self.entries@[k].name@ != name@,
                self.selected@ == old(self).selected@,
                self.range_anchor == old(self).range_anchor,
                self.entries == old(self).entries,
                self.id == old(self).id,
                self.title == old(self).title,
                self.size_label == old(self).size_label,
                self.path == old(self).path,
                self.active == old(self).active,
        {
            if self.entries[i].name == wanted {
                self.selected.clear();
                self.selected.insert(i);
                self.range_anchor = Some(i);
                return;
            }
        }
    }

    /// The entry to rename: the selected one, when exactly one position is
    /// selected and it holds an entry (the entry at the first selected
    /// position, scanning the listing).
    pub fn single_selected_entry(&self) -> (r: Option<&FileEntry>)
        ensures
            self.selected@.len() != 1 ==> r is None,
            self.selected@.len() == 1 ==> match r {
                Some(e) => exists|i: int| 0 <= i < self.entries@.len() && self.selected@.contains(i as usize)
                    && *e == self.entries@[i],
                None => forall|i: usize| (i as int) < self.entries@.len() ==> !#[trigger] self.selected@.contains(i),
            },
            self.selected@.len() == 1 && self.selected@.finite() ==> (r matches Some(e) ==> exists|i: int|
                0 <= i < self.entries@.len() && self.selected@ == set![i as usize] && *e == self.entries@[i]),
    {
        if self.selected.len() != 1 {
            return None;
        }
        let n = self.entries.len();
        for i in 0..n
            invariant
                n == self.entries@.len(),
                self.selected@.len() == 1,
                forall|k: usize| k < i ==> !#[trigger] self.selected@.contains(k),
        {
            if self.selected.contains(&i) {
                proof {
                    if self.selected@.finite() {
                        self.selected@.remove(i).lemma_len0_is_empty();
                        assert(self.selected@ =~= set![i]);
                    }
                }
                return Some(&self.entries[i]);
            }
        }
        None
    }

    /// Selects every entry.
    pub fn select_all(&mut self)
        ensures
            final(self).selected@ == Set::new(|k: usize| (k as int) < old(self).entries@.len()),
            final(self).entries == old(self).entries,
            final(self).range_anchor == old(self).range_anchor,
            final(self).id == old(self).id,
            final(self).title == old(self).title,
            final(self).size_label == old(self).size_label,
            final(self).path == old(self).path,
            final(self).active == old(self).active,
    {
        let mut selected: HashSet<usize> = HashSet::new();
        let n = self.entries.len();
        for i in 0..n
            invariant
                n == self.entries@.len(),
                selected@ == Set::new(|k: usize| k < i),
        {
            selected.insert(i);
            assert(selected@ =~= Set::new(|k: usize| k < i + 1));
        }
        assert(selected@ =~= Set::new(|k: usize| (k as int) < self.entries@.len()));
        self.selected = selected;
    }

    /// Clears the selection and its anchor.
    pub fn select_none(&mut self)
        ensures
            final(self).selected@ == Set::<usize>::empty(),
            final(self).range_anchor is None,
            final(self).entries == old(self).entries,
            final(self).id == old(self).id,
            final(self).title == old(self).title,
            final(self).size_label == old(self).size_label,
            final(self).path == old(self).path,
            final(self).active == old(self).active,
    {
        self.selected.clear();
        self.range_anchor = None;
    }

    /// Selects the continuous range between the anchor (or `idx` itself when
    /// there is none) and `idx`, as a Shift-click does.
    pub fn select_range_to(&mut self, idx: usize)
        ensures
            final(self).selected@ == range_selection(old(self).range_anchor, idx),
            final(self).range_anchor == old(self).range_anchor,
            final(self).entries == old(self).entries,
            final(self).id == old(self).id,
            final(self).title == old(self).title,
            final(self).size_label == old(self).size_label,
            final(self).path == old(self).path,
            final(self).active == old(self).active,
    {
        let anchor = match self.range_anchor {
            Some(a) => a,
            None => idx,
        };
        let (start, end) = if anchor <= idx { (anchor, idx) } else { (idx, anchor) };
        let mut selected: HashSet<usize> = HashSet::new();
        let mut i = start;
        while i < end
            invariant
                start <= i <= end,
                selected@ == Set::new(|k: usize| start <= k < i),
            decreases end - i,
        {
            selected.insert(i);
            assert(selected@ =~= Set::new(|k: usize| start <= k < i + 1));
            i = i + 1;
        }
        selected.insert(end);
        assert(selected@ =~= index_range(start, end));
        self.selected = selected;
    }

    /// A click on the entry at `idx`: with Shift, selects the range from the
    /// anchor; with Ctrl, toggles that entry alone; otherwise selects only it.
    /// Without Shift the entry becomes the new anchor.
    pub fn click_entry(&mut self, idx: usize, ctrl_held: bool, shift_held: bool)
        ensures
            shift_held ==> final(self).selected@ == range_selection(old(self).range_anchor, idx)
                && final(self).range_anchor == old(self).range_anchor,
            !shift_held && ctrl_held ==> final(self).range_anchor == Some(idx) && final(self).selected@
                == if old(self).selected@.contains(idx) {
                    old(self).selected@.remove(idx)
                } else {
                    old(self).selected@.insert(idx)
                },
            !shift_held && !ctrl_held ==> final(self).range_anchor == Some(idx)
                && final(self).selected@ == Set::<usize>::empty().insert(idx),
            final(self).entries == old(self).entries,
            final(self).id == old(self).id,
            final(self).title == old(self).title,
            final(self).size_label == old(self).size_label,
            final(self).path == old(self).path,
            final(self).active == old(self).active,
    {
        if shift_held {
            self.select_range_to(idx);
        } else if ctrl_held {
            if self.selected.contains(&idx) {
                self.selected.remove(&idx);
            } else {
                self.selected.insert(idx);
            }
            self.range_anchor = Some(idx);
        } else {
            self.selected.clear();
            self.selected.insert(idx);
            self.range_anchor = Some(idx);
        }
    }
}

/// A click in the panel `chosen` makes it the active one: the other panel
/// becomes inactive and loses its selection, so that only one selection
/// exists across the two panels.
pub fn activate_panel(chosen: &mut PanelState, other: &mut PanelState)
    ensures
        final(chosen).active,
        !final(other).active,
        final(other).selected@ == Set::<usize>::empty(),
        final(other).range_anchor is None,
        final(chosen).selected == old(chosen).selected,
        final(chosen).range_anchor == old(chosen).range_anchor,
        final(chosen).entries == old(chosen).entries,
        final(chosen).path == old(chosen).path,
        final(other).entries == old(other).entries,
        final(other).path == old(other).path,
{
    chosen.active = true;
    other.active = false;
    other.select_none();
}

} // verus!

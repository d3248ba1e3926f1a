//! A file and directory browser.
//!
//! The picker decides; the caller does the file-system work. A key that
//! opens or leaves a directory returns the step to take, and the caller
//! lists the new directory and hands the listing back with
//! [`FilePicker::load`].

use vstd::prelude::*;
use vstd::relations::sorted_by;
use crate::text::{chars_of, concat};
use crate::tui::{KeyCode, MouseEvent, MouseEventKind, Rect};

verus! {

broadcast use vstd::seq_lib::group_to_multiset_ensures;

/// What a file picker tells its listeners.
#[derive(Debug, Clone)]
pub enum FilePickerEvent {
    Select(String),
    Focus,
    Blur,
}

/// The directory step a key asks the caller to take.
#[derive(Debug, Clone)]
pub enum FilePickerAction {
    /// Nothing to do outside the picker.
    Stay,
    /// Enter the named subdirectory of the current one, list it and load it.
    Open(String),
    /// Move to the parent directory where there is one, and list and load
    /// the resulting directory in any case.
    Parent,
    /// Where the current directory has a parent, move to it and list and
    /// load it; else do nothing.
    LeaveToParent,
}

/// A file picker: the root it was opened on, the entries of the current
/// directory (name and whether it is a directory), the selected entry,
/// focus and the current directory as shown.
pub struct FilePicker {
    pub root: String,
    pub items: Vec<(String, bool)>,
    pub selection: usize,
    pub focused: bool,
    pub current_dir: String,
}

/// Code-point order on names: lexicographic, a prefix first.
pub open spec fn name_le(a: Seq<char>, b: Seq<char>) -> bool
    decreases a.len(),
{
    if a.len() == 0 {
        true
    } else if b.len() == 0 {
        false
    } else if a[0] != b[0] {
        a[0] < b[0]
    } else {
        name_le(a.drop_first(), b.drop_first())
    }
}

/// Listing order: directories before files, then by name.
pub open spec fn entry_le(a: (Seq<char>, bool), b: (Seq<char>, bool)) -> bool {
    if a.1 && !b.1 {
        true
    } else if !a.1 && b.1 {
        false
    } else {
        name_le(a.0, b.0)
    }
}

/// The abstract value of an entry: its name's characters and whether it is
/// a directory.
pub open spec fn entry_view(e: (String, bool)) -> (Seq<char>, bool) {
    (e.0@, e.1)
}

/// The entries of a listing, as abstract values.
pub open spec fn entries_view(v: Seq<(String, bool)>) -> Seq<(Seq<char>, bool)> {
    v.map_values(|e: (String, bool)| entry_view(e))
}

/// The name `..`.
pub open spec fn parent_name() -> Seq<char> {
    seq!['.', '.']
}

/// A directory's entries as the picker lists them: `..` first, then the
/// given entries in listing order.
pub open spec fn is_listing_of(out: Seq<(Seq<char>, bool)>, entries: Seq<(Seq<char>, bool)>) -> bool {
    &&& out.len() == entries.len() + 1
    &&& out[0] == (parent_name(), true)
    &&& sorted_by(out.drop_first(), |a: (Seq<char>, bool), b: (Seq<char>, bool)| entry_le(a, b))
    &&& out.drop_first().to_multiset() == entries.to_multiset()
}

pub proof fn lemma_name_le_total(a: Seq<char>, b: Seq<char>)
    ensures
        name_le(a, b) || name_le(b, a),
    decreases a.len(),
{
    if a.len() > 0 && b.len() > 0 && a[0] == b[0] {
        lemma_name_le_total(a.drop_first(), b.drop_first());
    }
}

pub proof fn lemma_name_le_trans(a: Seq<char>, b: Seq<char>, c: Seq<char>)
    requires
        name_le(a, b),
        name_le(b, c),
    ensures
        name_le(a, c),
    decreases a.len(),
{
    if a.len() > 0 && b.len() > 0 && c.len() > 0 && a[0] == b[0] && b[0] == c[0] {
        lemma_name_le_trans(a.drop_first(), b.drop_first(), c.drop_first());
    }
}

proof fn lemma_entry_le_total(a: (Seq<char>, bool), b: (Seq<char>, bool))
    ensures
        entry_le(a, b) || entry_le(b, a),
{
    lemma_name_le_total(a.0, b.0);
}

proof fn lemma_entry_le_trans(a: (Seq<char>, bool), b: (Seq<char>, bool), c: (Seq<char>, bool))
    requires
        entry_le(a, b),
        entry_le(b, c),
    ensures
        entry_le(a, c),
{
    if a.1 == b.1 && b.1 == c.1 {
        lemma_name_le_trans(a.0, b.0, c.0);
    }
}

/// Whether `a` comes no later than `b` in code-point order.
fn names_le(a: &Vec<char>, b: &Vec<char>) -> (r: bool)
    ensures
        r == name_le(a@, b@),
{
    let mut i: usize = 0;
    assert(a@.subrange(0, a@.len() as int) =~= a@);
    assert(b@.subrange(0, b@.len() as int) =~= b@);
    while i < a.len() && i < b.len()
        invariant
            i <= a@.len(),
            i <= b@.len(),
            a@.subrange(0, i as int) == b@.subrange(0, i as int),
            name_le(a@, b@) == name_le(a@.subrange(i as int, a@.len() as int), b@.subrange(i as int, b@.len() as int)),
        decreases a@.len() - i,
    {
        if a[i] != b[i] {
            return a[i] < b[i];
        }
        assert(a@.subrange(i as int, a@.len() as int).drop_first() =~= a@.subrange(i + 1, a@.len() as int));
        assert(b@.subrange(i as int, b@.len() as int).drop_first() =~= b@.subrange(i + 1, b@.len() as int));
        assert(a@.subrange(0, i + 1) =~= a@.subrange(0, i as int).push(a@[i as int]));
        assert(b@.subrange(0, i + 1) =~= b@.subrange(0, i as int).push(b@[i as int]));
        i = i + 1;
    }
    i == a.len()
}

/// `items` in listing order (directories first, then by name), with `..`
/// in front.
pub fn listing(items: Vec<(String, bool)>) -> (out: Vec<(String, bool)>)
    ensures
        is_listing_of(entries_view(out@), entries_view(items@)),
{
    let ghost le = |a: (Seq<char>, bool), b: (Seq<char>, bool)| entry_le(a, b);
    let mut sorted: Vec<(String, bool)> = Vec::new();
    let mut keys: Vec<Vec<char>> = Vec::new();
    let mut i: usize = 0;
    while i < items.len()
        invariant
            i <= items@.len(),
            keys@.len() == sorted@.len(),
            forall|k: int| 0 <= k < keys@.len() ==> #[trigger] keys@[k]@ == sorted@[k].0@,
            sorted_by(entries_view(sorted@), le),
            entries_view(sorted@).to_multiset() == entries_view(items@.take(i as int)).to_multiset(),
            le == (|a: (Seq<char>, bool), b: (Seq<char>, bool)| entry_le(a, b)),
        decreases items@.len() - i,
    {
        let name = items[i].0.clone();
        let is_dir = items[i].1;
        let key = chars_of(name.as_str());
        let ghost e = (name@, is_dir);
        // the first position whose entry comes strictly after `e`
        let mut j: usize = 0;
        while j < sorted.len()
            invariant
                j <= sorted@.len(),
                keys@.len() == sorted@.len(),
                forall|k: int| 0 <= k < keys@.len() ==> #[trigger] keys@[k]@ == sorted@[k].0@,
                forall|k: int| 0 <= k < j ==> entry_le(#[trigger] entries_view(sorted@)[k], e),
                key@ == e.0,
                is_dir == e.1,
            ensures
                j <= sorted@.len(),
                forall|k: int| 0 <= k < j ==> entry_le(#[trigger] entries_view(sorted@)[k], e),
                j < sorted@.len() ==> !entry_le(entries_view(sorted@)[j as int], e),
            decreases sorted@.len() - j,
        {
            let d = sorted[j].1;
            let before = if d && !is_dir {
                true
            } else if !d && is_dir {
                false
            } else {
                names_le(&keys[j], &key)
            };
            if !before {
                break;
            }
            j = j + 1;
        }
        let ghost old_sorted = entries_view(sorted@);
        proof {
            if j < sorted@.len() {
                assert(!entry_le(old_sorted[j as int], e));
                lemma_entry_le_total(old_sorted[j as int], e);
            }
            assert forall|k: int| j <= k < old_sorted.len() implies entry_le(e, #[trigger] old_sorted[k]) by {
                lemma_entry_le_total(old_sorted[j as int], e);
                if k > j {
                    assert(le(old_sorted[j as int], old_sorted[k]));
                    lemma_entry_le_trans(e, old_sorted[j as int], old_sorted[k]);
                }
            }
        }
        sorted.insert(j, (name, is_dir));
        keys.insert(j, key);
        proof {
            let ns = entries_view(sorted@);
            assert(ns =~= old_sorted.insert(j as int, e));
            assert forall|a: int, b: int| 0 <= a < b < ns.len() implies #[trigger] le(ns[a], ns[b]) by {
                if a < j && b == j {
                } else if a == j && b > j {
                } else if a < j && b > j {
                    lemma_entry_le_trans(ns[a], e, ns[b]);
                } else {
                }
            }
            assert(items@.take(i + 1) =~= items@.take(i as int).push(items@[i as int]));
            assert(entries_view(items@.take(i + 1)) =~= entries_view(items@.take(i as int)).push(e));
            vstd::seq_lib::to_multiset_build(entries_view(items@.take(i as int)), e);
            vstd::seq_lib::to_multiset_insert(old_sorted, j as int, e);
        }
        i = i + 1;
    }
    proof {
        assert(items@.take(items@.len() as int) =~= items@);
    }
    let dots = "..".to_owned();
    proof {
        reveal_strlit("..");
    }
    let ghost tail = entries_view(sorted@);
    sorted.insert(0, (dots, true));
    proof {
        assert(entries_view(sorted@).drop_first() =~= tail);
        vstd::seq_lib::to_multiset_len(tail);
        vstd::seq_lib::to_multiset_len(entries_view(items@));
        assert(entries_view(sorted@)[0] == (parent_name(), true));
        assert(sorted_by(tail, |a: (Seq<char>, bool), b: (Seq<char>, bool)| entry_le(a, b)));
    }
    sorted
}

/// The entry a click on `row` selects in a picker drawn in `area`: the row
/// below the top border, at most the last entry.
pub open spec fn clicked_entry(area: Rect, row: u16, len: nat) -> nat {
    let top: int = area.y + 1;
    let inner: nat = if row > top { (row - top) as nat } else { 0 };
    let last: nat = if len > 0 { (len - 1) as nat } else { 0 };
    if inner < last { inner } else { last }
}

impl FilePicker {
    /// The selection stays on an entry (or at 0 for none).
    pub open spec fn wf(&self) -> bool {
        self.selection == 0 || self.selection < self.items@.len()
    }

    /// A picker opened on `root`, showing the given entries of it (see
    /// [`listing`]), unfocused, with `..` selected.
    pub fn new(root: &str, entries: Vec<(String, bool)>) -> (p: FilePicker)
        ensures
            p.root@ == root@,
            p.current_dir@ == root@,
            is_listing_of(entries_view(p.items@), entries_view(entries@)),
            p.selection == 0,
            !p.focused,
            p.wf(),
    {
        FilePicker {
            root: root.to_owned(),
            items: listing(entries),
            selection: 0,
            focused: false,
            current_dir: root.to_owned(),
        }
    }

    /// Shows another directory: its name as displayed and its entries (see
    /// [`listing`]), with `..` selected.
    pub fn load(&mut self, dir: &str, entries: Vec<(String, bool)>)
        ensures
            final(self).current_dir@ == dir@,
            is_listing_of(entries_view(final(self).items@), entries_view(entries@)),
            final(self).selection == 0,
            final(self).focused == old(self).focused,
            final(self).root == old(self).root,
            final(self).wf(),
    {
        self.current_dir = dir.to_owned();
        self.items = listing(entries);
        self.selection = 0;
    }

    /// Gives the picker the focus.
    pub fn focus(&mut self)
        ensures
            *final(self) == (FilePicker { focused: true, ..*old(self) }),
    {
        self.focused = true;
    }

    /// Takes the focus away.
    pub fn blur(&mut self)
        ensures
            *final(self) == (FilePicker { focused: false, ..*old(self) }),
    {
        self.focused = false;
    }

    /// Handles a key while focused on a non-empty listing: Up, Down, Home
    /// and End move the selection; Enter and Right on a directory open it
    /// (`..` goes to the parent); Left leaves for the parent directory.
    pub fn on_key(&mut self, code: KeyCode) -> (act: FilePickerAction)
        requires
            old(self).wf(),
        ensures
            final(self).wf(),
            final(self).items == old(self).items,
            final(self).focused == old(self).focused,
            final(self).root == old(self).root,
            final(self).current_dir == old(self).current_dir,
            ({
                let len = old(self).items@.len();
                let sel = old(self).selection as nat;
                let active = old(self).focused && len > 0;
                if !active {
                    final(self).selection == old(self).selection && act is Stay
                } else {
                    match code {
                        KeyCode::Up | KeyCode::Down | KeyCode::Home | KeyCode::End => {
                            &&& final(self).selection == crate::components::list::navigated(sel, len, code)
                            &&& act is Stay
                        },
                        KeyCode::Enter | KeyCode::Right => {
                            &&& final(self).selection == old(self).selection
                            &&& if old(self).items@[sel as int].1 {
                                if old(self).items@[sel as int].0@ == parent_name() {
                                    act is Parent
                                } else {
                                    act matches FilePickerAction::Open(n) && n@ == old(self).items@[sel as int].0@
                                }
                            } else {
                                act is Stay
                            }
                        },
                        KeyCode::Left => final(self).selection == old(self).selection && act is LeaveToParent,
                        _ => final(self).selection == old(self).selection && act is Stay,
                    }
                }
            }),
    {
        if !self.focused {
            return FilePickerAction::Stay;
        }
        let len = self.items.len();
        if len == 0 {
            return FilePickerAction::Stay;
        }
        let sel = self.selection;
        match code {
            KeyCode::Up => {
                self.selection = sel.saturating_sub(1);
            },
            KeyCode::Down => {
                self.selection = if sel + 1 < len {
                    sel + 1
                } else {
                    len - 1
                };
            },
            KeyCode::Home => {
                self.selection = 0;
            },
            KeyCode::End => {
                self.selection = len - 1;
            },
            KeyCode::Enter | KeyCode::Right => {
                let is_dir = self.items[sel].1;
                if is_dir {
                    let name = chars_of(self.items[sel].0.as_str());
                    proof {
                        reveal_strlit("..");
                    }
                    if name.len() == 2 && name[0] == '.' && name[1] == '.' {
                        assert(name@ =~= parent_name());
                        return FilePickerAction::Parent;
                    }
                    return FilePickerAction::Open(self.items[sel].0.clone());
                }
                return FilePickerAction::Stay;
            },
            KeyCode::Left => {
                return FilePickerAction::LeaveToParent;
            },
            _ => {
                return FilePickerAction::Stay;
            },
        }
        FilePickerAction::Stay
    }

    /// Handles a mouse event over the picker's `area`: a press inside focuses
    /// it and selects the clicked entry, a press outside blurs it, and the
    /// wheel focuses it and moves the selection.
    pub fn on_mouse(&mut self, area: Rect, ev: &MouseEvent)
        requires
            old(self).wf(),
        ensures
            final(self).wf(),
            final(self).items == old(self).items,
            final(self).root == old(self).root,
            final(self).current_dir == old(self).current_dir,
            ({
                let len = old(self).items@.len();
                let sel = old(self).selection as nat;
                let last: nat = if len > 0 { (len - 1) as nat } else { 0 };
                match ev.kind {
                    MouseEventKind::Down(_) => if area.spec_contains(ev.column, ev.row) {
                        final(self).focused && final(self).selection == clicked_entry(area, ev.row, len)
                    } else {
                        !final(self).focused && final(self).selection == old(self).selection
                    },
                    MouseEventKind::ScrollUp => final(self).focused && final(self).selection == if sel > 0 {
                        (sel - 1) as nat
                    } else {
                        0
                    },
                    MouseEventKind::ScrollDown => final(self).focused && final(self).selection == if sel + 1
                        < last {
                        sel + 1
                    } else {
                        last
                    },
                    _ => *final(self) == *old(self),
                }
            }),
    {
        match ev.kind {
            MouseEventKind::Down(_) => {
                if area.contains(ev.column, ev.row) {
                    self.focus();
                    let inner_y = ev.row.saturating_sub(area.top() + 1);
                    let last = self.items.len().saturating_sub(1);
                    self.selection = if (inner_y as usize) < last {
                        inner_y as usize
                    } else {
                        last
                    };
                } else {
                    self.blur();
                }
            },
            MouseEventKind::ScrollUp => {
                self.focus();
                self.selection = self.selection.saturating_sub(1);
            },
            MouseEventKind::ScrollDown => {
                self.focus();
                let last = self.items.len().saturating_sub(1);
                self.selection = if self.selection < last {
                    self.selection + 1
                } else {
                    last
                };
            },
            _ => {},
        }
    }

    /// The name of the selected entry, if the selection is on one.
    pub fn selected_name(&self) -> (n: Option<String>)
        ensures
            match n {
                Some(s) => self.selection < self.items@.len() && s@ == self.items@[self.selection as int].0@,
                None => self.selection >= self.items@.len(),
            },
    {
        if self.selection < self.items.len() {
            Some(self.items[self.selection].0.clone())
        } else {
            None
        }
    }

    /// The title drawn on the border: the current directory between spaces.
    pub fn title(&self) -> (t: String)
        ensures
            t@ == seq![' '] + self.current_dir@ + seq![' '],
    {
        proof {
            reveal_strlit(" ");
        }
        let head = concat(" ", self.current_dir.as_str());
        concat(head.as_str(), " ")
    }

    /// The text of each row and whether it is highlighted (see
    /// [`picker_line`]).
    pub fn lines(&self) -> (out: Vec<(String, bool)>)
        ensures
            out@.len() == self.items@.len(),
            forall|i: int|
                0 <= i < out@.len() ==> (#[trigger] out@[i].0@, out@[i].1) == picker_line(
                    self.selection,
                    self.focused,
                    i,
                    self.items@[i],
                ),
    {
        let mut out: Vec<(String, bool)> = Vec::new();
        let mut i: usize = 0;
        proof {
            reveal_strlit(" ");
        }
        while i < self.items.len()
            invariant
                i <= self.items@.len(),
                out@.len() == i,
                " "@ == seq![' '],
                forall|k: int|
                    0 <= k < i ==> (#[trigger] out@[k].0@, out@[k].1) == picker_line(
                        self.selection,
                        self.focused,
                        k,
                        self.items@[k],
                    ),
            decreases self.items@.len() - i,
        {
            let glyph = if i == self.selection {
                "▸"
            } else {
                " "
            };
            let icon = if self.items[i].1 {
                "📁"
            } else {
                "📄"
            };
            let a = concat(glyph, " ");
            let b = concat(a.as_str(), icon);
            let c = concat(b.as_str(), " ");
            let d = concat(c.as_str(), self.items[i].0.as_str());
            out.push((d, i == self.selection && self.focused));
            i = i + 1;
        }
        out
    }
}

/// A picker row: a marker on the selected row, a folder or page icon and the
/// name, highlighted where the row is selected and the picker has the focus.
pub open spec fn picker_line(sel: usize, focused: bool, k: int, item: (String, bool)) -> (Seq<char>, bool) {
    (
        (if k == sel { "▸"@ } else { " "@ }) + seq![' '] + (if item.1 { "📁"@ } else { "📄"@ }) + seq![' ']
            + item.0@,
        k == sel && focused,
    )
}

} // verus!

//! A data table with a header, keyboard navigation and scrolling that keeps
//! the selected row in view.

use vstd::prelude::*;
use crate::tui::{Alignment, KeyCode, MouseEvent, MouseEventKind, Rect};

verus! {

/// How wide a column is drawn.
#[derive(Debug, Clone, Copy, PartialEq, Eq, Structural)]
pub enum ColumnWidth {
    /// Exactly this many columns, where they fit.
    Length(u16),
    /// The rest of the row (at least one column).
    Fill(u16),
    /// This many columns, where they fit.
    Min(u16),
}

/// A column: its header, width, alignment and whether it can be sorted.
pub struct Column {
    pub label: String,
    pub width: ColumnWidth,
    pub align: Alignment,
    pub sortable: bool,
}

impl Column {
    /// A left-aligned column ten cells wide.
    pub fn new(label: &str) -> (c: Column)
        ensures
            c.label@ == label@,
            c.width == ColumnWidth::Length(10),
            c.align == Alignment::Left,
            !c.sortable,
    {
        Column { label: label.to_owned(), width: ColumnWidth::Length(10), align: Alignment::Left, sortable: false }
    }

    /// This column `w` cells wide.
    pub fn width(self, w: u16) -> (c: Column)
        ensures
            c.label == self.label,
            c.width == ColumnWidth::Length(w),
            c.align == self.align,
            c.sortable == self.sortable,
    {
        Column { width: ColumnWidth::Length(w), ..self }
    }

    /// This column filling the rest of the row.
    pub fn flex(self) -> (c: Column)
        ensures
            c.label == self.label,
            c.width == ColumnWidth::Fill(1),
            c.align == self.align,
            c.sortable == self.sortable,
    {
        Column { width: ColumnWidth::Fill(1), ..self }
    }

    /// This column at least `w` cells wide.
    pub fn min_width(self, w: u16) -> (c: Column)
        ensures
            c.label == self.label,
            c.width == ColumnWidth::Min(w),
            c.align == self.align,
            c.sortable == self.sortable,
    {
        Column { width: ColumnWidth::Min(w), ..self }
    }

    /// This column right-aligned.
    pub fn right(self) -> (c: Column)
        ensures
            c.label == self.label,
            c.width == self.width,
            c.align == Alignment::Right,
            c.sortable == self.sortable,
    {
        Column { align: Alignment::Right, ..self }
    }

    /// This column centred.
    pub fn center(self) -> (c: Column)
        ensures
            c.label == self.label,
            c.width == self.width,
            c.align == Alignment::Center,
            c.sortable == self.sortable,
    {
        Column { align: Alignment::Center, ..self }
    }

    /// This column sortable.
    pub fn sortable(self) -> (c: Column)
        ensures
            c.label == self.label,
            c.width == self.width,
            c.align == self.align,
            c.sortable,
    {
        Column { sortable: true, ..self }
    }
}

/// The width a column gets when drawn from column `used`: a length or
/// minimum at most what is left of `total` counted from `used`, a fill all
/// that is left up to `right` (at least one).
pub open spec fn spec_resolve_width(c: ColumnWidth, total: u16, used: u16, right: u16) -> u16 {
    match c {
        ColumnWidth::Length(v) => if total > used && v > total - used { (total - used) as u16 } else if total > used {
            v
        } else {
            0
        },
        ColumnWidth::Fill(_) => if right > used + 1 { (right - used) as u16 } else { 1 },
        ColumnWidth::Min(v) => if total > used && v > total - used { (total - used) as u16 } else if total > used {
            v
        } else {
            0
        },
    }
}

/// The width a column gets (see [`spec_resolve_width`]).
pub fn resolve_width(c: ColumnWidth, total: u16, used: u16, right: u16) -> (w: u16)
    ensures
        w == spec_resolve_width(c, total, used, right),
{
    match c {
        ColumnWidth::Length(v) => {
            let room = total.saturating_sub(used);
            if v < room {
                v
            } else {
                room
            }
        },
        ColumnWidth::Fill(_) => {
            let room = right.saturating_sub(used);
            if room > 1 {
                room
            } else {
                1
            }
        },
        ColumnWidth::Min(v) => {
            let room = total.saturating_sub(used);
            if v < room {
                v
            } else {
                room
            }
        },
    }
}

/// The columns from `i` on, placed left to right from `x` with a gutter of
/// one after each: each drawn column's index, left edge and width (columns
/// of no width are skipped).
pub open spec fn col_walk(cols: Seq<ColumnWidth>, inner: Rect, i: int, x: nat) -> Seq<(int, nat, nat)>
    decreases cols.len() - i,
{
    if i < 0 || i >= cols.len() {
        seq![]
    } else {
        let w = spec_resolve_width(cols[i], inner.width, x as u16, inner.spec_right()) as nat;
        if w == 0 {
            col_walk(cols, inner, i + 1, x)
        } else {
            seq![(i, x, w)] + col_walk(cols, inner, i + 1, x + w + 1)
        }
    }
}

/// The walk stays within the terminal's columns.
pub open spec fn col_walk_fits(cols: Seq<ColumnWidth>, inner: Rect, i: int, x: nat) -> bool
    decreases cols.len() - i,
{
    if i < 0 || i >= cols.len() {
        x <= u16::MAX
    } else {
        let w = spec_resolve_width(cols[i], inner.width, x as u16, inner.spec_right()) as nat;
        x <= u16::MAX && if w == 0 {
            col_walk_fits(cols, inner, i + 1, x)
        } else {
            x + w + 1 <= u16::MAX && col_walk_fits(cols, inner, i + 1, x + w + 1)
        }
    }
}

/// A table: its columns, rows, the selected row, the first row shown and
/// focus.
pub struct Table {
    pub columns: Vec<Column>,
    pub rows: Vec<Vec<String>>,
    pub selection: usize,
    pub scroll: usize,
    pub focused: bool,
}

/// The selection after a navigation key in a table of `n > 0` rows.
pub open spec fn table_nav(sel: nat, n: nat, code: KeyCode) -> nat {
    match code {
        KeyCode::Up => if sel > 0 { (sel - 1) as nat } else { 0 },
        KeyCode::Down => if sel + 1 < n { sel + 1 } else { (n - 1) as nat },
        KeyCode::Home => 0,
        KeyCode::End => (n - 1) as nat,
        KeyCode::PageUp => if sel > 10 { (sel - 10) as nat } else { 0 },
        KeyCode::PageDown => if sel + 10 < n { sel + 10 } else { (n - 1) as nat },
        _ => sel,
    }
}

/// The first row shown once the selection is `sel`: unchanged where `sel`
/// is among the ten rows shown, else moved just enough to show it.
pub open spec fn scrolled_to(scroll: nat, sel: nat) -> nat {
    if sel < scroll {
        sel
    } else if sel >= scroll + 10 {
        (sel - 9) as nat
    } else {
        scroll
    }
}

/// Where the table's header labels and rows are drawn.
pub struct TableLayout {
    /// Each drawn header label: its place, text and alignment.
    pub header: Vec<(Rect, String, Alignment)>,
    /// Each row shown, from the top.
    pub rows: Vec<TableRowLayout>,
}

/// Where one row's cells are drawn.
pub struct TableRowLayout {
    /// The row's index in the table.
    pub index: usize,
    /// Whether the row is highlighted.
    pub highlighted: bool,
    /// Each drawn cell: its place, text and alignment.
    pub cells: Vec<(Rect, String, Alignment)>,
}

/// Whether `out` holds, for each step of the column walk, the rectangle at
/// row `y`, the text of that column and its alignment.
pub open spec fn placed_cells(
    out: Seq<(Rect, String, Alignment)>,
    walk: Seq<(int, nat, nat)>,
    y: u16,
    texts: Seq<String>,
    cols: Seq<Column>,
) -> bool {
    &&& out.len() == walk.len()
    &&& forall|k: int|
        0 <= k < walk.len() ==> {
            let (c, x, w) = walk[k];
            &&& (#[trigger] out[k]).0 == (Rect { x: x as u16, y, width: w as u16, height: 1 })
            &&& out[k].1@ == texts[c]@
            &&& out[k].2 == cols[c].align
        }
}

/// Number of rows shown from `scroll`: as many as are left and as fit
/// between `y` and `bottom`.
pub open spec fn rows_shown(n: nat, scroll: nat, y: nat, bottom: nat) -> nat {
    let left: nat = if n > scroll { (n - scroll) as nat } else { 0 };
    let room: nat = if bottom > y { (bottom - y) as nat } else { 0 };
    if left < room { left } else { room }
}

/// The inside of a table drawn in `area`: within the border, below the
/// header row.
pub open spec fn table_inner(area: Rect) -> Rect {
    Rect {
        x: (area.x + 1) as u16,
        y: (area.y + 1) as u16,
        width: if area.width > 2 { (area.width - 2) as u16 } else { 0 },
        height: if area.height > 3 { (area.height - 3) as u16 } else { 0 },
    }
}

/// The widths of the columns.
pub open spec fn widths_of(cols: Seq<Column>) -> Seq<ColumnWidth> {
    cols.map_values(|c: Column| c.width)
}

impl Table {
    /// The selection is on a row (or 0 for none) and the first row shown is
    /// at most the number of rows.
    pub open spec fn wf(&self) -> bool {
        &&& self.selection == 0 || self.selection < self.rows@.len()
        &&& self.scroll <= self.rows@.len()
    }

    /// An empty, unfocused table of `columns`.
    pub fn new(columns: Vec<Column>) -> (t: Table)
        ensures
            t.columns@ == columns@,
            t.rows@.len() == 0,
            t.selection == 0,
            t.scroll == 0,
            !t.focused,
            t.wf(),
    {
        Table { columns, rows: Vec::new(), selection: 0, scroll: 0, focused: false }
    }

    /// This table with one more row at the bottom.
    pub fn row(self, cells: Vec<String>) -> (t: Table)
        requires
            self.wf(),
        ensures
            t.rows@ == self.rows@.push(cells),
            t.columns == self.columns,
            t.selection == self.selection,
            t.scroll == self.scroll,
            t.focused == self.focused,
            t.wf(),
    {
        let mut me = self;
        me.rows.push(cells);
        me
    }

    /// Gives the table the focus.
    pub fn focus(&mut self)
        ensures
            *final(self) == (Table { focused: true, ..*old(self) }),
    {
        self.focused = true;
    }

    /// Takes the focus away.
    pub fn blur(&mut self)
        ensures
            *final(self) == (Table { focused: false, ..*old(self) }),
    {
        self.focused = false;
    }

    /// Handles a key while focused on a table with rows: the arrows, Home,
    /// End and the page keys move the selection, and the rows shown scroll
    /// to keep it in view.
    pub fn on_key(&mut self, code: KeyCode)
        requires
            old(self).wf(),
        ensures
            final(self).wf(),
            final(self).columns == old(self).columns,
            final(self).rows == old(self).rows,
            final(self).focused == old(self).focused,
            old(self).focused && old(self).rows@.len() > 0 ==> {
                let sel = table_nav(old(self).selection as nat, old(self).rows@.len(), code);
                &&& final(self).selection == sel
                &&& final(self).scroll == scrolled_to(old(self).scroll as nat, sel)
            },
            !(old(self).focused && old(self).rows@.len() > 0) ==> *final(self) == *old(self),
    {
        if !self.focused {
            return;
        }
        let n = self.rows.len();
        if n == 0 {
            return;
        }
        let sel = self.selection;
        let last = n - 1;
        let sel = match code {
            KeyCode::Up => sel.saturating_sub(1),
            KeyCode::Down => if sel < last {
                sel + 1
            } else {
                last
            },
            KeyCode::Home => 0,
            KeyCode::End => last,
            KeyCode::PageUp => sel.saturating_sub(10),
            KeyCode::PageDown => if last - sel > 10 {
                sel + 10
            } else {
                last
            },
            _ => sel,
        };
        self.selection = sel;
        let scroll = self.scroll;
        if sel < scroll {
            self.scroll = sel;
        } else if sel - scroll >= 10 {
            self.scroll = sel - 9;
        }
    }

    /// Handles a mouse event over the table's `area`: a press inside focuses
    /// it and selects the clicked row where there is one, a press outside
    /// blurs it, and the wheel scrolls.
    pub fn on_mouse(&mut self, area: Rect, ev: &MouseEvent)
        requires
            old(self).wf(),
            ev.kind is Down && area.spec_contains(ev.column, ev.row) ==> area.y + 2 <= u16::MAX,
        ensures
            final(self).wf(),
            final(self).columns == old(self).columns,
            final(self).rows == old(self).rows,
            match ev.kind {
                MouseEventKind::Down(_) => if area.spec_contains(ev.column, ev.row) {
                    let idx: nat = if ev.row > area.y + 2 { (ev.row - area.y - 2) as nat } else { 0 };
                    let s = old(self).scroll + idx;
                    &&& final(self).focused
                    &&& final(self).scroll == old(self).scroll
                    &&& final(self).selection == if s < old(self).rows@.len() {
                        s
                    } else {
                        old(self).selection as int
                    }
                } else {
                    *final(self) == (Table { focused: false, ..*old(self) })
                },
                MouseEventKind::ScrollUp => *final(self) == (Table {
                    scroll: if old(self).scroll > 0 { (old(self).scroll - 1) as usize } else { 0 },
                    ..*old(self)
                }),
                MouseEventKind::ScrollDown => {
                    let n = old(self).rows@.len();
                    let top: nat = if n > 10 { (n - 10) as nat } else { 0 };
                    *final(self) == (Table {
                        scroll: if old(self).scroll + 1 < top { (old(self).scroll + 1) as usize } else { top as usize },
                        ..*old(self)
                    })
                },
                _ => *final(self) == *old(self),
            },
    {
        match ev.kind {
            MouseEventKind::Down(_) => {
                if area.contains(ev.column, ev.row) {
                    self.focus();
                    let inner_y = ev.row.saturating_sub(area.top() + 2);
                    let n = self.rows.len();
                    if (inner_y as usize) < n - self.scroll {
                        self.selection = self.scroll + inner_y as usize;
                    }
                } else {
                    self.blur();
                }
            },
            MouseEventKind::ScrollUp => {
                self.scroll = self.scroll.saturating_sub(1);
            },
            MouseEventKind::ScrollDown => {
                let top = self.rows.len().saturating_sub(10);
                self.scroll = if self.scroll < top {
                    self.scroll + 1
                } else {
                    top
                };
            },
            _ => {},
        }
    }

    fn place_cells(&self, inner: Rect, y: u16, texts: &Vec<String>, count: usize) -> (out: Vec<(Rect, String, Alignment)>)
        requires
            count <= self.columns@.len(),
            count <= texts@.len(),
            col_walk_fits(widths_of(self.columns@).take(count as int), inner, 0, inner.x as nat),
        ensures
            placed_cells(
                out@,
                col_walk(widths_of(self.columns@).take(count as int), inner, 0, inner.x as nat),
                y,
                texts@,
                self.columns@,
            ),
    {
        let ghost widths = widths_of(self.columns@).take(count as int);
        let ghost walk = col_walk(widths, inner, 0, inner.x as nat);
        let right = inner.right();
        let mut out: Vec<(Rect, String, Alignment)> = Vec::new();
        let mut x: u16 = inner.x;
        let mut i: usize = 0;
        while i < count
            invariant
                i <= count,
                count <= self.columns@.len(),
                count <= texts@.len(),
                widths == widths_of(self.columns@).take(count as int),
                right == inner.spec_right(),
                col_walk_fits(widths, inner, i as int, x as nat),
                walk == col_walk(widths, inner, 0, inner.x as nat),
                out@.len() <= walk.len(),
                walk.subrange(0, out@.len() as int) + col_walk(widths, inner, i as int, x as nat) == walk,
                forall|k: int|
                    0 <= k < out@.len() ==> {
                        let (c, hx, w) = walk[k];
                        &&& (#[trigger] out@[k]).0 == (Rect { x: hx as u16, y, width: w as u16, height: 1 })
                        &&& out@[k].1@ == texts@[c]@
                        &&& out@[k].2 == self.columns@[c].align
                    },
            decreases count - i,
        {
            let col = &self.columns[i];
            let w = resolve_width(col.width, inner.width, x, right);
            let ghost rest = col_walk(widths, inner, i as int, x as nat);
            proof {
                assert(widths[i as int] == col.width);
            }
            if w != 0 {
                let ghost k = out@.len();
                out.push((Rect { x, y, width: w, height: 1 }, texts[i].clone(), col.align));
                proof {
                    assert(rest == seq![(i as int, x as nat, w as nat)] + col_walk(widths, inner, i + 1, (x + w + 1) as nat));
                    assert(walk.subrange(0, k + 1int) =~= walk.subrange(0, k as int).push((i as int, x as nat, w as nat)));
                    assert(walk.subrange(0, out@.len() as int) + col_walk(widths, inner, i + 1, (x + w + 1) as nat) =~= walk);
                }
                x = x + w + 1;
            } else {
                proof {
                    assert(rest == col_walk(widths, inner, i + 1, x as nat));
                }
            }
            i = i + 1;
        }
        proof {
            assert(col_walk(widths, inner, i as int, x as nat) =~= seq![]);
            assert(walk.subrange(0, out@.len() as int) =~= walk);
        }
        out
    }

    /// Whether [`Table::layout`] can place this table's columns in `area`
    /// without passing the terminal's last column (see [`col_walk_fits`]).
    pub fn layout_fits(&self, area: Rect) -> (b: bool)
        ensures
            b == (area.x + 1 <= u16::MAX && area.y + 1 <= u16::MAX && col_walk_fits(
                widths_of(self.columns@),
                table_inner(area),
                0,
                (area.x + 1) as nat,
            )),
    {
        if area.x == u16::MAX || area.y == u16::MAX {
            return false;
        }
        let inner = Rect {
            x: area.x + 1,
            y: area.y + 1,
            width: area.width.saturating_sub(2),
            height: area.height.saturating_sub(3),
        };
        assert(inner == table_inner(area));
        let ghost widths = widths_of(self.columns@);
        let right = inner.right();
        let n = self.columns.len();
        let mut x: u16 = inner.x;
        let mut i: usize = 0;
        while i < n
            invariant
                n == self.columns@.len(),
                widths == widths_of(self.columns@),
                inner == table_inner(area),
                right == inner.spec_right(),
                i <= n,
                col_walk_fits(widths, inner, 0, inner.x as nat) == col_walk_fits(widths, inner, i as int, x as nat),
            decreases n - i,
        {
            let w = resolve_width(self.columns[i].width, inner.width, x, right);
            proof {
                assert(widths[i as int] == self.columns@[i as int].width);
            }
            if w != 0 {
                if x as u32 + w as u32 + 1 > 65535 {
                    return false;
                }
                x = x + w + 1;
            }
            i = i + 1;
        }
        true
    }

    /// Where the header and the rows are drawn in `area` (see [`col_walk`]):
    /// the header labels on the row above the inside, then from the first row
    /// shown one line per row, as many as fit, each with the cells it has
    /// columns for; the selected row is highlighted while the table has the
    /// focus.
    pub fn layout(&self, area: Rect) -> (l: TableLayout)
        requires
            self.wf(),
            area.x + 1 <= u16::MAX,
            area.y + 1 <= u16::MAX,
            col_walk_fits(widths_of(self.columns@), table_inner(area), 0, (area.x + 1) as nat),
        ensures
            ({
                let inner = table_inner(area);
                let widths = widths_of(self.columns@);
                let labels = self.columns@.map_values(|c: Column| c.label);
                let n = rows_shown(self.rows@.len(), self.scroll as nat, inner.y as nat, inner.spec_bottom() as nat);
                &&& placed_cells(l.header@, col_walk(widths, inner, 0, inner.x as nat), area.y, labels, self.columns@)
                &&& l.rows@.len() == n
                &&& forall|r: int|
                    0 <= r < n ==> {
                        let idx = self.scroll + r;
                        let cells = self.rows@[idx];
                        let m: int = if cells@.len() < widths.len() { cells@.len() as int } else { widths.len() as int };
                        &&& (#[trigger] l.rows@[r]).index == idx
                        &&& l.rows@[r].highlighted == (idx == self.selection && self.focused)
                        &&& placed_cells(
                            l.rows@[r].cells@,
                            col_walk(widths.take(m), inner, 0, inner.x as nat),
                            (inner.y + r) as u16,
                            cells@,
                            self.columns@,
                        )
                    }
            }),
    {
        let inner = Rect {
            x: area.x + 1,
            y: area.y + 1,
            width: area.width.saturating_sub(2),
            height: area.height.saturating_sub(3),
        };
        let ghost widths = widths_of(self.columns@);
        let ncols = self.columns.len();
        let mut labels: Vec<String> = Vec::new();
        let mut c: usize = 0;
        while c < ncols
            invariant
                c <= ncols,
                ncols == self.columns@.len(),
                labels@.len() == c,
                forall|k: int| 0 <= k < c ==> (#[trigger] labels@[k])@ == self.columns@[k].label@,
            decreases ncols - c,
        {
            labels.push(self.columns[c].label.clone());
            c = c + 1;
        }
        proof {
            assert(widths.take(ncols as int) =~= widths);
        }
        let header = self.place_cells(inner, area.y, &labels, ncols);
        proof {
            let ls = self.columns@.map_values(|c: Column| c.label);
            let walk = col_walk(widths, inner, 0, inner.x as nat);
            assert forall|k: int| 0 <= k < walk.len() implies header@[k].1@ == ls[walk[k].0]@ by {
                lemma_walk_indices(widths, inner, 0, inner.x as nat, k);
            }
        }
        let bottom = inner.bottom();
        let n = self.rows.len();
        let mut rows: Vec<TableRowLayout> = Vec::new();
        let mut i: usize = self.scroll;
        let mut y: u16 = inner.y;
        while i < n
            invariant
                self.wf(),
                n == self.rows@.len(),
                ncols == self.columns@.len(),
                widths == widths_of(self.columns@),
                inner == table_inner(area),
                bottom == inner.spec_bottom(),
                col_walk_fits(widths, inner, 0, inner.x as nat),
                self.scroll <= i <= n,
                y == inner.y + (i - self.scroll),
                y <= bottom,
                rows@.len() == i - self.scroll,
                forall|r: int|
                    0 <= r < rows@.len() ==> {
                        let idx = self.scroll + r;
                        let cells = self.rows@[idx];
                        let m: int = if cells@.len() < widths.len() { cells@.len() as int } else { widths.len() as int };
                        &&& (#[trigger] rows@[r]).index == idx
                        &&& rows@[r].highlighted == (idx == self.selection && self.focused)
                        &&& placed_cells(
                            rows@[r].cells@,
                            col_walk(widths.take(m), inner, 0, inner.x as nat),
                            (inner.y + r) as u16,
                            cells@,
                            self.columns@,
                        )
                    },
            ensures
                rows@.len() == rows_shown(n as nat, self.scroll as nat, inner.y as nat, bottom as nat),
                forall|r: int|
                    0 <= r < rows@.len() ==> {
                        let idx = self.scroll + r;
                        let cells = self.rows@[idx];
                        let m: int = if cells@.len() < widths.len() { cells@.len() as int } else { widths.len() as int };
                        &&& (#[trigger] rows@[r]).index == idx
                        &&& rows@[r].highlighted == (idx == self.selection && self.focused)
                        &&& placed_cells(
                            rows@[r].cells@,
                            col_walk(widths.take(m), inner, 0, inner.x as nat),
                            (inner.y + r) as u16,
                            cells@,
                            self.columns@,
                        )
                    },
            decreases n - i,
        {
            if y >= bottom {
                break;
            }
            let cells = &self.rows[i];
            let m = if cells.len() < ncols {
                cells.len()
            } else {
                ncols
            };
            proof {
                lemma_walk_fits_prefix(widths, inner, 0, inner.x as nat, m as int);
            }
            let placed = self.place_cells(inner, y, cells, m);
            rows.push(TableRowLayout { index: i, highlighted: i == self.selection && self.focused, cells: placed });
            y = y + 1;
            i = i + 1;
        }
        TableLayout { header, rows }
    }
}

/// Every step of the column walk names a column that exists.
pub proof fn lemma_walk_indices(cols: Seq<ColumnWidth>, inner: Rect, i: int, x: nat, k: int)
    requires
        0 <= i,
        0 <= k < col_walk(cols, inner, i, x).len(),
    ensures
        i <= col_walk(cols, inner, i, x)[k].0 < cols.len(),
    decreases cols.len() - i,
{
    if i < cols.len() {
        let w = spec_resolve_width(cols[i], inner.width, x as u16, inner.spec_right()) as nat;
        if w == 0 {
            lemma_walk_indices(cols, inner, i + 1, x, k);
        } else if k > 0 {
            lemma_walk_indices(cols, inner, i + 1, x + w + 1, k - 1);
        }
    }
}

/// The walk over the first `m` columns fits where the walk over all does.
pub proof fn lemma_walk_fits_prefix(cols: Seq<ColumnWidth>, inner: Rect, i: int, x: nat, m: int)
    requires
        0 <= i,
        0 <= m <= cols.len(),
        col_walk_fits(cols, inner, i, x),
    ensures
        col_walk_fits(cols.take(m), inner, i, x),
    decreases cols.len() - i,
{
    if i < m {
        let w = spec_resolve_width(cols[i], inner.width, x as u16, inner.spec_right()) as nat;
        assert(cols.take(m)[i] == cols[i]);
        if w == 0 {
            lemma_walk_fits_prefix(cols, inner, i + 1, x, m);
        } else {
            lemma_walk_fits_prefix(cols, inner, i + 1, x + w + 1, m);
        }
    } else if i < cols.len() {
        lemma_walk_x_fits(cols, inner, i, x);
    }
}

proof fn lemma_walk_x_fits(cols: Seq<ColumnWidth>, inner: Rect, i: int, x: nat)
    requires
        col_walk_fits(cols, inner, i, x),
    ensures
        x <= u16::MAX,
{
}

/// After a key, the selected row is among the ten rows shown.
pub proof fn lemma_selection_stays_in_view(scroll: nat, sel: nat, n: nat, code: KeyCode)
    requires
        n > 0,
        sel < n,
    ensures
        ({
            let s = table_nav(sel, n, code);
            let top = scrolled_to(scroll, s);
            &&& s < n
            &&& top <= s < top + 10
        }),
{
}

} // verus!

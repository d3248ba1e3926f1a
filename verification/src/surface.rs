//! Off-screen surfaces: grids of styled cells that are composed in memory
//! (joined, placed, clipped, padded) before they reach the terminal.

use vstd::prelude::*;
use crate::text::{display_width, str_width, char_to_string, chars_of};
use crate::tui::{Style, patched, Line, Span, Rect};

verus! {

/// The abstract value of a [`Cell`]: its characters and its style.
pub struct CellView {
    pub symbol: Seq<char>,
    pub style: Style,
}

/// Columns a cell takes up when laid out: its display width, at least one.
pub open spec fn cols(c: CellView) -> nat {
    if display_width(c.symbol) == 0 { 1 } else { display_width(c.symbol) }
}

/// Columns a row of cells takes up when laid out.
pub open spec fn row_width(r: Seq<CellView>) -> nat
    decreases r.len(),
{
    if r.len() == 0 { 0 } else { row_width(r.drop_last()) + cols(r.last()) }
}

/// The larger of two naturals.
pub open spec fn max_nat(a: nat, b: nat) -> nat {
    if a >= b { a } else { b }
}

/// The widest row width of a grid (0 for no rows).
pub open spec fn grid_width(g: Seq<Seq<CellView>>) -> nat
    decreases g.len(),
{
    if g.len() == 0 { 0 } else { max_nat(grid_width(g.drop_last()), row_width(g.last())) }
}

/// The largest row length of a grid (0 for no rows).
pub open spec fn grid_columns(g: Seq<Seq<CellView>>) -> nat
    decreases g.len(),
{
    if g.len() == 0 { 0 } else { max_nat(grid_columns(g.drop_last()), g.last().len()) }
}

/// Every row of the grid is at most `usize::MAX` columns wide.
pub open spec fn rows_fit(g: Seq<Seq<CellView>>) -> bool {
    forall|i: int| 0 <= i < g.len() ==> #[trigger] row_width(g[i]) <= usize::MAX
}

/// A `width` x `height` grid of copies of `fill`.
pub open spec fn filled_grid(width: nat, height: nat, fill: CellView) -> Seq<Seq<CellView>> {
    Seq::new(height, |y: int| Seq::new(width, |x: int| fill))
}

/// `row` with `c` written at column `x`, where `x` is inside the row.
pub open spec fn put_in_row(row: Seq<CellView>, x: int, c: CellView) -> Seq<CellView> {
    if 0 <= x < row.len() { row.update(x, c) } else { row }
}

/// `g` with `c` written at (`x`, `y`), where that position exists.
pub open spec fn put_in_grid(g: Seq<Seq<CellView>>, x: int, y: int, c: CellView) -> Seq<Seq<CellView>> {
    if 0 <= y < g.len() { g.update(y, put_in_row(g[y], x, c)) } else { g }
}

/// The cells of `src` written one after the other into `row`, the first at
/// column `x`, each next one as many columns right as the one before takes
/// up; cells that fall outside the row are dropped.
pub open spec fn paint_row(row: Seq<CellView>, src: Seq<CellView>, x: int) -> Seq<CellView>
    decreases src.len(),
{
    if src.len() == 0 {
        row
    } else {
        paint_row(put_in_row(row, x, src[0]), src.drop_first(), x + cols(src[0]))
    }
}

/// `canvas` with the rows of `src` painted in from (`x`, `y`) on.
pub open spec fn paint(canvas: Seq<Seq<CellView>>, src: Seq<Seq<CellView>>, x: int, y: int) -> Seq<Seq<CellView>> {
    Seq::new(
        canvas.len(),
        |j: int|
            if y <= j < y + src.len() {
                paint_row(canvas[j], src[j - y], x)
            } else {
                canvas[j]
            },
    )
}

/// Mapping over a sequence with one more element appended.
pub proof fn lemma_map_push<A, B>(s: Seq<A>, a: A, f: spec_fn(A) -> B)
    ensures
        s.push(a).map_values(f) =~= s.map_values(f).push(f(a)),
{
    assert forall|j: int| 0 <= j < s.len() + 1 implies #[trigger] s.push(a).map_values(f)[j]
        == s.map_values(f).push(f(a))[j] by {
        if j < s.len() {
            assert(s.push(a)[j] == s[j]);
        }
    }
}

/// The lines of a text: the pieces between line feeds, a carriage return
/// right before a line feed dropped with it, and no empty last line after
/// a final line feed.
pub open spec fn lines_of(s: Seq<char>) -> Seq<Seq<char>> {
    lines_from(s, 0, 0)
}

/// A line without the one carriage return it may end with.
pub open spec fn strip_cr(l: Seq<char>) -> Seq<char> {
    if l.len() > 0 && l.last() == '\r' { l.drop_last() } else { l }
}

/// The lines of `s` from position `start` on, scanning from position `i`.
pub open spec fn lines_from(s: Seq<char>, start: int, i: int) -> Seq<Seq<char>>
    decreases s.len() - i,
{
    if i >= s.len() {
        if start < s.len() { seq![s.subrange(start, s.len() as int)] } else { seq![] }
    } else if s[i] == '\n' {
        seq![strip_cr(s.subrange(start, i))] + lines_from(s, i + 1, i + 1)
    } else {
        lines_from(s, start, i + 1)
    }
}

/// One cell per character of `l`, each in `style`.
pub open spec fn text_row(l: Seq<char>, style: Style) -> Seq<CellView> {
    Seq::new(l.len(), |i: int| CellView { symbol: seq![l[i]], style })
}

/// The cells of a line of spans: one per character, each in its span's style.
pub open spec fn spans_row(spans: Seq<Span>) -> Seq<CellView>
    decreases spans.len(),
{
    if spans.len() == 0 {
        seq![]
    } else {
        spans_row(spans.drop_last()) + text_row(spans.last().content@, spans.last().style)
    }
}

/// The characters of `s` from `a` up to (not including) `b`.
pub fn copy_range(s: &Vec<char>, a: usize, b: usize) -> (v: Vec<char>)
    requires
        a <= b <= s@.len(),
    ensures
        v@ == s@.subrange(a as int, b as int),
{
    let mut v: Vec<char> = Vec::new();
    let mut i: usize = a;
    while i < b
        invariant
            a <= i <= b,
            b <= s@.len(),
            v@ =~= s@.subrange(a as int, i as int),
        decreases b - i,
    {
        v.push(s[i]);
        i = i + 1;
    }
    v
}

/// The characters of each line.
pub open spec fn char_rows(v: Seq<Vec<char>>) -> Seq<Seq<char>> {
    v.map_values(|l: Vec<char>| l@)
}

/// Splits text into lines as [`lines_of`] describes.
pub fn split_lines(s: &Vec<char>) -> (out: Vec<Vec<char>>)
    ensures
        char_rows(out@) == lines_of(s@),
{
    let mut out: Vec<Vec<char>> = Vec::new();
    let mut start: usize = 0;
    let mut i: usize = 0;
    while i < s.len()
        invariant
            start <= i <= s@.len(),
            lines_of(s@) == char_rows(out@) + lines_from(s@, start as int, i as int),
        decreases s@.len() - i,
    {
        if s[i] == '\n' {
            let mut line = copy_range(s, start, i);
            if line.len() > 0 && line[line.len() - 1] == '\r' {
                line.pop();
            }
            assert(line@ == strip_cr(s@.subrange(start as int, i as int)));
            let ghost prev = out@;
            out.push(line);
            proof {
                lemma_map_push(prev, line, |l: Vec<char>| l@);
                assert(char_rows(out@) + lines_from(s@, i + 1, i + 1) =~= char_rows(prev)
                    + lines_from(s@, start as int, i as int));
            }
            start = i + 1;
        }
        i = i + 1;
    }
    if start < s.len() {
        let line = copy_range(s, start, s.len());
        let ghost prev = out@;
        out.push(line);
        proof {
            lemma_map_push(prev, line, |l: Vec<char>| l@);
            assert(char_rows(out@) =~= char_rows(prev) + lines_from(s@, start as int, i as int));
        }
    } else {
        assert(char_rows(out@) =~= char_rows(out@) + lines_from(s@, start as int, i as int));
    }
    out
}

/// One cell per character of `l`, each in `style`.
pub fn text_cells(l: &Vec<char>, style: Style) -> (r: Vec<Cell>)
    ensures
        row_view(r) == text_row(l@, style),
{
    let mut r: Vec<Cell> = Vec::new();
    let mut i: usize = 0;
    while i < l.len()
        invariant
            i <= l@.len(),
            r@.len() == i,
            row_view(r) =~= text_row(l@, style).take(i as int),
        decreases l@.len() - i,
    {
        let c = Cell::new(char_to_string(l[i]), style);
        let ghost prev = r@;
        r.push(c);
        proof {
            lemma_map_push(prev, c, |c: Cell| c@);
        }
        i = i + 1;
    }
    r
}

/// Mapping over a sequence with one element replaced.
pub proof fn lemma_map_update<A, B>(s: Seq<A>, i: int, a: A, f: spec_fn(A) -> B)
    requires
        0 <= i < s.len(),
    ensures
        s.update(i, a).map_values(f) =~= s.map_values(f).update(i, f(a)),
{
}

/// A cell filled with a background style: a cell without a background of its
/// own gets `style` applied on top of its style; a cell that has one is left
/// as it is.
pub open spec fn patch_cell(c: CellView, style: Style) -> CellView {
    if c.style.bg is None {
        CellView { symbol: c.symbol, style: patched(c.style, style) }
    } else {
        c
    }
}

/// Every cell of a grid filled with a background style (see
/// [`patch_cell`]).
pub open spec fn patch_grid(g: Seq<Seq<CellView>>, style: Style) -> Seq<Seq<CellView>> {
    Seq::new(g.len(), |y: int| Seq::new(g[y].len(), |x: int| patch_cell(g[y][x], style)))
}

/// A single cell of a [`Surface`]: a grapheme cluster and its style.
#[derive(Debug)]
pub struct Cell {
    /// The grapheme cluster drawn in this cell.
    pub symbol: String,
    /// Colours and modifiers of the cell.
    pub style: Style,
}

impl View for Cell {
    type V = CellView;

    open spec fn view(&self) -> CellView {
        CellView { symbol: self.symbol@, style: self.style }
    }
}

impl Clone for Cell {
    fn clone(&self) -> (c: Cell)
        ensures
            c@ == self@,
    {
        Cell { symbol: self.symbol.clone(), style: self.style }
    }
}

impl Cell {
    /// A cell with the given symbol and style.
    pub fn new(symbol: String, style: Style) -> (c: Cell)
        requires
            symbol@.len() > 0,
        ensures
            c@ == (CellView { symbol: symbol@, style }),
    {
        Cell { symbol, style }
    }

    /// A blank (space) cell with the given style.
    pub fn blank(style: Style) -> (c: Cell)
        ensures
            c@ == (CellView { symbol: seq![' '], style }),
    {
        Cell::new(char_to_string(' '), style)
    }

    /// Display width of the symbol in terminal columns.
    pub fn width(&self) -> (w: usize)
        ensures
            w as nat == display_width(self.symbol@),
    {
        str_width(self.symbol.as_str())
    }

    /// Columns this cell takes up in layout: its width, at least one.
    pub(crate) fn layout_cols(&self) -> (w: usize)
        ensures
            w as nat == cols(self@),
    {
        let w = self.width();
        if w == 0 { 1 } else { w }
    }
}

/// An off-screen grid of cells: rows top to bottom, cells left to right.
#[derive(Debug)]
pub struct Surface {
    pub rows: Vec<Vec<Cell>>,
}

/// The abstract cells of a row.
pub open spec fn row_view(r: Vec<Cell>) -> Seq<CellView> {
    r@.map_values(|c: Cell| c@)
}

impl View for Surface {
    type V = Seq<Seq<CellView>>;

    open spec fn view(&self) -> Seq<Seq<CellView>> {
        self.rows@.map_values(|r: Vec<Cell>| row_view(r))
    }
}

/// A copy of a row of cells.
pub fn clone_row(r: &Vec<Cell>) -> (out: Vec<Cell>)
    ensures
        row_view(out) == row_view(*r),
{
    let mut out: Vec<Cell> = Vec::new();
    let mut i: usize = 0;
    while i < r.len()
        invariant
            i <= r@.len(),
            out@.len() == i,
            row_view(out) =~= row_view(*r).take(i as int),
        decreases r@.len() - i,
    {
        let c = r[i].clone();
        assert(c@ == r@[i as int]@);
        let ghost cv = c@;
        out.push(c);
        assert(out@[i as int]@ == cv);
        assert(out@.len() == i + 1);
        assert(out@.map_values(|c: Cell| c@)[i as int] == cv);
        assert(row_view(out)[i as int] == cv);
        i = i + 1;
    }
    assert(row_view(*r).take(r@.len() as int) =~= row_view(*r));
    out
}

impl Clone for Surface {
    fn clone(&self) -> (s: Surface)
        ensures
            s@ == self@,
    {
        let mut rows: Vec<Vec<Cell>> = Vec::new();
        let mut i: usize = 0;
        while i < self.rows.len()
            invariant
                i <= self.rows@.len(),
                rows@.len() == i,
                (Surface { rows })@ =~= self@.take(i as int),
            decreases self.rows@.len() - i,
        {
            rows.push(clone_row(&self.rows[i]));
            i = i + 1;
        }
        let s = Surface { rows };
        assert(self@.take(self.rows@.len() as int) =~= self@);
        s
    }
}

/// A row of `n` copies of `fill`.
fn filled_row(n: usize, fill: &Cell) -> (r: Vec<Cell>)
    ensures
        row_view(r) == Seq::new(n as nat, |x: int| fill@),
{
    let mut r: Vec<Cell> = Vec::new();
    let mut i: usize = 0;
    while i < n
        invariant
            i <= n,
            r@.len() == i,
            row_view(r) =~= Seq::new(i as nat, |x: int| fill@),
        decreases n - i,
    {
        let c = fill.clone();
        let ghost prev = row_view(r);
        r.push(c);
        assert(r@[i as int]@ == fill@);
        assert forall|j: int| 0 <= j < i + 1 implies #[trigger] row_view(r)[j] == fill@ by {
            if j < i {
                assert(row_view(r)[j] == prev[j]);
            }
        }
        i = i + 1;
    }
    r
}

impl Surface {
    /// A `width` x `height` surface filled with copies of `fill`.
    pub fn new(width: usize, height: usize, fill: &Cell) -> (s: Surface)
        ensures
            s@ == filled_grid(width as nat, height as nat, fill@),
    {
        let mut rows: Vec<Vec<Cell>> = Vec::new();
        let mut i: usize = 0;
        while i < height
            invariant
                i <= height,
                rows@.len() == i,
                (Surface { rows })@ =~= filled_grid(width as nat, i as nat, fill@),
            decreases height - i,
        {
            let row = filled_row(width, fill);
            let ghost prev = rows@;
            rows.push(row);
            proof {
                lemma_map_push(prev, row, |r: Vec<Cell>| row_view(r));
            }
            i = i + 1;
        }
        Surface { rows }
    }

    /// Number of rows.
    pub fn height(&self) -> (h: usize)
        ensures
            h as nat == self@.len(),
    {
        self.rows.len()
    }

    /// Number of cells in the longest row (not its display width).
    pub fn columns(&self) -> (n: usize)
        ensures
            n as nat == grid_columns(self@),
    {
        let mut n: usize = 0;
        let mut i: usize = 0;
        while i < self.rows.len()
            invariant
                i <= self.rows@.len(),
                n as nat == grid_columns(self@.take(i as int)),
            decreases self.rows@.len() - i,
        {
            assert(self@.take(i + 1).drop_last() =~= self@.take(i as int));
            let len = self.rows[i].len();
            if len > n {
                n = len;
            }
            i = i + 1;
        }
        assert(self@.take(self.rows@.len() as int) =~= self@);
        n
    }

    /// Alias of [`Surface::columns`].
    pub fn cell_count_width(&self) -> (n: usize)
        ensures
            n as nat == grid_columns(self@),
    {
        self.columns()
    }

    /// The cell at column `x` of row `y`, to change in place, where it
    /// exists.
    pub fn cell_mut(&mut self, x: usize, y: usize) -> (r: Option<&mut Cell>)
        ensures
            match r {
                Some(c) => {
                    &&& y < old(self).rows@.len() && x < old(self).rows@[y as int]@.len()
                    &&& *c == old(self).rows@[y as int]@[x as int]
                    &&& final(self).rows@ == old(self).rows@.update(y as int, final(self).rows@[y as int])
                    &&& final(self).rows@[y as int]@ == old(self).rows@[y as int]@.update(x as int, *final(c))
                },
                None => !(y < old(self).rows@.len() && x < old(self).rows@[y as int]@.len()) && *final(self)
                    == *old(self),
            },
    {
        if y < self.rows.len() && x < self.rows[y].len() {
            Some(&mut self.rows[y][x])
        } else {
            None
        }
    }

    /// Writes `c` at column `x` of row `y`, where that cell exists.
    pub fn put(&mut self, x: usize, y: usize, c: Cell)
        ensures
            final(self)@ == put_in_grid(old(self)@, x as int, y as int, c@),
    {
        if y < self.rows.len() && x < self.rows[y].len() {
            let ghost cv = c@;
            let mut row: Vec<Cell> = Vec::new();
            std::mem::swap(&mut row, &mut self.rows[y]);
            assert(row_view(row) == old(self)@[y as int]);
            row.set(x, c);
            assert(row_view(row) =~= old(self)@[y as int].update(x as int, cv));
            self.rows.set(y, row);
            assert(self@ =~= put_in_grid(old(self)@, x as int, y as int, cv));
        }
    }
}


/// Changing one cell in place, as [`Surface::cell_mut`] lets a caller do,
/// is writing that cell with [`Surface::put`].
pub proof fn lemma_cell_write_is_put(a: Surface, b: Surface, x: int, y: int, c: Cell)
    requires
        0 <= y < a.rows@.len(),
        0 <= x < a.rows@[y]@.len(),
        b.rows@ == a.rows@.update(y, b.rows@[y]),
        b.rows@[y]@ == a.rows@[y]@.update(x, c),
    ensures
        b@ == put_in_grid(a@, x, y, c@),
{
    assert(row_view(b.rows@[y]) =~= row_view(a.rows@[y]).update(x, c@));
    assert forall|j: int| 0 <= j < b@.len() implies #[trigger] b@[j] == put_in_grid(a@, x, y, c@)[j] by {
        if j != y {
            assert(b.rows@[j] == a.rows@[j]);
        }
    }
    assert(b@ =~= put_in_grid(a@, x, y, c@));
}

/// One more cell adds its layout columns to a row prefix.
pub proof fn lemma_row_width_step(r: Seq<CellView>, i: int)
    requires
        0 <= i < r.len(),
    ensures
        row_width(r.take(i + 1)) == row_width(r.take(i)) + cols(r[i]),
{
    assert(r.take(i + 1).drop_last() =~= r.take(i));
}

/// A row prefix is no wider than the row.
pub proof fn lemma_row_width_prefix(r: Seq<CellView>, i: int)
    requires
        0 <= i <= r.len(),
    ensures
        row_width(r.take(i)) <= row_width(r),
    decreases r.len() - i,
{
    if i < r.len() {
        lemma_row_width_step(r, i);
        lemma_row_width_prefix(r, i + 1);
    } else {
        assert(r.take(i) =~= r);
    }
}

/// Width of a row of cells, or `None` where it exceeds `usize::MAX`.
pub fn checked_row_width(r: &Vec<Cell>) -> (w: Option<usize>)
    ensures
        match w {
            Some(n) => n as nat == row_width(row_view(*r)),
            None => row_width(row_view(*r)) > usize::MAX,
        },
{
    let ghost rv = row_view(*r);
    let mut w: usize = 0;
    let mut i: usize = 0;
    while i < r.len()
        invariant
            i <= r@.len(),
            rv == row_view(*r),
            w as nat == row_width(rv.take(i as int)),
        decreases r@.len() - i,
    {
        proof {
            lemma_row_width_step(rv, i as int);
        }
        let c = r[i].layout_cols();
        match w.checked_add(c) {
            Some(n) => {
                w = n;
            },
            None => {
                proof {
                    lemma_row_width_prefix(rv, i + 1);
                }
                return None;
            },
        }
        i = i + 1;
    }
    assert(rv.take(r@.len() as int) =~= rv);
    Some(w)
}

/// Widest row width of a grid prefix grows by one row at a time.
pub proof fn lemma_grid_width_step(g: Seq<Seq<CellView>>, i: int)
    requires
        0 <= i < g.len(),
    ensures
        grid_width(g.take(i + 1)) == max_nat(grid_width(g.take(i)), row_width(g[i])),
{
    assert(g.take(i + 1).drop_last() =~= g.take(i));
}

impl Surface {
    /// Display width: the widest row, each cell counting at least one column.
    pub fn width(&self) -> (w: usize)
        requires
            rows_fit(self@),
        ensures
            w as nat == grid_width(self@),
    {
        let mut w: usize = 0;
        let mut i: usize = 0;
        while i < self.rows.len()
            invariant
                i <= self.rows@.len(),
                rows_fit(self@),
                w as nat == grid_width(self@.take(i as int)),
            decreases self.rows@.len() - i,
        {
            proof {
                lemma_grid_width_step(self@, i as int);
            }
            assert(self@[i as int] == row_view(self.rows@[i as int]));
            match checked_row_width(&self.rows[i]) {
                Some(rw) => {
                    if rw > w {
                        w = rw;
                    }
                },
                None => {
                    assert(row_width(self@[i as int]) <= usize::MAX);
                },
            }
            i = i + 1;
        }
        assert(self@.take(self.rows@.len() as int) =~= self@);
        w
    }

    /// Display width where every row fits in `usize`, else `None`.
    pub fn try_width(&self) -> (w: Option<usize>)
        ensures
            match w {
                Some(n) => rows_fit(self@) && n as nat == grid_width(self@),
                None => !rows_fit(self@),
            },
    {
        let mut i: usize = 0;
        while i < self.rows.len()
            invariant
                i <= self.rows@.len(),
                forall|j: int| 0 <= j < i ==> #[trigger] row_width(self@[j]) <= usize::MAX,
            decreases self.rows@.len() - i,
        {
            assert(self@[i as int] == row_view(self.rows@[i as int]));
            match checked_row_width(&self.rows[i]) {
                Some(_) => {},
                None => {
                    return None;
                },
            }
            i = i + 1;
        }
        Some(self.width())
    }

    /// A surface with one row per line, one cell per character, each cell in
    /// the style of its span.
    pub fn from_lines(lines: &[Line]) -> (s: Surface)
        ensures
            s@ == lines@.map_values(|l: Line| spans_row(l.spans@)),
    {
        let mut rows: Vec<Vec<Cell>> = Vec::new();
        let mut i: usize = 0;
        while i < lines.len()
            invariant
                i <= lines@.len(),
                rows@.len() == i,
                (Surface { rows })@ =~= lines@.map_values(|l: Line| spans_row(l.spans@)).take(i as int),
            decreases lines@.len() - i,
        {
            let spans = &lines[i].spans;
            let mut row: Vec<Cell> = Vec::new();
            let mut k: usize = 0;
            while k < spans.len()
                invariant
                    k <= spans@.len(),
                    row_view(row) =~= spans_row(spans@.take(k as int)),
                decreases spans@.len() - k,
            {
                let chars = chars_of(spans[k].content.as_str());
                let cells = text_cells(&chars, spans[k].style);
                let ghost before = row_view(row);
                let mut j: usize = 0;
                while j < cells.len()
                    invariant
                        j <= cells@.len(),
                        row_view(row) =~= before + row_view(cells).take(j as int),
                    decreases cells@.len() - j,
                {
                    let c = cells[j].clone();
                    let ghost prev = row@;
                    row.push(c);
                    proof {
                        lemma_map_push(prev, c, |c: Cell| c@);
                    }
                    j = j + 1;
                }
                assert(row_view(cells).take(cells@.len() as int) =~= row_view(cells));
                assert(spans@.take(k + 1).drop_last() =~= spans@.take(k as int));
                k = k + 1;
            }
            assert(spans@.take(spans@.len() as int) =~= spans@);
            let ghost prev = rows@;
            rows.push(row);
            proof {
                lemma_map_push(prev, row, |r: Vec<Cell>| row_view(r));
            }
            i = i + 1;
        }
        Surface { rows }
    }

    /// A surface with one row per line of `text` (see [`lines_of`]) and one
    /// cell per character, all in `style`.
    pub fn from_text(text: &str, style: Style) -> (s: Surface)
        ensures
            s@ == lines_of(text@).map_values(|l: Seq<char>| text_row(l, style)),
    {
        let chars = chars_of(text);
        let lines = split_lines(&chars);
        let mut rows: Vec<Vec<Cell>> = Vec::new();
        let mut i: usize = 0;
        while i < lines.len()
            invariant
                i <= lines@.len(),
                rows@.len() == i,
                char_rows(lines@) == lines_of(text@),
                (Surface { rows })@ =~= lines_of(text@).map_values(|l: Seq<char>| text_row(l, style)).take(i as int),
            decreases lines@.len() - i,
        {
            let row = text_cells(&lines[i], style);
            let ghost prev = rows@;
            rows.push(row);
            proof {
                lemma_map_push(prev, row, |r: Vec<Cell>| row_view(r));
                assert(lines@[i as int]@ == lines_of(text@)[i as int]);
            }
            i = i + 1;
        }
        Surface { rows }
    }

    /// Fills the surface with a background style: every cell that has no
    /// background of its own gets `style` applied on top of its style; cells
    /// that already have a background are left alone.
    pub fn fill_bg(&mut self, style: Style)
        ensures
            final(self)@ == patch_grid(old(self)@, style),
    {
        let ghost target = patch_grid(old(self)@, style);
        let mut y: usize = 0;
        while y < self.rows.len()
            invariant
                y <= self.rows@.len(),
                self.rows@.len() == old(self).rows@.len(),
                old(self)@.len() == old(self).rows@.len(),
                target == patch_grid(old(self)@, style),
                forall|j: int| 0 <= j < y ==> #[trigger] self@[j] == target[j],
                forall|j: int| y <= j < self.rows@.len() ==> #[trigger] self@[j] == old(self)@[j],
            decreases self.rows@.len() - y,
        {
            assert(self@[y as int] == old(self)@[y as int]);
            assert(self@[y as int] == row_view(self.rows@[y as int]));
            let ghost rows_before = self.rows@;
            let ghost view_before = self@;
            let mut row: Vec<Cell> = Vec::new();
            std::mem::swap(&mut row, &mut self.rows[y]);
            let ghost orig = row_view(row);
            assert(orig == old(self)@[y as int]);
            let mut x: usize = 0;
            while x < row.len()
                invariant
                    x <= row@.len(),
                    row@.len() == orig.len(),
                    y < old(self)@.len(),
                    orig == old(self)@[y as int],
                    target == patch_grid(old(self)@, style),
                    forall|k: int| 0 <= k < x ==> #[trigger] row_view(row)[k] == target[y as int][k],
                    forall|k: int| x <= k < row@.len() ==> #[trigger] row_view(row)[k] == orig[k],
                decreases row@.len() - x,
            {
                let c = if row[x].style.bg.is_none() {
                    Cell { symbol: row[x].symbol.clone(), style: row[x].style.patch(style) }
                } else {
                    Cell { symbol: row[x].symbol.clone(), style: row[x].style }
                };
                let ghost prev = row@;
                assert(row_view(row)[x as int] == orig[x as int]);
                assert(row@[x as int]@ == orig[x as int]);
                row.set(x, c);
                proof {
                    lemma_map_update(prev, x as int, c, |c: Cell| c@);
                    assert(target[y as int][x as int] == patch_cell(old(self)@[y as int][x as int], style));
                    assert(c@ == patch_cell(orig[x as int], style));
                }
                x = x + 1;
            }
            assert(row_view(row) =~= target[y as int]);
            let ghost mid = self.rows@;
            self.rows.set(y, row);
            proof {
                lemma_map_update(mid, y as int, row, |r: Vec<Cell>| row_view(r));
                assert forall|j: int| 0 <= j < self.rows@.len() && j != y implies #[trigger] self@[j]
                    == (Surface { rows: self.rows })@[j] by {}
            }
            assert forall|j: int| 0 <= j <= y implies #[trigger] self@[j] == target[j] by {
                if j < y {
                    assert(self.rows@[j] == mid[j]);
                    assert(mid[j] == rows_before[j]);
                    assert(view_before[j] == target[j]);
                    assert(row_view(rows_before[j]) == view_before[j]);
                }
            }
            assert forall|j: int| y < j < self.rows@.len() implies #[trigger] self@[j] == old(self)@[j] by {
                assert(self.rows@[j] == mid[j]);
                assert(mid[j] == rows_before[j]);
                assert(view_before[j] == old(self)@[j]);
                assert(row_view(rows_before[j]) == view_before[j]);
            }
            y = y + 1;
        }
        assert(self@ =~= target);
    }
}


/// Painting from a column at or past the end of a row changes nothing.
pub proof fn lemma_paint_row_past_end(row: Seq<CellView>, src: Seq<CellView>, x: int)
    requires
        x >= row.len(),
    ensures
        paint_row(row, src, x) == row,
    decreases src.len(),
{
    if src.len() > 0 {
        lemma_paint_row_past_end(row, src.drop_first(), x + cols(src[0]));
    }
}

/// Painting a row keeps its length.
pub proof fn lemma_paint_row_len(row: Seq<CellView>, src: Seq<CellView>, x: int)
    ensures
        paint_row(row, src, x).len() == row.len(),
    decreases src.len(),
{
    if src.len() > 0 {
        lemma_paint_row_len(put_in_row(row, x, src[0]), src.drop_first(), x + cols(src[0]));
    }
}

/// Paints the cells of `src` into `row` from column `x` on (see [`paint_row`]).
fn paint_row_into(row: &mut Vec<Cell>, src: &Vec<Cell>, x: usize)
    ensures
        row_view(*final(row)) == paint_row(row_view(*old(row)), row_view(*src), x as int),
{
    let ghost sv = row_view(*src);
    let ghost target = paint_row(row_view(*row), sv, x as int);
    let mut i: usize = 0;
    let mut dx: usize = x;
    assert(sv.skip(0) =~= sv);
    while i < src.len()
        invariant
            i <= src@.len(),
            sv == row_view(*src),
            target == paint_row(row_view(*old(row)), sv, x as int),
            target == paint_row(row_view(*row), sv.skip(i as int), dx as int),
        decreases src@.len() - i,
    {
        assert(sv.skip(i as int).drop_first() =~= sv.skip(i + 1));
        assert(sv.skip(i as int)[0] == sv[i as int]);
        if dx >= row.len() {
            proof {
                lemma_paint_row_past_end(row_view(*row), sv.skip(i as int), dx as int);
            }
            return;
        }
        let c = src[i].clone();
        let w = src[i].layout_cols();
        let ghost prev = row@;
        row.set(dx, c);
        proof {
            lemma_map_update(prev, dx as int, c, |c: Cell| c@);
            assert(row_view(*row) =~= put_in_row(prev.map_values(|c: Cell| c@), dx as int, sv[i as int]));
        }
        match dx.checked_add(w) {
            Some(n) => {
                dx = n;
            },
            None => {
                proof {
                    lemma_paint_row_past_end(row_view(*row), sv.skip(i + 1), dx + w);
                }
                return;
            },
        }
        i = i + 1;
    }
}

/// Horizontal or vertical alignment of content within a larger box.
#[derive(Debug, Clone, Copy, PartialEq, Eq, Structural)]
pub enum Position {
    /// Top edge (vertical).
    Top,
    /// Bottom edge (vertical).
    Bottom,
    /// Left edge (horizontal).
    Left,
    /// Right edge (horizontal).
    Right,
    /// Centred.
    Center,
}

/// `a - b`, or 0 where `b > a`.
pub open spec fn nat_sub(a: nat, b: nat) -> nat {
    if a > b { (a - b) as nat } else { 0 }
}

/// Column at which content `inner` columns wide starts in a box `outer`
/// columns wide: `Left` 0, `Right` flush right, any other position centred
/// (rounding left).
pub open spec fn h_offset(align: Position, outer: nat, inner: nat) -> nat {
    match align {
        Position::Left => 0,
        Position::Right => nat_sub(outer, inner),
        _ => nat_sub(outer, inner) / 2,
    }
}

/// Row at which content `inner` rows high starts in a box `outer` rows
/// high: `Top` 0, `Bottom` flush bottom, any other position centred
/// (rounding up).
pub open spec fn v_offset(align: Position, outer: nat, inner: nat) -> nat {
    match align {
        Position::Top => 0,
        Position::Bottom => nat_sub(outer, inner),
        _ => nat_sub(outer, inner) / 2,
    }
}

fn h_offset_exec(align: Position, outer: usize, inner: usize) -> (r: usize)
    ensures
        r as nat == h_offset(align, outer as nat, inner as nat),
{
    match align {
        Position::Left => 0,
        Position::Right => outer.saturating_sub(inner),
        _ => outer.saturating_sub(inner) / 2,
    }
}

fn v_offset_exec(align: Position, outer: usize, inner: usize) -> (r: usize)
    ensures
        r as nat == v_offset(align, outer as nat, inner as nat),
{
    match align {
        Position::Top => 0,
        Position::Bottom => outer.saturating_sub(inner),
        _ => outer.saturating_sub(inner) / 2,
    }
}

impl Surface {
    /// Paints the rows of `src` into this surface, the first at row `y`, each
    /// from column `x` on (see [`paint`]).
    pub fn paint_from(&mut self, src: &Surface, x: usize, y: usize)
        ensures
            final(self)@ == paint(old(self)@, src@, x as int, y as int),
    {
        let ghost canvas = self@;
        let mut dy: usize = 0;
        while dy < src.rows.len()
            invariant
                dy <= src.rows@.len(),
                canvas == old(self)@,
                self.rows@.len() == canvas.len(),
                self@ =~= paint(canvas, src@.take(dy as int), x as int, y as int),
            decreases src.rows@.len() - dy,
        {
            let n = self.rows.len();
            let ty = match y.checked_add(dy) {
                Some(t) => t,
                None => {
                    assert(paint(canvas, src@.take(dy as int), x as int, y as int)
                        =~= paint(canvas, src@, x as int, y as int));
                    return;
                },
            };
            if ty >= self.rows.len() {
                assert(paint(canvas, src@.take(dy as int), x as int, y as int)
                    =~= paint(canvas, src@, x as int, y as int));
                return;
            }
            let ghost before = self@;
            let ghost rows_before = self.rows@;
            assert(before[ty as int] == canvas[ty as int]);
            let mut row: Vec<Cell> = Vec::new();
            std::mem::swap(&mut row, &mut self.rows[ty]);
            assert(row_view(row) == canvas[ty as int]);
            assert(row_view(src.rows@[dy as int]) == src@[dy as int]);
            paint_row_into(&mut row, &src.rows[dy], x);
            let ghost mid = self.rows@;
            self.rows.set(ty, row);
            proof {
                lemma_map_update(mid, ty as int, row, |r: Vec<Cell>| row_view(r));
                assert forall|j: int| 0 <= j < canvas.len() implies #[trigger] self@[j]
                    == paint(canvas, src@.take(dy + 1), x as int, y as int)[j] by {
                    if j != ty {
                        assert(self.rows@[j] == rows_before[j]);
                        assert(before[j] == paint(canvas, src@.take(dy as int), x as int, y as int)[j]);
                    }
                }
            }
            dy = dy + 1;
        }
        assert(src@.take(src.rows@.len() as int) =~= src@);
    }

    /// Display width where every row fits in `usize`, else `usize::MAX`.
    pub(crate) fn width_or_max(&self) -> (w: usize)
        ensures
            rows_fit(self@) ==> w as nat == grid_width(self@),
            !rows_fit(self@) ==> w == usize::MAX && grid_width(self@) > usize::MAX,
    {
        match self.try_width() {
            Some(w) => w,
            None => {
                proof {
                    lemma_grid_width_ge_rows(self@);
                }
                usize::MAX
            },
        }
    }
}

/// A row takes up at least one column per cell, exactly one where no cell
/// is wider than one column.
pub proof fn lemma_row_width_ge_len(r: Seq<CellView>)
    ensures
        row_width(r) >= r.len(),
        (forall|i: int| 0 <= i < r.len() ==> cols(#[trigger] r[i]) == 1) ==> row_width(r) == r.len(),
    decreases r.len(),
{
    if r.len() > 0 {
        lemma_row_width_ge_len(r.drop_last());
        assert forall|i: int| 0 <= i < r.drop_last().len() implies #[trigger] r.drop_last()[i] == r[i] by {}
    }
}

/// A surface is at least as many columns wide as its longest row has cells,
/// exactly as wide where no cell is wider than one column.
pub proof fn lemma_width_at_least_columns(g: Seq<Seq<CellView>>)
    ensures
        grid_width(g) >= grid_columns(g),
        (forall|y: int, x: int| 0 <= y < g.len() && 0 <= x < g[y].len() ==> cols(#[trigger] g[y][x]) == 1)
            ==> grid_width(g) == grid_columns(g),
    decreases g.len(),
{
    if g.len() > 0 {
        let d = g.drop_last();
        lemma_width_at_least_columns(d);
        lemma_row_width_ge_len(g.last());
        if forall|y: int, x: int| 0 <= y < g.len() && 0 <= x < g[y].len() ==> cols(#[trigger] g[y][x]) == 1 {
            assert forall|y: int, x: int| 0 <= y < d.len() && 0 <= x < d[y].len() implies cols(#[trigger] d[y][x]) == 1 by {
                assert(d[y] == g[y]);
            }
            assert forall|i: int| 0 <= i < g.last().len() implies cols(#[trigger] g.last()[i]) == 1 by {
                assert(g[g.len() - 1][i] == g.last()[i]);
            }
        }
    }
}

/// The widest row is at least as wide as every row.
pub proof fn lemma_grid_width_ge_rows(g: Seq<Seq<CellView>>)
    ensures
        forall|i: int| 0 <= i < g.len() ==> row_width(#[trigger] g[i]) <= grid_width(g),
    decreases g.len(),
{
    if g.len() > 0 {
        lemma_grid_width_ge_rows(g.drop_last());
        assert forall|i: int| 0 <= i < g.len() implies row_width(#[trigger] g[i]) <= grid_width(g) by {
            if i < g.len() - 1 {
                assert(g[i] == g.drop_last()[i]);
            }
        }
    }
}

/// Places `surf` in a `width` x `height` box of copies of `fill`, aligned by
/// `h_align` and `v_align`; content past the box is cut off.
pub fn place(width: usize, height: usize, h_align: Position, v_align: Position, surf: &Surface, fill: &Cell) -> (out: Surface)
    ensures
        out@ == paint(
            filled_grid(width as nat, height as nat, fill@),
            surf@,
            h_offset(h_align, width as nat, grid_width(surf@)) as int,
            v_offset(v_align, height as nat, surf@.len()) as int,
        ),
{
    let mut out = Surface::new(width, height, fill);
    let sw = surf.width_or_max();
    let sh = surf.height();
    let x = h_offset_exec(h_align, width, sw);
    let y = v_offset_exec(v_align, height, sh);
    assert(x as nat == h_offset(h_align, width as nat, grid_width(surf@)));
    out.paint_from(surf, x, y);
    out
}


/// The grids of a sequence of surfaces.
pub open spec fn views(ss: Seq<Surface>) -> Seq<Seq<Seq<CellView>>> {
    ss.map_values(|s: Surface| s@)
}

/// The sum of the display widths of the grids.
pub open spec fn sum_widths(gs: Seq<Seq<Seq<CellView>>>) -> nat
    decreases gs.len(),
{
    if gs.len() == 0 { 0 } else { sum_widths(gs.drop_last()) + grid_width(gs.last()) }
}

/// The sum of the heights of the grids.
pub open spec fn sum_heights(gs: Seq<Seq<Seq<CellView>>>) -> nat
    decreases gs.len(),
{
    if gs.len() == 0 { 0 } else { sum_heights(gs.drop_last()) + gs.last().len() }
}

/// The largest height of the grids (0 for none).
pub open spec fn max_height(gs: Seq<Seq<Seq<CellView>>>) -> nat
    decreases gs.len(),
{
    if gs.len() == 0 { 0 } else { max_nat(max_height(gs.drop_last()), gs.last().len()) }
}

/// The largest display width of the grids (0 for none).
pub open spec fn max_width(gs: Seq<Seq<Seq<CellView>>>) -> nat
    decreases gs.len(),
{
    if gs.len() == 0 { 0 } else { max_nat(max_width(gs.drop_last()), grid_width(gs.last())) }
}

/// Every row of every grid fits in `usize`.
pub open spec fn all_fit(gs: Seq<Seq<Seq<CellView>>>) -> bool {
    forall|i: int| 0 <= i < gs.len() ==> #[trigger] rows_fit(gs[i])
}

/// The blank cell: a space with no style.
pub open spec fn blank_view() -> CellView {
    CellView { symbol: seq![' '], style: crate::tui::empty_style() }
}

/// Paints the grids left to right into `canvas`, the first from column `x`,
/// each at its display width right of the one before, each aligned
/// vertically within `h` rows by `align`.
pub open spec fn hjoin_from(
    canvas: Seq<Seq<CellView>>,
    gs: Seq<Seq<Seq<CellView>>>,
    align: Position,
    h: nat,
    x: int,
) -> Seq<Seq<CellView>>
    decreases gs.len(),
{
    if gs.len() == 0 {
        canvas
    } else {
        hjoin_from(
            paint(canvas, gs[0], x, v_offset(align, h, gs[0].len()) as int),
            gs.drop_first(),
            align,
            h,
            x + grid_width(gs[0]),
        )
    }
}

/// Paints the grids top to bottom into `canvas`, the first from row `y`,
/// each below the one before, each aligned horizontally within `w` columns
/// by `align`.
pub open spec fn vjoin_from(
    canvas: Seq<Seq<CellView>>,
    gs: Seq<Seq<Seq<CellView>>>,
    align: Position,
    w: nat,
    y: int,
) -> Seq<Seq<CellView>>
    decreases gs.len(),
{
    if gs.len() == 0 {
        canvas
    } else {
        vjoin_from(
            paint(canvas, gs[0], h_offset(align, w, grid_width(gs[0])) as int, y),
            gs.drop_first(),
            align,
            w,
            y + gs[0].len(),
        )
    }
}

/// The grids side by side on a blank canvas as wide as their widths
/// together and as high as the highest one.
pub open spec fn joined_horizontally(align: Position, gs: Seq<Seq<Seq<CellView>>>) -> Seq<Seq<CellView>> {
    if gs.len() == 0 {
        seq![]
    } else {
        hjoin_from(filled_grid(sum_widths(gs), max_height(gs), blank_view()), gs, align, max_height(gs), 0)
    }
}

/// The grids stacked on a blank canvas as wide as the widest one and as
/// high as their heights together.
pub open spec fn joined_vertically(align: Position, gs: Seq<Seq<Seq<CellView>>>) -> Seq<Seq<CellView>> {
    if gs.len() == 0 {
        seq![]
    } else {
        vjoin_from(filled_grid(max_width(gs), sum_heights(gs), blank_view()), gs, align, max_width(gs), 0)
    }
}

/// Painting grids side by side keeps the canvas's rows and their lengths.
proof fn lemma_hjoin_shape(canvas: Seq<Seq<CellView>>, gs: Seq<Seq<Seq<CellView>>>, align: Position, h: nat, x: int)
    ensures
        hjoin_from(canvas, gs, align, h, x).len() == canvas.len(),
        forall|j: int| 0 <= j < canvas.len() ==> #[trigger] hjoin_from(canvas, gs, align, h, x)[j].len() == canvas[j].len(),
    decreases gs.len(),
{
    if gs.len() > 0 {
        let y = v_offset(align, h, gs[0].len()) as int;
        let p = paint(canvas, gs[0], x, y);
        assert forall|j: int| 0 <= j < canvas.len() implies #[trigger] p[j].len() == canvas[j].len() by {
            if y <= j < y + gs[0].len() {
                lemma_paint_row_len(canvas[j], gs[0][j - y], x);
            }
        }
        lemma_hjoin_shape(p, gs.drop_first(), align, h, x + grid_width(gs[0]));
    }
}

/// Painting grids one below the other keeps the canvas's rows and their
/// lengths.
proof fn lemma_vjoin_shape(canvas: Seq<Seq<CellView>>, gs: Seq<Seq<Seq<CellView>>>, align: Position, w: nat, y: int)
    ensures
        vjoin_from(canvas, gs, align, w, y).len() == canvas.len(),
        forall|j: int| 0 <= j < canvas.len() ==> #[trigger] vjoin_from(canvas, gs, align, w, y)[j].len() == canvas[j].len(),
    decreases gs.len(),
{
    if gs.len() > 0 {
        let x = h_offset(align, w, grid_width(gs[0])) as int;
        let p = paint(canvas, gs[0], x, y);
        assert forall|j: int| 0 <= j < canvas.len() implies #[trigger] p[j].len() == canvas[j].len() by {
            if y <= j < y + gs[0].len() {
                lemma_paint_row_len(canvas[j], gs[0][j - y], x);
            }
        }
        lemma_vjoin_shape(p, gs.drop_first(), align, w, y + gs[0].len());
    }
}

/// Joining surfaces side by side gives one as high as the highest, each row
/// as many cells as their widths together; stacking them gives one as high
/// as their heights together, each row as many cells as the widest is wide.
pub proof fn lemma_join_shapes(align: Position, gs: Seq<Seq<Seq<CellView>>>)
    requires
        gs.len() > 0,
    ensures
        joined_horizontally(align, gs).len() == max_height(gs),
        forall|j: int| 0 <= j < max_height(gs) ==> #[trigger] joined_horizontally(align, gs)[j].len() == sum_widths(gs),
        joined_vertically(align, gs).len() == sum_heights(gs),
        forall|j: int| 0 <= j < sum_heights(gs) ==> #[trigger] joined_vertically(align, gs)[j].len() == max_width(gs),
{
    let hc = filled_grid(sum_widths(gs), max_height(gs), blank_view());
    lemma_hjoin_shape(hc, gs, align, max_height(gs), 0);
    let vc = filled_grid(max_width(gs), sum_heights(gs), blank_view());
    lemma_vjoin_shape(vc, gs, align, max_width(gs), 0);
}

proof fn lemma_take_succ<A>(s: Seq<A>, k: int)
    requires
        0 <= k < s.len(),
    ensures
        s.take(k + 1).drop_last() =~= s.take(k),
        s.take(k + 1).last() == s[k],
{
}

/// A grid with a non-empty row is at least one column wide.
proof fn lemma_grid_width_pos(g: Seq<Seq<CellView>>, y: int)
    requires
        0 <= y < g.len(),
        g[y].len() > 0,
    ensures
        grid_width(g) >= 1,
{
    lemma_grid_width_ge_rows(g);
    lemma_row_width_ge_len(g[y]);
}

/// The widest of the grids is at least as wide as each, and the highest at
/// least as high.
proof fn lemma_max_dims(gs: Seq<Seq<Seq<CellView>>>, k: int)
    requires
        0 <= k < gs.len(),
    ensures
        grid_width(gs[k]) <= max_width(gs),
        gs[k].len() <= max_height(gs),
    decreases gs.len(),
{
    if k < gs.len() - 1 {
        lemma_max_dims(gs.drop_last(), k);
    }
}

/// The widths of the first `k` grids: the first grid's and those of the
/// `k - 1` after it.
proof fn lemma_sum_widths_first(gs: Seq<Seq<Seq<CellView>>>, k: int)
    requires
        1 <= k <= gs.len(),
    ensures
        sum_widths(gs.take(k)) == grid_width(gs[0]) + sum_widths(gs.drop_first().take(k - 1)),
        sum_heights(gs.take(k)) == gs[0].len() + sum_heights(gs.drop_first().take(k - 1)),
    decreases k,
{
    if k == 1 {
        assert(gs.take(1).drop_last() =~= gs.take(0));
        assert(gs.drop_first().take(0) =~= gs.take(0));
    } else {
        lemma_sum_widths_first(gs, k - 1);
        lemma_take_succ(gs, k - 1);
        lemma_take_succ(gs.drop_first(), k - 2);
    }
}

/// Painting cells from column `x` leaves the columns left of `x` as they
/// were.
proof fn lemma_paint_row_keeps_left(row: Seq<CellView>, src: Seq<CellView>, x: int, i: int)
    requires
        0 <= i < x,
        i < row.len(),
    ensures
        paint_row(row, src, x)[i] == row[i],
    decreases src.len(),
{
    if src.len() > 0 {
        lemma_paint_row_keeps_left(put_in_row(row, x, src[0]), src.drop_first(), x + cols(src[0]), i);
    }
}

/// Painting cells from column `x` puts the first of them at column `x`.
proof fn lemma_paint_row_first(row: Seq<CellView>, src: Seq<CellView>, x: int)
    requires
        0 <= x < row.len(),
        src.len() > 0,
    ensures
        paint_row(row, src, x)[x] == src[0],
{
    lemma_paint_row_keeps_left(put_in_row(row, x, src[0]), src.drop_first(), x + cols(src[0]), x);
}

/// Joining side by side from column `x` leaves the columns left of `x` as
/// they were.
proof fn lemma_hjoin_keeps_left(
    canvas: Seq<Seq<CellView>>,
    gs: Seq<Seq<Seq<CellView>>>,
    align: Position,
    h: nat,
    x: int,
    j: int,
    i: int,
)
    requires
        0 <= j < canvas.len(),
        0 <= i < x,
        i < canvas[j].len(),
    ensures
        hjoin_from(canvas, gs, align, h, x)[j][i] == canvas[j][i],
    decreases gs.len(),
{
    if gs.len() > 0 {
        let y = v_offset(align, h, gs[0].len()) as int;
        let p = paint(canvas, gs[0], x, y);
        if y <= j < y + gs[0].len() {
            lemma_paint_row_keeps_left(canvas[j], gs[0][j - y], x, i);
            lemma_paint_row_len(canvas[j], gs[0][j - y], x);
        }
        lemma_hjoin_keeps_left(p, gs.drop_first(), align, h, x + grid_width(gs[0]), j, i);
    }
}

/// Top-aligned side by side from column `x`: row `y` of grid `k` starts at
/// row `y`, at column `x` plus the widths of the grids before it.
proof fn lemma_hjoin_top(canvas: Seq<Seq<CellView>>, gs: Seq<Seq<Seq<CellView>>>, h: nat, x: int, k: int, y: int)
    requires
        0 <= k < gs.len(),
        0 <= y < gs[k].len(),
        gs[k][y].len() > 0,
        y < canvas.len(),
        0 <= x,
        x + sum_widths(gs.take(k)) < canvas[y].len(),
    ensures
        hjoin_from(canvas, gs, Position::Top, h, x)[y][x + sum_widths(gs.take(k))] == gs[k][y][0],
    decreases gs.len(),
{
    let p = paint(canvas, gs[0], x, 0);
    lemma_sum_widths_first(gs, k + 1);
    lemma_take_succ(gs, k);
    if k == 0 {
        assert(gs.take(0).len() == 0);
        lemma_paint_row_first(canvas[y], gs[0][y], x);
        lemma_paint_row_len(canvas[y], gs[0][y], x);
        lemma_grid_width_pos(gs[0], y);
        lemma_hjoin_keeps_left(p, gs.drop_first(), Position::Top, h, x + grid_width(gs[0]), y, x);
    } else {
        lemma_sum_widths_first(gs, k);
        if y < gs[0].len() {
            lemma_paint_row_len(canvas[y], gs[0][y], x);
        }
        lemma_hjoin_top(p, gs.drop_first(), h, x + grid_width(gs[0]), k - 1, y);
    }
}

/// Stacking from row `y` leaves the rows above `y` as they were.
proof fn lemma_vjoin_keeps_above(canvas: Seq<Seq<CellView>>, gs: Seq<Seq<Seq<CellView>>>, align: Position, w: nat, y: int, j: int)
    requires
        0 <= j < y,
        j < canvas.len(),
    ensures
        vjoin_from(canvas, gs, align, w, y)[j] == canvas[j],
    decreases gs.len(),
{
    if gs.len() > 0 {
        let p = paint(canvas, gs[0], h_offset(align, w, grid_width(gs[0])) as int, y);
        lemma_vjoin_keeps_above(p, gs.drop_first(), align, w, y + gs[0].len(), j);
    }
}

/// Left-aligned stacking from row `y0`: row `y` of grid `k` starts at
/// column 0, on the row below the grids before it.
proof fn lemma_vjoin_left(canvas: Seq<Seq<CellView>>, gs: Seq<Seq<Seq<CellView>>>, w: nat, y0: int, k: int, y: int)
    requires
        0 <= k < gs.len(),
        0 <= y < gs[k].len(),
        gs[k][y].len() > 0,
        0 <= y0,
        y0 + sum_heights(gs.take(k)) + y < canvas.len(),
        canvas[y0 + sum_heights(gs.take(k)) + y].len() > 0,
    ensures
        vjoin_from(canvas, gs, Position::Left, w, y0)[y0 + sum_heights(gs.take(k)) + y][0] == gs[k][y][0],
    decreases gs.len(),
{
    let p = paint(canvas, gs[0], 0, y0);
    lemma_sum_widths_first(gs, k + 1);
    lemma_take_succ(gs, k);
    if k == 0 {
        assert(gs.take(0).len() == 0);
        lemma_paint_row_first(canvas[y0 + y], gs[0][y], 0);
        lemma_vjoin_keeps_above(p, gs.drop_first(), Position::Left, w, y0 + gs[0].len(), y0 + y);
    } else {
        lemma_sum_widths_first(gs, k);
        lemma_vjoin_left(p, gs.drop_first(), w, y0 + gs[0].len(), k - 1, y);
    }
}

/// Side by side from column `x`: row `y` of grid `k` lies on the row its
/// alignment puts it at and starts at column `x` plus the widths of the
/// grids before it.
proof fn lemma_hjoin_at(canvas: Seq<Seq<CellView>>, gs: Seq<Seq<Seq<CellView>>>, align: Position, h: nat, x: int, k: int, y: int)
    requires
        0 <= k < gs.len(),
        0 <= y < gs[k].len(),
        gs[k][y].len() > 0,
        v_offset(align, h, gs[k].len()) + y < canvas.len(),
        0 <= x,
        x + sum_widths(gs.take(k)) < canvas[v_offset(align, h, gs[k].len()) + y].len(),
    ensures
        hjoin_from(canvas, gs, align, h, x)[v_offset(align, h, gs[k].len()) + y][x + sum_widths(gs.take(k))]
            == gs[k][y][0],
    decreases gs.len(),
{
    let y0 = v_offset(align, h, gs[0].len()) as int;
    let p = paint(canvas, gs[0], x, y0);
    let r = v_offset(align, h, gs[k].len()) + y;
    lemma_sum_widths_first(gs, k + 1);
    lemma_take_succ(gs, k);
    if k == 0 {
        assert(gs.take(0).len() == 0);
        lemma_paint_row_first(canvas[r], gs[0][y], x);
        lemma_paint_row_len(canvas[r], gs[0][y], x);
        lemma_grid_width_pos(gs[0], y);
        lemma_hjoin_keeps_left(p, gs.drop_first(), align, h, x + grid_width(gs[0]), r, x);
    } else {
        lemma_sum_widths_first(gs, k);
        if y0 <= r < y0 + gs[0].len() {
            lemma_paint_row_len(canvas[r], gs[0][r - y0], x);
        }
        assert(gs.drop_first()[k - 1] == gs[k]);
        lemma_hjoin_at(p, gs.drop_first(), align, h, x + grid_width(gs[0]), k - 1, y);
    }
}

/// Stacked from row `y0`: row `y` of grid `k` lies below the grids before it
/// and starts at the column its alignment puts it at.
proof fn lemma_vjoin_at(canvas: Seq<Seq<CellView>>, gs: Seq<Seq<Seq<CellView>>>, align: Position, w: nat, y0: int, k: int, y: int)
    requires
        0 <= k < gs.len(),
        0 <= y < gs[k].len(),
        gs[k][y].len() > 0,
        0 <= y0,
        y0 + sum_heights(gs.take(k)) + y < canvas.len(),
        h_offset(align, w, grid_width(gs[k])) < canvas[y0 + sum_heights(gs.take(k)) + y].len(),
    ensures
        vjoin_from(canvas, gs, align, w, y0)[y0 + sum_heights(gs.take(k)) + y][h_offset(align, w, grid_width(gs[k])) as int]
            == gs[k][y][0],
    decreases gs.len(),
{
    let x0 = h_offset(align, w, grid_width(gs[0])) as int;
    let p = paint(canvas, gs[0], x0, y0);
    lemma_sum_widths_first(gs, k + 1);
    lemma_take_succ(gs, k);
    if k == 0 {
        assert(gs.take(0).len() == 0);
        lemma_paint_row_first(canvas[y0 + y], gs[0][y], x0);
        lemma_vjoin_keeps_above(p, gs.drop_first(), align, w, y0 + gs[0].len(), y0 + y);
    } else {
        lemma_sum_widths_first(gs, k);
        assert(gs.drop_first()[k - 1] == gs[k]);
        lemma_vjoin_at(p, gs.drop_first(), align, w, y0 + gs[0].len(), k - 1, y);
    }
}

/// Where joining side by side puts each grid: row `y` of grid `k` starts at
/// the column right after the grids before it, on row `y` for `Top`, moved
/// down by all the rows the grid is short of the highest for `Bottom`, and
/// by half of them (rounding up) otherwise.
pub proof fn lemma_join_horizontal_aligns(align: Position, gs: Seq<Seq<Seq<CellView>>>, k: int, y: int)
    requires
        0 <= k < gs.len(),
        0 <= y < gs[k].len(),
        gs[k][y].len() > 0,
    ensures
        ({
            let free = max_height(gs) - gs[k].len();
            let dy: int = match align {
                Position::Top => 0,
                Position::Bottom => free,
                _ => free / 2,
            };
            joined_horizontally(align, gs)[dy + y][sum_widths(gs.take(k)) as int] == gs[k][y][0]
        }),
{
    lemma_max_dims(gs, k);
    lemma_grid_width_pos(gs[k], y);
    lemma_take_succ(gs, k);
    lemma_sum_widths_prefix(gs, k + 1);
    lemma_hjoin_at(filled_grid(sum_widths(gs), max_height(gs), blank_view()), gs, align, max_height(gs), 0, k, y);
}

/// Where stacking puts each grid: row `y` of grid `k` lies below the grids
/// before it and starts at column 0 for `Left`, right by all the columns the
/// grid is short of the widest for `Right`, and by half of them (rounding
/// left) otherwise.
pub proof fn lemma_join_vertical_aligns(align: Position, gs: Seq<Seq<Seq<CellView>>>, k: int, y: int)
    requires
        0 <= k < gs.len(),
        0 <= y < gs[k].len(),
        gs[k][y].len() > 0,
    ensures
        ({
            let free = max_width(gs) - grid_width(gs[k]);
            let dx: int = match align {
                Position::Left => 0,
                Position::Right => free,
                _ => free / 2,
            };
            joined_vertically(align, gs)[sum_heights(gs.take(k)) + y][dx] == gs[k][y][0]
        }),
{
    lemma_max_dims(gs, k);
    lemma_grid_width_pos(gs[k], y);
    lemma_take_succ(gs, k);
    lemma_sum_heights_prefix(gs, k + 1);
    lemma_vjoin_at(filled_grid(max_width(gs), sum_heights(gs), blank_view()), gs, align, max_width(gs), 0, k, y);
}

/// Top alignment puts every grid flush with the top: joined side by side,
/// row `y` of grid `k` lies on row `y` and starts at the column right after
/// the grids before it.
pub proof fn lemma_join_horizontal_top_is_flush(gs: Seq<Seq<Seq<CellView>>>, k: int, y: int)
    requires
        0 <= k < gs.len(),
        0 <= y < gs[k].len(),
        gs[k][y].len() > 0,
    ensures
        joined_horizontally(Position::Top, gs)[y][sum_widths(gs.take(k)) as int] == gs[k][y][0],
{
    lemma_max_dims(gs, k);
    lemma_grid_width_pos(gs[k], y);
    lemma_take_succ(gs, k);
    lemma_sum_widths_prefix(gs, k + 1);
    lemma_hjoin_top(filled_grid(sum_widths(gs), max_height(gs), blank_view()), gs, max_height(gs), 0, k, y);
}

/// Left alignment puts every grid flush left: stacked, row `y` of grid `k`
/// lies below the grids before it and starts at column 0.
pub proof fn lemma_join_vertical_left_is_flush(gs: Seq<Seq<Seq<CellView>>>, k: int, y: int)
    requires
        0 <= k < gs.len(),
        0 <= y < gs[k].len(),
        gs[k][y].len() > 0,
    ensures
        joined_vertically(Position::Left, gs)[sum_heights(gs.take(k)) + y][0] == gs[k][y][0],
{
    lemma_max_dims(gs, k);
    lemma_grid_width_pos(gs[k], y);
    lemma_take_succ(gs, k);
    lemma_sum_heights_prefix(gs, k + 1);
    lemma_vjoin_left(filled_grid(max_width(gs), sum_heights(gs), blank_view()), gs, max_width(gs), 0, k, y);
}

/// Where placing a grid in a `width` x `height` box puts it: row `y` starts
/// at column 0 for `Left`, right by all the free columns for `Right` and by
/// half of them (rounding left) otherwise; on row `y` for `Top`, down by all
/// the free rows for `Bottom` and by half of them (rounding up) otherwise.
/// A grid larger than the box has no free columns or rows.
pub proof fn lemma_place_aligns(
    width: nat,
    height: nat,
    h_align: Position,
    v_align: Position,
    g: Seq<Seq<CellView>>,
    fill: CellView,
    y: int,
)
    requires
        0 <= y < g.len(),
        g[y].len() > 0,
    ensures
        ({
            let out = paint(
                filled_grid(width, height, fill),
                g,
                h_offset(h_align, width, grid_width(g)) as int,
                v_offset(v_align, height, g.len()) as int,
            );
            let free_w: int = if width > grid_width(g) { width - grid_width(g) } else { 0 };
            let free_h: int = if height > g.len() { height - g.len() } else { 0 };
            let dx: int = match h_align {
                Position::Left => 0,
                Position::Right => free_w,
                _ => free_w / 2,
            };
            let dy: int = match v_align {
                Position::Top => 0,
                Position::Bottom => free_h,
                _ => free_h / 2,
            };
            dy + y < height && dx < width ==> out[dy + y][dx] == g[y][0]
        }),
{
    let dy = v_offset(v_align, height, g.len()) as int;
    let dx = h_offset(h_align, width, grid_width(g)) as int;
    let canvas = filled_grid(width, height, fill);
    if dy + y < height && dx < width {
        lemma_paint_row_first(canvas[dy + y], g[y], dx);
    }
}

/// Placing a grid left-aligned puts each of its rows from column 0, and
/// top-aligned puts its first row on row 0.
pub proof fn lemma_place_left_top_is_flush(
    width: nat,
    height: nat,
    h_align: Position,
    v_align: Position,
    g: Seq<Seq<CellView>>,
    fill: CellView,
    y: int,
)
    requires
        0 <= y < g.len(),
        g[y].len() > 0,
    ensures
        ({
            let out = paint(
                filled_grid(width, height, fill),
                g,
                h_offset(h_align, width, grid_width(g)) as int,
                v_offset(v_align, height, g.len()) as int,
            );
            let dy = v_offset(v_align, height, g.len()) as int;
            let dx = h_offset(h_align, width, grid_width(g)) as int;
            &&& h_align == Position::Left && dy + y < height && width > 0 ==> out[dy + y][0] == g[y][0]
            &&& v_align == Position::Top && y < height && dx < width ==> out[y][dx] == g[y][0]
        }),
{
    let dy = v_offset(v_align, height, g.len()) as int;
    let dx = h_offset(h_align, width, grid_width(g)) as int;
    let canvas = filled_grid(width, height, fill);
    if h_align == Position::Left && dy + y < height && width > 0 {
        lemma_paint_row_first(canvas[dy + y], g[y], 0);
    }
    if v_align == Position::Top && y < height && dx < width {
        lemma_paint_row_first(canvas[y], g[y], dx);
    }
}

/// Prefix sums of widths never exceed the total.
pub proof fn lemma_sum_widths_prefix(gs: Seq<Seq<Seq<CellView>>>, k: int)
    requires
        0 <= k <= gs.len(),
    ensures
        sum_widths(gs.take(k)) <= sum_widths(gs),
    decreases gs.len() - k,
{
    if k < gs.len() {
        lemma_take_succ(gs, k);
        lemma_sum_widths_prefix(gs, k + 1);
    } else {
        assert(gs.take(k) =~= gs);
    }
}

/// Prefix sums of heights never exceed the total.
pub proof fn lemma_sum_heights_prefix(gs: Seq<Seq<Seq<CellView>>>, k: int)
    requires
        0 <= k <= gs.len(),
    ensures
        sum_heights(gs.take(k)) <= sum_heights(gs),
    decreases gs.len() - k,
{
    if k < gs.len() {
        lemma_take_succ(gs, k);
        lemma_sum_heights_prefix(gs, k + 1);
    } else {
        assert(gs.take(k) =~= gs);
    }
}

/// Sum of the display widths of the surfaces.
pub fn total_width(surfaces: &[Surface]) -> (w: usize)
    requires
        all_fit(views(surfaces@)),
        sum_widths(views(surfaces@)) <= usize::MAX,
    ensures
        w as nat == sum_widths(views(surfaces@)),
{
    let ghost gs = views(surfaces@);
    let mut w: usize = 0;
    let mut k: usize = 0;
    while k < surfaces.len()
        invariant
            k <= surfaces@.len(),
            gs == views(surfaces@),
            all_fit(gs),
            sum_widths(gs) <= usize::MAX,
            w as nat == sum_widths(gs.take(k as int)),
        decreases surfaces@.len() - k,
    {
        proof {
            lemma_take_succ(gs, k as int);
            lemma_sum_widths_prefix(gs, k + 1);
            assert(gs[k as int] == surfaces@[k as int]@);
            assert(rows_fit(gs[k as int]));
        }
        let sw = surfaces[k].width();
        w = w + sw;
        k = k + 1;
    }
    assert(gs.take(surfaces@.len() as int) =~= gs);
    w
}

/// Alias of [`total_width`].
pub fn width(surfaces: &[Surface]) -> (w: usize)
    requires
        all_fit(views(surfaces@)),
        sum_widths(views(surfaces@)) <= usize::MAX,
    ensures
        w as nat == sum_widths(views(surfaces@)),
{
    total_width(surfaces)
}

/// Whether every surface fits and their widths sum to at most `usize::MAX`.
pub fn widths_fit(surfaces: &[Surface]) -> (b: bool)
    ensures
        b == (all_fit(views(surfaces@)) && sum_widths(views(surfaces@)) <= usize::MAX),
{
    let ghost gs = views(surfaces@);
    let mut w: usize = 0;
    let mut k: usize = 0;
    while k < surfaces.len()
        invariant
            k <= surfaces@.len(),
            gs == views(surfaces@),
            forall|j: int| 0 <= j < k ==> #[trigger] rows_fit(gs[j]),
            w as nat == sum_widths(gs.take(k as int)),
        decreases surfaces@.len() - k,
    {
        proof {
            lemma_take_succ(gs, k as int);
            assert(gs[k as int] == surfaces@[k as int]@);
        }
        match surfaces[k].try_width() {
            Some(sw) => match w.checked_add(sw) {
                Some(n) => {
                    w = n;
                },
                None => {
                    proof {
                        lemma_sum_widths_prefix(gs, k + 1);
                    }
                    return false;
                },
            },
            None => {
                return false;
            },
        }
        k = k + 1;
    }
    assert(gs.take(surfaces@.len() as int) =~= gs);
    true
}

/// Sum of the display widths, or `None` where a surface or the sum does not
/// fit in `usize`.
pub fn try_total_width(surfaces: &[Surface]) -> (w: Option<usize>)
    ensures
        match w {
            Some(n) => all_fit(views(surfaces@)) && n as nat == sum_widths(views(surfaces@)),
            None => !(all_fit(views(surfaces@)) && sum_widths(views(surfaces@)) <= usize::MAX),
        },
{
    if widths_fit(surfaces) {
        Some(width(surfaces))
    } else {
        None
    }
}

fn max_height_of(surfaces: &[Surface]) -> (h: usize)
    ensures
        h as nat == max_height(views(surfaces@)),
{
    let ghost gs = views(surfaces@);
    let mut h: usize = 0;
    let mut k: usize = 0;
    while k < surfaces.len()
        invariant
            k <= surfaces@.len(),
            gs == views(surfaces@),
            h as nat == max_height(gs.take(k as int)),
        decreases surfaces@.len() - k,
    {
        proof {
            lemma_take_succ(gs, k as int);
            assert(gs[k as int] == surfaces@[k as int]@);
        }
        let sh = surfaces[k].height();
        if sh > h {
            h = sh;
        }
        k = k + 1;
    }
    assert(gs.take(surfaces@.len() as int) =~= gs);
    h
}

/// Joins surfaces side by side, each aligned vertically by `align` (`Top`,
/// `Bottom`, any other position centred), on a blank canvas.
pub fn join_horizontal(align: Position, surfaces: &[Surface]) -> (out: Surface)
    requires
        all_fit(views(surfaces@)),
        sum_widths(views(surfaces@)) <= usize::MAX,
    ensures
        out@ == joined_horizontally(align, views(surfaces@)),
{
    if surfaces.len() == 0 {
        return Surface { rows: Vec::new() };
    }
    let ghost gs = views(surfaces@);
    let total = total_width(surfaces);
    let max_h = max_height_of(surfaces);
    let blank = Cell::blank(Style::new());
    let mut out = Surface::new(total, max_h, &blank);
    let mut x_offset: usize = 0;
    let mut k: usize = 0;
    assert(gs.skip(0) =~= gs);
    while k < surfaces.len()
        invariant
            k <= surfaces@.len(),
            gs == views(surfaces@),
            all_fit(gs),
            sum_widths(gs) <= usize::MAX,
            max_h as nat == max_height(gs),
            x_offset as nat == sum_widths(gs.take(k as int)),
            joined_horizontally(align, gs) == hjoin_from(out@, gs.skip(k as int), align, max_h as nat, x_offset as int),
        decreases surfaces@.len() - k,
    {
        proof {
            lemma_take_succ(gs, k as int);
            lemma_sum_widths_prefix(gs, k + 1);
            assert(gs[k as int] == surfaces@[k as int]@);
            assert(rows_fit(gs[k as int]));
            assert(gs.skip(k as int).drop_first() =~= gs.skip(k + 1));
            assert(gs.skip(k as int)[0] == gs[k as int]);
        }
        let sw = surfaces[k].width();
        let sh = surfaces[k].height();
        let y_off = v_offset_exec(align, max_h, sh);
        out.paint_from(&surfaces[k], x_offset, y_off);
        x_offset = x_offset + sw;
        k = k + 1;
    }
    out
}

/// Joins surfaces stacked top to bottom, each aligned horizontally by
/// `align` (`Left`, `Right`, any other position centred), on a blank canvas.
pub fn join_vertical(align: Position, surfaces: &[Surface]) -> (out: Surface)
    requires
        all_fit(views(surfaces@)),
        sum_heights(views(surfaces@)) <= usize::MAX,
    ensures
        out@ == joined_vertically(align, views(surfaces@)),
{
    if surfaces.len() == 0 {
        return Surface { rows: Vec::new() };
    }
    let ghost gs = views(surfaces@);
    let mut total_h: usize = 0;
    let mut max_w: usize = 0;
    let mut k: usize = 0;
    while k < surfaces.len()
        invariant
            k <= surfaces@.len(),
            gs == views(surfaces@),
            all_fit(gs),
            sum_heights(gs) <= usize::MAX,
            total_h as nat == sum_heights(gs.take(k as int)),
            max_w as nat == max_width(gs.take(k as int)),
        decreases surfaces@.len() - k,
    {
        proof {
            lemma_take_succ(gs, k as int);
            assert(gs[k as int] == surfaces@[k as int]@);
            assert(rows_fit(gs[k as int]));
        }
        let sw = surfaces[k].width();
        let sh = surfaces[k].height();
        proof {
            lemma_sum_heights_prefix(gs, k + 1);
        }
        total_h = total_h + sh;
        if sw > max_w {
            max_w = sw;
        }
        k = k + 1;
    }
    assert(gs.take(surfaces@.len() as int) =~= gs);
    let blank = Cell::blank(Style::new());
    let mut out = Surface::new(max_w, total_h, &blank);
    let mut y_offset: usize = 0;
    k = 0;
    assert(gs.skip(0) =~= gs);
    while k < surfaces.len()
        invariant
            k <= surfaces@.len(),
            gs == views(surfaces@),
            all_fit(gs),
            total_h as nat == sum_heights(gs),
            max_w as nat == max_width(gs),
            y_offset as nat == sum_heights(gs.take(k as int)),
            joined_vertically(align, gs) == vjoin_from(out@, gs.skip(k as int), align, max_w as nat, y_offset as int),
        decreases surfaces@.len() - k,
    {
        proof {
            lemma_take_succ(gs, k as int);
            lemma_sum_heights_prefix(gs, k + 1);
            assert(gs[k as int] == surfaces@[k as int]@);
            assert(rows_fit(gs[k as int]));
            assert(gs.skip(k as int).drop_first() =~= gs.skip(k + 1));
            assert(gs.skip(k as int)[0] == gs[k as int]);
        }
        let sw = surfaces[k].width();
        let sh = surfaces[k].height();
        let x_off = h_offset_exec(align, max_w, sw);
        out.paint_from(&surfaces[k], x_off, y_offset);
        y_offset = y_offset + sh;
        k = k + 1;
    }
    out
}


/// Joins side by side as [`join_horizontal`] does, or `None` where a
/// surface or the sum of the widths does not fit in `usize`.
pub fn try_join_horizontal(align: Position, surfaces: &[Surface]) -> (out: Option<Surface>)
    ensures
        match out {
            Some(s) => all_fit(views(surfaces@)) && s@ == joined_horizontally(align, views(surfaces@)),
            None => !(all_fit(views(surfaces@)) && sum_widths(views(surfaces@)) <= usize::MAX),
        },
{
    if widths_fit(surfaces) {
        Some(join_horizontal(align, surfaces))
    } else {
        None
    }
}

/// Whether every surface fits in `usize` columns and their heights sum to
/// at most `usize::MAX`.
pub fn heights_fit(surfaces: &[Surface]) -> (b: bool)
    ensures
        b == (all_fit(views(surfaces@)) && sum_heights(views(surfaces@)) <= usize::MAX),
{
    let ghost gs = views(surfaces@);
    let mut h: usize = 0;
    let mut k: usize = 0;
    while k < surfaces.len()
        invariant
            k <= surfaces@.len(),
            gs == views(surfaces@),
            forall|j: int| 0 <= j < k ==> #[trigger] rows_fit(gs[j]),
            h as nat == sum_heights(gs.take(k as int)),
        decreases surfaces@.len() - k,
    {
        proof {
            lemma_take_succ(gs, k as int);
            assert(gs[k as int] == surfaces@[k as int]@);
        }
        match surfaces[k].try_width() {
            Some(_) => {},
            None => {
                return false;
            },
        }
        match h.checked_add(surfaces[k].height()) {
            Some(n) => {
                h = n;
            },
            None => {
                proof {
                    lemma_sum_heights_prefix(gs, k + 1);
                }
                return false;
            },
        }
        k = k + 1;
    }
    assert(gs.take(surfaces@.len() as int) =~= gs);
    true
}

/// Stacks as [`join_vertical`] does, or `None` where a surface does not fit
/// in `usize` columns or the heights do not sum within `usize`.
pub fn try_join_vertical(align: Position, surfaces: &[Surface]) -> (out: Option<Surface>)
    ensures
        match out {
            Some(s) => all_fit(views(surfaces@)) && s@ == joined_vertically(align, views(surfaces@)),
            None => !(all_fit(views(surfaces@)) && sum_heights(views(surfaces@)) <= usize::MAX),
        },
{
    if heights_fit(surfaces) {
        Some(join_vertical(align, surfaces))
    } else {
        None
    }
}

/// Number of leading cells of `r` that fit in `w` columns: the whole row
/// where it fits, else the cells that fit of the row without its last cell.
pub open spec fn fit_count(r: Seq<CellView>, w: nat) -> nat
    decreases r.len(),
{
    if row_width(r) <= w { r.len() } else if r.len() == 0 { 0 } else { fit_count(r.drop_last(), w) }
}

/// The leading cells of `r` that fit in `w` columns.
pub open spec fn clip_row(r: Seq<CellView>, w: nat) -> Seq<CellView> {
    r.take(fit_count(r, w) as int)
}

/// A prefix that fits, one cell short of one that does not, is the
/// [`fit_count`] prefix.
pub proof fn lemma_fit_count(r: Seq<CellView>, w: nat, k: nat)
    requires
        k <= r.len(),
        row_width(r.take(k as int)) <= w,
        k == r.len() || row_width(r.take(k as int + 1)) > w,
    ensures
        fit_count(r, w) == k,
    decreases r.len(),
{
    if row_width(r) <= w {
        if k < r.len() {
            lemma_row_width_prefix(r, k as int + 1);
        }
    } else {
        assert(r.take(r.len() as int) =~= r);
        assert(k < r.len());
        let d = r.drop_last();
        assert(d.take(k as int) =~= r.take(k as int));
        if k + 1 <= d.len() {
            assert(d.take(k as int + 1) =~= r.take(k as int + 1));
        }
        lemma_fit_count(d, w, k);
    }
}

/// The [`fit_count`] prefix fits, and it is the longest that does: one more
/// cell would not fit.
pub proof fn lemma_clip_row_fits(r: Seq<CellView>, w: nat)
    ensures
        fit_count(r, w) <= r.len(),
        row_width(clip_row(r, w)) <= w,
        fit_count(r, w) < r.len() ==> row_width(r.take(fit_count(r, w) as int + 1)) > w,
    decreases r.len(),
{
    if row_width(r) <= w {
        assert(r.take(r.len() as int) =~= r);
    } else if r.len() > 0 {
        let d = r.drop_last();
        lemma_clip_row_fits(d, w);
        let k = fit_count(d, w);
        assert(r.take(k as int) =~= d.take(k as int));
        if k < d.len() {
            assert(r.take(k as int + 1) =~= d.take(k as int + 1));
        } else {
            assert(r.take(k as int + 1) =~= r);
        }
    }
}

/// Clipping keeps of each row the longest leading part that fits in `w`
/// columns, and clipping again changes nothing.
pub proof fn lemma_clip_is_longest_prefix_and_idempotent(g: Seq<Seq<CellView>>, w: nat)
    ensures
        forall|i: int|
            0 <= i < g.len() ==> {
                let r = #[trigger] g[i];
                let k = fit_count(r, w);
                &&& k <= r.len()
                &&& clip_row(r, w) == r.take(k as int)
                &&& row_width(r.take(k as int)) <= w
                &&& k < r.len() ==> row_width(r.take(k as int + 1)) > w
            },
        g.map_values(|r: Seq<CellView>| clip_row(r, w)).map_values(|r: Seq<CellView>| clip_row(r, w)) == g.map_values(
            |r: Seq<CellView>| clip_row(r, w),
        ),
{
    assert forall|i: int| 0 <= i < g.len() implies {
        let r = #[trigger] g[i];
        let k = fit_count(r, w);
        &&& k <= r.len()
        &&& clip_row(r, w) == r.take(k as int)
        &&& row_width(r.take(k as int)) <= w
        &&& k < r.len() ==> row_width(r.take(k as int + 1)) > w
    } by {
        lemma_clip_row_fits(g[i], w);
    }
    let c = g.map_values(|r: Seq<CellView>| clip_row(r, w));
    assert forall|i: int| 0 <= i < c.len() implies clip_row(#[trigger] c[i], w) == c[i] by {
        lemma_clip_row_fits(g[i], w);
        let ci = c[i];
        assert(ci.take(ci.len() as int) =~= ci);
    }
    assert(c.map_values(|r: Seq<CellView>| clip_row(r, w)) =~= c);
}

/// The leading cells of the row that fit in `max` columns, counted forward.
fn clip_row_exec(row: &Vec<Cell>, max: usize) -> (k: usize)
    ensures
        k as nat == fit_count(row_view(*row), max as nat),
        k <= row@.len(),
{
    let ghost rv = row_view(*row);
    let mut w: usize = 0;
    let mut i: usize = 0;
    while i < row.len()
        invariant
            i <= row@.len(),
            rv == row_view(*row),
            w as nat == row_width(rv.take(i as int)),
            w <= max,
        decreases row@.len() - i,
    {
        proof {
            lemma_row_width_step(rv, i as int);
        }
        let cw = row[i].layout_cols();
        match w.checked_add(cw) {
            Some(n) => {
                if n > max {
                    proof {
                        lemma_fit_count(rv, max as nat, i as nat);
                    }
                    return i;
                }
                w = n;
            },
            None => {
                proof {
                    lemma_fit_count(rv, max as nat, i as nat);
                }
                return i;
            },
        }
        i = i + 1;
    }
    proof {
        lemma_fit_count(rv, max as nat, i as nat);
    }
    i
}

/// Drops cells from the end of every row until it fits in `max_width`
/// columns; short rows are left as they are.
pub fn clip(surf: &mut Surface, max_width: usize)
    ensures
        final(surf)@ == old(surf)@.map_values(|r: Seq<CellView>| clip_row(r, max_width as nat)),
{
    let ghost target = old(surf)@.map_values(|r: Seq<CellView>| clip_row(r, max_width as nat));
    let mut y: usize = 0;
    while y < surf.rows.len()
        invariant
            y <= surf.rows@.len(),
            surf.rows@.len() == old(surf).rows@.len(),
            target == old(surf)@.map_values(|r: Seq<CellView>| clip_row(r, max_width as nat)),
            forall|j: int| 0 <= j < y ==> #[trigger] surf@[j] == target[j],
            forall|j: int| y <= j < surf.rows@.len() ==> #[trigger] surf@[j] == old(surf)@[j],
        decreases surf.rows@.len() - y,
    {
        let ghost before = surf@;
        let ghost rows_before = surf.rows@;
        assert(before[y as int] == old(surf)@[y as int]);
        let mut row: Vec<Cell> = Vec::new();
        std::mem::swap(&mut row, &mut surf.rows[y]);
        assert(row_view(row) == old(surf)@[y as int]);
        let k = clip_row_exec(&row, max_width);
        row.truncate(k);
        assert(row_view(row) =~= target[y as int]);
        let ghost mid = surf.rows@;
        surf.rows.set(y, row);
        proof {
            lemma_map_update(mid, y as int, row, |r: Vec<Cell>| row_view(r));
        }
        assert forall|j: int| 0 <= j < surf.rows@.len() && j != y implies #[trigger] surf@[j] == before[j] by {
            assert(surf.rows@[j] == rows_before[j]);
        }
        y = y + 1;
    }
    assert(surf@ =~= target);
}

/// Alias of [`clip`].
pub fn flex_truncate(surf: &mut Surface, max_width: usize)
    ensures
        final(surf)@ == old(surf)@.map_values(|r: Seq<CellView>| clip_row(r, max_width as nat)),
{
    clip(surf, max_width);
}

/// A row made `w` columns wide: where it is wider, cut as [`clip_row`] does
/// and then, where a wide cell crossing the limit left it short, padded
/// right with copies of `fill` for the missing columns; where it is
/// narrower, padded right with copies of `fill`. With a one-column `fill`
/// the row is exactly `w` columns wide (see [`lemma_fit_row_width`]).
pub open spec fn fit_row(r: Seq<CellView>, w: nat, fill: CellView) -> Seq<CellView> {
    if row_width(r) > w {
        let c = clip_row(r, w);
        c + Seq::new((w - row_width(c)) as nat, |i: int| fill)
    } else if row_width(r) < w {
        r + Seq::new((w - row_width(r)) as nat, |i: int| fill)
    } else {
        r
    }
}

/// Appends `n` copies of `fill` to the row.
fn pad_row(row: &mut Vec<Cell>, n: usize, fill: &Cell)
    ensures
        row_view(*final(row)) == row_view(*old(row)) + Seq::new(n as nat, |t: int| fill@),
{
    let ghost orig = row_view(*row);
    let mut i: usize = 0;
    while i < n
        invariant
            i <= n,
            row_view(*row) =~= orig + Seq::new(i as nat, |t: int| fill@),
        decreases n - i,
    {
        let c = fill.clone();
        let ghost prev = row@;
        row.push(c);
        proof {
            lemma_map_push(prev, c, |c: Cell| c@);
        }
        i = i + 1;
    }
}

/// Laying out `n` copies of a one-column cell after a row adds `n` columns.
proof fn lemma_row_width_padded(r: Seq<CellView>, n: nat, fill: CellView)
    requires
        cols(fill) == 1,
    ensures
        row_width(r + Seq::new(n, |t: int| fill)) == row_width(r) + n,
    decreases n,
{
    if n == 0 {
        assert(r + Seq::new(0, |t: int| fill) =~= r);
    } else {
        lemma_row_width_padded(r, (n - 1) as nat, fill);
        let p = r + Seq::new(n, |t: int| fill);
        assert(p.drop_last() =~= r + Seq::new((n - 1) as nat, |t: int| fill));
    }
}

/// With a one-column `fill`, a fitted row is exactly `w` columns wide.
pub proof fn lemma_fit_row_width(r: Seq<CellView>, w: nat, fill: CellView)
    requires
        cols(fill) == 1,
    ensures
        row_width(fit_row(r, w, fill)) == w,
{
    if row_width(r) > w {
        lemma_clip_row_fits(r, w);
        let c = clip_row(r, w);
        lemma_row_width_padded(c, (w - row_width(c)) as nat, fill);
    } else if row_width(r) < w {
        lemma_row_width_padded(r, (w - row_width(r)) as nat, fill);
    }
}

/// Makes every row `width` columns wide: wider rows are cut at the last cell
/// that fits, and every row short of `width` columns, cut or not, is padded
/// with copies of `fill`, one per missing column.
pub fn fit_width(surf: &mut Surface, width: usize, fill: &Cell)
    ensures
        final(surf)@ == old(surf)@.map_values(|r: Seq<CellView>| fit_row(r, width as nat, fill@)),
{
    let ghost target = old(surf)@.map_values(|r: Seq<CellView>| fit_row(r, width as nat, fill@));
    let mut y: usize = 0;
    while y < surf.rows.len()
        invariant
            y <= surf.rows@.len(),
            surf.rows@.len() == old(surf).rows@.len(),
            target == old(surf)@.map_values(|r: Seq<CellView>| fit_row(r, width as nat, fill@)),
            forall|j: int| 0 <= j < y ==> #[trigger] surf@[j] == target[j],
            forall|j: int| y <= j < surf.rows@.len() ==> #[trigger] surf@[j] == old(surf)@[j],
        decreases surf.rows@.len() - y,
    {
        let ghost before = surf@;
        let ghost rows_before = surf.rows@;
        assert(before[y as int] == old(surf)@[y as int]);
        let mut row: Vec<Cell> = Vec::new();
        std::mem::swap(&mut row, &mut surf.rows[y]);
        let ghost orig = row_view(row);
        assert(orig == old(surf)@[y as int]);
        let over = match checked_row_width(&row) {
            Some(cur) => cur > width,
            None => true,
        };
        if over {
            let k = clip_row_exec(&row, width);
            row.truncate(k);
            let ghost clipped = row_view(row);
            assert(clipped =~= clip_row(orig, width as nat));
            proof {
                lemma_clip_row_fits(orig, width as nat);
            }
            let cw = match checked_row_width(&row) {
                Some(n) => n,
                None => 0,
            };
            pad_row(&mut row, width - cw, fill);
            assert(row_view(row) =~= target[y as int]);
        } else {
            let cur = match checked_row_width(&row) {
                Some(n) => n,
                None => 0,
            };
            pad_row(&mut row, width - cur, fill);
            assert(row_view(row) =~= target[y as int]);
        }
        let ghost mid = surf.rows@;
        surf.rows.set(y, row);
        proof {
            lemma_map_update(mid, y as int, row, |r: Vec<Cell>| row_view(r));
        }
        assert forall|j: int| 0 <= j < surf.rows@.len() && j != y implies #[trigger] surf@[j] == before[j] by {
            assert(surf.rows@[j] == rows_before[j]);
        }
        y = y + 1;
    }
    assert(surf@ =~= target);
}

/// Alias of [`fit_width`].
pub fn set_width(surf: &mut Surface, width: usize, fill: &Cell)
    ensures
        final(surf)@ == old(surf)@.map_values(|r: Seq<CellView>| fit_row(r, width as nat, fill@)),
{
    fit_width(surf, width, fill);
}

/// The grid made exactly `height` rows high: extra rows dropped, missing
/// rows added at the bottom, each as many copies of `fill` as the longest
/// row had cells.
pub open spec fn fit_rows(g: Seq<Seq<CellView>>, height: nat, fill: CellView) -> Seq<Seq<CellView>> {
    if g.len() > height {
        g.take(height as int)
    } else if g.len() < height {
        g + filled_grid(grid_columns(g), (height - g.len()) as nat, fill)
    } else {
        g
    }
}

/// Makes the surface exactly `height` rows high: extra rows are dropped,
/// missing ones added at the bottom, filled with `fill` as wide (in cells)
/// as the longest row.
pub fn fit_height(surf: &mut Surface, height: usize, fill: &Cell)
    ensures
        final(surf)@ == fit_rows(old(surf)@, height as nat, fill@),
{
    let current = surf.height();
    if current > height {
        surf.rows.truncate(height);
        assert(surf@ =~= fit_rows(old(surf)@, height as nat, fill@));
    } else if current < height {
        let width = surf.columns();
        let ghost base = old(surf)@;
        let mut i: usize = 0;
        while i < height - current
            invariant
                i <= height - current,
                current == base.len(),
                width as nat == grid_columns(base),
                surf.rows@.len() == current + i,
                surf@ =~= base + filled_grid(width as nat, i as nat, fill@),
            decreases height - current - i,
        {
            let row = filled_row(width, fill);
            let ghost prev = surf.rows@;
            surf.rows.push(row);
            proof {
                lemma_map_push(prev, row, |r: Vec<Cell>| row_view(r));
            }
            i = i + 1;
        }
    }
}

/// Alias of [`fit_height`].
pub fn set_height(surf: &mut Surface, height: usize, fill: &Cell)
    ensures
        final(surf)@ == fit_rows(old(surf)@, height as nat, fill@),
{
    fit_height(surf, height, fill);
}


/// A `width` x `height` grid whose cells, read row by row, repeat the
/// characters of `chars` in turn, all in `style`.
pub open spec fn pattern_grid(width: nat, height: nat, chars: Seq<char>, style: Style) -> Seq<Seq<CellView>> {
    Seq::new(
        height,
        |y: int| Seq::new(width, |x: int| CellView { symbol: seq![chars[(y * width + x) % (chars.len() as int)]], style }),
    )
}

/// Places `surf` as [`place`] does, on a background that repeats the
/// characters of `chars` cell by cell, row by row, in `fill_style`.
pub fn place_filled(
    width: usize,
    height: usize,
    h_align: Position,
    v_align: Position,
    surf: &Surface,
    fill_style: Style,
    chars: &str,
) -> (out: Surface)
    requires
        width == 0 || height == 0 || chars@.len() > 0,
    ensures
        out@ == paint(
            pattern_grid(width as nat, height as nat, chars@, fill_style),
            surf@,
            h_offset(h_align, width as nat, grid_width(surf@)) as int,
            v_offset(v_align, height as nat, surf@.len()) as int,
        ),
{
    let chars_vec = chars_of(chars);
    let n = chars_vec.len();
    let ghost pat = pattern_grid(width as nat, height as nat, chars@, fill_style);
    let mut rows: Vec<Vec<Cell>> = Vec::new();
    let mut k: usize = 0;
    let ghost mut t: int = 0;
    let mut y: usize = 0;
    if width > 0 && height > 0 {
        while y < height
            invariant
                width > 0,
                y <= height,
                n == chars@.len(),
                n > 0,
                chars_vec@ == chars@,
                pat == pattern_grid(width as nat, height as nat, chars@, fill_style),
                rows@.len() == y,
                t == y * width,
                k == t % (n as int),
                (Surface { rows })@ =~= pat.take(y as int),
            decreases height - y,
        {
            let mut row: Vec<Cell> = Vec::new();
            let mut x: usize = 0;
            while x < width
                invariant
                    x <= width,
                    y < height,
                    n == chars@.len(),
                    n > 0,
                    chars_vec@ == chars@,
                    pat == pattern_grid(width as nat, height as nat, chars@, fill_style),
                    row@.len() == x,
                    t == y * width + x,
                    k == t % (n as int),
                    row_view(row) =~= pat[y as int].take(x as int),
                decreases width - x,
            {
                let c = Cell::new(char_to_string(chars_vec[k]), fill_style);
                let ghost prev = row@;
                row.push(c);
                proof {
                    lemma_map_push(prev, c, |c: Cell| c@);
                    assert((t + 1) % (n as int) == if t % (n as int) + 1 == n { 0 } else { t % (n as int) + 1 })
                        by (nonlinear_arith)
                        requires
                            n > 0,
                            t >= 0,
                    ;
                    t = t + 1;
                }
                k = if k + 1 == n { 0 } else { k + 1 };
                x = x + 1;
            }
            assert(pat[y as int].take(width as int) =~= pat[y as int]);
            let ghost prev = rows@;
            rows.push(row);
            proof {
                lemma_map_push(prev, row, |r: Vec<Cell>| row_view(r));
                assert(t == (y + 1) * width) by (nonlinear_arith)
                    requires
                        t == y * width + width,
                ;
            }
            y = y + 1;
        }
    } else {
        let empty: Vec<Cell> = Vec::new();
        while y < height
            invariant
                width == 0 || height == 0,
                y <= height,
                pat == pattern_grid(width as nat, height as nat, chars@, fill_style),
                rows@.len() == y,
                (Surface { rows })@ =~= pat.take(y as int),
            decreases height - y,
        {
            let ghost prev = rows@;
            let r: Vec<Cell> = Vec::new();
            rows.push(r);
            proof {
                lemma_map_push(prev, r, |r: Vec<Cell>| row_view(r));
                assert(row_view(r) =~= pat[y as int]);
            }
            y = y + 1;
        }
    }
    let mut out = Surface { rows };
    assert(out@ =~= pat);
    let sw = surf.width_or_max();
    let sh = surf.height();
    let x = h_offset_exec(h_align, width, sw);
    let y = v_offset_exec(v_align, height, sh);
    out.paint_from(surf, x, y);
    out
}

/// Alias of [`place_filled`].
pub fn place_with_whitespace(
    width: usize,
    height: usize,
    h_align: Position,
    v_align: Position,
    surf: &Surface,
    fill_style: Style,
    chars: &str,
) -> (out: Surface)
    requires
        width == 0 || height == 0 || chars@.len() > 0,
    ensures
        out@ == paint(
            pattern_grid(width as nat, height as nat, chars@, fill_style),
            surf@,
            h_offset(h_align, width as nat, grid_width(surf@)) as int,
            v_offset(v_align, height as nat, surf@.len()) as int,
        ),
{
    place_filled(width, height, h_align, v_align, surf, fill_style, chars)
}

} // verus!

verus! {

/// Where a row's cells land when the row is drawn from column `x` into a
/// buffer whose right edge is `right`: each cell of non-zero width (counted
/// in `u16`) goes at the current column, and the next one after it, until
/// a cell would start or end past the edge. Each entry is the column and the
/// cell's index in the row.
pub open spec fn blit_row(row: Seq<CellView>, i: int, x: nat, right: nat) -> Seq<(nat, int)>
    decreases row.len() - i,
{
    if i < 0 || i >= row.len() {
        seq![]
    } else {
        let w = ((display_width(row[i].symbol) as usize) as u16) as nat;
        if w == 0 {
            blit_row(row, i + 1, x, right)
        } else if x >= right || x + w > right {
            seq![]
        } else {
            seq![(x, i)] + blit_row(row, i + 1, x + w, right)
        }
    }
}

/// Where the cells of a grid land when drawn from (`x`, `y`) into a buffer
/// covering `area`, from row `j` on: the rows go one below the other until
/// one would start below the buffer. Each entry is the column, the row on
/// screen, and the cell's row and index in the grid.
pub open spec fn blit_grid(g: Seq<Seq<CellView>>, j: int, x: nat, y: nat, area: Rect) -> Seq<(nat, nat, int, int)>
    decreases g.len() - j,
{
    if j < 0 || j >= g.len() || y + j >= area.y + area.height {
        seq![]
    } else {
        blit_row(g[j], 0, x, (area.x + area.width) as nat).map_values(
            |p: (nat, int)| (p.0, (y + j) as nat, j, p.1),
        ) + blit_grid(g, j + 1, x, y, area)
    }
}

/// One cell to draw: the column and row on screen, and the cell's row and
/// index in the surface.
pub struct BlitStep {
    pub x: u16,
    pub y: u16,
    pub row: usize,
    pub col: usize,
}

/// The abstract value of a step.
pub open spec fn blit_step_view(s: BlitStep) -> (nat, nat, int, int) {
    (s.x as nat, s.y as nat, s.row as int, s.col as int)
}

impl Surface {
    fn blit_row_plan(&self, j: usize, x: u16, y: u16, right: u16, out: &mut Vec<BlitStep>)
        requires
            j < self@.len(),
        ensures
            final(out)@.map_values(|s: BlitStep| blit_step_view(s)) == old(out)@.map_values(
                |s: BlitStep| blit_step_view(s),
            ) + blit_row(self@[j as int], 0, x as nat, right as nat).map_values(
                |p: (nat, int)| (p.0, y as nat, j as int, p.1),
            ),
    {
        let ghost row = self@[j as int];
        let ghost f = |p: (nat, int)| (p.0, y as nat, j as int, p.1);
        let ghost g = |s: BlitStep| blit_step_view(s);
        let ghost start = out@.map_values(g);
        let ghost total = blit_row(row, 0, x as nat, right as nat);
        let n = self.rows[j].len();
        let mut dx: u16 = x;
        let mut i: usize = 0;
        let ghost mut done: Seq<(nat, int)> = seq![];
        while i < n
            invariant
                n == row.len(),
                row == self@[j as int],
                j < self@.len(),
                i <= n,
                total == blit_row(row, 0, x as nat, right as nat),
                total == done + blit_row(row, i as int, dx as nat, right as nat),
                out@.map_values(g) == start + done.map_values(f),
                f == (|p: (nat, int)| (p.0, y as nat, j as int, p.1)),
                g == (|s: BlitStep| blit_step_view(s)),
            ensures
                out@.map_values(g) == start + total.map_values(f),
            decreases n - i,
        {
            let cell = &self.rows[j][i];
            let w: u16 = #[verifier::truncate] (cell.width() as u16);
            proof {
                assert(row[i as int] == self.rows@[j as int]@[i as int]@);
            }
            if w == 0 {
                i = i + 1;
                continue;
            }
            if dx >= right || dx as u32 + w as u32 > right as u32 {
                proof {
                    assert(blit_row(row, i as int, dx as nat, right as nat) == Seq::<(nat, int)>::empty());
                    assert(total =~= done);
                }
                break;
            }
            let ghost before = out@;
            let step = BlitStep { x: dx, y, row: j, col: i };
            out.push(step);
            proof {
                crate::surface::lemma_map_push(before, step, g);
                assert(blit_row(row, i as int, dx as nat, right as nat) == seq![(dx as nat, i as int)] + blit_row(
                    row,
                    i + 1,
                    (dx + w) as nat,
                    right as nat,
                ));
                lemma_map_push(done, (dx as nat, i as int), f);
                done = done.push((dx as nat, i as int));
                assert(total =~= done + blit_row(row, i + 1, (dx + w) as nat, right as nat));
            }
            dx = dx + w;
            i = i + 1;
        }
        proof {
            if i >= n {
                assert(total =~= done);
            }
        }
    }

    /// The cells this surface draws into a buffer covering `area` when drawn
    /// from (`x`, `y`) (see [`blit_grid`]), in drawing order: row by row, each
    /// row's cells left to right, clipped at the buffer's right and bottom
    /// edges.
    pub fn blit_plan(&self, area: Rect, x: u16, y: u16) -> (out: Vec<BlitStep>)
        requires
            area.x + area.width <= u16::MAX,
            area.y + area.height <= u16::MAX,
        ensures
            out@.map_values(|s: BlitStep| blit_step_view(s)) == blit_grid(self@, 0, x as nat, y as nat, area),
    {
        let ghost g = |s: BlitStep| blit_step_view(s);
        let right = area.x + area.width;
        let bottom = area.y + area.height;
        let mut out: Vec<BlitStep> = Vec::new();
        let n = self.rows.len();
        let mut j: usize = 0;
        let ghost total = blit_grid(self@, 0, x as nat, y as nat, area);
        while j < n
            invariant
                n == self@.len(),
                j <= n,
                right == area.x + area.width,
                bottom == area.y + area.height,
                total == blit_grid(self@, 0, x as nat, y as nat, area),
                total == out@.map_values(g) + blit_grid(self@, j as int, x as nat, y as nat, area),
                g == (|s: BlitStep| blit_step_view(s)),
                y + j <= u16::MAX + 1,
            ensures
                total == out@.map_values(g),
            decreases n - j,
        {
            if y as u32 + j as u32 >= bottom as u32 {
                proof {
                    assert(blit_grid(self@, j as int, x as nat, y as nat, area) == Seq::<(nat, nat, int, int)>::empty());
                    assert(total =~= out@.map_values(g));
                }
                break;
            }
            let dst_y: u16 = y + j as u16;
            let ghost before = out@.map_values(g);
            self.blit_row_plan(j, x, dst_y, right, &mut out);
            proof {
                let rowpart = blit_row(self@[j as int], 0, x as nat, right as nat).map_values(
                    |p: (nat, int)| (p.0, (y + j) as nat, j as int, p.1),
                );
                assert(blit_grid(self@, j as int, x as nat, y as nat, area) == rowpart + blit_grid(
                    self@,
                    j + 1,
                    x as nat,
                    y as nat,
                    area,
                ));
                assert(total =~= out@.map_values(g) + blit_grid(self@, j + 1, x as nat, y as nat, area));
            }
            j = j + 1;
        }
        proof {
            if j >= n {
                assert(total =~= out@.map_values(g));
            }
        }
        out
    }
}

} // verus!

//! Screen effects: where they move or recolour cells. Drawing them onto the
//! terminal buffer is the caller's part.

use vstd::prelude::*;
use crate::surface::{Cell, CellView, Surface, put_in_grid};
use crate::text::{char_to_string, chars_of};
use crate::tui::{Color, Rect, Style};

verus! {

/// Shifts the drawn content by `dx` columns and `dy` rows.
#[derive(Debug, Clone, Copy, PartialEq, Eq, Structural)]
pub struct Slide {
    pub dx: i16,
    pub dy: i16,
}

/// The cell of `area` that a slide moves cell (`x`, `y`) to, if it stays
/// inside; coordinates are compared as `i16`, as the terminal draws them.
pub open spec fn slide_target(s: Slide, area: Rect, x: u16, y: u16) -> Option<(u16, u16)> {
    let tx: int = (x as i16) + s.dx;
    let ty: int = (y as i16) + s.dy;
    if (area.x as i16) <= tx < (area.spec_right() as i16) && (area.y as i16) <= ty < (area.spec_bottom() as i16) {
        Some(((tx as i16) as u16, (ty as i16) as u16))
    } else {
        None
    }
}

impl Slide {
    /// A slide by `dx` columns and `dy` rows.
    pub fn new(dx: i16, dy: i16) -> (s: Slide)
        ensures
            s.dx == dx,
            s.dy == dy,
    {
        Slide { dx, dy }
    }

    /// Where cell (`x`, `y`) of `area` goes (see [`slide_target`]).
    pub fn target(&self, area: Rect, x: u16, y: u16) -> (r: Option<(u16, u16)>)
        requires
            i16::MIN <= (x as i16) + self.dx <= i16::MAX,
            i16::MIN <= (y as i16) + self.dy <= i16::MAX,
        ensures
            r == slide_target(*self, area, x, y),
    {
        let tx: i16 = (#[verifier::truncate] (x as i16)) + self.dx;
        let ty: i16 = (#[verifier::truncate] (y as i16)) + self.dy;
        let left: i16 = #[verifier::truncate] (area.left() as i16);
        let right: i16 = #[verifier::truncate] (area.right() as i16);
        let top: i16 = #[verifier::truncate] (area.top() as i16);
        let bottom: i16 = #[verifier::truncate] (area.bottom() as i16);
        if tx >= left && tx < right && ty >= top && ty < bottom {
            Some((#[verifier::truncate] (tx as u16), #[verifier::truncate] (ty as u16)))
        } else {
            None
        }
    }
}

/// A style with every colour reset and no modifiers, as a cleared terminal
/// cell has.
pub open spec fn reset_style() -> Style {
    Style {
        fg: Some(Color::Reset),
        bg: Some(Color::Reset),
        underline_color: Some(Color::Reset),
        add_modifier: crate::tui::Modifier { bits: 0 },
        sub_modifier: crate::tui::Modifier { bits: 0 },
    }
}

/// A cleared terminal cell: a space in the reset style.
pub open spec fn cleared_cell() -> CellView {
    CellView { symbol: seq![' '], style: reset_style() }
}

/// The screen after a slide by `dx` columns and `dy` rows within `area`:
/// each cell of `area` shows the cell that was `dx` columns left of and
/// `dy` rows above it, or a cleared cell where that one is outside `area`.
pub open spec fn slid(g: Seq<Seq<CellView>>, sa: Rect, area: Rect, dx: i16, dy: i16) -> Seq<Seq<CellView>> {
    Seq::new(
        g.len(),
        |j: int|
            Seq::new(
                g[j].len(),
                |i: int|
                    if !cell_in(sa, area, i, j) {
                        g[j][i]
                    } else if cell_in(sa, area, i - dx, j - dy) {
                        g[j - dy][i - dx]
                    } else {
                        cleared_cell()
                    },
            ),
    )
}

/// [`slid`] for the cells of `area` before screen row `yc` and, on that
/// row, left of column `xc`; the rest as in `g`.
pub open spec fn slid_upto(g: Seq<Seq<CellView>>, sa: Rect, area: Rect, dx: i16, dy: i16, yc: int, xc: int) -> Seq<
    Seq<CellView>,
> {
    Seq::new(
        g.len(),
        |j: int|
            Seq::new(
                g[j].len(),
                |i: int|
                    if !(cell_in(sa, area, i, j) && (sa.y + j < yc || (sa.y + j == yc && sa.x + i < xc))) {
                        g[j][i]
                    } else if cell_in(sa, area, i - dx, j - dy) {
                        g[j - dy][i - dx]
                    } else {
                        cleared_cell()
                    },
            ),
    )
}

fn cleared() -> (c: Cell)
    ensures
        c@ == cleared_cell(),
{
    let reset = Style {
        fg: Some(Color::Reset),
        bg: Some(Color::Reset),
        underline_color: Some(Color::Reset),
        add_modifier: crate::tui::Modifier::empty(),
        sub_modifier: crate::tui::Modifier::empty(),
    };
    Cell { symbol: char_to_string(' '), style: reset }
}

impl Slide {
    /// Moves the content of `area` on `screen` by the slide (see [`slid`]).
    /// Coordinates are compared as `i16`, so the area lies within the first
    /// `i16::MAX` columns and rows.
    pub fn apply(&self, area: Rect, screen: &mut Screen)
        requires
            old(screen).wf(),
            covers(old(screen).area, area),
            area.spec_right() <= i16::MAX,
            area.spec_bottom() <= i16::MAX,
        ensures
            final(screen).area == old(screen).area,
            final(screen).wf(),
            final(screen).grid@ == slid(old(screen).grid@, old(screen).area, area, self.dx, self.dy),
    {
        let ghost g = screen.grid@;
        let sa = screen.area;
        let scratch = screen.grid.clone();
        let dx = self.dx;
        let dy = self.dy;
        let bottom = area.bottom();
        let right = area.right();
        let mut y: u16 = area.y;
        assert(screen.grid@ =~~= slid_upto(g, sa, area, dx, dy, y as int, area.x as int));
        while y < bottom
            invariant
                sa == screen.area,
                sa == old(screen).area,
                g == old(screen).grid@,
                scratch@ == g,
                dx == self.dx,
                dy == self.dy,
                old(screen).wf(),
                screen.wf(),
                covers(sa, area),
                area.spec_right() <= i16::MAX,
                area.spec_bottom() <= i16::MAX,
                bottom == area.spec_bottom(),
                right == area.spec_right(),
                area.y <= y <= bottom,
                screen.grid@ == slid_upto(g, sa, area, dx, dy, y as int, area.x as int),
            decreases bottom - y,
        {
            let mut x: u16 = area.x;
            while x < right
                invariant
                    sa == screen.area,
                    g == old(screen).grid@,
                    scratch@ == g,
                    old(screen).wf(),
                    screen.wf(),
                    covers(sa, area),
                    area.spec_right() <= i16::MAX,
                    area.spec_bottom() <= i16::MAX,
                    bottom == area.spec_bottom(),
                    right == area.spec_right(),
                    area.y <= y < bottom,
                    area.x <= x <= right,
                    screen.grid@ == slid_upto(g, sa, area, dx, dy, y as int, x as int),
                decreases right - x,
            {
                assert(area.width > 0 && area.height > 0);
                let j = (y - sa.y) as usize;
                let i = (x - sa.x) as usize;
                let ghost before = screen.grid@;
                assert(j < before.len());
                assert(i < before[j as int].len());
                let sx: i32 = x as i32 - dx as i32;
                let sy: i32 = y as i32 - dy as i32;
                let c = if area.x as i32 <= sx && sx < right as i32 && area.y as i32 <= sy && sy < bottom as i32 {
                    let sj = (sy - sa.y as i32) as usize;
                    let si = (sx - sa.x as i32) as usize;
                    assert(sj < g.len());
                    assert(si < g[sj as int].len());
                    proof {
                        assert(scratch.rows@[sj as int]@[si as int]@ == g[sj as int][si as int]);
                    }
                    scratch.rows[sj][si].clone()
                } else {
                    cleared()
                };
                screen.grid.put(i, j, c);
                proof {
                    assert(screen.grid@ =~~= slid_upto(g, sa, area, dx, dy, y as int, x + 1));
                }
                x = x + 1;
            }
            assert(slid_upto(g, sa, area, dx, dy, y as int, right as int) =~~= slid_upto(
                g,
                sa,
                area,
                dx,
                dy,
                y + 1,
                area.x as int,
            ));
            y = y + 1;
        }
        assert(screen.grid@ =~~= slid(g, sa, area, dx, dy));
    }
}

/// The position of cell (`x`, `y`) when the cells of `area` are counted
/// row by row from its top left corner.
pub open spec fn cell_index(area: Rect, x: int, y: int) -> int {
    (y - area.y) * (area.spec_right() - area.x) + (x - area.x)
}

/// The screen with only the first `visible` cells of `area`, counted row by
/// row, left as they are, and the rest of `area` cleared.
pub open spec fn revealed(g: Seq<Seq<CellView>>, sa: Rect, area: Rect, visible: nat) -> Seq<Seq<CellView>> {
    Seq::new(
        g.len(),
        |j: int|
            Seq::new(
                g[j].len(),
                |i: int|
                    if cell_in(sa, area, i, j) && cell_index(area, sa.x + i, sa.y + j) >= visible {
                        cleared_cell()
                    } else {
                        g[j][i]
                    },
            ),
    )
}

/// [`revealed`] for the cells of `area` before screen row `yc` and, on that
/// row, left of column `xc`; the rest as in `g`.
pub open spec fn revealed_upto(g: Seq<Seq<CellView>>, sa: Rect, area: Rect, visible: nat, yc: int, xc: int) -> Seq<
    Seq<CellView>,
> {
    Seq::new(
        g.len(),
        |j: int|
            Seq::new(
                g[j].len(),
                |i: int|
                    if cell_in(sa, area, i, j) && cell_index(area, sa.x + i, sa.y + j) >= visible && (sa.y + j < yc
                        || (sa.y + j == yc && sa.x + i < xc)) {
                        cleared_cell()
                    } else {
                        g[j][i]
                    },
            ),
    )
}

/// Clears the cells of `area` on `screen` after the first `visible`, counted
/// row by row, as a typewriter that has typed that many (see [`revealed`]).
pub fn type_out(area: Rect, screen: &mut Screen, visible: usize)
    requires
        old(screen).wf(),
        covers(old(screen).area, area),
    ensures
        final(screen).area == old(screen).area,
        final(screen).wf(),
        final(screen).grid@ == revealed(old(screen).grid@, old(screen).area, area, visible as nat),
{
    let ghost g = screen.grid@;
    let sa = screen.area;
    let bottom = area.bottom();
    let right = area.right();
    let mut count: u64 = 0;
    let mut y: u16 = area.y;
    assert(screen.grid@ =~~= revealed_upto(g, sa, area, visible as nat, y as int, area.x as int));
    while y < bottom
        invariant
            sa == screen.area,
            sa == old(screen).area,
            g == old(screen).grid@,
            screen.wf(),
            covers(sa, area),
            bottom == area.spec_bottom(),
            right == area.spec_right(),
            area.y <= y <= bottom,
            count == cell_index(area, area.x as int, y as int),
            screen.grid@ == revealed_upto(g, sa, area, visible as nat, y as int, area.x as int),
        decreases bottom - y,
    {
        let mut x: u16 = area.x;
        while x < right
            invariant
                sa == screen.area,
                g == old(screen).grid@,
                screen.wf(),
                covers(sa, area),
                bottom == area.spec_bottom(),
                right == area.spec_right(),
                area.y <= y < bottom,
                area.x <= x <= right,
                count == cell_index(area, x as int, y as int),
                screen.grid@ == revealed_upto(g, sa, area, visible as nat, y as int, x as int),
            decreases right - x,
        {
            assert(area.width > 0 && area.height > 0);
            let j = (y - sa.y) as usize;
            let i = (x - sa.x) as usize;
            let ghost before = screen.grid@;
            assert(j < before.len());
            assert(i < before[j as int].len());
            assert(count < 0x1_0000_0000) by (nonlinear_arith)
                requires
                    count == (y - area.y) * (right - area.x) + (x - area.x),
                    area.y <= y < 0x10000,
                    area.x <= x < right,
                    right <= 0xffff,
            ;
            if count >= visible as u64 {
                screen.grid.put(i, j, cleared());
            }
            proof {
                assert(screen.grid@ =~~= revealed_upto(g, sa, area, visible as nat, y as int, x + 1));
            }
            count = count + 1;
            x = x + 1;
        }
        proof {
            let w: int = right - area.x;
            assert((y - area.y) * w + w == (y + 1 - area.y) * w) by (nonlinear_arith);
        }
        assert(revealed_upto(g, sa, area, visible as nat, y as int, right as int) =~~= revealed_upto(
            g,
            sa,
            area,
            visible as nat,
            y + 1,
            area.x as int,
        ));
        y = y + 1;
    }
    assert(screen.grid@ =~~= revealed(g, sa, area, visible as nat));
}

/// Dims every `line_height`-th row, as a CRT's scanlines.
#[derive(Debug, Clone, Copy, PartialEq, Eq, Structural)]
pub struct Scanlines {
    pub line_height: u16,
    pub dim_color: Color,
}

impl Scanlines {
    /// Scanlines every `line_height` rows, in black.
    pub fn new(line_height: u16) -> (s: Scanlines)
        ensures
            s.line_height == line_height,
            s.dim_color == Color::Black,
    {
        Scanlines { line_height, dim_color: Color::Black }
    }

    /// Whether row `y` is dimmed.
    pub fn dims_row(&self, y: u16) -> (b: bool)
        requires
            self.line_height > 0,
        ensures
            b == (y % self.line_height == 0),
    {
        y % self.line_height == 0
    }
}

/// The cells of a terminal screen: the area it covers, and its cells row by
/// row from the area's top left corner.
pub struct Screen {
    pub area: Rect,
    pub grid: Surface,
}

impl Screen {
    /// One row per row of the area, one cell per column.
    pub open spec fn wf(&self) -> bool {
        &&& self.grid@.len() == self.area.height
        &&& forall|j: int| 0 <= j < self.grid@.len() ==> #[trigger] self.grid@[j].len() == self.area.width
    }
}

/// Whether `inner` lies within `outer`, where it has any cells.
pub open spec fn covers(outer: Rect, inner: Rect) -> bool {
    inner.width > 0 && inner.height > 0 ==> {
        &&& outer.x <= inner.x
        &&& inner.spec_right() <= outer.spec_right()
        &&& outer.y <= inner.y
        &&& inner.spec_bottom() <= outer.spec_bottom()
    }
}

/// Whether the screen cell at grid position (`i`, `j`) lies in `area`.
pub open spec fn cell_in(sa: Rect, area: Rect, i: int, j: int) -> bool {
    &&& area.x <= sa.x + i < area.spec_right()
    &&& area.y <= sa.y + j < area.spec_bottom()
}

/// A cell with another background colour.
pub open spec fn with_bg(c: CellView, color: Color) -> CellView {
    CellView { style: Style { bg: Some(color), ..c.style }, ..c }
}

/// Whether scanlines have dimmed the cell at grid position (`i`, `j`) once
/// the rows before screen row `yc`, and the cells of row `yc` left of
/// column `xc`, are done.
pub open spec fn dimmed_by(sa: Rect, area: Rect, lh: u16, yc: int, xc: int, i: int, j: int) -> bool {
    let x = sa.x + i;
    let y = sa.y + j;
    &&& cell_in(sa, area, i, j)
    &&& y % (lh as int) == 0
    &&& (y < yc || (y == yc && x < xc))
}

/// The grid with the cells that [`dimmed_by`] picks given `dim` as their
/// background.
pub open spec fn dimmed_upto(g: Seq<Seq<CellView>>, sa: Rect, area: Rect, lh: u16, dim: Color, yc: int, xc: int) -> Seq<
    Seq<CellView>,
> {
    Seq::new(
        g.len(),
        |j: int|
            Seq::new(
                g[j].len(),
                |i: int| if dimmed_by(sa, area, lh, yc, xc, i, j) { with_bg(g[j][i], dim) } else { g[j][i] },
            ),
    )
}

/// The screen after scanlines over `area`: every cell of `area` on a row
/// whose number is a multiple of `lh` takes `dim` as its background.
pub open spec fn scanlined(g: Seq<Seq<CellView>>, sa: Rect, area: Rect, lh: u16, dim: Color) -> Seq<Seq<CellView>> {
    Seq::new(
        g.len(),
        |j: int|
            Seq::new(
                g[j].len(),
                |i: int|
                    if cell_in(sa, area, i, j) && (sa.y + j) % (lh as int) == 0 {
                        with_bg(g[j][i], dim)
                    } else {
                        g[j][i]
                    },
            ),
    )
}

fn cell_with_bg(c: &Cell, color: Color) -> (r: Cell)
    ensures
        r@ == with_bg(c@, color),
{
    let mut r = c.clone();
    r.style = Style { bg: Some(color), ..r.style };
    r
}

impl Scanlines {
    /// Dims the rows of `area` on `screen` (see [`scanlined`]).
    pub fn apply(&self, area: Rect, screen: &mut Screen)
        requires
            old(screen).wf(),
            covers(old(screen).area, area),
            area.height > 0 ==> self.line_height > 0,
        ensures
            final(screen).area == old(screen).area,
            final(screen).wf(),
            final(screen).grid@ == scanlined(old(screen).grid@, old(screen).area, area, self.line_height, self.dim_color),
    {
        let ghost g = screen.grid@;
        let sa = screen.area;
        let bottom = area.bottom();
        let right = area.right();
        let mut y: u16 = area.y;
        assert(screen.grid@ =~~= dimmed_upto(g, sa, area, self.line_height, self.dim_color, y as int, area.x as int));
        while y < bottom
            invariant
                sa == screen.area,
                sa == old(screen).area,
                g == old(screen).grid@,
                screen.wf(),
                covers(sa, area),
                area.height > 0 ==> self.line_height > 0,
                bottom == area.spec_bottom(),
                right == area.spec_right(),
                area.y <= y <= bottom,
                screen.grid@ == dimmed_upto(g, sa, area, self.line_height, self.dim_color, y as int, area.x as int),
            decreases bottom - y,
        {
            if y % self.line_height == 0 {
                let mut x: u16 = area.x;
                while x < right
                    invariant
                        sa == screen.area,
                        g == old(screen).grid@,
                        screen.wf(),
                        covers(sa, area),
                        self.line_height > 0,
                        y % self.line_height == 0,
                        bottom == area.spec_bottom(),
                        right == area.spec_right(),
                        area.y <= y < bottom,
                        area.x <= x <= right,
                        screen.grid@ == dimmed_upto(g, sa, area, self.line_height, self.dim_color, y as int, x as int),
                    decreases right - x,
                {
                    assert(area.width > 0 && area.height > 0);
                    let j = (y - sa.y) as usize;
                    let i = (x - sa.x) as usize;
                    let ghost before = screen.grid@;
                    assert(j < before.len());
                    assert(i < before[j as int].len());
                    assert(before[j as int][i as int] == g[j as int][i as int]);
                    let c = cell_with_bg(&screen.grid.rows[j][i], self.dim_color);
                    proof {
                        assert(screen.grid.rows@[j as int]@[i as int]@ == before[j as int][i as int]);
                    }
                    screen.grid.put(i, j, c);
                    proof {
                        assert(screen.grid@ =~~= dimmed_upto(
                            g,
                            sa,
                            area,
                            self.line_height,
                            self.dim_color,
                            y as int,
                            x + 1,
                        ));
                    }
                    x = x + 1;
                }
                assert(dimmed_upto(g, sa, area, self.line_height, self.dim_color, y as int, right as int)
                    =~~= dimmed_upto(g, sa, area, self.line_height, self.dim_color, y + 1, area.x as int));
            } else {
                assert(dimmed_upto(g, sa, area, self.line_height, self.dim_color, y as int, area.x as int)
                    =~~= dimmed_upto(g, sa, area, self.line_height, self.dim_color, y + 1, area.x as int));
            }
            y = y + 1;
        }
        assert(screen.grid@ =~~= scanlined(g, sa, area, self.line_height, self.dim_color));
    }
}

/// Offsets the colour channels: each cell takes the character `offset`
/// columns to its right, in red.
#[derive(Debug, Clone, Copy, PartialEq, Eq, Structural)]
pub struct ChromaticAberration {
    pub offset: u16,
}

impl ChromaticAberration {
    /// An aberration of `offset` columns.
    pub fn new(offset: u16) -> (c: ChromaticAberration)
        ensures
            c.offset == offset,
    {
        ChromaticAberration { offset }
    }

    /// The column whose character cell (`x`, _) of `area` takes, where that
    /// column is still inside the area.
    pub fn source_column(&self, area: Rect, x: u16) -> (r: Option<u16>)
        requires
            x + self.offset <= u16::MAX,
        ensures
            r == if x + self.offset < area.spec_right() { Some((x + self.offset) as u16) } else { None::<u16> },
    {
        if x + self.offset < area.right() {
            Some(x + self.offset)
        } else {
            None
        }
    }
}

/// The first character of a symbol, or a space for an empty one.
pub open spec fn first_char(s: Seq<char>) -> char {
    if s.len() > 0 { s[0] } else { ' ' }
}

/// Whether an aberration of `off` columns redraws the cell at grid position
/// (`i`, `j`): it is in `area` and so is the cell `off` columns right of it.
pub open spec fn aberrates(sa: Rect, area: Rect, off: u16, i: int, j: int) -> bool {
    cell_in(sa, area, i, j) && sa.x + i + off < area.spec_right()
}

/// Cell `c` redrawn with the first character of `src`, in red.
pub open spec fn shifted_cell(src: CellView, c: CellView) -> CellView {
    CellView { symbol: seq![first_char(src.symbol)], style: Style { fg: Some(Color::Red), ..c.style } }
}

/// The grid once the cells that [`aberrates`] picks, up to screen row `yc`
/// and, on that row, left of column `xc`, are redrawn from `g`.
pub open spec fn aberrated_upto(g: Seq<Seq<CellView>>, sa: Rect, area: Rect, off: u16, yc: int, xc: int) -> Seq<
    Seq<CellView>,
> {
    Seq::new(
        g.len(),
        |j: int|
            Seq::new(
                g[j].len(),
                |i: int|
                    if aberrates(sa, area, off, i, j) && (sa.y + j < yc || (sa.y + j == yc && sa.x + i < xc)) {
                        shifted_cell(g[j][i + off], g[j][i])
                    } else {
                        g[j][i]
                    },
            ),
    )
}

/// The screen after an aberration of `off` columns over `area`: each cell
/// of `area` with a cell of `area` `off` columns to its right takes that
/// cell's first character (as it was before), in red.
pub open spec fn aberrated(g: Seq<Seq<CellView>>, sa: Rect, area: Rect, off: u16) -> Seq<Seq<CellView>> {
    Seq::new(
        g.len(),
        |j: int|
            Seq::new(
                g[j].len(),
                |i: int|
                    if aberrates(sa, area, off, i, j) {
                        shifted_cell(g[j][i + off], g[j][i])
                    } else {
                        g[j][i]
                    },
            ),
    )
}

impl ChromaticAberration {
    /// Redraws the cells of `area` on `screen` from the cells `offset`
    /// columns to their right (see [`aberrated`]).
    pub fn apply(&self, area: Rect, screen: &mut Screen)
        requires
            old(screen).wf(),
            covers(old(screen).area, area),
            area.width > 0 && area.height > 0 ==> area.spec_right() - 1 + self.offset <= u16::MAX,
        ensures
            final(screen).area == old(screen).area,
            final(screen).wf(),
            final(screen).grid@ == aberrated(old(screen).grid@, old(screen).area, area, self.offset),
    {
        let ghost g = screen.grid@;
        let sa = screen.area;
        let scratch = screen.grid.clone();
        let off = self.offset;
        let bottom = area.bottom();
        let right = area.right();
        let mut y: u16 = area.y;
        assert(screen.grid@ =~~= aberrated_upto(g, sa, area, off, y as int, area.x as int));
        while y < bottom
            invariant
                sa == screen.area,
                sa == old(screen).area,
                g == old(screen).grid@,
                scratch@ == g,
                off == self.offset,
                screen.wf(),
                covers(sa, area),
                area.width > 0 && area.height > 0 ==> area.spec_right() - 1 + off <= u16::MAX,
                bottom == area.spec_bottom(),
                right == area.spec_right(),
                area.y <= y <= bottom,
                screen.grid@ == aberrated_upto(g, sa, area, off, y as int, area.x as int),
            decreases bottom - y,
        {
            let mut x: u16 = area.x;
            while x < right
                invariant
                    sa == screen.area,
                    g == old(screen).grid@,
                    scratch@ == g,
                    screen.wf(),
                    covers(sa, area),
                    area.width > 0 && area.height > 0 ==> area.spec_right() - 1 + off <= u16::MAX,
                    bottom == area.spec_bottom(),
                    right == area.spec_right(),
                    area.y <= y < bottom,
                    area.x <= x <= right,
                    screen.grid@ == aberrated_upto(g, sa, area, off, y as int, x as int),
                decreases right - x,
            {
                assert(area.width > 0 && area.height > 0);
                if x + off < right {
                    let j = (y - sa.y) as usize;
                    let i = (x - sa.x) as usize;
                    let k = (x + off - sa.x) as usize;
                    let ghost before = screen.grid@;
                    assert(j < before.len());
                    assert(i < before[j as int].len());
                    assert(k < g[j as int].len());
                    assert(before[j as int][i as int] == g[j as int][i as int]);
                    proof {
                        assert(scratch.rows@[j as int]@[k as int]@ == g[j as int][k as int]);
                        assert(screen.grid.rows@[j as int]@[i as int]@ == before[j as int][i as int]);
                    }
                    let cs = chars_of(scratch.rows[j][k].symbol.as_str());
                    let ch = if cs.len() > 0 {
                        cs[0]
                    } else {
                        ' '
                    };
                    let st = screen.grid.rows[j][i].style;
                    let c = Cell { symbol: char_to_string(ch), style: Style { fg: Some(Color::Red), ..st } };
                    assert(c@ == shifted_cell(g[j as int][k as int], g[j as int][i as int]));
                    screen.grid.put(i, j, c);
                    proof {
                        assert(screen.grid@ =~~= aberrated_upto(g, sa, area, off, y as int, x + 1));
                    }
                } else {
                    assert(screen.grid@ =~~= aberrated_upto(g, sa, area, off, y as int, x + 1));
                }
                x = x + 1;
            }
            assert(aberrated_upto(g, sa, area, off, y as int, right as int) =~~= aberrated_upto(
                g,
                sa,
                area,
                off,
                y + 1,
                area.x as int,
            ));
            y = y + 1;
        }
        assert(screen.grid@ =~~= aberrated(g, sa, area, off));
    }
}

/// The red, green and blue of a colour as blends see it: the named colours
/// at their usual values, any other (reset, indexed) as mid grey.
pub open spec fn spec_rgb_of(c: Color) -> (u8, u8, u8) {
    match c {
        Color::Rgb(r, g, b) => (r, g, b),
        Color::Black => (0, 0, 0),
        Color::Red => (255, 0, 0),
        Color::Green => (0, 255, 0),
        Color::Yellow => (255, 255, 0),
        Color::Blue => (0, 0, 255),
        Color::Magenta => (255, 0, 255),
        Color::Cyan => (0, 255, 255),
        Color::Gray => (170, 170, 170),
        Color::DarkGray => (85, 85, 85),
        Color::LightRed => (255, 85, 85),
        Color::LightGreen => (85, 255, 85),
        Color::LightYellow => (255, 255, 85),
        Color::LightBlue => (85, 85, 255),
        Color::LightMagenta => (255, 85, 255),
        Color::LightCyan => (85, 255, 255),
        Color::White => (255, 255, 255),
        _ => (128, 128, 128),
    }
}

/// The red, green and blue of a colour (see [`spec_rgb_of`]).
pub fn rgb_of(c: Color) -> (r: (u8, u8, u8))
    ensures
        r == spec_rgb_of(c),
{
    match c {
        Color::Rgb(r, g, b) => (r, g, b),
        Color::Black => (0, 0, 0),
        Color::Red => (255, 0, 0),
        Color::Green => (0, 255, 0),
        Color::Yellow => (255, 255, 0),
        Color::Blue => (0, 0, 255),
        Color::Magenta => (255, 0, 255),
        Color::Cyan => (0, 255, 255),
        Color::Gray => (170, 170, 170),
        Color::DarkGray => (85, 85, 85),
        Color::LightRed => (255, 85, 85),
        Color::LightGreen => (85, 255, 85),
        Color::LightYellow => (255, 255, 85),
        Color::LightBlue => (85, 85, 255),
        Color::LightMagenta => (255, 85, 255),
        Color::LightCyan => (85, 255, 255),
        Color::White => (255, 255, 255),
        _ => (128, 128, 128),
    }
}

/// A slide by nothing leaves every cell where it is.
pub proof fn lemma_zero_slide_is_identity(area: Rect, x: u16, y: u16)
    requires
        area.spec_contains(x, y),
        area.spec_right() <= i16::MAX,
        area.spec_bottom() <= i16::MAX,
    ensures
        slide_target(Slide { dx: 0, dy: 0 }, area, x, y) == Some((x, y)),
{
    assert((x as i16) == x);
    assert((y as i16) == y);
    assert((area.x as i16) == area.x);
    assert((area.y as i16) == area.y);
    assert((area.spec_right() as i16) == area.spec_right());
    assert((area.spec_bottom() as i16) == area.spec_bottom());
}

/// A slide by nothing leaves the screen as it was.
pub proof fn lemma_zero_slide_keeps_screen(g: Seq<Seq<CellView>>, sa: Rect, area: Rect)
    ensures
        slid(g, sa, area, 0, 0) == g,
{
    assert(slid(g, sa, area, 0, 0) =~~= g);
}

/// Scanlines drawn twice dim the same cells as once.
pub proof fn lemma_scanlines_twice(g: Seq<Seq<CellView>>, sa: Rect, area: Rect, lh: u16, dim: Color)
    ensures
        scanlined(scanlined(g, sa, area, lh, dim), sa, area, lh, dim) == scanlined(g, sa, area, lh, dim),
{
    assert(scanlined(scanlined(g, sa, area, lh, dim), sa, area, lh, dim) =~~= scanlined(g, sa, area, lh, dim));
}

} // verus!

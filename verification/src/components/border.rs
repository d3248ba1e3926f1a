//! Custom borders drawn around surfaces.

use vstd::prelude::*;
use crate::surface::{Cell, CellView, Surface, grid_columns, row_view, lemma_map_push};
use crate::text::char_to_string;
use crate::tui::Style;

verus! {

/// A border: one character per edge and corner, and whether each side is
/// drawn.
#[derive(Debug, Clone, Copy, PartialEq, Eq, Structural)]
pub struct Border {
    pub top: char,
    pub bottom: char,
    pub left: char,
    pub right: char,
    pub top_left: char,
    pub top_right: char,
    pub bottom_left: char,
    pub bottom_right: char,
    pub has_top: bool,
    pub has_bottom: bool,
    pub has_left: bool,
    pub has_right: bool,
}

/// A border with all four sides drawn with the given characters.
pub open spec fn full_border(
    top: char,
    bottom: char,
    left: char,
    right: char,
    top_left: char,
    top_right: char,
    bottom_left: char,
    bottom_right: char,
) -> Border {
    Border {
        top,
        bottom,
        left,
        right,
        top_left,
        top_right,
        bottom_left,
        bottom_right,
        has_top: true,
        has_bottom: true,
        has_left: true,
        has_right: true,
    }
}

/// Whether row `y` of an `h`-row frame lies along the side edges: every row
/// but the top edge's and the bottom edge's, where those are drawn.
pub open spec fn side_row(b: Border, h: int, y: int) -> bool {
    (if b.has_top { 1int } else { 0int }) <= y < h - (if b.has_bottom { 1int } else { 0int })
}

/// Whether column `x` of a `w`-column frame lies along the top and bottom
/// edges: every column but the left edge's and the right edge's, where those
/// are drawn.
pub open spec fn edge_column(b: Border, w: int, x: int) -> bool {
    (if b.has_left { 1int } else { 0int }) <= x < w - (if b.has_right { 1int } else { 0int })
}

/// The character drawn at (`x`, `y`) of a `w` x `h` frame, if any. Each side
/// that is drawn runs the full length of the frame, but for the corners it
/// shares with a drawn neighbouring side; where they would meet in a frame
/// one cell across, side edges win over top and bottom edges over corners,
/// right over left, bottom over top.
pub open spec fn frame_char(b: Border, w: int, h: int, x: int, y: int) -> Option<char> {
    if b.has_right && x == w - 1 && side_row(b, h, y) {
        Some(b.right)
    } else if b.has_left && x == 0 && side_row(b, h, y) {
        Some(b.left)
    } else if b.has_bottom && y == h - 1 && edge_column(b, w, x) {
        Some(b.bottom)
    } else if b.has_top && y == 0 && edge_column(b, w, x) {
        Some(b.top)
    } else if b.has_bottom && b.has_right && x == w - 1 && y == h - 1 {
        Some(b.bottom_right)
    } else if b.has_bottom && b.has_left && x == 0 && y == h - 1 {
        Some(b.bottom_left)
    } else if b.has_top && b.has_right && x == w - 1 && y == 0 {
        Some(b.top_right)
    } else if b.has_top && b.has_left && x == 0 && y == 0 {
        Some(b.top_left)
    } else {
        None
    }
}

/// The cell of a drawn frame at (`x`, `y`): its character, or a space.
pub open spec fn frame_cell(b: Border, w: int, h: int, x: int, y: int, style: Style) -> CellView {
    match frame_char(b, w, h, x, y) {
        Some(c) => CellView { symbol: seq![c], style },
        None => CellView { symbol: seq![' '], style },
    }
}

/// `g` framed by border `b`: the cells of `g` one row down where there is a
/// top edge and one column right where there is a left edge, around them the
/// frame, every other cell a space in `style`.
pub open spec fn framed(b: Border, g: Seq<Seq<CellView>>, style: Style) -> Seq<Seq<CellView>> {
    let w = grid_columns(g) + b.spec_vertical_size();
    let h = g.len() + b.spec_horizontal_size();
    let ox: int = if b.has_left { 1 } else { 0 };
    let oy: int = if b.has_top { 1 } else { 0 };
    Seq::new(
        h,
        |y: int|
            Seq::new(
                w,
                |x: int|
                    if oy <= y < oy + g.len() && ox <= x < ox + g[y - oy].len() {
                        g[y - oy][x - ox]
                    } else {
                        frame_cell(b, w as int, h as int, x, y, style)
                    },
            ),
    )
}

impl Border {
    pub open spec fn spec_horizontal_size(self) -> nat {
        (if self.has_top { 1nat } else { 0nat }) + (if self.has_bottom { 1nat } else { 0nat })
    }

    pub open spec fn spec_vertical_size(self) -> nat {
        (if self.has_left { 1nat } else { 0nat }) + (if self.has_right { 1nat } else { 0nat })
    }

    /// Box-drawing border with sharp corners.
    pub fn new() -> (b: Border)
        ensures
            b == full_border('─', '─', '│', '│', '┌', '┐', '└', '┘'),
    {
        Border {
            top: '─',
            bottom: '─',
            left: '│',
            right: '│',
            top_left: '┌',
            top_right: '┐',
            bottom_left: '└',
            bottom_right: '┘',
            has_top: true,
            has_bottom: true,
            has_left: true,
            has_right: true,
        }
    }

    /// Box-drawing border with rounded corners.
    pub fn rounded() -> (b: Border)
        ensures
            b == full_border('─', '─', '│', '│', '╭', '╮', '╰', '╯'),
    {
        Border {
            top: '─',
            bottom: '─',
            left: '│',
            right: '│',
            top_left: '╭',
            top_right: '╮',
            bottom_left: '╰',
            bottom_right: '╯',
            has_top: true,
            has_bottom: true,
            has_left: true,
            has_right: true,
        }
    }

    /// Same as [`Border::new`].
    pub fn normal() -> (b: Border)
        ensures
            b == full_border('─', '─', '│', '│', '┌', '┐', '└', '┘'),
    {
        Self::new()
    }

    /// Heavy box-drawing border.
    pub fn thick() -> (b: Border)
        ensures
            b == full_border('━', '━', '┃', '┃', '┏', '┓', '┗', '┛'),
    {
        Border {
            top: '━',
            bottom: '━',
            left: '┃',
            right: '┃',
            top_left: '┏',
            top_right: '┓',
            bottom_left: '┗',
            bottom_right: '┛',
            has_top: true,
            has_bottom: true,
            has_left: true,
            has_right: true,
        }
    }

    /// Double-line box-drawing border.
    pub fn double() -> (b: Border)
        ensures
            b == full_border('═', '═', '║', '║', '╔', '╗', '╚', '╝'),
    {
        Border {
            top: '═',
            bottom: '═',
            left: '║',
            right: '║',
            top_left: '╔',
            top_right: '╗',
            bottom_left: '╚',
            bottom_right: '╝',
            has_top: true,
            has_bottom: true,
            has_left: true,
            has_right: true,
        }
    }

    /// This border with another top edge character.
    pub fn top(self, c: char) -> (b: Border)
        ensures
            b == (Border { top: c, ..self }),
    {
        Border { top: c, ..self }
    }

    /// This border with another bottom edge character.
    pub fn bottom(self, c: char) -> (b: Border)
        ensures
            b == (Border { bottom: c, ..self }),
    {
        Border { bottom: c, ..self }
    }

    /// This border with another left edge character.
    pub fn left(self, c: char) -> (b: Border)
        ensures
            b == (Border { left: c, ..self }),
    {
        Border { left: c, ..self }
    }

    /// This border with another right edge character.
    pub fn right(self, c: char) -> (b: Border)
        ensures
            b == (Border { right: c, ..self }),
    {
        Border { right: c, ..self }
    }

    /// This border with another top-left corner.
    pub fn top_left(self, c: char) -> (b: Border)
        ensures
            b == (Border { top_left: c, ..self }),
    {
        Border { top_left: c, ..self }
    }

    /// This border with another top-right corner.
    pub fn top_right(self, c: char) -> (b: Border)
        ensures
            b == (Border { top_right: c, ..self }),
    {
        Border { top_right: c, ..self }
    }

    /// This border with another bottom-left corner.
    pub fn bottom_left(self, c: char) -> (b: Border)
        ensures
            b == (Border { bottom_left: c, ..self }),
    {
        Border { bottom_left: c, ..self }
    }

    /// This border with another bottom-right corner.
    pub fn bottom_right(self, c: char) -> (b: Border)
        ensures
            b == (Border { bottom_right: c, ..self }),
    {
        Border { bottom_right: c, ..self }
    }

    /// This border without its top side.
    pub fn no_top(self) -> (b: Border)
        ensures
            b == (Border { has_top: false, ..self }),
    {
        Border { has_top: false, ..self }
    }

    /// This border without its bottom side.
    pub fn no_bottom(self) -> (b: Border)
        ensures
            b == (Border { has_bottom: false, ..self }),
    {
        Border { has_bottom: false, ..self }
    }

    /// This border without its left side.
    pub fn no_left(self) -> (b: Border)
        ensures
            b == (Border { has_left: false, ..self }),
    {
        Border { has_left: false, ..self }
    }

    /// This border without its right side.
    pub fn no_right(self) -> (b: Border)
        ensures
            b == (Border { has_right: false, ..self }),
    {
        Border { has_right: false, ..self }
    }

    /// Rows the border adds: one per drawn top or bottom side.
    pub fn horizontal_size(&self) -> (n: usize)
        ensures
            n as nat == self.spec_horizontal_size(),
    {
        (if self.has_top { 1 } else { 0 }) + (if self.has_bottom { 1 } else { 0 })
    }

    /// Columns the border adds: one per drawn left or right side.
    pub fn vertical_size(&self) -> (n: usize)
        ensures
            n as nat == self.spec_vertical_size(),
    {
        (if self.has_left { 1 } else { 0 }) + (if self.has_right { 1 } else { 0 })
    }

    fn frame_char_exec(&self, w: usize, h: usize, x: usize, y: usize) -> (c: Option<char>)
        requires
            x < w,
            y < h,
        ensures
            c == frame_char(*self, w as int, h as int, x as int, y as int),
    {
        let first_row: usize = if self.has_top { 1 } else { 0 };
        let last_rows: usize = if self.has_bottom { 1 } else { 0 };
        let first_col: usize = if self.has_left { 1 } else { 0 };
        let last_cols: usize = if self.has_right { 1 } else { 0 };
        let side_row = first_row <= y && y + last_rows < h;
        let inner_col = first_col <= x && x + last_cols < w;
        if self.has_right && x == w - 1 && side_row {
            Some(self.right)
        } else if self.has_left && x == 0 && side_row {
            Some(self.left)
        } else if self.has_bottom && y == h - 1 && inner_col {
            Some(self.bottom)
        } else if self.has_top && y == 0 && inner_col {
            Some(self.top)
        } else if self.has_bottom && self.has_right && x == w - 1 && y == h - 1 {
            Some(self.bottom_right)
        } else if self.has_bottom && self.has_left && x == 0 && y == h - 1 {
            Some(self.bottom_left)
        } else if self.has_top && self.has_right && x == w - 1 && y == 0 {
            Some(self.top_right)
        } else if self.has_top && self.has_left && x == 0 && y == 0 {
            Some(self.top_left)
        } else {
            None
        }
    }

    /// Draws this border around `surf`, the border lines in `style`
    /// (see [`framed`]).
    pub fn draw(&self, surf: &Surface, style: Style) -> (out: Surface)
        requires
            grid_columns(surf@) + self.spec_vertical_size() <= usize::MAX,
            surf@.len() + self.spec_horizontal_size() <= usize::MAX,
            (self.has_top || self.has_bottom) ==> grid_columns(surf@) + self.spec_vertical_size() > 0,
            (self.has_left || self.has_right) ==> surf@.len() + self.spec_horizontal_size() > 0,
        ensures
            out@ == framed(*self, surf@, style),
    {
        let inner_w = surf.columns();
        let inner_h = surf.height();
        let out_w = inner_w + self.vertical_size();
        let out_h = inner_h + self.horizontal_size();
        let ox: usize = if self.has_left { 1 } else { 0 };
        let oy: usize = if self.has_top { 1 } else { 0 };
        let ghost target = framed(*self, surf@, style);
        let mut rows: Vec<Vec<Cell>> = Vec::new();
        let mut y: usize = 0;
        while y < out_h
            invariant
                y <= out_h,
                out_h as nat == surf@.len() + self.spec_horizontal_size(),
                out_w as nat == grid_columns(surf@) + self.spec_vertical_size(),
                inner_h as nat == surf@.len(),
                ox == (if self.has_left { 1usize } else { 0usize }),
                oy == (if self.has_top { 1usize } else { 0usize }),
                target == framed(*self, surf@, style),
                rows@.len() == y,
                (Surface { rows })@ =~= target.take(y as int),
            decreases out_h - y,
        {
            let mut row: Vec<Cell> = Vec::new();
            let mut x: usize = 0;
            let inside_y = oy <= y && y - oy < inner_h;
            while x < out_w
                invariant
                    x <= out_w,
                    y < out_h,
                    out_h as nat == surf@.len() + self.spec_horizontal_size(),
                    out_w as nat == grid_columns(surf@) + self.spec_vertical_size(),
                    inner_h as nat == surf@.len(),
                    ox == (if self.has_left { 1usize } else { 0usize }),
                    oy == (if self.has_top { 1usize } else { 0usize }),
                    inside_y == (oy <= y && y - oy < inner_h),
                    target == framed(*self, surf@, style),
                    row@.len() == x,
                    row_view(row) =~= target[y as int].take(x as int),
                decreases out_w - x,
            {
                let c = if inside_y && ox <= x && x - ox < surf.rows[y - oy].len() {
                    assert(row_view(surf.rows@[y - oy]) == surf@[y - oy]);
                    surf.rows[y - oy][x - ox].clone()
                } else {
                    match self.frame_char_exec(out_w, out_h, x, y) {
                        Some(ch) => Cell::new(char_to_string(ch), style),
                        None => Cell::blank(style),
                    }
                };
                let ghost prev = row@;
                row.push(c);
                proof {
                    lemma_map_push(prev, c, |c: Cell| c@);
                }
                x = x + 1;
            }
            assert(target[y as int].take(out_w as int) =~= target[y as int]);
            let ghost prev = rows@;
            rows.push(row);
            proof {
                lemma_map_push(prev, row, |r: Vec<Cell>| row_view(r));
            }
            y = y + 1;
        }
        Surface { rows }
    }
}

/// A drawn border is a rectangle: as many rows as the surface and the top
/// and bottom edges, each as many cells as the surface's longest row and the
/// side edges, however ragged the surface's rows.
pub proof fn lemma_framed_shape(b: Border, g: Seq<Seq<CellView>>, style: Style)
    ensures
        framed(b, g, style).len() == g.len() + b.spec_horizontal_size(),
        forall|y: int|
            0 <= y < framed(b, g, style).len() ==> #[trigger] framed(b, g, style)[y].len() == grid_columns(g)
                + b.spec_vertical_size(),
{
}

impl Default for Border {
    fn default() -> (b: Border)
        ensures
            b == full_border('─', '─', '│', '│', '┌', '┐', '└', '┘'),
    {
        Border::new()
    }
}

} // verus!

//! Repeating fill patterns: the colour each cell takes.

use vstd::prelude::*;
use crate::tui::{Color, Rect};

verus! {

/// An alternating two-colour checker pattern of `size`-cell squares.
#[derive(Debug, Clone, Copy, PartialEq, Eq, Structural)]
pub struct Checkerboard {
    pub a: Color,
    pub b: Color,
    pub size: u16,
}

impl Checkerboard {
    /// A checker pattern of `a` and `b` squares `size` cells wide (at least
    /// one).
    pub fn new(a: Color, b: Color, size: u16) -> (c: Checkerboard)
        ensures
            c.a == a,
            c.b == b,
            c.size == if size >= 1 { size } else { 1 },
    {
        Checkerboard { a, b, size: if size >= 1 { size } else { 1 } }
    }

    /// The colour of cell (`x`, `y`): `a` where the square's column and row
    /// add up to an even number, else `b`.
    pub fn color_at(&self, x: u16, y: u16) -> (c: Color)
        requires
            self.size >= 1,
            x / self.size + y / self.size <= u16::MAX,
        ensures
            c == if (x / self.size + y / self.size) % 2 == 0 { self.a } else { self.b },
    {
        if (x / self.size + y / self.size) % 2 == 0 {
            self.a
        } else {
            self.b
        }
    }
}

/// Stripes of colours in turn, `width` cells each, running across (or down,
/// for vertical stripes).
#[derive(Debug, Clone)]
pub struct Stripes {
    pub colors: Vec<Color>,
    pub width: u16,
    pub vertical: bool,
}

impl Stripes {
    /// Horizontal stripes of `colors`, `width` cells each (at least one).
    pub fn new(colors: Vec<Color>, width: u16) -> (s: Stripes)
        ensures
            s.colors@ == colors@,
            s.width == if width >= 1 { width } else { 1 },
            !s.vertical,
    {
        Stripes { colors, width: if width >= 1 { width } else { 1 }, vertical: false }
    }

    /// These stripes running down.
    pub fn vertical(self) -> (s: Stripes)
        ensures
            s.colors == self.colors,
            s.width == self.width,
            s.vertical,
    {
        Stripes { vertical: true, ..self }
    }

    /// The colour of cell (`x`, `y`): the stripe its column (vertical) or
    /// row (horizontal) falls in, the colours taken in turn.
    pub fn color_at(&self, x: u16, y: u16) -> (c: Color)
        requires
            self.width >= 1,
            self.colors@.len() > 0,
        ensures
            c == self.colors@[((if self.vertical { x / self.width } else { y / self.width }) as nat % self.colors@.len()) as int],
    {
        let band: usize = if self.vertical {
            (x / self.width) as usize
        } else {
            (y / self.width) as usize
        };
        self.colors[band % self.colors.len()]
    }
}

/// A diamond pattern: `a` inside diamonds `2 * size` cells across, `b`
/// around them.
#[derive(Debug, Clone, Copy, PartialEq, Eq, Structural)]
pub struct Diamond {
    pub a: Color,
    pub b: Color,
    pub size: u16,
}

/// Whether cell (`x`, `y`) lies inside a diamond of the pattern.
pub open spec fn in_diamond(x: u16, y: u16, size: u16) -> bool {
    let s = size as int;
    let px = (x as int % (2 * s)) - s;
    let py = (y as int % (2 * s)) - s;
    (if px < 0 { -px } else { px }) + (if py < 0 { -py } else { py }) < s
}

impl Diamond {
    /// A diamond pattern of `a` on `b`, diamonds `size` cells from centre
    /// to tip (at least one).
    pub fn new(a: Color, b: Color, size: u16) -> (d: Diamond)
        ensures
            d.a == a,
            d.b == b,
            d.size == if size >= 1 { size } else { 1 },
    {
        Diamond { a, b, size: if size >= 1 { size } else { 1 } }
    }

    /// The colour of cell (`x`, `y`).
    pub fn color_at(&self, x: u16, y: u16) -> (c: Color)
        requires
            self.size >= 1,
        ensures
            c == if in_diamond(x, y, self.size) { self.a } else { self.b },
    {
        let s = self.size as i32;
        let px = (x as i32 % (2 * s)) - s;
        let py = (y as i32 % (2 * s)) - s;
        let ax = if px < 0 {
            -px
        } else {
            px
        };
        let ay = if py < 0 {
            -py
        } else {
            py
        };
        if ax + ay < s {
            self.a
        } else {
            self.b
        }
    }
}

/// A checkerboard of `a` and `b` in squares of `size` cells (see
/// [`Checkerboard::new`]).
pub fn checker(a: Color, b: Color, size: u16) -> (c: Checkerboard)
    ensures
        c.a == a,
        c.b == b,
        c.size == if size >= 1 { size } else { 1 },
{
    Checkerboard::new(a, b, size)
}

/// Stripes of `colors` in turn, `width` cells each (see [`Stripes::new`]).
pub fn stripes(colors: &[Color], width: u16) -> (s: Stripes)
    ensures
        s.colors@ == colors@,
        s.width == if width >= 1 { width } else { 1 },
        !s.vertical,
{
    let mut v: Vec<Color> = Vec::new();
    let mut i: usize = 0;
    while i < colors.len()
        invariant
            i <= colors@.len(),
            v@ == colors@.take(i as int),
        decreases colors@.len() - i,
    {
        v.push(colors[i]);
        assert(colors@.take(i + 1) =~= colors@.take(i as int).push(colors@[i as int]));
        i = i + 1;
    }
    assert(colors@.take(colors@.len() as int) =~= colors@);
    Stripes::new(v, width)
}

/// The cells on the edge of `area` that a border fill paints, in order:
/// for each column the top and bottom cell, then for each row the left and
/// right cell (corners come more than once).
pub open spec fn border_cells(area: Rect) -> Seq<(u16, u16)> {
    let b = (area.spec_bottom() - 1) as u16;
    let r = (area.spec_right() - 1) as u16;
    let w = (area.spec_right() - area.x) as nat;
    let h = (area.spec_bottom() - area.y) as nat;
    Seq::new(2 * w, |i: int| if i % 2 == 0 { ((area.x + i / 2) as u16, area.y) } else { ((area.x + i / 2) as u16, b) })
        + Seq::new(2 * h, |i: int| if i % 2 == 0 { (area.x, (area.y + i / 2) as u16) } else { (r, (area.y + i / 2) as u16) })
}

/// The border cells of `area` in painting order (see [`border_cells`]);
/// none for an empty area.
pub fn border_cells_of(area: Rect) -> (out: Vec<(u16, u16)>)
    ensures
        area.width == 0 || area.height == 0 ==> out@.len() == 0,
        area.width > 0 && area.height > 0 ==> out@ == border_cells(area),
{
    let mut out: Vec<(u16, u16)> = Vec::new();
    if area.width == 0 || area.height == 0 {
        return out;
    }
    let right = area.right();
    let bottom = area.bottom();
    let ghost w = (right - area.x) as nat;
    let ghost h = (bottom - area.y) as nat;
    let mut x: u16 = area.x;
    while x < right
        invariant
            area.x <= x <= right,
            right == area.spec_right(),
            bottom == area.spec_bottom(),
            bottom >= 1,
            out@ == Seq::new(
                2 * (x - area.x) as nat,
                |i: int| if i % 2 == 0 { ((area.x + i / 2) as u16, area.y) } else { ((area.x + i / 2) as u16, (bottom - 1) as u16) },
            ),
        decreases right - x,
    {
        out.push((x, area.top()));
        out.push((x, bottom - 1));
        assert(out@ =~= Seq::new(
            2 * (x + 1 - area.x) as nat,
            |i: int| if i % 2 == 0 { ((area.x + i / 2) as u16, area.y) } else { ((area.x + i / 2) as u16, (bottom - 1) as u16) },
        ));
        x = x + 1;
    }
    let ghost top_part = out@;
    let mut y: u16 = area.y;
    while y < bottom
        invariant
            area.y <= y <= bottom,
            right == area.spec_right(),
            right >= 1,
            bottom == area.spec_bottom(),
            out@ == top_part + Seq::new(
                2 * (y - area.y) as nat,
                |i: int| if i % 2 == 0 { (area.x, (area.y + i / 2) as u16) } else { ((right - 1) as u16, (area.y + i / 2) as u16) },
            ),
        decreases bottom - y,
    {
        out.push((area.left(), y));
        out.push((right - 1, y));
        assert(out@ =~= top_part + Seq::new(
            2 * (y + 1 - area.y) as nat,
            |i: int| if i % 2 == 0 { (area.x, (area.y + i / 2) as u16) } else { ((right - 1) as u16, (area.y + i / 2) as u16) },
        ));
        y = y + 1;
    }
    assert(out@ =~= border_cells(area));
    out
}

} // verus!

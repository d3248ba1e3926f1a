//! A small image of coloured characters (pixel art, QR codes, dithered
//! pictures), drawn scaled.

use vstd::prelude::*;
use crate::text::chars_of;
use crate::tui::{Color, Rect};

verus! {

/// One character of the image in its colours.
#[derive(Debug, Clone, Copy, PartialEq, Eq, Structural)]
pub struct Pixel {
    pub ch: char,
    pub fg: Color,
    pub bg: Color,
}

impl Pixel {
    /// A pixel of `ch` in `fg` on the terminal's background.
    pub fn new(ch: char, fg: Color) -> (p: Pixel)
        ensures
            p == (Pixel { ch, fg, bg: Color::Reset }),
    {
        Pixel { ch, fg, bg: Color::Reset }
    }

    /// This pixel on another background.
    pub fn with_bg(self, bg: Color) -> (p: Pixel)
        ensures
            p == (Pixel { bg, ..self }),
    {
        Pixel { bg, ..self }
    }
}

/// An image: its size, its pixels row by row, and how many cells each
/// pixel takes across and down.
pub struct AsciiImage {
    pub width: u16,
    pub height: u16,
    pub pixels: Vec<Pixel>,
    pub scale_x: u16,
    pub scale_y: u16,
}

/// A blank pixel.
pub open spec fn blank_pixel() -> Pixel {
    Pixel { ch: ' ', fg: Color::Reset, bg: Color::Reset }
}

/// The pixels with `p` at (`x`, `y`), where that is inside the image.
pub open spec fn put_pixel(pix: Seq<Pixel>, w: u16, h: u16, x: u16, y: u16, p: Pixel) -> Seq<Pixel> {
    if x < w && y < h { pix.update(y * w + x, p) } else { pix }
}

/// The pixels after writing the first `n` characters of `line` into row
/// `y`, the character at index `i` at column `i` (both counted in `u16`).
pub open spec fn write_line(pix: Seq<Pixel>, w: u16, h: u16, line: Seq<char>, y: int, n: int) -> Seq<Pixel>
    decreases n,
{
    if n <= 0 {
        pix
    } else {
        put_pixel(
            write_line(pix, w, h, line, y, n - 1),
            w,
            h,
            (n - 1) as u16,
            y as u16,
            Pixel { ch: line[n - 1], fg: Color::Reset, bg: Color::Reset },
        )
    }
}

/// The pixels after writing the first `n` lines, line `i` into row `i`.
pub open spec fn write_lines(pix: Seq<Pixel>, w: u16, h: u16, lines: Seq<Seq<char>>, n: int) -> Seq<Pixel>
    decreases n,
{
    if n <= 0 {
        pix
    } else {
        write_line(write_lines(pix, w, h, lines, n - 1), w, h, lines[n - 1], n - 1, lines[n - 1].len() as int)
    }
}

/// Where the pixels of row `y` are drawn in `area`, from column 0 up to `n`:
/// each pixel's top left cell, scaled, and its index; pixels whose cell
/// falls at or past the right or bottom edge are left out.
pub open spec fn row_placed(img_w: u16, sx: u16, sy: u16, area: Rect, y: int, n: int) -> Seq<(u16, u16, usize)>
    decreases n,
{
    if n <= 0 {
        seq![]
    } else {
        let x = n - 1;
        let cx = area.x + x * sx;
        let cy = area.y + y * sy;
        let rest = row_placed(img_w, sx, sy, area, y, n - 1);
        if cx >= area.spec_right() || cy >= area.spec_bottom() {
            rest
        } else {
            rest.push((cx as u16, cy as u16, (y * img_w + x) as usize))
        }
    }
}

/// Where the pixels of the first `m` rows are drawn (see [`row_placed`]).
pub open spec fn rows_placed(img_w: u16, sx: u16, sy: u16, area: Rect, m: int) -> Seq<(u16, u16, usize)>
    decreases m,
{
    if m <= 0 {
        seq![]
    } else {
        rows_placed(img_w, sx, sy, area, m - 1) + row_placed(img_w, sx, sy, area, m - 1, img_w as int)
    }
}

impl AsciiImage {
    /// One pixel per cell of the image, scales of at least one.
    pub open spec fn wf(&self) -> bool {
        &&& self.pixels@.len() == self.width * self.height
        &&& self.width * self.height <= u16::MAX
    }

    /// A blank `width` x `height` image at scale one.
    pub fn new(width: u16, height: u16) -> (img: AsciiImage)
        requires
            width * height <= u16::MAX,
        ensures
            img.width == width,
            img.height == height,
            img.pixels@ == Seq::new((width * height) as nat, |i: int| blank_pixel()),
            img.scale_x == 1,
            img.scale_y == 1,
            img.wf(),
    {
        let n: usize = (width * height) as usize;
        let mut pixels: Vec<Pixel> = Vec::new();
        let mut i: usize = 0;
        while i < n
            invariant
                i <= n,
                pixels@ == Seq::new(i as nat, |k: int| blank_pixel()),
            decreases n - i,
        {
            pixels.push(Pixel::new(' ', Color::Reset));
            assert(pixels@ =~= Seq::new((i + 1) as nat, |k: int| blank_pixel()));
            i = i + 1;
        }
        AsciiImage { width, height, pixels, scale_x: 1, scale_y: 1 }
    }

    /// Writes `p` at (`x`, `y`), where that is inside the image.
    pub fn pixel_raw(&mut self, x: u16, y: u16, p: Pixel)
        requires
            old(self).wf(),
        ensures
            final(self).wf(),
            final(self).pixels@ == put_pixel(old(self).pixels@, old(self).width, old(self).height, x, y, p),
            final(self).width == old(self).width,
            final(self).height == old(self).height,
            final(self).scale_x == old(self).scale_x,
            final(self).scale_y == old(self).scale_y,
    {
        if x >= self.width || y >= self.height {
            return;
        }
        proof {
            assert(y * self.width + x < self.width * self.height) by (nonlinear_arith)
                requires
                    x < self.width,
                    y < self.height,
            ;
        }
        let idx = y as usize * self.width as usize + x as usize;
        self.pixels.set(idx, p);
    }

    /// An image of `lines`, one row per line and as wide as the first line
    /// (both counted in `u16`), each character a pixel in the default
    /// colours.
    pub fn from_lines(lines: &Vec<String>) -> (img: AsciiImage)
        requires
            ({
                let h = lines@.len() as u16;
                let w = if lines@.len() > 0 { lines@[0]@.len() as u16 } else { 0u16 };
                w * h <= u16::MAX
            }),
        ensures
            ({
                let h = lines@.len() as u16;
                let w = if lines@.len() > 0 { lines@[0]@.len() as u16 } else { 0u16 };
                let ls = lines@.map_values(|s: String| s@);
                &&& img.width == w
                &&& img.height == h
                &&& img.pixels@ == write_lines(
                    Seq::new((w * h) as nat, |i: int| blank_pixel()),
                    w,
                    h,
                    ls,
                    ls.len() as int,
                )
                &&& img.scale_x == 1
                &&& img.scale_y == 1
                &&& img.wf()
            }),
    {
        let h: u16 = #[verifier::truncate] (lines.len() as u16);
        let w: u16 = if lines.len() > 0 {
            #[verifier::truncate] (chars_of(lines[0].as_str()).len() as u16)
        } else {
            0
        };
        let mut img = AsciiImage::new(w, h);
        let ghost ls = lines@.map_values(|s: String| s@);
        let ghost start = img.pixels@;
        let mut y: usize = 0;
        while y < lines.len()
            invariant
                y <= lines@.len(),
                img.wf(),
                img.width == w,
                img.height == h,
                img.scale_x == 1,
                img.scale_y == 1,
                ls == lines@.map_values(|s: String| s@),
                img.pixels@ == write_lines(start, w, h, ls, y as int),
            decreases lines@.len() - y,
        {
            let line = chars_of(lines[y].as_str());
            let ghost row_start = img.pixels@;
            let mut x: usize = 0;
            while x < line.len()
                invariant
                    x <= line@.len(),
                    line@ == ls[y as int],
                    img.wf(),
                    img.width == w,
                    img.height == h,
                    img.scale_x == 1,
                    img.scale_y == 1,
                    img.pixels@ == write_line(row_start, w, h, line@, y as int, x as int),
                decreases line@.len() - x,
            {
                let px: u16 = #[verifier::truncate] (x as u16);
                let py: u16 = #[verifier::truncate] (y as u16);
                img.pixel_raw(px, py, Pixel::new(line[x], Color::Reset));
                x = x + 1;
            }
            y = y + 1;
        }
        img
    }

    /// This image with each pixel `x` cells wide and `y` cells high (at
    /// least one).
    pub fn scale(self, x: u16, y: u16) -> (img: AsciiImage)
        ensures
            img.width == self.width,
            img.height == self.height,
            img.pixels == self.pixels,
            img.scale_x == if x >= 1 { x } else { 1 },
            img.scale_y == if y >= 1 { y } else { 1 },
    {
        AsciiImage { scale_x: if x >= 1 { x } else { 1 }, scale_y: if y >= 1 { y } else { 1 }, ..self }
    }

    /// This image with `ch` in `fg` at (`x`, `y`).
    pub fn pixel(self, x: u16, y: u16, ch: char, fg: Color) -> (img: AsciiImage)
        requires
            self.wf(),
        ensures
            img.wf(),
            img.pixels@ == put_pixel(self.pixels@, self.width, self.height, x, y, Pixel { ch, fg, bg: Color::Reset }),
            img.width == self.width,
            img.height == self.height,
            img.scale_x == self.scale_x,
            img.scale_y == self.scale_y,
    {
        let mut me = self;
        me.pixel_raw(x, y, Pixel::new(ch, fg));
        me
    }

    /// This image with `ch` in `fg` on `bg` at (`x`, `y`).
    pub fn pixel_bg(self, x: u16, y: u16, ch: char, fg: Color, bg: Color) -> (img: AsciiImage)
        requires
            self.wf(),
        ensures
            img.wf(),
            img.pixels@ == put_pixel(self.pixels@, self.width, self.height, x, y, Pixel { ch, fg, bg }),
            img.width == self.width,
            img.height == self.height,
            img.scale_x == self.scale_x,
            img.scale_y == self.scale_y,
    {
        let mut me = self;
        me.pixel_raw(x, y, Pixel::new(ch, fg).with_bg(bg));
        me
    }

    /// Writes `p` over the `w` x `h` block from (`x`, `y`), clipped to the
    /// image.
    pub fn rect(&mut self, x: u16, y: u16, w: u16, h: u16, p: Pixel)
        requires
            old(self).wf(),
            x + w <= u16::MAX,
            y + h <= u16::MAX,
        ensures
            final(self).wf(),
            final(self).width == old(self).width,
            final(self).height == old(self).height,
            final(self).scale_x == old(self).scale_x,
            final(self).scale_y == old(self).scale_y,
            final(self).pixels@.len() == old(self).pixels@.len(),
            forall|r: int, c: int|
                0 <= r < old(self).height && 0 <= c < old(self).width ==> #[trigger] final(self).pixels@[r
                    * old(self).width + c] == if y <= r < y + h && x <= c < x + w {
                    p
                } else {
                    old(self).pixels@[r * old(self).width + c]
                },
    {
        let ghost iw = self.width as int;
        let y_end = if y + h < self.height {
            y + h
        } else {
            self.height
        };
        let x_end = if x + w < self.width {
            x + w
        } else {
            self.width
        };
        let mut dy: u16 = y;
        while dy < y_end
            invariant
                y <= dy,
                dy <= y_end || dy == y,
                y_end <= old(self).height,
                x_end <= old(self).width,
                y_end == if y + h < old(self).height { y + h } else { old(self).height as int },
                x_end == if x + w < old(self).width { x + w } else { old(self).width as int },
                self.wf(),
                self.width == old(self).width,
                self.height == old(self).height,
                self.scale_x == old(self).scale_x,
                self.scale_y == old(self).scale_y,
                iw == self.width,
                forall|r: int, c: int|
                    0 <= r < old(self).height && 0 <= c < old(self).width ==> #[trigger] self.pixels@[r * iw + c]
                        == if y <= r < dy && x <= c < x_end {
                        p
                    } else {
                        old(self).pixels@[r * iw + c]
                    },
            decreases y_end - dy,
        {
            let mut dx: u16 = x;
            while dx < x_end
                invariant
                    x <= dx,
                    dx <= x_end || dx == x,
                    y <= dy < y_end,
                    y_end <= old(self).height,
                    x_end <= old(self).width,
                    self.wf(),
                    self.width == old(self).width,
                    self.height == old(self).height,
                    self.scale_x == old(self).scale_x,
                    self.scale_y == old(self).scale_y,
                    iw == self.width,
                    forall|r: int, c: int|
                        0 <= r < old(self).height && 0 <= c < old(self).width ==> #[trigger] self.pixels@[r * iw + c]
                            == if (y <= r < dy && x <= c < x_end) || (r == dy && x <= c < dx) {
                            p
                        } else {
                            old(self).pixels@[r * iw + c]
                        },
                decreases x_end - dx,
            {
                let ghost before = self.pixels@;
                self.pixel_raw(dx, dy, p);
                proof {
                    assert forall|r: int, c: int|
                        0 <= r < old(self).height && 0 <= c < old(self).width implies #[trigger] self.pixels@[r
                            * iw + c] == if (y <= r < dy && x <= c < x_end) || (r == dy && x <= c < dx + 1) {
                            p
                        } else {
                            old(self).pixels@[r * iw + c]
                        } by {
                        lemma_cell_index(r, c, dy as int, dx as int, iw);
                        let hh = old(self).height as int;
                        assert(r * iw + c < iw * hh) by (nonlinear_arith)
                            requires
                                0 <= r < hh,
                                0 <= c < iw,
                        ;
                        assert(before.len() == iw * hh);
                        assert(dy * iw + dx < iw * hh) by (nonlinear_arith)
                            requires
                                0 <= dy < hh,
                                0 <= dx < iw,
                        ;
                        assert(self.pixels@ == before.update(dy * iw + dx, p));
                        if r == dy && c == dx {
                            assert(self.pixels@[r * iw + c] == p);
                        } else {
                            assert(self.pixels@[r * iw + c] == before[r * iw + c]);
                        }
                    }
                }
                dx = dx + 1;
            }
            proof {
                assert forall|r: int, c: int|
                    0 <= r < old(self).height && 0 <= c < old(self).width implies #[trigger] self.pixels@[r * iw + c]
                        == if y <= r < dy + 1 && x <= c < x_end {
                        p
                    } else {
                        old(self).pixels@[r * iw + c]
                    } by {
                    assert((y <= r < dy && x <= c < x_end) || (r == dy && x <= c < dx) <==> (y <= r < dy + 1 && x
                        <= c < x_end));
                }
            }
            dy = dy + 1;
        }
        proof {
            assert forall|r: int, c: int|
                0 <= r < old(self).height && 0 <= c < old(self).width implies #[trigger] self.pixels@[r * iw + c] == if y
                    <= r < y + h && x <= c < x + w {
                p
            } else {
                old(self).pixels@[r * iw + c]
            } by {
                assert((y <= r < dy && x <= c < x_end) <==> (y <= r < y + h && x <= c < x + w));
            }
        }
    }

    /// Writes `p` over every pixel.
    pub fn fill(&mut self, p: Pixel)
        requires
            old(self).wf(),
        ensures
            final(self).wf(),
            final(self).pixels@ == Seq::new(old(self).pixels@.len(), |i: int| p),
            final(self).width == old(self).width,
            final(self).height == old(self).height,
            final(self).scale_x == old(self).scale_x,
            final(self).scale_y == old(self).scale_y,
    {
        let n = self.pixels.len();
        let mut i: usize = 0;
        while i < n
            invariant
                n == self.pixels@.len(),
                n == old(self).pixels@.len(),
                i <= n,
                self.width == old(self).width,
                self.height == old(self).height,
                self.scale_x == old(self).scale_x,
                self.scale_y == old(self).scale_y,
                old(self).wf(),
                forall|k: int| 0 <= k < n ==> #[trigger] self.pixels@[k] == if k < i { p } else { old(self).pixels@[k] },
            decreases n - i,
        {
            self.pixels.set(i, p);
            i = i + 1;
        }
        assert(self.pixels@ =~= Seq::new(old(self).pixels@.len(), |i: int| p));
    }

    /// Where each pixel is drawn in `area`, row by row (see [`rows_placed`]):
    /// its top left cell and its index; each fills `scale_x` x `scale_y`
    /// cells from there.
    pub fn placements(&self, area: Rect) -> (out: Vec<(u16, u16, usize)>)
        requires
            self.wf(),
            area.x + self.width * self.scale_x <= u16::MAX,
            area.y + self.height * self.scale_y <= u16::MAX,
        ensures
            out@ == rows_placed(self.width, self.scale_x, self.scale_y, area, self.height as int),
    {
        let right = area.right();
        let bottom = area.bottom();
        let mut out: Vec<(u16, u16, usize)> = Vec::new();
        let mut y: u16 = 0;
        while y < self.height
            invariant
                y <= self.height,
                self.wf(),
                right == area.spec_right(),
                bottom == area.spec_bottom(),
                area.x + self.width * self.scale_x <= u16::MAX,
                area.y + self.height * self.scale_y <= u16::MAX,
                out@ == rows_placed(self.width, self.scale_x, self.scale_y, area, y as int),
            decreases self.height - y,
        {
            let ghost row_start = out@;
            let mut x: u16 = 0;
            while x < self.width
                invariant
                    x <= self.width,
                    y < self.height,
                    self.wf(),
                    right == area.spec_right(),
                    bottom == area.spec_bottom(),
                    area.x + self.width * self.scale_x <= u16::MAX,
                    area.y + self.height * self.scale_y <= u16::MAX,
                    out@ == row_start + row_placed(self.width, self.scale_x, self.scale_y, area, y as int, x as int),
                decreases self.width - x,
            {
                proof {
                    assert(x * self.scale_x <= self.width * self.scale_x) by (nonlinear_arith)
                        requires
                            x < self.width,
                    ;
                    assert(y * self.scale_y <= self.height * self.scale_y) by (nonlinear_arith)
                        requires
                            y < self.height,
                    ;
                    assert(y * self.width + x < self.width * self.height) by (nonlinear_arith)
                        requires
                            x < self.width,
                            y < self.height,
                    ;
                }
                let sx: u16 = area.x + x * self.scale_x;
                let sy: u16 = area.y + y * self.scale_y;
                if !(sx >= right || sy >= bottom) {
                    out.push((sx, sy, (y * self.width + x) as usize));
                }
                x = x + 1;
            }
            y = y + 1;
        }
        out
    }
}

proof fn lemma_cell_index(r: int, c: int, dy: int, dx: int, w: int)
    requires
        0 <= c < w,
        0 <= dx < w,
        0 <= r,
        0 <= dy,
    ensures
        (r * w + c == dy * w + dx) <==> (r == dy && c == dx),
{
    if r < dy {
        assert(r * w + c < dy * w + dx) by (nonlinear_arith)
            requires
                r < dy,
                0 <= c < w,
                0 <= dx,
        ;
    } else if r > dy {
        assert(r * w + c > dy * w + dx) by (nonlinear_arith)
            requires
                r > dy,
                0 <= c,
                0 <= dx < w,
        ;
    }
}

} // verus!

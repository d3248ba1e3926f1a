//! A powerline-style status bar and a searchable command palette.

use vstd::prelude::*;
use crate::text::{char_to_string, chars_of, concat, contains_run, has_run, lowercase, string_from_chars, to_lowercase};
use crate::tui::{Color, KeyCode, Rect};

verus! {

/// One piece of a powerline: a text in its colours, or an arrow between two
/// pieces.
#[derive(Debug, Clone)]
pub struct Segment {
    pub text: String,
    pub fg: Color,
    pub bg: Color,
    pub is_arrow: bool,
}

/// Columns a segment takes up: one for an arrow, else one per character.
pub open spec fn seg_width(s: Segment) -> nat {
    if s.is_arrow { 1 } else { s.text@.len() }
}

impl Segment {
    /// A text segment, white on the terminal's background.
    pub fn text(t: &str) -> (s: Segment)
        ensures
            s.text@ == t@,
            s.fg == Color::White,
            s.bg == Color::Reset,
            !s.is_arrow,
    {
        Segment { text: t.to_owned(), fg: Color::White, bg: Color::Reset, is_arrow: false }
    }

    /// An arrow separator.
    pub fn arrow() -> (s: Segment)
        ensures
            s.text@.len() == 0,
            s.fg == Color::White,
            s.bg == Color::Reset,
            s.is_arrow,
    {
        Segment { text: String::new(), fg: Color::White, bg: Color::Reset, is_arrow: true }
    }

    /// This segment with another foreground colour.
    pub fn fg(self, c: Color) -> (s: Segment)
        ensures
            s.text == self.text,
            s.fg == c,
            s.bg == self.bg,
            s.is_arrow == self.is_arrow,
    {
        Segment { fg: c, ..self }
    }

    /// This segment with another background colour.
    pub fn bg(self, c: Color) -> (s: Segment)
        ensures
            s.text == self.text,
            s.fg == self.fg,
            s.bg == c,
            s.is_arrow == self.is_arrow,
    {
        Segment { bg: c, ..self }
    }

    /// Columns the segment takes up (see [`seg_width`]).
    pub fn width(&self) -> (w: usize)
        ensures
            w == seg_width(*self),
    {
        if self.is_arrow {
            1
        } else {
            chars_of(self.text.as_str()).len()
        }
    }
}

/// Where a segment is drawn and how.
pub struct SegmentPlacement {
    pub rect: Rect,
    pub text: String,
    pub fg: Color,
    pub bg: Color,
    pub arrow: bool,
}

/// The abstract value of a placement.
pub open spec fn placement_view(p: SegmentPlacement) -> (Rect, Seq<char>, Color, Color, bool) {
    (p.rect, p.text@, p.fg, p.bg, p.arrow)
}

/// A powerline: its segments and the character drawn for arrows.
pub struct Powerline {
    pub segments: Vec<Segment>,
    pub arrow_char: char,
}

/// The background a segment's neighbour has, or the terminal's where there
/// is none.
pub open spec fn bg_at(segs: Seq<Segment>, i: int) -> Color {
    if 0 <= i < segs.len() { segs[i].bg } else { Color::Reset }
}

/// How segment `i` is drawn from column `x`: an arrow takes the colour of
/// the segment before it (the first arrow its own) on the background of the
/// one after it.
pub open spec fn placed(segs: Seq<Segment>, arrow: char, area: Rect, i: int, x: nat) -> (Rect, Seq<char>, Color, Color, bool) {
    let s = segs[i];
    let w = (seg_width(s) as u16) as nat;
    let rect = Rect { x: x as u16, y: area.y, width: w as u16, height: area.height };
    if s.is_arrow {
        (rect, seq![arrow], bg_at(segs, if i > 0 { i - 1 } else { 0 }), bg_at(segs, i + 1), true)
    } else {
        (rect, s.text@, s.fg, s.bg, false)
    }
}

/// The segments from `i` on, placed left to right from column `x` until one
/// would pass the right edge of `area`, and the column after the last.
pub open spec fn placements_from(segs: Seq<Segment>, arrow: char, area: Rect, i: int, x: nat) -> (
    Seq<(Rect, Seq<char>, Color, Color, bool)>,
    nat,
)
    decreases segs.len() - i,
{
    if i < 0 || i >= segs.len() {
        (seq![], x)
    } else {
        let w = (seg_width(segs[i]) as u16) as nat;
        if x + w > area.spec_right() {
            (seq![], x)
        } else {
            let rest = placements_from(segs, arrow, area, i + 1, x + w);
            (seq![placed(segs, arrow, area, i, x)] + rest.0, rest.1)
        }
    }
}

impl Powerline {
    /// A powerline of `segments` with `▶` arrows.
    pub fn new(segments: Vec<Segment>) -> (p: Powerline)
        ensures
            p.segments@ == segments@,
            p.arrow_char == '▶',
    {
        Powerline { segments, arrow_char: '▶' }
    }

    /// This powerline with another arrow character.
    pub fn with_arrow(self, ch: char) -> (p: Powerline)
        ensures
            p.segments == self.segments,
            p.arrow_char == ch,
    {
        Powerline { arrow_char: ch, ..self }
    }

    /// Replaces the segments.
    pub fn set_segments(&mut self, segments: Vec<Segment>)
        ensures
            final(self).segments@ == segments@,
            final(self).arrow_char == old(self).arrow_char,
    {
        self.segments = segments;
    }

    /// Where each segment that fits in `area` is drawn, left to right (see
    /// [`placements_from`]), and the first column after them, from which the
    /// rest of the area is cleared.
    pub fn layout(&self, area: Rect) -> (r: (Vec<SegmentPlacement>, u16))
        ensures
            r.0@.map_values(|p: SegmentPlacement| placement_view(p)) == placements_from(
                self.segments@,
                self.arrow_char,
                area,
                0,
                area.x as nat,
            ).0,
            r.1 == placements_from(self.segments@, self.arrow_char, area, 0, area.x as nat).1,
    {
        let ghost segs = self.segments@;
        let ghost total = placements_from(segs, self.arrow_char, area, 0, area.x as nat);
        let mut out: Vec<SegmentPlacement> = Vec::new();
        let mut x: u16 = area.x;
        let right = area.right();
        let n = self.segments.len();
        let mut i: usize = 0;
        while i < n
            invariant
                n == segs.len(),
                segs == self.segments@,
                right == area.spec_right(),
                i <= n,
                x <= right,
                out@.map_values(|p: SegmentPlacement| placement_view(p)) + placements_from(
                    segs,
                    self.arrow_char,
                    area,
                    i as int,
                    x as nat,
                ).0 == total.0,
                placements_from(segs, self.arrow_char, area, i as int, x as nat).1 == total.1,
            ensures
                out@.map_values(|p: SegmentPlacement| placement_view(p)) + placements_from(
                    segs,
                    self.arrow_char,
                    area,
                    i as int,
                    x as nat,
                ).0 == total.0,
                placements_from(segs, self.arrow_char, area, i as int, x as nat).0.len() == 0,
                placements_from(segs, self.arrow_char, area, i as int, x as nat).1 == x as nat,
                x as nat == total.1,
            decreases n - i,
        {
            let seg = &self.segments[i];
            let w: u16 = #[verifier::truncate] (seg.width() as u16);
            if x as u32 + w as u32 > right as u32 {
                break;
            }
            let rect = Rect { x, y: area.y, width: w, height: area.height };
            let p = if seg.is_arrow {
                let prev = if i > 0 {
                    i - 1
                } else {
                    0
                };
                let fg = self.segments[prev].bg;
                let bg = if i + 1 < n {
                    self.segments[i + 1].bg
                } else {
                    Color::Reset
                };
                SegmentPlacement { rect, text: char_to_string(self.arrow_char), fg, bg, arrow: true }
            } else {
                SegmentPlacement { rect, text: seg.text.clone(), fg: seg.fg, bg: seg.bg, arrow: false }
            };
            let ghost prev_out = out@;
            out.push(p);
            proof {
                crate::surface::lemma_map_push(prev_out, p, |p: SegmentPlacement| placement_view(p));
                assert(placement_view(p) == placed(segs, self.arrow_char, area, i as int, x as nat));
                let rest = placements_from(segs, self.arrow_char, area, i + 1, (x + w) as nat);
                assert(placements_from(segs, self.arrow_char, area, i as int, x as nat).0 == seq![
                    placed(segs, self.arrow_char, area, i as int, x as nat),
                ] + rest.0);
                assert(out@.map_values(|p: SegmentPlacement| placement_view(p)) + rest.0 =~= prev_out.map_values(
                    |p: SegmentPlacement| placement_view(p),
                ) + placements_from(segs, self.arrow_char, area, i as int, x as nat).0);
            }
            x = x + w;
            i = i + 1;
        }
        proof {
            assert(placements_from(segs, self.arrow_char, area, i as int, x as nat).0 =~= seq![]);
            assert(out@.map_values(|p: SegmentPlacement| placement_view(p)) =~= out@.map_values(
                |p: SegmentPlacement| placement_view(p),
            ) + seq![]);
        }
        (out, x)
    }
}

/// A command palette: its commands, the filter typed so far, the selected
/// match and whether it is shown.
pub struct CommandPalette {
    pub items: Vec<String>,
    pub filter: Vec<char>,
    pub selection: usize,
    pub visible: bool,
}

/// The characters of each command.
pub open spec fn item_views(items: Seq<String>) -> Seq<Seq<char>> {
    items.map_values(|s: String| s@)
}

/// The commands, in order, whose lower-case form contains the lower-case
/// form of the filter.
pub open spec fn matching(items: Seq<Seq<char>>, filter: Seq<char>) -> Seq<Seq<char>>
    decreases items.len(),
{
    if items.len() == 0 {
        seq![]
    } else {
        let rest = matching(items.drop_last(), filter);
        if contains_run(lowercase(items.last()), lowercase(filter)) {
            rest.push(items.last())
        } else {
            rest
        }
    }
}

/// Where the palette and its parts are drawn.
pub struct PaletteLayout {
    /// The palette's box, centred in the area.
    pub frame: Rect,
    /// The row of the filter prompt.
    pub input: Rect,
    /// The prompt: `> ` and the filter.
    pub prompt: String,
    /// Each visible match: its row, its text and whether it is selected.
    pub rows: Vec<(Rect, String, bool)>,
}

/// The palette's box in `area`: 40 by 10 cells (less where the area is
/// smaller), centred.
pub open spec fn palette_frame(area: Rect) -> Rect {
    let w: int = if area.width > 40 { area.width - 40 } else { 0 };
    let h: int = if area.height > 10 { area.height - 10 } else { 0 };
    Rect {
        x: (area.x + w / 2) as u16,
        y: (area.y + h / 2) as u16,
        width: if area.width < 40 { area.width } else { 40 },
        height: if area.height < 10 { area.height } else { 10 },
    }
}

/// The inside of the palette's box, within its one-cell border.
pub open spec fn palette_inner(frame: Rect) -> Rect {
    Rect {
        x: (frame.x + 1) as u16,
        y: (frame.y + 1) as u16,
        width: if frame.width > 2 { (frame.width - 2) as u16 } else { 0 },
        height: if frame.height > 2 { (frame.height - 2) as u16 } else { 0 },
    }
}

/// Rows left for matches: the inside's height less the prompt, a gap and
/// one more row.
pub open spec fn palette_rows(area: Rect) -> nat {
    let inner = palette_inner(palette_frame(area));
    if inner.height > 3 { (inner.height - 3) as nat } else { 0 }
}

/// The palette's parts fit in the terminal's coordinates.
pub open spec fn palette_fits(area: Rect) -> bool {
    let w: int = if area.width > 40 { area.width - 40 } else { 0 };
    let h: int = if area.height > 10 { area.height - 10 } else { 0 };
    &&& area.x + w / 2 + 1 <= u16::MAX
    &&& area.y + h / 2 + 3 + palette_rows(area) <= u16::MAX
}

impl CommandPalette {
    /// The commands that match the current filter (see [`matching`]).
    pub open spec fn spec_matches(&self) -> Seq<Seq<char>> {
        matching(item_views(self.items@), self.filter@)
    }

    /// A hidden palette over `items`, with an empty filter.
    pub fn new(items: Vec<String>) -> (p: CommandPalette)
        ensures
            p.items@ == items@,
            p.filter@.len() == 0,
            p.selection == 0,
            !p.visible,
    {
        CommandPalette { items, filter: Vec::new(), selection: 0, visible: false }
    }

    /// Shows the palette with an empty filter and the first match selected.
    pub fn show(&mut self)
        ensures
            final(self).visible,
            final(self).filter@.len() == 0,
            final(self).selection == 0,
            final(self).items == old(self).items,
    {
        self.visible = true;
        self.filter = Vec::new();
        self.selection = 0;
    }

    /// Closes (hides) the palette.
    pub fn close(&mut self)
        ensures
            !final(self).visible,
            final(self).filter == old(self).filter,
            final(self).selection == old(self).selection,
            final(self).items == old(self).items,
    {
        self.visible = false;
    }

    /// Whether the palette is shown.
    pub fn is_visible(&self) -> (b: bool)
        ensures
            b == self.visible,
    {
        self.visible
    }

    /// The commands that match the filter (see [`matching`]).
    pub fn filtered(&self) -> (out: Vec<String>)
        ensures
            item_views(out@) == self.spec_matches(),
    {
        let f = to_lowercase(string_from_chars(self.filter.as_slice()).as_str());
        let fl = chars_of(f.as_str());
        let mut out: Vec<String> = Vec::new();
        let mut i: usize = 0;
        while i < self.items.len()
            invariant
                i <= self.items@.len(),
                fl@ == lowercase(self.filter@),
                item_views(out@) == matching(item_views(self.items@).take(i as int), self.filter@),
            decreases self.items@.len() - i,
        {
            let low = chars_of(to_lowercase(self.items[i].as_str()).as_str());
            let ghost before = item_views(self.items@).take(i as int);
            proof {
                assert(item_views(self.items@).take(i + 1).drop_last() =~= before);
                assert(item_views(self.items@).take(i + 1).last() == self.items@[i as int]@);
            }
            if has_run(&low, &fl) {
                let ghost prev = out@;
                out.push(self.items[i].clone());
                proof {
                    crate::surface::lemma_map_push(prev, self.items@[i as int], |s: String| s@);
                }
            }
            i = i + 1;
        }
        proof {
            assert(item_views(self.items@).take(self.items@.len() as int) =~= item_views(self.items@));
        }
        out
    }

    /// Handles a key while shown: Esc hides the palette; Enter hides it and
    /// returns the selected match, if any; Up and Down move the selection;
    /// Backspace and characters edit the filter and select the first match.
    pub fn on_key(&mut self, code: KeyCode) -> (r: Option<String>)
        requires
            code == KeyCode::Down ==> old(self).selection < usize::MAX,
        ensures
            final(self).items == old(self).items,
            !old(self).visible ==> *final(self) == *old(self) && r is None,
            old(self).visible ==> match code {
                KeyCode::Esc => !final(self).visible && final(self).filter == old(self).filter
                    && final(self).selection == old(self).selection && r is None,
                KeyCode::Enter => {
                    let m = old(self).spec_matches();
                    &&& !final(self).visible
                    &&& final(self).filter == old(self).filter
                    &&& final(self).selection == old(self).selection
                    &&& match r {
                        Some(s) => old(self).selection < m.len() && s@ == m[old(self).selection as int],
                        None => old(self).selection >= m.len(),
                    }
                },
                KeyCode::Up => {
                    &&& final(self).visible
                    &&& final(self).filter == old(self).filter
                    &&& final(self).selection == if old(self).selection > 0 {
                        old(self).selection - 1
                    } else {
                        0int
                    }
                    &&& r is None
                },
                KeyCode::Down => {
                    let len = old(self).spec_matches().len();
                    let last: nat = if len > 0 { (len - 1) as nat } else { 0 };
                    &&& final(self).visible
                    &&& final(self).filter == old(self).filter
                    &&& final(self).selection == if old(self).selection + 1 < last {
                        old(self).selection + 1
                    } else {
                        last as int
                    }
                    &&& r is None
                },
                KeyCode::Backspace => {
                    &&& final(self).visible
                    &&& final(self).filter@ == if old(self).filter@.len() > 0 {
                        old(self).filter@.drop_last()
                    } else {
                        old(self).filter@
                    }
                    &&& final(self).selection == 0
                    &&& r is None
                },
                KeyCode::Char(c) => {
                    &&& final(self).visible
                    &&& final(self).filter@ == old(self).filter@.push(c)
                    &&& final(self).selection == 0
                    &&& r is None
                },
                _ => *final(self) == *old(self) && r is None,
            },
    {
        if !self.visible {
            return None;
        }
        match code {
            KeyCode::Esc => {
                self.close();
                None
            },
            KeyCode::Enter => {
                let items = self.filtered();
                let sel = self.selection;
                self.close();
                if sel < items.len() {
                    Some(items[sel].clone())
                } else {
                    None
                }
            },
            KeyCode::Up => {
                self.selection = self.selection.saturating_sub(1);
                None
            },
            KeyCode::Down => {
                let len = self.filtered().len();
                let last = len.saturating_sub(1);
                self.selection = if self.selection + 1 < last {
                    self.selection + 1
                } else {
                    last
                };
                None
            },
            KeyCode::Backspace => {
                self.filter.pop();
                self.selection = 0;
                None
            },
            KeyCode::Char(c) => {
                self.filter.push(c);
                self.selection = 0;
                None
            },
            _ => None,
        }
    }

    /// Where a shown palette is drawn in `area` (none where it is hidden):
    /// its centred box, the prompt row below the top border showing `> ` and
    /// the filter, and from two rows further down one row per match, as many
    /// as fit, the selected one marked.
    pub fn layout(&self, area: Rect) -> (r: Option<PaletteLayout>)
        requires
            palette_fits(area),
        ensures
            !self.visible ==> r is None,
            self.visible ==> (r matches Some(l) && {
                let frame = palette_frame(area);
                let inner = palette_inner(frame);
                let m = self.spec_matches();
                let n: nat = if m.len() < palette_rows(area) { m.len() } else { palette_rows(area) };
                &&& l.frame == frame
                &&& l.input == (Rect { height: 1, ..inner })
                &&& l.prompt@ == seq!['>', ' '] + self.filter@
                &&& l.rows@.len() == n
                &&& forall|i: int|
                    0 <= i < n ==> {
                        &&& (#[trigger] l.rows@[i]).0 == (Rect {
                            x: inner.x,
                            y: (inner.y + 2 + i) as u16,
                            width: inner.width,
                            height: 1,
                        })
                        &&& l.rows@[i].1@ == m[i]
                        &&& l.rows@[i].2 == (i == self.selection)
                    }
            }),
    {
        if !self.visible {
            return None;
        }
        let w = area.width.saturating_sub(40);
        let h = area.height.saturating_sub(10);
        let frame = Rect {
            x: area.x + w / 2,
            y: area.y + h / 2,
            width: if area.width < 40 {
                area.width
            } else {
                40
            },
            height: if area.height < 10 {
                area.height
            } else {
                10
            },
        };
        let inner = Rect {
            x: frame.x + 1,
            y: frame.y + 1,
            width: frame.width.saturating_sub(2),
            height: frame.height.saturating_sub(2),
        };
        proof {
            reveal_strlit("> ");
        }
        let prompt = concat("> ", string_from_chars(self.filter.as_slice()).as_str());
        let items = self.filtered();
        let room = inner.height.saturating_sub(3) as usize;
        let n = if items.len() < room {
            items.len()
        } else {
            room
        };
        let mut rows: Vec<(Rect, String, bool)> = Vec::new();
        let mut i: usize = 0;
        while i < n
            invariant
                i <= n,
                n <= items@.len(),
                n <= room,
                room == palette_rows(area),
                inner == palette_inner(palette_frame(area)),
                palette_fits(area),
                item_views(items@) == self.spec_matches(),
                rows@.len() == i,
                forall|k: int|
                    0 <= k < i ==> {
                        &&& (#[trigger] rows@[k]).0 == (Rect {
                            x: inner.x,
                            y: (inner.y + 2 + k) as u16,
                            width: inner.width,
                            height: 1,
                        })
                        &&& rows@[k].1@ == self.spec_matches()[k]
                        &&& rows@[k].2 == (k == self.selection)
                    },
            decreases n - i,
        {
            let row = Rect { x: inner.x, y: inner.y + 2 + i as u16, width: inner.width, height: 1 };
            rows.push((row, items[i].clone(), i == self.selection));
            i = i + 1;
        }
        Some(PaletteLayout { frame, input: Rect { height: 1, ..inner }, prompt, rows })
    }
}

/// Typing a character and then Backspace leaves the filter as it was.
pub proof fn lemma_filter_type_then_erase(f: Seq<char>, c: char)
    ensures
        f.push(c).drop_last() == f,
{
    assert(f.push(c).drop_last() =~= f);
}

/// Every match is one of the commands, and the matches keep the commands'
/// order (they are the commands with some left out).
pub proof fn lemma_matches_are_commands(items: Seq<Seq<char>>, filter: Seq<char>, k: int)
    requires
        0 <= k < matching(items, filter).len(),
    ensures
        items.contains(matching(items, filter)[k]),
        matching(items, filter).len() <= items.len(),
    decreases items.len(),
{
    let rest = matching(items.drop_last(), filter);
    lemma_matching_len(items, filter);
    if k < rest.len() {
        lemma_matches_are_commands(items.drop_last(), filter, k);
        let j = choose|j: int| 0 <= j < items.drop_last().len() && items.drop_last()[j] == rest[k];
        assert(items[j] == rest[k]);
    } else {
        assert(items[items.len() - 1] == items.last());
    }
}

proof fn lemma_matching_len(items: Seq<Seq<char>>, filter: Seq<char>)
    ensures
        matching(items, filter).len() <= items.len(),
    decreases items.len(),
{
    if items.len() > 0 {
        lemma_matching_len(items.drop_last(), filter);
    }
}

impl Clone for CommandPalette {
    /// An independent copy of the palette as it is now.
    fn clone(&self) -> (p: CommandPalette)
        ensures
            crate::text::string_views(p.items@) == crate::text::string_views(self.items@),
            p.filter@ == self.filter@,
            p.selection == self.selection,
            p.visible == self.visible,
    {
        CommandPalette {
            items: crate::text::clone_strings(&self.items),
            filter: crate::text::copy_vec(&self.filter),
            selection: self.selection,
            visible: self.visible,
        }
    }
}

} // verus!

//! Plain terminal primitives used throughout the library: colours,
//! text modifiers, styles, rectangles, alignment and input events.

use vstd::prelude::*;

verus! {

/// A terminal colour.
#[derive(Debug, Clone, Copy, PartialEq, Eq, Structural)]
pub enum Color {
    Reset,
    Black,
    Red,
    Green,
    Yellow,
    Blue,
    Magenta,
    Cyan,
    Gray,
    DarkGray,
    LightRed,
    LightGreen,
    LightYellow,
    LightBlue,
    LightMagenta,
    LightCyan,
    White,
    Rgb(u8, u8, u8),
    Indexed(u8),
}

/// A set of text modifiers, one bit per modifier.
#[derive(Debug, Clone, Copy, PartialEq, Eq, Structural)]
pub struct Modifier {
    pub bits: u16,
}

impl Modifier {
    /// The single modifier `bold`.
    pub fn bold() -> (m: Modifier)
        ensures
            m.bits == 1,
    {
        Modifier { bits: 1 }
    }

    /// The single modifier `dim`.
    pub fn dim() -> (m: Modifier)
        ensures
            m.bits == 2,
    {
        Modifier { bits: 2 }
    }

    /// The single modifier `italic`.
    pub fn italic() -> (m: Modifier)
        ensures
            m.bits == 4,
    {
        Modifier { bits: 4 }
    }

    /// The single modifier `underlined`.
    pub fn underlined() -> (m: Modifier)
        ensures
            m.bits == 8,
    {
        Modifier { bits: 8 }
    }

    /// The single modifier `slow_blink`.
    pub fn slow_blink() -> (m: Modifier)
        ensures
            m.bits == 16,
    {
        Modifier { bits: 16 }
    }

    /// The single modifier `rapid_blink`.
    pub fn rapid_blink() -> (m: Modifier)
        ensures
            m.bits == 32,
    {
        Modifier { bits: 32 }
    }

    /// The single modifier `reversed`.
    pub fn reversed() -> (m: Modifier)
        ensures
            m.bits == 64,
    {
        Modifier { bits: 64 }
    }

    /// The single modifier `hidden`.
    pub fn hidden() -> (m: Modifier)
        ensures
            m.bits == 128,
    {
        Modifier { bits: 128 }
    }

    /// The single modifier `crossed_out`.
    pub fn crossed_out() -> (m: Modifier)
        ensures
            m.bits == 256,
    {
        Modifier { bits: 256 }
    }


    /// The empty set.
    pub fn empty() -> (m: Modifier)
        ensures
            m.bits == 0,
    {
        Modifier { bits: 0 }
    }

    /// Every modifier in `self` or in `other`.
    pub fn union(self, other: Modifier) -> (m: Modifier)
        ensures
            m.bits == self.bits | other.bits,
    {
        Modifier { bits: self.bits | other.bits }
    }

    /// Every modifier in `self` but not in `other`.
    pub fn difference(self, other: Modifier) -> (m: Modifier)
        ensures
            m.bits == self.bits & !other.bits,
    {
        Modifier { bits: self.bits & !other.bits }
    }
}

/// Foreground, background, underline colour and modifiers of a cell.
///
/// `add_modifier` holds the modifiers this style turns on, `sub_modifier`
/// those it turns off; a `None` colour leaves the colour underneath.
#[derive(Debug, Clone, Copy, PartialEq, Eq, Structural)]
pub struct Style {
    pub fg: Option<Color>,
    pub bg: Option<Color>,
    pub underline_color: Option<Color>,
    pub add_modifier: Modifier,
    pub sub_modifier: Modifier,
}

/// The style that sets nothing.
pub open spec fn empty_style() -> Style {
    Style {
        fg: None,
        bg: None,
        underline_color: None,
        add_modifier: Modifier { bits: 0 },
        sub_modifier: Modifier { bits: 0 },
    }
}

/// `Some` value of `a`, else `b`.
pub open spec fn or_else<T>(a: Option<T>, b: Option<T>) -> Option<T> {
    match a {
        Some(x) => Some(x),
        None => b,
    }
}

/// The style `base` with `other` applied on top of it.
pub open spec fn patched(base: Style, other: Style) -> Style {
    Style {
        fg: or_else(other.fg, base.fg),
        bg: or_else(other.bg, base.bg),
        underline_color: or_else(other.underline_color, base.underline_color),
        add_modifier: Modifier {
            bits: (base.add_modifier.bits & !other.sub_modifier.bits) | other.add_modifier.bits,
        },
        sub_modifier: Modifier {
            bits: (base.sub_modifier.bits & !other.add_modifier.bits) | other.sub_modifier.bits,
        },
    }
}

impl Style {
    /// The style that sets nothing.
    pub fn new() -> (s: Style)
        ensures
            s == empty_style(),
    {
        Style {
            fg: None,
            bg: None,
            underline_color: None,
            add_modifier: Modifier { bits: 0 },
            sub_modifier: Modifier { bits: 0 },
        }
    }

    /// This style with the foreground colour set.
    pub fn fg(self, color: Color) -> (s: Style)
        ensures
            s == (Style { fg: Some(color), ..self }),
    {
        Style { fg: Some(color), ..self }
    }

    /// This style with the background colour set.
    pub fn bg(self, color: Color) -> (s: Style)
        ensures
            s == (Style { bg: Some(color), ..self }),
    {
        Style { bg: Some(color), ..self }
    }

    /// This style with `modifier` turned on.
    pub fn add_modifier(self, modifier: Modifier) -> (s: Style)
        ensures
            s == (Style {
                add_modifier: Modifier { bits: self.add_modifier.bits | modifier.bits },
                sub_modifier: Modifier { bits: self.sub_modifier.bits & !modifier.bits },
                ..self
            }),
    {
        Style {
            add_modifier: self.add_modifier.union(modifier),
            sub_modifier: self.sub_modifier.difference(modifier),
            ..self
        }
    }

    /// This style with `modifier` turned off.
    pub fn remove_modifier(self, modifier: Modifier) -> (s: Style)
        ensures
            s == (Style {
                add_modifier: Modifier { bits: self.add_modifier.bits & !modifier.bits },
                sub_modifier: Modifier { bits: self.sub_modifier.bits | modifier.bits },
                ..self
            }),
    {
        Style {
            add_modifier: self.add_modifier.difference(modifier),
            sub_modifier: self.sub_modifier.union(modifier),
            ..self
        }
    }

    /// `other` applied on top of this style: its colours win where it sets
    /// them, and its modifiers are turned on or off.
    pub fn patch(self, other: Style) -> (s: Style)
        ensures
            s == patched(self, other),
    {
        let fg = match other.fg {
            Some(c) => Some(c),
            None => self.fg,
        };
        let bg = match other.bg {
            Some(c) => Some(c),
            None => self.bg,
        };
        let underline_color = match other.underline_color {
            Some(c) => Some(c),
            None => self.underline_color,
        };
        Style {
            fg,
            bg,
            underline_color,
            add_modifier: Modifier {
                bits: (self.add_modifier.bits & !other.sub_modifier.bits) | other.add_modifier.bits,
            },
            sub_modifier: Modifier {
                bits: (self.sub_modifier.bits & !other.add_modifier.bits) | other.sub_modifier.bits,
            },
        }
    }
}

impl Default for Style {
    fn default() -> (s: Style)
        ensures
            s == empty_style(),
    {
        Style::new()
    }
}

/// Horizontal text alignment.
#[derive(Debug, Clone, Copy, PartialEq, Eq, Structural)]
pub enum Alignment {
    Left,
    Center,
    Right,
}

/// A rectangle of terminal cells.
#[derive(Debug, Clone, Copy, PartialEq, Eq, Structural)]
pub struct Rect {
    pub x: u16,
    pub y: u16,
    pub width: u16,
    pub height: u16,
}

/// Space kept free inside a rectangle: columns on the left and right, rows
/// above and below.
#[derive(Debug, Clone, Copy, PartialEq, Eq, Structural)]
pub struct Margin {
    pub horizontal: u16,
    pub vertical: u16,
}

/// `a + b`, or `u16::MAX` where the sum does not fit.
pub open spec fn sat_add_u16(a: u16, b: u16) -> u16 {
    if a + b > u16::MAX { u16::MAX } else { (a + b) as u16 }
}

/// `a - b`, or `0` where `b > a`.
pub open spec fn sat_sub(a: int, b: int) -> int {
    if a > b { a - b } else { 0 }
}

impl Rect {
    pub open spec fn spec_right(self) -> u16 {
        sat_add_u16(self.x, self.width)
    }

    pub open spec fn spec_bottom(self) -> u16 {
        sat_add_u16(self.y, self.height)
    }

    /// The first column.
    pub fn left(self) -> (r: u16)
        ensures
            r == self.x,
    {
        self.x
    }

    /// The first column right of the rectangle.
    pub fn right(self) -> (r: u16)
        ensures
            r == self.spec_right(),
    {
        self.x.saturating_add(self.width)
    }

    /// The first row.
    pub fn top(self) -> (r: u16)
        ensures
            r == self.y,
    {
        self.y
    }

    /// The first row below the rectangle.
    pub fn bottom(self) -> (r: u16)
        ensures
            r == self.spec_bottom(),
    {
        self.y.saturating_add(self.height)
    }

    /// The rectangle shrunk by `margin` on each side, or the empty one at
    /// the origin where the margins do not fit.
    pub open spec fn spec_inner(self, margin: Margin) -> Rect {
        let dh: int = if 2 * margin.horizontal > u16::MAX { u16::MAX as int } else { 2 * margin.horizontal };
        let dv: int = if 2 * margin.vertical > u16::MAX { u16::MAX as int } else { 2 * margin.vertical };
        if self.width < dh || self.height < dv {
            Rect { x: 0, y: 0, width: 0, height: 0 }
        } else {
            Rect {
                x: sat_add_u16(self.x, margin.horizontal),
                y: sat_add_u16(self.y, margin.vertical),
                width: (self.width - dh) as u16,
                height: (self.height - dv) as u16,
            }
        }
    }

    /// The rectangle shrunk by `margin` (see [`Rect::spec_inner`]).
    pub fn inner(self, margin: Margin) -> (r: Rect)
        ensures
            r == self.spec_inner(margin),
    {
        let dh: u16 = if margin.horizontal > 32767 {
            u16::MAX
        } else {
            2 * margin.horizontal
        };
        let dv: u16 = if margin.vertical > 32767 {
            u16::MAX
        } else {
            2 * margin.vertical
        };
        if self.width < dh || self.height < dv {
            Rect { x: 0, y: 0, width: 0, height: 0 }
        } else {
            Rect {
                x: self.x.saturating_add(margin.horizontal),
                y: self.y.saturating_add(margin.vertical),
                width: self.width - dh,
                height: self.height - dv,
            }
        }
    }

    /// Whether the cell at (`column`, `row`) lies inside the rectangle.
    pub open spec fn spec_contains(self, column: u16, row: u16) -> bool {
        &&& self.x <= column < self.spec_right()
        &&& self.y <= row < self.spec_bottom()
    }

    /// Whether the cell at (`column`, `row`) lies inside the rectangle.
    pub fn contains(self, column: u16, row: u16) -> (b: bool)
        ensures
            b == self.spec_contains(column, row),
    {
        column >= self.left() && column < self.right() && row >= self.top() && row < self.bottom()
    }
}

/// A key on the keyboard.
#[derive(Debug, Clone, Copy, PartialEq, Eq, Structural)]
pub enum KeyCode {
    Backspace,
    Enter,
    Left,
    Right,
    Up,
    Down,
    Home,
    End,
    PageUp,
    PageDown,
    Tab,
    BackTab,
    Delete,
    Insert,
    F(u8),
    Char(char),
    Null,
    Esc,
    Other,
}

/// A mouse button.
#[derive(Debug, Clone, Copy, PartialEq, Eq, Structural)]
pub enum MouseButton {
    Left,
    Right,
    Middle,
}

/// What a mouse event reports.
#[derive(Debug, Clone, Copy, PartialEq, Eq, Structural)]
pub enum MouseEventKind {
    Down(MouseButton),
    Up(MouseButton),
    Drag(MouseButton),
    Moved,
    ScrollDown,
    ScrollUp,
    ScrollLeft,
    ScrollRight,
}

/// A mouse event at a terminal cell.
#[derive(Debug, Clone, Copy, PartialEq, Eq, Structural)]
pub struct MouseEvent {
    pub kind: MouseEventKind,
    pub column: u16,
    pub row: u16,
}

/// An input event from the terminal: a key press, a mouse event, a new
/// size, or anything else (focus changes, pastes).
#[derive(Debug, Clone, Copy, PartialEq, Eq, Structural)]
pub enum Event {
    Key(KeyCode),
    Mouse(MouseEvent),
    Resize(u16, u16),
    Other,
}

} // verus!

verus! {

/// A piece of text with one style.
#[derive(Debug)]
pub struct Span {
    pub content: String,
    pub style: Style,
}

/// A line of text made of styled spans.
#[derive(Debug)]
pub struct Line {
    pub spans: Vec<Span>,
}

impl Span {
    /// A span of `content` in `style`.
    pub fn styled(content: String, style: Style) -> (s: Span)
        ensures
            s.content@ == content@,
            s.style == style,
    {
        Span { content, style }
    }
}

impl Line {
    /// A line made of the given spans.
    pub fn from_spans(spans: Vec<Span>) -> (l: Line)
        ensures
            l.spans@ == spans@,
    {
        Line { spans }
    }
}

} // verus!

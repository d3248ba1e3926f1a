//! Block settings with a fluent builder: border kind and sides, border
//! style, titles and padding. Drawing them is the caller's part.

use vstd::prelude::*;
use crate::components::style::BobaStyle;
use crate::tui::{Alignment, Style};

verus! {

/// The line drawing of a border.
#[derive(Debug, Clone, Copy, PartialEq, Eq, Structural)]
pub enum BorderKind {
    Plain,
    Rounded,
    Double,
    Thick,
}

/// Which sides have a border: top, right, bottom and left bits.
#[derive(Debug, Clone, Copy, PartialEq, Eq, Structural)]
pub struct Sides {
    pub bits: u8,
}

/// Space kept inside a block's border.
#[derive(Debug, Clone, Copy, PartialEq, Eq, Structural)]
pub struct Padding {
    pub top: u16,
    pub right: u16,
    pub bottom: u16,
    pub left: u16,
}

/// A block: its border kind and sides, border style, titles, the titles'
/// alignment where set, and inner padding (top, right, bottom, left).
#[derive(Debug, Clone)]
pub struct BobaBlock {
    pub kind: BorderKind,
    pub sides: Sides,
    pub border_style: Style,
    pub titles: Vec<String>,
    pub title_alignment: Option<Alignment>,
    pub padding: Padding,
}

/// Whether `b` is `a` with another border kind and sides.
pub open spec fn reframed(a: BobaBlock, b: BobaBlock, kind: BorderKind, bits: u8) -> bool {
    &&& b.kind == kind
    &&& b.sides.bits == bits
    &&& b.border_style == a.border_style
    &&& b.titles == a.titles
    &&& b.title_alignment == a.title_alignment
    &&& b.padding == a.padding
}

impl BobaBlock {
    /// A block without borders, titles or padding.
    pub fn new() -> (b: BobaBlock)
        ensures
            b.kind == BorderKind::Plain,
            b.sides.bits == 0,
            b.border_style == crate::tui::empty_style(),
            b.titles@.len() == 0,
            b.title_alignment is None,
            b.padding == (Padding { top: 0, right: 0, bottom: 0, left: 0 }),
    {
        BobaBlock {
            kind: BorderKind::Plain,
            sides: Sides { bits: 0 },
            border_style: Style::new(),
            titles: Vec::new(),
            title_alignment: None,
            padding: Padding { top: 0, right: 0, bottom: 0, left: 0 },
        }
    }

    /// Rounded borders on every side.
    pub fn rounded(self) -> (b: BobaBlock)
        ensures
            reframed(self, b, BorderKind::Rounded, 15),
    {
        BobaBlock { kind: BorderKind::Rounded, sides: Sides { bits: 15 }, ..self }
    }

    /// Double-line borders on every side.
    pub fn double(self) -> (b: BobaBlock)
        ensures
            reframed(self, b, BorderKind::Double, 15),
    {
        BobaBlock { kind: BorderKind::Double, sides: Sides { bits: 15 }, ..self }
    }

    /// Thick borders on every side.
    pub fn thick(self) -> (b: BobaBlock)
        ensures
            reframed(self, b, BorderKind::Thick, 15),
    {
        BobaBlock { kind: BorderKind::Thick, sides: Sides { bits: 15 }, ..self }
    }

    /// Plain borders on every side.
    pub fn plain(self) -> (b: BobaBlock)
        ensures
            reframed(self, b, BorderKind::Plain, 15),
    {
        BobaBlock { kind: BorderKind::Plain, sides: Sides { bits: 15 }, ..self }
    }

    /// No borders.
    pub fn clear(self) -> (b: BobaBlock)
        ensures
            reframed(self, b, self.kind, 0),
    {
        BobaBlock { sides: Sides { bits: 0 }, ..self }
    }

    /// Borders on the top and bottom only.
    pub fn horizontal(self) -> (b: BobaBlock)
        ensures
            reframed(self, b, self.kind, 5),
    {
        BobaBlock { sides: Sides { bits: 5 }, ..self }
    }

    /// Borders on the left and right only.
    pub fn vertical(self) -> (b: BobaBlock)
        ensures
            reframed(self, b, self.kind, 10),
    {
        BobaBlock { sides: Sides { bits: 10 }, ..self }
    }

    /// This block with another border style.
    pub fn border_style(self, style: Style) -> (b: BobaBlock)
        ensures
            b.border_style == style,
            b.kind == self.kind,
            b.sides == self.sides,
            b.titles == self.titles,
            b.title_alignment == self.title_alignment,
            b.padding == self.padding,
    {
        BobaBlock { border_style: style, ..self }
    }

    /// Borders in the danger look (red, bold).
    pub fn danger(self) -> (b: BobaBlock)
        ensures
            b.border_style == crate::components::style::with_modifier(
                crate::components::style::with_fg(crate::components::style::plain_boba(), crate::tui::Color::Red),
                1,
            ).inner,
            b.kind == self.kind,
            b.sides == self.sides,
            b.titles == self.titles,
            b.title_alignment == self.title_alignment,
            b.padding == self.padding,
    {
        self.border_style(BobaStyle::new().danger().inner)
    }

    /// Borders in the success look (green).
    pub fn success(self) -> (b: BobaBlock)
        ensures
            b.border_style == crate::components::style::with_fg(
                crate::components::style::plain_boba(),
                crate::tui::Color::Green,
            ).inner,
            b.kind == self.kind,
            b.sides == self.sides,
            b.titles == self.titles,
            b.title_alignment == self.title_alignment,
            b.padding == self.padding,
    {
        self.border_style(BobaStyle::new().success().inner)
    }

    /// Borders in the warning look (yellow).
    pub fn warn(self) -> (b: BobaBlock)
        ensures
            b.border_style == crate::components::style::with_fg(
                crate::components::style::plain_boba(),
                crate::tui::Color::Yellow,
            ).inner,
            b.kind == self.kind,
            b.sides == self.sides,
            b.titles == self.titles,
            b.title_alignment == self.title_alignment,
            b.padding == self.padding,
    {
        self.border_style(BobaStyle::new().warn().inner)
    }

    /// Borders in the accent look (cyan).
    pub fn accent(self) -> (b: BobaBlock)
        ensures
            b.border_style == crate::components::style::with_fg(
                crate::components::style::plain_boba(),
                crate::tui::Color::Cyan,
            ).inner,
            b.kind == self.kind,
            b.sides == self.sides,
            b.titles == self.titles,
            b.title_alignment == self.title_alignment,
            b.padding == self.padding,
    {
        self.border_style(BobaStyle::new().accent().inner)
    }

    /// This block with one more title.
    pub fn title(self, title: &str) -> (b: BobaBlock)
        ensures
            b.titles@.len() == self.titles@.len() + 1,
            b.titles@.drop_last() == self.titles@,
            b.titles@.last()@ == title@,
            b.title_alignment == self.title_alignment,
            b.kind == self.kind,
            b.sides == self.sides,
            b.border_style == self.border_style,
            b.padding == self.padding,
    {
        let mut me = self;
        me.titles.push(title.to_owned());
        assert(me.titles@.drop_last() =~= self.titles@);
        me
    }

    /// This block with one more title and the titles aligned.
    pub fn title_aligned(self, title: &str, align: Alignment) -> (b: BobaBlock)
        ensures
            b.titles@.len() == self.titles@.len() + 1,
            b.titles@.drop_last() == self.titles@,
            b.titles@.last()@ == title@,
            b.title_alignment == Some(align),
            b.kind == self.kind,
            b.sides == self.sides,
            b.border_style == self.border_style,
            b.padding == self.padding,
    {
        let me = self.title(title);
        BobaBlock { title_alignment: Some(align), ..me }
    }

    /// This block with inner padding.
    pub fn padding(self, top: u16, right: u16, bottom: u16, left: u16) -> (b: BobaBlock)
        ensures
            b.padding == (Padding { top, right, bottom, left }),
            b.kind == self.kind,
            b.sides == self.sides,
            b.border_style == self.border_style,
            b.titles == self.titles,
            b.title_alignment == self.title_alignment,
    {
        BobaBlock { padding: Padding { top, right, bottom, left }, ..self }
    }

    /// This block with the same padding on every side.
    pub fn padding_all(self, v: u16) -> (b: BobaBlock)
        ensures
            b.padding == (Padding { top: v, right: v, bottom: v, left: v }),
            b.kind == self.kind,
            b.sides == self.sides,
            b.border_style == self.border_style,
            b.titles == self.titles,
            b.title_alignment == self.title_alignment,
    {
        self.padding(v, v, v, v)
    }
}

impl Default for BobaBlock {
    fn default() -> (b: BobaBlock)
        ensures
            b.kind == BorderKind::Plain,
            b.sides.bits == 0,
            b.border_style == crate::tui::empty_style(),
            b.titles@.len() == 0,
            b.title_alignment is None,
            b.padding == (Padding { top: 0, right: 0, bottom: 0, left: 0 }),
    {
        BobaBlock::new()
    }
}

} // verus!

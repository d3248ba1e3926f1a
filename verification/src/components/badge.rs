//! Small pill-shaped labels.

use vstd::prelude::*;
use crate::text::concat;
use crate::tui::Color;

verus! {

/// The look of a badge.
#[derive(Debug, Clone, Copy, PartialEq, Eq, Structural)]
pub enum BadgeStyle {
    Default,
    Primary,
    Success,
    Warn,
    Danger,
    Info,
}

impl BadgeStyle {
    /// The foreground and background colours of the look.
    pub fn colors(&self) -> (c: (Color, Color))
        ensures
            c == match *self {
                BadgeStyle::Default => (Color::White, Color::DarkGray),
                BadgeStyle::Primary => (Color::White, Color::Blue),
                BadgeStyle::Success => (Color::White, Color::Green),
                BadgeStyle::Warn => (Color::Black, Color::Yellow),
                BadgeStyle::Danger => (Color::White, Color::Red),
                BadgeStyle::Info => (Color::White, Color::Cyan),
            },
    {
        match self {
            BadgeStyle::Default => (Color::White, Color::DarkGray),
            BadgeStyle::Primary => (Color::White, Color::Blue),
            BadgeStyle::Success => (Color::White, Color::Green),
            BadgeStyle::Warn => (Color::Black, Color::Yellow),
            BadgeStyle::Danger => (Color::White, Color::Red),
            BadgeStyle::Info => (Color::White, Color::Cyan),
        }
    }
}

/// A badge: its text and look.
pub struct Badge {
    pub text: String,
    pub style: BadgeStyle,
}

impl Badge {
    /// A badge of `text` in the default look.
    pub fn new(text: &str) -> (b: Badge)
        ensures
            b.text@ == text@,
            b.style == BadgeStyle::Default,
    {
        Badge { text: text.to_owned(), style: BadgeStyle::Default }
    }

    /// This badge in another look.
    pub fn style(self, s: BadgeStyle) -> (b: Badge)
        ensures
            b.text == self.text,
            b.style == s,
    {
        Badge { style: s, ..self }
    }

    /// The text drawn: the badge's text between spaces.
    pub fn label(&self) -> (s: String)
        ensures
            s@ == seq![' '] + self.text@ + seq![' '],
    {
        proof {
            reveal_strlit(" ");
        }
        let a = concat(" ", self.text.as_str());
        concat(a.as_str(), " ")
    }
}

} // verus!

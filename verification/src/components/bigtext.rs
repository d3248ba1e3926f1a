//! Large decorative text drawn with a FIGlet font.

use vstd::prelude::*;
use crate::surface::{char_rows, lines_of, split_lines};
use crate::text::{chars_of, string_from_chars};
use crate::tui::Color;
use figlet_rs::FIGfont;

verus! {

#[verifier::external_type_specification]
#[verifier::external_body]
pub struct ExFIGfont(FIGfont);

/// The figure that `font` draws for `text`, written out line by line, or
/// `None` where it draws none: what `figlet_rs::FIGfont::convert` and the
/// figure's `Display` give, a function of the font's glyphs and the text.
pub uninterp spec fn figure_of(font: FIGfont, text: Seq<char>) -> Option<Seq<char>>;

/// The text of `text` drawn in `font`, or `None` where there is no figure.
///
/// Calls `figlet_rs::FIGfont::convert` and writes the figure out with its
/// `Display`. The result is the named [`figure_of`] the font and the text:
/// the crate's source looks each character's glyph up in the font and joins
/// the glyphs' rows, which depends on nothing else. The glyphs are not
/// visible here, so of the figure itself only this is stated: an empty text
/// has none (the source returns `None` for it first thing).
#[verifier::external_body]
fn figlet_figure(font: &FIGfont, text: &str) -> (r: Option<String>)
    ensures
        figure_of(*font, text@) == match r {
            Some(f) => Some(f@),
            None => None::<Seq<char>>,
        },
        text@.len() == 0 ==> r is None,
{
    font.convert(text).map(|f| f.to_string())
}

/// Large text: the text, the font and the colour.
pub struct BigText {
    pub text: String,
    pub font: FIGfont,
    pub color: Color,
}

/// The lines shown for a figure: its lines (see [`lines_of`]), or the text
/// itself where there is no figure.
pub open spec fn figure_lines_of(figure: Option<Seq<char>>, text: Seq<char>) -> Seq<Seq<char>> {
    match figure {
        Some(f) => lines_of(f),
        None => seq![text],
    }
}

/// The lines shown for a drawn figure, or for none (see
/// [`figure_lines_of`]).
pub fn figure_lines(figure: Option<String>, text: &str) -> (out: Vec<String>)
    ensures
        out@.map_values(|s: String| s@) == figure_lines_of(
            match figure {
                Some(f) => Some(f@),
                None => None,
            },
            text@,
        ),
{
    match figure {
        Some(f) => {
            let rows = split_lines(&chars_of(f.as_str()));
            let mut out: Vec<String> = Vec::new();
            let mut i: usize = 0;
            while i < rows.len()
                invariant
                    i <= rows@.len(),
                    out@.map_values(|s: String| s@) == char_rows(rows@).take(i as int),
                decreases rows@.len() - i,
            {
                let ghost prev = out@;
                let line = string_from_chars(rows[i].as_slice());
                out.push(line);
                proof {
                    crate::surface::lemma_map_push(prev, line, |s: String| s@);
                    assert(char_rows(rows@).take(i + 1) =~= char_rows(rows@).take(i as int).push(rows@[i as int]@));
                }
                i = i + 1;
            }
            assert(char_rows(rows@).take(rows@.len() as int) =~= char_rows(rows@));
            out
        },
        None => {
            let mut out: Vec<String> = Vec::new();
            out.push(text.to_owned());
            assert(out@.map_values(|s: String| s@) =~= seq![text@]);
            out
        },
    }
}

impl BigText {
    /// Large `text` in `font`, white.
    pub fn new(text: &str, font: FIGfont) -> (b: BigText)
        ensures
            b.text@ == text@,
            b.color == Color::White,
    {
        BigText { text: text.to_owned(), font, color: Color::White }
    }

    /// This text in another font.
    pub fn font(self, ff: FIGfont) -> (b: BigText)
        ensures
            b.text == self.text,
            b.font == ff,
            b.color == self.color,
    {
        BigText { font: ff, ..self }
    }

    /// This text in another colour.
    pub fn color(self, c: Color) -> (b: BigText)
        ensures
            b.text == self.text,
            b.color == c,
    {
        BigText { color: c, ..self }
    }

    /// The lines drawn: the lines of the figure the font draws for the text
    /// (see [`figure_of`]), else the text itself (see [`figure_lines`]); an
    /// empty text is shown as one empty line.
    pub fn lines(&self) -> (out: Vec<String>)
        ensures
            out@.map_values(|s: String| s@) == figure_lines_of(figure_of(self.font, self.text@), self.text@),
            self.text@.len() == 0 ==> out@.map_values(|s: String| s@) == seq![self.text@],
    {
        let figure = figlet_figure(&self.font, self.text.as_str());
        let ghost fv = match &figure {
            Some(f) => Some(f@),
            None => None::<Seq<char>>,
        };
        let out = figure_lines(figure, self.text.as_str());
        assert(out@.map_values(|s: String| s@) == figure_lines_of(fv, self.text@));
        out
    }
}

} // verus!

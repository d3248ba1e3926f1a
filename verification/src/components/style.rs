//! Fluent style builder with layout properties (padding, margin, border,
//! fixed size, alignment) and the rendering of text through it.

use vstd::prelude::*;
use vstd::string::StringSliceAdditionalSpecFns;
use crate::components::border::Border;
use crate::surface::{
    lines_of, split_lines, lemma_map_push, Cell, CellView, Surface, Position, grid_columns, nat_sub, filled_grid,
    row_view, paint, text_row, text_cells, clip_row, clip,
};
use crate::components::border::framed;
use crate::text::{display_width, str_width, chars_of, string_from_chars};
use crate::tui::{Alignment, Color, Modifier, Style};

verus! {

/// Whether `c` is white space (the Unicode `White_Space` property).
pub open spec fn is_white_space(c: char) -> bool {
    ||| '\u{9}' <= c <= '\u{d}'
    ||| c == ' '
    ||| c == '\u{85}'
    ||| c == '\u{a0}'
    ||| c == '\u{1680}'
    ||| '\u{2000}' <= c <= '\u{200a}'
    ||| c == '\u{2028}'
    ||| c == '\u{2029}'
    ||| c == '\u{202f}'
    ||| c == '\u{205f}'
    ||| c == '\u{3000}'
}

/// Whether `c` is white space (the Unicode `White_Space` property).
pub fn is_white_space_char(c: char) -> (b: bool)
    ensures
        b == is_white_space(c),
{
    ('\u{9}' <= c && c <= '\u{d}') || c == ' ' || c == '\u{85}' || c == '\u{a0}' || c == '\u{1680}' || ('\u{2000}'
        <= c && c <= '\u{200a}') || c == '\u{2028}' || c == '\u{2029}' || c == '\u{202f}' || c == '\u{205f}' || c
        == '\u{3000}'
}

/// The words of `s`: its maximal runs of non-white-space characters.
pub open spec fn words_of(s: Seq<char>) -> Seq<Seq<char>> {
    words_from(s, 0, 0)
}

/// The words of `s` from position `start` on, scanning from position `i`.
pub open spec fn words_from(s: Seq<char>, start: int, i: int) -> Seq<Seq<char>>
    decreases s.len() - i,
{
    if i >= s.len() {
        if start < s.len() { seq![s.subrange(start, s.len() as int)] } else { seq![] }
    } else if is_white_space(s[i]) {
        (if start < i { seq![s.subrange(start, i)] } else { seq![] }) + words_from(s, i + 1, i + 1)
    } else {
        words_from(s, start, i + 1)
    }
}

/// Splits text into its words (see [`words_of`]).
pub fn split_words(s: &Vec<char>) -> (out: Vec<Vec<char>>)
    ensures
        out@.map_values(|w: Vec<char>| w@) == words_of(s@),
{
    let mut out: Vec<Vec<char>> = Vec::new();
    let mut start: usize = 0;
    let mut i: usize = 0;
    while i < s.len()
        invariant
            start <= i <= s@.len(),
            words_of(s@) == out@.map_values(|w: Vec<char>| w@) + words_from(s@, start as int, i as int),
        decreases s@.len() - i,
    {
        if is_white_space_char(s[i]) {
            let ghost prev = out@;
            if start < i {
                let mut w: Vec<char> = Vec::new();
                let mut j = start;
                while j < i
                    invariant
                        start <= j <= i,
                        i < s@.len(),
                        w@ =~= s@.subrange(start as int, j as int),
                    decreases i - j,
                {
                    w.push(s[j]);
                    j = j + 1;
                }
                out.push(w);
                proof {
                    lemma_map_push(prev, w, |w: Vec<char>| w@);
                }
            }
            assert(out@.map_values(|w: Vec<char>| w@) + words_from(s@, i + 1, i + 1) =~= prev.map_values(
                |w: Vec<char>| w@,
            ) + words_from(s@, start as int, i as int));
            start = i + 1;
        }
        i = i + 1;
    }
    let ghost prev = out@;
    if start < s.len() {
        let mut w: Vec<char> = Vec::new();
        let mut j = start;
        while j < s.len()
            invariant
                start <= j <= s@.len(),
                w@ =~= s@.subrange(start as int, j as int),
            decreases s@.len() - j,
        {
            w.push(s[j]);
            j = j + 1;
        }
        out.push(w);
        proof {
            lemma_map_push(prev, w, |w: Vec<char>| w@);
        }
    }
    assert(out@.map_values(|w: Vec<char>| w@) =~= prev.map_values(|w: Vec<char>| w@) + words_from(
        s@,
        start as int,
        i as int,
    ));
    out
}

/// Display width of a sequence of characters.
pub fn chars_width(v: &Vec<char>) -> (w: usize)
    ensures
        w as nat == display_width(v@),
{
    let s = string_from_chars(v.as_slice());
    str_width(s.as_str())
}

/// Progress of greedy word wrapping: finished lines, the line being filled
/// and the columns counted for it.
pub struct WrapState {
    pub lines: Seq<Seq<char>>,
    pub cur: Seq<char>,
    pub curw: int,
}

/// One character of a word too wide for a line: it goes on the current line
/// where it fits, else starts a new one.
pub open spec fn wrap_char(st: WrapState, ch: char, max: int) -> WrapState {
    let cw = display_width(seq![ch]) as int;
    if st.curw + cw > max {
        WrapState {
            lines: if st.cur.len() > 0 { st.lines.push(st.cur) } else { st.lines },
            cur: seq![ch],
            curw: cw,
        }
    } else {
        WrapState { lines: st.lines, cur: st.cur.push(ch), curw: st.curw + cw }
    }
}

/// The characters of a word broken over lines one at a time.
pub open spec fn wrap_chars(st: WrapState, word: Seq<char>, max: int) -> WrapState
    decreases word.len(),
{
    if word.len() == 0 {
        st
    } else {
        wrap_chars(wrap_char(st, word[0], max), word.drop_first(), max)
    }
}

/// One word: on an empty line it is placed whole, or broken character by
/// character where it is wider than the line; otherwise it joins the line
/// after a space where that fits, else starts a new line.
pub open spec fn wrap_word(st: WrapState, word: Seq<char>, max: int) -> WrapState {
    let ww = display_width(word) as int;
    if st.cur.len() == 0 {
        if ww > max {
            wrap_chars(st, word, max)
        } else {
            WrapState { lines: st.lines, cur: word, curw: ww }
        }
    } else if st.curw + 1 + ww > max {
        WrapState { lines: st.lines.push(st.cur), cur: word, curw: ww }
    } else {
        WrapState { lines: st.lines, cur: st.cur + seq![' '] + word, curw: st.curw + 1 + ww }
    }
}

/// The words wrapped one after the other.
pub open spec fn wrap_words(st: WrapState, words: Seq<Seq<char>>, max: int) -> WrapState
    decreases words.len(),
{
    if words.len() == 0 {
        st
    } else {
        wrap_words(wrap_word(st, words[0], max), words.drop_first(), max)
    }
}

/// `lines` followed by the wrapped lines of one paragraph.
pub open spec fn wrap_paragraph(lines: Seq<Seq<char>>, para: Seq<char>, max: int) -> Seq<Seq<char>> {
    let st = wrap_words(WrapState { lines, cur: seq![], curw: 0 }, words_of(para), max);
    if st.cur.len() > 0 { st.lines.push(st.cur) } else { st.lines }
}

/// `lines` followed by the wrapped lines of each paragraph in turn.
pub open spec fn wrap_paragraphs(lines: Seq<Seq<char>>, paras: Seq<Seq<char>>, max: int) -> Seq<Seq<char>>
    decreases paras.len(),
{
    if paras.len() == 0 {
        lines
    } else {
        wrap_paragraphs(wrap_paragraph(lines, paras[0], max), paras.drop_first(), max)
    }
}

/// Greedy word wrap of `text` to `max` columns: its lines as they are where
/// `max` is 0, else each line's words packed onto lines at most `max`
/// columns wide (words wider than that broken by character), and one empty
/// line where that leaves none.
pub open spec fn wrapped(text: Seq<char>, max: nat) -> Seq<Seq<char>> {
    if max == 0 {
        lines_of(text)
    } else {
        let ls = wrap_paragraphs(seq![], lines_of(text), max as int);
        if ls.len() == 0 { seq![seq![]] } else { ls }
    }
}


/// The wrapping state held by the executable variables.
pub open spec fn wrap_state(lines: Seq<Vec<char>>, cur: Seq<char>, curw: usize) -> WrapState {
    WrapState { lines: lines.map_values(|l: Vec<char>| l@), cur, curw: curw as int }
}

fn wrap_chars_exec(lines: &mut Vec<Vec<char>>, cur: &mut Vec<char>, curw: &mut usize, word: &Vec<char>, max: usize)
    ensures
        wrap_state(final(lines)@, final(cur)@, *final(curw)) == wrap_chars(
            wrap_state(old(lines)@, old(cur)@, *old(curw)),
            word@,
            max as int,
        ),
{
    let ghost target = wrap_chars(wrap_state(lines@, cur@, *curw), word@, max as int);
    let mut i: usize = 0;
    assert(word@.skip(0) =~= word@);
    while i < word.len()
        invariant
            i <= word@.len(),
            target == wrap_chars(wrap_state(lines@, cur@, *curw), word@.skip(i as int), max as int),
        decreases word@.len() - i,
    {
        assert(word@.skip(i as int).drop_first() =~= word@.skip(i + 1));
        assert(word@.skip(i as int)[0] == word@[i as int]);
        let ch = word[i];
        let one = vec![ch];
        assert(one@ =~= seq![ch]);
        let cw = chars_width(&one);
        let fits = match curw.checked_add(cw) {
            Some(n) => n <= max,
            None => false,
        };
        if !fits {
            if cur.len() > 0 {
                let mut done: Vec<char> = Vec::new();
                std::mem::swap(&mut done, cur);
                let ghost prev = lines@;
                lines.push(done);
                proof {
                    lemma_map_push(prev, done, |l: Vec<char>| l@);
                }
            }
            *cur = one;
            *curw = cw;
        } else {
            cur.push(ch);
            *curw = *curw + cw;
        }
        i = i + 1;
    }
}

fn wrap_word_exec(lines: &mut Vec<Vec<char>>, cur: &mut Vec<char>, curw: &mut usize, word: &Vec<char>, max: usize)
    ensures
        wrap_state(final(lines)@, final(cur)@, *final(curw)) == wrap_word(
            wrap_state(old(lines)@, old(cur)@, *old(curw)),
            word@,
            max as int,
        ),
{
    let ww = chars_width(word);
    if cur.len() == 0 {
        if ww > max {
            wrap_chars_exec(lines, cur, curw, word, max);
        } else {
            *cur = word.clone();
            assert(cur@ =~= word@);
            *curw = ww;
        }
    } else {
        let fits = match curw.checked_add(1) {
            Some(a) => match a.checked_add(ww) {
                Some(b) => b <= max,
                None => false,
            },
            None => false,
        };
        if !fits {
            let mut done: Vec<char> = Vec::new();
            std::mem::swap(&mut done, cur);
            let ghost prev = lines@;
            lines.push(done);
            proof {
                lemma_map_push(prev, done, |l: Vec<char>| l@);
            }
            *cur = word.clone();
            assert(cur@ =~= word@);
            *curw = ww;
        } else {
            let ghost before = cur@;
            cur.push(' ');
            let mut j: usize = 0;
            while j < word.len()
                invariant
                    j <= word@.len(),
                    cur@ =~= before + seq![' '] + word@.take(j as int),
                decreases word@.len() - j,
            {
                cur.push(word[j]);
                j = j + 1;
            }
            assert(word@.take(word@.len() as int) =~= word@);
            *curw = *curw + 1 + ww;
        }
    }
}

/// The strings of a sequence of character vectors.
pub fn strings_of(v: &Vec<Vec<char>>) -> (out: Vec<String>)
    ensures
        out@.map_values(|s: String| s@) == v@.map_values(|l: Vec<char>| l@),
{
    let mut out: Vec<String> = Vec::new();
    let mut i: usize = 0;
    while i < v.len()
        invariant
            i <= v@.len(),
            out@.len() == i,
            out@.map_values(|s: String| s@) =~= v@.map_values(|l: Vec<char>| l@).take(i as int),
        decreases v@.len() - i,
    {
        let s = string_from_chars(v[i].as_slice());
        let ghost prev = out@;
        out.push(s);
        proof {
            lemma_map_push(prev, s, |s: String| s@);
        }
        i = i + 1;
    }
    out
}

/// Greedy word wrap of `text` to `max_width` columns (see [`wrapped`]).
pub fn wrap_text(text: &str, max_width: usize) -> (out: Vec<String>)
    ensures
        out@.map_values(|s: String| s@) == wrapped(text@, max_width as nat),
{
    let lines = wrap_lines(text, max_width);
    strings_of(&lines)
}

/// The lines of [`wrapped`] as character vectors.
fn wrap_lines(text: &str, max_width: usize) -> (out: Vec<Vec<char>>)
    ensures
        out@.map_values(|l: Vec<char>| l@) == wrapped(text@, max_width as nat),
{
    let chars = chars_of(text);
    let paras = split_lines(&chars);
    if max_width == 0 {
        return paras;
    }
    let ghost ps = lines_of(text@);
    let mut lines: Vec<Vec<char>> = Vec::new();
    let mut p: usize = 0;
    assert(ps.skip(0) =~= ps);
    assert(lines@.map_values(|l: Vec<char>| l@) =~= Seq::<Seq<char>>::empty());
    while p < paras.len()
        invariant
            p <= paras@.len(),
            paras@.map_values(|l: Vec<char>| l@) == ps,
            ps == lines_of(text@),
            wrap_paragraphs(seq![], ps, max_width as int) == wrap_paragraphs(
                lines@.map_values(|l: Vec<char>| l@),
                ps.skip(p as int),
                max_width as int,
            ),
        decreases paras@.len() - p,
    {
        assert(ps.skip(p as int).drop_first() =~= ps.skip(p + 1));
        assert(ps.skip(p as int)[0] == paras@[p as int]@);
        let words = split_words(&paras[p]);
        let ghost ws = words_of(paras@[p as int]@);
        let mut cur: Vec<char> = Vec::new();
        let mut curw: usize = 0;
        let ghost para_lines = lines@.map_values(|l: Vec<char>| l@);
        let mut k: usize = 0;
        assert(ws.skip(0) =~= ws);
        assert(wrap_state(lines@, cur@, curw) =~= WrapState { lines: para_lines, cur: seq![], curw: 0 });
        while k < words.len()
            invariant
                k <= words@.len(),
                words@.map_values(|w: Vec<char>| w@) == ws,
                wrap_words(WrapState { lines: para_lines, cur: seq![], curw: 0 }, ws, max_width as int)
                    == wrap_words(wrap_state(lines@, cur@, curw), ws.skip(k as int), max_width as int),
            decreases words@.len() - k,
        {
            assert(ws.skip(k as int).drop_first() =~= ws.skip(k + 1));
            assert(ws.skip(k as int)[0] == words@[k as int]@);
            wrap_word_exec(&mut lines, &mut cur, &mut curw, &words[k], max_width);
            k = k + 1;
        }
        if cur.len() > 0 {
            let ghost prev = lines@;
            lines.push(cur);
            proof {
                lemma_map_push(prev, cur, |l: Vec<char>| l@);
            }
        }
        p = p + 1;
    }
    if lines.len() == 0 {
        let ghost prev = lines@;
        let e: Vec<char> = Vec::new();
        lines.push(e);
        proof {
            lemma_map_push(prev, e, |l: Vec<char>| l@);
            assert(lines@.map_values(|l: Vec<char>| l@) =~= seq![seq![]]);
        }
    }
    lines
}


/// A style with layout properties: colours and modifiers (`inner`), an
/// optional border and its colour, padding, margin, a fixed width and
/// height, and alignment of the content.
#[derive(Debug, Clone, Copy, PartialEq, Eq, Structural)]
pub struct BobaStyle {
    pub inner: Style,
    pub border: Option<Border>,
    pub border_fg: Option<Color>,
    pub padding_top: u16,
    pub padding_right: u16,
    pub padding_bottom: u16,
    pub padding_left: u16,
    pub margin_top: u16,
    pub margin_right: u16,
    pub margin_bottom: u16,
    pub margin_left: u16,
    pub width: Option<u16>,
    pub height: Option<u16>,
    pub align_h: Alignment,
    pub align_v: Position,
}

/// The style that sets nothing: no border, no padding or margin, no fixed
/// size, content at the top left.
pub open spec fn plain_boba() -> BobaStyle {
    BobaStyle {
        inner: crate::tui::empty_style(),
        border: None,
        border_fg: None,
        padding_top: 0,
        padding_right: 0,
        padding_bottom: 0,
        padding_left: 0,
        margin_top: 0,
        margin_right: 0,
        margin_bottom: 0,
        margin_left: 0,
        width: None,
        height: None,
        align_h: Alignment::Left,
        align_v: Position::Top,
    }
}

/// `st` with `modifier` turned on in its inner style.
pub open spec fn with_modifier(st: BobaStyle, modifier: u16) -> BobaStyle {
    BobaStyle {
        inner: Style {
            add_modifier: crate::tui::Modifier { bits: st.inner.add_modifier.bits | modifier },
            sub_modifier: crate::tui::Modifier { bits: st.inner.sub_modifier.bits & !modifier },
            ..st.inner
        },
        ..st
    }
}

/// `st` with its foreground colour set.
pub open spec fn with_fg(st: BobaStyle, color: Color) -> BobaStyle {
    BobaStyle { inner: Style { fg: Some(color), ..st.inner }, ..st }
}

/// `st` with the given padding.
pub open spec fn with_padding(st: BobaStyle, top: u16, right: u16, bottom: u16, left: u16) -> BobaStyle {
    BobaStyle { padding_top: top, padding_right: right, padding_bottom: bottom, padding_left: left, ..st }
}

/// `st` with the given margin.
pub open spec fn with_margin(st: BobaStyle, top: u16, right: u16, bottom: u16, left: u16) -> BobaStyle {
    BobaStyle { margin_top: top, margin_right: right, margin_bottom: bottom, margin_left: left, ..st }
}

impl BobaStyle {
    /// The style that sets nothing.
    pub fn new() -> (s: BobaStyle)
        ensures
            s == plain_boba(),
    {
        BobaStyle {
            inner: Style::new(),
            border: None,
            border_fg: None,
            padding_top: 0,
            padding_right: 0,
            padding_bottom: 0,
            padding_left: 0,
            margin_top: 0,
            margin_right: 0,
            margin_bottom: 0,
            margin_left: 0,
            width: None,
            height: None,
            align_h: Alignment::Left,
            align_v: Position::Top,
        }
    }

    /// This style with the foreground colour set.
    pub fn fg(self, color: Color) -> (s: BobaStyle)
        ensures
            s == with_fg(self, color),
    {
        BobaStyle { inner: self.inner.fg(color), ..self }
    }

    /// This style with the background colour set.
    pub fn bg(self, color: Color) -> (s: BobaStyle)
        ensures
            s == (BobaStyle { inner: Style { bg: Some(color), ..self.inner }, ..self }),
    {
        BobaStyle { inner: self.inner.bg(color), ..self }
    }

    /// This style in bold.
    pub fn bold(self) -> (s: BobaStyle)
        ensures
            s == with_modifier(self, 1),
    {
        BobaStyle { inner: self.inner.add_modifier(Modifier::bold()), ..self }
    }

    /// This style dimmed.
    pub fn dim(self) -> (s: BobaStyle)
        ensures
            s == with_modifier(self, 2),
    {
        BobaStyle { inner: self.inner.add_modifier(Modifier::dim()), ..self }
    }

    /// This style in italics.
    pub fn italic(self) -> (s: BobaStyle)
        ensures
            s == with_modifier(self, 4),
    {
        BobaStyle { inner: self.inner.add_modifier(Modifier::italic()), ..self }
    }

    /// This style underlined.
    pub fn underlined(self) -> (s: BobaStyle)
        ensures
            s == with_modifier(self, 8),
    {
        BobaStyle { inner: self.inner.add_modifier(Modifier::underlined()), ..self }
    }

    /// This style crossed out.
    pub fn crossed_out(self) -> (s: BobaStyle)
        ensures
            s == with_modifier(self, 256),
    {
        BobaStyle { inner: self.inner.add_modifier(Modifier::crossed_out()), ..self }
    }

    /// This style blinking slowly.
    pub fn blink(self) -> (s: BobaStyle)
        ensures
            s == with_modifier(self, 16),
    {
        BobaStyle { inner: self.inner.add_modifier(Modifier::slow_blink()), ..self }
    }

    /// This style in reverse video.
    pub fn reversed(self) -> (s: BobaStyle)
        ensures
            s == with_modifier(self, 64),
    {
        BobaStyle { inner: self.inner.add_modifier(Modifier::reversed()), ..self }
    }

    /// This style with `m` turned off.
    pub fn remove_modifier(self, m: Modifier) -> (s: BobaStyle)
        ensures
            s == (BobaStyle {
                inner: Style {
                    add_modifier: Modifier { bits: self.inner.add_modifier.bits & !m.bits },
                    sub_modifier: Modifier { bits: self.inner.sub_modifier.bits | m.bits },
                    ..self.inner
                },
                ..self
            }),
    {
        BobaStyle { inner: self.inner.remove_modifier(m), ..self }
    }

    /// This style with a rounded border.
    pub fn rounded(self) -> (s: BobaStyle)
        ensures
            s == (BobaStyle {
                border: Some(crate::components::border::full_border('─', '─', '│', '│', '╭', '╮', '╰', '╯')),
                ..self
            }),
    {
        self.border(Border::rounded())
    }

    /// Cyan text.
    pub fn accent(self) -> (s: BobaStyle)
        ensures
            s == with_fg(self, Color::Cyan),
    {
        self.fg(Color::Cyan)
    }

    /// Dimmed dark grey text.
    pub fn muted(self) -> (s: BobaStyle)
        ensures
            s == with_modifier(with_fg(self, Color::DarkGray), 2),
    {
        self.fg(Color::DarkGray).dim()
    }

    /// Bold red text.
    pub fn danger(self) -> (s: BobaStyle)
        ensures
            s == with_modifier(with_fg(self, Color::Red), 1),
    {
        self.fg(Color::Red).bold()
    }

    /// Green text.
    pub fn success(self) -> (s: BobaStyle)
        ensures
            s == with_fg(self, Color::Green),
    {
        self.fg(Color::Green)
    }

    /// Yellow text.
    pub fn warn(self) -> (s: BobaStyle)
        ensures
            s == with_fg(self, Color::Yellow),
    {
        self.fg(Color::Yellow)
    }

    /// Cyan text.
    pub fn info(self) -> (s: BobaStyle)
        ensures
            s == with_fg(self, Color::Cyan),
    {
        self.fg(Color::Cyan)
    }

    /// This style with `border` drawn around the content.
    pub fn border(self, border: Border) -> (s: BobaStyle)
        ensures
            s == (BobaStyle { border: Some(border), ..self }),
    {
        BobaStyle { border: Some(border), ..self }
    }

    /// This style with the border drawn in `color`.
    pub fn border_fg(self, color: Color) -> (s: BobaStyle)
        ensures
            s == (BobaStyle { border_fg: Some(color), ..self }),
    {
        BobaStyle { border_fg: Some(color), ..self }
    }

    /// This style with the given padding on each side.
    pub fn padding(self, top: u16, right: u16, bottom: u16, left: u16) -> (s: BobaStyle)
        ensures
            s == with_padding(self, top, right, bottom, left),
    {
        BobaStyle { padding_top: top, padding_right: right, padding_bottom: bottom, padding_left: left, ..self }
    }

    /// The same padding on every side.
    pub fn padding_all(self, v: u16) -> (s: BobaStyle)
        ensures
            s == with_padding(self, v, v, v, v),
    {
        self.padding(v, v, v, v)
    }

    /// Another top padding.
    pub fn padding_top(self, v: u16) -> (s: BobaStyle)
        ensures
            s == with_padding(self, v, self.padding_right, self.padding_bottom, self.padding_left),
    {
        self.padding(v, self.padding_right, self.padding_bottom, self.padding_left)
    }

    /// Another right padding.
    pub fn padding_right(self, v: u16) -> (s: BobaStyle)
        ensures
            s == with_padding(self, self.padding_top, v, self.padding_bottom, self.padding_left),
    {
        self.padding(self.padding_top, v, self.padding_bottom, self.padding_left)
    }

    /// Another bottom padding.
    pub fn padding_bottom(self, v: u16) -> (s: BobaStyle)
        ensures
            s == with_padding(self, self.padding_top, self.padding_right, v, self.padding_left),
    {
        self.padding(self.padding_top, self.padding_right, v, self.padding_left)
    }

    /// Another left padding.
    pub fn padding_left(self, v: u16) -> (s: BobaStyle)
        ensures
            s == with_padding(self, self.padding_top, self.padding_right, self.padding_bottom, v),
    {
        self.padding(self.padding_top, self.padding_right, self.padding_bottom, v)
    }

    /// Another left and right padding.
    pub fn padding_x(self, v: u16) -> (s: BobaStyle)
        ensures
            s == with_padding(self, self.padding_top, v, self.padding_bottom, v),
    {
        self.padding(self.padding_top, v, self.padding_bottom, v)
    }

    /// Another top and bottom padding.
    pub fn padding_y(self, v: u16) -> (s: BobaStyle)
        ensures
            s == with_padding(self, v, self.padding_right, v, self.padding_left),
    {
        self.padding(v, self.padding_right, v, self.padding_left)
    }

    /// This style with the given margin on each side.
    pub fn margin(self, top: u16, right: u16, bottom: u16, left: u16) -> (s: BobaStyle)
        ensures
            s == with_margin(self, top, right, bottom, left),
    {
        BobaStyle { margin_top: top, margin_right: right, margin_bottom: bottom, margin_left: left, ..self }
    }

    /// The same margin on every side.
    pub fn margin_all(self, v: u16) -> (s: BobaStyle)
        ensures
            s == with_margin(self, v, v, v, v),
    {
        self.margin(v, v, v, v)
    }

    /// Another top margin.
    pub fn margin_top(self, v: u16) -> (s: BobaStyle)
        ensures
            s == with_margin(self, v, self.margin_right, self.margin_bottom, self.margin_left),
    {
        self.margin(v, self.margin_right, self.margin_bottom, self.margin_left)
    }

    /// Another right margin.
    pub fn margin_right(self, v: u16) -> (s: BobaStyle)
        ensures
            s == with_margin(self, self.margin_top, v, self.margin_bottom, self.margin_left),
    {
        self.margin(self.margin_top, v, self.margin_bottom, self.margin_left)
    }

    /// Another bottom margin.
    pub fn margin_bottom(self, v: u16) -> (s: BobaStyle)
        ensures
            s == with_margin(self, self.margin_top, self.margin_right, v, self.margin_left),
    {
        self.margin(self.margin_top, self.margin_right, v, self.margin_left)
    }

    /// Another left margin.
    pub fn margin_left(self, v: u16) -> (s: BobaStyle)
        ensures
            s == with_margin(self, self.margin_top, self.margin_right, self.margin_bottom, v),
    {
        self.margin(self.margin_top, self.margin_right, self.margin_bottom, v)
    }

    /// Another left and right margin.
    pub fn margin_x(self, v: u16) -> (s: BobaStyle)
        ensures
            s == with_margin(self, self.margin_top, v, self.margin_bottom, v),
    {
        self.margin(self.margin_top, v, self.margin_bottom, v)
    }

    /// Another top and bottom margin.
    pub fn margin_y(self, v: u16) -> (s: BobaStyle)
        ensures
            s == with_margin(self, v, self.margin_right, v, self.margin_left),
    {
        self.margin(v, self.margin_right, v, self.margin_left)
    }

    /// This layout with the colours, modifiers and border colour of `other`.
    pub fn inherit(self, other: BobaStyle) -> (s: BobaStyle)
        ensures
            s == (BobaStyle { inner: other.inner, border_fg: other.border_fg, ..self }),
    {
        BobaStyle { inner: other.inner, border_fg: other.border_fg, ..self }
    }

    /// A fixed content width: text is wrapped to it, surfaces clipped to it.
    pub fn width(self, w: u16) -> (s: BobaStyle)
        ensures
            s == (BobaStyle { width: Some(w), ..self }),
    {
        BobaStyle { width: Some(w), ..self }
    }

    /// A fixed content height.
    pub fn height(self, h: u16) -> (s: BobaStyle)
        ensures
            s == (BobaStyle { height: Some(h), ..self }),
    {
        BobaStyle { height: Some(h), ..self }
    }

    /// Alignment of the content within the content box.
    pub fn align(self, h: Alignment, v: Position) -> (s: BobaStyle)
        ensures
            s == (BobaStyle { align_h: h, align_v: v, ..self }),
    {
        BobaStyle { align_h: h, align_v: v, ..self }
    }
}

impl Default for BobaStyle {
    fn default() -> (s: BobaStyle)
        ensures
            s == plain_boba(),
    {
        BobaStyle::new()
    }
}


/// A space in `style`.
pub open spec fn blank_cell(style: Style) -> CellView {
    CellView { symbol: seq![' '], style }
}

/// A `w` x `h` grid of `fill` with the cells of `g` copied onto it, cell
/// (`x`, `y`) of `g` to (`dx + x`, `dy + y`); cells that fall outside are
/// dropped.
pub open spec fn overlaid(w: nat, h: nat, fill: CellView, g: Seq<Seq<CellView>>, dx: nat, dy: nat) -> Seq<Seq<CellView>> {
    Seq::new(
        h,
        |y: int|
            Seq::new(
                w,
                |x: int|
                    if dy <= y < dy + g.len() && dx <= x < dx + g[y - dy].len() {
                        g[y - dy][x - dx]
                    } else {
                        fill
                    },
            ),
    )
}

/// Copies the cells of `g` onto a `w` x `h` grid of `fill` (see [`overlaid`]).
fn overlay(w: usize, h: usize, fill: &Cell, g: &Surface, dx: usize, dy: usize) -> (out: Surface)
    ensures
        out@ == overlaid(w as nat, h as nat, fill@, g@, dx as nat, dy as nat),
{
    let ghost target = overlaid(w as nat, h as nat, fill@, g@, dx as nat, dy as nat);
    let mut rows: Vec<Vec<Cell>> = Vec::new();
    let mut y: usize = 0;
    while y < h
        invariant
            y <= h,
            target == overlaid(w as nat, h as nat, fill@, g@, dx as nat, dy as nat),
            rows@.len() == y,
            (Surface { rows })@ =~= target.take(y as int),
        decreases h - y,
    {
        let mut row: Vec<Cell> = Vec::new();
        let inside_y = y >= dy && y - dy < g.rows.len();
        let mut x: usize = 0;
        while x < w
            invariant
                x <= w,
                y < h,
                inside_y == (dy <= y && y - dy < g@.len()),
                target == overlaid(w as nat, h as nat, fill@, g@, dx as nat, dy as nat),
                row@.len() == x,
                row_view(row) =~= target[y as int].take(x as int),
            decreases w - x,
        {
            let c = if inside_y && x >= dx && x - dx < g.rows[y - dy].len() {
                assert(row_view(g.rows@[y - dy]) == g@[y - dy]);
                g.rows[y - dy][x - dx].clone()
            } else {
                fill.clone()
            };
            let ghost prev = row@;
            row.push(c);
            proof {
                lemma_map_push(prev, c, |c: Cell| c@);
            }
            x = x + 1;
        }
        assert(target[y as int].take(w as int) =~= target[y as int]);
        let ghost prev = rows@;
        rows.push(row);
        proof {
            lemma_map_push(prev, row, |r: Vec<Cell>| row_view(r));
        }
        y = y + 1;
    }
    Surface { rows }
}

/// The grid with rows cut to the fixed width (in cells) and rows dropped
/// past the fixed height.
pub open spec fn clamped(st: BobaStyle, g: Seq<Seq<CellView>>) -> Seq<Seq<CellView>> {
    let g1 = match st.width {
        Some(w) => g.map_values(|r: Seq<CellView>| if r.len() > w { r.take(w as int) } else { r }),
        None => g,
    };
    match st.height {
        Some(h) => if g1.len() > h { g1.take(h as int) } else { g1 },
        None => g1,
    }
}

/// Columns the content is moved right by: flush right for `Right`, centred
/// (rounding left) for `Center`.
pub open spec fn shift_x(st: BobaStyle, w: nat, cw: nat) -> nat {
    match st.align_h {
        Alignment::Right => nat_sub(w, cw),
        Alignment::Center => nat_sub(w, cw) / 2,
        Alignment::Left => 0,
    }
}

/// Rows the content is moved down by: flush bottom for `Bottom`, centred
/// (rounding up) for `Center`, none for any other position.
pub open spec fn shift_y(st: BobaStyle, h: nat, ch: nat) -> nat {
    match st.align_v {
        Position::Bottom => nat_sub(h, ch),
        Position::Center => nat_sub(h, ch) / 2,
        _ => 0,
    }
}

pub open spec fn has_padding(st: BobaStyle) -> bool {
    st.padding_top > 0 || st.padding_bottom > 0 || st.padding_left > 0 || st.padding_right > 0
}

pub open spec fn has_margin(st: BobaStyle) -> bool {
    st.margin_top > 0 || st.margin_bottom > 0 || st.margin_left > 0 || st.margin_right > 0
}

/// Style of border lines: only a foreground, the border colour or else the
/// text colour; nothing where neither is set.
pub open spec fn border_style(st: BobaStyle) -> Style {
    match crate::tui::or_else(st.border_fg, st.inner.fg) {
        Some(c) => Style { fg: Some(c), ..crate::tui::empty_style() },
        None => crate::tui::empty_style(),
    }
}

/// Style of margin cells: the inner style without its background.
pub open spec fn margin_style(st: BobaStyle) -> Style {
    Style { bg: None, ..st.inner }
}

/// The content after clamping, alignment and padding; the box is the
/// content's own size (before clamping), grown by the padding.
pub open spec fn padded_stage(st: BobaStyle, g: Seq<Seq<CellView>>, cw: nat, ch: nat) -> Seq<Seq<CellView>> {
    let w = grid_columns(g);
    let h = g.len();
    let blank = blank_cell(st.inner);
    let g1 = clamped(st, g);
    let sx = shift_x(st, w, cw);
    let g2 = if sx > 0 { overlaid(w, h, blank, g1, sx, 0) } else { g1 };
    let sy = shift_y(st, h, ch);
    let g3 = if sy > 0 { overlaid(w, h, blank, g2, 0, sy) } else { g2 };
    if has_padding(st) {
        overlaid(
            (w + st.padding_left + st.padding_right) as nat,
            (h + st.padding_top + st.padding_bottom) as nat,
            blank,
            g3,
            st.padding_left as nat,
            st.padding_top as nat,
        )
    } else {
        g3
    }
}

/// The padded content with the border drawn around it.
pub open spec fn bordered_stage(st: BobaStyle, g: Seq<Seq<CellView>>, cw: nat, ch: nat) -> Seq<Seq<CellView>> {
    let p = padded_stage(st, g, cw, ch);
    match st.border {
        Some(b) => framed(b, p, border_style(st)),
        None => p,
    }
}

/// The content `g` (whose text is `cw` columns wide and `ch` rows high)
/// laid out by the style: clamped to the fixed size, aligned, padded,
/// framed by the border and surrounded by the margin.
pub open spec fn laid_out(st: BobaStyle, g: Seq<Seq<CellView>>, cw: nat, ch: nat) -> Seq<Seq<CellView>> {
    let q = bordered_stage(st, g, cw, ch);
    if has_margin(st) {
        overlaid(
            (grid_columns(q) + st.margin_left + st.margin_right) as nat,
            (q.len() + st.margin_top + st.margin_bottom) as nat,
            blank_cell(margin_style(st)),
            q,
            st.margin_left as nat,
            st.margin_top as nat,
        )
    } else {
        q
    }
}

/// Every size computed while laying out fits in `usize`, and the border has
/// room for its corners.
pub open spec fn layout_ok(st: BobaStyle, g: Seq<Seq<CellView>>, cw: nat, ch: nat) -> bool {
    &&& has_padding(st) ==> {
        &&& grid_columns(g) + st.padding_left + st.padding_right <= usize::MAX
        &&& g.len() + st.padding_top + st.padding_bottom <= usize::MAX
    }
    &&& st.border matches Some(b) ==> {
        let p = padded_stage(st, g, cw, ch);
        &&& grid_columns(p) + b.spec_vertical_size() <= usize::MAX
        &&& p.len() + b.spec_horizontal_size() <= usize::MAX
        &&& (b.has_top || b.has_bottom) ==> grid_columns(p) + b.spec_vertical_size() > 0
        &&& (b.has_left || b.has_right) ==> p.len() + b.spec_horizontal_size() > 0
    }
    &&& has_margin(st) ==> {
        let q = bordered_stage(st, g, cw, ch);
        &&& grid_columns(q) + st.margin_left + st.margin_right <= usize::MAX
        &&& q.len() + st.margin_top + st.margin_bottom <= usize::MAX
    }
}


/// Alignment moves the content within its box: with the box `w` columns
/// wide and the content's text `cw` columns wide, the content's cells go
/// right by nothing for `Left`, by half the free columns (rounding left) for
/// `Center` and by all of them for `Right`; with the box `h` rows high and
/// the text `ch` rows high, down by nothing for `Top`, by half the free rows
/// for `Center` and by all of them for `Bottom`. The padding then moves
/// everything right and down by its left and top widths.
pub proof fn lemma_alignment_moves_content(st: BobaStyle, g: Seq<Seq<CellView>>, cw: nat, ch: nat, j: int, x: int)
    requires
        cw <= grid_columns(g),
        ch <= g.len(),
        st.align_v == Position::Top || st.align_v == Position::Center || st.align_v == Position::Bottom,
        0 <= j < clamped(st, g).len(),
        0 <= x < clamped(st, g)[j].len(),
    ensures
        ({
            let w = grid_columns(g);
            let h = g.len();
            let dx: int = match st.align_h {
                Alignment::Left => 0,
                Alignment::Center => (w - cw) / 2,
                Alignment::Right => w - cw,
            };
            let dy: int = match st.align_v {
                Position::Center => (h - ch) / 2,
                Position::Bottom => h - ch,
                _ => 0,
            };
            dx + x < w && dy + j < h ==> padded_stage(st, g, cw, ch)[st.padding_top + dy + j][st.padding_left + dx
                + x] == clamped(st, g)[j][x]
        }),
{
    let w = grid_columns(g);
    let h = g.len();
    let blank = blank_cell(st.inner);
    let g1 = clamped(st, g);
    let sx = shift_x(st, w, cw);
    let sy = shift_y(st, h, ch);
    if sx + x < w && sy + j < h {
        lemma_grid_columns_ge_rows(g);
        assert(g1.len() <= h);
        assert(g1[j].len() <= w) by {
            match st.height {
                Some(hh) => {
                    assert(g1[j] == (match st.width {
                        Some(ww) => g.map_values(|r: Seq<CellView>| if r.len() > ww { r.take(ww as int) } else { r }),
                        None => g,
                    })[j]);
                },
                None => {},
            }
        }
        let g2 = if sx > 0 { overlaid(w, h, blank, g1, sx, 0) } else { g1 };
        assert(g2[j][sx + x] == g1[j][x]);
        let g3 = if sy > 0 { overlaid(w, h, blank, g2, 0, sy) } else { g2 };
        assert(g2.len() == h || sx == 0);
        assert(g3[sy + j][sx + x] == g1[j][x]);
    }
}

/// Laying out content keeps the margin free of background: every cell of
/// the margin rows above and the margin columns to the left is a space in
/// the style without its background.
pub proof fn lemma_margin_has_no_background(st: BobaStyle, g: Seq<Seq<CellView>>, cw: nat, ch: nat)
    ensures
        forall|j: int, i: int|
            0 <= j < laid_out(st, g, cw, ch).len() && 0 <= i < laid_out(st, g, cw, ch)[j].len() && (j < st.margin_top
                || i < st.margin_left) ==> #[trigger] laid_out(st, g, cw, ch)[j][i] == blank_cell(margin_style(st))
                && laid_out(st, g, cw, ch)[j][i].style.bg is None,
{
}

/// Without a border, laying out content with padding fills the padding rows
/// above the content with spaces in the style, its background included.
pub proof fn lemma_padding_has_background(st: BobaStyle, g: Seq<Seq<CellView>>, cw: nat, ch: nat)
    requires
        st.border is None,
    ensures
        forall|j: int, i: int|
            st.margin_top <= j < st.margin_top + st.padding_top && st.margin_left <= i < st.margin_left + grid_columns(g)
                + st.padding_left + st.padding_right ==> #[trigger] laid_out(st, g, cw, ch)[j][i] == blank_cell(st.inner)
                && laid_out(st, g, cw, ch)[j][i].style.bg == st.inner.bg,
{
    let q = bordered_stage(st, g, cw, ch);
    assert forall|j: int, i: int|
        st.margin_top <= j < st.margin_top + st.padding_top && st.margin_left <= i < st.margin_left + grid_columns(g)
            + st.padding_left + st.padding_right implies #[trigger] laid_out(st, g, cw, ch)[j][i] == blank_cell(
        st.inner,
    ) by {
        assert(has_padding(st));
        assert(q == padded_stage(st, g, cw, ch));
        assert(q.len() == g.len() + st.padding_top + st.padding_bottom);
        assert(q[j - st.margin_top].len() == grid_columns(g) + st.padding_left + st.padding_right);
        assert(q[j - st.margin_top][i - st.margin_left] == blank_cell(st.inner));
        if has_margin(st) {
            lemma_grid_columns_ge_rows(q);
        }
    }
}

/// Text rendered through a style keeps its margin free of background and,
/// without a border, paints its padding in the style's background (see
/// [`lemma_margin_has_no_background`] and [`lemma_padding_has_background`]).
pub proof fn lemma_rendered_margin_and_padding(st: BobaStyle, text: Seq<char>)
    ensures
        forall|j: int, i: int|
            0 <= j < rendered(st, text).len() && 0 <= i < rendered(st, text)[j].len() && (j < st.margin_top || i
                < st.margin_left) ==> #[trigger] rendered(st, text)[j][i].style.bg is None,
        st.border is None ==> forall|j: int, i: int|
            st.margin_top <= j < st.margin_top + st.padding_top && st.margin_left <= i < st.margin_left + grid_columns(
                text_content(st, text),
            ) + st.padding_left + st.padding_right ==> #[trigger] rendered(st, text)[j][i].style.bg == st.inner.bg,
{
    let ls = text_lines(st, text);
    lemma_margin_has_no_background(st, text_content(st, text), max_line_width(ls), ls.len());
    if st.border is None {
        lemma_padding_has_background(st, text_content(st, text), max_line_width(ls), ls.len());
    }
}

/// The columns of a grid are at least the length of each row.
pub proof fn lemma_grid_columns_ge_rows(g: Seq<Seq<CellView>>)
    ensures
        forall|i: int| 0 <= i < g.len() ==> (#[trigger] g[i]).len() <= grid_columns(g),
    decreases g.len(),
{
    if g.len() > 0 {
        lemma_grid_columns_ge_rows(g.drop_last());
        assert forall|i: int| 0 <= i < g.len() implies (#[trigger] g[i]).len() <= grid_columns(g) by {
            if i < g.len() - 1 {
                assert(g[i] == g.drop_last()[i]);
            }
        }
    }
}

/// Cuts every row longer than `w` cells to its first `w` cells.
fn truncate_rows(g: &mut Surface, w: usize)
    ensures
        final(g)@ == old(g)@.map_values(|r: Seq<CellView>| if r.len() > w { r.take(w as int) } else { r }),
{
    let ghost target = old(g)@.map_values(|r: Seq<CellView>| if r.len() > w { r.take(w as int) } else { r });
    let mut y: usize = 0;
    while y < g.rows.len()
        invariant
            y <= g.rows@.len(),
            g.rows@.len() == old(g).rows@.len(),
            target == old(g)@.map_values(|r: Seq<CellView>| if r.len() > w { r.take(w as int) } else { r }),
            forall|j: int| 0 <= j < y ==> #[trigger] g@[j] == target[j],
            forall|j: int| y <= j < g.rows@.len() ==> #[trigger] g@[j] == old(g)@[j],
        decreases g.rows@.len() - y,
    {
        let ghost before = g@;
        let ghost rows_before = g.rows@;
        assert(before[y as int] == old(g)@[y as int]);
        let mut row: Vec<Cell> = Vec::new();
        std::mem::swap(&mut row, &mut g.rows[y]);
        assert(row_view(row) == old(g)@[y as int]);
        row.truncate(w);
        assert(row_view(row) =~= target[y as int]);
        let ghost mid = g.rows@;
        g.rows.set(y, row);
        proof {
            crate::surface::lemma_map_update(mid, y as int, row, |r: Vec<Cell>| row_view(r));
        }
        assert forall|j: int| 0 <= j < g.rows@.len() && j != y implies #[trigger] g@[j] == before[j] by {
            assert(g.rows@[j] == rows_before[j]);
        }
        y = y + 1;
    }
    assert(g@ =~= target);
}

fn border_style_exec(st: &BobaStyle) -> (s: Style)
    ensures
        s == border_style(*st),
{
    let c = match st.border_fg {
        Some(c) => Some(c),
        None => st.inner.fg,
    };
    match c {
        Some(c) => Style::new().fg(c),
        None => Style::new(),
    }
}

impl BobaStyle {
    /// Lays out `surf` (see [`laid_out`]), or `None` where a size would not
    /// fit in `usize` or the border has no room (see [`layout_ok`]).
    fn layout_checked(&self, surf: Surface, content_w: usize, content_h: usize) -> (r: Option<Surface>)
        ensures
            match r {
                Some(out) => layout_ok(*self, surf@, content_w as nat, content_h as nat) && out@ == laid_out(
                    *self,
                    surf@,
                    content_w as nat,
                    content_h as nat,
                ),
                None => !layout_ok(*self, surf@, content_w as nat, content_h as nat),
            },
    {
        let ghost g0 = surf@;
        let blank = Cell::blank(self.inner);
        let width = surf.columns();
        let height = surf.height();
        let mut g = surf;
        match self.width {
            Some(w) => {
                truncate_rows(&mut g, w as usize);
            },
            None => {},
        }
        match self.height {
            Some(h) => {
                if height > h as usize {
                    g.rows.truncate(h as usize);
                }
            },
            None => {},
        }
        assert(g@ =~= clamped(*self, g0));
        let sx: usize = match self.align_h {
            Alignment::Right => width.saturating_sub(content_w),
            Alignment::Center => width.saturating_sub(content_w) / 2,
            Alignment::Left => 0,
        };
        if sx > 0 && content_w < width {
            g = overlay(width, height, &blank, &g, sx, 0);
        }
        let sy: usize = match self.align_v {
            Position::Bottom => height.saturating_sub(content_h),
            Position::Center => height.saturating_sub(content_h) / 2,
            _ => 0,
        };
        if sy > 0 && content_h < height {
            g = overlay(width, height, &blank, &g, 0, sy);
        }
        if self.padding_top > 0 || self.padding_bottom > 0 || self.padding_left > 0 || self.padding_right > 0 {
            let pw = match width.checked_add(self.padding_left as usize) {
                Some(a) => a.checked_add(self.padding_right as usize),
                None => None,
            };
            let ph = match height.checked_add(self.padding_top as usize) {
                Some(a) => a.checked_add(self.padding_bottom as usize),
                None => None,
            };
            match (pw, ph) {
                (Some(pw), Some(ph)) => {
                    g = overlay(pw, ph, &blank, &g, self.padding_left as usize, self.padding_top as usize);
                },
                _ => {
                    return None;
                },
            }
        }
        assert(g@ == padded_stage(*self, g0, content_w as nat, content_h as nat));
        match self.border {
            Some(b) => {
                let cols = g.columns();
                let rows = g.height();
                let ow = cols.checked_add(b.vertical_size());
                let oh = rows.checked_add(b.horizontal_size());
                match (ow, oh) {
                    (Some(ow), Some(oh)) => {
                        if (b.has_top || b.has_bottom) && ow == 0 {
                            return None;
                        }
                        if (b.has_left || b.has_right) && oh == 0 {
                            return None;
                        }
                        g = b.draw(&g, border_style_exec(self));
                    },
                    _ => {
                        return None;
                    },
                }
            },
            None => {},
        }
        assert(g@ == bordered_stage(*self, g0, content_w as nat, content_h as nat));
        if self.margin_top > 0 || self.margin_bottom > 0 || self.margin_left > 0 || self.margin_right > 0 {
            let cols = g.columns();
            let rows = g.height();
            let mw = match cols.checked_add(self.margin_left as usize) {
                Some(a) => a.checked_add(self.margin_right as usize),
                None => None,
            };
            let mh = match rows.checked_add(self.margin_top as usize) {
                Some(a) => a.checked_add(self.margin_bottom as usize),
                None => None,
            };
            match (mw, mh) {
                (Some(mw), Some(mh)) => {
                    let margin_blank = Cell::blank(Style { bg: None, ..self.inner });
                    g = overlay(mw, mh, &margin_blank, &g, self.margin_left as usize, self.margin_top as usize);
                },
                _ => {
                    return None;
                },
            }
        }
        Some(g)
    }
}


/// The widest display width among the lines (0 for none).
pub open spec fn max_line_width(ls: Seq<Seq<char>>) -> nat
    decreases ls.len(),
{
    if ls.len() == 0 {
        0
    } else {
        crate::surface::max_nat(max_line_width(ls.drop_last()), display_width(ls.last()))
    }
}

/// The lines a style renders text as: wrapped to the fixed width where one
/// is set, else the text's own lines.
pub open spec fn text_lines(st: BobaStyle, text: Seq<char>) -> Seq<Seq<char>> {
    match st.width {
        Some(w) => wrapped(text, w as nat),
        None => lines_of(text),
    }
}

/// The content box of rendered text: the lines painted from the top left,
/// one cell per character in the inner style, onto blanks as wide as the
/// fixed width (else the widest line) and as high as the fixed height
/// (else the number of lines).
pub open spec fn text_content(st: BobaStyle, text: Seq<char>) -> Seq<Seq<CellView>> {
    let ls = text_lines(st, text);
    let w = match st.width {
        Some(w) => w as nat,
        None => max_line_width(ls),
    };
    let h = match st.height {
        Some(h) => h as nat,
        None => ls.len(),
    };
    paint(
        filled_grid(w, h, blank_cell(st.inner)),
        ls.map_values(|l: Seq<char>| text_row(l, st.inner)),
        0,
        0,
    )
}

/// Text rendered through a style: its content box laid out (see [`laid_out`]).
pub open spec fn rendered(st: BobaStyle, text: Seq<char>) -> Seq<Seq<CellView>> {
    let ls = text_lines(st, text);
    laid_out(st, text_content(st, text), max_line_width(ls), ls.len())
}

/// Rendering text through the style keeps every size within `usize`.
pub open spec fn render_ok(st: BobaStyle, text: Seq<char>) -> bool {
    let ls = text_lines(st, text);
    layout_ok(st, text_content(st, text), max_line_width(ls), ls.len())
}

/// A copy of a surface clipped to `w` columns where a fixed width is set.
pub open spec fn surface_content(st: BobaStyle, g: Seq<Seq<CellView>>) -> Seq<Seq<CellView>> {
    let border_extra: nat = match st.border {
        Some(b) => b.spec_vertical_size() + b.spec_horizontal_size(),
        None => 0,
    };
    let target = match st.width {
        Some(w) => w as nat,
        None => grid_columns(g),
    };
    let tw = target + st.padding_left + st.padding_right + st.margin_left + st.margin_right + border_extra;
    let th = match st.height {
        Some(h) => h as nat,
        None => g.len(),
    } + st.padding_top + st.padding_bottom + st.margin_top + st.margin_bottom;
    let owned = overlaid(tw as nat, th as nat, blank_cell(st.inner), g, 0, 0);
    match st.width {
        Some(w) => owned.map_values(|r: Seq<CellView>| clip_row(r, w as nat)),
        None => owned,
    }
}

/// The content width used to align a surface rendered through a style.
pub open spec fn surface_content_width(st: BobaStyle, g: Seq<Seq<CellView>>) -> nat {
    match st.width {
        Some(_) => grid_columns(surface_content(st, g)),
        None => grid_columns(g),
    }
}

/// A surface wrapped in the style's layout: copied onto a box sized for the
/// content, padding, border and margin (clipped to the fixed width where one
/// is set) and laid out.
pub open spec fn rendered_surface(st: BobaStyle, g: Seq<Seq<CellView>>) -> Seq<Seq<CellView>> {
    laid_out(st, surface_content(st, g), surface_content_width(st, g), g.len())
}

/// Wrapping a surface in the style keeps every size within `usize`.
pub open spec fn render_surface_ok(st: BobaStyle, g: Seq<Seq<CellView>>) -> bool {
    let border_extra: nat = match st.border {
        Some(b) => b.spec_vertical_size() + b.spec_horizontal_size(),
        None => 0,
    };
    let target = match st.width {
        Some(w) => w as nat,
        None => grid_columns(g),
    };
    &&& target + st.padding_left + st.padding_right + st.margin_left + st.margin_right + border_extra
        <= usize::MAX
    &&& match st.height {
        Some(h) => h as nat,
        None => g.len(),
    } + st.padding_top + st.padding_bottom + st.margin_top + st.margin_bottom <= usize::MAX
    &&& layout_ok(st, surface_content(st, g), surface_content_width(st, g), g.len())
}

impl BobaStyle {
    fn render_checked(&self, text: &str) -> (r: Option<Surface>)
        ensures
            match r {
                Some(out) => render_ok(*self, text@) && out@ == rendered(*self, text@),
                None => !render_ok(*self, text@),
            },
    {
        let lines: Vec<Vec<char>> = match self.width {
            Some(w) => wrap_lines(text, w as usize),
            None => split_lines(&chars_of(text)),
        };
        let ghost ls = text_lines(*self, text@);
        assert(lines@.map_values(|l: Vec<char>| l@) == ls);
        let mut cw: usize = 0;
        let mut cells: Vec<Vec<Cell>> = Vec::new();
        let mut i: usize = 0;
        while i < lines.len()
            invariant
                i <= lines@.len(),
                lines@.map_values(|l: Vec<char>| l@) == ls,
                cw as nat == max_line_width(ls.take(i as int)),
                cells@.len() == i,
                (Surface { rows: cells })@ =~= ls.map_values(|l: Seq<char>| text_row(l, self.inner)).take(i as int),
            decreases lines@.len() - i,
        {
            assert(ls.take(i + 1).drop_last() =~= ls.take(i as int));
            assert(ls[i as int] == lines@[i as int]@);
            let lw = chars_width(&lines[i]);
            if lw > cw {
                cw = lw;
            }
            let row = text_cells(&lines[i], self.inner);
            let ghost prev = cells@;
            cells.push(row);
            proof {
                lemma_map_push(prev, row, |r: Vec<Cell>| row_view(r));
            }
            i = i + 1;
        }
        assert(ls.take(lines@.len() as int) =~= ls);
        let text_surf = Surface { rows: cells };
        let w: usize = match self.width {
            Some(w) => w as usize,
            None => cw,
        };
        let h: usize = match self.height {
            Some(h) => h as usize,
            None => lines.len(),
        };
        let blank = Cell::blank(self.inner);
        let mut surf = Surface::new(w, h, &blank);
        surf.paint_from(&text_surf, 0, 0);
        assert(cw as nat == max_line_width(ls));
        assert(text_surf@ == ls.map_values(|l: Seq<char>| text_row(l, self.inner)));
        assert(surf@ == text_content(*self, text@));
        self.layout_checked(surf, cw, lines.len())
    }

    /// Renders `text` through this style (see [`rendered`]): wrapped to the
    /// fixed width where one is set, then laid out.
    pub fn render(&self, text: &str) -> (out: Surface)
        requires
            render_ok(*self, text@),
        ensures
            out@ == rendered(*self, text@),
    {
        match self.render_checked(text) {
            Some(out) => out,
            None => Surface { rows: Vec::new() },
        }
    }

    /// Renders `text` as [`BobaStyle::render`] does, or `None` where a size
    /// would not fit in `usize`.
    pub fn try_render(&self, text: &str) -> (out: Option<Surface>)
        ensures
            match out {
                Some(s) => render_ok(*self, text@) && s@ == rendered(*self, text@),
                None => !render_ok(*self, text@),
            },
    {
        self.render_checked(text)
    }

    fn render_surface_checked(&self, surf: &Surface) -> (r: Option<Surface>)
        ensures
            match r {
                Some(out) => render_surface_ok(*self, surf@) && out@ == rendered_surface(*self, surf@),
                None => !render_surface_ok(*self, surf@),
            },
    {
        let content_w = surf.columns();
        let content_h = surf.height();
        let border_extra: usize = match self.border {
            Some(b) => b.vertical_size() + b.horizontal_size(),
            None => 0,
        };
        let extra: usize = self.padding_left as usize + self.padding_right as usize + self.margin_left as usize
            + self.margin_right as usize + border_extra;
        let content_target: usize = match self.width {
            Some(w) => w as usize,
            None => content_w,
        };
        let target_w = match content_target.checked_add(extra) {
            Some(t) => t,
            None => {
                return None;
            },
        };
        let base_h: usize = match self.height {
            Some(h) => h as usize,
            None => content_h,
        };
        let extra_h: usize = self.padding_top as usize + self.padding_bottom as usize + self.margin_top as usize
            + self.margin_bottom as usize;
        let target_h = match base_h.checked_add(extra_h) {
            Some(t) => t,
            None => {
                return None;
            },
        };
        let blank = Cell::blank(self.inner);
        let mut owned = overlay(target_w, target_h, &blank, surf, 0, 0);
        let cw = match self.width {
            Some(_) => {
                clip(&mut owned, content_target);
                owned.columns()
            },
            None => content_w,
        };
        assert(owned@ == surface_content(*self, surf@));
        self.layout_checked(owned, cw, content_h)
    }

    /// Wraps `surf` in this style's layout (see [`rendered_surface`]).
    pub fn render_surface(&self, surf: &Surface) -> (out: Surface)
        requires
            render_surface_ok(*self, surf@),
        ensures
            out@ == rendered_surface(*self, surf@),
    {
        match self.render_surface_checked(surf) {
            Some(out) => out,
            None => Surface { rows: Vec::new() },
        }
    }

    /// Wraps `surf` as [`BobaStyle::render_surface`] does, or `None` where a
    /// size would not fit in `usize`.
    pub fn try_render_surface(&self, surf: &Surface) -> (out: Option<Surface>)
        ensures
            match out {
                Some(s) => render_surface_ok(*self, surf@) && s@ == rendered_surface(*self, surf@),
                None => !render_surface_ok(*self, surf@),
            },
    {
        self.render_surface_checked(surf)
    }
}

impl core::ops::Deref for BobaStyle {
    type Target = Style;

    /// The colours and modifiers.
    fn deref(&self) -> (s: &Style)
        ensures
            *s == self.inner,
    {
        &self.inner
    }
}

impl From<Style> for BobaStyle {
    fn from(s: Style) -> (r: BobaStyle) {
        BobaStyle { inner: s, ..BobaStyle::new() }
    }
}

impl vstd::std_specs::convert::FromSpecImpl<Style> for BobaStyle {
    open spec fn obeys_from_spec() -> bool {
        true
    }

    open spec fn from_spec(s: Style) -> BobaStyle {
        BobaStyle { inner: s, ..plain_boba() }
    }
}

impl From<BobaStyle> for Style {
    fn from(s: BobaStyle) -> (r: Style) {
        s.inner
    }
}

impl vstd::std_specs::convert::FromSpecImpl<BobaStyle> for Style {
    open spec fn obeys_from_spec() -> bool {
        true
    }

    open spec fn from_spec(s: BobaStyle) -> Style {
        s.inner
    }
}

/// The value of an ASCII hexadecimal digit, either case.
pub open spec fn hex_digit(b: u8) -> Option<nat> {
    if 0x30 <= b <= 0x39 {
        Some((b - 0x30) as nat)
    } else if 0x61 <= b <= 0x66 {
        Some((b - 0x61 + 10) as nat)
    } else if 0x41 <= b <= 0x46 {
        Some((b - 0x41 + 10) as nat)
    } else {
        None
    }
}

/// A two-byte string read as a hexadecimal byte, with an optional leading
/// `+`, or 0 where it is not one.
pub open spec fn hex_byte(a: u8, b: u8) -> u8 {
    if a == 0x2b {
        match hex_digit(b) {
            Some(v) => v as u8,
            None => 0,
        }
    } else {
        match (hex_digit(a), hex_digit(b)) {
            (Some(x), Some(y)) => (16 * x + y) as u8,
            _ => 0,
        }
    }
}

/// Number of `#` bytes `bs` starts with.
pub open spec fn leading_hashes(bs: Seq<u8>) -> nat
    decreases bs.len(),
{
    if bs.len() > 0 && bs[0] == 0x23 { 1 + leading_hashes(bs.drop_first()) } else { 0 }
}

/// Whether a string may be cut before byte `i`: at its end or where no
/// UTF-8 continuation byte starts.
pub open spec fn cut_ok(bs: Seq<u8>, i: int) -> bool {
    i == bs.len() || !(0x80 <= bs[i] < 0xc0)
}

/// The colour a hex string names: leading `#`s dropped, three digits
/// (each doubled) or six digits giving red, green and blue, each part
/// that is not hexadecimal read as 0; black for any other length.
pub open spec fn spec_hex_color(bs: Seq<u8>) -> Color {
    let t = bs.skip(leading_hashes(bs) as int);
    if t.len() == 3 {
        Color::Rgb(hex_byte(t[0], t[0]), hex_byte(t[1], t[1]), hex_byte(t[2], t[2]))
    } else if t.len() == 6 {
        Color::Rgb(hex_byte(t[0], t[1]), hex_byte(t[2], t[3]), hex_byte(t[4], t[5]))
    } else {
        Color::Black
    }
}

/// The string can be cut where [`hex_color`] cuts it.
pub open spec fn hex_cuts_ok(bs: Seq<u8>) -> bool {
    let t = bs.skip(leading_hashes(bs) as int);
    &&& t.len() == 3 ==> cut_ok(t, 1) && cut_ok(t, 2)
    &&& t.len() == 6 ==> cut_ok(t, 2) && cut_ok(t, 4)
}

fn hex_digit_exec(b: u8) -> (r: Option<u8>)
    ensures
        match hex_digit(b) {
            Some(v) => r == Some(v as u8),
            None => r is None,
        },
{
    if 0x30 <= b && b <= 0x39 {
        Some(b - 0x30)
    } else if 0x61 <= b && b <= 0x66 {
        Some(b - 0x61 + 10)
    } else if 0x41 <= b && b <= 0x46 {
        Some(b - 0x41 + 10)
    } else {
        None
    }
}

fn hex_byte_exec(a: u8, b: u8) -> (r: u8)
    ensures
        r == hex_byte(a, b),
{
    if a == 0x2b {
        match hex_digit_exec(b) {
            Some(v) => v,
            None => 0,
        }
    } else {
        match (hex_digit_exec(a), hex_digit_exec(b)) {
            (Some(x), Some(y)) => 16 * x + y,
            _ => 0,
        }
    }
}

/// The colour a hex string such as `#ff8800` or `f80` names (see
/// [`spec_hex_color`]).
pub fn hex_color(s: &str) -> (c: Color)
    requires
        hex_cuts_ok(s.spec_bytes()),
    ensures
        c == spec_hex_color(s.spec_bytes()),
{
    let b = s.as_bytes();
    let n = b.len();
    let mut k: usize = 0;
    assert(b@.skip(0) =~= b@);
    while k < n && b[k] == 0x23
        invariant
            k <= n,
            n == b@.len(),
            leading_hashes(b@) == k + leading_hashes(b@.skip(k as int)),
        decreases n - k,
    {
        assert(b@.skip(k as int).drop_first() =~= b@.skip(k + 1));
        k = k + 1;
    }
    proof {
        if k < n {
            assert(leading_hashes(b@.skip(k as int)) == 0);
        } else {
            assert(b@.skip(k as int).len() == 0);
        }
    }
    let m = n - k;
    if m == 3 {
        Color::Rgb(hex_byte_exec(b[k], b[k]), hex_byte_exec(b[k + 1], b[k + 1]), hex_byte_exec(b[k + 2], b[k + 2]))
    } else if m == 6 {
        Color::Rgb(
            hex_byte_exec(b[k], b[k + 1]),
            hex_byte_exec(b[k + 2], b[k + 3]),
            hex_byte_exec(b[k + 4], b[k + 5]),
        )
    } else {
        Color::Black
    }
}

/// `dark` where `is_dark`, else `light` (for palettes that adapt to the
/// terminal's background).
pub fn light_dark<T>(is_dark: bool, light: T, dark: T) -> (r: T)
    ensures
        r == if is_dark { dark } else { light },
{
    if is_dark {
        dark
    } else {
        light
    }
}

/// Whether the terminal's background is dark. The terminal is not asked:
/// the answer is always `true`.
pub fn has_dark_background() -> (b: bool)
    ensures
        b,
{
    true
}

} // verus!

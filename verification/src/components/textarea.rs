//! A multi-line text area with a two-dimensional cursor.

use vstd::prelude::*;
use crate::surface::copy_range;
use crate::text::string_from_chars;
use crate::tui::{KeyCode, MouseEvent, MouseEventKind, Rect};

verus! {

/// What a text area tells its listeners.
#[derive(Debug, Clone)]
pub enum TextAreaEvent {
    Submit(String),
    Change(String),
    Focus,
    Blur,
}

/// A text area: its lines, the cursor (row and column, in characters),
/// focus, placeholder, and a limit that caps the number of lines and the
/// characters a line may reach by typing.
pub struct TextArea {
    pub lines: Vec<Vec<char>>,
    pub row: usize,
    pub col: usize,
    pub focused: bool,
    pub placeholder: String,
    pub max_lines: usize,
}

/// The characters of each line.
pub open spec fn lines_view(v: Seq<Vec<char>>) -> Seq<Seq<char>> {
    v.map_values(|l: Vec<char>| l@)
}

/// The lines joined with newlines.
pub open spec fn joined(ls: Seq<Seq<char>>) -> Seq<char>
    decreases ls.len(),
{
    if ls.len() == 0 {
        seq![]
    } else if ls.len() == 1 {
        ls[0]
    } else {
        joined(ls.drop_last()) + seq!['\n'] + ls.last()
    }
}

/// The smaller of two naturals.
pub open spec fn min_nat(a: nat, b: nat) -> nat {
    if a < b { a } else { b }
}

/// Lines, cursor row and cursor column after a key, for a text area whose
/// cursor is within its text.
pub open spec fn text_key(ls: Seq<Seq<char>>, row: nat, col: nat, max_lines: nat, code: KeyCode) -> (
    Seq<Seq<char>>,
    nat,
    nat,
) {
    let line = ls[row as int];
    match code {
        KeyCode::Char(c) => if line.len() < max_lines {
            (ls.update(row as int, line.insert(col as int, c)), row, col + 1)
        } else {
            (ls, row, col)
        },
        KeyCode::Backspace => if col > 0 {
            (ls.update(row as int, line.remove(col - 1)), row, (col - 1) as nat)
        } else if row > 0 {
            let prev = ls[row - 1];
            (ls.update(row - 1, prev + line).remove(row as int), (row - 1) as nat, prev.len())
        } else {
            (ls, row, col)
        },
        KeyCode::Enter => if row + 1 < max_lines {
            (
                ls.update(row as int, line.subrange(0, col as int)).insert(
                    row + 1int,
                    line.subrange(col as int, line.len() as int),
                ),
                row + 1,
                0,
            )
        } else {
            (ls, row, col)
        },
        KeyCode::Up => if row > 0 {
            ((ls, (row - 1) as nat, min_nat(col, ls[row - 1].len())))
        } else {
            (ls, row, col)
        },
        KeyCode::Down => if row + 1 < ls.len() {
            (ls, row + 1, min_nat(col, ls[row + 1int].len()))
        } else {
            (ls, row, col)
        },
        KeyCode::Left => if col > 0 {
            (ls, row, (col - 1) as nat)
        } else if row > 0 {
            (ls, (row - 1) as nat, ls[row - 1].len())
        } else {
            (ls, row, col)
        },
        KeyCode::Right => if col < line.len() {
            (ls, row, col + 1)
        } else if row + 1 < ls.len() {
            (ls, row + 1, 0)
        } else {
            (ls, row, col)
        },
        KeyCode::Home => (ls, row, 0),
        KeyCode::End => (ls, row, line.len()),
        _ => (ls, row, col),
    }
}

/// One drawn row of a text area.
pub struct TextRow {
    /// Where the row is drawn.
    pub rect: Rect,
    /// The text drawn before the caret, or the whole line where there is no
    /// caret on it.
    pub head: String,
    /// Whether the caret is drawn on this row.
    pub caret: bool,
    /// The text drawn after the caret.
    pub tail: String,
}

/// The inside of a text area drawn in `area`, within a one-cell border.
pub open spec fn text_inner(area: Rect) -> Rect {
    Rect { x: (area.x + 1) as u16, y: (area.y + 1) as u16, width: (area.width - 2) as u16, height: (area.height - 2) as u16 }
}

/// The text area's rows fit in the terminal's coordinates.
pub open spec fn text_area_fits(area: Rect, lines: nat) -> bool {
    &&& area.width >= 2
    &&& area.height >= 2
    &&& area.x + 1 <= u16::MAX
    &&& area.y + 1 + min_nat(lines, (area.height - 2) as nat) <= u16::MAX
}

impl TextArea {
    /// There is at least one line, and the cursor is within the text.
    pub open spec fn wf(&self) -> bool {
        &&& self.lines@.len() >= 1
        &&& self.row < self.lines@.len()
        &&& self.col <= self.lines@[self.row as int]@.len()
    }

    /// An empty, unfocused text area of up to 100 lines.
    pub fn new() -> (t: TextArea)
        ensures
            lines_view(t.lines@) == seq![Seq::<char>::empty()],
            t.row == 0,
            t.col == 0,
            !t.focused,
            t.placeholder@.len() == 0,
            t.max_lines == 100,
            t.wf(),
    {
        let mut lines: Vec<Vec<char>> = Vec::new();
        lines.push(Vec::new());
        let t = TextArea { lines, row: 0, col: 0, focused: false, placeholder: String::new(), max_lines: 100 };
        assert(lines_view(t.lines@) =~= seq![Seq::<char>::empty()]);
        t
    }

    /// This text area with another placeholder.
    pub fn placeholder(self, p: &str) -> (t: TextArea)
        ensures
            t.placeholder@ == p@,
            t.lines == self.lines,
            t.row == self.row,
            t.col == self.col,
            t.focused == self.focused,
            t.max_lines == self.max_lines,
    {
        TextArea { placeholder: p.to_owned(), ..self }
    }

    /// This text area with another limit.
    pub fn max_lines(self, n: usize) -> (t: TextArea)
        ensures
            t == (TextArea { max_lines: n, ..self }),
    {
        TextArea { max_lines: n, ..self }
    }

    /// The text: the lines joined with newlines.
    pub fn value(&self) -> (s: String)
        ensures
            s@ == joined(lines_view(self.lines@)),
    {
        let mut all: Vec<char> = Vec::new();
        let mut i: usize = 0;
        while i < self.lines.len()
            invariant
                i <= self.lines@.len(),
                all@ == joined(lines_view(self.lines@).take(i as int)),
            decreases self.lines@.len() - i,
        {
            let ghost before = all@;
            if i > 0 {
                all.push('\n');
            }
            let mut j: usize = 0;
            let ghost mid = all@;
            while j < self.lines[i].len()
                invariant
                    i < self.lines@.len(),
                    j <= self.lines@[i as int]@.len(),
                    all@ == mid + self.lines@[i as int]@.subrange(0, j as int),
                decreases self.lines@[i as int]@.len() - j,
            {
                all.push(self.lines[i][j]);
                assert(self.lines@[i as int]@.subrange(0, j + 1) =~= self.lines@[i as int]@.subrange(0, j as int).push(
                    self.lines@[i as int]@[j as int],
                ));
                j = j + 1;
            }
            proof {
                let ls = lines_view(self.lines@);
                assert(self.lines@[i as int]@.subrange(0, self.lines@[i as int]@.len() as int) =~= self.lines@[i as int]@);
                assert(ls.take(i + 1).drop_last() =~= ls.take(i as int));
                assert(ls.take(i + 1).last() == self.lines@[i as int]@);
                if i == 0 {
                    assert(ls.take(1) =~= seq![self.lines@[0]@]);
                    assert(all@ =~= self.lines@[0]@);
                }
            }
            i = i + 1;
        }
        proof {
            assert(lines_view(self.lines@).take(self.lines@.len() as int) =~= lines_view(self.lines@));
        }
        string_from_chars(all.as_slice())
    }

    /// Gives the text area the focus.
    pub fn focus(&mut self)
        ensures
            *final(self) == (TextArea { focused: true, ..*old(self) }),
    {
        self.focused = true;
    }

    /// Takes the focus away.
    pub fn blur(&mut self)
        ensures
            *final(self) == (TextArea { focused: false, ..*old(self) }),
    {
        self.focused = false;
    }

    /// Handles a key while focused (see [`text_key`]): characters, Backspace
    /// and Enter edit the text; the arrows, Home and End move the cursor.
    pub fn on_key(&mut self, code: KeyCode)
        requires
            old(self).wf(),
        ensures
            final(self).wf(),
            final(self).focused == old(self).focused,
            final(self).placeholder == old(self).placeholder,
            final(self).max_lines == old(self).max_lines,
            ({
                let r = if old(self).focused {
                    text_key(
                        lines_view(old(self).lines@),
                        old(self).row as nat,
                        old(self).col as nat,
                        old(self).max_lines as nat,
                        code,
                    )
                } else {
                    (lines_view(old(self).lines@), old(self).row as nat, old(self).col as nat)
                };
                &&& lines_view(final(self).lines@) == r.0
                &&& final(self).row == r.1
                &&& final(self).col == r.2
            }),
    {
        if !self.focused {
            return;
        }
        let ghost ls = lines_view(self.lines@);
        let row = self.row;
        let col = self.col;
        let nlines = self.lines.len();
        assert(row < nlines);
        let len = self.lines[row].len();
        match code {
            KeyCode::Char(c) => {
                if len < self.max_lines {
                    let mut line: Vec<char> = Vec::new();
                    std::mem::swap(&mut line, &mut self.lines[row]);
                    line.insert(col, c);
                    self.lines.set(row, line);
                    self.col = col + 1;
                    proof {
                        crate::surface::lemma_map_update(old(self).lines@, row as int, line, |l: Vec<char>| l@);
                    }
                }
            },
            KeyCode::Backspace => {
                if col > 0 {
                    let mut line: Vec<char> = Vec::new();
                    std::mem::swap(&mut line, &mut self.lines[row]);
                    line.remove(col - 1);
                    self.lines.set(row, line);
                    self.col = col - 1;
                    proof {
                        crate::surface::lemma_map_update(old(self).lines@, row as int, line, |l: Vec<char>| l@);
                    }
                } else if row > 0 {
                    let prev_len = self.lines[row - 1].len();
                    let removed = self.lines.remove(row);
                    let ghost after_remove = self.lines@;
                    let mut prev: Vec<char> = Vec::new();
                    std::mem::swap(&mut prev, &mut self.lines[row - 1]);
                    let mut k: usize = 0;
                    let ghost start = prev@;
                    while k < removed.len()
                        invariant
                            k <= removed@.len(),
                            prev@ == start + removed@.subrange(0, k as int),
                        decreases removed@.len() - k,
                    {
                        prev.push(removed[k]);
                        assert(removed@.subrange(0, k + 1) =~= removed@.subrange(0, k as int).push(removed@[k as int]));
                        k = k + 1;
                    }
                    assert(removed@.subrange(0, removed@.len() as int) =~= removed@);
                    self.lines.set(row - 1, prev);
                    self.row = row - 1;
                    self.col = prev_len;
                    proof {
                        let fin = lines_view(self.lines@);
                        let expect = ls.update(row - 1, ls[row - 1] + ls[row as int]).remove(row as int);
                        assert(fin.len() == expect.len());
                        assert forall|q: int| 0 <= q < fin.len() implies fin[q] == expect[q] by {
                            if q < row - 1 {
                            } else if q == row - 1 {
                            } else {
                                assert(self.lines@[q] == old(self).lines@[q + 1]);
                            }
                        }
                        assert(fin =~= expect);
                    }
                }
            },
            KeyCode::Enter => {
                if row + 1 < self.max_lines {
                    let rest = copy_range(&self.lines[row], col, len);
                    let head = copy_range(&self.lines[row], 0, col);
                    self.lines.set(row, head);
                    self.lines.insert(row + 1, rest);
                    self.row = row + 1;
                    self.col = 0;
                    proof {
                        let fin = lines_view(self.lines@);
                        let line = ls[row as int];
                        let expect = ls.update(row as int, line.subrange(0, col as int)).insert(
                            row + 1,
                            line.subrange(col as int, line.len() as int),
                        );
                        assert(fin.len() == expect.len());
                        assert forall|q: int| 0 <= q < fin.len() implies fin[q] == expect[q] by {
                            if q < row {
                            } else if q == row {
                            } else if q == row + 1 {
                            } else {
                                assert(self.lines@[q] == old(self).lines@[q - 1]);
                            }
                        }
                        assert(fin =~= expect);
                    }
                }
            },
            KeyCode::Up => {
                if row > 0 {
                    let prev_len = self.lines[row - 1].len();
                    self.row = row - 1;
                    self.col = if col < prev_len {
                        col
                    } else {
                        prev_len
                    };
                }
            },
            KeyCode::Down => {
                if row + 1 < nlines {
                    let next_len = self.lines[row + 1].len();
                    self.row = row + 1;
                    self.col = if col < next_len {
                        col
                    } else {
                        next_len
                    };
                }
            },
            KeyCode::Left => {
                if col > 0 {
                    self.col = col - 1;
                } else if row > 0 {
                    self.row = row - 1;
                    self.col = self.lines[row - 1].len();
                }
            },
            KeyCode::Right => {
                if col < len {
                    self.col = col + 1;
                } else if row + 1 < nlines {
                    self.row = row + 1;
                    self.col = 0;
                }
            },
            KeyCode::Home => {
                self.col = 0;
            },
            KeyCode::End => {
                self.col = len;
            },
            _ => {},
        }
    }

    /// Handles a mouse event over the text area's `area`: a press inside
    /// focuses it and puts the cursor on the clicked character (within the
    /// text), a press outside blurs it.
    pub fn on_mouse(&mut self, area: Rect, ev: &MouseEvent)
        requires
            old(self).wf(),
        ensures
            final(self).wf(),
            final(self).lines == old(self).lines,
            final(self).placeholder == old(self).placeholder,
            final(self).max_lines == old(self).max_lines,
            match ev.kind {
                MouseEventKind::Down(_) => if area.spec_contains(ev.column, ev.row) {
                    let ix: nat = if ev.column > area.x + 1 { (ev.column - area.x - 1) as nat } else { 0 };
                    let iy: nat = if ev.row > area.y + 1 { (ev.row - area.y - 1) as nat } else { 0 };
                    let r = min_nat(iy, (old(self).lines@.len() - 1) as nat);
                    &&& final(self).focused
                    &&& final(self).row == r
                    &&& final(self).col == min_nat(ix, old(self).lines@[r as int]@.len())
                } else {
                    *final(self) == (TextArea { focused: false, ..*old(self) })
                },
                _ => *final(self) == *old(self),
            },
    {
        match ev.kind {
            MouseEventKind::Down(_) => {
                if area.contains(ev.column, ev.row) {
                    self.focus();
                    let inner_x = ev.column.saturating_sub(area.left() + 1);
                    let inner_y = ev.row.saturating_sub(area.top() + 1);
                    let last = self.lines.len() - 1;
                    let row = if (inner_y as usize) < last {
                        inner_y as usize
                    } else {
                        last
                    };
                    let n = self.lines[row].len();
                    let col = if (inner_x as usize) < n {
                        inner_x as usize
                    } else {
                        n
                    };
                    self.row = row;
                    self.col = col;
                } else {
                    self.blur();
                }
            },
            _ => {},
        }
    }

    /// Whether the placeholder is drawn: the text is one empty line and the
    /// text area is unfocused.
    pub fn shows_placeholder(&self) -> (b: bool)
        ensures
            b == (self.lines@.len() == 1 && self.lines@[0]@.len() == 0 && !self.focused),
    {
        self.lines.len() == 1 && self.lines[0].len() == 0 && !self.focused
    }

    /// The rows drawn in `area`, inside its border, as many lines as fit from
    /// the first. Where `caret_on` (focused and the caret is in the visible
    /// phase of its blink) the cursor's row shows a caret followed by the
    /// text from the cursor on; every other row shows its whole line.
    pub fn rows(&self, area: Rect, caret_on: bool) -> (out: Vec<TextRow>)
        requires
            self.wf(),
            text_area_fits(area, self.lines@.len()),
        ensures
            ({
                let inner = text_inner(area);
                let n = min_nat(self.lines@.len(), inner.height as nat);
                &&& out@.len() == n
                &&& forall|i: int|
                    0 <= i < n ==> {
                        let line = self.lines@[i]@;
                        let caret = i == self.row && self.focused && caret_on;
                        &&& (#[trigger] out@[i]).rect == (Rect {
                            x: inner.x,
                            y: (inner.y + i) as u16,
                            width: inner.width,
                            height: 1,
                        })
                        &&& out@[i].caret == caret
                        &&& out@[i].head@ == if caret { Seq::<char>::empty() } else { line }
                        &&& out@[i].tail@ == if caret {
                            line.subrange(min_nat(self.col as nat, line.len()) as int, line.len() as int)
                        } else {
                            Seq::<char>::empty()
                        }
                    }
            }),
    {
        let inner = Rect { x: area.x + 1, y: area.y + 1, width: area.width - 2, height: area.height - 2 };
        let visible = inner.height as usize;
        let n = if self.lines.len() < visible {
            self.lines.len()
        } else {
            visible
        };
        let mut out: Vec<TextRow> = Vec::new();
        let mut i: usize = 0;
        while i < n
            invariant
                i <= n,
                n == min_nat(self.lines@.len(), inner.height as nat),
                inner == text_inner(area),
                text_area_fits(area, self.lines@.len()),
                self.wf(),
                out@.len() == i,
                forall|k: int|
                    0 <= k < i ==> {
                        let line = self.lines@[k]@;
                        let caret = k == self.row && self.focused && caret_on;
                        &&& (#[trigger] out@[k]).rect == (Rect {
                            x: inner.x,
                            y: (inner.y + k) as u16,
                            width: inner.width,
                            height: 1,
                        })
                        &&& out@[k].caret == caret
                        &&& out@[k].head@ == if caret { Seq::<char>::empty() } else { line }
                        &&& out@[k].tail@ == if caret {
                            line.subrange(min_nat(self.col as nat, line.len()) as int, line.len() as int)
                        } else {
                            Seq::<char>::empty()
                        }
                    },
            decreases n - i,
        {
            let rect = Rect { x: inner.x, y: inner.y + i as u16, width: inner.width, height: 1 };
            let line = &self.lines[i];
            let row = if i == self.row && self.focused && caret_on {
                let from = if self.col < line.len() {
                    self.col
                } else {
                    line.len()
                };
                let tail = copy_range(line, from, line.len());
                TextRow { rect, head: String::new(), caret: true, tail: string_from_chars(tail.as_slice()) }
            } else {
                let all = copy_range(line, 0, line.len());
                assert(line@.subrange(0, line@.len() as int) =~= line@);
                TextRow { rect, head: string_from_chars(all.as_slice()), caret: false, tail: String::new() }
            };
            out.push(row);
            i = i + 1;
        }
        out
    }
}

/// Every key keeps the cursor within the text and at least one line.
pub proof fn lemma_text_key_keeps_cursor(ls: Seq<Seq<char>>, row: nat, col: nat, max_lines: nat, code: KeyCode)
    requires
        ls.len() >= 1,
        row < ls.len(),
        col <= ls[row as int].len(),
    ensures
        ({
            let r = text_key(ls, row, col, max_lines, code);
            &&& r.0.len() >= 1
            &&& r.1 < r.0.len()
            &&& r.2 <= r.0[r.1 as int].len()
        }),
{
}

/// What each key does to a text area's lines and cursor, in terms of the
/// lines before and after: a character goes in at the cursor on the
/// cursor's line (where the line has room) and the cursor moves past it;
/// Backspace removes the character before the cursor, or at the start of a
/// line joins it to the line above, the cursor at the join; Left and Right
/// move one character, crossing to the end of the line above or the start
/// of the line below at the ends of a line; Up and Down move one line,
/// keeping the column where the line is long enough and else going to its
/// end; Enter splits the line at the cursor and puts the cursor at the start
/// of the new line; Home and End go to the ends of the line; the other lines
/// stay as they are.
pub proof fn lemma_text_key_edits(ls: Seq<Seq<char>>, row: nat, col: nat, max_lines: nat, code: KeyCode)
    requires
        ls.len() >= 1,
        row < ls.len(),
        col <= ls[row as int].len(),
    ensures
        ({
            let r = text_key(ls, row, col, max_lines, code);
            let line = ls[row as int];
            let n = line.len();
            let c0 = col as int;
            &&& forall|c: char| code == KeyCode::Char(c) && n < max_lines ==> {
                &&& r.0.len() == ls.len()
                &&& r.0[row as int] == line.take(c0) + seq![c] + line.skip(c0)
                &&& forall|i: int| 0 <= i < ls.len() && i != row ==> r.0[i] == ls[i]
                &&& r.1 == row && r.2 == col + 1
            }
            &&& code == KeyCode::Backspace && col > 0 ==> {
                &&& r.0.len() == ls.len()
                &&& r.0[row as int] == line.take(c0 - 1) + line.skip(c0)
                &&& forall|i: int| 0 <= i < ls.len() && i != row ==> r.0[i] == ls[i]
                &&& r.1 == row && r.2 == col - 1
            }
            &&& code == KeyCode::Backspace && col == 0 && row > 0 ==> {
                &&& r.0.len() == ls.len() - 1
                &&& r.0[row - 1] == ls[row - 1] + line
                &&& forall|i: int| 0 <= i < row - 1 ==> r.0[i] == ls[i]
                &&& forall|i: int| row <= i < r.0.len() ==> r.0[i] == ls[i + 1]
                &&& r.1 == row - 1 && r.2 == ls[row - 1].len()
            }
            &&& code == KeyCode::Enter && row + 1 < max_lines ==> {
                &&& r.0.len() == ls.len() + 1
                &&& r.0[row as int] == line.take(c0)
                &&& r.0[row + 1int] == line.skip(c0)
                &&& forall|i: int| 0 <= i < row ==> r.0[i] == ls[i]
                &&& forall|i: int| row + 1 < i < r.0.len() ==> r.0[i] == ls[i - 1]
                &&& r.1 == row + 1 && r.2 == 0
            }
            &&& code == KeyCode::Up && row > 0 ==> r.0 == ls && r.1 == row - 1 && r.2 == if col
                < ls[row - 1].len() { col } else { ls[row - 1].len() }
            &&& code == KeyCode::Down && row + 1 < ls.len() ==> r.0 == ls && r.1 == row + 1 && r.2 == if col
                < ls[row + 1int].len() { col } else { ls[row + 1int].len() }
            &&& code == KeyCode::Left && col > 0 ==> r == (ls, row, (col - 1) as nat)
            &&& code == KeyCode::Left && col == 0 && row > 0 ==> r == (ls, (row - 1) as nat, ls[row - 1].len())
            &&& code == KeyCode::Right && col < n ==> r == (ls, row, col + 1)
            &&& code == KeyCode::Right && col == n && row + 1 < ls.len() ==> r == (ls, row + 1, 0nat)
            &&& code == KeyCode::Home ==> r == (ls, row, 0nat)
            &&& code == KeyCode::End ==> r == (ls, row, n)
        }),
{
    let line = ls[row as int];
    let c0 = col as int;
    match code {
        KeyCode::Char(c) => {
            assert(line.insert(c0, c) =~= line.take(c0) + seq![c] + line.skip(c0));
        },
        KeyCode::Backspace => {
            if col > 0 {
                assert(line.remove(c0 - 1) =~= line.take(c0 - 1) + line.skip(c0));
            }
        },
        _ => {},
    }
}

/// Enter then Backspace joins the split line back: the text and cursor are
/// as they were.
pub proof fn lemma_enter_then_backspace(ls: Seq<Seq<char>>, row: nat, col: nat, max_lines: nat)
    requires
        ls.len() >= 1,
        row < ls.len(),
        col <= ls[row as int].len(),
        row + 1 < max_lines,
    ensures
        ({
            let a = text_key(ls, row, col, max_lines, KeyCode::Enter);
            text_key(a.0, a.1, a.2, max_lines, KeyCode::Backspace) == (ls, row, col)
        }),
{
    let line = ls[row as int];
    let a = text_key(ls, row, col, max_lines, KeyCode::Enter);
    let b = text_key(a.0, a.1, a.2, max_lines, KeyCode::Backspace);
    assert(line.subrange(0, col as int) + line.subrange(col as int, line.len() as int) =~= line);
    assert(b.0 =~= ls);
}

} // verus!

//! A single-line text input with a cursor that scrolls to stay in view.
//!
//! Every handler returns the event it emits, if any.

use vstd::prelude::*;
use crate::surface::copy_range;
use crate::text::{chars_of, string_from_chars};
use crate::tui::{KeyCode, MouseEvent, MouseEventKind, Rect};

verus! {

/// What an input tells its listeners.
#[derive(Debug, Clone)]
pub enum InputEvent {
    Submit(String),
    Focus,
    Blur,
    Change(String),
}

/// A single-line text input: its label, text, placeholder, focus and the
/// cursor position, counted in characters.
pub struct Input {
    pub label: String,
    pub text: Vec<char>,
    pub placeholder: String,
    pub focused: bool,
    pub cursor: usize,
}

/// The visible part of an input's text around the cursor.
pub struct InputLine {
    /// Whether the placeholder is shown in place of the text.
    pub placeholder: bool,
    /// The visible characters left of the cursor.
    pub before: String,
    /// The visible characters from the cursor on.
    pub after: String,
}

/// The window `[lo, hi)` of `total` characters shown in `avail` columns so
/// that the caret stays in view, centred where the text is longer.
pub open spec fn spec_scroll_window(total: nat, avail: nat, caret: nat) -> (nat, nat) {
    if avail == 0 || total <= avail {
        (0, total)
    } else {
        let half = avail / 2;
        let from = if caret > half { (caret - half) as nat } else { 0 };
        let start = if from < total - avail { from } else { (total - avail) as nat };
        (start, start + avail)
    }
}

/// The window of `total` characters shown in `avail` columns around `caret`
/// (see [`spec_scroll_window`]).
pub fn scroll_window(total: usize, avail: usize, caret: usize) -> (r: (usize, usize))
    ensures
        (r.0 as nat, r.1 as nat) == spec_scroll_window(total as nat, avail as nat, caret as nat),
        r.0 <= r.1 <= total,
{
    if avail == 0 || total <= avail {
        return (0, total);
    }
    let start = if caret.saturating_sub(avail / 2) < total - avail {
        caret.saturating_sub(avail / 2)
    } else {
        total - avail
    };
    (start, start + avail)
}

/// Whether a key edits the text or moves the cursor.
pub open spec fn is_edit_key(code: KeyCode) -> bool {
    match code {
        KeyCode::Backspace | KeyCode::Delete | KeyCode::Left | KeyCode::Right | KeyCode::Home | KeyCode::End
        | KeyCode::Char(_) => true,
        _ => false,
    }
}

/// The text after an edit key at cursor `cur`.
pub open spec fn edited_text(text: Seq<char>, cur: nat, code: KeyCode) -> Seq<char> {
    match code {
        KeyCode::Backspace => if cur > 0 { text.remove(cur - 1) } else { text },
        KeyCode::Delete => if cur < text.len() { text.remove(cur as int) } else { text },
        KeyCode::Char(c) => text.insert(cur as int, c),
        _ => text,
    }
}

/// The cursor after an edit key at cursor `cur`.
pub open spec fn edited_cursor(text: Seq<char>, cur: nat, code: KeyCode) -> nat {
    match code {
        KeyCode::Backspace => if cur > 0 { (cur - 1) as nat } else { cur },
        KeyCode::Left => if cur > 0 { (cur - 1) as nat } else { cur },
        KeyCode::Right => if cur < text.len() { cur + 1 } else { text.len() },
        KeyCode::Home => 0,
        KeyCode::End => text.len(),
        KeyCode::Char(_) => cur + 1,
        _ => cur,
    }
}

/// The cursor a click at `column` puts in an input drawn in `area` (one
/// column of border on the left): the clicked character of the visible
/// window, at most the end of the text.
pub open spec fn clicked_cursor(total: nat, cur: nat, area: Rect, column: u16) -> nat {
    let rel = if column > area.x + 1 { column - (area.x + 1) } else { 0 };
    let avail: nat = if area.width > 2 { (area.width - 2) as nat } else { 0 };
    let lo = spec_scroll_window(total, avail, cur).0;
    if lo + rel < total { (lo + rel) as nat } else { total }
}

impl Input {
    /// The cursor never passes the end of the text.
    pub open spec fn wf(&self) -> bool {
        self.cursor <= self.text@.len()
    }

    /// Whether `b` is `a` with another text, cursor and focus.
    pub open spec fn same_but_state(a: Input, b: Input) -> bool {
        &&& b.label == a.label
        &&& b.placeholder == a.placeholder
    }

    /// How a key changes an input `a` into `b`, and the event it emits:
    /// while focused, Enter submits the text; Backspace, Delete, the arrows,
    /// Home, End and characters edit it or move the cursor (see
    /// [`edited_text`], [`edited_cursor`]) and report the new text; other
    /// keys, and any key while unfocused, change nothing.
    pub open spec fn key_post(a: Input, b: Input, code: KeyCode, ev: Option<InputEvent>) -> bool {
        &&& b.focused == a.focused
        &&& Input::same_but_state(a, b)
        &&& a.focused && is_edit_key(code) ==> {
            &&& b.text@ == edited_text(a.text@, a.cursor as nat, code)
            &&& b.cursor == edited_cursor(a.text@, a.cursor as nat, code)
            &&& ev matches Some(InputEvent::Change(s)) && s@ == b.text@
        }
        &&& !(a.focused && is_edit_key(code)) ==> {
            &&& b.text == a.text
            &&& b.cursor == a.cursor
        }
        &&& a.focused && code == KeyCode::Enter ==> (ev matches Some(InputEvent::Submit(s)) && s@ == a.text@)
        &&& !a.focused || !(is_edit_key(code) || code == KeyCode::Enter) ==> ev is None
    }

    /// How a mouse event over `area` changes an input `a` into `b`, and the
    /// event it emits: a press inside focuses it and moves the cursor to the
    /// clicked character (see [`clicked_cursor`]), a press outside blurs it.
    pub open spec fn mouse_post(a: Input, b: Input, area: Rect, ev: MouseEvent, out: Option<InputEvent>) -> bool {
        &&& b.text == a.text
        &&& Input::same_but_state(a, b)
        &&& ev.kind is Down && area.spec_contains(ev.column, ev.row) ==> {
            &&& b.focused
            &&& b.cursor == clicked_cursor(a.text@.len(), a.cursor as nat, area, ev.column)
            &&& out matches Some(InputEvent::Focus)
        }
        &&& ev.kind is Down && !area.spec_contains(ev.column, ev.row) ==> {
            &&& !b.focused
            &&& b.cursor == a.cursor
            &&& out matches Some(InputEvent::Blur)
        }
        &&& !(ev.kind is Down) ==> out is None && b.focused == a.focused && b.cursor == a.cursor
    }

    /// An empty, unfocused input labelled `label`, with no placeholder.
    pub fn new(label: &str) -> (i: Input)
        ensures
            i.label@ == label@,
            i.text@.len() == 0,
            i.placeholder@.len() == 0,
            !i.focused,
            i.cursor == 0,
            i.wf(),
    {
        Input { label: label.to_owned(), text: Vec::new(), placeholder: String::new(), focused: false, cursor: 0 }
    }

    /// Replaces the label.
    pub fn set_label(&mut self, label: &str)
        ensures
            final(self).label@ == label@,
            final(self).text == old(self).text,
            final(self).placeholder == old(self).placeholder,
            final(self).focused == old(self).focused,
            final(self).cursor == old(self).cursor,
    {
        self.label = label.to_owned();
    }

    /// This input with another placeholder.
    pub fn placeholder(self, p: &str) -> (i: Input)
        ensures
            i.placeholder@ == p@,
            i.label == self.label,
            i.text == self.text,
            i.focused == self.focused,
            i.cursor == self.cursor,
    {
        Input { placeholder: p.to_owned(), ..self }
    }

    /// The text.
    pub fn value(&self) -> (s: String)
        ensures
            s@ == self.text@,
    {
        string_from_chars(self.text.as_slice())
    }

    /// Replaces the text and puts the cursor at its end.
    pub fn set_value(&mut self, s: &str)
        ensures
            final(self).text@ == s@,
            final(self).cursor == s@.len(),
            final(self).focused == old(self).focused,
            Input::same_but_state(*old(self), *final(self)),
            final(self).wf(),
    {
        let chars = chars_of(s);
        self.cursor = chars.len();
        self.text = chars;
    }

    /// Gives the input the focus.
    pub fn focus(&mut self) -> (ev: InputEvent)
        ensures
            *final(self) == (Input { focused: true, ..*old(self) }),
            ev is Focus,
    {
        self.focused = true;
        InputEvent::Focus
    }

    /// Takes the focus away.
    pub fn blur(&mut self) -> (ev: InputEvent)
        ensures
            *final(self) == (Input { focused: false, ..*old(self) }),
            ev is Blur,
    {
        self.focused = false;
        InputEvent::Blur
    }

    /// Whether the input has the focus.
    pub fn is_focused(&self) -> (b: bool)
        ensures
            b == self.focused,
    {
        self.focused
    }

    /// Handles a key while focused: Enter submits the text; Backspace,
    /// Delete, the arrows, Home, End and characters edit it or move the
    /// cursor and report the text as changed; other keys, and any key while
    /// unfocused, do nothing.
    pub fn on_key(&mut self, code: KeyCode) -> (ev: Option<InputEvent>)
        requires
            old(self).wf(),
        ensures
            final(self).wf(),
            Input::key_post(*old(self), *final(self), code, ev),
    {
        if !self.focused {
            return None;
        }
        let len = self.text.len();
        let cur = self.cursor;
        match code {
            KeyCode::Backspace => {
                if cur > 0 {
                    self.text.remove(cur - 1);
                    self.cursor = cur - 1;
                }
            },
            KeyCode::Delete => {
                if cur < len {
                    self.text.remove(cur);
                }
            },
            KeyCode::Left => {
                self.cursor = cur.saturating_sub(1);
            },
            KeyCode::Right => {
                self.cursor = if cur < len {
                    cur + 1
                } else {
                    len
                };
            },
            KeyCode::Home => {
                self.cursor = 0;
            },
            KeyCode::End => {
                self.cursor = len;
            },
            KeyCode::Char(c) => {
                self.text.insert(cur, c);
                let n = self.text.len();
                assert(cur < n);
                self.cursor = cur + 1;
            },
            KeyCode::Enter => {
                return Some(InputEvent::Submit(string_from_chars(self.text.as_slice())));
            },
            _ => {
                return None;
            },
        }
        Some(InputEvent::Change(string_from_chars(self.text.as_slice())))
    }

    /// Handles a mouse event over the input's `area`: a press inside focuses
    /// the input and moves the cursor to the clicked character, a press
    /// outside blurs it.
    pub fn on_mouse(&mut self, area: Rect, ev: &MouseEvent) -> (out: Option<InputEvent>)
        requires
            old(self).wf(),
        ensures
            final(self).wf(),
            Input::mouse_post(*old(self), *final(self), area, *ev, out),
    {
        match ev.kind {
            MouseEventKind::Down(_) => {
                if area.contains(ev.column, ev.row) {
                    let out = self.focus();
                    let rel_x = ev.column.saturating_sub(area.left() + 1);
                    let avail = area.width.saturating_sub(2) as usize;
                    let total = self.text.len();
                    let (lo, _hi) = scroll_window(total, avail, self.cursor);
                    let new_cur = if (rel_x as usize) < total - lo {
                        lo + rel_x as usize
                    } else {
                        total
                    };
                    self.cursor = new_cur;
                    Some(out)
                } else {
                    Some(self.blur())
                }
            },
            _ => None,
        }
    }

    /// What an input drawn `width` columns wide shows (two columns go to its
    /// border): the window of the text around the cursor, split at the
    /// cursor, or the placeholder where the input is empty and unfocused.
    pub fn line_parts(&self, width: u16) -> (l: InputLine)
        requires
            self.wf(),
        ensures
            ({
                let avail: nat = if width > 2 { (width - 2) as nat } else { 0 };
                let (lo, hi) = spec_scroll_window(self.text@.len(), avail, self.cursor as nat);
                let caret = if self.cursor < lo { lo } else if self.cursor > hi { hi } else { self.cursor as nat };
                &&& l.before@ == self.text@.subrange(lo as int, caret as int)
                &&& l.after@ == self.text@.subrange(caret as int, hi as int)
                &&& l.placeholder == (!self.focused && self.text@.len() == 0)
            }),
    {
        let avail = width.saturating_sub(2) as usize;
        let total = self.text.len();
        let (lo, hi) = scroll_window(total, avail, self.cursor);
        let caret = if self.cursor < lo {
            lo
        } else if self.cursor > hi {
            hi
        } else {
            self.cursor
        };
        let before = copy_range(&self.text, lo, caret);
        let after = copy_range(&self.text, caret, hi);
        let placeholder = caret == lo && lo == hi && !self.focused && total == 0;
        InputLine {
            placeholder,
            before: string_from_chars(before.as_slice()),
            after: string_from_chars(after.as_slice()),
        }
    }
}

/// Typing a character and then Backspace leaves the text and cursor as they
/// were.
pub proof fn lemma_type_then_backspace(text: Seq<char>, cur: nat, c: char)
    requires
        cur <= text.len(),
    ensures
        edited_text(edited_text(text, cur, KeyCode::Char(c)), edited_cursor(text, cur, KeyCode::Char(c)), KeyCode::Backspace)
            == text,
        edited_cursor(edited_text(text, cur, KeyCode::Char(c)), edited_cursor(text, cur, KeyCode::Char(c)), KeyCode::Backspace)
            == cur,
{
    assert(text.insert(cur as int, c).remove(cur as int) =~= text);
}

/// What each editing key does to a focused input, in terms of its text and
/// cursor before and after: a character goes in at the cursor and the cursor
/// moves past it; Backspace removes the character before the cursor and
/// Delete the one under it; Left and Right move the cursor one character,
/// stopping at the ends; Home and End move it to the start and the end.
pub proof fn lemma_key_edits(a: Input, b: Input, code: KeyCode, ev: Option<InputEvent>)
    requires
        a.wf(),
        a.focused,
        Input::key_post(a, b, code, ev),
    ensures
        ({
            let t = a.text@;
            let n = t.len() as int;
            let cur = a.cursor as int;
            &&& forall|c: char| code == KeyCode::Char(c) ==> b.text@ == t.take(cur) + seq![c] + t.skip(cur) && b.cursor == cur + 1
            &&& code == KeyCode::Backspace && cur > 0 ==> b.text@ == t.take(cur - 1) + t.skip(cur) && b.cursor == cur - 1
            &&& code == KeyCode::Backspace && cur == 0 ==> b.text@ == t && b.cursor == 0
            &&& code == KeyCode::Delete && cur < n ==> b.text@ == t.take(cur) + t.skip(cur + 1) && b.cursor == cur
            &&& code == KeyCode::Delete && cur == n ==> b.text@ == t && b.cursor == cur
            &&& code == KeyCode::Left ==> b.text@ == t && b.cursor == if cur > 0 { cur - 1 } else { 0 }
            &&& code == KeyCode::Right ==> b.text@ == t && b.cursor == if cur < n { cur + 1 } else { n }
            &&& code == KeyCode::Home ==> b.text@ == t && b.cursor == 0
            &&& code == KeyCode::End ==> b.text@ == t && b.cursor == n
        }),
{
    let t = a.text@;
    let cur = a.cursor as int;
    match code {
        KeyCode::Char(c) => {
            assert(t.insert(cur, c) =~= t.take(cur) + seq![c] + t.skip(cur));
        },
        KeyCode::Backspace => {
            if cur > 0 {
                assert(t.remove(cur - 1) =~= t.take(cur - 1) + t.skip(cur));
            }
        },
        KeyCode::Delete => {
            if cur < t.len() {
                assert(t.remove(cur) =~= t.take(cur) + t.skip(cur + 1));
            }
        },
        _ => {},
    }
}

/// Every edit keeps the cursor within the text.
pub proof fn lemma_edit_keeps_cursor_in_text(text: Seq<char>, cur: nat, code: KeyCode)
    requires
        cur <= text.len(),
    ensures
        edited_cursor(text, cur, code) <= edited_text(text, cur, code).len(),
{
}

/// The scroll window is `avail` wide where the text is longer than that,
/// and holds the caret where the caret is within the text.
pub proof fn lemma_scroll_window_holds_caret(total: nat, avail: nat, caret: nat)
    requires
        caret <= total,
    ensures
        ({
            let (lo, hi) = spec_scroll_window(total, avail, caret);
            &&& lo <= hi <= total
            &&& avail > 0 && total > avail ==> hi - lo == avail
            &&& avail > 0 ==> lo <= caret <= hi
        }),
{
}

impl Clone for Input {
    /// An independent copy of the input as it is now.
    fn clone(&self) -> (i: Input)
        ensures
            i.label@ == self.label@,
            i.text@ == self.text@,
            i.placeholder@ == self.placeholder@,
            i.focused == self.focused,
            i.cursor == self.cursor,
    {
        Input {
            label: self.label.clone(),
            text: crate::text::copy_vec(&self.text),
            placeholder: self.placeholder.clone(),
            focused: self.focused,
            cursor: self.cursor,
        }
    }
}

} // verus!

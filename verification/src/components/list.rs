//! A selectable list of items.
//!
//! Every handler returns the events it emits, in order.

use vstd::prelude::*;
use crate::text::concat;
use crate::tui::{Event, KeyCode, MouseEvent, MouseEventKind, Rect};

verus! {

/// What a list tells its listeners.
#[derive(Debug, Clone, Copy, PartialEq, Eq, Structural)]
pub enum ListEvent {
    Select(usize),
    Focus,
    Blur,
}

/// A selectable list: its items, the selected index, focus and whether it
/// is drawn with a border.
pub struct List {
    pub items: Vec<String>,
    pub selection: usize,
    pub focused: bool,
    pub bordered: bool,
}

/// The last index of a list of `len` items (0 for none).
pub open spec fn last_index(len: nat) -> nat {
    if len > 0 { (len - 1) as nat } else { 0 }
}

/// The selection after a navigation key in a list of `len > 0` items.
pub open spec fn navigated(sel: nat, len: nat, code: KeyCode) -> nat {
    match code {
        KeyCode::Up => if sel > 0 { (sel - 1) as nat } else { 0 },
        KeyCode::Down => if sel + 1 < len { sel + 1 } else { (len - 1) as nat },
        KeyCode::Home => 0,
        KeyCode::End => (len - 1) as nat,
        _ => sel,
    }
}

/// Whether a key moves a list's selection.
pub open spec fn is_nav_key(code: KeyCode) -> bool {
    code == KeyCode::Up || code == KeyCode::Down || code == KeyCode::Home || code == KeyCode::End
}

/// The item a click on `row` selects in a list drawn in `area`: the row
/// counted below the top border (where drawn), at most the last item.
pub open spec fn clicked_item(area: Rect, row: u16, bordered: bool, len: nat) -> nat {
    let top: int = area.y + if bordered { 1int } else { 0int };
    let inner: nat = if row > top { (row - top) as nat } else { 0 };
    if inner < last_index(len) { inner } else { last_index(len) }
}

impl List {
    /// How a key changes list `a` into `b`, with the event it emits: while
    /// focused on a non-empty list, Up, Down, Home and End move the
    /// selection and Enter selects the current item; anything else does
    /// nothing.
    pub open spec fn key_post(a: List, b: List, code: KeyCode, ev: Option<ListEvent>) -> bool {
        let active = a.focused && a.items@.len() > 0;
        &&& b.items == a.items
        &&& b.focused == a.focused
        &&& b.bordered == a.bordered
        &&& active && is_nav_key(code) ==> b.selection == navigated(a.selection as nat, a.items@.len(), code)
            && ev is None
        &&& active && code == KeyCode::Enter ==> b.selection == a.selection && ev == Some(
            ListEvent::Select(a.selection),
        )
        &&& !(active && (is_nav_key(code) || code == KeyCode::Enter)) ==> b.selection == a.selection && ev is None
    }

    /// How a mouse event over `area` changes list `a` into `b`, with the
    /// events it emits in order: a press inside focuses the list and selects
    /// the clicked item; the wheel focuses it and moves the selection.
    pub open spec fn mouse_post(a: List, b: List, area: Rect, ev: MouseEvent, out: Seq<ListEvent>) -> bool {
        let len = a.items@.len();
        let sel = a.selection as nat;
        &&& b.items == a.items
        &&& b.bordered == a.bordered
        &&& match ev.kind {
            MouseEventKind::Down(_) => if area.spec_contains(ev.column, ev.row) {
                let s = clicked_item(area, ev.row, a.bordered, len);
                &&& b.focused
                &&& b.selection == s
                &&& out == seq![ListEvent::Focus, ListEvent::Select(s as usize)]
            } else {
                b == a && out.len() == 0
            },
            MouseEventKind::ScrollUp => {
                &&& b.focused
                &&& b.selection == if sel > 0 { (sel - 1) as nat } else { 0 }
                &&& out == seq![ListEvent::Focus]
            },
            MouseEventKind::ScrollDown => {
                &&& b.focused
                &&& b.selection == if sel + 1 < last_index(len) { sel + 1 } else { last_index(len) }
                &&& out == seq![ListEvent::Focus]
            },
            _ => b == a && out.len() == 0,
        }
    }

    /// The selection stays on an item (or at 0 for no items).
    pub open spec fn wf(&self) -> bool {
        self.selection <= last_index(self.items@.len())
    }

    /// A bordered, unfocused list of `items` with the first one selected.
    pub fn new(items: Vec<String>) -> (l: List)
        ensures
            l.items@ == items@,
            l.selection == 0,
            !l.focused,
            l.bordered,
            l.wf(),
    {
        List { items, selection: 0, focused: false, bordered: true }
    }

    /// This list drawn without a border.
    pub fn without_border(self) -> (l: List)
        ensures
            l == (List { bordered: false, ..self }),
    {
        List { bordered: false, ..self }
    }

    /// Gives the list the focus.
    pub fn focus(&mut self) -> (ev: ListEvent)
        ensures
            *final(self) == (List { focused: true, ..*old(self) }),
            ev == ListEvent::Focus,
    {
        self.focused = true;
        ListEvent::Focus
    }

    /// Takes the focus away.
    pub fn blur(&mut self) -> (ev: ListEvent)
        ensures
            *final(self) == (List { focused: false, ..*old(self) }),
            ev == ListEvent::Blur,
    {
        self.focused = false;
        ListEvent::Blur
    }

    /// The selected index.
    pub fn selected(&self) -> (i: usize)
        ensures
            i == self.selection,
    {
        self.selection
    }

    /// Whether the list has the focus.
    pub fn is_focused(&self) -> (b: bool)
        ensures
            b == self.focused,
    {
        self.focused
    }

    /// Handles a key while focused on a non-empty list: Up, Down, Home and
    /// End move the selection, Enter selects the current item; anything else
    /// does nothing.
    pub fn on_key(&mut self, code: KeyCode) -> (ev: Option<ListEvent>)
        requires
            old(self).wf(),
        ensures
            final(self).wf(),
            List::key_post(*old(self), *final(self), code, ev),
    {
        if !self.focused {
            return None;
        }
        let len = self.items.len();
        if len == 0 {
            return None;
        }
        let sel = self.selection;
        match code {
            KeyCode::Up => {
                self.selection = sel.saturating_sub(1);
            },
            KeyCode::Down => {
                self.selection = if sel + 1 < len {
                    sel + 1
                } else {
                    len - 1
                };
            },
            KeyCode::Home => {
                self.selection = 0;
            },
            KeyCode::End => {
                self.selection = len - 1;
            },
            KeyCode::Enter => {
                return Some(ListEvent::Select(sel));
            },
            _ => {},
        }
        None
    }

    /// Handles a mouse event over the list's `area`: a press inside focuses
    /// the list and selects the clicked item; the wheel focuses it and moves
    /// the selection up or down.
    pub fn on_mouse(&mut self, area: Rect, ev: &MouseEvent) -> (out: Vec<ListEvent>)
        requires
            old(self).wf(),
        ensures
            final(self).wf(),
            List::mouse_post(*old(self), *final(self), area, *ev, out@),
    {
        let mut out: Vec<ListEvent> = Vec::new();
        match ev.kind {
            MouseEventKind::Down(_) => {
                if area.contains(ev.column, ev.row) {
                    out.push(self.focus());
                    let offset: u16 = if self.bordered {
                        1
                    } else {
                        0
                    };
                    let inner_y = ev.row.saturating_sub(area.top() + offset);
                    let last = self.items.len().saturating_sub(1);
                    let sel = if (inner_y as usize) < last {
                        inner_y as usize
                    } else {
                        last
                    };
                    self.selection = sel;
                    out.push(ListEvent::Select(sel));
                    assert(out@ =~= seq![ListEvent::Focus, ListEvent::Select(sel)]);
                }
            },
            MouseEventKind::ScrollUp => {
                out.push(self.focus());
                self.selection = self.selection.saturating_sub(1);
            },
            MouseEventKind::ScrollDown => {
                let last = self.items.len().saturating_sub(1);
                out.push(self.focus());
                self.selection = if self.selection + 1 < last {
                    self.selection + 1
                } else {
                    last
                };
            },
            _ => {},
        }
        out
    }

    /// Hands a terminal event to the list: keys to [`List::on_key`], mouse
    /// events over `area` to [`List::on_mouse`]; anything else does nothing.
    /// Returns the events emitted, in order.
    pub fn handle_event(&mut self, area: Rect, ev: &Event) -> (out: Vec<ListEvent>)
        requires
            old(self).wf(),
        ensures
            final(self).wf(),
            match *ev {
                Event::Key(code) => exists|e: Option<ListEvent>|
                    List::key_post(*old(self), *final(self), code, e) && out@ == match e {
                        Some(x) => seq![x],
                        None => Seq::<ListEvent>::empty(),
                    },
                Event::Mouse(m) => List::mouse_post(*old(self), *final(self), area, m, out@),
                _ => *final(self) == *old(self) && out@.len() == 0,
            },
    {
        match ev {
            Event::Key(code) => {
                let e = self.on_key(*code);
                let mut out: Vec<ListEvent> = Vec::new();
                match e {
                    Some(x) => out.push(x),
                    None => {},
                }
                proof {
                    assert(out@ =~= match e {
                        Some(x) => seq![x],
                        None => Seq::<ListEvent>::empty(),
                    });
                }
                out
            },
            Event::Mouse(m) => self.on_mouse(area, m),
            _ => Vec::new(),
        }
    }

    /// The text of each row: the selected or unselected glyph, a space and
    /// the item.
    pub fn lines(&self, selected_glyph: &str, unselected_glyph: &str) -> (out: Vec<String>)
        ensures
            out@.len() == self.items@.len(),
            forall|i: int|
                0 <= i < out@.len() ==> #[trigger] out@[i]@ == (if i == self.selection {
                    selected_glyph@
                } else {
                    unselected_glyph@
                }) + seq![' '] + self.items@[i]@,
    {
        let mut out: Vec<String> = Vec::new();
        let mut i: usize = 0;
        while i < self.items.len()
            invariant
                i <= self.items@.len(),
                out@.len() == i,
                forall|j: int|
                    0 <= j < i ==> #[trigger] out@[j]@ == (if j == self.selection {
                        selected_glyph@
                    } else {
                        unselected_glyph@
                    }) + seq![' '] + self.items@[j]@,
            decreases self.items@.len() - i,
        {
            let glyph = if i == self.selection {
                selected_glyph
            } else {
                unselected_glyph
            };
            let head = concat(glyph, " ");
            proof {
                reveal_strlit(" ");
            }
            let line = concat(head.as_str(), self.items[i].as_str());
            out.push(line);
            i = i + 1;
        }
        out
    }
}

/// Moving down then up from a selection that is not the last comes back to
/// it; Home and End reach the first and last items.
pub proof fn lemma_list_navigation(sel: nat, len: nat)
    requires
        sel + 1 < len,
    ensures
        navigated(navigated(sel, len, KeyCode::Down), len, KeyCode::Up) == sel,
        navigated(sel, len, KeyCode::Home) == 0,
        navigated(sel, len, KeyCode::End) == len - 1,
{
}

/// Every navigation key keeps the selection on an item.
pub proof fn lemma_navigation_stays_in_list(sel: nat, len: nat, code: KeyCode)
    requires
        sel < len,
    ensures
        navigated(sel, len, code) < len,
{
}

impl Clone for List {
    /// An independent copy of the list as it is now.
    fn clone(&self) -> (l: List)
        ensures
            crate::text::string_views(l.items@) == crate::text::string_views(self.items@),
            l.selection == self.selection,
            l.focused == self.focused,
            l.bordered == self.bordered,
    {
        List {
            items: crate::text::clone_strings(&self.items),
            selection: self.selection,
            focused: self.focused,
            bordered: self.bordered,
        }
    }
}

} // verus!

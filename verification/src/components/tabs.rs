//! A tab bar: selection, per-tab hover and disabled states, and its drawing
//! as a surface of boxed labels.

use vstd::prelude::*;
use crate::surface::{Cell, CellView, Surface, row_view, grid_columns, lemma_map_push};
use crate::text::{char_to_string, chars_of, concat, utf8_len, utf8_len_of};
use crate::tui::{Color, KeyCode, Modifier, MouseButton, MouseEvent, MouseEventKind, Rect, Style, empty_style};

verus! {

/// How a tab is drawn.
#[derive(Debug, Clone, Copy, PartialEq, Eq, Structural)]
pub enum TabState {
    Default,
    Hovered,
    Selected,
    Disabled,
}

/// What a tab bar tells its listeners.
#[derive(Debug, Clone, Copy, PartialEq, Eq, Structural)]
pub enum TabsEvent {
    Select(usize),
    TabHover(usize),
    TabLeave,
}

/// A tab bar: its labels, the active tab, each tab's state and whether it
/// is disabled, and an id.
pub struct Tabs {
    pub labels: Vec<String>,
    pub active: usize,
    pub states: Vec<TabState>,
    pub disabled: Vec<bool>,
    pub id: String,
}

/// The state of tab `i` (the default one for a tab that does not exist).
pub open spec fn state_at(states: Seq<TabState>, i: int) -> TabState {
    if 0 <= i < states.len() { states[i] } else { TabState::Default }
}

/// Whether tab `i` is disabled (no for a tab that does not exist).
pub open spec fn disabled_at(d: Seq<bool>, i: int) -> bool {
    if 0 <= i < d.len() { d[i] } else { false }
}

/// The states after selecting tab `idx`: it is selected, every other tab is
/// back to the default state.
pub open spec fn selected_states(n: nat, idx: int) -> Seq<TabState> {
    Seq::new(n, |i: int| if i == idx { TabState::Selected } else { TabState::Default })
}

/// The tab a key or click lands on after clamping to the last tab.
pub open spec fn clamp_tab(idx: nat, n: nat) -> nat {
    let last: nat = if n > 0 { (n - 1) as nat } else { 0 };
    if idx < last { idx } else { last }
}

/// The state tab `i` takes when the pointer moves over tab `h`.
pub open spec fn moved_state(d: Seq<bool>, active: nat, h: nat, i: int) -> TabState {
    if i == h && !disabled_at(d, i) {
        TabState::Hovered
    } else if i == active {
        TabState::Selected
    } else {
        TabState::Default
    }
}

/// The events of a change of tab states, tab by tab up to `n`: a tab that
/// becomes hovered reports it, a tab that stops being hovered reports a
/// leave.
pub open spec fn hover_events(old: Seq<TabState>, new: Seq<TabState>, n: int) -> Seq<TabsEvent>
    decreases n,
{
    if n <= 0 {
        seq![]
    } else {
        let i = n - 1;
        let rest = hover_events(old, new, i);
        if old[i] != new[i] {
            if new[i] == TabState::Hovered {
                rest.push(TabsEvent::TabHover(i as usize))
            } else if old[i] == TabState::Hovered {
                rest.push(TabsEvent::TabLeave)
            } else {
                rest
            }
        } else {
            rest
        }
    }
}

/// The tab under column `column` of `area`, where the tabs share its width
/// equally: at most the last tab.
pub open spec fn tab_under(area: Rect, column: u16, n: nat) -> nat {
    let count: nat = if n > 1 { n } else { 1 };
    let tab_w: nat = area.width as nat / count;
    let w: nat = if tab_w > 1 { tab_w } else { 1 };
    clamp_tab(((column - area.x) as nat) / w, n)
}

impl Tabs {
    /// One state and one disabled flag per tab.
    pub open spec fn wf(&self) -> bool {
        &&& self.states@.len() == self.labels@.len()
        &&& self.disabled@.len() == self.labels@.len()
    }

    /// A tab bar of `labels`, the first active, every tab in the default
    /// state and enabled, with the id `tabs`.
    pub fn new(labels: Vec<String>) -> (t: Tabs)
        ensures
            t.labels@ == labels@,
            t.active == 0,
            t.states@ == Seq::new(labels@.len(), |i: int| TabState::Default),
            t.disabled@ == Seq::new(labels@.len(), |i: int| false),
            t.id@ == seq!['t', 'a', 'b', 's'],
            t.wf(),
    {
        let n = labels.len();
        let mut states: Vec<TabState> = Vec::new();
        let mut disabled: Vec<bool> = Vec::new();
        let mut i: usize = 0;
        while i < n
            invariant
                i <= n,
                states@ == Seq::new(i as nat, |k: int| TabState::Default),
                disabled@ == Seq::new(i as nat, |k: int| false),
            decreases n - i,
        {
            states.push(TabState::Default);
            disabled.push(false);
            assert(states@ =~= Seq::new((i + 1) as nat, |k: int| TabState::Default));
            assert(disabled@ =~= Seq::new((i + 1) as nat, |k: int| false));
            i = i + 1;
        }
        proof {
            reveal_strlit("tabs");
        }
        Tabs { labels, active: 0, states, disabled, id: "tabs".to_owned() }
    }

    /// The tab bar's id.
    pub fn id(&self) -> (s: &str)
        ensures
            s@ == self.id@,
    {
        self.id.as_str()
    }

    /// This tab bar with another id.
    pub fn id_as(self, id: &str) -> (t: Tabs)
        ensures
            t.id@ == id@,
            t.labels == self.labels,
            t.active == self.active,
            t.states == self.states,
            t.disabled == self.disabled,
    {
        Tabs { id: id.to_owned(), ..self }
    }

    /// This tab bar with another active tab.
    pub fn active(self, idx: usize) -> (t: Tabs)
        ensures
            t == (Tabs { active: idx, ..self }),
    {
        Tabs { active: idx, ..self }
    }

    /// The active tab.
    pub fn current(&self) -> (i: usize)
        ensures
            i == self.active,
    {
        self.active
    }

    /// The state of tab `idx` (see [`state_at`]).
    pub fn state_of(&self, idx: usize) -> (s: TabState)
        ensures
            s == state_at(self.states@, idx as int),
    {
        if idx < self.states.len() {
            self.states[idx]
        } else {
            TabState::Default
        }
    }

    /// Whether tab `idx` is disabled (see [`disabled_at`]).
    pub fn is_disabled(&self, idx: usize) -> (b: bool)
        ensures
            b == disabled_at(self.disabled@, idx as int),
    {
        if idx < self.disabled.len() {
            self.disabled[idx]
        } else {
            false
        }
    }

    /// Makes tab `idx` (at most the last) active and selected, every other
    /// tab default.
    pub fn select(&mut self, idx: usize) -> (ev: TabsEvent)
        requires
            old(self).wf(),
        ensures
            final(self).wf(),
            final(self).active == clamp_tab(idx as nat, old(self).labels@.len()),
            final(self).states@ == selected_states(old(self).labels@.len(), final(self).active as int),
            ev == TabsEvent::Select(final(self).active),
            final(self).labels == old(self).labels,
            final(self).disabled == old(self).disabled,
            final(self).id == old(self).id,
    {
        let n = self.labels.len();
        let last = n.saturating_sub(1);
        let idx = if idx < last {
            idx
        } else {
            last
        };
        self.active = idx;
        let mut i: usize = 0;
        while i < n
            invariant
                n == self.labels@.len(),
                self.states@.len() == n,
                i <= n,
                forall|k: int| 0 <= k < i ==> self.states@[k] == selected_states(n as nat, idx as int)[k],
                self.labels == old(self).labels,
                self.disabled == old(self).disabled,
                self.id == old(self).id,
                self.active == idx,
                self.disabled@.len() == n,
            decreases n - i,
        {
            let st = if i == idx {
                TabState::Selected
            } else {
                TabState::Default
            };
            self.states.set(i, st);
            i = i + 1;
        }
        assert(self.states@ =~= selected_states(n as nat, idx as int));
        TabsEvent::Select(idx)
    }

    /// Disables tab `idx`, where it exists.
    pub fn disable_tab(&mut self, idx: usize)
        requires
            old(self).wf(),
        ensures
            final(self).wf(),
            idx < old(self).labels@.len() ==> final(self).disabled@ == old(self).disabled@.update(idx as int, true)
                && final(self).states@ == old(self).states@.update(idx as int, TabState::Disabled),
            idx >= old(self).labels@.len() ==> final(self).disabled == old(self).disabled && final(self).states
                == old(self).states,
            final(self).labels == old(self).labels,
            final(self).active == old(self).active,
            final(self).id == old(self).id,
    {
        if idx < self.disabled.len() {
            self.disabled.set(idx, true);
            self.states.set(idx, TabState::Disabled);
        }
    }

    /// Enables tab `idx`, where it exists, in the default state.
    pub fn enable_tab(&mut self, idx: usize)
        requires
            old(self).wf(),
        ensures
            final(self).wf(),
            idx < old(self).labels@.len() ==> final(self).disabled@ == old(self).disabled@.update(idx as int, false)
                && final(self).states@ == old(self).states@.update(idx as int, TabState::Default),
            idx >= old(self).labels@.len() ==> final(self).disabled == old(self).disabled && final(self).states
                == old(self).states,
            final(self).labels == old(self).labels,
            final(self).active == old(self).active,
            final(self).id == old(self).id,
    {
        if idx < self.disabled.len() {
            self.disabled.set(idx, false);
            self.states.set(idx, TabState::Default);
        }
    }

    /// Handles a key: Left and Right select the neighbouring tab.
    pub fn on_key(&mut self, code: KeyCode) -> (ev: Option<TabsEvent>)
        requires
            old(self).wf(),
        ensures
            final(self).wf(),
            final(self).labels == old(self).labels,
            final(self).disabled == old(self).disabled,
            ({
                let n = old(self).labels@.len();
                let a = old(self).active as nat;
                if n > 0 && (code == KeyCode::Left || code == KeyCode::Right) {
                    let target: nat = if code == KeyCode::Left {
                        if a > 0 { (a - 1) as nat } else { 0 }
                    } else {
                        clamp_tab(a + 1, n)
                    };
                    &&& final(self).active == clamp_tab(target, n)
                    &&& final(self).states@ == selected_states(n, final(self).active as int)
                    &&& ev == Some(TabsEvent::Select(final(self).active))
                } else {
                    *final(self) == *old(self) && ev is None
                }
            }),
    {
        let n = self.labels.len();
        if n == 0 {
            return None;
        }
        let cur = self.active;
        let last = n - 1;
        match code {
            KeyCode::Left => Some(self.select(cur.saturating_sub(1))),
            KeyCode::Right => {
                let next = if cur < last {
                    cur + 1
                } else {
                    last
                };
                Some(self.select(next))
            },
            _ => None,
        }
    }

    /// Handles a mouse event over the bar's `area`: outside, a move ends any
    /// hover; inside, a left press selects the enabled tab under the
    /// pointer, and a move hovers it (see [`moved_state`], [`hover_events`]).
    pub fn on_mouse(&mut self, area: Rect, ev: &MouseEvent) -> (out: Vec<TabsEvent>)
        requires
            old(self).wf(),
        ensures
            final(self).wf(),
            final(self).labels == old(self).labels,
            final(self).disabled == old(self).disabled,
            final(self).id == old(self).id,
            ({
                let n = old(self).labels@.len();
                if !area.spec_contains(ev.column, ev.row) {
                    if ev.kind is Moved && exists|i: int| 0 <= i < n && old(self).states@[i] == TabState::Hovered {
                        &&& final(self).active == old(self).active
                        &&& final(self).states@ == Seq::new(
                            n,
                            |i: int|
                                if old(self).states@[i] == TabState::Hovered {
                                    TabState::Default
                                } else {
                                    old(self).states@[i]
                                },
                        )
                        &&& out@ == seq![TabsEvent::TabLeave]
                    } else {
                        *final(self) == *old(self) && out@.len() == 0
                    }
                } else {
                    let h = tab_under(area, ev.column, n);
                    match ev.kind {
                        MouseEventKind::Down(MouseButton::Left) => if !disabled_at(old(self).disabled@, h as int) {
                            &&& final(self).active == clamp_tab(h, n)
                            &&& final(self).states@ == selected_states(n, final(self).active as int)
                            &&& out@ == seq![TabsEvent::Select(final(self).active)]
                        } else {
                            *final(self) == *old(self) && out@.len() == 0
                        },
                        MouseEventKind::Moved => {
                            let new = Seq::new(
                                n,
                                |i: int| moved_state(old(self).disabled@, old(self).active as nat, h, i),
                            );
                            &&& final(self).active == old(self).active
                            &&& final(self).states@ == new
                            &&& out@ == hover_events(old(self).states@, new, n as int)
                        },
                        _ => *final(self) == *old(self) && out@.len() == 0,
                    }
                }
            }),
    {
        let n = self.labels.len();
        let mut out: Vec<TabsEvent> = Vec::new();
        if !area.contains(ev.column, ev.row) {
            if let MouseEventKind::Moved = ev.kind {
                let mut any = false;
                let mut i: usize = 0;
                while i < n
                    invariant
                        n == self.labels@.len(),
                        self.wf(),
                        i <= n,
                        *self == *old(self),
                        any == exists|k: int| 0 <= k < i && self.states@[k] == TabState::Hovered,
                    decreases n - i,
                {
                    if self.states[i] == TabState::Hovered {
                        any = true;
                    }
                    i = i + 1;
                }
                if any {
                    let mut j: usize = 0;
                    while j < n
                        invariant
                            n == old(self).labels@.len(),
                            j <= n,
                            self.states@.len() == n,
                            self.labels == old(self).labels,
                            self.disabled == old(self).disabled,
                            self.id == old(self).id,
                            self.active == old(self).active,
                            old(self).wf(),
                            forall|k: int|
                                0 <= k < n ==> #[trigger] self.states@[k] == if k < j && old(self).states@[k]
                                    == TabState::Hovered {
                                    TabState::Default
                                } else {
                                    old(self).states@[k]
                                },
                        decreases n - j,
                    {
                        if self.states[j] == TabState::Hovered {
                            self.states.set(j, TabState::Default);
                        }
                        j = j + 1;
                    }
                    out.push(TabsEvent::TabLeave);
                    proof {
                        assert(self.states@ =~= Seq::new(
                            n as nat,
                            |i: int|
                                if old(self).states@[i] == TabState::Hovered {
                                    TabState::Default
                                } else {
                                    old(self).states@[i]
                                },
                        ));
                        assert(out@ =~= seq![TabsEvent::TabLeave]);
                    }
                }
            }
            return out;
        }
        let count = if n > 1 {
            n
        } else {
            1
        };
        let tab_w = area.width as usize / count;
        let w = if tab_w > 1 {
            tab_w
        } else {
            1
        };
        let rel = (ev.column - area.left()) as usize / w;
        let last = n.saturating_sub(1);
        let h = if rel < last {
            rel
        } else {
            last
        };
        match ev.kind {
            MouseEventKind::Down(MouseButton::Left) => {
                if !self.is_disabled(h) {
                    let e = self.select(h);
                    out.push(e);
                    proof {
                        assert(out@ =~= seq![TabsEvent::Select(self.active)]);
                    }
                }
            },
            MouseEventKind::Moved => {
                let active = self.active;
                let ghost new = Seq::new(n as nat, |i: int| moved_state(old(self).disabled@, active as nat, h as nat, i));
                let mut i: usize = 0;
                while i < n
                    invariant
                        n == old(self).labels@.len(),
                        i <= n,
                        self.states@.len() == n,
                        self.labels == old(self).labels,
                        self.disabled == old(self).disabled,
                        self.id == old(self).id,
                        self.active == old(self).active,
                        active == old(self).active,
                        old(self).wf(),
                        new == Seq::new(n as nat, |i: int| moved_state(old(self).disabled@, active as nat, h as nat, i)),
                        forall|k: int| 0 <= k < n ==> #[trigger] self.states@[k] == if k < i { new[k] } else { old(self).states@[k] },
                        out@ == hover_events(old(self).states@, new, i as int),
                    decreases n - i,
                {
                    let new_state = if i == h && !self.disabled[i] {
                        TabState::Hovered
                    } else if i == active {
                        TabState::Selected
                    } else {
                        TabState::Default
                    };
                    let old_state = self.states[i];
                    assert(new_state == new[i as int]);
                    if old_state != new_state {
                        self.states.set(i, new_state);
                        if new_state == TabState::Hovered {
                            out.push(TabsEvent::TabHover(i));
                        } else if old_state == TabState::Hovered {
                            out.push(TabsEvent::TabLeave);
                        }
                    }
                    i = i + 1;
                }
                assert(self.states@ =~= new);
            },
            _ => {},
        }
        out
    }

    /// The text drawn for each tab: a bar, a space, the label and a space.
    pub fn tab_texts(&self) -> (out: Vec<String>)
        ensures
            out@.len() == self.labels@.len(),
            forall|i: int|
                0 <= i < out@.len() ==> (#[trigger] out@[i])@ == seq!['│', ' '] + self.labels@[i]@ + seq![' '],
    {
        proof {
            reveal_strlit("│ ");
            reveal_strlit(" ");
            assert("│ "@ =~= seq!['│', ' ']);
            assert(" "@ =~= seq![' ']);
        }
        let mut out: Vec<String> = Vec::new();
        let mut i: usize = 0;
        while i < self.labels.len()
            invariant
                i <= self.labels@.len(),
                out@.len() == i,
                "│ "@ == seq!['│', ' '],
                " "@ == seq![' '],
                forall|k: int| 0 <= k < i ==> (#[trigger] out@[k])@ == seq!['│', ' '] + self.labels@[k]@ + seq![' '],
            decreases self.labels@.len() - i,
        {
            let a = concat("│ ", self.labels[i].as_str());
            let b = concat(a.as_str(), " ");
            out.push(b);
            i = i + 1;
        }
        out
    }
}

/// The plain and highlighted styles of a tab in a state.
pub open spec fn tab_styles(st: TabState) -> (Style, Style) {
    let white = Style { fg: Some(Color::White), ..empty_style() };
    match st {
        TabState::Disabled => (Style { fg: Some(Color::Gray), ..empty_style() }, Style { fg: Some(Color::Gray), ..empty_style() }),
        TabState::Hovered => (
            white,
            Style { add_modifier: Modifier { bits: 0u16 | 64u16 }, sub_modifier: Modifier { bits: 0u16 & !64u16 }, ..white },
        ),
        TabState::Selected => (
            white,
            Style { add_modifier: Modifier { bits: 0u16 | 1u16 }, sub_modifier: Modifier { bits: 0u16 & !1u16 }, ..white },
        ),
        TabState::Default => (white, white),
    }
}

fn tab_styles_exec(st: TabState) -> (r: (Style, Style))
    ensures
        r == tab_styles(st),
{
    let white = Style::new().fg(Color::White);
    match st {
        TabState::Disabled => (Style::new().fg(Color::Gray), Style::new().fg(Color::Gray)),
        TabState::Hovered => (white, white.add_modifier(Modifier::reversed())),
        TabState::Selected => (white, white.add_modifier(Modifier::bold())),
        TabState::Default => (white, white),
    }
}

/// A cell of one character.
pub open spec fn glyph(c: char, style: Style) -> CellView {
    CellView { symbol: seq![c], style }
}

/// `n` copies of a cell.
pub open spec fn repeated(n: nat, c: CellView) -> Seq<CellView> {
    Seq::new(n, |i: int| c)
}

/// A tab's part of one of the bar's three rows (0 top, 1 label, 2 bottom):
/// a box around the label, padded by a space each side, its top edge as
/// wide as the label's UTF-8 bytes plus two; the active tab's box is open at
/// the bottom.
pub open spec fn tab_part(k: int, label: Seq<char>, st: TabState, is_active: bool) -> Seq<CellView> {
    let (ts, hs) = tab_styles(st);
    let w = utf8_len(label) + 2;
    if k == 0 {
        seq![glyph('╭', ts)] + repeated(w, glyph('─', ts)) + seq![glyph('╮', ts)]
    } else if k == 1 {
        let s = if is_active { hs } else { ts };
        seq![glyph('│', s), glyph(' ', s)] + label.map_values(|c: char| glyph(c, s)) + seq![glyph(' ', s), glyph('│', s)]
    } else {
        let edge = if is_active { ' ' } else { '─' };
        let bl = if is_active { '┘' } else { '┴' };
        let br = if is_active { '└' } else { '┴' };
        seq![glyph(bl, ts)] + repeated(w, glyph(edge, ts)) + seq![glyph(br, ts)]
    }
}

/// Row `k` of the bar for the first `n` tabs.
pub open spec fn tabs_row(k: int, labels: Seq<String>, states: Seq<TabState>, active: nat, n: int) -> Seq<CellView>
    decreases n,
{
    if n <= 0 {
        seq![]
    } else {
        tabs_row(k, labels, states, active, n - 1) + tab_part(k, labels[n - 1]@, state_at(states, n - 1), active == n - 1)
    }
}

/// The bar drawn as a surface: its three rows, each padded on the right to
/// 96 columns where narrower; the padding of the bottom row continues the
/// line unless the last tab is active.
pub open spec fn tabs_surface(labels: Seq<String>, states: Seq<TabState>, active: nat) -> Seq<Seq<CellView>> {
    let n = labels.len() as int;
    let rows = seq![tabs_row(0, labels, states, active, n), tabs_row(1, labels, states, active, n), tabs_row(2, labels, states, active, n)];
    let cols = grid_columns(rows);
    if cols >= 96 {
        rows
    } else {
        let gap = (96 - cols) as nat;
        let blank = repeated(gap, glyph(' ', empty_style()));
        let last: nat = if labels.len() > 0 { (labels.len() - 1) as nat } else { 0 };
        let bottom = if active == last { blank } else { repeated(gap, glyph('─', Style { fg: Some(Color::White), ..empty_style() })) };
        seq![rows[0] + blank, rows[1] + blank, rows[2] + bottom]
    }
}

fn push_glyph(row: &mut Vec<Cell>, c: char, style: Style)
    ensures
        row_view(*final(row)) == row_view(*old(row)).push(glyph(c, style)),
{
    let ghost before = *row;
    let cell = Cell::new(char_to_string(c), style);
    row.push(cell);
    proof {
        lemma_map_push(before@, cell, |c: Cell| c@);
    }
}

fn push_repeated(row: &mut Vec<Cell>, n: u128, c: char, style: Style)
    ensures
        row_view(*final(row)) == row_view(*old(row)) + repeated(n as nat, glyph(c, style)),
{
    let mut k: u128 = 0;
    let ghost start = row_view(*row);
    while k < n
        invariant
            k <= n,
            row_view(*row) == start + repeated(k as nat, glyph(c, style)),
        decreases n - k,
    {
        push_glyph(row, c, style);
        assert(repeated((k + 1) as nat, glyph(c, style)) =~= repeated(k as nat, glyph(c, style)).push(glyph(c, style)));
        k = k + 1;
    }
}

impl Tabs {
    /// The bar drawn as a surface (see [`tabs_surface`]).
    pub fn render_to_surface(&self) -> (s: Surface)
        requires
            self.wf(),
        ensures
            s@ == tabs_surface(self.labels@, self.states@, self.active as nat),
    {
        let n = self.labels.len();
        let mut line1: Vec<Cell> = Vec::new();
        let mut line2: Vec<Cell> = Vec::new();
        let mut line3: Vec<Cell> = Vec::new();
        let mut i: usize = 0;
        while i < n
            invariant
                n == self.labels@.len(),
                self.wf(),
                i <= n,
                row_view(line1) == tabs_row(0, self.labels@, self.states@, self.active as nat, i as int),
                row_view(line2) == tabs_row(1, self.labels@, self.states@, self.active as nat, i as int),
                row_view(line3) == tabs_row(2, self.labels@, self.states@, self.active as nat, i as int),
            decreases n - i,
        {
            let st = self.state_of(i);
            let (ts, hs) = tab_styles_exec(st);
            let is_active = self.active == i;
            let label = chars_of(self.labels[i].as_str());
            let w = utf8_len_of(&label) + 2;
            let ghost l1 = row_view(line1);
            let ghost l2 = row_view(line2);
            let ghost l3 = row_view(line3);
            push_glyph(&mut line1, '╭', ts);
            push_repeated(&mut line1, w, '─', ts);
            push_glyph(&mut line1, '╮', ts);
            proof {
                assert(row_view(line1) =~= l1 + tab_part(0, self.labels@[i as int]@, st, is_active));
            }
            let s = if is_active {
                hs
            } else {
                ts
            };
            push_glyph(&mut line2, '│', s);
            push_glyph(&mut line2, ' ', s);
            let mut k: usize = 0;
            let ghost mid = row_view(line2);
            while k < label.len()
                invariant
                    k <= label@.len(),
                    row_view(line2) == mid + label@.take(k as int).map_values(|c: char| glyph(c, s)),
                decreases label@.len() - k,
            {
                push_glyph(&mut line2, label[k], s);
                assert(label@.take(k + 1) =~= label@.take(k as int).push(label@[k as int]));
                proof {
                    lemma_map_push(label@.take(k as int), label@[k as int], |c: char| glyph(c, s));
                }
                k = k + 1;
            }
            assert(label@.take(label@.len() as int) =~= label@);
            push_glyph(&mut line2, ' ', s);
            push_glyph(&mut line2, '│', s);
            proof {
                assert(row_view(line2) =~= l2 + tab_part(1, self.labels@[i as int]@, st, is_active));
            }
            let edge = if is_active {
                ' '
            } else {
                '─'
            };
            let bl = if is_active {
                '┘'
            } else {
                '┴'
            };
            let br = if is_active {
                '└'
            } else {
                '┴'
            };
            push_glyph(&mut line3, bl, ts);
            push_repeated(&mut line3, w, edge, ts);
            push_glyph(&mut line3, br, ts);
            proof {
                assert(row_view(line3) =~= l3 + tab_part(2, self.labels@[i as int]@, st, is_active));
            }
            i = i + 1;
        }
        let mut rows: Vec<Vec<Cell>> = Vec::new();
        rows.push(line1);
        rows.push(line2);
        rows.push(line3);
        let mut surface = Surface { rows };
        let ghost base = seq![
            tabs_row(0, self.labels@, self.states@, self.active as nat, n as int),
            tabs_row(1, self.labels@, self.states@, self.active as nat, n as int),
            tabs_row(2, self.labels@, self.states@, self.active as nat, n as int),
        ];
        assert(surface@ =~= base);
        let cols = surface.columns();
        if cols < 96 {
            let gap = 96 - cols;
            let last = n.saturating_sub(1);
            let mut r0 = Vec::new();
            let mut r1 = Vec::new();
            let mut r2 = Vec::new();
            std::mem::swap(&mut r0, &mut surface.rows[0]);
            std::mem::swap(&mut r1, &mut surface.rows[1]);
            std::mem::swap(&mut r2, &mut surface.rows[2]);
            push_repeated(&mut r0, gap as u128, ' ', Style::new());
            push_repeated(&mut r1, gap as u128, ' ', Style::new());
            if self.active == last {
                push_repeated(&mut r2, gap as u128, ' ', Style::new());
            } else {
                push_repeated(&mut r2, gap as u128, '─', Style::new().fg(Color::White));
            }
            let mut rows2: Vec<Vec<Cell>> = Vec::new();
            rows2.push(r0);
            rows2.push(r1);
            rows2.push(r2);
            let out = Surface { rows: rows2 };
            assert(out@ =~= tabs_surface(self.labels@, self.states@, self.active as nat));
            out
        } else {
            surface
        }
    }
}

/// After a key, the selected tab is the active one and the only selected
/// one.
pub proof fn lemma_select_marks_one(n: nat, idx: nat)
    requires
        idx < n,
    ensures
        forall|i: int| 0 <= i < n ==> (selected_states(n, idx as int)[i] == TabState::Selected <==> i == idx),
{
}

impl Clone for Tabs {
    /// An independent copy of the tab bar as it is now, its id followed by
    /// `-clone`.
    fn clone(&self) -> (t: Tabs)
        ensures
            crate::text::string_views(t.labels@) == crate::text::string_views(self.labels@),
            t.active == self.active,
            t.states@ == self.states@,
            t.disabled@ == self.disabled@,
            t.id@ == self.id@ + seq!['-', 'c', 'l', 'o', 'n', 'e'],
    {
        proof {
            reveal_strlit("-clone");
        }
        Tabs {
            labels: crate::text::clone_strings(&self.labels),
            active: self.active,
            states: crate::text::copy_vec(&self.states),
            disabled: crate::text::copy_vec(&self.disabled),
            id: crate::text::concat(self.id.as_str(), "-clone"),
        }
    }
}

} // verus!

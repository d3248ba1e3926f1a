//! A centred modal dialog with a row of buttons.

use vstd::prelude::*;
use crate::tui::{KeyCode, Margin, MouseEvent, MouseEventKind, Rect};

verus! {

/// The buttons a dialog offers.
#[derive(Debug, Clone)]
pub enum DialogButtons {
    Okay,
    YesNo,
    OkCancel,
    Custom(Vec<String>),
}

/// The labels of a set of dialog buttons, left to right.
pub open spec fn button_labels_of(b: DialogButtons) -> Seq<Seq<char>> {
    match b {
        DialogButtons::Okay => seq![seq!['O', 'K']],
        DialogButtons::YesNo => seq![seq!['Y', 'e', 's'], seq!['N', 'o']],
        DialogButtons::OkCancel => seq![seq!['O', 'K'], seq!['C', 'a', 'n', 'c', 'e', 'l']],
        DialogButtons::Custom(v) => v@.map_values(|s: String| s@),
    }
}

/// The columns taken by the first `i` lengths.
pub open spec fn lengths_before(lengths: Seq<u16>, i: int) -> int
    decreases i,
{
    if i <= 0 || i > lengths.len() { 0 } else { lengths_before(lengths, i - 1) + lengths[i - 1] }
}

/// Whether `lengths` fit side by side in `area`, `spacing` columns apart,
/// with the area within the terminal's coordinates.
pub open spec fn row_has_room(area: Rect, lengths: Seq<u16>, spacing: u16) -> bool {
    &&& spacing <= i16::MAX
    &&& area.x + area.width <= u16::MAX
    &&& lengths.len() > 0 ==> lengths_before(lengths, lengths.len() as int) + spacing * (lengths.len() - 1)
        <= area.width
}

/// Rectangles of the given lengths packed left to right from the start of
/// `area`, `spacing` columns apart, each on the area's line and as high.
pub open spec fn packed_row(area: Rect, lengths: Seq<u16>, spacing: u16) -> Seq<Rect> {
    Seq::new(
        lengths.len(),
        |i: int|
            Rect {
                x: (area.x + lengths_before(lengths, i) + spacing * i) as u16,
                y: area.y,
                width: lengths[i],
                height: area.height,
            },
    )
}

/// Whether each slot lies within `area`: on its line, as high, and within
/// its columns.
pub open spec fn slots_in_row(slots: Seq<Rect>, area: Rect) -> bool {
    forall|i: int|
        0 <= i < slots.len() ==> {
            &&& (#[trigger] slots[i]).y == area.y
            &&& slots[i].height == area.height
            &&& area.x <= slots[i].x
            &&& slots[i].x + slots[i].width <= area.x + area.width
        }
}

/// Lays rectangles of the given lengths out left to right across `area`,
/// `spacing` columns apart.
///
/// Calls `ratatui::layout::Layout::split` on a horizontal layout (ratatui's
/// default `Flex::Start`) with one `Constraint::Length` per length and the
/// given spacing. Its source returns one rectangle per constraint, on the
/// area's line and as high as the area, each within the area's columns (its
/// variables are held within the area by required constraints). Where the
/// lengths and the spacing fit in the area, the solver's optimum is unique:
/// the first spacer empty, every length and spacing met, the rectangles
/// packed from the start (see [`packed_row`]). Where they do not fit, which
/// rectangles shrink is chosen among equally good layouts in an order that
/// varies from process to process, and is left unsaid; so is the order of
/// the rectangles, which the source does not require.
#[verifier::external_body]
fn layout_row(area: Rect, lengths: &Vec<u16>, spacing: u16) -> (r: Vec<Rect>)
    ensures
        r@.len() == lengths@.len(),
        slots_in_row(r@, area),
        row_has_room(area, lengths@, spacing) ==> r@ == packed_row(area, lengths@, spacing),
{
    let constraints: Vec<ratatui::layout::Constraint> = lengths.iter().map(|l| ratatui::layout::Constraint::Length(*l)).collect();
    let layout = ratatui::layout::Layout::horizontal(constraints).spacing(spacing);
    let area = ratatui::layout::Rect { x: area.x, y: area.y, width: area.width, height: area.height };
    layout.split(area).iter().map(|r| Rect { x: r.x, y: r.y, width: r.width, height: r.height }).collect()
}

/// The columns of a dialog button.
pub const BUTTON_WIDTH: u16 = 10;

/// The columns between dialog buttons.
pub const BUTTON_SPACING: u16 = 2;

/// Whether the button row `btns` has room for `count` buttons side by side.
pub open spec fn buttons_fit(btns: Rect, count: nat) -> bool {
    &&& btns.x + btns.width <= u16::MAX
    &&& count > 0 ==> 12 * count <= btns.width + 2
}

/// Where `count` buttons go in a row with room for them: packed from the
/// left, 10 columns wide, 2 apart.
pub open spec fn button_slots(btns: Rect, count: nat) -> Seq<Rect> {
    Seq::new(count, |i: int| Rect { x: (btns.x + 12 * i) as u16, y: btns.y, width: 10, height: btns.height })
}

/// Slots for `count` buttons in the row `btns`, as the layout gives them:
/// one per button, each within the row, and where the row has room, the
/// buttons packed from the left (see [`button_slots`]).
pub open spec fn row_slots(slots: Seq<Rect>, btns: Rect, count: nat) -> bool {
    &&& slots.len() == count
    &&& slots_in_row(slots, btns)
    &&& buttons_fit(btns, count) ==> slots == button_slots(btns, count)
}

/// `n` copies of the button width.
pub open spec fn button_lengths(n: nat) -> Seq<u16> {
    Seq::new(n, |i: int| BUTTON_WIDTH)
}

/// The columns taken by the first `i` of `n` buttons.
proof fn lemma_lengths_before_buttons(n: nat, i: int)
    requires
        0 <= i <= n,
    ensures
        lengths_before(button_lengths(n), i) == 10 * i,
    decreases i,
{
    if i > 0 {
        lemma_lengths_before_buttons(n, i - 1);
    }
}

/// The layout of `count` buttons, where the row has room for them, is the
/// dialog's packing.
proof fn lemma_button_row_packed(btns: Rect, count: nat)
    ensures
        row_has_room(btns, button_lengths(count), BUTTON_SPACING) == buttons_fit(btns, count),
        packed_row(btns, button_lengths(count), BUTTON_SPACING) == button_slots(btns, count),
{
    if count > 0 {
        lemma_lengths_before_buttons(count, count as int);
    }
    assert forall|i: int| 0 <= i < count implies #[trigger] packed_row(btns, button_lengths(count), BUTTON_SPACING)[i]
        == button_slots(btns, count)[i] by {
        lemma_lengths_before_buttons(count, i);
    }
    assert(packed_row(btns, button_lengths(count), BUTTON_SPACING) =~= button_slots(btns, count));
}

/// Packed buttons lie within a row that has room for them.
proof fn lemma_button_slots_in_row(btns: Rect, count: nat)
    requires
        buttons_fit(btns, count),
    ensures
        row_slots(button_slots(btns, count), btns, count),
{
    assert forall|i: int| 0 <= i < count implies {
        &&& (#[trigger] button_slots(btns, count)[i]).y == btns.y
        &&& button_slots(btns, count)[i].height == btns.height
        &&& btns.x <= button_slots(btns, count)[i].x
        &&& button_slots(btns, count)[i].x + button_slots(btns, count)[i].width <= btns.x + btns.width
    } by {
        assert(12 * i + 10 <= 12 * count - 2) by (nonlinear_arith)
            requires
                0 <= i < count,
        ;
    }
}

/// Lays `count` buttons out in the row `btns` (see [`row_slots`]).
fn split_button_row(btns: Rect, count: usize) -> (r: Vec<Rect>)
    ensures
        row_slots(r@, btns, count as nat),
{
    let mut lengths: Vec<u16> = Vec::new();
    let mut i: usize = 0;
    while i < count
        invariant
            i <= count,
            lengths@ == button_lengths(i as nat),
        decreases count - i,
    {
        lengths.push(BUTTON_WIDTH);
        assert(lengths@ =~= button_lengths((i + 1) as nat));
        i = i + 1;
    }
    let r = layout_row(btns, &lengths, BUTTON_SPACING);
    proof {
        lemma_button_row_packed(btns, count as nat);
    }
    r
}

/// A modal dialog: title, body, buttons, the selected button, whether it is
/// shown, and its size.
#[derive(Debug, Clone)]
pub struct Modal {
    pub title: String,
    pub body: String,
    pub buttons: DialogButtons,
    pub selected: usize,
    pub visible: bool,
    pub width: u16,
    pub height: u16,
}

/// Where a dialog of the given size sits in `area`: centred, shrunk to the
/// area where it is larger.
pub open spec fn modal_frame(area: Rect, width: u16, height: u16) -> Rect {
    let w: int = if area.width > width { area.width - width } else { 0 };
    let h: int = if area.height > height { area.height - height } else { 0 };
    Rect {
        x: (area.x + w / 2) as u16,
        y: (area.y + h / 2) as u16,
        width: if width < area.width { width } else { area.width },
        height: if height < area.height { height } else { area.height },
    }
}

/// The inside of a dialog: two columns and one row in from each edge.
pub open spec fn modal_inner(frame: Rect) -> Rect {
    frame.spec_inner(Margin { horizontal: 2, vertical: 1 })
}

/// The three rows at the bottom of the inside where the buttons go.
pub open spec fn modal_button_area(inner: Rect) -> Rect {
    let b = inner.spec_bottom();
    Rect { x: inner.x, y: if b > 3 { (b - 3) as u16 } else { 0 }, width: inner.width, height: 3 }
}

/// The body text's area: one row below the top of the inside, above the
/// buttons.
pub open spec fn modal_body_area(inner: Rect) -> Rect {
    Rect {
        x: inner.x,
        y: (inner.y + 1) as u16,
        width: inner.width,
        height: if inner.height > 4 { (inner.height - 4) as u16 } else { 0 },
    }
}

/// The dialog's position is within the terminal's coordinates.
pub open spec fn modal_fits(area: Rect, width: u16, height: u16) -> bool {
    let w: int = if area.width > width { area.width - width } else { 0 };
    let h: int = if area.height > height { area.height - height } else { 0 };
    &&& area.x + w / 2 <= u16::MAX
    &&& area.y + h / 2 <= u16::MAX
    &&& modal_inner(modal_frame(area, width, height)).y + 1 <= u16::MAX
}

/// The first button whose slot holds the point, from `i` on.
pub open spec fn first_hit(slots: Seq<Rect>, column: u16, row: u16, i: int) -> Option<nat>
    decreases slots.len() - i,
{
    if i < 0 || i >= slots.len() {
        None
    } else if slots[i].spec_contains(column, row) {
        Some(i as nat)
    } else {
        first_hit(slots, column, row, i + 1)
    }
}

/// The row where a dialog's buttons go when it is shown in `area`.
pub open spec fn modal_buttons_row(m: Modal, area: Rect) -> Rect {
    modal_button_area(modal_inner(modal_frame(area, m.width, m.height)))
}

/// The button a mouse event over `area` presses, given the buttons' slots:
/// a press inside the button row of a shown dialog, on the first slot that
/// holds it.
pub open spec fn modal_click(m: Modal, area: Rect, ev: MouseEvent, slots: Seq<Rect>) -> Option<nat> {
    if m.visible && ev.kind is Down && modal_buttons_row(m, area).spec_contains(ev.column, ev.row) {
        first_hit(slots, ev.column, ev.row, 0)
    } else {
        None
    }
}

/// How a mouse event that presses button `hit`, if any, changes dialog `a`
/// into `b`, and what it returns: a pressed button closes the dialog and is
/// returned; otherwise nothing changes.
pub open spec fn modal_mouse_post(a: Modal, b: Modal, hit: Option<nat>, r: Option<usize>) -> bool {
    match hit {
        Some(i) => b == (Modal { visible: false, ..a }) && r == Some(i as usize),
        None => b == a && r is None,
    }
}

/// Where a shown dialog and its parts are drawn.
pub struct ModalLayout {
    /// The dialog's box.
    pub frame: Rect,
    /// The body text's area.
    pub body: Rect,
    /// Each button: its slot, its label and whether it is selected.
    pub buttons: Vec<(Rect, String, bool)>,
}

impl Modal {
    /// A hidden 50 by 12 dialog with one OK button.
    pub fn new(title: &str, body: &str) -> (m: Modal)
        ensures
            m.title@ == title@,
            m.body@ == body@,
            m.buttons is Okay,
            m.selected == 0,
            !m.visible,
            m.width == 50,
            m.height == 12,
    {
        Modal {
            title: title.to_owned(),
            body: body.to_owned(),
            buttons: DialogButtons::Okay,
            selected: 0,
            visible: false,
            width: 50,
            height: 12,
        }
    }

    /// This dialog with other buttons.
    pub fn with_buttons(self, buttons: DialogButtons) -> (m: Modal)
        ensures
            m == (Modal { buttons, ..self }),
    {
        Modal { buttons, ..self }
    }

    /// This dialog with another size.
    pub fn size(self, w: u16, h: u16) -> (m: Modal)
        ensures
            m == (Modal { width: w, height: h, ..self }),
    {
        Modal { width: w, height: h, ..self }
    }

    /// Shows the dialog with the first button selected.
    pub fn show(&mut self)
        ensures
            *final(self) == (Modal { visible: true, selected: 0, ..*old(self) }),
    {
        self.visible = true;
        self.selected = 0;
    }

    /// Closes (hides) the dialog.
    pub fn close(&mut self)
        ensures
            *final(self) == (Modal { visible: false, ..*old(self) }),
    {
        self.visible = false;
    }

    /// Whether the dialog is shown.
    pub fn is_visible(&self) -> (b: bool)
        ensures
            b == self.visible,
    {
        self.visible
    }

    /// Number of buttons.
    pub fn button_count(&self) -> (n: usize)
        ensures
            n == button_labels_of(self.buttons).len(),
    {
        match &self.buttons {
            DialogButtons::Okay => 1,
            DialogButtons::YesNo => 2,
            DialogButtons::OkCancel => 2,
            DialogButtons::Custom(v) => v.len(),
        }
    }

    /// The button labels, left to right.
    pub fn button_labels(&self) -> (v: Vec<String>)
        ensures
            v@.map_values(|s: String| s@) == button_labels_of(self.buttons),
    {
        proof {
            reveal_strlit("OK");
            reveal_strlit("Yes");
            reveal_strlit("No");
            reveal_strlit("Cancel");
            assert("OK"@ =~= seq!['O', 'K']);
            assert("Yes"@ =~= seq!['Y', 'e', 's']);
            assert("No"@ =~= seq!['N', 'o']);
            assert("Cancel"@ =~= seq!['C', 'a', 'n', 'c', 'e', 'l']);
        }
        let mut v: Vec<String> = Vec::new();
        match &self.buttons {
            DialogButtons::Okay => {
                v.push("OK".to_owned());
                assert(v@.map_values(|s: String| s@) =~= button_labels_of(self.buttons));
            },
            DialogButtons::YesNo => {
                v.push("Yes".to_owned());
                v.push("No".to_owned());
                assert(v@.map_values(|s: String| s@) =~= button_labels_of(self.buttons));
            },
            DialogButtons::OkCancel => {
                v.push("OK".to_owned());
                v.push("Cancel".to_owned());
                assert(v@.map_values(|s: String| s@) =~= button_labels_of(self.buttons));
            },
            DialogButtons::Custom(c) => {
                let mut i: usize = 0;
                while i < c.len()
                    invariant
                        i <= c@.len(),
                        v@.map_values(|s: String| s@) == c@.take(i as int).map_values(|s: String| s@),
                    decreases c@.len() - i,
                {
                    let ghost prev = v@;
                    v.push(c[i].clone());
                    proof {
                        crate::surface::lemma_map_push(prev, c@[i as int], |s: String| s@);
                        assert(c@.take(i + 1) =~= c@.take(i as int).push(c@[i as int]));
                        crate::surface::lemma_map_push(c@.take(i as int), c@[i as int], |s: String| s@);
                    }
                    i = i + 1;
                }
                assert(c@.take(c@.len() as int) =~= c@);
            },
        }
        v
    }

    /// Handles a key while shown: Left and Right move between the buttons,
    /// Enter closes the dialog and returns the selected button, Esc closes it.
    pub fn on_key(&mut self, code: KeyCode) -> (r: Option<usize>)
        requires
            code == KeyCode::Right ==> old(self).selected < usize::MAX,
        ensures
            !old(self).visible ==> *final(self) == *old(self) && r is None,
            old(self).visible ==> match code {
                KeyCode::Left => *final(self) == (Modal {
                    selected: if old(self).selected > 0 { (old(self).selected - 1) as usize } else { 0 },
                    ..*old(self)
                }) && r is None,
                KeyCode::Right => {
                    let count = button_labels_of(old(self).buttons).len();
                    let last: nat = if count > 0 { (count - 1) as nat } else { 0 };
                    *final(self) == (Modal {
                        selected: if old(self).selected + 1 < last { (old(self).selected + 1) as usize } else { last as usize },
                        ..*old(self)
                    }) && r is None
                },
                KeyCode::Enter => *final(self) == (Modal { visible: false, ..*old(self) }) && r == Some(
                    old(self).selected,
                ),
                KeyCode::Esc => *final(self) == (Modal { visible: false, ..*old(self) }) && r is None,
                _ => *final(self) == *old(self) && r is None,
            },
    {
        if !self.visible {
            return None;
        }
        let count = self.button_count();
        let sel = self.selected;
        match code {
            KeyCode::Left => {
                self.selected = sel.saturating_sub(1);
                None
            },
            KeyCode::Right => {
                let last = count.saturating_sub(1);
                self.selected = if sel + 1 < last {
                    sel + 1
                } else {
                    last
                };
                None
            },
            KeyCode::Enter => {
                self.close();
                Some(sel)
            },
            KeyCode::Esc => {
                self.close();
                None
            },
            _ => None,
        }
    }

    fn frame_in(&self, area: Rect) -> (f: Rect)
        requires
            modal_fits(area, self.width, self.height),
        ensures
            f == modal_frame(area, self.width, self.height),
    {
        Rect {
            x: area.x + area.width.saturating_sub(self.width) / 2,
            y: area.y + area.height.saturating_sub(self.height) / 2,
            width: if self.width < area.width {
                self.width
            } else {
                area.width
            },
            height: if self.height < area.height {
                self.height
            } else {
                area.height
            },
        }
    }

    /// The button row's rectangle in `area`.
    fn buttons_row_in(&self, area: Rect) -> (r: Rect)
        requires
            modal_fits(area, self.width, self.height),
        ensures
            r == modal_buttons_row(*self, area),
    {
        let frame = self.frame_in(area);
        let inner = frame.inner(Margin { horizontal: 2, vertical: 1 });
        Rect { x: inner.x, y: inner.bottom().saturating_sub(3), width: inner.width, height: 3 }
    }

    /// Handles a mouse event over `area`, the buttons in `slots`: a press
    /// on a button of a shown dialog closes it and returns that button (see
    /// [`modal_click`]).
    pub fn click_in(&mut self, area: Rect, ev: &MouseEvent, slots: &Vec<Rect>) -> (r: Option<usize>)
        requires
            modal_fits(area, old(self).width, old(self).height),
        ensures
            modal_mouse_post(*old(self), *final(self), modal_click(*old(self), area, *ev, slots@), r),
    {
        if !self.visible {
            return None;
        }
        match ev.kind {
            MouseEventKind::Down(_) => {
                let btn_area = self.buttons_row_in(area);
                if btn_area.contains(ev.column, ev.row) {
                    let mut i: usize = 0;
                    while i < slots.len()
                        invariant
                            i <= slots@.len(),
                            first_hit(slots@, ev.column, ev.row, 0) == first_hit(slots@, ev.column, ev.row, i as int),
                            *self == *old(self),
                            old(self).visible,
                            ev.kind is Down,
                            btn_area == modal_buttons_row(*old(self), area),
                            btn_area.spec_contains(ev.column, ev.row),
                        decreases slots@.len() - i,
                    {
                        if slots[i].contains(ev.column, ev.row) {
                            assert(first_hit(slots@, ev.column, ev.row, i as int) == Some(i as nat));
                            self.close();
                            return Some(i);
                        }
                        i = i + 1;
                    }
                    assert(first_hit(slots@, ev.column, ev.row, i as int) is None);
                }
                None
            },
            _ => None,
        }
    }

    /// Handles a mouse event over `area` while shown: a press on a button
    /// closes the dialog and returns that button. The buttons are laid out
    /// in the button row by ratatui's layout (see [`Modal::click_in`]):
    /// where the row has room, packed from the left, 10 columns wide and 2
    /// apart; where it has not, each somewhere within the row (see
    /// [`row_slots`]).
    pub fn on_mouse(&mut self, area: Rect, ev: &MouseEvent) -> (r: Option<usize>)
        requires
            modal_fits(area, old(self).width, old(self).height),
        ensures
            ({
                let btns = modal_buttons_row(*old(self), area);
                let count = button_labels_of(old(self).buttons).len();
                buttons_fit(btns, count) ==> modal_mouse_post(
                    *old(self),
                    *final(self),
                    modal_click(*old(self), area, *ev, button_slots(btns, count)),
                    r,
                )
            }),
            exists|slots: Seq<Rect>|
                row_slots(slots, modal_buttons_row(*old(self), area), button_labels_of(old(self).buttons).len())
                    && modal_mouse_post(*old(self), *final(self), modal_click(*old(self), area, *ev, slots), r),
    {
        let btn_area = self.buttons_row_in(area);
        let count = self.button_count();
        let is_down = match ev.kind {
            MouseEventKind::Down(_) => true,
            _ => false,
        };
        if self.visible && is_down && btn_area.contains(ev.column, ev.row) {
            let slots = split_button_row(btn_area, count);
            let r = self.click_in(area, ev, &slots);
            assert(row_slots(slots@, btn_area, count as nat));
            r
        } else {
            let ghost slots = if buttons_fit(btn_area, count as nat) {
                button_slots(btn_area, count as nat)
            } else {
                Seq::new(count as nat, |i: int| Rect { x: btn_area.x, y: btn_area.y, width: 0, height: btn_area.height })
            };
            proof {
                if buttons_fit(btn_area, count as nat) {
                    lemma_button_slots_in_row(btn_area, count as nat);
                }
            }
            assert(row_slots(slots, btn_area, count as nat));
            assert(modal_click(*old(self), area, *ev, button_slots(btn_area, count as nat)) is None);
            assert(modal_click(*old(self), area, *ev, slots) is None);
            None
        }
    }

    /// Where a shown dialog is drawn in `area` (none where it is hidden),
    /// its buttons in `slots`: its box, the body's area and each button's
    /// slot with its label, the selected one marked.
    pub fn layout_in(&self, area: Rect, slots: &Vec<Rect>) -> (r: Option<ModalLayout>)
        requires
            modal_fits(area, self.width, self.height),
            slots@.len() == button_labels_of(self.buttons).len(),
        ensures
            modal_layout_post(*self, area, slots@, r),
    {
        if !self.visible {
            return None;
        }
        let frame = self.frame_in(area);
        let inner = frame.inner(Margin { horizontal: 2, vertical: 1 });
        let body = Rect {
            x: inner.x,
            y: inner.y + 1,
            width: inner.width,
            height: inner.height.saturating_sub(4),
        };
        let labels = self.button_labels();
        let mut buttons: Vec<(Rect, String, bool)> = Vec::new();
        let mut i: usize = 0;
        while i < labels.len()
            invariant
                i <= labels@.len(),
                slots@.len() == labels@.len(),
                labels@.map_values(|s: String| s@) == button_labels_of(self.buttons),
                buttons@.len() == i,
                forall|k: int|
                    0 <= k < i ==> {
                        &&& (#[trigger] buttons@[k]).0 == slots@[k]
                        &&& buttons@[k].1@ == labels@[k]@
                        &&& buttons@[k].2 == (k == self.selected)
                    },
            decreases labels@.len() - i,
        {
            buttons.push((slots[i], labels[i].clone(), i == self.selected));
            i = i + 1;
        }
        proof {
            assert forall|k: int| 0 <= k < labels@.len() implies labels@[k]@ == button_labels_of(self.buttons)[k] by {
                assert(labels@.map_values(|s: String| s@)[k] == labels@[k]@);
            }
        }
        Some(ModalLayout { frame, body, buttons })
    }

    /// Where a shown dialog is drawn in `area` (none where it is hidden),
    /// the buttons laid out in the button row by ratatui's layout (see
    /// [`Modal::layout_in`]): where the row has room, packed from the left,
    /// 10 columns wide and 2 apart; where it has not, each somewhere within
    /// the row (see [`row_slots`]).
    pub fn layout(&self, area: Rect) -> (r: Option<ModalLayout>)
        requires
            modal_fits(area, self.width, self.height),
        ensures
            ({
                let btns = modal_buttons_row(*self, area);
                let count = button_labels_of(self.buttons).len();
                buttons_fit(btns, count) ==> modal_layout_post(*self, area, button_slots(btns, count), r)
            }),
            exists|slots: Seq<Rect>|
                row_slots(slots, modal_buttons_row(*self, area), button_labels_of(self.buttons).len())
                    && modal_layout_post(*self, area, slots, r),
    {
        let btn_area = self.buttons_row_in(area);
        let slots = split_button_row(btn_area, self.button_count());
        let r = self.layout_in(area, &slots);
        assert(row_slots(slots@, btn_area, button_labels_of(self.buttons).len()));
        r
    }
}

/// Where shown dialog `m` is drawn in `area`, its buttons in `slots` (none
/// where it is hidden): its box, the body's area, and each button's slot
/// with its label, the selected one marked.
pub open spec fn modal_layout_post(m: Modal, area: Rect, slots: Seq<Rect>, r: Option<ModalLayout>) -> bool {
    &&& !m.visible ==> r is None
    &&& m.visible ==> (r matches Some(l) && {
        let frame = modal_frame(area, m.width, m.height);
        let inner = modal_inner(frame);
        let labels = button_labels_of(m.buttons);
        &&& l.frame == frame
        &&& l.body == modal_body_area(inner)
        &&& l.buttons@.len() == labels.len()
        &&& forall|i: int|
            0 <= i < labels.len() ==> {
                &&& (#[trigger] l.buttons@[i]).0 == slots[i]
                &&& l.buttons@[i].1@ == labels[i]
                &&& l.buttons@[i].2 == (i == m.selected)
            }
    })
}

} // verus!

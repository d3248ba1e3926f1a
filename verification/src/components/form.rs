//! A vertical form of inputs, buttons and text, with Tab and Shift-Tab
//! moving the focus between fields.

use vstd::prelude::*;
use crate::components::button::{
    Button, ButtonEvent, blur_step, focus_step, key_step, mouse_step, mouse_stepped, stepped,
};
use crate::components::input::{Input, InputEvent};
use crate::tui::{KeyCode, MouseEvent, MouseEventKind, Rect};

verus! {

/// A field of a form.
pub enum FormField {
    /// A text input and its label.
    Input(Input, String),
    /// A button.
    Button(Button),
    /// A line of text.
    Static(String),
}

/// What a field tells its listeners.
pub enum FieldEvent {
    Input(InputEvent),
    Button(ButtonEvent),
}

/// What a form reports: a field's event and the field's index.
pub enum FormEvent {
    Input(usize, InputEvent),
    Button(usize, ButtonEvent),
}

/// Rows a field takes up.
pub open spec fn field_height(f: FormField) -> u16 {
    match f {
        FormField::Input(..) => 3,
        FormField::Button(_) => 3,
        FormField::Static(_) => 1,
    }
}

/// A field after it gets the focus.
pub open spec fn field_focused(f: FormField) -> FormField {
    match f {
        FormField::Input(i, l) => FormField::Input(Input { focused: true, ..i }, l),
        FormField::Button(b) => {
            let s = focus_step(b.state, b.focused);
            FormField::Button(Button { state: s.0, focused: s.1, ..b })
        },
        FormField::Static(t) => FormField::Static(t),
    }
}

/// The event a field emits when it gets the focus.
pub open spec fn field_focus_event(f: FormField) -> Option<FieldEvent> {
    match f {
        FormField::Input(..) => Some(FieldEvent::Input(InputEvent::Focus)),
        FormField::Button(b) => match focus_step(b.state, b.focused).2 {
            Some(e) => Some(FieldEvent::Button(e)),
            None => None,
        },
        FormField::Static(_) => None,
    }
}

/// A field after it loses the focus.
pub open spec fn field_blurred(f: FormField) -> FormField {
    match f {
        FormField::Input(i, l) => FormField::Input(Input { focused: false, ..i }, l),
        FormField::Button(b) => {
            let s = blur_step(b.state, b.focused);
            FormField::Button(Button { state: s.0, focused: s.1, ..b })
        },
        FormField::Static(t) => FormField::Static(t),
    }
}

/// The event a field emits when it loses the focus.
pub open spec fn field_blur_event(f: FormField) -> Option<FieldEvent> {
    match f {
        FormField::Input(..) => Some(FieldEvent::Input(InputEvent::Blur)),
        FormField::Button(b) => match blur_step(b.state, b.focused).2 {
            Some(e) => Some(FieldEvent::Button(e)),
            None => None,
        },
        FormField::Static(_) => None,
    }
}

/// The input event among a field's events, if any.
pub open spec fn input_ev(ev: Option<FieldEvent>) -> Option<InputEvent> {
    match ev {
        Some(FieldEvent::Input(e)) => Some(e),
        _ => None,
    }
}

/// The button event among a field's events, if any.
pub open spec fn button_ev(ev: Option<FieldEvent>) -> Option<ButtonEvent> {
    match ev {
        Some(FieldEvent::Button(e)) => Some(e),
        _ => None,
    }
}

/// How a key changes field `a` into `b`, with the event it emits: as the
/// input or button inside handles it; text ignores keys.
pub open spec fn field_key_post(a: FormField, b: FormField, code: KeyCode, ev: Option<FieldEvent>) -> bool {
    match (a, b) {
        (FormField::Input(x, l), FormField::Input(y, m)) => m == l && !(ev matches Some(FieldEvent::Button(_)))
            && Input::key_post(x, y, code, input_ev(ev)),
        (FormField::Button(x), FormField::Button(y)) => !(ev matches Some(FieldEvent::Input(_))) && stepped(
            x,
            y,
            key_step(x.state, x.focused, code),
            button_ev(ev),
        ),
        (FormField::Static(s), FormField::Static(t)) => t == s && ev is None,
        _ => false,
    }
}

/// A field event of an input's event, if any.
pub open spec fn input_events(e: Option<InputEvent>) -> Seq<FieldEvent> {
    match e {
        Some(x) => seq![FieldEvent::Input(x)],
        None => seq![],
    }
}

/// The first of a field's events where it is an input's.
pub open spec fn first_input(evs: Seq<FieldEvent>) -> Option<InputEvent> {
    if evs.len() > 0 {
        match evs[0] {
            FieldEvent::Input(e) => Some(e),
            _ => None,
        }
    } else {
        None
    }
}

/// A button's events as a field's.
pub open spec fn button_events(evs: Seq<ButtonEvent>) -> Seq<FieldEvent> {
    evs.map_values(|e: ButtonEvent| FieldEvent::Button(e))
}

/// How a mouse event over `area` changes field `a` into `b`, with the events
/// it emits in order.
pub open spec fn field_mouse_post(a: FormField, b: FormField, area: Rect, mev: MouseEvent, evs: Seq<FieldEvent>) -> bool {
    match (a, b) {
        (FormField::Input(x, l), FormField::Input(y, m)) => m == l && evs == input_events(first_input(evs))
            && Input::mouse_post(x, y, area, mev, first_input(evs)),
        (FormField::Button(x), FormField::Button(y)) => {
            let st = mouse_step(x.state, x.focused, area, mev);
            mouse_stepped(x, y, st, st.2) && evs == button_events(st.2)
        },
        (FormField::Static(s), FormField::Static(t)) => t == s && evs.len() == 0,
        _ => false,
    }
}

/// A field's inputs keep their cursor within their text.
pub open spec fn field_wf(f: FormField) -> bool {
    match f {
        FormField::Input(i, _) => i.wf(),
        _ => true,
    }
}

/// A field's event tagged with the field's index.
pub open spec fn tag(i: usize, e: FieldEvent) -> FormEvent {
    match e {
        FieldEvent::Input(x) => FormEvent::Input(i, x),
        FieldEvent::Button(x) => FormEvent::Button(i, x),
    }
}

/// A field's events, each tagged with the field's index.
pub open spec fn tagged_all(i: usize, evs: Seq<FieldEvent>) -> Seq<FormEvent> {
    evs.map_values(|e: FieldEvent| tag(i, e))
}

/// A field's event, tagged with the field's index.
pub open spec fn tagged(i: usize, ev: Option<FieldEvent>) -> Seq<FormEvent> {
    match ev {
        Some(FieldEvent::Input(e)) => seq![FormEvent::Input(i, e)],
        Some(FieldEvent::Button(e)) => seq![FormEvent::Button(i, e)],
        None => seq![],
    }
}

impl FormField {
    /// Rows the field takes up.
    pub fn height(&self) -> (h: u16)
        ensures
            h == field_height(*self),
    {
        match self {
            FormField::Input(..) => 3,
            FormField::Button(_) => 3,
            FormField::Static(_) => 1,
        }
    }

    /// Gives the field the focus.
    pub fn focus(&mut self) -> (ev: Option<FieldEvent>)
        ensures
            *final(self) == field_focused(*old(self)),
            ev == field_focus_event(*old(self)),
    {
        match self {
            FormField::Input(i, _) => Some(FieldEvent::Input(i.focus())),
            FormField::Button(b) => match b.focus() {
                Some(e) => Some(FieldEvent::Button(e)),
                None => None,
            },
            FormField::Static(_) => None,
        }
    }

    /// Takes the focus away from the field.
    pub fn blur(&mut self) -> (ev: Option<FieldEvent>)
        ensures
            *final(self) == field_blurred(*old(self)),
            ev == field_blur_event(*old(self)),
    {
        match self {
            FormField::Input(i, _) => Some(FieldEvent::Input(i.blur())),
            FormField::Button(b) => match b.blur() {
                Some(e) => Some(FieldEvent::Button(e)),
                None => None,
            },
            FormField::Static(_) => None,
        }
    }

    /// Hands a key to the field (see [`field_key_post`]).
    pub fn on_key(&mut self, code: KeyCode) -> (ev: Option<FieldEvent>)
        requires
            field_wf(*old(self)),
        ensures
            field_wf(*final(self)),
            field_key_post(*old(self), *final(self), code, ev),
    {
        match self {
            FormField::Input(i, _) => match i.on_key(code) {
                Some(e) => Some(FieldEvent::Input(e)),
                None => None,
            },
            FormField::Button(b) => match b.on_key(code) {
                Some(e) => Some(FieldEvent::Button(e)),
                None => None,
            },
            FormField::Static(_) => None,
        }
    }

    /// Hands a mouse event over `area` to the field (see
    /// [`field_mouse_post`]).
    pub fn on_mouse(&mut self, area: Rect, ev: &MouseEvent) -> (out: Vec<FieldEvent>)
        requires
            field_wf(*old(self)),
        ensures
            field_wf(*final(self)),
            field_mouse_post(*old(self), *final(self), area, *ev, out@),
    {
        let mut out: Vec<FieldEvent> = Vec::new();
        match self {
            FormField::Input(i, _) => match i.on_mouse(area, ev) {
                Some(e) => {
                    out.push(FieldEvent::Input(e));
                },
                None => {},
            },
            FormField::Button(b) => {
                let evs = b.on_mouse(area, ev);
                let mut j: usize = 0;
                while j < evs.len()
                    invariant
                        j <= evs@.len(),
                        out@ == button_events(evs@.take(j as int)),
                    decreases evs@.len() - j,
                {
                    out.push(FieldEvent::Button(evs[j]));
                    proof {
                        assert(evs@.take(j + 1) =~= evs@.take(j as int).push(evs@[j as int]));
                        assert(button_events(evs@.take(j + 1)) =~= button_events(evs@.take(j as int)).push(
                            FieldEvent::Button(evs@[j as int]),
                        ));
                    }
                    j = j + 1;
                }
                assert(evs@.take(evs@.len() as int) =~= evs@);
            },
            FormField::Static(_) => {},
        }
        out
    }
}

/// A form: its fields top to bottom, the field with the focus, whether the
/// form has the focus, and the rows between fields.
pub struct Form {
    pub fields: Vec<FormField>,
    pub focus_index: usize,
    pub focused: bool,
    pub spacing: u16,
}

/// The fields with `f` in place of field `i`, where there is one.
pub open spec fn with_field(fields: Seq<FormField>, i: int, f: FormField) -> Seq<FormField> {
    if 0 <= i < fields.len() { fields.update(i, f) } else { fields }
}

/// The fields after field `from` loses the focus and field `to` gets it,
/// and the events of both.
pub open spec fn refocused(fields: Seq<FormField>, from: int, to: int) -> (Seq<FormField>, Seq<FormEvent>) {
    let blur_ev = if 0 <= from < fields.len() { tagged(from as usize, field_blur_event(fields[from])) } else { seq![] };
    let mid = if 0 <= from < fields.len() { with_field(fields, from, field_blurred(fields[from])) } else { fields };
    let focus_ev = if 0 <= to < mid.len() { tagged(to as usize, field_focus_event(mid[to])) } else { seq![] };
    let fin = if 0 <= to < mid.len() { with_field(mid, to, field_focused(mid[to])) } else { mid };
    (fin, blur_ev + focus_ev)
}

/// The top row of each field from `i` on, the first at row `y`, each next
/// one below the one before and the spacing.
pub open spec fn field_top(fields: Seq<FormField>, spacing: u16, y: nat, i: int) -> nat
    decreases i,
{
    if i <= 0 {
        y
    } else {
        field_top(fields, spacing, y, i - 1) + field_height(fields[i - 1]) as nat + spacing as nat
    }
}

/// The rectangle of field `i` in `area`.
pub open spec fn field_rect(fields: Seq<FormField>, spacing: u16, area: Rect, i: int) -> Rect {
    Rect {
        x: area.x,
        y: field_top(fields, spacing, area.y as nat, i) as u16,
        width: area.width,
        height: field_height(fields[i]),
    }
}

/// The first field, from `i` on, whose rectangle holds the point.
pub open spec fn hit_field(fields: Seq<FormField>, spacing: u16, area: Rect, column: u16, row: u16, i: int) -> Option<nat>
    decreases fields.len() - i,
{
    if i < 0 || i >= fields.len() {
        None
    } else if field_rect(fields, spacing, area, i).spec_contains(column, row) {
        Some(i as nat)
    } else {
        hit_field(fields, spacing, area, column, row, i + 1)
    }
}

/// The form's rows stay within the terminal's coordinates.
pub open spec fn form_fits(fields: Seq<FormField>, spacing: u16, area: Rect) -> bool {
    field_top(fields, spacing, area.y as nat, fields.len() as int) <= u16::MAX
}

impl Form {
    /// Every input keeps its cursor in its text, and the focus is on a field
    /// (or at 0 for none).
    pub open spec fn wf(&self) -> bool {
        &&& forall|i: int| 0 <= i < self.fields@.len() ==> field_wf(#[trigger] self.fields@[i])
        &&& (self.focus_index == 0 || self.focus_index < self.fields@.len())
    }

    /// An empty, unfocused form with one row between fields.
    pub fn new() -> (f: Form)
        ensures
            f.fields@.len() == 0,
            f.focus_index == 0,
            !f.focused,
            f.spacing == 1,
            f.wf(),
    {
        Form { fields: Vec::new(), focus_index: 0, focused: false, spacing: 1 }
    }

    /// This form with `n` rows between fields.
    pub fn spacing(self, n: u16) -> (f: Form)
        ensures
            f.fields == self.fields,
            f.focus_index == self.focus_index,
            f.focused == self.focused,
            f.spacing == n,
    {
        Form { spacing: n, ..self }
    }

    /// This form with an input at the bottom, labelled `label`.
    pub fn field(self, label: &str, input: Input) -> (f: Form)
        requires
            self.wf(),
            input.wf(),
        ensures
            f.fields@.len() == self.fields@.len() + 1,
            f.fields@.drop_last() == self.fields@,
            f.fields@.last() matches FormField::Input(i, l) && l@ == label@ && i.label@ == label@ && i.text
                == input.text && i.placeholder == input.placeholder && i.focused == input.focused && i.cursor
                == input.cursor,
            f.focus_index == self.focus_index,
            f.focused == self.focused,
            f.spacing == self.spacing,
            f.wf(),
    {
        let mut input = input;
        input.set_label(label);
        let mut me = self;
        me.fields.push(FormField::Input(input, label.to_owned()));
        assert(me.fields@.drop_last() =~= self.fields@);
        me
    }

    /// This form with a button at the bottom.
    pub fn action(self, button: Button) -> (f: Form)
        requires
            self.wf(),
        ensures
            f.fields@ == self.fields@.push(FormField::Button(button)),
            f.focus_index == self.focus_index,
            f.focused == self.focused,
            f.spacing == self.spacing,
            f.wf(),
    {
        let mut me = self;
        me.fields.push(FormField::Button(button));
        me
    }

    /// This form with a line of text at the bottom.
    pub fn text(self, text: &str) -> (f: Form)
        requires
            self.wf(),
        ensures
            f.fields@.len() == self.fields@.len() + 1,
            f.fields@.drop_last() == self.fields@,
            f.fields@.last() matches FormField::Static(t) && t@ == text@,
            f.focus_index == self.focus_index,
            f.focused == self.focused,
            f.spacing == self.spacing,
            f.wf(),
    {
        let mut me = self;
        me.fields.push(FormField::Static(text.to_owned()));
        assert(me.fields@.drop_last() =~= self.fields@);
        me
    }

    /// Moves the focus from the current field to field `to`, returning the
    /// fields' events.
    fn move_focus(&mut self, to: usize) -> (out: Vec<FormEvent>)
        requires
            old(self).wf(),
            to == 0 || to < old(self).fields@.len(),
        ensures
            final(self).wf(),
            (final(self).fields@, out@) == refocused(old(self).fields@, old(self).focus_index as int, to as int),
            final(self).focus_index == to,
            final(self).focused == old(self).focused,
            final(self).spacing == old(self).spacing,
    {
        let mut out: Vec<FormEvent> = Vec::new();
        let n = self.fields.len();
        let from = self.focus_index;
        if from < n {
            let mut f = FormField::Static(String::new());
            std::mem::swap(&mut f, &mut self.fields[from]);
            let ghost before = f;
            let e = f.blur();
            self.fields.set(from, f);
            match e {
                Some(FieldEvent::Input(e)) => out.push(FormEvent::Input(from, e)),
                Some(FieldEvent::Button(e)) => out.push(FormEvent::Button(from, e)),
                None => {},
            }
            proof {
                assert(out@ =~= tagged(from, field_blur_event(before)));
                assert(self.fields@ =~= with_field(old(self).fields@, from as int, field_blurred(before)));
            }
        }
        let ghost mid_out = out@;
        let ghost mid = self.fields@;
        self.focus_index = to;
        if to < n {
            let mut f = FormField::Static(String::new());
            std::mem::swap(&mut f, &mut self.fields[to]);
            let ghost before = f;
            let e = f.focus();
            self.fields.set(to, f);
            match e {
                Some(FieldEvent::Input(e)) => out.push(FormEvent::Input(to, e)),
                Some(FieldEvent::Button(e)) => out.push(FormEvent::Button(to, e)),
                None => {},
            }
            proof {
                assert(out@ =~= mid_out + tagged(to, field_focus_event(before)));
                assert(self.fields@ =~= with_field(mid, to as int, field_focused(before)));
            }
        } else {
            assert(out@ =~= mid_out + Seq::<FormEvent>::empty());
        }
        proof {
            assert forall|i: int| 0 <= i < self.fields@.len() implies field_wf(#[trigger] self.fields@[i]) by {
                if i == to as int || i == from as int {
                } else {
                    assert(self.fields@[i] == old(self).fields@[i]);
                }
            }
        }
        out
    }

    /// Gives the form the focus, and its current field with it.
    pub fn focus(&mut self) -> (out: Vec<FormEvent>)
        requires
            old(self).wf(),
        ensures
            final(self).wf(),
            final(self).focused,
            final(self).focus_index == old(self).focus_index,
            ({
                let i = old(self).focus_index as int;
                let fs = old(self).fields@;
                if i < fs.len() {
                    final(self).fields@ == fs.update(i, field_focused(fs[i])) && out@ == tagged(
                        i as usize,
                        field_focus_event(fs[i]),
                    )
                } else {
                    final(self).fields == old(self).fields && out@.len() == 0
                }
            }),
    {
        self.focused = true;
        let mut out: Vec<FormEvent> = Vec::new();
        let i = self.focus_index;
        if i < self.fields.len() {
            let mut f = FormField::Static(String::new());
            std::mem::swap(&mut f, &mut self.fields[i]);
            let ghost before = f;
            let e = f.focus();
            self.fields.set(i, f);
            match e {
                Some(FieldEvent::Input(e)) => out.push(FormEvent::Input(i, e)),
                Some(FieldEvent::Button(e)) => out.push(FormEvent::Button(i, e)),
                None => {},
            }
            proof {
                assert(out@ =~= tagged(i, field_focus_event(before)));
                assert forall|k: int| 0 <= k < self.fields@.len() implies field_wf(#[trigger] self.fields@[k]) by {
                    if k != i {
                        assert(self.fields@[k] == old(self).fields@[k]);
                    }
                }
            }
        }
        out
    }

    /// Takes the focus away from the form and from every field, top to
    /// bottom.
    pub fn blur(&mut self) -> (out: Vec<FormEvent>)
        requires
            old(self).wf(),
        ensures
            final(self).wf(),
            !final(self).focused,
            final(self).focus_index == old(self).focus_index,
            final(self).fields@.len() == old(self).fields@.len(),
            forall|i: int|
                0 <= i < old(self).fields@.len() ==> #[trigger] final(self).fields@[i] == field_blurred(
                    old(self).fields@[i],
                ),
            out@ == blur_events(old(self).fields@, old(self).fields@.len() as int),
    {
        self.focused = false;
        let mut out: Vec<FormEvent> = Vec::new();
        let n = self.fields.len();
        let mut i: usize = 0;
        while i < n
            invariant
                n == old(self).fields@.len(),
                self.fields@.len() == n,
                i <= n,
                !self.focused,
                self.focus_index == old(self).focus_index,
                old(self).wf(),
                forall|k: int|
                    0 <= k < n ==> #[trigger] self.fields@[k] == if k < i {
                        field_blurred(old(self).fields@[k])
                    } else {
                        old(self).fields@[k]
                    },
                out@ == blur_events(old(self).fields@, i as int),
            decreases n - i,
        {
            let mut f = FormField::Static(String::new());
            std::mem::swap(&mut f, &mut self.fields[i]);
            let e = f.blur();
            self.fields.set(i, f);
            let ghost prev = out@;
            match e {
                Some(FieldEvent::Input(e)) => out.push(FormEvent::Input(i, e)),
                Some(FieldEvent::Button(e)) => out.push(FormEvent::Button(i, e)),
                None => {},
            }
            assert(out@ =~= prev + tagged(i, field_blur_event(old(self).fields@[i as int])));
            i = i + 1;
        }
        proof {
            assert forall|k: int| 0 <= k < self.fields@.len() implies field_wf(#[trigger] self.fields@[k]) by {
                assert(field_wf(old(self).fields@[k]));
            }
        }
        out
    }

    /// Handles a key while the form has the focus: Tab and Shift-Tab move
    /// the focus to the next and previous field, round and round; any other
    /// key goes to the field with the focus (see [`field_key_post`]).
    pub fn on_key(&mut self, code: KeyCode) -> (out: Vec<FormEvent>)
        requires
            old(self).wf(),
        ensures
            final(self).wf(),
            final(self).focused == old(self).focused,
            final(self).spacing == old(self).spacing,
            ({
                let n = old(self).fields@.len();
                let i = old(self).focus_index as int;
                if !old(self).focused {
                    *final(self) == *old(self) && out@.len() == 0
                } else if code == KeyCode::Tab || code == KeyCode::BackTab {
                    let count: int = if n > 0 { n as int } else { 1 };
                    let to: int = if code == KeyCode::Tab {
                        (i + 1) % count
                    } else if i == 0 {
                        if n > 0 { n - 1 } else { 0 }
                    } else {
                        i - 1
                    };
                    &&& final(self).focus_index == to
                    &&& (final(self).fields@, out@) == refocused(old(self).fields@, i, to)
                } else if i < n {
                    &&& final(self).focus_index == old(self).focus_index
                    &&& final(self).fields@.len() == n
                    &&& forall|k: int| 0 <= k < n && k != i ==> #[trigger] final(self).fields@[k] == old(self).fields@[k]
                    &&& exists|fe: Option<FieldEvent>|
                        out@ == tagged(i as usize, fe) && field_key_post(
                            old(self).fields@[i],
                            final(self).fields@[i],
                            code,
                            fe,
                        )
                } else {
                    *final(self) == *old(self) && out@.len() == 0
                }
            }),
    {
        if !self.focused {
            return Vec::new();
        }
        let n = self.fields.len();
        let i = self.focus_index;
        match code {
            KeyCode::Tab => {
                let count = if n > 0 {
                    n
                } else {
                    1
                };
                self.move_focus((i + 1) % count)
            },
            KeyCode::BackTab => {
                let to = if i == 0 {
                    n.saturating_sub(1)
                } else {
                    i - 1
                };
                self.move_focus(to)
            },
            _ => {
                let mut out: Vec<FormEvent> = Vec::new();
                if i < n {
                    let mut f = FormField::Static(String::new());
                    std::mem::swap(&mut f, &mut self.fields[i]);
                    let ghost before = f;
                    assert(field_wf(before));
                    let e = f.on_key(code);
                    let ghost after = f;
                    self.fields.set(i, f);
                    match e {
                        Some(FieldEvent::Input(e)) => out.push(FormEvent::Input(i, e)),
                        Some(FieldEvent::Button(e)) => out.push(FormEvent::Button(i, e)),
                        None => {},
                    }
                    proof {
                        assert(out@ =~= tagged(i, e));
                        assert(field_key_post(old(self).fields@[i as int], self.fields@[i as int], code, e));
                        assert forall|k: int| 0 <= k < self.fields@.len() implies field_wf(#[trigger] self.fields@[k]) by {
                            if k != i {
                                assert(self.fields@[k] == old(self).fields@[k]);
                            }
                        }
                    }
                }
                out
            },
        }
    }

    /// Where each field is drawn in `area`, top to bottom, and whether it
    /// has the focus (see [`field_rect`]).
    pub fn layout(&self, area: Rect) -> (out: Vec<(Rect, bool)>)
        requires
            form_fits(self.fields@, self.spacing, area),
        ensures
            out@.len() == self.fields@.len(),
            forall|i: int|
                0 <= i < out@.len() ==> (#[trigger] out@[i]).0 == field_rect(self.fields@, self.spacing, area, i)
                    && out@[i].1 == (i == self.focus_index && self.focused),
    {
        let n = self.fields.len();
        let mut out: Vec<(Rect, bool)> = Vec::new();
        let mut y: u16 = area.y;
        let mut i: usize = 0;
        while i < n
            invariant
                n == self.fields@.len(),
                i <= n,
                form_fits(self.fields@, self.spacing, area),
                y == field_top(self.fields@, self.spacing, area.y as nat, i as int),
                out@.len() == i,
                forall|k: int|
                    0 <= k < i ==> (#[trigger] out@[k]).0 == field_rect(self.fields@, self.spacing, area, k)
                        && out@[k].1 == (k == self.focus_index && self.focused),
            decreases n - i,
        {
            let h = self.fields[i].height();
            proof {
                lemma_field_top_grows(self.fields@, self.spacing, area.y as nat, i + 1, n as int);
            }
            out.push((Rect { x: area.x, y, width: area.width, height: h }, i == self.focus_index && self.focused));
            y = y + h + self.spacing;
            i = i + 1;
        }
        out
    }

    /// Handles a mouse event over the form's `area`: the field under the
    /// pointer, if any, gets it (see [`field_mouse_post`]); a press first
    /// moves the focus to that field.
    #[verifier::spinoff_prover]
    pub fn on_mouse(&mut self, area: Rect, ev: &MouseEvent) -> (out: Vec<FormEvent>)
        requires
            old(self).wf(),
            form_fits(old(self).fields@, old(self).spacing, area),
        ensures
            final(self).wf(),
            final(self).focused == old(self).focused,
            final(self).spacing == old(self).spacing,
            hit_field(old(self).fields@, old(self).spacing, area, ev.column, ev.row, 0) is None ==> *final(self)
                == *old(self) && out@.len() == 0,
            hit_field(old(self).fields@, old(self).spacing, area, ev.column, ev.row, 0) matches Some(k) ==> {
                let rect = field_rect(old(self).fields@, old(self).spacing, area, k as int);
                let pre = pressed_refocus(old(self).fields@, old(self).focus_index as int, k as int, ev.kind is Down);
                let fs = pre.0;
                &&& final(self).focus_index == if ev.kind is Down { k as usize } else { old(self).focus_index }
                &&& final(self).fields@.len() == fs.len()
                &&& forall|j: int| 0 <= j < fs.len() && j != k ==> #[trigger] final(self).fields@[j] == fs[j]
                &&& exists|fe: Seq<FieldEvent>|
                    out@ == pre.1 + tagged_all(k as usize, fe) && field_mouse_post(
                        fs[k as int],
                        final(self).fields@[k as int],
                        rect,
                        *ev,
                        fe,
                    )
            },
    {
        let n = self.fields.len();
        let mut found: Option<usize> = None;
        let mut rect = Rect { x: 0, y: 0, width: 0, height: 0 };
        let mut y: u16 = area.y;
        let mut i: usize = 0;
        while i < n
            invariant_except_break
                found is None,
            invariant
                n == self.fields@.len(),
                *self == *old(self),
                i <= n,
                form_fits(self.fields@, self.spacing, area),
                y == field_top(self.fields@, self.spacing, area.y as nat, i as int),
                hit_field(self.fields@, self.spacing, area, ev.column, ev.row, 0) == hit_field(
                    self.fields@,
                    self.spacing,
                    area,
                    ev.column,
                    ev.row,
                    i as int,
                ),
            ensures
                match found {
                    Some(k) => k < n && hit_field(self.fields@, self.spacing, area, ev.column, ev.row, 0) == Some(
                        k as nat,
                    ) && rect == field_rect(self.fields@, self.spacing, area, k as int),
                    None => hit_field(self.fields@, self.spacing, area, ev.column, ev.row, 0) is None,
                },
            decreases n - i,
        {
            let h = self.fields[i].height();
            proof {
                lemma_field_top_grows(self.fields@, self.spacing, area.y as nat, i + 1, n as int);
            }
            let r = Rect { x: area.x, y, width: area.width, height: h };
            if r.contains(ev.column, ev.row) {
                found = Some(i);
                rect = r;
                break;
            }
            y = y + h + self.spacing;
            i = i + 1;
        }
        match found {
            None => {
                assert(hit_field(self.fields@, self.spacing, area, ev.column, ev.row, 0) is None);
                Vec::new()
            },
            Some(k) => {
                let is_down = match ev.kind {
                    MouseEventKind::Down(_) => true,
                    _ => false,
                };
                let mut out = if is_down {
                    self.move_focus(k)
                } else {
                    Vec::new()
                };
                let ghost fs = self.fields@;
                let ghost pre = out@;
                let mut f = FormField::Static(String::new());
                std::mem::swap(&mut f, &mut self.fields[k]);
                let ghost before = f;
                assert(field_wf(before));
                let mut e = f.on_mouse(rect, ev);
                self.fields.set(k, f);
                let ghost all = e@;
                let total = e.len();
                let mut j: usize = 0;
                while e.len() > 0
                    invariant
                        j <= all.len(),
                        total == all.len(),
                        e@ == all.skip(j as int),
                        out@ == pre + tagged_all(k, all.take(j as int)),
                    decreases e@.len(),
                {
                    let x = e.remove(0);
                    match x {
                        FieldEvent::Input(x) => out.push(FormEvent::Input(k, x)),
                        FieldEvent::Button(x) => out.push(FormEvent::Button(k, x)),
                    }
                    proof {
                        assert(all.take(j + 1) =~= all.take(j as int).push(all[j as int]));
                        assert(tagged_all(k, all.take(j + 1)) =~= tagged_all(k, all.take(j as int)).push(
                            tag(k, all[j as int]),
                        ));
                    }
                    j = j + 1;
                    assert(e@ =~= all.skip(j as int));
                }
                proof {
                    assert(all.take(all.len() as int) =~= all);
                    assert(out@ =~= pre + tagged_all(k, all));
                    assert(field_mouse_post(fs[k as int], self.fields@[k as int], rect, *ev, all));
                    assert forall|j: int| 0 <= j < self.fields@.len() implies field_wf(#[trigger] self.fields@[j]) by {
                        if j != k {
                            assert(self.fields@[j] == fs[j]);
                        }
                    }
                }
                out
            },
        }
    }
}

/// Field rectangles do not overlap: a point inside one field is inside no
/// later field, so a mouse event reaches at most one field.
pub proof fn lemma_fields_do_not_overlap(
    fields: Seq<FormField>,
    spacing: u16,
    area: Rect,
    column: u16,
    row: u16,
    i: int,
    j: int,
)
    requires
        0 <= i < j < fields.len(),
        form_fits(fields, spacing, area),
        field_rect(fields, spacing, area, i).spec_contains(column, row),
    ensures
        !field_rect(fields, spacing, area, j).spec_contains(column, row),
{
    lemma_field_top_grows(fields, spacing, area.y as nat, i + 1, j);
    lemma_field_top_grows(fields, spacing, area.y as nat, j, fields.len() as int);
    lemma_field_top_grows(fields, spacing, area.y as nat, i + 1, fields.len() as int);
}

/// The fields and events after a press moves the focus from field `from`
/// to field `to`; nothing changes for other mouse events.
pub open spec fn pressed_refocus(fields: Seq<FormField>, from: int, to: int, pressed: bool) -> (
    Seq<FormField>,
    Seq<FormEvent>,
) {
    if pressed {
        refocused(fields, from, to)
    } else {
        (fields, seq![])
    }
}

/// The blur events of the first `n` fields, in order.
pub open spec fn blur_events(fields: Seq<FormField>, n: int) -> Seq<FormEvent>
    decreases n,
{
    if n <= 0 {
        seq![]
    } else {
        blur_events(fields, n - 1) + tagged((n - 1) as usize, field_blur_event(fields[n - 1]))
    }
}

/// Field tops only grow down the form.
pub proof fn lemma_field_top_grows(fields: Seq<FormField>, spacing: u16, y: nat, i: int, j: int)
    requires
        0 <= i <= j,
    ensures
        field_top(fields, spacing, y, i) <= field_top(fields, spacing, y, j),
    decreases j - i,
{
    if i < j {
        lemma_field_top_grows(fields, spacing, y, i, j - 1);
    }
}

} // verus!

//! A button with variants, per-state styles and keyboard and mouse handling.
//!
//! The button is a small state machine: every handler returns the event it
//! emits, if any, and the caller forwards it to whoever listens.

use vstd::prelude::*;
use vstd::string::StringExecFns;
use crate::components::style::{BobaStyle, with_padding, plain_boba, rendered, render_ok};
use crate::surface::Surface;
use crate::tui::{Event, KeyCode, MouseEvent, MouseEventKind, Rect};

verus! {

/// The visual and interactive state of a button.
#[derive(Debug, Clone, Copy, PartialEq, Eq, Structural)]
pub enum ButtonState {
    Default,
    Hovered,
    Pressed,
    Focused,
    Disabled,
}

impl ButtonState {
    /// Whether the pointer rests on the button.
    pub fn is_hovered(&self) -> (b: bool)
        ensures
            b == (*self == ButtonState::Hovered),
    {
        matches!(self, ButtonState::Hovered)
    }

    /// Whether the button is held down.
    pub fn is_pressed(&self) -> (b: bool)
        ensures
            b == (*self == ButtonState::Pressed),
    {
        matches!(self, ButtonState::Pressed)
    }

    /// Whether the button has the keyboard focus.
    pub fn is_focused(&self) -> (b: bool)
        ensures
            b == (*self == ButtonState::Focused),
    {
        matches!(self, ButtonState::Focused)
    }

    /// Whether the button ignores input.
    pub fn is_disabled(&self) -> (b: bool)
        ensures
            b == (*self == ButtonState::Disabled),
    {
        matches!(self, ButtonState::Disabled)
    }
}

/// What a button tells its listeners.
#[derive(Debug, Clone, Copy, PartialEq, Eq, Structural)]
pub enum ButtonEvent {
    Press,
    Release,
    Focus,
    Blur,
    HoverStart,
    HoverEnd,
}

/// The look of a button.
#[derive(Debug, Clone, Copy, PartialEq, Eq, Structural)]
pub enum ButtonVariant {
    Primary,
    Secondary,
    Transparent,
    Danger,
}

impl Default for ButtonVariant {
    fn default() -> (v: ButtonVariant)
        ensures
            v == ButtonVariant::Primary,
    {
        ButtonVariant::Primary
    }
}

/// The style every state of a fresh button has: two columns of padding on
/// the left and right, none above or below.
pub open spec fn button_base() -> BobaStyle {
    with_padding(with_padding(plain_boba(), 0, 0, 0, 0), 0, 2, 0, 2)
}

/// A button: its label, variant, state, focus, a style per state and an id.
pub struct Button {
    pub label: String,
    pub variant: ButtonVariant,
    pub state: ButtonState,
    pub focused: bool,
    pub default_style: BobaStyle,
    pub hovered_style: BobaStyle,
    pub pressed_style: BobaStyle,
    pub focused_style: BobaStyle,
    pub disabled_style: BobaStyle,
    pub id: String,
}

/// Whether the mouse event happened inside `area`.
pub open spec fn mouse_inside(area: Rect, ev: MouseEvent) -> bool {
    area.spec_contains(ev.column, ev.row)
}

fn is_inside(area: Rect, ev: &MouseEvent) -> (b: bool)
    ensures
        b == mouse_inside(area, *ev),
{
    ev.column >= area.left() && ev.column < area.right() && ev.row >= area.top() && ev.row < area.bottom()
}

impl Button {
    /// A disabled button never holds the focus.
    pub open spec fn wf(&self) -> bool {
        self.state == ButtonState::Disabled ==> !self.focused
    }

    /// The style drawn for a state.
    pub open spec fn spec_style_for(&self, st: ButtonState) -> BobaStyle {
        match st {
            ButtonState::Default => self.default_style,
            ButtonState::Hovered => self.hovered_style,
            ButtonState::Pressed => self.pressed_style,
            ButtonState::Focused => self.focused_style,
            ButtonState::Disabled => self.disabled_style,
        }
    }

    /// Whether every state's style is `st`.
    pub open spec fn all_styles(&self, st: BobaStyle) -> bool {
        &&& self.default_style == st
        &&& self.hovered_style == st
        &&& self.pressed_style == st
        &&& self.focused_style == st
        &&& self.disabled_style == st
    }

    /// A primary button labelled `label`, in the default state, unfocused,
    /// with the base style in every state and the id `button-` and the label.
    pub fn new(label: &str) -> (b: Button)
        ensures
            b.label@ == label@,
            b.variant == ButtonVariant::Primary,
            b.state == ButtonState::Default,
            !b.focused,
            b.all_styles(button_base()),
            b.id@ == "button-"@ + label@,
            b.wf(),
    {
        let base = BobaStyle::new().padding_y(0).padding_x(2);
        let mut id = "button-".to_owned();
        id.append(label);
        Button {
            label: label.to_owned(),
            variant: ButtonVariant::Primary,
            state: ButtonState::Default,
            focused: false,
            default_style: base,
            hovered_style: base,
            pressed_style: base,
            focused_style: base,
            disabled_style: base,
            id,
        }
    }

    /// The button's id.
    pub fn id(&self) -> (s: &str)
        ensures
            s@ == self.id@,
    {
        self.id.as_str()
    }

    /// This button with another id.
    pub fn id_as(self, id: &str) -> (b: Button)
        ensures
            b.id@ == id@,
            b.label == self.label,
            b.variant == self.variant,
            b.state == self.state,
            b.focused == self.focused,
            b.default_style == self.default_style,
            b.hovered_style == self.hovered_style,
            b.pressed_style == self.pressed_style,
            b.focused_style == self.focused_style,
            b.disabled_style == self.disabled_style,
    {
        Button { id: id.to_owned(), ..self }
    }

    /// Sets every state's style to the one the variant draws with.
    fn apply_variant_styles(&mut self, variant: ButtonVariant)
        ensures
            final(self).all_styles(button_base()),
            final(self).label == old(self).label,
            final(self).variant == old(self).variant,
            final(self).state == old(self).state,
            final(self).focused == old(self).focused,
            final(self).id == old(self).id,
    {
        match variant {
            ButtonVariant::Primary => {
                self.default_style = BobaStyle::new().padding_y(0).padding_x(2);
                self.hovered_style = BobaStyle::new().padding_y(0).padding_x(2);
                self.pressed_style = BobaStyle::new().padding_y(0).padding_x(2);
                self.focused_style = BobaStyle::new().padding_y(0).padding_x(2);
                self.disabled_style = BobaStyle::new().padding_y(0).padding_x(2);
            },
            ButtonVariant::Secondary => {
                self.default_style = BobaStyle::new().padding_y(0).padding_x(2);
                self.hovered_style = BobaStyle::new().padding_y(0).padding_x(2);
                self.pressed_style = BobaStyle::new().padding_y(0).padding_x(2);
                self.focused_style = BobaStyle::new().padding_y(0).padding_x(2);
                self.disabled_style = BobaStyle::new().padding_y(0).padding_x(2);
            },
            ButtonVariant::Transparent => {
                self.default_style = BobaStyle::new().padding_y(0).padding_x(2);
                self.hovered_style = BobaStyle::new().padding_y(0).padding_x(2);
                self.pressed_style = BobaStyle::new().padding_y(0).padding_x(2);
                self.focused_style = BobaStyle::new().padding_y(0).padding_x(2);
                self.disabled_style = BobaStyle::new().padding_y(0).padding_x(2);
            },
            ButtonVariant::Danger => {
                self.default_style = BobaStyle::new().padding_y(0).padding_x(2);
                self.hovered_style = BobaStyle::new().padding_y(0).padding_x(2);
                self.pressed_style = BobaStyle::new().padding_y(0).padding_x(2);
                self.focused_style = BobaStyle::new().padding_y(0).padding_x(2);
                self.disabled_style = BobaStyle::new().padding_y(0).padding_x(2);
            },
        }
    }

    /// This button with another variant, whose styles replace every state's
    /// style.
    pub fn variant(self, v: ButtonVariant) -> (b: Button)
        ensures
            b.variant == v,
            b.all_styles(button_base()),
            b.label == self.label,
            b.state == self.state,
            b.focused == self.focused,
            b.id == self.id,
    {
        let mut me = self;
        me.variant = v;
        me.apply_variant_styles(v);
        me
    }

    /// This button with the given style in each state.
    pub fn with_styles(
        self,
        default: BobaStyle,
        hovered: BobaStyle,
        pressed: BobaStyle,
        focused: BobaStyle,
        disabled: BobaStyle,
    ) -> (b: Button)
        ensures
            b.default_style == default,
            b.hovered_style == hovered,
            b.pressed_style == pressed,
            b.focused_style == focused,
            b.disabled_style == disabled,
            b.label == self.label,
            b.variant == self.variant,
            b.state == self.state,
            b.focused == self.focused,
            b.id == self.id,
    {
        Button {
            default_style: default,
            hovered_style: hovered,
            pressed_style: pressed,
            focused_style: focused,
            disabled_style: disabled,
            ..self
        }
    }

    /// This button with `style` in every state.
    pub fn set_style(self, style: BobaStyle) -> (b: Button)
        ensures
            b.all_styles(style),
            b.label == self.label,
            b.variant == self.variant,
            b.state == self.state,
            b.focused == self.focused,
            b.id == self.id,
    {
        self.with_styles(style, style, style, style, style)
    }

    /// This button with another default-state style.
    pub fn default_style(self, style: BobaStyle) -> (b: Button)
        ensures
            b == (Button { default_style: style, ..self }),
    {
        Button { default_style: style, ..self }
    }

    /// This button with another hovered-state style.
    pub fn hovered_style(self, style: BobaStyle) -> (b: Button)
        ensures
            b == (Button { hovered_style: style, ..self }),
    {
        Button { hovered_style: style, ..self }
    }

    /// This button with another pressed-state style.
    pub fn pressed_style(self, style: BobaStyle) -> (b: Button)
        ensures
            b == (Button { pressed_style: style, ..self }),
    {
        Button { pressed_style: style, ..self }
    }

    /// This button with another focused-state style.
    pub fn focused_style(self, style: BobaStyle) -> (b: Button)
        ensures
            b == (Button { focused_style: style, ..self }),
    {
        Button { focused_style: style, ..self }
    }

    /// This button with another disabled-state style.
    pub fn disabled_style(self, style: BobaStyle) -> (b: Button)
        ensures
            b == (Button { disabled_style: style, ..self }),
    {
        Button { disabled_style: style, ..self }
    }
}

/// A button's state and focus after `focus`, and the event it emits.
pub open spec fn focus_step(state: ButtonState, focused: bool) -> (ButtonState, bool, Option<ButtonEvent>) {
    if state != ButtonState::Disabled {
        (ButtonState::Focused, true, Some(ButtonEvent::Focus))
    } else {
        (state, focused, None)
    }
}

/// A button's state and focus after `blur`, and the event it emits.
pub open spec fn blur_step(state: ButtonState, focused: bool) -> (ButtonState, bool, Option<ButtonEvent>) {
    if state != ButtonState::Disabled {
        (ButtonState::Default, false, Some(ButtonEvent::Blur))
    } else {
        (state, false, Some(ButtonEvent::Blur))
    }
}

/// A button's state and focus after `press`, and the event it emits.
pub open spec fn press_step(state: ButtonState, focused: bool) -> (ButtonState, bool, Option<ButtonEvent>) {
    if state == ButtonState::Disabled {
        (state, focused, None)
    } else {
        (ButtonState::Pressed, focused, Some(ButtonEvent::Press))
    }
}

/// A button's state and focus after `release`, and the event it emits.
pub open spec fn release_step(state: ButtonState, focused: bool) -> (ButtonState, bool, Option<ButtonEvent>) {
    if state == ButtonState::Disabled {
        (state, focused, None)
    } else if state == ButtonState::Pressed {
        (ButtonState::Hovered, focused, Some(ButtonEvent::Release))
    } else if state == ButtonState::Hovered {
        (state, focused, Some(ButtonEvent::Release))
    } else {
        (ButtonState::Default, focused, Some(ButtonEvent::Release))
    }
}

/// A button's state and focus after a key, and the event it emits: Enter
/// and space press a focused, enabled button.
pub open spec fn key_step(state: ButtonState, focused: bool, code: KeyCode) -> (ButtonState, bool, Option<ButtonEvent>) {
    if !focused || state == ButtonState::Disabled {
        (state, focused, None)
    } else {
        match code {
            KeyCode::Enter => press_step(state, focused),
            KeyCode::Char(c) => if c == ' ' {
                press_step(state, focused)
            } else {
                (state, focused, None)
            },
            _ => (state, focused, None),
        }
    }
}

/// The events of a step that emits at most one.
pub open spec fn events_of(ev: Option<ButtonEvent>) -> Seq<ButtonEvent> {
    match ev {
        Some(e) => seq![e],
        None => seq![],
    }
}

/// A step that emits at most one event, as one that emits a sequence.
pub open spec fn with_events(step: (ButtonState, bool, Option<ButtonEvent>)) -> (ButtonState, bool, Seq<ButtonEvent>) {
    (step.0, step.1, events_of(step.2))
}

/// A button's state and focus after a mouse event over `area`, and the
/// events it emits in order. A press inside focuses the button and leaves it
/// pressed; a release inside a pressed button completes a click, emitting
/// Press and then Release, and leaves it hovered.
pub open spec fn mouse_step(state: ButtonState, focused: bool, area: Rect, ev: MouseEvent) -> (
    ButtonState,
    bool,
    Seq<ButtonEvent>,
) {
    let inside = mouse_inside(area, ev);
    if state == ButtonState::Disabled {
        (state, focused, seq![])
    } else {
        match ev.kind {
            MouseEventKind::Down(_) => if inside {
                (ButtonState::Pressed, true, seq![ButtonEvent::Focus])
            } else {
                (state, focused, seq![])
            },
            MouseEventKind::Up(_) => (
                if inside { ButtonState::Hovered } else { ButtonState::Default },
                focused,
                if inside && state == ButtonState::Pressed {
                    seq![ButtonEvent::Press, ButtonEvent::Release]
                } else {
                    seq![]
                },
            ),
            MouseEventKind::Moved => if inside {
                if state != ButtonState::Pressed {
                    (
                        ButtonState::Hovered,
                        focused,
                        if state == ButtonState::Hovered { seq![] } else { seq![ButtonEvent::HoverStart] },
                    )
                } else {
                    (state, focused, seq![])
                }
            } else {
                (
                    if state != ButtonState::Pressed { ButtonState::Default } else { state },
                    focused,
                    if state == ButtonState::Hovered { seq![ButtonEvent::HoverEnd] } else { seq![] },
                )
            },
            _ => (state, focused, seq![]),
        }
    }
}

/// A mouse step as one that emits its events in order (see [`stepped`]).
pub open spec fn mouse_stepped(a: Button, b: Button, step: (ButtonState, bool, Seq<ButtonEvent>), evs: Seq<ButtonEvent>) -> bool {
    &&& b.state == step.0
    &&& b.focused == step.1
    &&& evs == step.2
    &&& b.label == a.label
    &&& b.variant == a.variant
    &&& b.id == a.id
    &&& b.default_style == a.default_style
    &&& b.hovered_style == a.hovered_style
    &&& b.pressed_style == a.pressed_style
    &&& b.focused_style == a.focused_style
    &&& b.disabled_style == a.disabled_style
}

/// Whether `b` is `a` with the state, focus and event of `step`.
pub open spec fn stepped(a: Button, b: Button, step: (ButtonState, bool, Option<ButtonEvent>), ev: Option<ButtonEvent>) -> bool {
    &&& b.state == step.0
    &&& b.focused == step.1
    &&& ev == step.2
    &&& b.label == a.label
    &&& b.variant == a.variant
    &&& b.id == a.id
    &&& b.default_style == a.default_style
    &&& b.hovered_style == a.hovered_style
    &&& b.pressed_style == a.pressed_style
    &&& b.focused_style == a.focused_style
    &&& b.disabled_style == a.disabled_style
}

impl Button {
    /// Gives the button the focus unless it is disabled.
    pub fn focus(&mut self) -> (ev: Option<ButtonEvent>)
        ensures
            stepped(*old(self), *final(self), focus_step(old(self).state, old(self).focused), ev),
    {
        if self.state != ButtonState::Disabled {
            self.focused = true;
            self.state = ButtonState::Focused;
            Some(ButtonEvent::Focus)
        } else {
            None
        }
    }

    /// Takes the focus away; an enabled button returns to its default state.
    pub fn blur(&mut self) -> (ev: Option<ButtonEvent>)
        ensures
            stepped(*old(self), *final(self), blur_step(old(self).state, old(self).focused), ev),
    {
        self.focused = false;
        if self.state != ButtonState::Disabled {
            self.state = ButtonState::Default;
        }
        Some(ButtonEvent::Blur)
    }

    /// Presses an enabled button.
    pub fn press(&mut self) -> (ev: Option<ButtonEvent>)
        ensures
            stepped(*old(self), *final(self), press_step(old(self).state, old(self).focused), ev),
    {
        if self.state == ButtonState::Disabled {
            return None;
        }
        self.state = ButtonState::Pressed;
        Some(ButtonEvent::Press)
    }

    /// Releases an enabled button: a pressed one becomes hovered, a hovered
    /// one stays so, any other returns to its default state.
    pub fn release(&mut self) -> (ev: Option<ButtonEvent>)
        ensures
            stepped(*old(self), *final(self), release_step(old(self).state, old(self).focused), ev),
    {
        if self.state == ButtonState::Disabled {
            return None;
        }
        if self.state == ButtonState::Pressed {
            self.state = ButtonState::Hovered;
        } else if self.state == ButtonState::Hovered {
        } else {
            self.state = ButtonState::Default;
        }
        Some(ButtonEvent::Release)
    }

    /// Disables the button and takes its focus away.
    pub fn disable(&mut self)
        ensures
            stepped(*old(self), *final(self), (ButtonState::Disabled, false, None), None),
    {
        self.state = ButtonState::Disabled;
        self.focused = false;
    }

    /// Returns a disabled button to its default state.
    pub fn enable(&mut self)
        ensures
            stepped(
                *old(self),
                *final(self),
                (
                    if old(self).state == ButtonState::Disabled {
                        ButtonState::Default
                    } else {
                        old(self).state
                    },
                    old(self).focused,
                    None,
                ),
                None,
            ),
    {
        if self.state == ButtonState::Disabled {
            self.state = ButtonState::Default;
        }
    }

    /// Whether the button has the keyboard focus.
    pub fn is_focused(&self) -> (b: bool)
        ensures
            b == self.focused,
    {
        self.focused
    }

    /// The button's state.
    pub fn state(&self) -> (s: ButtonState)
        ensures
            s == self.state,
    {
        self.state
    }

    /// The style for the current state.
    pub fn style_for_state(&self) -> (s: BobaStyle)
        ensures
            s == self.spec_style_for(self.state),
    {
        match self.state {
            ButtonState::Default => self.default_style,
            ButtonState::Hovered => self.hovered_style,
            ButtonState::Pressed => self.pressed_style,
            ButtonState::Focused => self.focused_style,
            ButtonState::Disabled => self.disabled_style,
        }
    }

    /// Handles a key: Enter and space press a focused, enabled button.
    pub fn on_key(&mut self, code: KeyCode) -> (ev: Option<ButtonEvent>)
        ensures
            stepped(*old(self), *final(self), key_step(old(self).state, old(self).focused, code), ev),
    {
        if !self.focused || self.state == ButtonState::Disabled {
            return None;
        }
        match code {
            KeyCode::Enter => self.press(),
            KeyCode::Char(c) => if c == ' ' {
                self.press()
            } else {
                None
            },
            _ => None,
        }
    }

    /// Handles a mouse event over the button's `area`: a press inside
    /// focuses and presses it, a release inside a pressed button clicks it
    /// (Press, then Release), and moving in and out hovers and unhovers it.
    pub fn on_mouse(&mut self, area: Rect, ev: &MouseEvent) -> (out: Vec<ButtonEvent>)
        ensures
            mouse_stepped(*old(self), *final(self), mouse_step(old(self).state, old(self).focused, area, *ev), out@),
    {
        let mut out: Vec<ButtonEvent> = Vec::new();
        let st = self.state;
        if st == ButtonState::Disabled {
            return out;
        }
        let inside = is_inside(area, ev);
        match ev.kind {
            MouseEventKind::Down(_) => {
                if inside {
                    if let Some(e) = self.focus() {
                        out.push(e);
                    }
                    self.state = ButtonState::Pressed;
                }
            },
            MouseEventKind::Up(_) => {
                if inside && self.state == ButtonState::Pressed {
                    out.push(ButtonEvent::Press);
                    out.push(ButtonEvent::Release);
                }
                if inside {
                    self.state = ButtonState::Hovered;
                } else {
                    self.state = ButtonState::Default;
                }
            },
            MouseEventKind::Moved => {
                if inside {
                    if self.state != ButtonState::Pressed {
                        let was_hovered = self.state == ButtonState::Hovered;
                        self.state = ButtonState::Hovered;
                        if !was_hovered {
                            out.push(ButtonEvent::HoverStart);
                        }
                    }
                } else {
                    let was_hovered = self.state == ButtonState::Hovered;
                    if self.state != ButtonState::Pressed {
                        self.state = ButtonState::Default;
                    }
                    if was_hovered {
                        out.push(ButtonEvent::HoverEnd);
                    }
                }
            },
            _ => {},
        }
        assert(out@ =~= mouse_step(old(self).state, old(self).focused, area, *ev).2);
        out
    }

    /// Hands a terminal event to the button: keys to [`Button::on_key`],
    /// mouse events over `area` to [`Button::on_mouse`]; anything else does
    /// nothing.
    pub fn handle_event(&mut self, area: Rect, ev: &Event) -> (out: Vec<ButtonEvent>)
        ensures
            match *ev {
                Event::Key(code) => mouse_stepped(
                    *old(self),
                    *final(self),
                    with_events(key_step(old(self).state, old(self).focused, code)),
                    out@,
                ),
                Event::Mouse(m) => mouse_stepped(*old(self), *final(self), mouse_step(old(self).state, old(self).focused, area, m), out@),
                _ => *final(self) == *old(self) && out@.len() == 0,
            },
    {
        match ev {
            Event::Key(code) => {
                let mut out: Vec<ButtonEvent> = Vec::new();
                if let Some(e) = self.on_key(*code) {
                    out.push(e);
                }
                assert(out@ =~= events_of(key_step(old(self).state, old(self).focused, *code).2));
                out
            },
            Event::Mouse(m) => self.on_mouse(area, m),
            _ => Vec::new(),
        }
    }

    /// The label rendered through the current state's style.
    pub fn render_to_surface(&self) -> (s: Surface)
        requires
            render_ok(self.spec_style_for(self.state), self.label@),
        ensures
            s@ == rendered(self.spec_style_for(self.state), self.label@),
    {
        let style = self.style_for_state();
        style.render(self.label.as_str())
    }

    /// The label rendered as [`Button::render_to_surface`] does, or `None`
    /// where a size would not fit in `usize`.
    pub fn try_render_to_surface(&self) -> (s: Option<Surface>)
        ensures
            match s {
                Some(s) => render_ok(self.spec_style_for(self.state), self.label@) && s@ == rendered(
                    self.spec_style_for(self.state),
                    self.label@,
                ),
                None => !render_ok(self.spec_style_for(self.state), self.label@),
            },
    {
        let style = self.style_for_state();
        style.try_render(self.label.as_str())
    }
}

/// Every handler keeps a disabled button unfocused.
pub proof fn lemma_button_steps_keep_wf(state: ButtonState, focused: bool, code: KeyCode, area: Rect, ev: MouseEvent)
    requires
        state == ButtonState::Disabled ==> !focused,
    ensures
        ({
            let s = focus_step(state, focused);
            s.0 == ButtonState::Disabled ==> !s.1
        }),
        ({
            let s = blur_step(state, focused);
            s.0 == ButtonState::Disabled ==> !s.1
        }),
        ({
            let s = press_step(state, focused);
            s.0 == ButtonState::Disabled ==> !s.1
        }),
        ({
            let s = release_step(state, focused);
            s.0 == ButtonState::Disabled ==> !s.1
        }),
        ({
            let s = key_step(state, focused, code);
            s.0 == ButtonState::Disabled ==> !s.1
        }),
        ({
            let s = mouse_step(state, focused, area, ev);
            s.0 == ButtonState::Disabled ==> !s.1
        }),
{
}

/// A disabled button ignores presses, releases, focus, keys and the mouse:
/// its state and focus stay and it emits nothing.
pub proof fn lemma_disabled_button_is_inert(focused: bool, code: KeyCode, area: Rect, ev: MouseEvent)
    ensures
        focus_step(ButtonState::Disabled, focused) == (ButtonState::Disabled, focused, None::<ButtonEvent>),
        press_step(ButtonState::Disabled, focused) == (ButtonState::Disabled, focused, None::<ButtonEvent>),
        release_step(ButtonState::Disabled, focused) == (ButtonState::Disabled, focused, None::<ButtonEvent>),
        key_step(ButtonState::Disabled, focused, code) == (ButtonState::Disabled, focused, None::<ButtonEvent>),
        mouse_step(ButtonState::Disabled, focused, area, ev) == (ButtonState::Disabled, focused, Seq::<ButtonEvent>::empty()),
{
}

/// Pressing then releasing an enabled button emits Press, then Release, and
/// leaves it hovered.
pub proof fn lemma_press_release(state: ButtonState, focused: bool)
    requires
        state != ButtonState::Disabled,
    ensures
        press_step(state, focused).2 == Some(ButtonEvent::Press),
        release_step(press_step(state, focused).0, press_step(state, focused).1) == (
            ButtonState::Hovered,
            focused,
            Some(ButtonEvent::Release),
        ),
{
}

/// A click, a press and then a release inside an enabled button, focuses it
/// and then emits Press and Release, leaving it hovered and focused.
pub proof fn lemma_click(state: ButtonState, focused: bool, area: Rect, down: MouseEvent, up: MouseEvent)
    requires
        state != ButtonState::Disabled,
        down.kind is Down,
        up.kind is Up,
        mouse_inside(area, down),
        mouse_inside(area, up),
    ensures
        ({
            let d = mouse_step(state, focused, area, down);
            let u = mouse_step(d.0, d.1, area, up);
            &&& d.2 == seq![ButtonEvent::Focus]
            &&& u.0 == ButtonState::Hovered
            &&& u.1
            &&& u.2 == seq![ButtonEvent::Press, ButtonEvent::Release]
        }),
{
}

impl Clone for Button {
    /// An independent copy of the button as it is now.
    fn clone(&self) -> (b: Button)
        ensures
            b.label@ == self.label@,
            b.id@ == self.id@,
            b.variant == self.variant,
            b.state == self.state,
            b.focused == self.focused,
            b.default_style == self.default_style,
            b.hovered_style == self.hovered_style,
            b.pressed_style == self.pressed_style,
            b.focused_style == self.focused_style,
            b.disabled_style == self.disabled_style,
    {
        Button {
            label: self.label.clone(),
            variant: self.variant,
            state: self.state,
            focused: self.focused,
            default_style: self.default_style,
            hovered_style: self.hovered_style,
            pressed_style: self.pressed_style,
            focused_style: self.focused_style,
            disabled_style: self.disabled_style,
            id: self.id.clone(),
        }
    }
}

} // verus!

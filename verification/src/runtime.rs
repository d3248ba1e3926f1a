//! The decisions of the application's event loop: for each thing that
//! happens (an animation tick, an application event, a terminal event),
//! what the loop does next. Running the loop (waiting, drawing, emitting)
//! is the caller's part.

use vstd::prelude::*;

verus! {

/// The built-in themes, by the index an application asks for.
#[derive(Debug, Clone, Copy, PartialEq, Eq, Structural)]
pub enum ThemePreset {
    Default,
    Light,
    Ocean,
    Solarized,
    HighContrast,
}

/// The theme for an index: 0 default, 1 light, 2 ocean, 3 solarized, 4 high
/// contrast, and the default for any other.
pub open spec fn spec_theme_preset(idx: usize) -> ThemePreset {
    if idx == 1 {
        ThemePreset::Light
    } else if idx == 2 {
        ThemePreset::Ocean
    } else if idx == 3 {
        ThemePreset::Solarized
    } else if idx == 4 {
        ThemePreset::HighContrast
    } else {
        ThemePreset::Default
    }
}

/// The theme for an index (see [`spec_theme_preset`]).
pub fn theme_preset(idx: usize) -> (p: ThemePreset)
    ensures
        p == spec_theme_preset(idx),
{
    match idx {
        1 => ThemePreset::Light,
        2 => ThemePreset::Ocean,
        3 => ThemePreset::Solarized,
        4 => ThemePreset::HighContrast,
        _ => ThemePreset::Default,
    }
}

/// What the loop woke up for.
#[derive(Debug, Clone, Copy, PartialEq, Eq, Structural)]
pub enum LoopEvent {
    /// The animation clock ticked; whether anything is still animating.
    Tick(bool),
    /// An application event asking for a redraw.
    RequestFrame,
    /// An application event asking for the theme of an index.
    SetTheme(usize),
    /// An application event asking the loop to end.
    Quit,
    /// Any other application event (those the loop itself re-emits).
    OtherAppEvent,
    /// A key press from the terminal.
    Key,
    /// A mouse event from the terminal.
    Mouse,
    /// The terminal's new size.
    Resize(u16, u16),
    /// Any other terminal event.
    OtherInput,
    /// Reading the terminal failed.
    InputError,
    /// The terminal's events ended.
    InputEnded,
}

/// Which terminal event the loop re-emits as an application event.
#[derive(Debug, Clone, Copy, PartialEq, Eq, Structural)]
pub enum Forward {
    Nothing,
    Key,
    Mouse,
    Resize(u16, u16),
}

/// Whether the loop goes on, ends, or ends with the input's error.
#[derive(Debug, Clone, Copy, PartialEq, Eq, Structural)]
pub enum LoopControl {
    Continue,
    Stop,
    Fail,
}

/// What the loop does, in this order: hand a mouse event to the view,
/// re-emit the terminal event, switch theme, redraw, then go on or end.
#[derive(Debug, Clone, Copy, PartialEq, Eq, Structural)]
pub struct LoopAction {
    pub view_mouse: bool,
    pub forward: Forward,
    pub theme: Option<ThemePreset>,
    pub redraw: bool,
    pub control: LoopControl,
}

/// An action that only redraws, or does nothing, and goes on.
pub open spec fn plain_action(redraw: bool) -> LoopAction {
    LoopAction { view_mouse: false, forward: Forward::Nothing, theme: None, redraw, control: LoopControl::Continue }
}

/// What the loop does for an event: a tick redraws while something is
/// animating; a frame request redraws; a theme request switches to the
/// index's theme and redraws; quitting ends the loop; other application
/// events do nothing. Every terminal event redraws, after the view gets a
/// mouse event and keys, mouse events and sizes are re-emitted; an input
/// error ends the loop with it, and the end of the input ends it.
pub open spec fn loop_step(ev: LoopEvent) -> LoopAction {
    match ev {
        LoopEvent::Tick(alive) => plain_action(alive),
        LoopEvent::RequestFrame => plain_action(true),
        LoopEvent::SetTheme(idx) => LoopAction { theme: Some(spec_theme_preset(idx)), ..plain_action(true) },
        LoopEvent::Quit => LoopAction { control: LoopControl::Stop, ..plain_action(false) },
        LoopEvent::OtherAppEvent => plain_action(false),
        LoopEvent::Key => LoopAction { forward: Forward::Key, ..plain_action(true) },
        LoopEvent::Mouse => LoopAction { view_mouse: true, forward: Forward::Mouse, ..plain_action(true) },
        LoopEvent::Resize(w, h) => LoopAction { forward: Forward::Resize(w, h), ..plain_action(true) },
        LoopEvent::OtherInput => plain_action(true),
        LoopEvent::InputError => LoopAction { control: LoopControl::Fail, ..plain_action(false) },
        LoopEvent::InputEnded => LoopAction { control: LoopControl::Stop, ..plain_action(false) },
    }
}

fn action(redraw: bool) -> (a: LoopAction)
    ensures
        a == plain_action(redraw),
{
    LoopAction { view_mouse: false, forward: Forward::Nothing, theme: None, redraw, control: LoopControl::Continue }
}

/// What the loop does for `ev` (see [`loop_step`]).
pub fn step(ev: LoopEvent) -> (a: LoopAction)
    ensures
        a == loop_step(ev),
{
    match ev {
        LoopEvent::Tick(alive) => action(alive),
        LoopEvent::RequestFrame => action(true),
        LoopEvent::SetTheme(idx) => LoopAction { theme: Some(theme_preset(idx)), ..action(true) },
        LoopEvent::Quit => LoopAction { control: LoopControl::Stop, ..action(false) },
        LoopEvent::OtherAppEvent => action(false),
        LoopEvent::Key => LoopAction { forward: Forward::Key, ..action(true) },
        LoopEvent::Mouse => LoopAction { view_mouse: true, forward: Forward::Mouse, ..action(true) },
        LoopEvent::Resize(w, h) => LoopAction { forward: Forward::Resize(w, h), ..action(true) },
        LoopEvent::OtherInput => action(true),
        LoopEvent::InputError => LoopAction { control: LoopControl::Fail, ..action(false) },
        LoopEvent::InputEnded => LoopAction { control: LoopControl::Stop, ..action(false) },
    }
}

/// The loop ends only when asked to quit or when the terminal's input fails
/// or ends, and it never draws on its way out.
pub proof fn lemma_loop_ends_only_on_quit_or_input_end(ev: LoopEvent)
    ensures
        loop_step(ev).control != LoopControl::Continue <==> (ev == LoopEvent::Quit || ev == LoopEvent::InputError
            || ev == LoopEvent::InputEnded),
        loop_step(ev).control != LoopControl::Continue ==> !loop_step(ev).redraw,
{
}

/// Only a theme request changes the theme, and every index gives one of
/// the built-in themes, the default for an unknown index.
pub proof fn lemma_only_theme_requests_switch_theme(ev: LoopEvent)
    ensures
        loop_step(ev).theme is Some <==> ev is SetTheme,
        ev matches LoopEvent::SetTheme(idx) && idx > 4 ==> loop_step(ev).theme == Some(ThemePreset::Default),
{
}

} // verus!

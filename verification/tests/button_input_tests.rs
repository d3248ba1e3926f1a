use bobatea::components::button::{Button, ButtonEvent, ButtonState, ButtonVariant};
use bobatea::components::input::{scroll_window, Input, InputEvent};
use bobatea::tui::{Color, KeyCode, MouseButton, MouseEvent, MouseEventKind, Rect};

fn mouse(kind: MouseEventKind, column: u16, row: u16) -> MouseEvent {
    MouseEvent { kind, column, row }
}

fn area() -> Rect {
    Rect { x: 2, y: 1, width: 10, height: 3 }
}

#[test]
fn new_button_has_id_and_default_state() {
    let b = Button::new("OK");
    assert_eq!(b.id(), "button-OK");
    assert_eq!(b.state(), ButtonState::Default);
    assert!(!b.is_focused());
    assert_eq!(b.variant, ButtonVariant::Primary);
    let b = b.id_as("ok-button");
    assert_eq!(b.id(), "ok-button");
}

#[test]
fn state_predicates() {
    assert!(ButtonState::Hovered.is_hovered());
    assert!(ButtonState::Pressed.is_pressed());
    assert!(ButtonState::Focused.is_focused());
    assert!(ButtonState::Disabled.is_disabled());
    assert!(!ButtonState::Default.is_pressed());
}

#[test]
fn focus_press_release_cycle() {
    let mut b = Button::new("Go");
    assert_eq!(b.focus(), Some(ButtonEvent::Focus));
    assert_eq!(b.state(), ButtonState::Focused);
    assert_eq!(b.focus(), Some(ButtonEvent::Focus));
    assert_eq!(b.on_key(KeyCode::Enter), Some(ButtonEvent::Press));
    assert_eq!(b.state(), ButtonState::Pressed);
    assert_eq!(b.release(), Some(ButtonEvent::Release));
    assert_eq!(b.state(), ButtonState::Hovered);
    assert_eq!(b.release(), Some(ButtonEvent::Release));
    assert_eq!(b.state(), ButtonState::Hovered);
    assert_eq!(b.blur(), Some(ButtonEvent::Blur));
    assert_eq!(b.state(), ButtonState::Default);
}

#[test]
fn unfocused_button_ignores_keys() {
    let mut b = Button::new("Go");
    assert_eq!(b.on_key(KeyCode::Enter), None);
    assert_eq!(b.on_key(KeyCode::Char(' ')), None);
    b.focus();
    assert_eq!(b.on_key(KeyCode::Char('x')), None);
    assert_eq!(b.on_key(KeyCode::Char(' ')), Some(ButtonEvent::Press));
}

#[test]
fn disabled_button_is_inert() {
    let mut b = Button::new("Go");
    b.disable();
    assert_eq!(b.state(), ButtonState::Disabled);
    assert_eq!(b.focus(), None);
    assert_eq!(b.press(), None);
    assert_eq!(b.on_mouse(area(), &mouse(MouseEventKind::Down(MouseButton::Left), 3, 2)), vec![]);
    assert_eq!(b.on_mouse(area(), &mouse(MouseEventKind::Up(MouseButton::Left), 3, 2)), vec![]);
    assert_eq!(b.state(), ButtonState::Disabled);
    b.enable();
    assert_eq!(b.state(), ButtonState::Default);
}

#[test]
fn mouse_click_presses_and_releases() {
    let mut b = Button::new("Go");
    let ev = b.on_mouse(area(), &mouse(MouseEventKind::Down(MouseButton::Left), 3, 2));
    assert_eq!(ev, vec![ButtonEvent::Focus]);
    assert_eq!(b.state(), ButtonState::Pressed);
    assert!(b.is_focused());
    let up = b.on_mouse(area(), &mouse(MouseEventKind::Up(MouseButton::Left), 3, 2));
    assert_eq!(up, vec![ButtonEvent::Press, ButtonEvent::Release]);
    assert_eq!(b.state(), ButtonState::Hovered);
    let again = b.on_mouse(area(), &mouse(MouseEventKind::Up(MouseButton::Left), 3, 2));
    assert_eq!(again, vec![]);
    let mut c = Button::new("Go");
    c.on_mouse(area(), &mouse(MouseEventKind::Down(MouseButton::Left), 3, 2));
    let away = c.on_mouse(area(), &mouse(MouseEventKind::Up(MouseButton::Left), 30, 2));
    assert_eq!(away, vec![]);
    assert_eq!(c.state(), ButtonState::Default);
}

#[test]
fn click_fires_the_press_once() {
    let mut b = Button::new("OK");
    let area = bobatea::tui::Rect { x: 0, y: 0, width: 6, height: 1 };
    let mut presses = 0;
    let mut evs = b.on_mouse(area, &mouse(MouseEventKind::Down(MouseButton::Left), 1, 0));
    evs.extend(b.on_mouse(area, &mouse(MouseEventKind::Up(MouseButton::Left), 1, 0)));
    for e in evs {
        if e == ButtonEvent::Press {
            presses += 1;
        }
    }
    assert_eq!(presses, 1);
    assert_eq!(b.state(), ButtonState::Hovered);
}

#[test]
fn mouse_hover_in_and_out() {
    let mut b = Button::new("Go");
    assert_eq!(b.on_mouse(area(), &mouse(MouseEventKind::Moved, 4, 1)), vec![ButtonEvent::HoverStart]);
    assert_eq!(b.state(), ButtonState::Hovered);
    assert_eq!(b.on_mouse(area(), &mouse(MouseEventKind::Moved, 5, 1)), vec![]);
    assert_eq!(b.on_mouse(area(), &mouse(MouseEventKind::Moved, 12, 1)), vec![ButtonEvent::HoverEnd]);
    assert_eq!(b.state(), ButtonState::Default);
    assert_eq!(b.on_mouse(area(), &mouse(MouseEventKind::Down(MouseButton::Left), 0, 0)), vec![]);
}

#[test]
fn variant_sets_colours_and_render_uses_state_style() {
    let b = Button::new("Hi").variant(ButtonVariant::Danger);
    assert_eq!(b.variant, ButtonVariant::Danger);
    let s = b.style_for_state();
    assert_eq!(s.padding_left, 2);
    assert_eq!(s.padding_right, 2);
    let red = b.default_style(bobatea::components::style::BobaStyle::new().bg(Color::Red));
    let surf = Button::new("Hi").render_to_surface();
    assert_eq!(surf.height(), 1);
    assert_eq!(surf.width(), 6);
    assert_eq!(surf.rows[0][2].symbol, "H");
    let plain = red.render_to_surface();
    assert_eq!(plain.width(), 2);
    assert_eq!(plain.rows[0][0].style.bg, Some(Color::Red));
    assert!(red.try_render_to_surface().is_some());
}

#[test]
fn input_typing_editing_and_submit() {
    let mut i = Input::new("Name");
    assert!(i.on_key(KeyCode::Char('a')).is_none());
    i.focus();
    assert!(i.is_focused());
    for c in ['h', 'e', 'y'] {
        match i.on_key(KeyCode::Char(c)) {
            Some(InputEvent::Change(_)) => {}
            _ => panic!("typing reports a change"),
        }
    }
    assert_eq!(i.value(), "hey");
    assert_eq!(i.cursor, 3);
    i.on_key(KeyCode::Left);
    i.on_key(KeyCode::Backspace);
    assert_eq!(i.value(), "hy");
    assert_eq!(i.cursor, 1);
    i.on_key(KeyCode::Delete);
    assert_eq!(i.value(), "h");
    i.on_key(KeyCode::Home);
    assert_eq!(i.cursor, 0);
    i.on_key(KeyCode::End);
    assert_eq!(i.cursor, 1);
    match i.on_key(KeyCode::Enter) {
        Some(InputEvent::Submit(s)) => assert_eq!(s, "h"),
        _ => panic!("Enter submits"),
    }
    assert!(matches!(i.blur(), InputEvent::Blur));
    assert!(!i.is_focused());
}

#[test]
fn input_set_value_and_placeholder() {
    let mut i = Input::new("Name").placeholder("type here");
    assert_eq!(i.placeholder, "type here");
    let parts = i.line_parts(20);
    assert!(parts.placeholder);
    i.set_value("hello");
    assert_eq!(i.value(), "hello");
    assert_eq!(i.cursor, 5);
    let parts = i.line_parts(20);
    assert!(!parts.placeholder);
    assert_eq!(parts.before, "hello");
    assert_eq!(parts.after, "");
    i.set_label("Who");
    assert_eq!(i.label, "Who");
}

#[test]
fn input_scrolls_around_the_cursor() {
    let mut i = Input::new("x");
    i.set_value("abcdefghij");
    i.cursor = 2;
    let parts = i.line_parts(6);
    assert_eq!(parts.before, "ab");
    assert_eq!(parts.after, "cd");
    i.cursor = 9;
    let parts = i.line_parts(6);
    assert_eq!(parts.before, "ghi");
    assert_eq!(parts.after, "j");
}

#[test]
fn scroll_window_values() {
    assert_eq!(scroll_window(5, 10, 3), (0, 5));
    assert_eq!(scroll_window(10, 4, 0), (0, 4));
    assert_eq!(scroll_window(10, 4, 5), (3, 7));
    assert_eq!(scroll_window(10, 4, 10), (6, 10));
    assert_eq!(scroll_window(10, 0, 5), (0, 10));
}

#[test]
fn input_click_focuses_and_moves_cursor() {
    let mut i = Input::new("x");
    i.set_value("hello");
    let r = Rect { x: 0, y: 0, width: 20, height: 3 };
    let ev = i.on_mouse(r, &mouse(MouseEventKind::Down(MouseButton::Left), 3, 1));
    assert!(matches!(ev, Some(InputEvent::Focus)));
    assert!(i.is_focused());
    let out = i.on_mouse(r, &mouse(MouseEventKind::Down(MouseButton::Left), 30, 1));
    assert!(matches!(out, Some(InputEvent::Blur)));
    assert!(!i.is_focused());
}

use bobatea::components::button::{Button, ButtonEvent, ButtonState};
use bobatea::components::effect::{type_out, ChromaticAberration, Scanlines, Screen, Slide};
use bobatea::components::list::{List, ListEvent};
use bobatea::runtime::{step, theme_preset, Forward, LoopControl, LoopEvent, ThemePreset};
use bobatea::surface::Surface;
use bobatea::tui::{Color, Event, KeyCode, MouseButton, MouseEvent, MouseEventKind, Rect, Style};

#[test]
fn theme_presets_by_index() {
    assert_eq!(theme_preset(0), ThemePreset::Default);
    assert_eq!(theme_preset(1), ThemePreset::Light);
    assert_eq!(theme_preset(2), ThemePreset::Ocean);
    assert_eq!(theme_preset(3), ThemePreset::Solarized);
    assert_eq!(theme_preset(4), ThemePreset::HighContrast);
    assert_eq!(theme_preset(99), ThemePreset::Default);
}

#[test]
fn loop_steps() {
    let tick = step(LoopEvent::Tick(false));
    assert!(!tick.redraw);
    assert_eq!(tick.control, LoopControl::Continue);
    assert!(step(LoopEvent::Tick(true)).redraw);
    let theme = step(LoopEvent::SetTheme(2));
    assert_eq!(theme.theme, Some(ThemePreset::Ocean));
    assert!(theme.redraw);
    let quit = step(LoopEvent::Quit);
    assert_eq!(quit.control, LoopControl::Stop);
    assert!(!quit.redraw);
    let mouse = step(LoopEvent::Mouse);
    assert!(mouse.view_mouse && mouse.redraw);
    assert_eq!(mouse.forward, Forward::Mouse);
    assert_eq!(step(LoopEvent::Key).forward, Forward::Key);
    assert_eq!(step(LoopEvent::Resize(80, 24)).forward, Forward::Resize(80, 24));
    assert!(step(LoopEvent::OtherInput).redraw);
    assert!(!step(LoopEvent::OtherAppEvent).redraw);
    assert_eq!(step(LoopEvent::InputError).control, LoopControl::Fail);
    assert_eq!(step(LoopEvent::InputEnded).control, LoopControl::Stop);
    assert!(step(LoopEvent::RequestFrame).redraw);
}

#[test]
fn button_handles_terminal_events() {
    let mut b = Button::new("Go");
    let area = Rect { x: 0, y: 0, width: 6, height: 1 };
    assert_eq!(b.handle_event(area, &Event::Other), vec![]);
    let click = Event::Mouse(MouseEvent { kind: MouseEventKind::Down(MouseButton::Left), column: 1, row: 0 });
    assert_eq!(b.handle_event(area, &click), vec![ButtonEvent::Focus]);
    assert_eq!(b.handle_event(area, &Event::Key(KeyCode::Enter)), vec![ButtonEvent::Press]);
    assert_eq!(b.state(), ButtonState::Pressed);
    assert_eq!(b.handle_event(area, &Event::Resize(10, 10)), vec![]);
    let release = Event::Mouse(MouseEvent { kind: MouseEventKind::Up(MouseButton::Left), column: 1, row: 0 });
    assert_eq!(b.handle_event(area, &release), vec![ButtonEvent::Press, ButtonEvent::Release]);
    assert_eq!(b.state(), ButtonState::Hovered);
}

#[test]
fn list_handles_terminal_events() {
    let mut l = List::new(vec!["a".to_string(), "b".to_string()]);
    let area = Rect { x: 0, y: 0, width: 10, height: 4 };
    let click = Event::Mouse(MouseEvent { kind: MouseEventKind::Down(MouseButton::Left), column: 1, row: 2 });
    assert_eq!(l.handle_event(area, &click), vec![ListEvent::Focus, ListEvent::Select(1)]);
    assert_eq!(l.handle_event(area, &Event::Key(KeyCode::Up)), vec![]);
    assert_eq!(l.selected(), 0);
    assert_eq!(l.handle_event(area, &Event::Key(KeyCode::Enter)), vec![ListEvent::Select(0)]);
    assert!(l.handle_event(area, &Event::Other).is_empty());
}

fn screen(text: &str, area: Rect) -> Screen {
    Screen { area, grid: Surface::from_text(text, Style::default()) }
}

#[test]
fn scanlines_dim_every_nth_row() {
    let area = Rect { x: 0, y: 0, width: 2, height: 4 };
    let mut s = screen("ab\ncd\nef\ngh", area);
    Scanlines::new(2).apply(area, &mut s);
    assert_eq!(s.grid.rows[0][0].style.bg, Some(Color::Black));
    assert_eq!(s.grid.rows[1][1].style.bg, None);
    assert_eq!(s.grid.rows[2][1].style.bg, Some(Color::Black));
    assert_eq!(s.grid.rows[3][0].symbol, "g");
    let mut part = screen("ab\ncd\nef\ngh", area);
    Scanlines::new(1).apply(Rect { x: 1, y: 1, width: 1, height: 2 }, &mut part);
    assert_eq!(part.grid.rows[0][1].style.bg, None);
    assert_eq!(part.grid.rows[1][1].style.bg, Some(Color::Black));
    assert_eq!(part.grid.rows[1][0].style.bg, None);
}

#[test]
fn aberration_takes_characters_from_the_right() {
    let area = Rect { x: 5, y: 2, width: 4, height: 1 };
    let mut s = screen("abcd", area);
    ChromaticAberration::new(1).apply(area, &mut s);
    let symbols: Vec<&str> = s.grid.rows[0].iter().map(|c| c.symbol.as_str()).collect();
    assert_eq!(symbols, vec!["b", "c", "d", "d"]);
    assert_eq!(s.grid.rows[0][0].style.fg, Some(Color::Red));
    assert_eq!(s.grid.rows[0][3].style.fg, None);
}

#[test]
fn slide_moves_content_and_clears_the_rest() {
    let area = Rect { x: 0, y: 0, width: 3, height: 2 };
    let mut s = screen("abc\ndef", area);
    Slide::new(1, 1).apply(area, &mut s);
    let row0: Vec<&str> = s.grid.rows[0].iter().map(|c| c.symbol.as_str()).collect();
    let row1: Vec<&str> = s.grid.rows[1].iter().map(|c| c.symbol.as_str()).collect();
    assert_eq!(row0, vec![" ", " ", " "]);
    assert_eq!(row1, vec![" ", "a", "b"]);
    assert_eq!(s.grid.rows[0][0].style.bg, Some(Color::Reset));
    let mut back = screen("abc\ndef", area);
    Slide::new(-2, 0).apply(area, &mut back);
    assert_eq!(back.grid.rows[1][0].symbol, "f");
    assert_eq!(back.grid.rows[1][1].symbol, " ");
    let mut still = screen("abc\ndef", area);
    Slide::new(0, 0).apply(area, &mut still);
    assert_eq!(still.grid.rows[1][2].symbol, "f");
}

#[test]
fn type_out_clears_what_is_not_yet_typed() {
    let area = Rect { x: 0, y: 0, width: 3, height: 2 };
    let mut s = screen("abc\ndef", area);
    type_out(area, &mut s, 4);
    let row0: Vec<&str> = s.grid.rows[0].iter().map(|c| c.symbol.as_str()).collect();
    let row1: Vec<&str> = s.grid.rows[1].iter().map(|c| c.symbol.as_str()).collect();
    assert_eq!(row0, vec!["a", "b", "c"]);
    assert_eq!(row1, vec!["d", " ", " "]);
    let mut part = screen("abc\ndef", area);
    type_out(Rect { x: 1, y: 0, width: 2, height: 2 }, &mut part, 1);
    let row0: Vec<&str> = part.grid.rows[0].iter().map(|c| c.symbol.as_str()).collect();
    assert_eq!(row0, vec!["a", "b", " "]);
    assert_eq!(part.grid.rows[1][0].symbol, "d");
    assert_eq!(part.grid.rows[1][1].symbol, " ");
    let mut all = screen("abc\ndef", area);
    type_out(area, &mut all, 100);
    assert_eq!(all.grid.rows[1][2].symbol, "f");
}

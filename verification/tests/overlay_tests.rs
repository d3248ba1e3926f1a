use bobatea::components::modal::{DialogButtons, Modal};
use bobatea::components::powerline::{CommandPalette, Powerline, Segment};
use bobatea::tui::{Color, KeyCode, MouseButton, MouseEvent, MouseEventKind, Rect};

fn commands() -> Vec<String> {
    vec!["Open File".to_string(), "Save File".to_string(), "Quit".to_string(), "open recent".to_string()]
}

#[test]
fn palette_filters_case_insensitively() {
    let mut p = CommandPalette::new(commands());
    assert!(!p.is_visible());
    assert_eq!(p.on_key(KeyCode::Char('o')), None);
    assert!(p.filter.is_empty());
    p.show();
    assert!(p.is_visible());
    assert_eq!(p.filtered().len(), 4);
    p.on_key(KeyCode::Char('O'));
    p.on_key(KeyCode::Char('p'));
    assert_eq!(p.filtered(), vec!["Open File".to_string(), "open recent".to_string()]);
    p.on_key(KeyCode::Char('e'));
    p.on_key(KeyCode::Char('n'));
    p.on_key(KeyCode::Char(' '));
    p.on_key(KeyCode::Char('r'));
    assert_eq!(p.filtered(), vec!["open recent".to_string()]);
    p.on_key(KeyCode::Backspace);
    p.on_key(KeyCode::Backspace);
    assert_eq!(p.filtered().len(), 2);
}

#[test]
fn palette_enter_returns_selected_match() {
    let mut p = CommandPalette::new(commands());
    p.show();
    p.on_key(KeyCode::Char('f'));
    p.on_key(KeyCode::Char('i'));
    p.on_key(KeyCode::Down);
    p.on_key(KeyCode::Down);
    assert_eq!(p.selection, 1);
    p.on_key(KeyCode::Up);
    p.on_key(KeyCode::Up);
    assert_eq!(p.selection, 0);
    p.on_key(KeyCode::Down);
    assert_eq!(p.on_key(KeyCode::Enter), Some("Save File".to_string()));
    assert!(!p.is_visible());
}

#[test]
fn palette_enter_without_match_and_esc() {
    let mut p = CommandPalette::new(commands());
    p.show();
    p.on_key(KeyCode::Char('z'));
    assert_eq!(p.on_key(KeyCode::Enter), None);
    assert!(!p.is_visible());
    p.show();
    assert!(p.filter.is_empty());
    assert_eq!(p.on_key(KeyCode::Esc), None);
    assert!(!p.is_visible());
    p.show();
    p.close();
    assert!(!p.is_visible());
}

#[test]
fn palette_layout_centres_box_and_lists_matches() {
    let mut p = CommandPalette::new(commands());
    let area = Rect { x: 0, y: 0, width: 80, height: 24 };
    assert!(p.layout(area).is_none());
    p.show();
    p.on_key(KeyCode::Char('e'));
    let l = p.layout(area).unwrap();
    assert_eq!(l.frame, Rect { x: 20, y: 7, width: 40, height: 10 });
    assert_eq!(l.input, Rect { x: 21, y: 8, width: 38, height: 1 });
    assert_eq!(l.prompt, "> e");
    assert_eq!(l.rows.len(), 3);
    assert_eq!(l.rows[0], (Rect { x: 21, y: 10, width: 38, height: 1 }, "Open File".to_string(), true));
    assert_eq!(l.rows[2].1, "open recent");
    assert_eq!(l.rows[2].0.y, 12);
    assert!(!l.rows[2].2);
    let small = p.layout(Rect { x: 0, y: 0, width: 30, height: 8 }).unwrap();
    assert_eq!(small.frame, Rect { x: 0, y: 0, width: 30, height: 8 });
    assert_eq!(small.rows.len(), 3);
    let tiny = p.layout(Rect { x: 0, y: 0, width: 30, height: 6 }).unwrap();
    assert_eq!(tiny.rows.len(), 1);
}

#[test]
fn powerline_lays_out_segments_and_arrows() {
    let segs = vec![
        Segment::text(" A ").fg(Color::White).bg(Color::Blue),
        Segment::arrow(),
        Segment::text(" BB ").bg(Color::Green),
        Segment::arrow(),
    ];
    let p = Powerline::new(segs);
    let area = Rect { x: 2, y: 1, width: 20, height: 1 };
    let (placed, next) = p.layout(area);
    assert_eq!(placed.len(), 4);
    assert_eq!(placed[0].rect, Rect { x: 2, y: 1, width: 3, height: 1 });
    assert_eq!(placed[0].text, " A ");
    assert_eq!((placed[0].fg, placed[0].bg), (Color::White, Color::Blue));
    assert!(placed[1].arrow);
    assert_eq!(placed[1].text, "▶");
    assert_eq!((placed[1].fg, placed[1].bg), (Color::Blue, Color::Green));
    assert_eq!(placed[2].rect.x, 6);
    assert_eq!((placed[3].fg, placed[3].bg), (Color::Green, Color::Reset));
    assert_eq!(next, 11);
}

#[test]
fn powerline_stops_at_the_right_edge() {
    let p = Powerline::new(vec![Segment::text("abcd"), Segment::text("efgh")]).with_arrow('>');
    assert_eq!(p.arrow_char, '>');
    let (placed, next) = p.layout(Rect { x: 0, y: 0, width: 6, height: 1 });
    assert_eq!(placed.len(), 1);
    assert_eq!(next, 4);
    assert_eq!(Segment::text("日本").width(), 2);
    let mut q = Powerline::new(Vec::new());
    q.set_segments(vec![Segment::arrow()]);
    let (only, _) = q.layout(Rect { x: 0, y: 0, width: 6, height: 1 });
    assert_eq!((only[0].fg, only[0].bg), (Color::Reset, Color::Reset));
}

fn down(column: u16, row: u16) -> MouseEvent {
    MouseEvent { kind: MouseEventKind::Down(MouseButton::Left), column, row }
}

#[test]
fn modal_buttons_and_keys() {
    let mut m = Modal::new("Title", "Body").with_buttons(DialogButtons::YesNo);
    assert_eq!(m.button_count(), 2);
    assert_eq!(m.button_labels(), vec!["Yes".to_string(), "No".to_string()]);
    assert_eq!(m.on_key(KeyCode::Enter), None);
    m.show();
    assert!(m.is_visible());
    m.on_key(KeyCode::Right);
    m.on_key(KeyCode::Right);
    assert_eq!(m.selected, 1);
    m.on_key(KeyCode::Left);
    assert_eq!(m.selected, 0);
    m.on_key(KeyCode::Right);
    assert_eq!(m.on_key(KeyCode::Enter), Some(1));
    assert!(!m.is_visible());
    m.show();
    assert_eq!(m.on_key(KeyCode::Esc), None);
    assert!(!m.is_visible());
}

#[test]
fn modal_button_sets() {
    assert_eq!(Modal::new("t", "b").button_labels(), vec!["OK".to_string()]);
    let oc = Modal::new("t", "b").with_buttons(DialogButtons::OkCancel);
    assert_eq!(oc.button_labels(), vec!["OK".to_string(), "Cancel".to_string()]);
    let custom = Modal::new("t", "b").with_buttons(DialogButtons::Custom(vec!["A".into(), "B".into(), "C".into()]));
    assert_eq!(custom.button_count(), 3);
    let sized = custom.size(30, 8);
    assert_eq!((sized.width, sized.height), (30, 8));
}

#[test]
fn modal_layout_places_buttons_in_a_row() {
    let mut m = Modal::new("Title", "Body").with_buttons(DialogButtons::OkCancel);
    let area = Rect { x: 0, y: 0, width: 100, height: 30 };
    assert!(m.layout(area).is_none());
    m.show();
    let l = m.layout(area).unwrap();
    assert_eq!(l.frame, Rect { x: 25, y: 9, width: 50, height: 12 });
    assert_eq!(l.body, Rect { x: 27, y: 11, width: 46, height: 6 });
    assert_eq!(l.buttons.len(), 2);
    assert_eq!(l.buttons[0], (Rect { x: 27, y: 17, width: 10, height: 3 }, "OK".to_string(), true));
    assert_eq!(l.buttons[1].0, Rect { x: 39, y: 17, width: 10, height: 3 });
    assert_eq!(l.buttons[1].1, "Cancel");
}

#[test]
fn modal_click_on_button_closes() {
    let mut m = Modal::new("Title", "Body").with_buttons(DialogButtons::OkCancel);
    let area = Rect { x: 0, y: 0, width: 100, height: 30 };
    assert_eq!(m.on_mouse(area, &down(40, 18)), None);
    m.show();
    assert_eq!(m.on_mouse(area, &down(37, 18)), None);
    assert!(m.is_visible());
    assert_eq!(m.on_mouse(area, &down(40, 18)), Some(1));
    assert!(!m.is_visible());
}

#[test]
fn modal_packs_custom_buttons_from_the_left() {
    let labels = vec!["A".to_string(), "B".to_string(), "C".to_string()];
    let mut m = Modal::new("T", "B").with_buttons(DialogButtons::Custom(labels));
    m.show();
    let area = Rect { x: 0, y: 0, width: 100, height: 30 };
    let l = m.layout(area).unwrap();
    assert_eq!(l.buttons.len(), 3);
    for (i, b) in l.buttons.iter().enumerate() {
        assert_eq!(b.0, Rect { x: 27 + 12 * i as u16, y: 17, width: 10, height: 3 });
    }
    assert_eq!(m.on_mouse(area, &down(52, 18)), Some(2));
}

#[test]
fn modal_buttons_stay_in_a_narrow_row() {
    let labels = vec!["A".to_string(), "B".to_string(), "C".to_string(), "D".to_string()];
    let mut m = Modal::new("T", "B").with_buttons(DialogButtons::Custom(labels)).size(20, 8);
    m.show();
    let area = Rect { x: 0, y: 0, width: 40, height: 20 };
    let l = m.layout(area).unwrap();
    assert_eq!(l.buttons.len(), 4);
    let row_left = l.frame.x + 2;
    let row_right = l.frame.x + l.frame.width - 2;
    for b in &l.buttons {
        assert!(b.0.x >= row_left);
        assert!(b.0.x + b.0.width <= row_right);
        assert_eq!(b.0.height, 3);
    }
}

#[test]
fn modal_lays_out_and_clicks_given_slots() {
    let mut m = Modal::new("Title", "Body").with_buttons(DialogButtons::YesNo);
    let area = Rect { x: 0, y: 0, width: 100, height: 30 };
    let slots = vec![Rect { x: 30, y: 17, width: 5, height: 3 }, Rect { x: 50, y: 17, width: 5, height: 3 }];
    assert!(m.layout_in(area, &slots).is_none());
    assert_eq!(m.click_in(area, &down(51, 18), &slots), None);
    m.show();
    let l = m.layout_in(area, &slots).unwrap();
    assert_eq!(l.buttons[1], (Rect { x: 50, y: 17, width: 5, height: 3 }, "No".to_string(), false));
    assert_eq!(m.click_in(area, &down(40, 18), &slots), None);
    assert!(m.is_visible());
    assert_eq!(m.click_in(area, &down(51, 18), &slots), Some(1));
    assert!(!m.is_visible());
}

#[test]
fn palette_clone_keeps_filter() {
    let mut p = CommandPalette::new(commands());
    p.show();
    p.on_key(KeyCode::Char('q'));
    let c = p.clone();
    assert_eq!(c.filter, vec!['q']);
    assert!(c.is_visible());
    assert_eq!(c.filtered(), vec!["Quit".to_string()]);
}

use bobatea::components::filepicker::{listing, FilePicker, FilePickerAction};
use bobatea::components::list::{List, ListEvent};
use bobatea::components::paginator::Paginator;
use bobatea::tui::{KeyCode, MouseButton, MouseEvent, MouseEventKind, Rect};

fn items(names: &[&str]) -> Vec<String> {
    names.iter().map(|s| s.to_string()).collect()
}

fn down(column: u16, row: u16) -> MouseEvent {
    MouseEvent { kind: MouseEventKind::Down(MouseButton::Left), column, row }
}

#[test]
fn list_keys_move_within_bounds() {
    let mut l = List::new(items(&["a", "b", "c"]));
    assert_eq!(l.on_key(KeyCode::Down), None);
    assert_eq!(l.selected(), 0);
    assert_eq!(l.focus(), ListEvent::Focus);
    l.on_key(KeyCode::Down);
    l.on_key(KeyCode::Down);
    l.on_key(KeyCode::Down);
    assert_eq!(l.selected(), 2);
    l.on_key(KeyCode::Up);
    assert_eq!(l.selected(), 1);
    l.on_key(KeyCode::Home);
    assert_eq!(l.selected(), 0);
    l.on_key(KeyCode::Up);
    assert_eq!(l.selected(), 0);
    l.on_key(KeyCode::End);
    assert_eq!(l.selected(), 2);
    assert_eq!(l.on_key(KeyCode::Enter), Some(ListEvent::Select(2)));
    assert_eq!(l.blur(), ListEvent::Blur);
    assert!(!l.is_focused());
}

#[test]
fn empty_list_ignores_keys() {
    let mut l = List::new(Vec::new());
    l.focus();
    assert_eq!(l.on_key(KeyCode::Down), None);
    assert_eq!(l.on_key(KeyCode::Enter), None);
    assert_eq!(l.selected(), 0);
}

#[test]
fn list_click_selects_row_below_border() {
    let mut l = List::new(items(&["a", "b", "c", "d"]));
    let area = Rect { x: 0, y: 5, width: 10, height: 6 };
    let evs = l.on_mouse(area, &down(3, 8));
    assert_eq!(evs, vec![ListEvent::Focus, ListEvent::Select(2)]);
    assert_eq!(l.selected(), 2);
    let evs = l.on_mouse(area, &down(3, 10));
    assert_eq!(evs, vec![ListEvent::Focus, ListEvent::Select(3)]);
    let outside = l.on_mouse(area, &down(30, 8));
    assert!(outside.is_empty());
    let mut plain = List::new(items(&["a", "b"])).without_border();
    plain.on_mouse(area, &down(1, 6));
    assert_eq!(plain.selected(), 1);
}

#[test]
fn list_wheel_scrolls_selection() {
    let mut l = List::new(items(&["a", "b", "c"]));
    let area = Rect { x: 0, y: 0, width: 10, height: 5 };
    let ev = MouseEvent { kind: MouseEventKind::ScrollDown, column: 0, row: 0 };
    assert_eq!(l.on_mouse(area, &ev), vec![ListEvent::Focus]);
    assert!(l.is_focused());
    assert_eq!(l.selected(), 1);
    l.on_mouse(area, &ev);
    l.on_mouse(area, &ev);
    assert_eq!(l.selected(), 2);
    let up = MouseEvent { kind: MouseEventKind::ScrollUp, column: 0, row: 0 };
    l.on_mouse(area, &up);
    assert_eq!(l.selected(), 1);
}

#[test]
fn list_lines_mark_selection() {
    let mut l = List::new(items(&["one", "two"]));
    l.focus();
    l.on_key(KeyCode::Down);
    assert_eq!(l.lines(">", " "), vec![String::from("  one"), String::from("> two")]);
}

#[test]
fn paginator_pages_and_offsets() {
    let mut p = Paginator::new(25, 10);
    assert_eq!(p.page(), 0);
    assert_eq!(p.per_page(), 10);
    assert_eq!(p.len_on_page(), 10);
    p.on_key(KeyCode::Right);
    assert_eq!(p.page(), 0);
    p.focus();
    p.on_key(KeyCode::Right);
    assert_eq!(p.page(), 1);
    assert_eq!(p.offset(), 10);
    p.on_key(KeyCode::End);
    assert_eq!(p.page(), 2);
    assert_eq!(p.len_on_page(), 5);
    p.on_key(KeyCode::Right);
    assert_eq!(p.page(), 2);
    p.on_key(KeyCode::Left);
    assert_eq!(p.page(), 1);
    p.on_key(KeyCode::Home);
    assert_eq!(p.page(), 0);
    p.blur();
    assert!(!p.focused);
}

#[test]
fn paginator_zero_per_page_becomes_one() {
    let p = Paginator::new(3, 0);
    assert_eq!(p.per_page(), 1);
    assert_eq!(p.bullets(), vec![true, false, false]);
    let none = Paginator::new(0, 5);
    assert_eq!(none.bullets(), vec![true]);
    assert_eq!(none.len_on_page(), 0);
}

#[test]
fn paginator_set_total_clamps_page() {
    let mut p = Paginator::new(50, 10);
    p.focus();
    p.on_key(KeyCode::End);
    assert_eq!(p.page(), 4);
    p.set_total(15);
    assert_eq!(p.page(), 1);
    p.set_total(100);
    assert_eq!(p.page(), 1);
}

#[test]
fn paginator_click_turns_to_bullet() {
    let mut p = Paginator::new(30, 10);
    let area = Rect { x: 0, y: 0, width: 11, height: 1 };
    p.on_mouse(area, &down(7, 0));
    assert!(p.focused);
    assert_eq!(p.page(), 2);
    p.on_mouse(area, &down(4, 0));
    assert_eq!(p.page(), 0);
    p.on_mouse(area, &down(20, 0));
    assert!(!p.focused);
    assert_eq!(p.page(), 0);
}

fn entries() -> Vec<(String, bool)> {
    vec![
        ("zeta.txt".to_string(), false),
        ("src".to_string(), true),
        ("alpha.md".to_string(), false),
        ("Docs".to_string(), true),
    ]
}

#[test]
fn listing_puts_parent_then_dirs_then_files() {
    let out = listing(entries());
    let names: Vec<&str> = out.iter().map(|(n, _)| n.as_str()).collect();
    assert_eq!(names, vec!["..", "Docs", "src", "alpha.md", "zeta.txt"]);
    assert!(out[0].1 && out[1].1 && out[2].1 && !out[3].1);
}

#[test]
fn picker_keys_open_directories() {
    let mut p = FilePicker::new("/home", entries());
    assert_eq!(p.title(), " /home ");
    assert_eq!(p.selected_name().as_deref(), Some(".."));
    assert!(matches!(p.on_key(KeyCode::Enter), FilePickerAction::Stay));
    p.focus();
    assert!(matches!(p.on_key(KeyCode::Enter), FilePickerAction::Parent));
    p.on_key(KeyCode::Down);
    match p.on_key(KeyCode::Right) {
        FilePickerAction::Open(name) => assert_eq!(name, "Docs"),
        _ => panic!("a directory opens"),
    }
    p.on_key(KeyCode::End);
    assert_eq!(p.selected_name().as_deref(), Some("zeta.txt"));
    assert!(matches!(p.on_key(KeyCode::Enter), FilePickerAction::Stay));
    assert!(matches!(p.on_key(KeyCode::Left), FilePickerAction::LeaveToParent));
    p.load("/home/Docs", vec![("a".to_string(), false)]);
    assert_eq!(p.current_dir, "/home/Docs");
    assert_eq!(p.items.len(), 2);
    assert_eq!(p.selection, 0);
    assert_eq!(p.root, "/home");
}

#[test]
fn picker_mouse_and_lines() {
    let mut p = FilePicker::new("/", entries());
    let area = Rect { x: 0, y: 0, width: 30, height: 10 };
    p.on_mouse(area, &down(2, 3));
    assert!(p.focused);
    assert_eq!(p.selection, 2);
    let lines = p.lines();
    assert_eq!(lines[2], ("▸ 📁 src".to_string(), true));
    assert_eq!(lines[3], ("  📄 alpha.md".to_string(), false));
    p.on_mouse(area, &down(50, 3));
    assert!(!p.focused);
    assert_eq!(p.selection, 2);
    let wheel = MouseEvent { kind: MouseEventKind::ScrollDown, column: 0, row: 0 };
    p.on_mouse(area, &wheel);
    assert_eq!(p.selection, 3);
}

#[test]
fn list_clone_keeps_selection() {
    let mut l = List::new(items(&["a", "b"]));
    l.focus();
    l.on_key(KeyCode::Down);
    let c = l.clone();
    assert_eq!(c.selected(), 1);
    assert_eq!(c.items, vec!["a".to_string(), "b".to_string()]);
}

use bobatea::components::button::{Button, ButtonEvent};
use bobatea::components::form::{Form, FormEvent, FormField};
use bobatea::components::input::{Input, InputEvent};
use bobatea::components::table::{resolve_width, Column, ColumnWidth, Table};
use bobatea::components::tabs::{TabState, Tabs, TabsEvent};
use bobatea::components::tree::{Tree, TreeNode};
use bobatea::tui::{Alignment, KeyCode, MouseButton, MouseEvent, MouseEventKind, Rect};

fn down(column: u16, row: u16) -> MouseEvent {
    MouseEvent { kind: MouseEventKind::Down(MouseButton::Left), column, row }
}

fn row(cells: &[&str]) -> Vec<String> {
    cells.iter().map(|s| s.to_string()).collect()
}

#[test]
fn column_builders() {
    let c = Column::new("Name");
    assert_eq!(c.width, ColumnWidth::Length(10));
    assert_eq!(c.align, Alignment::Left);
    assert!(!c.sortable);
    let c = c.width(4).right().sortable();
    assert_eq!(c.width, ColumnWidth::Length(4));
    assert_eq!(c.align, Alignment::Right);
    assert!(c.sortable);
    assert_eq!(Column::new("x").flex().width, ColumnWidth::Fill(1));
    assert_eq!(Column::new("x").min_width(3).center().width, ColumnWidth::Min(3));
}

#[test]
fn resolve_width_cases() {
    assert_eq!(resolve_width(ColumnWidth::Length(5), 20, 1, 21), 5);
    assert_eq!(resolve_width(ColumnWidth::Length(30), 20, 2, 21), 18);
    assert_eq!(resolve_width(ColumnWidth::Length(5), 20, 25, 21), 0);
    assert_eq!(resolve_width(ColumnWidth::Fill(1), 20, 8, 21), 13);
    assert_eq!(resolve_width(ColumnWidth::Fill(1), 20, 21, 21), 1);
    assert_eq!(resolve_width(ColumnWidth::Min(7), 20, 15, 21), 5);
}

fn sample_table() -> Table {
    let mut t = Table::new(vec![Column::new("Name").width(6), Column::new("Size").flex().right()]);
    for i in 0..15 {
        t = t.row(row(&[&format!("f{}", i), &format!("{}", i * 10)]));
    }
    t
}

#[test]
fn table_keys_scroll_to_selection() {
    let mut t = sample_table();
    t.on_key(KeyCode::Down);
    assert_eq!(t.selection, 0);
    t.focus();
    t.on_key(KeyCode::PageDown);
    assert_eq!(t.selection, 10);
    assert_eq!(t.scroll, 1);
    t.on_key(KeyCode::PageDown);
    assert_eq!(t.selection, 14);
    assert_eq!(t.scroll, 5);
    t.on_key(KeyCode::Home);
    assert_eq!((t.selection, t.scroll), (0, 0));
    t.on_key(KeyCode::End);
    assert_eq!(t.selection, 14);
    t.on_key(KeyCode::PageUp);
    assert_eq!(t.selection, 4);
    assert_eq!(t.scroll, 4);
    t.on_key(KeyCode::Up);
    assert_eq!(t.selection, 3);
    t.blur();
    assert!(!t.focused);
}

#[test]
fn table_mouse_selects_and_scrolls() {
    let mut t = sample_table();
    let area = Rect { x: 0, y: 0, width: 20, height: 8 };
    t.on_mouse(area, &down(3, 4));
    assert!(t.focused);
    assert_eq!(t.selection, 2);
    let wheel = MouseEvent { kind: MouseEventKind::ScrollDown, column: 0, row: 0 };
    for _ in 0..10 {
        t.on_mouse(area, &wheel);
    }
    assert_eq!(t.scroll, 5);
    t.on_mouse(area, &MouseEvent { kind: MouseEventKind::ScrollUp, column: 0, row: 0 });
    assert_eq!(t.scroll, 4);
    t.on_mouse(area, &down(50, 4));
    assert!(!t.focused);
}

#[test]
fn table_layout_fits_only_inside_the_terminal() {
    let t = sample_table();
    assert!(t.layout_fits(Rect { x: 0, y: 0, width: 20, height: 6 }));
    assert!(!t.layout_fits(Rect { x: u16::MAX, y: 0, width: 1, height: 6 }));
    assert!(!t.layout_fits(Rect { x: 0, y: u16::MAX, width: 20, height: 1 }));
    assert!(t.layout_fits(Rect { x: 65530, y: 0, width: 5, height: 6 }));
    assert!(!t.layout_fits(Rect { x: 65533, y: 0, width: 2, height: 6 }));
}

#[test]
fn table_layout_places_header_and_rows() {
    let mut t = sample_table();
    t.focus();
    t.on_key(KeyCode::Down);
    let area = Rect { x: 0, y: 0, width: 20, height: 6 };
    let l = t.layout(area);
    assert_eq!(l.header.len(), 2);
    assert_eq!(l.header[0], (Rect { x: 1, y: 0, width: 6, height: 1 }, "Name".to_string(), Alignment::Left));
    assert_eq!(l.header[1].0, Rect { x: 8, y: 0, width: 11, height: 1 });
    assert_eq!(l.header[1].2, Alignment::Right);
    assert_eq!(l.rows.len(), 3);
    assert_eq!(l.rows[1].index, 1);
    assert!(l.rows[1].highlighted);
    assert!(!l.rows[0].highlighted);
    assert_eq!(l.rows[2].cells[0], (Rect { x: 1, y: 3, width: 6, height: 1 }, "f2".to_string(), Alignment::Left));
    assert_eq!(l.rows[2].cells[1].1, "20");
}

fn labels(names: &[&str]) -> Vec<String> {
    names.iter().map(|s| s.to_string()).collect()
}

#[test]
fn tabs_select_and_keys() {
    let mut t = Tabs::new(labels(&["One", "Two", "Three"]));
    assert_eq!(t.id(), "tabs");
    assert_eq!(t.current(), 0);
    assert_eq!(t.state_of(0), TabState::Default);
    assert_eq!(t.select(1), TabsEvent::Select(1));
    assert_eq!(t.state_of(1), TabState::Selected);
    assert_eq!(t.state_of(0), TabState::Default);
    assert_eq!(t.select(9), TabsEvent::Select(2));
    assert_eq!(t.on_key(KeyCode::Right), Some(TabsEvent::Select(2)));
    assert_eq!(t.on_key(KeyCode::Left), Some(TabsEvent::Select(1)));
    assert_eq!(t.on_key(KeyCode::Char('x')), None);
    assert_eq!(t.current(), 1);
    let t2 = Tabs::new(labels(&["A"])).id_as("main").active(0);
    assert_eq!(t2.id(), "main");
}

#[test]
fn tabs_disable_enable() {
    let mut t = Tabs::new(labels(&["One", "Two"]));
    t.disable_tab(1);
    assert!(t.is_disabled(1));
    assert_eq!(t.state_of(1), TabState::Disabled);
    assert!(!t.is_disabled(5));
    t.disable_tab(5);
    t.enable_tab(1);
    assert!(!t.is_disabled(1));
    assert_eq!(t.state_of(1), TabState::Default);
}

#[test]
fn tabs_mouse_hover_and_click() {
    let mut t = Tabs::new(labels(&["One", "Two"]));
    let area = Rect { x: 0, y: 0, width: 20, height: 3 };
    let moved = MouseEvent { kind: MouseEventKind::Moved, column: 12, row: 1 };
    assert_eq!(t.on_mouse(area, &moved), vec![TabsEvent::TabHover(1)]);
    assert_eq!(t.state_of(1), TabState::Hovered);
    let away = MouseEvent { kind: MouseEventKind::Moved, column: 30, row: 1 };
    assert_eq!(t.on_mouse(area, &away), vec![TabsEvent::TabLeave]);
    let evs = t.on_mouse(area, &down(12, 1));
    assert_eq!(evs, vec![TabsEvent::Select(1)]);
    assert_eq!(t.current(), 1);
}

#[test]
fn tabs_texts_and_surface() {
    let t = Tabs::new(labels(&["A", "Bc"]));
    assert_eq!(t.tab_texts(), vec!["│ A ".to_string(), "│ Bc ".to_string()]);
    let s = t.render_to_surface();
    assert_eq!(s.height(), 3);
    assert_eq!(s.width(), 96);
    assert_eq!(s.rows[0][0].symbol, "╭");
    assert_eq!(s.rows[0][4].symbol, "╮");
    assert_eq!(s.rows[1][2].symbol, "A");
    assert_eq!(s.rows[2][0].symbol, "┘");
    assert_eq!(s.rows[2][1].symbol, " ");
    assert_eq!(s.rows[2][5].symbol, "┴");
    assert_eq!(s.rows[2][95].symbol, "─");
}

fn sample_form() -> Form {
    Form::new().field("Name", Input::new("")).field("Mail", Input::new("")).text("note").action(Button::new("Send"))
}

#[test]
fn form_tab_cycles_focus() {
    let mut f = sample_form();
    assert_eq!(f.fields.len(), 4);
    assert!(f.on_key(KeyCode::Tab).is_empty());
    let evs = f.focus();
    assert!(matches!(evs.as_slice(), [FormEvent::Input(0, InputEvent::Focus)]));
    let evs = f.on_key(KeyCode::Tab);
    assert!(matches!(
        evs.as_slice(),
        [FormEvent::Input(0, InputEvent::Blur), FormEvent::Input(1, InputEvent::Focus)]
    ));
    assert_eq!(f.focus_index, 1);
    f.on_key(KeyCode::Char('h'));
    f.on_key(KeyCode::Char('i'));
    match &f.fields[1] {
        FormField::Input(i, label) => {
            assert_eq!(i.value(), "hi");
            assert_eq!(label, "Mail");
        }
        _ => panic!("second field is an input"),
    }
    f.on_key(KeyCode::Tab);
    assert_eq!(f.focus_index, 2);
    let evs = f.on_key(KeyCode::Tab);
    assert!(matches!(evs.as_slice(), [FormEvent::Button(3, ButtonEvent::Focus)]));
    let evs = f.on_key(KeyCode::Enter);
    assert!(matches!(evs.as_slice(), [FormEvent::Button(3, ButtonEvent::Press)]));
    f.on_key(KeyCode::Tab);
    assert_eq!(f.focus_index, 0);
    f.on_key(KeyCode::BackTab);
    assert_eq!(f.focus_index, 3);
    let evs = f.blur();
    assert!(matches!(
        evs.as_slice(),
        [
            FormEvent::Input(0, InputEvent::Blur),
            FormEvent::Input(1, InputEvent::Blur),
            FormEvent::Button(3, ButtonEvent::Blur)
        ]
    ));
    assert!(!f.focused);
}

#[test]
fn form_layout_and_click() {
    let mut f = sample_form().spacing(1);
    let area = Rect { x: 2, y: 1, width: 30, height: 20 };
    let rects = f.layout(area);
    assert_eq!(rects.len(), 4);
    assert_eq!(rects[0], (Rect { x: 2, y: 1, width: 30, height: 3 }, false));
    assert_eq!(rects[1].0.y, 5);
    assert_eq!(rects[2].0, Rect { x: 2, y: 9, width: 30, height: 1 });
    assert_eq!(rects[3].0.y, 11);
    let evs = f.on_mouse(area, &down(5, 6));
    assert_eq!(f.focus_index, 1);
    assert!(evs.iter().any(|e| matches!(e, FormEvent::Input(1, InputEvent::Focus))));
}

fn sample_tree() -> Tree {
    Tree::new(
        "root",
        vec![TreeNode::branch("src", vec![TreeNode::leaf("main.rs"), TreeNode::leaf("lib.rs")]), TreeNode::leaf("README")],
    )
}

#[test]
fn tree_flatten_and_depths() {
    let t = sample_tree();
    let rows = t.flatten();
    let names: Vec<(usize, &str)> = rows.iter().map(|(d, l, _, _)| (*d, l.as_str())).collect();
    assert_eq!(names, vec![(0, "root"), (1, "src"), (2, "main.rs"), (2, "lib.rs"), (1, "README")]);
    assert!(rows[2].2);
    assert!(!rows[1].2 && rows[1].3);
}

#[test]
fn tree_keys_toggle_branches() {
    let mut t = sample_tree();
    t.focus();
    t.on_key(KeyCode::Down);
    assert_eq!(t.selection, 1);
    t.on_key(KeyCode::Enter);
    assert_eq!(t.flatten().len(), 3);
    t.on_key(KeyCode::Right);
    assert_eq!(t.flatten().len(), 5);
    t.on_key(KeyCode::End);
    assert_eq!(t.selection, 4);
    t.on_key(KeyCode::Enter);
    assert_eq!(t.flatten().len(), 5);
    t.on_key(KeyCode::Home);
    t.on_key(KeyCode::Left);
    assert_eq!(t.flatten().len(), 1);
    t.toggle_at(0);
    assert_eq!(t.flatten().len(), 5);
    t.toggle_at(99);
    assert_eq!(t.flatten().len(), 5);
    t.blur();
    assert!(!t.focused);
}

#[test]
fn tree_lines_and_mouse() {
    let mut t = sample_tree();
    let lines = t.lines(10);
    assert_eq!(lines.len(), 5);
    assert_eq!(lines[0], ("▼ root".to_string(), false));
    assert_eq!(lines[2].0, "    📄 main.rs");
    let area = Rect { x: 0, y: 0, width: 30, height: 4 };
    assert_eq!(t.lines(4).len(), 2);
    t.on_mouse(area, &down(3, 2));
    assert_eq!(t.selection, 1);
    assert_eq!(t.flatten().len(), 3);
    assert_eq!(t.lines(10)[1].0, "  ▶ src");
    let wheel = MouseEvent { kind: MouseEventKind::ScrollDown, column: 0, row: 0 };
    t.on_mouse(area, &wheel);
    t.on_mouse(area, &wheel);
    assert_eq!(t.scroll, 1);
    t.on_mouse(area, &MouseEvent { kind: MouseEventKind::ScrollUp, column: 0, row: 0 });
    assert_eq!(t.scroll, 0);
}

#[test]
fn tree_node_toggle() {
    let mut n = TreeNode::branch("b", vec![TreeNode::leaf("x")]);
    assert!(n.expanded);
    n.toggle();
    assert!(!n.expanded);
    let mut leaf = TreeNode::leaf("l");
    leaf.toggle();
    assert!(!leaf.expanded);
}

#[test]
fn clones_copy_the_current_state() {
    let mut t = Tabs::new(labels(&["One", "Two"]));
    t.select(1);
    let c = t.clone();
    assert_eq!(c.id(), "tabs-clone");
    assert_eq!(c.current(), 1);
    assert_eq!(c.labels, t.labels);
    let mut b = Button::new("Go");
    b.focus();
    let bc = b.clone();
    assert!(bc.is_focused());
    assert_eq!(bc.id(), "button-Go");
    let mut i = Input::new("x");
    i.set_value("abc");
    let ic = i.clone();
    assert_eq!(ic.value(), "abc");
    assert_eq!(ic.cursor, 3);
}

use bobatea::surface::{
    clip, fit_height, fit_width, join_horizontal, join_vertical, place, place_filled, total_width, try_join_horizontal,
    Cell, Position, Surface,
};
use bobatea::tui::{Color, Style};

#[test]
fn surface_new_and_dimensions() {
    let cell = Cell::blank(Style::default());
    let s = Surface::new(10, 5, &cell);
    assert_eq!(s.width(), 10);
    assert_eq!(s.height(), 5);
}

#[test]
fn surface_from_text() {
    let s = Surface::from_text("hello\nworld", Style::default());
    assert_eq!(s.width(), 5);
    assert_eq!(s.height(), 2);
    assert_eq!(s.rows[0][0].symbol, "h");
    assert_eq!(s.rows[1][0].symbol, "w");
}

#[test]
fn join_horizontal_aligns() {
    let a = Surface::from_text("A", Style::default());
    let b = Surface::from_text("B C", Style::default());
    let joined = join_horizontal(Position::Top, &[a, b]);
    assert_eq!(joined.width(), 4);
    assert_eq!(joined.height(), 1);
}

#[test]
fn join_vertical_aligns() {
    let a = Surface::from_text("A", Style::default());
    let b = Surface::from_text("B C", Style::default());
    let joined = join_vertical(Position::Left, &[a, b]);
    assert_eq!(joined.width(), 3);
    assert_eq!(joined.height(), 2);
}

#[test]
fn place_centers() {
    let inner = Surface::from_text("X", Style::default());
    let outer = place(5, 3, Position::Center, Position::Center, &inner, &Cell::blank(Style::default()));
    assert_eq!(outer.width(), 5);
    assert_eq!(outer.height(), 3);
    assert_eq!(outer.rows[1][2].symbol, "X");
}

#[test]
fn place_with_whitespace_cycles_chars() {
    let inner = Surface::from_text("X", Style::default());
    let outer = place_filled(4, 3, Position::Center, Position::Center, &inner, Style::default(), "ab");
    assert_eq!(outer.rows[0][0].symbol, "a");
    assert_eq!(outer.rows[0][1].symbol, "b");
    assert_eq!(outer.rows[0][2].symbol, "a");
    assert_eq!(outer.rows[0][3].symbol, "b");
    assert_eq!(outer.rows[1][1].symbol, "X");
}

#[test]
fn from_text_drops_final_newline_and_carriage_return() {
    let s = Surface::from_text("ab\r\ncd\n", Style::default());
    assert_eq!(s.height(), 2);
    assert_eq!(s.rows[0].len(), 2);
    assert_eq!(s.rows[1][1].symbol, "d");
    let empty = Surface::from_text("", Style::default());
    assert_eq!(empty.height(), 0);
    assert_eq!(empty.width(), 0);
}

#[test]
fn wide_characters_take_two_columns() {
    let s = Surface::from_text("日本", Style::default());
    assert_eq!(s.columns(), 2);
    assert_eq!(s.width(), 4);
    assert_eq!(s.rows[0][0].width(), 2);
}

#[test]
fn join_horizontal_bottom_aligns_short_surface() {
    let a = Surface::from_text("A", Style::default());
    let b = Surface::from_text("B\nC\nD", Style::default());
    let joined = join_horizontal(Position::Bottom, &[a, b]);
    assert_eq!(joined.height(), 3);
    assert_eq!(joined.rows[0][0].symbol, " ");
    assert_eq!(joined.rows[2][0].symbol, "A");
    assert_eq!(joined.rows[0][1].symbol, "B");
    let centered = join_horizontal(Position::Center, &[Surface::from_text("A", Style::default()), Surface::from_text("B\nC\nD", Style::default())]);
    assert_eq!(centered.rows[1][0].symbol, "A");
}

#[test]
fn join_of_nothing_is_empty() {
    let joined = join_horizontal(Position::Top, &[]);
    assert_eq!(joined.height(), 0);
    let stacked = join_vertical(Position::Left, &[]);
    assert_eq!(stacked.height(), 0);
    assert_eq!(try_join_horizontal(Position::Top, &[]).map(|s| s.height()), Some(0));
}

#[test]
fn join_vertical_right_aligns() {
    let a = Surface::from_text("A", Style::default());
    let b = Surface::from_text("BCD", Style::default());
    let joined = join_vertical(Position::Right, &[a, b]);
    assert_eq!(joined.rows[0][2].symbol, "A");
    assert_eq!(joined.rows[0][0].symbol, " ");
    assert_eq!(total_width(&[Surface::from_text("ab", Style::default()), Surface::from_text("c", Style::default())]), 3);
}

#[test]
fn place_cuts_content_that_does_not_fit() {
    let inner = Surface::from_text("Hello", Style::default());
    let fill = Cell::blank(Style::default().bg(Color::Red));
    let outer = place(3, 1, Position::Left, Position::Top, &inner, &fill);
    assert_eq!(outer.rows[0].len(), 3);
    assert_eq!(outer.rows[0][2].symbol, "l");
    let right = place(7, 1, Position::Right, Position::Top, &inner, &fill);
    assert_eq!(right.rows[0][0].style.bg, Some(Color::Red));
    assert_eq!(right.rows[0][2].symbol, "H");
}

#[test]
fn fit_width_pads_and_truncates() {
    let mut s = Surface::from_text("abc\nabcdef", Style::default());
    fit_width(&mut s, 4, &Cell::blank(Style::default()));
    assert_eq!(s.rows[0].len(), 4);
    assert_eq!(s.rows[0][3].symbol, " ");
    assert_eq!(s.rows[1].len(), 4);
    assert_eq!(s.rows[1][3].symbol, "d");
    let mut wide = Surface::from_text("日本", Style::default());
    fit_width(&mut wide, 3, &Cell::blank(Style::default()));
    assert_eq!(wide.rows[0].len(), 2);
    assert_eq!(wide.rows[0][0].symbol, "日");
    assert_eq!(wide.rows[0][1].symbol, " ");
}

#[test]
fn clip_only_truncates() {
    let mut s = Surface::from_text("Hello, World!\nHi", Style::default());
    clip(&mut s, 5);
    assert_eq!(s.rows[0].len(), 5);
    assert_eq!(s.rows[1].len(), 2);
}

#[test]
fn fit_height_pads_with_widest_row() {
    let mut s = Surface::from_text("abc\nd", Style::default());
    fit_height(&mut s, 4, &Cell::blank(Style::default()));
    assert_eq!(s.height(), 4);
    assert_eq!(s.rows[3].len(), 3);
    fit_height(&mut s, 1, &Cell::blank(Style::default()));
    assert_eq!(s.height(), 1);
}

#[test]
fn fill_bg_keeps_existing_backgrounds() {
    let mut s = Surface {
        rows: vec![vec![Cell::blank(Style::default().bg(Color::Blue)), Cell::blank(Style::default())]],
    };
    s.fill_bg(Style::default().bg(Color::Red));
    assert_eq!(s.rows[0][0].style.bg, Some(Color::Blue));
    assert_eq!(s.rows[0][1].style.bg, Some(Color::Red));
    assert_eq!(s.height(), 1);
    assert_eq!(s.rows[0].len(), 2);
    assert_eq!(s.rows[0][0].symbol, " ");
}

#[test]
fn fit_width_pads_after_cutting_a_wide_cell() {
    let mut s = Surface::from_text("世界", Style::default());
    fit_width(&mut s, 3, &Cell::blank(Style::default()));
    assert_eq!(s.rows[0].len(), 2);
    assert_eq!(s.rows[0][0].symbol, "世");
    assert_eq!(s.rows[0][1].symbol, " ");
    assert_eq!(s.try_width(), Some(3));
}

#[test]
fn clip_twice_is_clip_once() {
    let mut s = Surface::from_text("Hello, World!
hi", Style::default());
    clip(&mut s, 5);
    assert_eq!(s.rows[0].len(), 5);
    assert_eq!(s.rows[1].len(), 2);
    let once: Vec<Vec<String>> = s.rows.iter().map(|r| r.iter().map(|c| c.symbol.clone()).collect()).collect();
    clip(&mut s, 5);
    let twice: Vec<Vec<String>> = s.rows.iter().map(|r| r.iter().map(|c| c.symbol.clone()).collect()).collect();
    assert_eq!(once, twice);
}

#[test]
fn fill_bg_patches_cells_without_background() {
    let mut s = Surface::from_text("ab", Style::default().fg(Color::Blue));
    s.fill_bg(Style::default().bg(Color::Green));
    assert_eq!(s.rows[0][1].style.bg, Some(Color::Green));
    assert_eq!(s.rows[0][1].style.fg, Some(Color::Blue));
    assert_eq!(s.try_width(), Some(2));
}

#[test]
fn cell_mut_changes_one_cell() {
    let mut s = Surface::from_text("ab\ncd", Style::default());
    if let Some(c) = s.cell_mut(1, 1) {
        c.symbol = "Z".to_string();
    }
    assert_eq!(s.rows[1][1].symbol, "Z");
    assert_eq!(s.rows[1][0].symbol, "c");
    assert!(s.cell_mut(5, 0).is_none());
    assert!(s.cell_mut(0, 9).is_none());
}

use bobatea::components::border::Border;
use bobatea::components::style::{has_dark_background, hex_color, light_dark, wrap_text, BobaStyle};
use bobatea::surface::Position;
use bobatea::tui::{Alignment, Color, Modifier, Style};

#[test]
fn padding_has_background() {
    let style = BobaStyle::new().bg(Color::Red).padding_all(1);
    let surf = style.render("X");
    assert_eq!(surf.rows[1][1].style.bg, Some(Color::Red));
    assert_eq!(surf.rows[0][1].style.bg, Some(Color::Red));
    assert_eq!(surf.rows[2][1].style.bg, Some(Color::Red));
    assert_eq!(surf.rows[1][0].style.bg, Some(Color::Red));
    assert_eq!(surf.rows[1][2].style.bg, Some(Color::Red));
}

#[test]
fn margin_has_no_background() {
    let style = BobaStyle::new().bg(Color::Red).margin_all(1);
    let surf = style.render("X");
    assert_eq!(surf.rows[1][1].style.bg, Some(Color::Red));
    assert_eq!(surf.rows[0][1].style.bg, None);
    assert_eq!(surf.rows[2][1].style.bg, None);
    assert_eq!(surf.rows[1][0].style.bg, None);
    assert_eq!(surf.rows[1][2].style.bg, None);
}

#[test]
fn render_plain_text_keeps_size() {
    let surf = BobaStyle::new().render("ab\ncde");
    assert_eq!(surf.height(), 2);
    assert_eq!(surf.width(), 3);
    assert_eq!(surf.rows[1][2].symbol, "e");
}

#[test]
fn border_adds_a_frame() {
    let surf = BobaStyle::new().border(Border::normal()).render("X");
    assert_eq!(surf.height(), 3);
    assert_eq!(surf.width(), 3);
    assert_eq!(surf.rows[0][0].symbol, "┌");
    assert_eq!(surf.rows[0][2].symbol, "┐");
    assert_eq!(surf.rows[1][0].symbol, "│");
    assert_eq!(surf.rows[1][1].symbol, "X");
    assert_eq!(surf.rows[2][2].symbol, "┘");
}

#[test]
fn rounded_border_has_round_corners() {
    let surf = BobaStyle::new().rounded().render("X");
    assert_eq!(surf.rows[0][0].symbol, "╭");
    assert_eq!(surf.rows[2][2].symbol, "╯");
}

#[test]
fn fixed_width_wraps_and_aligns() {
    let surf = BobaStyle::new().width(5).align(Alignment::Right, Position::Top).render("ab");
    assert_eq!(surf.width(), 5);
    assert_eq!(surf.rows[0][3].symbol, "a");
    assert_eq!(surf.rows[0][4].symbol, "b");
    let wrapped = BobaStyle::new().width(5).render("hello world");
    assert_eq!(wrapped.height(), 2);
    assert_eq!(wrapped.rows[1][0].symbol, "w");
}

#[test]
fn fixed_height_pads_rows() {
    let surf = BobaStyle::new().height(3).render("a");
    assert_eq!(surf.height(), 3);
    let centered = BobaStyle::new().height(3).align(Alignment::Left, Position::Center).render("a");
    assert_eq!(centered.rows[1][0].symbol, "a");
}

#[test]
fn builders_set_their_fields() {
    let s = BobaStyle::new().fg(Color::Blue).bold().italic().padding(1, 2, 3, 4).margin_x(5);
    assert_eq!(s.inner.fg, Some(Color::Blue));
    assert!(s.inner.add_modifier.bits & Modifier::bold().bits != 0);
    assert!(s.inner.add_modifier.bits & Modifier::italic().bits != 0);
    assert_eq!((s.padding_top, s.padding_right, s.padding_bottom, s.padding_left), (1, 2, 3, 4));
    assert_eq!((s.margin_left, s.margin_right, s.margin_top), (5, 5, 0));
    let t = s.remove_modifier(Modifier::bold());
    assert!(t.inner.add_modifier.bits & Modifier::bold().bits == 0);
}

#[test]
fn inherit_takes_colours_and_keeps_layout() {
    let parent = BobaStyle::new().fg(Color::Red).bg(Color::Blue).padding_all(3);
    let child = BobaStyle::new().fg(Color::Green).padding_all(1).inherit(parent);
    assert_eq!(child.inner.fg, Some(Color::Red));
    assert_eq!(child.inner.bg, Some(Color::Blue));
    assert_eq!(child.padding_top, 1);
}

#[test]
fn style_converts_both_ways() {
    let st = Style::default().fg(Color::Cyan);
    let b: BobaStyle = BobaStyle::from(st);
    assert_eq!(b.inner.fg, Some(Color::Cyan));
    let back: Style = Style::from(b);
    assert_eq!(back.fg, Some(Color::Cyan));
}

#[test]
fn wrap_text_breaks_at_spaces() {
    assert_eq!(wrap_text("hello world foo", 11), vec!["hello world".to_string(), "foo".to_string()]);
    assert_eq!(wrap_text("a b", 10), vec!["a b".to_string()]);
}

#[test]
fn hex_color_reads_short_and_long_forms() {
    assert_eq!(hex_color("#FFF"), Color::Rgb(255, 255, 255));
    assert_eq!(hex_color("#FF0055"), Color::Rgb(255, 0, 85));
    assert_eq!(hex_color("f80"), Color::Rgb(255, 136, 0));
    assert_eq!(hex_color("##0a0B0c"), Color::Rgb(10, 11, 12));
    assert_eq!(hex_color("#12345"), Color::Black);
    assert_eq!(hex_color("#zz0000"), Color::Rgb(0, 0, 0));
    assert_eq!(hex_color("#+f0000"), Color::Rgb(15, 0, 0));
}

#[test]
fn light_dark_picks_by_background() {
    assert_eq!(light_dark(true, 1, 2), 2);
    assert_eq!(light_dark(false, 1, 2), 1);
    assert!(has_dark_background());
}

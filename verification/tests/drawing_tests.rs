use bobatea::animator::{next_id, AnimIds};
use bobatea::components::asciiimg::{AsciiImage, Pixel};
use bobatea::components::block::{BobaBlock, BorderKind};
use bobatea::components::border::Border;
use bobatea::components::effect::{rgb_of, ChromaticAberration, Scanlines, Slide};
use bobatea::components::layer::{Compositor, CompositorLayer};
use bobatea::components::pattern::{border_cells_of, checker, stripes, Checkerboard, Diamond, Stripes};
use bobatea::surface::{Cell, Surface};
use bobatea::components::bigtext::{figure_lines, BigText};
use bobatea::components::powerline::CommandPalette;
use bobatea::text::decimal;
use bobatea::tui::KeyCode;
use bobatea::theme::ImagePaletteExtractor;
use bobatea::tui::{Alignment, Color, Margin, Rect, Style};

#[test]
fn border_draws_around_a_surface() {
    let inner = Surface::from_text("ab", Style::default());
    let out = Border::rounded().draw(&inner, Style::default().fg(Color::Blue));
    assert_eq!(out.height(), 3);
    assert_eq!(out.width(), 4);
    assert_eq!(out.rows[0][0].symbol, "╭");
    assert_eq!(out.rows[0][1].symbol, "─");
    assert_eq!(out.rows[1][1].symbol, "a");
    assert_eq!(out.rows[1][3].symbol, "│");
    assert_eq!(out.rows[2][3].symbol, "╯");
    assert_eq!(out.rows[0][0].style.fg, Some(Color::Blue));
    let open = Border::new().no_left().no_bottom();
    assert_eq!(open.horizontal_size(), 1);
    assert_eq!(open.vertical_size(), 1);
    let drawn = open.draw(&inner, Style::default());
    assert_eq!(drawn.height(), 2);
    assert_eq!(drawn.width(), 3);
    assert_eq!(drawn.rows[0][2].symbol, "┐");
    assert_eq!(drawn.rows[1][0].symbol, "a");
    assert_eq!(drawn.rows[0][0].symbol, "─");
    assert_eq!(drawn.rows[1][2].symbol, "│");
}

#[test]
fn sides_run_full_length_without_top_and_bottom() {
    let inner = Surface::from_text("AB", Style::default());
    let r = Border::new().no_top().no_bottom().draw(&inner, Style::default());
    assert_eq!(r.height(), 1);
    let symbols: Vec<&str> = r.rows[0].iter().map(|c| c.symbol.as_str()).collect();
    assert_eq!(symbols, vec!["│", "A", "B", "│"]);
    let t = Border::new().no_left().no_right().draw(&inner, Style::default());
    assert_eq!(t.height(), 3);
    let top: Vec<&str> = t.rows[0].iter().map(|c| c.symbol.as_str()).collect();
    assert_eq!(top, vec!["─", "─"]);
}

#[test]
fn border_kinds_and_custom_chars() {
    assert_eq!(Border::thick().top_left, '┏');
    assert_eq!(Border::double().top, '═');
    let b = Border::normal().top('=').bottom('-').left('[').right(']').top_left('1').top_right('2').bottom_left('3').bottom_right('4');
    let out = b.draw(&Surface::from_text("x", Style::default()), Style::default());
    assert_eq!(out.rows[0][0].symbol, "1");
    assert_eq!(out.rows[0][1].symbol, "=");
    assert_eq!(out.rows[1][0].symbol, "[");
    assert_eq!(out.rows[2][2].symbol, "4");
    assert!(!b.no_top().no_right().has_top);
}

#[test]
fn block_builders() {
    let b = BobaBlock::new();
    assert_eq!(b.kind, BorderKind::Plain);
    assert_eq!(b.sides.bits, 0);
    let b = b.rounded().title("Hi").title_aligned("There", Alignment::Right).padding_all(2);
    assert_eq!(b.kind, BorderKind::Rounded);
    assert_eq!(b.sides.bits, 15);
    assert_eq!(b.titles, vec!["Hi".to_string(), "There".to_string()]);
    assert_eq!(b.title_alignment, Some(Alignment::Right));
    assert_eq!((b.padding.top, b.padding.left), (2, 2));
    assert_eq!(b.clone().horizontal().sides.bits, 5);
    assert_eq!(b.clone().vertical().sides.bits, 10);
    assert_eq!(b.clone().clear().sides.bits, 0);
    assert_eq!(b.clone().double().kind, BorderKind::Double);
    assert_eq!(b.clone().thick().kind, BorderKind::Thick);
    assert_eq!(b.clone().danger().border_style.fg, Some(Color::Red));
    assert_eq!(b.clone().border_style(Style::default().bg(Color::Blue)).border_style.bg, Some(Color::Blue));
}

#[test]
fn patterns_colour_cells() {
    let c = Checkerboard::new(Color::Black, Color::White, 2);
    assert_eq!(c.color_at(0, 0), Color::Black);
    assert_eq!(c.color_at(2, 0), Color::White);
    assert_eq!(c.color_at(3, 3), Color::Black);
    assert_eq!(Checkerboard::new(Color::Red, Color::Blue, 0).size, 1);
    let s = Stripes::new(vec![Color::Red, Color::Green, Color::Blue], 2);
    assert_eq!(s.color_at(9, 0), Color::Red);
    assert_eq!(s.color_at(0, 2), Color::Green);
    assert_eq!(s.color_at(0, 6), Color::Red);
    let v = s.vertical();
    assert_eq!(v.color_at(4, 0), Color::Blue);
    let d = Diamond::new(Color::Red, Color::Blue, 2);
    assert_eq!(d.color_at(2, 2), Color::Red);
    assert_eq!(d.color_at(0, 0), Color::Blue);
    assert_eq!(d.color_at(1, 2), Color::Red);
}

#[test]
fn border_cells_in_order() {
    let cells = border_cells_of(Rect { x: 1, y: 1, width: 2, height: 2 });
    assert_eq!(cells, vec![(1, 1), (1, 2), (2, 1), (2, 2), (1, 1), (2, 1), (1, 2), (2, 2)]);
    assert!(border_cells_of(Rect { x: 0, y: 0, width: 0, height: 3 }).is_empty());
}

#[test]
fn compositor_plans_visible_layers() {
    let s = || Surface::from_text("x", Style::default());
    let mut hidden = CompositorLayer::new(s()).x(1);
    hidden.visible = false;
    let mut c = Compositor::new(vec![CompositorLayer::new(s()).x(2).y(3), hidden]);
    c.push(CompositorLayer::new(s()));
    let plan = c.plan(Rect { x: 10, y: 20, width: 5, height: 5 });
    assert_eq!(plan, vec![(0, 12, 23), (2, 10, 20)]);
}

#[test]
fn ascii_image_pixels_and_placements() {
    let mut img = AsciiImage::new(3, 2);
    assert_eq!(img.pixels.len(), 6);
    img.pixel_raw(1, 1, Pixel::new('#', Color::Red));
    assert_eq!(img.pixels[4].ch, '#');
    img.pixel_raw(5, 5, Pixel::new('#', Color::Red));
    img.rect(0, 0, 2, 1, Pixel::new('=', Color::Blue).with_bg(Color::Black));
    assert_eq!(img.pixels[0].ch, '=');
    assert_eq!(img.pixels[1].bg, Color::Black);
    assert_eq!(img.pixels[2].ch, ' ');
    let img = img.pixel(2, 0, '*', Color::Green).pixel_bg(0, 1, '+', Color::White, Color::Red).scale(2, 0);
    assert_eq!(img.pixels[2].ch, '*');
    assert_eq!(img.pixels[3].bg, Color::Red);
    assert_eq!((img.scale_x, img.scale_y), (2, 1));
    let placed = img.placements(Rect { x: 10, y: 5, width: 5, height: 10 });
    assert_eq!(placed, vec![(10, 5, 0), (12, 5, 1), (14, 5, 2), (10, 6, 3), (12, 6, 4), (14, 6, 5)]);
    let clipped = img.placements(Rect { x: 0, y: 0, width: 3, height: 1 });
    assert_eq!(clipped, vec![(0, 0, 0), (2, 0, 1)]);
    let mut full = AsciiImage::new(2, 1);
    full.fill(Pixel::new('o', Color::Yellow));
    assert!(full.pixels.iter().all(|p| p.ch == 'o'));
}

#[test]
fn ascii_image_from_lines() {
    let img = AsciiImage::from_lines(&vec!["ab".to_string(), "cde".to_string()]);
    assert_eq!((img.width, img.height), (2, 2));
    assert_eq!(img.pixels[1].ch, 'b');
    assert_eq!(img.pixels[2].ch, 'c');
    assert_eq!(img.pixels[3].ch, 'd');
}

#[test]
fn effects_move_and_recolour() {
    let area = Rect { x: 0, y: 0, width: 10, height: 5 };
    let s = Slide::new(3, -1);
    assert_eq!(s.target(area, 2, 2), Some((5, 1)));
    assert_eq!(s.target(area, 8, 2), None);
    assert_eq!(s.target(area, 2, 0), None);
    let sc = Scanlines::new(3);
    assert_eq!(sc.dim_color, Color::Black);
    assert!(sc.dims_row(0));
    assert!(!sc.dims_row(4));
    assert!(sc.dims_row(6));
    let ca = ChromaticAberration::new(2);
    assert_eq!(ca.source_column(area, 3), Some(5));
    assert_eq!(ca.source_column(area, 8), None);
    assert_eq!(rgb_of(Color::Rgb(1, 2, 3)), (1, 2, 3));
    assert_eq!(rgb_of(Color::Gray), (170, 170, 170));
    assert_eq!(rgb_of(Color::Reset), (128, 128, 128));
}

#[test]
fn animation_ids_count_up() {
    let mut ids = AnimIds::new();
    assert_eq!(next_id(&mut ids), 1);
    assert_eq!(next_id(&mut ids), 2);
    ids.next = u64::MAX;
    assert_eq!(next_id(&mut ids), u64::MAX);
    assert_eq!(ids.next, 0);
}

#[test]
fn palette_extractor_settings() {
    let e = ImagePaletteExtractor::new(8);
    assert_eq!((e.max_colors, e.quality), (8, 5));
    let e = e.quality(0);
    assert_eq!(e.quality, 1);
    let e = e.quality(4);
    assert!(e.samples(10, 2, 1));
    assert!(!e.samples(10, 3, 1));
}

#[test]
fn text_helpers() {
    assert_eq!(Surface::from_text("abc", Style::default()).width(), 3);
    assert_eq!(Surface::from_text("日本", Style::default()).width(), 4);
    let mut p = CommandPalette::new(vec!["ÄPFEL".to_string(), "Birne".to_string()]);
    p.show();
    p.on_key(KeyCode::Char('ä'));
    p.on_key(KeyCode::Char('P'));
    assert_eq!(p.filtered(), vec!["ÄPFEL".to_string()]);
    assert_eq!(decimal(7, 3), "007");
    assert_eq!(decimal(12345, 2), "12345");
}

#[test]
fn rect_helpers() {
    let r = Rect { x: 2, y: 3, width: 10, height: 4 };
    assert_eq!((r.left(), r.right(), r.top(), r.bottom()), (2, 12, 3, 7));
    assert!(r.contains(2, 3));
    assert!(!r.contains(12, 3));
    assert_eq!(r.inner(Margin { horizontal: 1, vertical: 1 }), Rect { x: 3, y: 4, width: 8, height: 2 });
    assert_eq!(r.inner(Margin { horizontal: 6, vertical: 0 }), Rect { x: 0, y: 0, width: 0, height: 0 });
}

#[test]
fn blit_plan_skips_what_does_not_fit() {
    let s = Surface::from_text("a日b\ncd", Style::default());
    let plan = s.blit_plan(Rect { x: 0, y: 0, width: 3, height: 1 }, 0, 0);
    let steps: Vec<(u16, u16, usize, usize)> = plan.iter().map(|p| (p.x, p.y, p.row, p.col)).collect();
    assert_eq!(steps, vec![(0, 0, 0, 0), (1, 0, 0, 1)]);
    let blank = Surface::new(2, 1, &Cell::blank(Style::default()));
    assert_eq!(blank.blit_plan(Rect { x: 0, y: 0, width: 5, height: 5 }, 1, 1).len(), 2);
}

#[test]
fn big_text_draws_with_the_font() {
    let font = figlet_rs::FIGfont::standard().unwrap();
    let lines = BigText::new("Hi", font).lines();
    assert!(lines.len() > 1);
    assert!(lines.iter().any(|l| l.contains('|')));
    let empty = BigText::new("", figlet_rs::FIGfont::standard().unwrap()).color(Color::Red);
    assert_eq!(empty.color, Color::Red);
    assert_eq!(empty.lines(), vec![String::new()]);
    assert_eq!(figure_lines(Some("ab\ncd\n".to_string()), "x"), vec!["ab".to_string(), "cd".to_string()]);
    assert_eq!(figure_lines(None, "x"), vec!["x".to_string()]);
    let again = BigText::new("Hi", figlet_rs::FIGfont::standard().unwrap()).lines();
    assert_eq!(again, lines);
    assert!(!lines.contains(&"Hi".to_string()));
}

#[test]
fn pattern_factories() {
    let c = checker(Color::Red, Color::Blue, 0);
    assert_eq!((c.a, c.b, c.size), (Color::Red, Color::Blue, 1));
    let s = stripes(&[Color::Green, Color::Yellow], 3);
    assert_eq!(s.colors, vec![Color::Green, Color::Yellow]);
    assert_eq!(s.width, 3);
    assert!(!s.vertical);
    assert_eq!(s.color_at(0, 3), Color::Yellow);
}

use bobatea::components::badge::{Badge, BadgeStyle};
use bobatea::components::help::{HelpBar, Keybind};
use bobatea::components::spinner::{Spinner, SpinnerAnim};
use bobatea::components::stopwatch::{Stopwatch, StopwatchState};
use bobatea::components::textarea::TextArea;
use bobatea::components::toast::{wrap, ToastLevel, Toaster};
use bobatea::tui::{Color, KeyCode, MouseButton, MouseEvent, MouseEventKind, Rect, Style};

#[test]
fn textarea_typing_newlines_and_backspace() {
    let mut t = TextArea::new();
    assert!(t.shows_placeholder());
    t.on_key(KeyCode::Char('x'));
    assert_eq!(t.value(), "");
    t.focus();
    assert!(!t.shows_placeholder());
    for c in ['a', 'b'] {
        t.on_key(KeyCode::Char(c));
    }
    t.on_key(KeyCode::Enter);
    t.on_key(KeyCode::Char('c'));
    assert_eq!(t.value(), "ab\nc");
    assert_eq!((t.row, t.col), (1, 1));
    t.on_key(KeyCode::Home);
    t.on_key(KeyCode::Backspace);
    assert_eq!(t.value(), "abc");
    assert_eq!((t.row, t.col), (0, 2));
    t.on_key(KeyCode::Left);
    t.on_key(KeyCode::Enter);
    assert_eq!(t.value(), "a\nbc");
    t.on_key(KeyCode::Up);
    assert_eq!((t.row, t.col), (0, 0));
    t.on_key(KeyCode::End);
    assert_eq!(t.col, 1);
    t.on_key(KeyCode::Right);
    assert_eq!((t.row, t.col), (1, 0));
    t.on_key(KeyCode::Down);
    assert_eq!(t.row, 1);
    t.blur();
    assert!(!t.focused);
}

#[test]
fn textarea_respects_max_lines() {
    let mut t = TextArea::new().max_lines(2).placeholder("write");
    assert_eq!(t.placeholder, "write");
    t.focus();
    t.on_key(KeyCode::Enter);
    t.on_key(KeyCode::Enter);
    assert_eq!(t.lines.len(), 2);
    t.on_key(KeyCode::Char('a'));
    t.on_key(KeyCode::Char('b'));
    t.on_key(KeyCode::Char('c'));
    assert_eq!(t.value(), "\nab");
}

#[test]
fn textarea_click_places_cursor_and_rows_show_caret() {
    let mut t = TextArea::new();
    t.focus();
    for c in "hello".chars() {
        t.on_key(KeyCode::Char(c));
    }
    t.on_key(KeyCode::Enter);
    t.on_key(KeyCode::Char('w'));
    let area = Rect { x: 0, y: 0, width: 20, height: 5 };
    t.on_mouse(area, &MouseEvent { kind: MouseEventKind::Down(MouseButton::Left), column: 3, row: 1 });
    assert_eq!((t.row, t.col), (0, 2));
    let rows = t.rows(area, true);
    assert_eq!(rows.len(), 2);
    assert_eq!(rows[0].rect, Rect { x: 1, y: 1, width: 18, height: 1 });
    assert!(rows[0].caret);
    assert_eq!(rows[0].tail, "llo");
    assert_eq!(rows[1].head, "w");
    assert!(!rows[1].caret);
    t.on_mouse(area, &MouseEvent { kind: MouseEventKind::Down(MouseButton::Left), column: 30, row: 1 });
    assert!(!t.focused);
    let short = Rect { x: 0, y: 0, width: 20, height: 3 };
    assert_eq!(t.rows(short, false).len(), 1);
}

#[test]
fn stopwatch_counts_only_running_time() {
    let mut s = Stopwatch::new().with_label("lap");
    assert_eq!(s.state, StopwatchState::Idle);
    assert_eq!(s.display(5_000), "00:00.000 lap");
    s.start(1_000);
    assert_eq!(s.current_elapsed(2_500), 1_500);
    s.stop(3_000);
    assert_eq!(s.state, StopwatchState::Paused);
    assert_eq!(s.current_elapsed(10_000), 2_000);
    s.toggle(20_000);
    assert_eq!(s.state, StopwatchState::Running);
    assert_eq!(s.display(20_000 + 61_234), "01:03.234 lap");
    s.on_key(KeyCode::Char(' '), 90_000);
    assert_eq!(s.state, StopwatchState::Paused);
    s.on_key(KeyCode::Char('r'), 90_000);
    assert_eq!(s.state, StopwatchState::Idle);
    assert_eq!(s.elapsed_ms, 0);
    s.on_key(KeyCode::Enter, 100);
    assert_eq!(s.state, StopwatchState::Running);
    s.reset();
    assert_eq!(s.current_elapsed(1_000_000), 0);
}

#[test]
fn stopwatch_display_long_times() {
    let mut s = Stopwatch::new();
    s.start(0);
    assert_eq!(s.display(6_000_007), "100:00.007");
    s.last_tick = None;
    s.tick(50);
    assert_eq!(s.last_tick, Some(50));
}

#[test]
fn toast_levels() {
    assert_eq!(ToastLevel::Info.color(), Color::Cyan);
    assert_eq!(ToastLevel::Warn.color(), Color::Yellow);
    assert_eq!(ToastLevel::Error.color(), Color::Red);
    assert_eq!(ToastLevel::Info.glyph(), "i");
    assert_eq!(ToastLevel::Warn.glyph(), "!");
    assert_eq!(ToastLevel::Error.glyph(), "x");
    assert_eq!(ToastLevel::Info.default_duration(), 3000);
    assert_eq!(ToastLevel::Warn.default_duration(), 5000);
    assert_eq!(ToastLevel::Error.default_duration(), 8000);
}

#[test]
fn toast_wrap_greedy_by_bytes() {
    assert_eq!(wrap("the quick brown fox", 10), vec!["the quick".to_string(), "brown fox".to_string()]);
    assert_eq!(wrap("supercalifragilistic is long", 5), vec![
        "supercalifragilistic".to_string(),
        "is".to_string(),
        "long".to_string()
    ]);
    assert_eq!(wrap("   ", 10), vec![String::new()]);
    assert_eq!(wrap("a  b", 0), vec!["a  b".to_string()]);
    assert_eq!(wrap("é é", 3), vec!["é".to_string(), "é".to_string()]);
}

#[test]
fn toaster_expires_and_shows_newest_first() {
    let mut t = Toaster::new(2);
    t.info("one", 0);
    t.warn("two", 1_000);
    t.error("three", 2_000);
    let vis = t.visible();
    assert_eq!(vis.len(), 2);
    assert_eq!(vis[0].message, "three");
    assert_eq!(vis[1].message, "two");
    t.gc(3_500);
    assert_eq!(t.queue.len(), 2);
    assert_eq!(t.queue[0].message, "two");
    t.gc(9_000);
    assert_eq!(t.queue.len(), 1);
    t.dismiss(0);
    assert!(t.queue.is_empty());
    t.push(ToastLevel::Warn, "again", 5);
    assert_eq!(t.queue[0].duration_ms, 5000);
    assert_eq!(t.queue[0].created_ms, 5);
    t.clear();
    assert!(t.queue.is_empty());
}

#[test]
fn toaster_layout_stacks_from_top_right() {
    let mut t = Toaster::new(3);
    t.info("short", 0);
    t.info("a message long enough to need more than one line of text", 0);
    let area = Rect { x: 0, y: 0, width: 80, height: 24 };
    let placed = t.layout(area, 100);
    assert_eq!(placed.len(), 2);
    assert_eq!(placed[0].0, Rect { x: 40, y: 0, width: 40, height: 4 });
    assert_eq!(placed[1].0, Rect { x: 40, y: 4, width: 40, height: 3 });
    assert_eq!(placed[1].1.message, "short");
    let later = t.layout(area, 3_000);
    assert!(later.is_empty());
}

#[test]
fn spinner_frames_cycle() {
    let a = SpinnerAnim::dots();
    assert_eq!(a.interval_ms, 80);
    assert_eq!(a.frame(0), "⠋");
    assert_eq!(a.frame(79), "⠋");
    assert_eq!(a.frame(80), "⠙");
    assert_eq!(a.frame(800), "⠋");
    let l = SpinnerAnim::line();
    assert_eq!(l.frame(120 * 3), "/");
    assert_eq!(SpinnerAnim::mini().frame(100 * 8), "⠐");
    let s = Spinner::line().with_label("Loading");
    assert_eq!(s.text(130), "\\ Loading");
    let mut m = Spinner::mini();
    assert_eq!(m.text(0), "⠋");
    m.set_label("wait");
    assert_eq!(m.text(0), "⠋ wait");
    assert_eq!(Spinner::dots().text(160), "⠹");
}

#[test]
fn help_bar_spans() {
    let bar = HelpBar::new(vec![Keybind::new("q", "quit"), Keybind::new("?", "help")]);
    let key = Style::default().fg(Color::Yellow);
    let desc = Style::default();
    let sep = Style::default().fg(Color::DarkGray);
    let spans = bar.spans(key, desc, sep);
    let texts: Vec<&str> = spans.iter().map(|s| s.content.as_str()).collect();
    assert_eq!(texts, vec![" q ", " quit ", "  ", " ? ", " help ", "  "]);
    assert_eq!(spans[0].style, key);
    assert_eq!(spans[2].style, sep);
    let bar = bar.with_separator(" | ");
    assert_eq!(bar.spans(key, desc, sep)[5].content, " | ");
}

#[test]
fn badge_colours_and_label() {
    let b = Badge::new("new").style(BadgeStyle::Warn);
    assert_eq!(b.label(), " new ");
    assert_eq!(b.style.colors(), (Color::Black, Color::Yellow));
    assert_eq!(BadgeStyle::Default.colors(), (Color::White, Color::DarkGray));
    assert_eq!(BadgeStyle::Danger.colors(), (Color::White, Color::Red));
    assert_eq!(Badge::new("x").style, BadgeStyle::Default);
}

#[test]
fn toaster_clone_keeps_queue() {
    let mut t = Toaster::new(3);
    t.info("a", 0);
    t.error("b", 5);
    let c = t.clone();
    assert_eq!(c.queue.len(), 2);
    assert_eq!(c.queue[1].message, "b");
    assert_eq!(c.queue[1].level, ToastLevel::Error);
    assert_eq!(c.max_visible, 3);
}

use std::sync::mpsc::{channel, Sender};
use sudare::draw::{Color, DrawOp};
use sudare::pane::{PtyTerminal, TerminalSize, SCROLLBACK_LINES};
use sudare::session::{chunk_message, ChildStatus, PtyMessage, PtyProcess};

fn pane(cols: usize, rows: usize) -> (Sender<PtyMessage>, PtyTerminal) {
    let (tx, rx) = channel();
    (tx, PtyTerminal::new(PtyProcess::new(rx), (cols, rows)))
}

#[test]
fn fresh_pane_shows_the_tail() {
    let (_tx, t) = pane(80, 24);
    assert_eq!(t.size, TerminalSize { rows: 24, cols: 80 });
    assert_eq!(t.scrollback_rows, 24);
    assert_eq!(t.scroll_offset, 0);
    assert_eq!(SCROLLBACK_LINES, 1000);
}

#[test]
fn scroll_up_stops_at_the_oldest_row() {
    let (_tx, mut t) = pane(80, 10);
    t.scroll_up();
    assert_eq!(t.scroll_offset, 0);
    t.observe_rows(13);
    for expected in [-1, -2, -3, -3, -3] {
        t.scroll_up();
        assert_eq!(t.scroll_offset, expected);
    }
}

#[test]
fn scroll_down_stops_at_the_tail() {
    let (_tx, mut t) = pane(80, 10);
    t.observe_rows(20);
    t.scroll_up();
    t.scroll_up();
    for expected in [-1, 0, 0] {
        t.scroll_down();
        assert_eq!(t.scroll_offset, expected);
    }
}

#[test]
fn scroll_up_then_down_comes_back() {
    let (_tx, mut t) = pane(80, 10);
    t.observe_rows(110);
    for _ in 0..7 {
        t.scroll_up();
    }
    assert_eq!(t.scroll_offset, -7);
    for _ in 0..40 {
        t.scroll_up();
    }
    for _ in 0..40 {
        t.scroll_down();
    }
    assert_eq!(t.scroll_offset, -7);
}

#[test]
fn scroll_round_trip_is_clamped_at_the_floor() {
    let (_tx, mut t) = pane(80, 10);
    t.observe_rows(12);
    t.scroll_up();
    assert_eq!(t.scroll_offset, -1);
    for _ in 0..5 {
        t.scroll_up();
    }
    assert_eq!(t.scroll_offset, -2);
    for _ in 0..5 {
        t.scroll_down();
    }
    assert_eq!(t.scroll_offset, 0);
}

#[test]
fn fewer_rows_retained_than_shown_cannot_scroll() {
    let (_tx, mut t) = pane(80, 10);
    t.observe_rows(4);
    t.scroll_up();
    assert_eq!(t.scroll_offset, 0);
}

#[test]
fn reset_scroll_goes_to_the_tail() {
    let (_tx, mut t) = pane(80, 10);
    t.observe_rows(50);
    t.scroll_up();
    t.scroll_up();
    t.reset_scroll();
    assert_eq!(t.scroll_offset, 0);
    assert_eq!(t.scrollback_rows, 50);
}

#[test]
fn same_size_asks_for_no_resize() {
    let (_tx, mut t) = pane(80, 24);
    assert_eq!(t.resize_soft(80, 24), None);
    assert_eq!(t.size, TerminalSize { rows: 24, cols: 80 });
    assert_eq!(t.resize_soft(80, 23), Some(TerminalSize { rows: 23, cols: 80 }));
    assert_eq!(t.size, TerminalSize { rows: 23, cols: 80 });
    assert_eq!(t.resize_soft(80, 23), None);
    assert_eq!(t.resize_soft(81, 23), Some(TerminalSize { rows: 23, cols: 81 }));
    assert_eq!(t.resize_soft(81, 23), None);
}

#[test]
fn visible_range_starts_at_the_offset() {
    let (_tx, mut t) = pane(80, 10);
    assert_eq!(t.visible_range(), (0, 10));
    t.observe_rows(30);
    t.scroll_up();
    t.scroll_up();
    assert_eq!(t.visible_range(), (-2, 8));
}

#[test]
fn pane_poll_gives_what_to_feed() {
    let (tx, mut t) = pane(80, 10);
    assert_eq!(t.poll(ChildStatus::Running), None);
    tx.send(chunk_message(b"hi").unwrap()).unwrap();
    assert_eq!(t.poll(ChildStatus::Running), Some(b"hi".to_vec()));
    assert_eq!(t.poll(ChildStatus::Exited(0)), Some(b"[process exited with 0]".to_vec()));
    assert_eq!(t.poll(ChildStatus::Exited(0)), None);
}

#[test]
fn rows_are_drawn_top_down() {
    let clear = DrawOp::ClearToEndOfLine(Color::Default);
    assert_eq!(PtyTerminal::draw_rows(&vec![]), vec![]);
    assert_eq!(
        PtyTerminal::draw_rows(&vec![true, false, true, true]),
        vec![
            DrawOp::Row { row: 0, after: None },
            clear.clone(),
            DrawOp::NextRow,
            clear.clone(),
            DrawOp::NextRow,
            DrawOp::Row { row: 2, after: Some(0) },
            clear.clone(),
            DrawOp::NextRow,
            DrawOp::Row { row: 3, after: Some(2) },
            clear.clone(),
            DrawOp::NextRow,
        ]
    );
    assert_eq!(
        PtyTerminal::draw_rows(&vec![false]),
        vec![clear.clone(), DrawOp::NextRow]
    );
}

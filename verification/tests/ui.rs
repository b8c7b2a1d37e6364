use std::sync::mpsc::channel;
use sudare::draw::DrawOp;
use sudare::pane::TerminalSize;
use sudare::procfile::{parse_procfile, Process, ProcessGroup};
use sudare::session::PtyProcess;
use sudare::ui::{UiState, MIN_WINDOW_HEIGHT};

fn group(title: &str, labels: &[&str]) -> ProcessGroup {
    let mut members = vec![Process::Null];
    for label in labels {
        members.push(Process::Command { label: label.to_string(), argv: format!("run {}", label) });
    }
    ProcessGroup { title: title.to_string(), members }
}

fn three() -> UiState {
    UiState::new(
        "abc".to_string(),
        vec![group("a", &["x", "y"]), group("b", &["z"]), group("c", &[])],
        (80, 24),
    )
}

fn session() -> PtyProcess {
    let (_tx, rx) = channel();
    PtyProcess::new(rx)
}

#[test]
fn new_state_has_a_window_for_each_group() {
    let ui = three();
    assert_eq!(ui.procfile_hash, "abc");
    assert_eq!(ui.focused_window_index, 0);
    assert_eq!(ui.dimension, (80, 24));
    assert!(ui.repaint);
    assert_eq!(MIN_WINDOW_HEIGHT, 2);
    let titles: Vec<&str> = ui.windows.iter().map(|w| w.process_group.title.as_str()).collect();
    assert_eq!(titles, vec!["a", "b", "c"]);
    for w in &ui.windows {
        assert_eq!(w.active_process_index, 0);
        assert!(w.pty_terminal.is_none());
    }
}

#[test]
fn focus_moves_are_clamped() {
    let mut ui = three();
    ui.previous_window();
    assert_eq!(ui.focused_window_index, 0);
    ui.next_window();
    assert_eq!(ui.focused_window_index, 1);
    ui.next_window();
    assert_eq!(ui.focused_window_index, 2);
    ui.next_window();
    assert_eq!(ui.focused_window_index, 2);
    ui.previous_window();
    assert_eq!(ui.focused_window_index, 1);
}

#[test]
fn focus_moves_without_windows() {
    let mut ui = UiState::new("h".to_string(), vec![], (80, 24));
    ui.next_window();
    assert_eq!(ui.focused_window_index, 0);
    ui.previous_window();
    assert_eq!(ui.focused_window_index, 0);
    ui.scroll_up();
    ui.scroll_down();
    let switch = ui.select_process(1);
    assert!(switch.closed.is_none());
    assert_eq!(switch.spawn, None);
    assert_eq!(ui.save_state(), None);
}

#[test]
fn losing_the_focus_resets_the_scroll() {
    let mut ui = three();
    ui.select_process(1);
    ui.windows[0].attach(Some(session()), (80, 24));
    ui.windows[0].pty_terminal.as_mut().unwrap().observe_rows(100);
    ui.scroll_up();
    ui.scroll_up();
    ui.scroll_down();
    assert_eq!(ui.windows[0].pty_terminal.as_ref().unwrap().scroll_offset, -1);
    ui.next_window();
    assert_eq!(ui.windows[0].pty_terminal.as_ref().unwrap().scroll_offset, 0);
    ui.previous_window();
    ui.scroll_up();
    ui.previous_window();
    assert_eq!(ui.windows[0].pty_terminal.as_ref().unwrap().scroll_offset, 0);
}

#[test]
fn select_goes_to_the_focused_window() {
    let mut ui = three();
    ui.next_window();
    ui.repaint = false;
    let switch = ui.select_process(1);
    assert_eq!(switch.spawn.unwrap().args, vec!["-c".to_string(), "run z".to_string()]);
    assert!(!ui.repaint);
    assert_eq!(ui.windows[0].active_process_index, 0);
    assert_eq!(ui.windows[1].active_process_index, 1);
    let switch = ui.select_process(5);
    assert_eq!(switch.spawn, None);
    assert_eq!(ui.windows[1].active_process_index, 1);
}

#[test]
fn find_window_by_title_gives_the_first() {
    let ui = UiState::new(
        "h".to_string(),
        vec![group("a", &[]), group("b", &[]), group("a", &["x"])],
        (80, 24),
    );
    assert_eq!(ui.find_window_by_title(&"a".to_string()), Some(0));
    assert_eq!(ui.find_window_by_title(&"b".to_string()), Some(1));
    assert_eq!(ui.find_window_by_title(&"c".to_string()), None);
}

#[test]
fn focused_window_gets_what_is_left() {
    let mut ui = three();
    ui.next_window();
    assert!(ui.can_render(24));
    let frame = ui.render_to_screen(80, 24);
    assert!(frame.clear);
    assert!(!ui.repaint);
    let layout: Vec<(usize, usize, bool)> =
        frame.windows.iter().map(|w| (w.y, w.height, w.focused)).collect();
    assert_eq!(layout, vec![(0, 3, false), (3, 18, true), (21, 3, false)]);
    assert_eq!(frame.windows[1].status[0], DrawOp::MoveTo { x: 0, y: 3 });
    assert_eq!(frame.windows[2].status[3], DrawOp::Text("c".to_string()));
}

#[test]
fn screen_must_hold_all_windows() {
    let ui = three();
    assert!(!ui.can_render(0));
    assert!(!ui.can_render(6));
    assert!(ui.can_render(7));
    let none = UiState::new("h".to_string(), vec![], (80, 24));
    assert!(none.can_render(0));
    let mut lost = three();
    lost.focused_window_index = 3;
    assert!(!lost.can_render(100));
}

#[test]
fn smallest_screen_leaves_the_focused_window_its_status_line() {
    let mut ui = three();
    let frame = ui.render_to_screen(80, 7);
    let layout: Vec<(usize, usize)> = frame.windows.iter().map(|w| (w.y, w.height)).collect();
    assert_eq!(layout, vec![(0, 1), (1, 3), (4, 3)]);
}

#[test]
fn second_frame_asks_for_nothing_new() {
    let mut ui = three();
    ui.select_process(2);
    ui.windows[0].attach(Some(session()), (80, 24));
    let first = ui.render_to_screen(80, 24);
    assert!(first.clear);
    assert_eq!(first.windows[0].resize, Some(TerminalSize { rows: 17, cols: 80 }));
    let second = ui.render_to_screen(80, 24);
    assert!(!second.clear);
    assert_eq!(second.windows.len(), first.windows.len());
    for (a, b) in first.windows.iter().zip(second.windows.iter()) {
        assert_eq!(b.resize, None);
        assert_eq!((a.y, a.height, a.focused), (b.y, b.height, b.focused));
        assert_eq!(a.status, b.status);
    }
}

#[test]
fn no_action_asks_for_a_clear() {
    let mut ui = three();
    assert!(ui.render_to_screen(80, 24).clear);
    ui.scroll_up();
    assert!(!ui.render_to_screen(80, 24).clear);
    ui.scroll_down();
    assert!(!ui.render_to_screen(80, 24).clear);
    ui.next_window();
    assert!(!ui.render_to_screen(80, 24).clear);
    ui.previous_window();
    assert!(!ui.render_to_screen(80, 24).clear);
    ui.select_process(1);
    assert!(!ui.render_to_screen(80, 24).clear);
}

#[test]
fn actions_leave_a_due_clear_due() {
    let mut ui = three();
    ui.next_window();
    ui.select_process(1);
    ui.scroll_up();
    assert!(ui.repaint);
    assert!(ui.render_to_screen(80, 24).clear);
    assert!(!ui.repaint);
}

#[test]
fn state_from_a_parsed_text() {
    let groups = parse_procfile("web: echo hi\nweb[worker]: echo bye\ndb: run db\n").unwrap();
    let mut ui = UiState::new("h".to_string(), groups, (80, 24));
    assert_eq!(ui.windows.len(), 2);
    let frame = ui.render_to_screen(80, 24);
    assert_eq!(
        frame.windows[0].status[5],
        DrawOp::Text("*0:disable 1:default 2:worker".to_string())
    );
}

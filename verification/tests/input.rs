use sudare::input::{command, Action, Command, InputEvent};
use sudare::persist::SavedState;
use sudare::procfile::{Process, ProcessGroup};
use sudare::ui::UiState;

fn group(title: &str, labels: &[&str]) -> ProcessGroup {
    let mut members = vec![Process::Null];
    for label in labels {
        members.push(Process::Command { label: label.to_string(), argv: format!("run {}", label) });
    }
    ProcessGroup { title: title.to_string(), members }
}

fn two() -> UiState {
    UiState::new("h".to_string(), vec![group("a", &["x", "y"]), group("b", &["z"])], (80, 24))
}

#[test]
fn keys_and_their_commands() {
    assert_eq!(command(InputEvent::Escape), Command::Quit);
    assert_eq!(command(InputEvent::Char('n')), Command::FocusNext);
    assert_eq!(command(InputEvent::DownArrow), Command::FocusNext);
    assert_eq!(command(InputEvent::Char('p')), Command::FocusPrevious);
    assert_eq!(command(InputEvent::UpArrow), Command::FocusPrevious);
    assert_eq!(command(InputEvent::Char('0')), Command::Select(0));
    assert_eq!(command(InputEvent::Char('7')), Command::Select(7));
    assert_eq!(command(InputEvent::Char('9')), Command::Select(9));
    assert_eq!(command(InputEvent::Char('k')), Command::ScrollUp);
    assert_eq!(command(InputEvent::Char('j')), Command::ScrollDown);
    assert_eq!(command(InputEvent::Char('x')), Command::Nothing);
    assert_eq!(command(InputEvent::Char('/')), Command::Nothing);
    assert_eq!(command(InputEvent::Char(':')), Command::Nothing);
    assert_eq!(command(InputEvent::Char('\u{0663}')), Command::Nothing);
    assert_eq!(command(InputEvent::Other), Command::Nothing);
    assert_eq!(
        command(InputEvent::Resized { rows: 40, cols: 120 }),
        Command::Resize { cols: 120, rows: 40 }
    );
}

#[test]
fn digits_agree_with_the_standard_library() {
    let mut u: u32 = 0;
    while u < 0x3000 {
        if let Some(c) = char::from_u32(u) {
            let expected = match c {
                'n' | 'p' => None,
                _ => c.to_digit(10),
            };
            let got = match command(InputEvent::Char(c)) {
                Command::Select(i) => Some(i as u32),
                _ => None,
            };
            assert_eq!(got, expected);
        }
        u += 1;
    }
}

#[test]
fn handle_moves_the_focus() {
    let mut ui = two();
    assert!(matches!(ui.handle(InputEvent::Char('n')), Action::Nothing));
    assert_eq!(ui.focused_window_index, 1);
    assert!(matches!(ui.handle(InputEvent::UpArrow), Action::Nothing));
    assert_eq!(ui.focused_window_index, 0);
}

#[test]
fn handle_selects_by_digit() {
    let mut ui = two();
    match ui.handle(InputEvent::Char('2')) {
        Action::Switch(switch) => {
            assert_eq!(switch.spawn.unwrap().args[1], "run y");
        }
        _ => panic!("a digit selects"),
    }
    assert_eq!(ui.windows[0].active_process_index, 2);
}

#[test]
fn handle_quits_with_the_record() {
    let mut ui = two();
    ui.handle(InputEvent::Char('1'));
    match ui.handle(InputEvent::Escape) {
        Action::Quit(saved) => assert_eq!(
            saved,
            Some(SavedState {
                focused_group: "a".to_string(),
                active_processes: vec![("a".to_string(), "x".to_string())],
            })
        ),
        _ => panic!("escape quits"),
    }
}

#[test]
fn handle_passes_a_resize_on() {
    let mut ui = two();
    ui.repaint = false;
    match ui.handle(InputEvent::Resized { rows: 40, cols: 120 }) {
        Action::Resize { cols, rows } => assert_eq!((cols, rows), (120, 40)),
        _ => panic!("a resize is passed on"),
    }
    assert!(ui.repaint);
    assert_eq!(ui.dimension, (80, 24));
    assert!(ui.render_to_screen(120, 40).clear);
    assert!(!ui.render_to_screen(120, 40).clear);
}

#[test]
fn handle_leaves_other_keys_alone() {
    let mut ui = two();
    ui.repaint = false;
    assert!(matches!(ui.handle(InputEvent::Char('x')), Action::Nothing));
    assert!(matches!(ui.handle(InputEvent::Other), Action::Nothing));
    assert!(!ui.repaint);
    assert!(matches!(ui.handle(InputEvent::Char('k')), Action::Nothing));
    assert!(matches!(ui.handle(InputEvent::Char('n')), Action::Nothing));
    assert!(matches!(ui.handle(InputEvent::Char('1')), Action::Switch(_)));
    assert!(!ui.repaint);
}

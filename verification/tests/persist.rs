use std::sync::mpsc::channel;
use sudare::persist::{procfile_hash, put_pair, SavedState};
use sudare::procfile::{Process, ProcessGroup};
use sudare::session::PtyProcess;
use sudare::ui::UiState;

fn group(title: &str, labels: &[&str]) -> ProcessGroup {
    let mut members = vec![Process::Null];
    for label in labels {
        members.push(Process::Command { label: label.to_string(), argv: format!("run {}", label) });
    }
    ProcessGroup { title: title.to_string(), members }
}

fn groups() -> Vec<ProcessGroup> {
    vec![group("web", &["default", "worker"]), group("db", &["pg"]), group("log", &["tail"])]
}

fn pair(a: &str, b: &str) -> (String, String) {
    (a.to_string(), b.to_string())
}

fn session() -> PtyProcess {
    let (_tx, rx) = channel();
    PtyProcess::new(rx)
}

#[test]
fn hash_is_the_sha256_in_hex() {
    assert_eq!(
        procfile_hash(b"hello world"),
        "b94d27b9934d3e08a52e52d7da7dabfac484efe37a5380ee9088f7ace2efcde9"
    );
    assert_eq!(
        procfile_hash(b""),
        "e3b0c44298fc1c149afbf4c8996fb92427ae41e4649b934ca495991b7852b855"
    );
    assert_ne!(procfile_hash(b"/a/Procfile"), procfile_hash(b"/b/Procfile"));
}

#[test]
fn cache_dir_prefers_the_cache_home() {
    assert_eq!(UiState::cache_dir(Some("/x"), Some("/home/u")), Some("/x/sudare".to_string()));
    assert_eq!(UiState::cache_dir(Some("/x"), None), Some("/x/sudare".to_string()));
    assert_eq!(UiState::cache_dir(None, Some("/home/u")), Some("/home/u/.cache/sudare".to_string()));
    assert_eq!(UiState::cache_dir(None, None), None);
}

#[test]
fn state_file_is_named_by_the_hash() {
    let ui = UiState::new("0a1b".to_string(), vec![], (80, 24));
    assert_eq!(ui.state_file_path("/x/sudare"), "/x/sudare/0a1b.json");
}

#[test]
fn put_pair_replaces_or_appends() {
    let mut pairs = vec![pair("a", "1"), pair("b", "2")];
    put_pair(&mut pairs, "c".to_string(), "3".to_string());
    assert_eq!(pairs, vec![pair("a", "1"), pair("b", "2"), pair("c", "3")]);
    put_pair(&mut pairs, "a".to_string(), "4".to_string());
    assert_eq!(pairs, vec![pair("a", "4"), pair("b", "2"), pair("c", "3")]);
}

#[test]
fn save_state_remembers_running_commands() {
    let mut ui = UiState::new("h".to_string(), groups(), (80, 24));
    ui.select_process(2);
    ui.next_window();
    ui.next_window();
    ui.select_process(1);
    ui.previous_window();
    assert_eq!(
        ui.save_state(),
        Some(SavedState {
            focused_group: "db".to_string(),
            active_processes: vec![pair("web", "worker"), pair("log", "tail")],
        })
    );
}

#[test]
fn save_state_of_a_fresh_state() {
    let ui = UiState::new("h".to_string(), groups(), (80, 24));
    assert_eq!(
        ui.save_state(),
        Some(SavedState { focused_group: "web".to_string(), active_processes: vec![] })
    );
}

#[test]
fn later_window_with_the_same_title_wins() {
    let mut ui = UiState::new(
        "h".to_string(),
        vec![group("a", &["x"]), group("a", &["y"])],
        (80, 24),
    );
    ui.select_process(1);
    ui.next_window();
    ui.select_process(1);
    assert_eq!(ui.save_state().unwrap().active_processes, vec![pair("a", "y")]);
}

#[test]
fn load_state_restores_focus_and_members() {
    let mut ui = UiState::new("h".to_string(), groups(), (80, 24));
    ui.repaint = false;
    let state = SavedState {
        focused_group: "log".to_string(),
        active_processes: vec![pair("db", "pg"), pair("web", "worker")],
    };
    let switches = ui.load_state(&state);
    assert_eq!(ui.focused_window_index, 2);
    assert!(!ui.repaint);
    let active: Vec<usize> = ui.windows.iter().map(|w| w.active_process_index).collect();
    assert_eq!(active, vec![2, 1, 0]);
    assert_eq!(switches.len(), 2);
    assert_eq!(switches[0].0, 1);
    assert_eq!(switches[0].1.spawn.as_ref().unwrap().args[1], "run pg");
    assert!(switches[0].1.closed.is_none());
    assert_eq!(switches[1].0, 0);
    assert_eq!(switches[1].1.spawn.as_ref().unwrap().args[1], "run worker");
}

#[test]
fn load_state_passes_over_what_is_gone() {
    let mut ui = UiState::new("h".to_string(), groups(), (80, 24));
    ui.next_window();
    let state = SavedState {
        focused_group: "gone".to_string(),
        active_processes: vec![pair("gone", "x"), pair("web", "gone"), pair("db", "pg")],
    };
    let switches = ui.load_state(&state);
    assert_eq!(ui.focused_window_index, 1);
    let active: Vec<usize> = ui.windows.iter().map(|w| w.active_process_index).collect();
    assert_eq!(active, vec![0, 1, 0]);
    assert_eq!(switches.len(), 1);
    assert_eq!(switches[0].0, 1);
}

#[test]
fn load_state_hands_back_running_panes() {
    let mut ui = UiState::new("h".to_string(), groups(), (80, 24));
    ui.select_process(1);
    ui.windows[0].attach(Some(session()), (80, 24));
    let state = SavedState {
        focused_group: "web".to_string(),
        active_processes: vec![pair("web", "worker")],
    };
    let switches = ui.load_state(&state);
    assert!(switches[0].1.closed.is_some());
    assert!(ui.windows[0].pty_terminal.is_none());
    assert_eq!(ui.windows[0].active_process_index, 2);
}

#[test]
fn save_then_load_restores_the_session() {
    let mut ui = UiState::new("h".to_string(), groups(), (80, 24));
    ui.select_process(2);
    ui.next_window();
    ui.select_process(1);
    ui.next_window();
    let saved = ui.save_state().unwrap();
    let mut again = UiState::new("h".to_string(), groups(), (80, 24));
    again.load_state(&saved);
    assert_eq!(again.focused_window_index, ui.focused_window_index);
    for (a, b) in ui.windows.iter().zip(again.windows.iter()) {
        assert_eq!(a.active_process_index, b.active_process_index);
        assert_eq!(
            a.process_group.members[a.active_process_index].label(),
            b.process_group.members[b.active_process_index].label()
        );
    }
    let mut sorted = saved.clone();
    sorted.active_processes.sort();
    sorted.active_processes.reverse();
    let mut third = UiState::new("h".to_string(), groups(), (80, 24));
    third.load_state(&sorted);
    let active: Vec<usize> = third.windows.iter().map(|w| w.active_process_index).collect();
    assert_eq!(active, vec![2, 1, 0]);
}

#[test]
fn command_labelled_like_the_placeholder_comes_back_disabled() {
    let mut ui = UiState::new("h".to_string(), vec![group("a", &["disable"])], (80, 24));
    ui.select_process(1);
    let saved = ui.save_state().unwrap();
    assert_eq!(saved.active_processes, vec![pair("a", "disable")]);
    let mut again = UiState::new("h".to_string(), vec![group("a", &["disable"])], (80, 24));
    again.load_state(&saved);
    assert_eq!(again.windows[0].active_process_index, 0);
    assert_eq!(again.windows[0].process_group.members[0].label(), "disable");
}

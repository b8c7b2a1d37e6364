//! What the operator's input means, and what the compositor does on it.

use crate::pane::PtyTerminal;
use crate::persist::{saved_view, SavedState};
use crate::ui::UiState;
use crate::window::{Switch, UiWindow};
use vstd::prelude::*;

verus! {

/// One event of the terminal, as far as the compositor tells events apart.
#[derive(Debug, Clone, Copy, PartialEq, Eq)]
pub enum InputEvent {
    /// The terminal has a new size.
    Resized { rows: usize, cols: usize },
    Escape,
    DownArrow,
    UpArrow,
    /// The key of a character.
    Char(char),
    /// Anything else.
    Other,
}

/// What an event asks for.
#[derive(Debug, Clone, Copy, PartialEq, Eq)]
pub enum Command {
    /// Lay out anew on a screen of this size, which is cleared first.
    Resize { cols: usize, rows: usize },
    /// Keep the session and leave.
    Quit,
    FocusNext,
    FocusPrevious,
    /// Select the member at this index in the focused window.
    Select(usize),
    /// Scroll the focused pane towards history.
    ScrollUp,
    /// Scroll the focused pane towards the tail.
    ScrollDown,
    Nothing,
}

/// What the caller has to do after an event.
pub enum Action {
    Nothing,
    /// Give the screen this size. The next frame clears it.
    Resize { cols: usize, rows: usize },
    /// Write the record, if there is one, and leave.
    Quit(Option<SavedState>),
    /// Tear down and start what the switch says, in the focused window.
    Switch(Switch),
}

/// The meaning of an event: Escape leaves; `n` and the down arrow focus the
/// next window, `p` and the up arrow the one before; a digit selects the
/// member at that index; `k` scrolls up and `j` down.
pub open spec fn command_of(event: InputEvent) -> Command {
    match event {
        InputEvent::Resized { rows, cols } => Command::Resize { cols, rows },
        InputEvent::Escape => Command::Quit,
        InputEvent::DownArrow => Command::FocusNext,
        InputEvent::UpArrow => Command::FocusPrevious,
        InputEvent::Char(c) => if c == 'n' {
            Command::FocusNext
        } else if c == 'p' {
            Command::FocusPrevious
        } else if '0' <= c <= '9' {
            Command::Select((c as u32 - '0' as u32) as usize)
        } else if c == 'k' {
            Command::ScrollUp
        } else if c == 'j' {
            Command::ScrollDown
        } else {
            Command::Nothing
        },
        InputEvent::Other => Command::Nothing,
    }
}

/// Reads an event.
pub fn command(event: InputEvent) -> (r: Command)
    ensures
        r == command_of(event),
{
    match event {
        InputEvent::Resized { rows, cols } => Command::Resize { cols, rows },
        InputEvent::Escape => Command::Quit,
        InputEvent::DownArrow => Command::FocusNext,
        InputEvent::UpArrow => Command::FocusPrevious,
        InputEvent::Char(c) => {
            let u: u32 = c as u32;
            if c == 'n' {
                Command::FocusNext
            } else if c == 'p' {
                Command::FocusPrevious
            } else if 48 <= u && u <= 57 {
                Command::Select((u - 48) as usize)
            } else if c == 'k' {
                Command::ScrollUp
            } else if c == 'j' {
                Command::ScrollDown
            } else {
                Command::Nothing
            }
        },
        InputEvent::Other => Command::Nothing,
    }
}

impl UiState {
    /// Whether `self` and `action` are what an event with the meaning
    /// `command` makes of `before`.
    pub open spec fn follows(self, before: UiState, command: Command, action: Action) -> bool {
        &&& self.procfile_hash == before.procfile_hash
        &&& self.dimension == before.dimension
        &&& match command {
            Command::Resize { cols, rows } => {
                &&& self == (UiState { repaint: true, ..before })
                &&& action == (Action::Resize { cols, rows })
            },
            Command::Quit => {
                &&& self == before
                &&& action matches Action::Quit(saved)
                &&& saved_view(saved) == before.saved()
            },
            Command::FocusNext => {
                &&& self.windows@ == before.settled()
                &&& self.focused_window_index == before.index_below()
                &&& self.repaint == before.repaint
                &&& action is Nothing
            },
            Command::FocusPrevious => {
                &&& self.windows@ == before.settled()
                &&& self.focused_window_index == before.index_above()
                &&& self.repaint == before.repaint
                &&& action is Nothing
            },
            Command::Select(index) => {
                &&& self.windows@ == before.with_focused(|w: UiWindow| w.selected(index))
                &&& self.focused_window_index == before.focused_window_index
                &&& self.repaint == before.repaint
                &&& action matches Action::Switch(switch)
                &&& switch@ == before.switch_of(index)
            },
            Command::ScrollUp => {
                &&& self.windows@ == before.with_focused(
                    |w: UiWindow| w.with_pane(|t: PtyTerminal| t.scrolled_up()),
                )
                &&& self.focused_window_index == before.focused_window_index
                &&& self.repaint == before.repaint
                &&& action is Nothing
            },
            Command::ScrollDown => {
                &&& self.windows@ == before.with_focused(
                    |w: UiWindow| w.with_pane(|t: PtyTerminal| t.scrolled_down()),
                )
                &&& self.focused_window_index == before.focused_window_index
                &&& self.repaint == before.repaint
                &&& action is Nothing
            },
            Command::Nothing => {
                &&& self == before
                &&& action is Nothing
            },
        }
    }

    /// Takes one event: changes the state as the event asks and tells the
    /// caller what is left to do.
    pub fn handle(&mut self, event: InputEvent) -> (action: Action)
        ensures
            final(self).follows(*old(self), command_of(event), action),
            old(self).wf() ==> final(self).wf(),
    {
        match command(event) {
            Command::Resize { cols, rows } => {
                self.repaint = true;
                Action::Resize { cols, rows }
            },
            Command::Quit => Action::Quit(self.save_state()),
            Command::FocusNext => {
                self.next_window();
                Action::Nothing
            },
            Command::FocusPrevious => {
                self.previous_window();
                Action::Nothing
            },
            Command::Select(index) => Action::Switch(self.select_process(index)),
            Command::ScrollUp => {
                self.scroll_up();
                Action::Nothing
            },
            Command::ScrollDown => {
                self.scroll_down();
                Action::Nothing
            },
            Command::Nothing => Action::Nothing,
        }
    }

    /// Once a frame was laid out, the next frame clears the screen exactly
    /// when the terminal has changed its size in between: no other event
    /// makes a clear due.
    pub proof fn lemma_clear_follows_resize(
        self,
        event: InputEvent,
        then: UiState,
        action: Action,
        width: usize,
        height: usize,
        frame: crate::ui::Frame,
        last: UiState,
    )
        requires
            !self.repaint,
            then.follows(self, command_of(event), action),
            then.renders(width, height, last, frame),
        ensures
            frame.clear <==> event is Resized,
    {
    }
}

} // verus!

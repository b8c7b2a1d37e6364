//! A window: one group, the member of it that is selected, and the pane of
//! that member's process, if it has one.

use crate::draw::{ops_view, Color, DrawOp, DrawOpView};
use crate::pane::{PtyTerminal, TerminalSize};
use crate::procfile::{GroupView, Process, ProcessGroup, ProcessView};
use crate::session::{spawn_request_of, PtyProcess, SpawnRequest, SpawnRequestView};
use crate::text::{decimal, decimal_string};
use vstd::prelude::*;

verus! {

/// What a change of the selected member asks of the caller.
pub struct Switch {
    /// The pane that was discarded, whose session is to be torn down.
    pub closed: Option<PtyTerminal>,
    /// What to start, where the new member is a command.
    pub spawn: Option<SpawnRequest>,
}

/// Mathematical model of a [`Switch`].
pub struct SwitchView {
    pub closed: Option<PtyTerminal>,
    pub spawn: Option<SpawnRequestView>,
}

impl View for Switch {
    type V = SwitchView;

    open spec fn view(&self) -> SwitchView {
        SwitchView {
            closed: self.closed,
            spawn: match self.spawn {
                Some(request) => Some(request@),
                None => None,
            },
        }
    }
}

/// One thing that a switch asks of the caller.
pub enum SwitchStep {
    /// Tear down the session of this pane.
    TearDown(PtyTerminal),
    /// Start this, and hand the outcome to `attach`.
    Start(SpawnRequest),
}

/// Mathematical model of a [`SwitchStep`].
pub enum SwitchStepView {
    TearDown(PtyTerminal),
    Start(SpawnRequestView),
}

impl View for SwitchStep {
    type V = SwitchStepView;

    open spec fn view(&self) -> SwitchStepView {
        match self {
            SwitchStep::TearDown(pane) => SwitchStepView::TearDown(*pane),
            SwitchStep::Start(request) => SwitchStepView::Start(request@),
        }
    }
}

/// The models of a sequence of steps.
pub open spec fn steps_view(steps: Seq<SwitchStep>) -> Seq<SwitchStepView> {
    steps.map_values(|step: SwitchStep| step@)
}

impl SwitchView {
    /// What the switch asks for, in the order in which it is to be done:
    /// the teardown of what ran comes before the start of what follows.
    pub open spec fn steps(self) -> Seq<SwitchStepView> {
        (match self.closed {
            Some(pane) => seq![SwitchStepView::TearDown(pane)],
            None => Seq::empty(),
        }) + (match self.spawn {
            Some(request) => seq![SwitchStepView::Start(request)],
            None => Seq::empty(),
        })
    }
}

impl Switch {
    /// The steps of the switch, in the order in which they are to be
    /// taken.
    pub fn into_steps(self) -> (steps: Vec<SwitchStep>)
        ensures
            steps_view(steps@) == self@.steps(),
    {
        let mut steps: Vec<SwitchStep> = Vec::new();
        match self.closed {
            Some(pane) => {
                steps.push(SwitchStep::TearDown(pane));
            },
            None => {},
        }
        let ghost before = steps_view(steps@);
        match self.spawn {
            Some(request) => {
                steps.push(SwitchStep::Start(request));
                assert(steps_view(steps@) == before.push(SwitchStepView::Start(request@)));
            },
            None => {},
        }
        assert(steps_view(steps@) == self@.steps());
        steps
    }
}

/// How one window is drawn in a frame.
pub struct WindowFrame {
    /// The row of the status line.
    pub y: usize,
    /// The rows of the window, the status line among them.
    pub height: usize,
    /// Whether the window has the focus.
    pub focused: bool,
    /// The size that the pane's emulator has to change to, if any.
    pub resize: Option<TerminalSize>,
    /// The operations that draw the status line.
    pub status: Vec<DrawOp>,
}

/// How member `i` is written in the status line: a `*` if it is the active
/// one, its index, a colon and its label.
pub open spec fn member_tag(members: Seq<ProcessView>, active: int, i: int) -> Seq<char> {
    (if i == active {
        "*"@
    } else {
        Seq::empty()
    }) + decimal(i as nat) + ":"@ + members[i].label()
}

/// The tags of the first `n` members, with a space between two.
pub open spec fn member_tags(members: Seq<ProcessView>, active: int, n: int) -> Seq<char>
    decreases n,
{
    if n <= 0 {
        Seq::empty()
    } else if n == 1 {
        member_tag(members, active, 0)
    } else {
        member_tags(members, active, n - 1) + " "@ + member_tag(members, active, n - 1)
    }
}

/// The color of a status line.
pub open spec fn status_color(focused: bool) -> Color {
    if focused {
        Color::Fuchsia
    } else {
        Color::Grey
    }
}

/// The operations that draw the status line of a group in row `y`: in white
/// on the status color the title, a bar and the members' tags, then the
/// rest of the row cleared, the attributes reset and the cursor on the next
/// row.
pub open spec fn status_ops(group: GroupView, active: int, y: int, focused: bool) -> Seq<
    DrawOpView,
> {
    seq![
        DrawOpView::MoveTo { x: 0, y },
        DrawOpView::Background(status_color(focused)),
        DrawOpView::Foreground(Color::White),
        DrawOpView::Text(group.title),
        DrawOpView::Text(" | "@),
        DrawOpView::Text(member_tags(group.members, active, group.members.len() as int)),
        DrawOpView::ClearToEndOfLine(status_color(focused)),
        DrawOpView::ResetAttributes,
        DrawOpView::NextRow,
    ]
}

/// One group on the screen.
pub struct UiWindow {
    pub process_group: ProcessGroup,
    /// The index of the selected member.
    pub active_process_index: usize,
    /// The pane of the selected member's process.
    pub pty_terminal: Option<PtyTerminal>,
}

impl UiWindow {
    /// The selected index is one of the group's, the placeholder stands at
    /// index 0, the placeholder has no pane, and a pane is well formed.
    pub open spec fn wf(self) -> bool {
        &&& self.process_group@.wf()
        &&& self.active_process_index < self.process_group.members@.len()
        &&& self.process_group.members@[self.active_process_index as int] is Null
            ==> self.pty_terminal is None
        &&& self.pty_terminal matches Some(t) ==> t.wf()
    }

    /// The sessions that live in this window.
    pub open spec fn sessions(self) -> nat {
        if self.pty_terminal is Some {
            1
        } else {
            0
        }
    }

    /// The label of the selected member.
    pub open spec fn active_label(self) -> Seq<char> {
        self.process_group.members@[self.active_process_index as int]@.label()
    }

    /// A window on `process_group`, with the member at index 0 selected and
    /// no pane.
    pub fn new(process_group: ProcessGroup) -> (r: UiWindow)
        ensures
            r.process_group == process_group,
            r.active_process_index == 0,
            r.pty_terminal is None,
            process_group@.wf() ==> r.wf(),
    {
        UiWindow { process_group, active_process_index: 0, pty_terminal: None }
    }

    /// The selected member, if it is a command.
    pub open spec fn active(self) -> Option<Process> {
        if self.active_process_index < self.process_group.members@.len()
            && !(self.process_group.members@[self.active_process_index as int] is Null) {
            Some(self.process_group.members@[self.active_process_index as int])
        } else {
            None
        }
    }

    /// The selected member, if it is a command.
    pub fn get_active(&self) -> (r: Option<&Process>)
        ensures
            match r {
                Some(p) => self.active() == Some(*p),
                None => self.active() is None,
            },
    {
        if self.active_process_index < self.process_group.members.len() {
            match &self.process_group.members[self.active_process_index] {
                Process::Null => None,
                p => Some(p),
            }
        } else {
            None
        }
    }

    /// The window once the member at `index` was selected: its pane is
    /// gone. An index that the group does not have changes nothing.
    pub open spec fn selected(self, index: usize) -> UiWindow {
        if index < self.process_group.members@.len() {
            UiWindow { active_process_index: index, pty_terminal: None, ..self }
        } else {
            self
        }
    }

    /// What selecting the member at `index` asks of the caller: to tear
    /// down the pane that was there, and to start the member's command on a
    /// terminal of `dimension`, if it is one. Nothing for an index that the
    /// group does not have.
    pub open spec fn switch_of(self, dimension: (usize, usize), index: usize) -> SwitchView {
        if index < self.process_group.members@.len() {
            SwitchView {
                closed: self.pty_terminal,
                spawn: match self.process_group.members@[index as int] {
                    Process::Null => None,
                    Process::Command { label, argv } => Some(spawn_request_of(dimension, argv@)),
                },
            }
        } else {
            SwitchView { closed: None, spawn: None }
        }
    }

    /// Selects the member at `index`, if the group has one there. The pane
    /// is discarded and handed back to be torn down, whichever member was
    /// selected before; where the new member is a command, the result says
    /// what to start for it.
    pub fn set_active(&mut self, dimension: (usize, usize), index: usize) -> (r: Switch)
        ensures
            *final(self) == old(self).selected(index),
            r@ == old(self).switch_of(dimension, index),
            old(self).wf() ==> final(self).wf(),
    {
        if index < self.process_group.members.len() {
            let closed = self.pty_terminal.take();
            self.active_process_index = index;
            let spawn = match &self.process_group.members[index] {
                Process::Null => None,
                Process::Command { label: _, argv } => Some(
                    PtyProcess::spawn_request(dimension, argv.as_str()),
                ),
            };
            Switch { closed, spawn }
        } else {
            Switch { closed: None, spawn: None }
        }
    }

    /// The window once the outcome of a start was taken in: with a fresh
    /// pane of `dimension` on the session, or with none where the start
    /// failed.
    pub open spec fn attached(self, spawned: Option<PtyProcess>, dimension: (usize, usize)) -> UiWindow {
        UiWindow {
            pty_terminal: match spawned {
                Some(session) => Some(
                    PtyTerminal {
                        size: TerminalSize { rows: dimension.1, cols: dimension.0 },
                        scrollback_rows: dimension.1,
                        pty_process: session,
                        scroll_offset: 0,
                    },
                ),
                None => None,
            },
            ..self
        }
    }

    /// Takes in the outcome of the start that `set_active` asked for: the
    /// session, or `None` where it could not be started, which leaves the
    /// window without a pane. Hands back the pane that was there, to be
    /// torn down. Only a window whose selected member is a command takes a
    /// session in.
    pub fn attach(&mut self, spawned: Option<PtyProcess>, dimension: (usize, usize)) -> (r: Option<
        PtyTerminal,
    >)
        requires
            spawned is Some ==> old(self).active() is Some,
        ensures
            *final(self) == old(self).attached(spawned, dimension),
            r == old(self).pty_terminal,
            old(self).wf() && dimension.1 <= isize::MAX ==> final(self).wf(),
    {
        let displaced = self.pty_terminal.take();
        match spawned {
            Some(session) => {
                self.pty_terminal = Some(PtyTerminal::new(session, dimension));
            },
            None => {},
        }
        displaced
    }

    /// The window once its pane, if it has one, went through `f`.
    pub open spec fn with_pane(self, f: spec_fn(PtyTerminal) -> PtyTerminal) -> UiWindow {
        match self.pty_terminal {
            Some(t) => UiWindow { pty_terminal: Some(f(t)), ..self },
            None => self,
        }
    }

    /// Scrolls the pane one row towards history.
    pub fn scroll_up(&mut self)
        ensures
            *final(self) == old(self).with_pane(|t: PtyTerminal| t.scrolled_up()),
            old(self).wf() ==> final(self).wf(),
    {
        match &mut self.pty_terminal {
            Some(t) => {
                t.scroll_up();
            },
            None => {},
        }
    }

    /// Scrolls the pane one row towards the tail.
    pub fn scroll_down(&mut self)
        ensures
            *final(self) == old(self).with_pane(|t: PtyTerminal| t.scrolled_down()),
            old(self).wf() ==> final(self).wf(),
    {
        match &mut self.pty_terminal {
            Some(t) => {
                t.scroll_down();
            },
            None => {},
        }
    }

    /// Makes the pane show the tail.
    pub fn reset_scroll(&mut self)
        ensures
            *final(self) == old(self).with_pane(|t: PtyTerminal| t.at_tail()),
            old(self).wf() ==> final(self).wf(),
    {
        match &mut self.pty_terminal {
            Some(t) => {
                t.reset_scroll();
            },
            None => {},
        }
    }

    /// The size that the pane's emulator has to change to when the window
    /// is `w` columns wide and `h` rows high: that of the rows below the
    /// status line, unless it has that size or there is no pane.
    pub open spec fn pane_resize(self, w: usize, h: usize) -> Option<TerminalSize> {
        match self.pty_terminal {
            Some(t) => if t.size == (TerminalSize { rows: (h - 1) as usize, cols: w }) {
                None
            } else {
                Some(TerminalSize { rows: (h - 1) as usize, cols: w })
            },
            None => None,
        }
    }

    /// The text of the members in the status line.
    pub fn member_line(&self) -> (line: String)
        ensures
            line@ == member_tags(
                self.process_group@.members,
                self.active_process_index as int,
                self.process_group.members@.len() as int,
            ),
    {
        let ghost members = self.process_group@.members;
        let ghost active = self.active_process_index as int;
        let mut line = String::new();
        let mut i: usize = 0;
        while i < self.process_group.members.len()
            invariant
                i <= self.process_group.members@.len(),
                members == self.process_group@.members,
                active == self.active_process_index as int,
                line@ == member_tags(members, active, i as int),
            decreases self.process_group.members@.len() - i,
        {
            let ghost before = line@;
            if i > 0 {
                line.append(" ");
            }
            if i == self.active_process_index {
                line.append("*");
            }
            let index = decimal_string(i as u64);
            line.append(index.as_str());
            line.append(":");
            let label = self.process_group.members[i].label();
            line.append(label.as_str());
            proof {
                assert(members[i as int] == self.process_group.members@[i as int]@);
                let tag = member_tag(members, active, i as int);
                if i > 0 {
                    assert(line@ == before + " "@ + tag);
                } else {
                    assert(line@ == tag);
                }
            }
            i += 1;
        }
        line
    }

    /// Draws the window in `h` rows from row `y` on, `w` columns wide: the
    /// pane takes the rows below the status line, and the result says what
    /// its emulator has to do for that and how the status line is drawn.
    pub fn render(&mut self, w: usize, y: usize, h: usize, focused: bool) -> (r: WindowFrame)
        requires
            old(self).pty_terminal is Some ==> h >= 1,
        ensures
            r.y == y,
            r.height == h,
            r.focused == focused,
            ops_view(r.status@) == status_ops(
                old(self).process_group@,
                old(self).active_process_index as int,
                y as int,
                focused,
            ),
            r.resize == old(self).pane_resize(w, h),
            *final(self) == old(self).with_pane(
                |t: PtyTerminal| t.sized(TerminalSize { rows: (h - 1) as usize, cols: w }),
            ),
            old(self).wf() ==> final(self).wf(),
    {
        let resize = match &mut self.pty_terminal {
            Some(t) => t.resize_soft(w, h - 1),
            None => None,
        };
        let color = if focused {
            Color::Fuchsia
        } else {
            Color::Grey
        };
        let mut status: Vec<DrawOp> = Vec::new();
        status.push(DrawOp::MoveTo { x: 0, y });
        status.push(DrawOp::Background(color));
        status.push(DrawOp::Foreground(Color::White));
        status.push(DrawOp::Text(self.process_group.title.clone()));
        status.push(DrawOp::Text(String::from_str(" | ")));
        status.push(DrawOp::Text(self.member_line()));
        status.push(DrawOp::ClearToEndOfLine(color));
        status.push(DrawOp::ResetAttributes);
        status.push(DrawOp::NextRow);
        proof {
            assert(ops_view(status@) == status_ops(
                old(self).process_group@,
                old(self).active_process_index as int,
                y as int,
                focused,
            ));
        }
        WindowFrame { y, height: h, focused, resize, status }
    }

    /// Selecting the member that is selected already leaves one session,
    /// not two: the pane that was there is handed over to be torn down and
    /// the window is without a session until the new one is taken in.
    pub proof fn lemma_reselect_one_session(
        self,
        dimension: (usize, usize),
        session: PtyProcess,
    )
        requires
            self.active_process_index < self.process_group.members@.len(),
        ensures
            self.selected(self.active_process_index).sessions() == 0,
            self.switch_of(dimension, self.active_process_index).closed == self.pty_terminal,
            self.selected(self.active_process_index).attached(Some(session), dimension).sessions()
                == 1,
            self.selected(self.active_process_index).attached(
                Some(session),
                dimension,
            ).pty_terminal->0.pty_process == session,
            self.selected(self.active_process_index).attached(
                Some(session),
                dimension,
            ).active_process_index == self.active_process_index,
    {
    }
}

} // verus!

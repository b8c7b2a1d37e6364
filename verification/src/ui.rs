//! The compositor's state: the windows in display order, which of them has
//! the focus, and whether the screen has to be cleared before the next
//! frame.
//!
//! A frame stacks the windows top down. A window without the focus gets its
//! status line and a fixed number of rows; the focused window gets what is
//! left of the screen.

use crate::pane::PtyTerminal;
use crate::procfile::{distinct_groups, ProcessGroup};
use crate::text::{lemma_position_unique, position};
use crate::window::{Switch, UiWindow, WindowFrame};
use vstd::prelude::*;

verus! {

/// Rows that a window without the focus has below its status line.
pub const MIN_WINDOW_HEIGHT: usize = 2;

/// How a frame is drawn.
pub struct Frame {
    /// Whether the screen is cleared before the frame is put on it.
    pub clear: bool,
    /// The windows, top down.
    pub windows: Vec<WindowFrame>,
}

/// The state of the compositor.
pub struct UiState {
    /// The name under which this configuration's session is kept.
    pub procfile_hash: String,
    pub focused_window_index: usize,
    pub windows: Vec<UiWindow>,
    /// Columns and rows of the screen at the start, which new panes get.
    pub dimension: (usize, usize),
    /// Whether the next frame starts from a cleared screen. That is so at
    /// the start and after the terminal has changed its size.
    pub repaint: bool,
}

/// The titles of the windows.
pub open spec fn titles(windows: Seq<UiWindow>) -> Seq<Seq<char>> {
    windows.map_values(|w: UiWindow| w.process_group.title@)
}

/// Windows that show the same groups have the same titles.
pub proof fn lemma_same_titles(a: Seq<UiWindow>, b: Seq<UiWindow>)
    requires
        a.len() == b.len(),
        forall|i: int| 0 <= i < a.len() ==> (#[trigger] a[i]).process_group == b[i].process_group,
    ensures
        titles(a) == titles(b),
{
    assert(titles(a) =~= titles(b));
}

/// A fresh window for each group.
pub open spec fn fresh_windows(procfile: Seq<ProcessGroup>) -> Seq<UiWindow> {
    procfile.map_values(
        |g: ProcessGroup| UiWindow { process_group: g, active_process_index: 0, pty_terminal: None },
    )
}

impl UiState {
    /// One window has the focus, or there is none at all; no two windows
    /// have the same title; and every window is well formed.
    pub open spec fn wf(self) -> bool {
        &&& self.focused_window_index < self.windows@.len() || (self.windows@.len() == 0
            && self.focused_window_index == 0)
        &&& titles(self.windows@).no_duplicates()
        &&& forall|i: int| 0 <= i < self.windows@.len() ==> (#[trigger] self.windows@[i]).wf()
    }

    /// The state at the start: a window for each group, in their order, the
    /// first one focused, nothing running, and a clear of the screen due.
    pub fn new(procfile_hash: String, procfile: Vec<ProcessGroup>, dimension: (usize, usize)) -> (r:
        UiState)
        ensures
            r.procfile_hash == procfile_hash,
            r.focused_window_index == 0,
            r.windows@ == fresh_windows(procfile@),
            r.dimension == dimension,
            r.repaint,
            distinct_groups(procfile@) ==> r.wf(),
    {
        let mut windows: Vec<UiWindow> = Vec::new();
        for group in it: procfile
            invariant
                it.seq() == procfile@,
                windows@ == fresh_windows(it.seq().take(it.index())),
        {
            let ghost before = windows@;
            windows.push(UiWindow::new(group));
            proof {
                assert(it.seq().take(it.index() + 1) == it.seq().take(it.index()).push(group));
                assert(windows@ == fresh_windows(it.seq().take(it.index() + 1)));
            }
        }
        proof {
            assert(procfile@.take(procfile@.len() as int) == procfile@);
        }
        UiState { procfile_hash, focused_window_index: 0, windows, dimension, repaint: true }
    }

    /// The windows once the focused one shows its tail.
    pub open spec fn settled(self) -> Seq<UiWindow> {
        if self.focused_window_index < self.windows@.len() {
            self.windows@.update(
                self.focused_window_index as int,
                self.windows@[self.focused_window_index as int].with_pane(
                    |t: PtyTerminal| t.at_tail(),
                ),
            )
        } else {
            self.windows@
        }
    }

    /// The index that the focus has after a step up: one less, but not
    /// below 0.
    pub open spec fn index_above(self) -> usize {
        if self.focused_window_index > 0 {
            (self.focused_window_index - 1) as usize
        } else {
            0
        }
    }

    /// The index that the focus has after a step down: one more, but not
    /// past the last window.
    pub open spec fn index_below(self) -> usize {
        if self.focused_window_index + 1 < self.windows@.len() {
            (self.focused_window_index + 1) as usize
        } else {
            self.focused_window_index
        }
    }

    /// Makes the focused window show its tail.
    fn settle(&mut self)
        ensures
            final(self).windows@ == old(self).settled(),
            final(self).procfile_hash == old(self).procfile_hash,
            final(self).focused_window_index == old(self).focused_window_index,
            final(self).dimension == old(self).dimension,
            final(self).repaint == old(self).repaint,
    {
        if self.focused_window_index < self.windows.len() {
            self.windows[self.focused_window_index].reset_scroll();
        }
    }

    /// Moves the focus to the window above, if there is one. The window
    /// that had the focus shows its tail again.
    pub fn previous_window(&mut self)
        ensures
            final(self).windows@ == old(self).settled(),
            final(self).focused_window_index == old(self).index_above(),
            final(self).repaint == old(self).repaint,
            final(self).procfile_hash == old(self).procfile_hash,
            final(self).dimension == old(self).dimension,
            old(self).wf() ==> final(self).wf(),
    {
        self.settle();
        self.focused_window_index = if self.focused_window_index > 0 {
            self.focused_window_index - 1
        } else {
            0
        };
        proof {
            lemma_same_titles(self.windows@, old(self).windows@);
        }
    }

    /// Moves the focus to the window below, if there is one. The window
    /// that had the focus shows its tail again.
    pub fn next_window(&mut self)
        ensures
            final(self).windows@ == old(self).settled(),
            final(self).focused_window_index == old(self).index_below(),
            final(self).repaint == old(self).repaint,
            final(self).procfile_hash == old(self).procfile_hash,
            final(self).dimension == old(self).dimension,
            old(self).wf() ==> final(self).wf(),
    {
        self.settle();
        let len = self.windows.len();
        self.focused_window_index = if len > 0 && self.focused_window_index < len - 1 {
            self.focused_window_index + 1
        } else {
            self.focused_window_index
        };
        proof {
            lemma_same_titles(self.windows@, old(self).windows@);
        }
    }

    /// The windows once the focused one went through `f`.
    pub open spec fn with_focused(self, f: spec_fn(UiWindow) -> UiWindow) -> Seq<UiWindow> {
        if self.focused_window_index < self.windows@.len() {
            self.windows@.update(
                self.focused_window_index as int,
                f(self.windows@[self.focused_window_index as int]),
            )
        } else {
            self.windows@
        }
    }

    /// What selecting the member at `index` in the focused window asks of
    /// the caller.
    pub open spec fn switch_of(self, index: usize) -> crate::window::SwitchView {
        if self.focused_window_index < self.windows@.len() {
            self.windows@[self.focused_window_index as int].switch_of(self.dimension, index)
        } else {
            crate::window::SwitchView { closed: None, spawn: None }
        }
    }

    /// Selects the member at `index` in the focused window.
    pub fn select_process(&mut self, index: usize) -> (r: Switch)
        ensures
            final(self).windows@ == old(self).with_focused(|w: UiWindow| w.selected(index)),
            r@ == old(self).switch_of(index),
            final(self).repaint == old(self).repaint,
            final(self).focused_window_index == old(self).focused_window_index,
            final(self).procfile_hash == old(self).procfile_hash,
            final(self).dimension == old(self).dimension,
            old(self).wf() ==> final(self).wf(),
    {
        if self.focused_window_index < self.windows.len() {
            let dimension = self.dimension;
            let switch = self.windows[self.focused_window_index].set_active(dimension, index);
            proof {
                lemma_same_titles(self.windows@, old(self).windows@);
            }
            switch
        } else {
            Switch { closed: None, spawn: None }
        }
    }

    /// Scrolls the focused window's pane one row towards history.
    pub fn scroll_up(&mut self)
        ensures
            final(self).windows@ == old(self).with_focused(
                |w: UiWindow| w.with_pane(|t: PtyTerminal| t.scrolled_up()),
            ),
            final(self).repaint == old(self).repaint,
            final(self).focused_window_index == old(self).focused_window_index,
            final(self).procfile_hash == old(self).procfile_hash,
            final(self).dimension == old(self).dimension,
            old(self).wf() ==> final(self).wf(),
    {
        if self.focused_window_index < self.windows.len() {
            self.windows[self.focused_window_index].scroll_up();
        }
        proof {
            lemma_same_titles(self.windows@, old(self).windows@);
        }
    }

    /// Scrolls the focused window's pane one row towards the tail.
    pub fn scroll_down(&mut self)
        ensures
            final(self).windows@ == old(self).with_focused(
                |w: UiWindow| w.with_pane(|t: PtyTerminal| t.scrolled_down()),
            ),
            final(self).repaint == old(self).repaint,
            final(self).focused_window_index == old(self).focused_window_index,
            final(self).procfile_hash == old(self).procfile_hash,
            final(self).dimension == old(self).dimension,
            old(self).wf() ==> final(self).wf(),
    {
        if self.focused_window_index < self.windows.len() {
            self.windows[self.focused_window_index].scroll_down();
        }
        proof {
            lemma_same_titles(self.windows@, old(self).windows@);
        }
    }

    /// The index of the first window with the title `title`.
    pub fn find_window_by_title(&self, title: &String) -> (r: Option<usize>)
        ensures
            match r {
                Some(i) => i == position(titles(self.windows@), title@) && i < self.windows@.len(),
                None => position(titles(self.windows@), title@) == self.windows@.len(),
            },
    {
        let mut i: usize = 0;
        while i < self.windows.len() && !(self.windows[i].process_group.title == *title)
            invariant
                i <= self.windows@.len(),
                forall|j: int| 0 <= j < i ==> titles(self.windows@)[j] != title@,
            decreases self.windows@.len() - i,
        {
            i += 1;
        }
        proof {
            lemma_position_unique(titles(self.windows@), title@, i as int);
        }
        if i < self.windows.len() {
            Some(i)
        } else {
            None
        }
    }

    /// Whether a screen of `height` rows holds all windows: each its status
    /// line, the ones without the focus their fixed rows, and the focused
    /// one at least its status line.
    pub open spec fn fits(self, height: usize) -> bool {
        self.windows@.len() == 0 || (self.focused_window_index < self.windows@.len() && (
        self.windows@.len() - 1) * (1 + MIN_WINDOW_HEIGHT) < height)
    }

    /// Tells whether a screen of `height` rows holds all windows.
    pub fn can_render(&self, height: usize) -> (r: bool)
        ensures
            r == self.fits(height),
    {
        let len = self.windows.len();
        len == 0 || (self.focused_window_index < len && height > 0 && len - 1 <= (height - 1) / (1
            + MIN_WINDOW_HEIGHT))
    }

    /// The rows of window `i` on a screen of `height` rows: the focused
    /// window has what the others leave.
    pub open spec fn window_height(self, height: usize, i: int) -> int {
        if i == self.focused_window_index {
            height - (self.windows@.len() - 1) * (1 + MIN_WINDOW_HEIGHT)
        } else {
            1 + MIN_WINDOW_HEIGHT
        }
    }

    /// The row in which window `i` starts: below the windows before it.
    pub open spec fn window_top(self, height: usize, i: int) -> int
        decreases i,
    {
        if i <= 0 {
            0
        } else {
            self.window_top(height, i - 1) + self.window_height(height, i - 1)
        }
    }

    /// Lays out a frame for a screen of `width` columns and `height` rows.
    /// Every pane takes the size of the rows below its window's status
    /// line. The frame asks for a clear of the screen if one was due, and
    /// then none is due any more.
    pub fn render_to_screen(&mut self, width: usize, height: usize) -> (r: Frame)
        requires
            old(self).fits(height),
        ensures
            old(self).renders(width, height, *final(self), r),
            old(self).wf() ==> final(self).wf(),
    {
        let len = self.windows.len();
        proof {
            assert((len - 1) * (1 + MIN_WINDOW_HEIGHT) == 3 * (len - 1)) by (nonlinear_arith)
                requires
                    MIN_WINDOW_HEIGHT == 2,
            ;
        }
        let focused_height: usize = if len == 0 {
            height
        } else {
            height - 3 * (len - 1)
        };
        let mut frames: Vec<WindowFrame> = Vec::new();
        let mut y: usize = 0;
        let mut i: usize = 0;
        while i < len
            invariant
                i <= len,
                len == old(self).windows@.len(),
                len == self.windows@.len(),
                old(self).fits(height),
                (len - 1) * (1 + MIN_WINDOW_HEIGHT) == 3 * (len - 1),
                len > 0 ==> focused_height == height - 3 * (len - 1),
                self.procfile_hash == old(self).procfile_hash,
                self.focused_window_index == old(self).focused_window_index,
                self.dimension == old(self).dimension,
                self.repaint == old(self).repaint,
                y == old(self).window_top(height, i as int),
                i <= self.focused_window_index ==> y == 3 * i,
                i > self.focused_window_index ==> y == 3 * (i - 1) + focused_height,
                frames@.len() == i,
                forall|j: int|
                    0 <= j < i ==> old(self).framed(width, height, j, #[trigger] frames@[j]),
                forall|j: int|
                    0 <= j < i ==> #[trigger] self.windows@[j] == old(self).windows@[j].with_pane(
                        |t: PtyTerminal|
                            t.sized(
                                crate::pane::TerminalSize {
                                    rows: (old(self).window_height(height, j) - 1) as usize,
                                    cols: width,
                                },
                            ),
                    ),
                forall|j: int| i <= j < len ==> #[trigger] self.windows@[j] == old(self).windows@[j],
            decreases len - i,
        {
            let focused = i == self.focused_window_index;
            let h = if focused {
                focused_height
            } else {
                1 + MIN_WINDOW_HEIGHT
            };
            assert(h == old(self).window_height(height, i as int));
            let frame = self.windows[i].render(width, y, h, focused);
            frames.push(frame);
            y = y + h;
            i += 1;
        }
        proof {
            lemma_same_titles(self.windows@, old(self).windows@);
        }
        let clear = self.repaint;
        self.repaint = false;
        Frame { clear, windows: frames }
    }

    /// Whether `frame` and `after` are what laying out a frame for a screen
    /// of `width` columns and `height` rows makes of this state: the frame
    /// asks for the clear that was due and draws every window in its place,
    /// and afterwards no clear is due and every pane has the size of its
    /// window's rows below the status line.
    pub open spec fn renders(self, width: usize, height: usize, after: UiState, frame: Frame) -> bool {
        &&& frame.clear == self.repaint
        &&& !after.repaint
        &&& after.procfile_hash == self.procfile_hash
        &&& after.focused_window_index == self.focused_window_index
        &&& after.dimension == self.dimension
        &&& frame.windows@.len() == self.windows@.len()
        &&& after.windows@.len() == self.windows@.len()
        &&& forall|i: int|
            0 <= i < self.windows@.len() ==> self.framed(width, height, i, #[trigger] frame.windows@[i])
        &&& forall|i: int|
            0 <= i < self.windows@.len() ==> #[trigger] after.windows@[i]
                == self.windows@[i].with_pane(
                |t: PtyTerminal|
                    t.sized(
                        crate::pane::TerminalSize {
                            rows: (self.window_height(height, i) - 1) as usize,
                            cols: width,
                        },
                    ),
            )
    }

    /// Whether `frame` draws window `i` as a screen of `width` columns and
    /// `height` rows asks: in its place, with its status line, and with its
    /// pane sized to the rows below.
    pub open spec fn framed(self, width: usize, height: usize, i: int, frame: WindowFrame) -> bool {
        &&& frame.y == self.window_top(height, i)
        &&& frame.height == self.window_height(height, i)
        &&& frame.focused == (i == self.focused_window_index)
        &&& frame.resize == self.windows@[i].pane_resize(width, frame.height)
        &&& crate::draw::ops_view(frame.status@) == crate::window::status_ops(
            self.windows@[i].process_group@,
            self.windows@[i].active_process_index as int,
            frame.y as int,
            frame.focused,
        )
    }

    /// The row in which a window starts depends on the number of windows
    /// and on the focus alone.
    pub proof fn lemma_window_top(self, other: UiState, height: usize, i: int)
        requires
            other.windows@.len() == self.windows@.len(),
            other.focused_window_index == self.focused_window_index,
        ensures
            other.window_top(height, i) == self.window_top(height, i),
        decreases i,
    {
        if i > 0 {
            self.lemma_window_top(other, height, i - 1);
        }
    }

    /// Of two frames laid out one after the other for the same screen, the
    /// second asks for no clear, changes the size of no pane, and draws
    /// every window where and as the first did. Nothing of the state
    /// changes with it.
    pub proof fn lemma_second_frame(
        self,
        width: usize,
        height: usize,
        first: Frame,
        then: UiState,
        second: Frame,
        last: UiState,
    )
        requires
            self.renders(width, height, then, first),
            then.renders(width, height, last, second),
        ensures
            !second.clear,
            last.windows@ == then.windows@,
            last.focused_window_index == then.focused_window_index,
            last.repaint == then.repaint,
            second.windows@.len() == first.windows@.len(),
            forall|i: int|
                #![trigger second.windows@[i]]
                0 <= i < first.windows@.len() ==> {
                    &&& second.windows@[i].resize is None
                    &&& second.windows@[i].y == first.windows@[i].y
                    &&& second.windows@[i].height == first.windows@[i].height
                    &&& second.windows@[i].focused == first.windows@[i].focused
                    &&& crate::draw::ops_view(second.windows@[i].status@) == crate::draw::ops_view(
                        first.windows@[i].status@,
                    )
                },
    {
        assert forall|i: int| 0 <= i < then.windows@.len() implies #[trigger] last.windows@[i]
            == then.windows@[i] by {
            assert(self.framed(width, height, i, first.windows@[i]));
            assert(then.framed(width, height, i, second.windows@[i]));
            assert(then.window_height(height, i) == self.window_height(height, i));
        }
        assert(last.windows@ =~= then.windows@);
        assert forall|i: int|
            #![trigger second.windows@[i]]
            0 <= i < first.windows@.len() implies {
            &&& second.windows@[i].resize is None
            &&& second.windows@[i].y == first.windows@[i].y
            &&& second.windows@[i].height == first.windows@[i].height
            &&& second.windows@[i].focused == first.windows@[i].focused
            &&& crate::draw::ops_view(second.windows@[i].status@) == crate::draw::ops_view(
                first.windows@[i].status@,
            )
        } by {
            assert(self.framed(width, height, i, first.windows@[i]));
            assert(then.framed(width, height, i, second.windows@[i]));
            self.lemma_window_top(then, height, i);
            assert(then.window_height(height, i) == self.window_height(height, i));
        }
    }
}

} // verus!

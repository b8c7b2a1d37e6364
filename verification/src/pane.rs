//! A terminal pane: the size and the scroll position of one emulated
//! terminal, and the session of the process behind it.
//!
//! The emulator itself is kept by the caller. The pane tells it when to
//! change size and what to take in, and says which of its rows to draw, and
//! how.

use crate::draw::{ops_view, Color, DrawOp, DrawOpView};
use crate::session::{ChildStatus, PtyProcess};
use vstd::prelude::*;

verus! {

/// Lines that the emulator keeps above the visible rows.
pub const SCROLLBACK_LINES: usize = 1000;

/// The size of a terminal, in cells.
#[derive(Debug, Clone, Copy, PartialEq, Eq, Structural)]
pub struct TerminalSize {
    pub rows: usize,
    pub cols: usize,
}

/// One emulated terminal and its process.
pub struct PtyTerminal {
    /// The size that the emulator has.
    pub size: TerminalSize,
    /// The rows that the emulator retains, the visible ones among them.
    pub scrollback_rows: usize,
    /// The session of the process that writes to the emulator.
    pub pty_process: PtyProcess,
    /// The first row shown, counted from the first row of the live tail:
    /// 0 shows the tail, -1 starts one row above it.
    pub scroll_offset: isize,
}

/// The last row before `k` that holds cells.
pub open spec fn styled_before(has_cells: Seq<bool>, k: int) -> Option<int>
    decreases k,
{
    if k <= 0 {
        None
    } else if has_cells[k - 1] {
        Some(k - 1)
    } else {
        styled_before(has_cells, k - 1)
    }
}

/// The operations that draw row `k`: its text if it holds cells, styled
/// from where the last row with cells ended, then a clear to the end of the
/// row and a move to the next row.
pub open spec fn row_ops(has_cells: Seq<bool>, k: int) -> Seq<DrawOpView> {
    let tail = seq![DrawOpView::ClearToEndOfLine(Color::Default), DrawOpView::NextRow];
    if has_cells[k] {
        seq![DrawOpView::Row { row: k, after: styled_before(has_cells, k) }] + tail
    } else {
        tail
    }
}

/// The operations that draw the first `n` rows, top down.
pub open spec fn rows_ops(has_cells: Seq<bool>, n: int) -> Seq<DrawOpView>
    decreases n,
{
    if n <= 0 {
        Seq::empty()
    } else {
        rows_ops(has_cells, n - 1) + row_ops(has_cells, n - 1)
    }
}

impl PtyTerminal {
    /// The pane of a fresh emulator of `dimension`, which is columns and
    /// rows: it retains its visible rows and shows the tail.
    pub fn new(pty_process: PtyProcess, dimension: (usize, usize)) -> (r: PtyTerminal)
        ensures
            r.size == (TerminalSize { rows: dimension.1, cols: dimension.0 }),
            r.scrollback_rows == dimension.1,
            r.pty_process == pty_process,
            r.scroll_offset == 0,
            dimension.1 <= isize::MAX ==> r.wf(),
    {
        PtyTerminal {
            size: TerminalSize { rows: dimension.1, cols: dimension.0 },
            scrollback_rows: dimension.1,
            pty_process,
            scroll_offset: 0,
        }
    }

    /// The offset is 0, which shows the tail, or counts rows up from it;
    /// and the retained rows are no more than a machine can hold, so that
    /// every offset down to the floor can be told.
    pub open spec fn wf(self) -> bool {
        &&& self.scroll_offset <= 0
        &&& self.scrollback_rows <= isize::MAX
    }

    /// The least offset that scrolling up reaches: the oldest retained row
    /// at the top. A pane that retains no more than it shows stays at 0.
    pub open spec fn scroll_floor(self) -> int {
        if self.scrollback_rows >= self.size.rows {
            -(self.scrollback_rows - self.size.rows)
        } else {
            0
        }
    }

    /// The pane after one step towards history, which stops at the floor
    /// (and at the least number that the offset can hold).
    pub open spec fn scrolled_up(self) -> PtyTerminal {
        if self.scroll_offset > self.scroll_floor() && self.scroll_offset > isize::MIN {
            PtyTerminal { scroll_offset: (self.scroll_offset - 1) as isize, ..self }
        } else {
            self
        }
    }

    /// The pane after one step towards the tail, which stops at 0.
    pub open spec fn scrolled_down(self) -> PtyTerminal {
        if self.scroll_offset < 0 {
            PtyTerminal { scroll_offset: (self.scroll_offset + 1) as isize, ..self }
        } else {
            self
        }
    }

    /// The pane showing the tail.
    pub open spec fn at_tail(self) -> PtyTerminal {
        PtyTerminal { scroll_offset: 0, ..self }
    }

    /// The pane with the size `size`.
    pub open spec fn sized(self, size: TerminalSize) -> PtyTerminal {
        PtyTerminal { size, ..self }
    }

    /// Shows one row more of the history, if there is one.
    pub fn scroll_up(&mut self)
        ensures
            *final(self) == old(self).scrolled_up(),
            old(self).wf() ==> final(self).wf() && final(self).scroll_offset == if old(
                self,
            ).scroll_offset > old(self).scroll_floor() {
                old(self).scroll_offset - 1
            } else {
                old(self).scroll_offset as int
            },
    {
        let above = if self.scrollback_rows >= self.size.rows {
            self.scrollback_rows - self.size.rows
        } else {
            0
        };
        if self.scroll_offset > isize::MIN && self.scroll_offset as i128 + above as i128 > 0 {
            self.scroll_offset -= 1;
        }
    }

    /// Shows one row less of the history, if any is shown.
    pub fn scroll_down(&mut self)
        ensures
            *final(self) == old(self).scrolled_down(),
            old(self).wf() ==> final(self).wf(),
    {
        if self.scroll_offset < 0 {
            self.scroll_offset += 1;
        }
    }

    /// Shows the tail.
    pub fn reset_scroll(&mut self)
        ensures
            *final(self) == old(self).at_tail(),
            old(self).wf() ==> final(self).wf(),
    {
        self.scroll_offset = 0;
    }

    /// Takes the size `w` by `h`. Returns the size that the emulator has to
    /// change to: none where it has that size already.
    pub fn resize_soft(&mut self, w: usize, h: usize) -> (r: Option<TerminalSize>)
        ensures
            old(self).size == (TerminalSize { rows: h, cols: w }) ==> r is None && *final(self)
                == *old(self),
            old(self).size != (TerminalSize { rows: h, cols: w }) ==> r == Some(
                TerminalSize { rows: h, cols: w },
            ) && *final(self) == old(self).sized(TerminalSize { rows: h, cols: w }),
            old(self).wf() ==> final(self).wf(),
    {
        if self.size.cols != w || self.size.rows != h {
            let size = TerminalSize { rows: h, cols: w };
            self.size = size;
            Some(size)
        } else {
            None
        }
    }

    /// Takes note of the number of rows that the emulator retains.
    pub fn observe_rows(&mut self, scrollback_rows: usize)
        ensures
            *final(self) == (PtyTerminal { scrollback_rows, ..*old(self) }),
            old(self).wf() && scrollback_rows <= isize::MAX ==> final(self).wf(),
    {
        self.scrollback_rows = scrollback_rows;
    }

    /// Polls the session. Returns what the emulator has to take in: nothing
    /// where no byte came.
    pub fn poll(&mut self, status: ChildStatus) -> (feed: Option<Vec<u8>>)
        ensures
            feed matches Some(bytes) ==> bytes@.len() > 0 && bytes@.len() >= PtyProcess::exit_note(
                old(self).pty_process.exit_status,
                status,
            ).len() && bytes@.skip(
                bytes@.len() - PtyProcess::exit_note(
                    old(self).pty_process.exit_status,
                    status,
                ).len(),
            ) == PtyProcess::exit_note(old(self).pty_process.exit_status, status),
            feed is None ==> PtyProcess::exit_note(old(self).pty_process.exit_status, status).len()
                == 0,
            final(self).pty_process.exit_status == PtyProcess::exit_seen(
                old(self).pty_process.exit_status,
                status,
            ),
            final(self).pty_process.receiver == old(self).pty_process.receiver,
            final(self).pty_process.closed == old(self).pty_process.closed,
            final(self).size == old(self).size,
            final(self).scrollback_rows == old(self).scrollback_rows,
            final(self).scroll_offset == old(self).scroll_offset,
    {
        let buffer = self.pty_process.poll(status);
        if buffer.len() > 0 {
            Some(buffer)
        } else {
            None
        }
    }

    /// The rows to draw, as a range of rows counted from the first row of
    /// the live tail: as many as the pane shows, from the scroll offset on.
    pub fn visible_range(&self) -> (r: (i128, i128))
        ensures
            r.0 == self.scroll_offset,
            r.1 == self.scroll_offset + self.size.rows,
    {
        let start: i128 = self.scroll_offset as i128;
        (start, start + self.size.rows as i128)
    }

    /// The operations that draw the visible rows, top down, given for each
    /// whether it holds cells.
    pub fn draw_rows(has_cells: &Vec<bool>) -> (ops: Vec<DrawOp>)
        ensures
            ops_view(ops@) == rows_ops(has_cells@, has_cells@.len() as int),
    {
        let mut ops: Vec<DrawOp> = Vec::new();
        let mut styled: Option<usize> = None;
        let mut k: usize = 0;
        proof {
            assert(ops_view(ops@) == rows_ops(has_cells@, 0));
        }
        while k < has_cells.len()
            invariant
                k <= has_cells.len(),
                ops_view(ops@) == rows_ops(has_cells@, k as int),
                match styled {
                    Some(a) => styled_before(has_cells@, k as int) == Some(a as int),
                    None => styled_before(has_cells@, k as int) is None,
                },
            decreases has_cells.len() - k,
        {
            let ghost before = ops_view(ops@);
            if has_cells[k] {
                ops.push(DrawOp::Row { row: k, after: styled });
                styled = Some(k);
            }
            ops.push(DrawOp::ClearToEndOfLine(Color::Default));
            ops.push(DrawOp::NextRow);
            proof {
                assert(ops_view(ops@) == before + row_ops(has_cells@, k as int));
            }
            k += 1;
        }
        ops
    }

    /// The pane after `n` steps towards history.
    pub open spec fn scrolled_up_by(self, n: nat) -> PtyTerminal
        decreases n,
    {
        if n == 0 {
            self
        } else {
            self.scrolled_up_by((n - 1) as nat).scrolled_up()
        }
    }

    /// The pane after `n` steps towards the tail.
    pub open spec fn scrolled_down_by(self, n: nat) -> PtyTerminal
        decreases n,
    {
        if n == 0 {
            self
        } else {
            self.scrolled_down_by((n - 1) as nat).scrolled_down()
        }
    }

    /// The offset at which steps towards history stop: the floor, or the
    /// least number that the offset can hold.
    pub open spec fn scroll_stop(self) -> int {
        if self.scroll_floor() > isize::MIN {
            self.scroll_floor()
        } else {
            isize::MIN as int
        }
    }

    /// The offset after `n` steps towards history.
    pub open spec fn offset_up_by(self, n: nat) -> int {
        if self.scroll_offset <= self.scroll_stop() {
            self.scroll_offset as int
        } else if self.scroll_offset - n >= self.scroll_stop() {
            self.scroll_offset - n
        } else {
            self.scroll_stop()
        }
    }

    /// The offset after `n` steps towards the tail.
    pub open spec fn offset_down_by(self, n: nat) -> int {
        if self.scroll_offset >= 0 {
            self.scroll_offset as int
        } else if self.scroll_offset + n <= 0 {
            self.scroll_offset + n
        } else {
            0
        }
    }

    /// Steps towards history change the offset alone, and stop at the
    /// floor.
    pub proof fn lemma_scrolled_up_by(self, n: nat)
        ensures
            self.scrolled_up_by(n) == (PtyTerminal {
                scroll_offset: self.offset_up_by(n) as isize,
                ..self
            }),
            isize::MIN <= self.offset_up_by(n) <= isize::MAX,
        decreases n,
    {
        if n > 0 {
            self.lemma_scrolled_up_by((n - 1) as nat);
        }
    }

    /// Steps towards the tail change the offset alone, and stop at 0.
    pub proof fn lemma_scrolled_down_by(self, n: nat)
        ensures
            self.scrolled_down_by(n) == (PtyTerminal {
                scroll_offset: self.offset_down_by(n) as isize,
                ..self
            }),
            isize::MIN <= self.offset_down_by(n) <= isize::MAX,
        decreases n,
    {
        if n > 0 {
            self.lemma_scrolled_down_by((n - 1) as nat);
        }
    }

    /// Scrolling a well-formed pane up `n` times and then down `n` times
    /// changes nothing but the offset, and brings the offset back to where
    /// it was exactly when the way up did not meet the floor, or started at
    /// the tail.
    pub proof fn lemma_scroll_round_trip(self, n: nat)
        requires
            self.wf(),
        ensures
            self.scrolled_up_by(n).scrolled_down_by(n) == (PtyTerminal {
                scroll_offset: self.scrolled_up_by(n).scrolled_down_by(n).scroll_offset,
                ..self
            }),
            self.scrolled_up_by(n).scrolled_down_by(n).wf(),
            self.scrolled_up_by(n).scrolled_down_by(n).scroll_offset == self.scroll_offset <==> (n
                == 0 || self.scroll_offset == 0 || self.scroll_offset - n >= self.scroll_floor()),
    {
        self.lemma_scrolled_up_by(n);
        self.scrolled_up_by(n).lemma_scrolled_down_by(n);
    }

    /// Above the floor a step up moves a well-formed pane by one row, at
    /// the floor by none; `n` steps that stay above the floor move it by
    /// `n` rows.
    pub proof fn lemma_scroll_up_steps(self, n: nat)
        requires
            self.wf(),
        ensures
            self.scrolled_up().scroll_offset == if self.scroll_offset > self.scroll_floor() {
                self.scroll_offset - 1
            } else {
                self.scroll_offset as int
            },
            self.scroll_offset - n >= self.scroll_floor() ==> self.scrolled_up_by(n).scroll_offset
                == self.scroll_offset - n,
            self.scroll_floor() <= self.scroll_offset ==> self.scroll_floor()
                <= self.scrolled_up().scroll_offset <= 0,
            self.scrolled_up().scroll_floor() == self.scroll_floor(),
    {
        self.lemma_scrolled_up_by(n);
    }
}

} // verus!

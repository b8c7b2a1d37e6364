//! The operations that a frame is drawn with.

use vstd::prelude::*;

verus! {

/// The colors that the status lines use.
#[derive(Debug, Clone, Copy, PartialEq, Eq, Structural)]
pub enum Color {
    /// The terminal's own color.
    Default,
    White,
    Grey,
    Fuchsia,
}

/// One operation on the screen.
#[derive(Debug, Clone, PartialEq, Eq)]
pub enum DrawOp {
    /// Put the cursor at column `x` of row `y`.
    MoveTo { x: usize, y: usize },
    /// Put the cursor at the start of the row below.
    NextRow,
    /// Draw what follows on this color.
    Background(Color),
    /// Draw what follows in this color.
    Foreground(Color),
    /// Write a text at the cursor.
    Text(String),
    /// Clear from the cursor to the end of the row, to this color.
    ClearToEndOfLine(Color),
    /// Go back to the default attributes.
    ResetAttributes,
    /// Write the styled text of the pane's visible row `row`. It starts from
    /// the attributes that the visible row `after` ends with, or from the
    /// default attributes where there is none.
    Row { row: usize, after: Option<usize> },
}

/// Mathematical model of a [`DrawOp`].
pub enum DrawOpView {
    MoveTo { x: int, y: int },
    NextRow,
    Background(Color),
    Foreground(Color),
    Text(Seq<char>),
    ClearToEndOfLine(Color),
    ResetAttributes,
    Row { row: int, after: Option<int> },
}

impl View for DrawOp {
    type V = DrawOpView;

    open spec fn view(&self) -> DrawOpView {
        match self {
            DrawOp::MoveTo { x, y } => DrawOpView::MoveTo { x: *x as int, y: *y as int },
            DrawOp::NextRow => DrawOpView::NextRow,
            DrawOp::Background(c) => DrawOpView::Background(*c),
            DrawOp::Foreground(c) => DrawOpView::Foreground(*c),
            DrawOp::Text(s) => DrawOpView::Text(s@),
            DrawOp::ClearToEndOfLine(c) => DrawOpView::ClearToEndOfLine(*c),
            DrawOp::ResetAttributes => DrawOpView::ResetAttributes,
            DrawOp::Row { row, after } => DrawOpView::Row {
                row: *row as int,
                after: match after {
                    Some(a) => Some(*a as int),
                    None => None,
                },
            },
        }
    }
}

/// The models of a sequence of operations.
pub open spec fn ops_view(ops: Seq<DrawOp>) -> Seq<DrawOpView> {
    ops.map_values(|op: DrawOp| op@)
}

} // verus!

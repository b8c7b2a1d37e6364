//! Engine of a terminal multiplexer that runs named groups of shell commands
//! side by side: the group file's grammar, the state of windows, panes and
//! process sessions, the layout of a frame and the record of a session that
//! is kept between runs.

pub mod draw;
pub mod input;
pub mod pane;
pub mod persist;
pub mod procfile;
pub mod session;
pub mod text;
pub mod ui;
pub mod window;

//! Core of a keyboard-driven task manager: nested workspaces, each owning a
//! nested task list, the selection that walks them, and the focus and mode
//! that decide what a key press means.
//!
//! Everything here is plain data and pure decisions. Terminal drawing,
//! input reading, channels and files live with the caller.
//!
//! - [`tree`] and [`tree_laws`]: the model of a forest, and what deleting,
//!   changing and moving do to it.
//! - [`ui`]: workspaces, tasks, the panes that hold them, the renderer's
//!   state with every action on it, and what holds of that state at all
//!   times.
//! - [`appstate`] and [`dispatch`]: focus, mode and exit; what an input
//!   event means, and what a command does.
//! - [`search`] and [`text`]: which tasks a filter selects.
//! - [`date`] and [`due`]: calendar dates, and reading a due date from what
//!   was typed.
//! - [`data`]: the snapshot that is saved and loaded.
//! - [`ids`] and [`errors`]: fresh identifiers, and the ways to fail.

pub mod appstate;
pub mod data;
pub mod date;
pub mod dispatch;
pub mod due;
pub mod errors;
pub mod ids;
pub mod search;
pub mod text;
pub mod tree;
pub mod tree_laws;
pub mod ui;

//! The small block of state that every actor sees: which pane has the
//! focus, which mode the keys are read in, and whether to stop.

use crate::ui::SearchEvent;
use vstd::prelude::*;

verus! {

/// Which pane receives navigation input.
#[derive(Debug, Clone, Copy, PartialEq, Eq, Structural)]
pub enum CurrentFocus {
    /// The active workspaces.
    Workspace,
    /// The task list of the open workspace.
    TodoList,
    /// The archived workspaces.
    ArchivedWorkspace,
}

/// How key presses are read.
#[derive(Debug, Clone, Copy, PartialEq, Eq, Structural)]
pub enum CurrentMode {
    /// Keys are commands.
    Normal,
    /// Keys go, unread, to the prompt that is open.
    Insert,
    /// The task list shows only what the filter lets through.
    Search,
    /// The help page is open.
    Help,
    /// A sort order is being chosen.
    Sort,
}

/// A command: what a key press asks for.
#[derive(Debug, Clone, Copy, PartialEq, Eq, Structural)]
pub enum Message {
    /// Redraw.
    Update,
    /// Switch to the given mode.
    ChangeMode(CurrentMode),
    /// Give the given pane the focus.
    ChangeFocus(CurrentFocus),
    /// Open the selected workspace's task list.
    SelectWorkspace,
    /// Add a workspace or a task, whichever pane has the focus.
    AddItem,
    /// Add a child to the selected workspace or task.
    AddChild,
    /// Delete the selected workspace or task.
    DeleteItem,
    /// Move the selection up.
    MoveUp,
    /// Move the selection down.
    MoveDown,
    /// Stop the application.
    Exit,
    /// Archive the selected workspace.
    Archive,
    /// Bring the selected archived workspace back.
    Recovery,
    /// Mark the selected task finished.
    Complete,
    /// Mark the selected task in process.
    InProcess,
    /// Mark the selected task to do.
    Todo,
    /// Mark the selected task deprecated.
    Deprecated,
    /// Rename the selected workspace or task.
    Rename,
    /// Filter the task list.
    Filter,
    /// Step through, or leave, the filtered task list.
    SearchMsg(SearchEvent),
    /// Open the help page.
    Help,
    /// Close the help page.
    ExitHelp,
    /// Set the due date of the selected task.
    Due,
    /// Save everything.
    SaveData,
    /// Make the selected task more urgent.
    IncreseUrgency,
    /// Make the selected task less urgent.
    DecreseUrgency,
    /// Sort the tasks.
    Sort,
}

/// The state shared by all actors.
#[derive(Debug, Clone, Copy, PartialEq, Eq, Structural)]
pub struct AppState {
    /// The pane that has the focus.
    pub current_focus: CurrentFocus,
    /// The mode keys are read in.
    pub current_mode: CurrentMode,
    /// Set once the application is to stop.
    pub exit: bool,
}

impl AppState {
    /// Focus on the workspaces, normal mode, running.
    pub fn new() -> (state: Self)
        ensures
            state == (AppState {
                current_focus: CurrentFocus::Workspace,
                current_mode: CurrentMode::Normal,
                exit: false,
            }),
    {
        AppState {
            current_focus: CurrentFocus::Workspace,
            current_mode: CurrentMode::Normal,
            exit: false,
        }
    }
}

impl Default for AppState {
    fn default() -> (state: Self)
        ensures
            state == (AppState {
                current_focus: CurrentFocus::Workspace,
                current_mode: CurrentMode::Normal,
                exit: false,
            }),
    {
        AppState::new()
    }
}

} // verus!

//! The key hints shown under the panes and on the help page.

use crate::appstate::{CurrentFocus, CurrentMode};
use vstd::prelude::*;
use vstd::string::StringExecFns;

verus! {

/// One key binding: the key, a word for what it does, and a sentence.
#[derive(Debug, PartialEq, Eq)]
pub struct Keymap {
    pub key: String,
    pub desc: String,
    pub detailed: String,
}

impl Keymap {
    /// A key binding with the given three texts.
    pub fn new(key: &str, desc: &str, detail: &str) -> (hint: Self)
        ensures
            hint.key@ == key@,
            hint.desc@ == desc@,
            hint.detailed@ == detail@,
    {
        Keymap {
            key: String::from_str(key),
            desc: String::from_str(desc),
            detailed: String::from_str(detail),
        }
    }
}

/// The key hints, by pane, with the focus and mode that decide which are
/// shown.
#[derive(Debug, PartialEq, Eq)]
pub struct KeymapWidget {
    pub focus: CurrentFocus,
    pub mode: CurrentMode,
    pub general_hint: Vec<Keymap>,
    pub workspace_hint: Vec<Keymap>,
    pub tasklist_hint: Vec<Keymap>,
    pub archived_ws_hint: Vec<Keymap>,
}

/// Which of the four tables of hints is shown.
#[derive(Debug, Clone, Copy, PartialEq, Eq, Structural)]
pub enum HintTable {
    General,
    Workspace,
    TaskList,
    ArchivedWorkspace,
}

/// The table shown for a mode and focus: the general one while the help
/// page is open, otherwise the one of the focused pane.
pub open spec fn table_for(mode: CurrentMode, focus: CurrentFocus) -> HintTable {
    if mode == CurrentMode::Help {
        HintTable::General
    } else {
        match focus {
            CurrentFocus::Workspace => HintTable::Workspace,
            CurrentFocus::TodoList => HintTable::TaskList,
            CurrentFocus::ArchivedWorkspace => HintTable::ArchivedWorkspace,
        }
    }
}

impl KeymapWidget {
    /// The hints with the given pane focused, in normal mode.
    pub fn new(focus: CurrentFocus) -> (widget: Self)
        ensures
            widget.focus == focus,
            widget.mode == CurrentMode::Normal,
            widget.general_hint@.len() == 10,
            widget.workspace_hint@.len() == 7,
            widget.tasklist_hint@.len() == 15,
            widget.archived_ws_hint@.len() == 5,
    {
        let mut widget = KeymapWidget::default();
        widget.focus = focus;
        widget
    }

    /// Which table of hints is shown now.
    pub fn shown_table(&self) -> (table: HintTable)
        ensures
            table == table_for(self.mode, self.focus),
    {
        match self.mode {
            CurrentMode::Help => HintTable::General,
            _ => match self.focus {
                CurrentFocus::Workspace => HintTable::Workspace,
                CurrentFocus::TodoList => HintTable::TaskList,
                CurrentFocus::ArchivedWorkspace => HintTable::ArchivedWorkspace,
            },
        }
    }

    /// The hints that are shown now.
    pub fn shown_hints(&self) -> (hints: &Vec<Keymap>)
        ensures
            hints == match table_for(self.mode, self.focus) {
                HintTable::General => &self.general_hint,
                HintTable::Workspace => &self.workspace_hint,
                HintTable::TaskList => &self.tasklist_hint,
                HintTable::ArchivedWorkspace => &self.archived_ws_hint,
            },
    {
        match self.shown_table() {
            HintTable::General => &self.general_hint,
            HintTable::Workspace => &self.workspace_hint,
            HintTable::TaskList => &self.tasklist_hint,
            HintTable::ArchivedWorkspace => &self.archived_ws_hint,
        }
    }
}

impl Default for KeymapWidget {
    /// The hints with the active workspaces focused, in normal mode.
    fn default() -> (widget: Self)
        ensures
            widget.focus == CurrentFocus::Workspace,
            widget.mode == CurrentMode::Normal,
            widget.general_hint@.len() == 10,
            widget.workspace_hint@.len() == 7,
            widget.tasklist_hint@.len() == 15,
            widget.archived_ws_hint@.len() == 5,
    {
        KeymapWidget {
            focus: CurrentFocus::Workspace,
            mode: CurrentMode::Normal,
            general_hint: vec![
                Keymap::new("h/left", "left", "focus on left part(workspace)"),
                Keymap::new("l/right", "right", "focus on right part(tasks)"),
                Keymap::new("j/down", "down", "select item bellow"),
                Keymap::new("k/up", "up", "select item above"),
                Keymap::new("tab", "focus", "change focus between 3 parts"),
                Keymap::new("enter", "enter workspace", "enter into the tasks of the workspace"),
                Keymap::new("esc", "exit current mode", "exit search or help"),
                Keymap::new("q", "quit", "quit the application"),
                Keymap::new("ctrl-s", "save", "save the data"),
                Keymap::new("1/2/3", "focus", "focus target part"),
            ],
            workspace_hint: vec![
                Keymap::new("a", "add", "add new workspace"),
                Keymap::new("x", "delete", "delete current workspace"),
                Keymap::new("i", "subworkspace", "insert a subworkspace to current"),
                Keymap::new("A", "archive", "archive current workspace"),
                Keymap::new("r", "rename", "rename current workspace"),
                Keymap::new("ctrl-s", "save", "save the data"),
                Keymap::new("?", "help", "open the help page"),
            ],
            tasklist_hint: vec![
                Keymap::new("a", "add", "add new task"),
                Keymap::new("x", "delete", "delete current task"),
                Keymap::new("i", "subtask", "insert a subtask to current"),
                Keymap::new("c", "complete", "mark the task as completed"),
                Keymap::new("p", "inprocess", "mark the task as in process"),
                Keymap::new("t", "todo", "mark the task as todo"),
                Keymap::new("d", "deprecate", "mark the task as deprecated"),
                Keymap::new("D", "due", "set the due date of current task"),
                Keymap::new("r", "rename", "rename the current task"),
                Keymap::new("s", "sort", "sort the current task by rule (in dev)"),
                Keymap::new("f /", "filter", "search tasks in current workspace"),
                Keymap::new("+/=", "increase", "increase the urgency"),
                Keymap::new("-/_", "decrease", "decrease the urgency"),
                Keymap::new("ctrl-s", "save", "save the data"),
                Keymap::new("?", "help", "open the help page"),
            ],
            archived_ws_hint: vec![
                Keymap::new("x", "delete", "delete current workspace"),
                Keymap::new("r", "rename", "rename current workspace"),
                Keymap::new("R", "recovery", "recovery the current workspace"),
                Keymap::new("ctrl-s", "save", "save the data"),
                Keymap::new("?", "help", "open the help page"),
            ],
        }
    }
}

} // verus!

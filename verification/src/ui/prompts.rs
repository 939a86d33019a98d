//! What a key press means to a prompt that is open. The prompts themselves,
//! their text buffer and their drawing, belong to the renderer.

use crate::appstate::CurrentFocus;
use crate::dispatch::{KeyCode, KeyEvent};
use crate::ui::screen::ConfirmKind;
use crate::ui::WidgetAction;
use vstd::prelude::*;

verus! {

/// What a key press does to a line of text that is being entered.
#[derive(Debug, Clone, Copy, PartialEq, Eq, Structural)]
pub enum TextStep {
    /// Put this character in at the cursor.
    Insert(char),
    /// Remove the character before the cursor.
    Delete,
    /// Move the cursor one character back.
    Back,
    /// Move the cursor one character on.
    Forward,
    /// The text is complete.
    Submit,
    /// The prompt is dismissed: the text counts as empty.
    Cancel,
    /// Open the calendar.
    OpenCalendar,
    /// Nothing.
    Ignore,
}

/// What a key press does to the calendar while it is open.
#[derive(Debug, Clone, Copy, PartialEq, Eq, Structural)]
pub enum CalendarStep {
    Left,
    Right,
    Up,
    Down,
    /// Take the date under the cursor.
    Pick,
    /// Close the calendar and go on with the text.
    Close,
    /// Nothing.
    Ignore,
}

/// What a key press means to a text prompt. Only the prompt for a due date
/// has a calendar to open.
pub open spec fn text_step(key: KeyEvent, with_calendar: bool) -> TextStep {
    match key.code {
        KeyCode::Esc => TextStep::Cancel,
        KeyCode::Backspace => TextStep::Delete,
        KeyCode::Right => TextStep::Forward,
        KeyCode::Left => TextStep::Back,
        KeyCode::Enter => TextStep::Submit,
        KeyCode::Char(c) => if with_calendar && key.ctrl && c == 'o' {
            TextStep::OpenCalendar
        } else {
            TextStep::Insert(c)
        },
        _ => TextStep::Ignore,
    }
}

/// What a key press means to the open calendar.
pub open spec fn calendar_step(key: KeyEvent) -> CalendarStep {
    match key.code {
        KeyCode::Left => CalendarStep::Left,
        KeyCode::Right => CalendarStep::Right,
        KeyCode::Down => CalendarStep::Down,
        KeyCode::Up => CalendarStep::Up,
        KeyCode::Esc => CalendarStep::Close,
        KeyCode::Enter => CalendarStep::Pick,
        KeyCode::Char(c) => if c == 'h' {
            CalendarStep::Left
        } else if c == 'l' {
            CalendarStep::Right
        } else if c == 'j' {
            CalendarStep::Down
        } else if c == 'k' {
            CalendarStep::Up
        } else {
            CalendarStep::Ignore
        },
        _ => CalendarStep::Ignore,
    }
}

/// What a key press answers to a yes-or-no question: `y` is yes, `n` and
/// Escape are no, and any other key is no answer yet.
pub open spec fn confirm_step(key: KeyEvent) -> Option<bool> {
    match key.code {
        KeyCode::Char(c) => if c == 'y' {
            Some(true)
        } else if c == 'n' {
            Some(false)
        } else {
            None
        },
        KeyCode::Esc => Some(false),
        _ => None,
    }
}

/// Decides what a key press does to a text prompt.
pub fn text_key(key: KeyEvent, with_calendar: bool) -> (step: TextStep)
    ensures
        step == text_step(key, with_calendar),
{
    match key.code {
        KeyCode::Esc => TextStep::Cancel,
        KeyCode::Backspace => TextStep::Delete,
        KeyCode::Right => TextStep::Forward,
        KeyCode::Left => TextStep::Back,
        KeyCode::Enter => TextStep::Submit,
        KeyCode::Char(c) => {
            if with_calendar && key.ctrl && c == 'o' {
                TextStep::OpenCalendar
            } else {
                TextStep::Insert(c)
            }
        },
        _ => TextStep::Ignore,
    }
}

/// Decides what a key press does to the open calendar.
pub fn calendar_key(key: KeyEvent) -> (step: CalendarStep)
    ensures
        step == calendar_step(key),
{
    match key.code {
        KeyCode::Left => CalendarStep::Left,
        KeyCode::Right => CalendarStep::Right,
        KeyCode::Down => CalendarStep::Down,
        KeyCode::Up => CalendarStep::Up,
        KeyCode::Esc => CalendarStep::Close,
        KeyCode::Enter => CalendarStep::Pick,
        KeyCode::Char(c) => {
            if c == 'h' {
                CalendarStep::Left
            } else if c == 'l' {
                CalendarStep::Right
            } else if c == 'j' {
                CalendarStep::Down
            } else if c == 'k' {
                CalendarStep::Up
            } else {
                CalendarStep::Ignore
            }
        },
        _ => CalendarStep::Ignore,
    }
}

/// Decides what a key press answers to a yes-or-no question.
pub fn confirm_key(key: KeyEvent) -> (answer: Option<bool>)
    ensures
        answer == confirm_step(key),
{
    match key.code {
        KeyCode::Char(c) => {
            if c == 'y' {
                Some(true)
            } else if c == 'n' {
                Some(false)
            } else {
                None
            }
        },
        KeyCode::Esc => Some(false),
        _ => None,
    }
}

/// The title of the text prompt for `action`.
pub fn prompt_title(action: WidgetAction) -> (title: &'static str)
    ensures
        title@ == match action {
            WidgetAction::AddWorkspace => "Add Workspace"@,
            WidgetAction::AddWorkspaceChild => "Add Subworkspace"@,
            WidgetAction::AddTask => "Add Task"@,
            WidgetAction::AddTaskChild => "Add Subtask"@,
            WidgetAction::Rename(_) => "Rename"@,
            WidgetAction::Due => "Set Due Date"@,
            WidgetAction::Filter => "find"@,
            _ => ""@,
        },
{
    match action {
        WidgetAction::AddWorkspace => "Add Workspace",
        WidgetAction::AddWorkspaceChild => "Add Subworkspace",
        WidgetAction::AddTask => "Add Task",
        WidgetAction::AddTaskChild => "Add Subtask",
        WidgetAction::Rename(_) => "Rename",
        WidgetAction::Due => "Set Due Date",
        WidgetAction::Filter => "find",
        _ => "",
    }
}

/// The three parts of a question: what it is about, what is the matter
/// with it, and what is asked.
pub fn question_parts(kind: ConfirmKind) -> (parts: (&'static str, &'static str, &'static str))
    ensures
        parts.0@ == match kind {
            ConfirmKind::NotEmpty(CurrentFocus::Workspace) => "The Current Workspace is "@,
            ConfirmKind::NotEmpty(CurrentFocus::TodoList) => "The Todo List is "@,
            ConfirmKind::NotEmpty(CurrentFocus::ArchivedWorkspace) => "The Archived Workspace is "@,
            _ => "Do you want to "@,
        },
        parts.1@ == match kind {
            ConfirmKind::Delete => "Delete"@,
            ConfirmKind::Archive => "Archive"@,
            ConfirmKind::Rename => "Rename"@,
            ConfirmKind::NotEmpty(CurrentFocus::ArchivedWorkspace) => "has been archived ! "@,
            ConfirmKind::NotEmpty(_) => "not empty ! "@,
        },
        parts.2@ == match kind {
            ConfirmKind::Delete => " this item ?"@,
            ConfirmKind::Archive => " this item ?"@,
            ConfirmKind::Rename => " this item ?"@,
            ConfirmKind::NotEmpty(_) => "still go on ?"@,
        },
{
    match kind {
        ConfirmKind::Delete => ("Do you want to ", "Delete", " this item ?"),
        ConfirmKind::Archive => ("Do you want to ", "Archive", " this item ?"),
        ConfirmKind::Rename => ("Do you want to ", "Rename", " this item ?"),
        ConfirmKind::NotEmpty(CurrentFocus::Workspace) => (
            "The Current Workspace is ",
            "not empty ! ",
            "still go on ?",
        ),
        ConfirmKind::NotEmpty(CurrentFocus::TodoList) => (
            "The Todo List is ",
            "not empty ! ",
            "still go on ?",
        ),
        ConfirmKind::NotEmpty(CurrentFocus::ArchivedWorkspace) => (
            "The Archived Workspace is ",
            "has been archived ! ",
            "still go on ?",
        ),
    }
}

/// The share of a side, in percent, that is left free before and after a
/// part that takes `percent` of it and sits in the middle.
pub fn centered_margin(percent: u16) -> (margin: u16)
    requires
        percent <= 100,
    ensures
        margin == (100 - percent) / 2,
{
    (100 - percent) / 2
}

} // verus!

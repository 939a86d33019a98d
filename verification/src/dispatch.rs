//! The two decisions that sit between the keyboard and the forests: what an
//! input event means in the current mode, and what a command does to the
//! shared state and asks of the user interface.

use crate::appstate::{AppState, CurrentFocus, CurrentMode, Message};
use crate::ui::todolistwidget::TaskStatus;
use crate::ui::{SearchEvent, UiMessage, WidgetAction};
use vstd::prelude::*;

verus! {

/// The application: the state that its actors share.
#[derive(Debug)]
pub struct App {
    pub appstate: AppState,
}

impl App {
    /// An application in its starting state.
    pub fn new() -> (app: Self)
        ensures
            app.appstate == (AppState {
                current_focus: CurrentFocus::Workspace,
                current_mode: CurrentMode::Normal,
                exit: false,
            }),
    {
        App { appstate: AppState::new() }
    }
}

impl Default for App {
    fn default() -> (app: Self)
        ensures
            app.appstate == (AppState {
                current_focus: CurrentFocus::Workspace,
                current_mode: CurrentMode::Normal,
                exit: false,
            }),
    {
        App::new()
    }
}

/// The key of a key press.
#[derive(Debug, Clone, Copy, PartialEq, Eq, Structural)]
pub enum KeyCode {
    Char(char),
    Backspace,
    Enter,
    Left,
    Right,
    Up,
    Down,
    Tab,
    Esc,
    /// Any other key.
    Other,
}

/// A key press.
#[derive(Debug, Clone, Copy, PartialEq, Eq, Structural)]
pub struct KeyEvent {
    pub code: KeyCode,
    /// Whether Control was held.
    pub ctrl: bool,
}

/// What the terminal reports.
#[derive(Debug, Clone, Copy, PartialEq, Eq, Structural)]
pub enum InputEvent {
    /// A key went down.
    Press(KeyEvent),
    /// The terminal changed size.
    Resize,
    /// Anything else: a key release, the mouse, a paste.
    Other,
}

/// Where an input event goes.
#[derive(Debug, Clone, Copy, PartialEq, Eq, Structural)]
pub enum KeyRoute {
    /// To the dispatcher, as a command.
    Command(Message),
    /// To the prompt that is open, unread.
    Raw(KeyEvent),
    /// Nowhere.
    Ignored,
}

/// The pane that follows `focus` when the focus cycles forward.
pub open spec fn next_focus(focus: CurrentFocus) -> CurrentFocus {
    match focus {
        CurrentFocus::Workspace => CurrentFocus::TodoList,
        CurrentFocus::TodoList => CurrentFocus::ArchivedWorkspace,
        CurrentFocus::ArchivedWorkspace => CurrentFocus::Workspace,
    }
}

/// The command that only makes sense in the task list.
pub open spec fn in_todolist(focus: CurrentFocus, msg: Message) -> Option<Message> {
    if focus == CurrentFocus::TodoList {
        Some(msg)
    } else {
        None
    }
}

/// What a character means in normal mode.
pub open spec fn normal_char(focus: CurrentFocus, c: char) -> Option<Message> {
    if c == 'q' {
        Some(Message::Exit)
    } else if c == 'a' {
        if focus == CurrentFocus::ArchivedWorkspace {
            None
        } else {
            Some(Message::AddItem)
        }
    } else if c == 'i' {
        if focus == CurrentFocus::ArchivedWorkspace {
            None
        } else {
            Some(Message::AddChild)
        }
    } else if c == 'j' {
        Some(Message::MoveDown)
    } else if c == 'k' {
        Some(Message::MoveUp)
    } else if c == 'l' {
        if focus == CurrentFocus::TodoList {
            None
        } else {
            Some(Message::SelectWorkspace)
        }
    } else if c == 'h' {
        in_todolist(focus, Message::ChangeFocus(CurrentFocus::Workspace))
    } else if c == 'c' {
        in_todolist(focus, Message::Complete)
    } else if c == 't' {
        in_todolist(focus, Message::Todo)
    } else if c == 'p' {
        in_todolist(focus, Message::InProcess)
    } else if c == 'd' {
        in_todolist(focus, Message::Deprecated)
    } else if c == 'D' {
        in_todolist(focus, Message::Due)
    } else if c == 's' {
        in_todolist(focus, Message::Sort)
    } else if c == 'f' || c == '/' {
        in_todolist(focus, Message::Filter)
    } else if c == '+' || c == '=' {
        in_todolist(focus, Message::IncreseUrgency)
    } else if c == '-' || c == '_' {
        in_todolist(focus, Message::DecreseUrgency)
    } else if c == 'A' {
        if focus == CurrentFocus::Workspace {
            Some(Message::Archive)
        } else {
            None
        }
    } else if c == 'R' {
        if focus == CurrentFocus::ArchivedWorkspace {
            Some(Message::Recovery)
        } else {
            None
        }
    } else if c == 'x' {
        Some(Message::DeleteItem)
    } else if c == 'r' {
        Some(Message::Rename)
    } else if c == '?' {
        Some(Message::Help)
    } else if c == '1' {
        Some(Message::ChangeFocus(CurrentFocus::Workspace))
    } else if c == '2' {
        Some(Message::ChangeFocus(CurrentFocus::ArchivedWorkspace))
    } else if c == '3' {
        Some(Message::ChangeFocus(CurrentFocus::TodoList))
    } else {
        None
    }
}

/// What a key press means in normal mode.
pub open spec fn normal_command(focus: CurrentFocus, key: KeyEvent) -> Option<Message> {
    match key.code {
        KeyCode::Char(c) => if key.ctrl {
            if c == 's' {
                Some(Message::SaveData)
            } else {
                None
            }
        } else {
            normal_char(focus, c)
        },
        KeyCode::Down => Some(Message::MoveDown),
        KeyCode::Up => Some(Message::MoveUp),
        KeyCode::Left => in_todolist(focus, Message::ChangeFocus(CurrentFocus::Workspace)),
        KeyCode::Right | KeyCode::Enter => if focus == CurrentFocus::TodoList {
            None
        } else {
            Some(Message::SelectWorkspace)
        },
        KeyCode::Tab => Some(Message::ChangeFocus(next_focus(focus))),
        _ => None,
    }
}

/// What a key press means while the filtered task list is shown: stepping
/// through the results, leaving the search, or setting a due date.
pub open spec fn search_command(key: KeyEvent) -> Option<Message> {
    match key.code {
        KeyCode::Char(c) => if key.ctrl {
            None
        } else if c == 'j' {
            Some(Message::SearchMsg(SearchEvent::Next))
        } else if c == 'k' {
            Some(Message::SearchMsg(SearchEvent::Previous))
        } else if c == 'D' {
            Some(Message::Due)
        } else {
            None
        },
        KeyCode::Down => Some(Message::SearchMsg(SearchEvent::Next)),
        KeyCode::Up => Some(Message::SearchMsg(SearchEvent::Previous)),
        KeyCode::Esc => Some(Message::SearchMsg(SearchEvent::Exit)),
        _ => None,
    }
}

/// What a key press means while the help page is open: scrolling, or
/// closing the page.
pub open spec fn help_command(key: KeyEvent) -> Option<Message> {
    match key.code {
        KeyCode::Char(c) => if key.ctrl {
            None
        } else if c == 'j' {
            Some(Message::MoveDown)
        } else if c == 'k' {
            Some(Message::MoveUp)
        } else if c == 'q' || c == '?' {
            Some(Message::ExitHelp)
        } else {
            None
        },
        KeyCode::Down => Some(Message::MoveDown),
        KeyCode::Up => Some(Message::MoveUp),
        KeyCode::Esc => Some(Message::ExitHelp),
        _ => None,
    }
}

/// What a key press means while a sort order is being chosen: only leaving.
pub open spec fn sort_command(key: KeyEvent) -> Option<Message> {
    match key.code {
        KeyCode::Esc => Some(Message::ChangeMode(CurrentMode::Normal)),
        _ => None,
    }
}

/// Where an input event goes, given the focus and the mode.
///
/// A resize asks for a redraw in every mode. In insert mode every key press
/// goes to the open prompt unread; in every other mode a key press becomes a
/// command or is ignored, and never reaches a prompt.
pub open spec fn route_of(state: AppState, evt: InputEvent) -> KeyRoute {
    match evt {
        InputEvent::Resize => KeyRoute::Command(Message::Update),
        InputEvent::Other => KeyRoute::Ignored,
        InputEvent::Press(key) => if state.current_mode == CurrentMode::Insert {
            KeyRoute::Raw(key)
        } else {
            let command = match state.current_mode {
                CurrentMode::Normal => normal_command(state.current_focus, key),
                CurrentMode::Search => search_command(key),
                CurrentMode::Help => help_command(key),
                _ => sort_command(key),
            };
            match command {
                Some(msg) => KeyRoute::Command(msg),
                None => KeyRoute::Ignored,
            }
        },
    }
}

/// The command, if the task list has the focus.
fn only_in_todolist(focus: CurrentFocus, msg: Message) -> (out: Option<Message>)
    ensures
        out == in_todolist(focus, msg),
{
    match focus {
        CurrentFocus::TodoList => Some(msg),
        _ => None,
    }
}

/// What a character means in normal mode.
fn normal_char_command(focus: CurrentFocus, c: char) -> (out: Option<Message>)
    ensures
        out == normal_char(focus, c),
{
    let archived = match focus {
        CurrentFocus::ArchivedWorkspace => true,
        _ => false,
    };
    let active = match focus {
        CurrentFocus::Workspace => true,
        _ => false,
    };
    let tasks = match focus {
        CurrentFocus::TodoList => true,
        _ => false,
    };
    if c == 'q' {
        Some(Message::Exit)
    } else if c == 'a' {
        if archived {
            None
        } else {
            Some(Message::AddItem)
        }
    } else if c == 'i' {
        if archived {
            None
        } else {
            Some(Message::AddChild)
        }
    } else if c == 'j' {
        Some(Message::MoveDown)
    } else if c == 'k' {
        Some(Message::MoveUp)
    } else if c == 'l' {
        if tasks {
            None
        } else {
            Some(Message::SelectWorkspace)
        }
    } else if c == 'h' {
        only_in_todolist(focus, Message::ChangeFocus(CurrentFocus::Workspace))
    } else if c == 'c' {
        only_in_todolist(focus, Message::Complete)
    } else if c == 't' {
        only_in_todolist(focus, Message::Todo)
    } else if c == 'p' {
        only_in_todolist(focus, Message::InProcess)
    } else if c == 'd' {
        only_in_todolist(focus, Message::Deprecated)
    } else if c == 'D' {
        only_in_todolist(focus, Message::Due)
    } else if c == 's' {
        only_in_todolist(focus, Message::Sort)
    } else if c == 'f' || c == '/' {
        only_in_todolist(focus, Message::Filter)
    } else if c == '+' || c == '=' {
        only_in_todolist(focus, Message::IncreseUrgency)
    } else if c == '-' || c == '_' {
        only_in_todolist(focus, Message::DecreseUrgency)
    } else if c == 'A' {
        if active {
            Some(Message::Archive)
        } else {
            None
        }
    } else if c == 'R' {
        if archived {
            Some(Message::Recovery)
        } else {
            None
        }
    } else if c == 'x' {
        Some(Message::DeleteItem)
    } else if c == 'r' {
        Some(Message::Rename)
    } else if c == '?' {
        Some(Message::Help)
    } else if c == '1' {
        Some(Message::ChangeFocus(CurrentFocus::Workspace))
    } else if c == '2' {
        Some(Message::ChangeFocus(CurrentFocus::ArchivedWorkspace))
    } else if c == '3' {
        Some(Message::ChangeFocus(CurrentFocus::TodoList))
    } else {
        None
    }
}

/// The pane that follows `focus` when the focus cycles forward.
pub fn cycle_focus(focus: CurrentFocus) -> (next: CurrentFocus)
    ensures
        next == next_focus(focus),
        next != focus,
        next_focus(next_focus(next)) == focus,
{
    match focus {
        CurrentFocus::Workspace => CurrentFocus::TodoList,
        CurrentFocus::TodoList => CurrentFocus::ArchivedWorkspace,
        CurrentFocus::ArchivedWorkspace => CurrentFocus::Workspace,
    }
}

/// What a key press means in normal mode.
fn normal_key(focus: CurrentFocus, key: KeyEvent) -> (out: Option<Message>)
    ensures
        out == normal_command(focus, key),
{
    match key.code {
        KeyCode::Char(c) => {
            if key.ctrl {
                if c == 's' {
                    Some(Message::SaveData)
                } else {
                    None
                }
            } else {
                normal_char_command(focus, c)
            }
        },
        KeyCode::Down => Some(Message::MoveDown),
        KeyCode::Up => Some(Message::MoveUp),
        KeyCode::Left => only_in_todolist(focus, Message::ChangeFocus(CurrentFocus::Workspace)),
        KeyCode::Right | KeyCode::Enter => match focus {
            CurrentFocus::TodoList => None,
            _ => Some(Message::SelectWorkspace),
        },
        KeyCode::Tab => Some(Message::ChangeFocus(cycle_focus(focus))),
        _ => None,
    }
}

/// What a key press means while the filtered task list is shown.
fn search_key(key: KeyEvent) -> (out: Option<Message>)
    ensures
        out == search_command(key),
{
    match key.code {
        KeyCode::Char(c) => {
            if key.ctrl {
                None
            } else if c == 'j' {
                Some(Message::SearchMsg(SearchEvent::Next))
            } else if c == 'k' {
                Some(Message::SearchMsg(SearchEvent::Previous))
            } else if c == 'D' {
                Some(Message::Due)
            } else {
                None
            }
        },
        KeyCode::Down => Some(Message::SearchMsg(SearchEvent::Next)),
        KeyCode::Up => Some(Message::SearchMsg(SearchEvent::Previous)),
        KeyCode::Esc => Some(Message::SearchMsg(SearchEvent::Exit)),
        _ => None,
    }
}

/// What a key press means while the help page is open.
fn help_key(key: KeyEvent) -> (out: Option<Message>)
    ensures
        out == help_command(key),
{
    match key.code {
        KeyCode::Char(c) => {
            if key.ctrl {
                None
            } else if c == 'j' {
                Some(Message::MoveDown)
            } else if c == 'k' {
                Some(Message::MoveUp)
            } else if c == 'q' || c == '?' {
                Some(Message::ExitHelp)
            } else {
                None
            }
        },
        KeyCode::Down => Some(Message::MoveDown),
        KeyCode::Up => Some(Message::MoveUp),
        KeyCode::Esc => Some(Message::ExitHelp),
        _ => None,
    }
}

/// Decides where an input event goes.
pub fn handle_keyevt(state: &AppState, evt: InputEvent) -> (route: KeyRoute)
    ensures
        route == route_of(*state, evt),
        evt is Resize ==> route == KeyRoute::Command(Message::Update),
        route is Raw <==> evt is Press && state.current_mode == CurrentMode::Insert,
        state.current_mode == CurrentMode::Help && route is Command && !(evt is Resize) ==> route
            == KeyRoute::Command(Message::MoveUp) || route == KeyRoute::Command(Message::MoveDown)
            || route == KeyRoute::Command(Message::ExitHelp),
{
    match evt {
        InputEvent::Resize => KeyRoute::Command(Message::Update),
        InputEvent::Other => KeyRoute::Ignored,
        InputEvent::Press(key) => {
            let command = match state.current_mode {
                CurrentMode::Insert => {
                    return KeyRoute::Raw(key);
                },
                CurrentMode::Normal => normal_key(state.current_focus, key),
                CurrentMode::Search => search_key(key),
                CurrentMode::Help => help_key(key),
                CurrentMode::Sort => match key.code {
                    KeyCode::Esc => Some(Message::ChangeMode(CurrentMode::Normal)),
                    _ => None,
                },
            };
            match command {
                Some(msg) => KeyRoute::Command(msg),
                None => KeyRoute::Ignored,
            }
        },
    }
}

/// Whether the input reader stops after this route: it does once it has
/// handed on the command to exit.
pub fn ends_input(route: KeyRoute) -> (stop: bool)
    ensures
        stop == (route == KeyRoute::Command(Message::Exit)),
{
    match route {
        KeyRoute::Command(Message::Exit) => true,
        _ => false,
    }
}

/// Whether the dispatcher acts on `msg` in mode `mode`.
///
/// Leaving, redrawing and switching mode are always acted on. While a prompt
/// is open or a sort order is being chosen nothing else is; while the help
/// page is open only scrolling and closing it are; while the filtered list
/// is shown only stepping through it, leaving it, setting a due date and
/// saving are. In normal mode every command is acted on.
pub open spec fn accepts(mode: CurrentMode, msg: Message) -> bool {
    if msg is Exit || msg is Update || msg is ChangeMode {
        true
    } else {
        match mode {
            CurrentMode::Normal => true,
            CurrentMode::Insert | CurrentMode::Sort => false,
            CurrentMode::Help => msg is MoveUp || msg is MoveDown || msg is ExitHelp,
            CurrentMode::Search => msg is SearchMsg || msg is MoveUp || msg is MoveDown
                || msg is Due || msg is SaveData,
        }
    }
}

/// The widget action that shows `focus` as focused.
pub open spec fn focus_action(focus: CurrentFocus) -> WidgetAction {
    match focus {
        CurrentFocus::Workspace => WidgetAction::FocusWorkspace,
        CurrentFocus::TodoList => WidgetAction::FocusTodolist,
        CurrentFocus::ArchivedWorkspace => WidgetAction::FocusArchivedWorkspace,
    }
}

/// The message that asks for `action`, after the mode has become `mode`.
pub open spec fn act(state: AppState, mode: CurrentMode, action: WidgetAction) -> (
    AppState,
    Option<UiMessage>,
) {
    (AppState { current_mode: mode, ..state }, Some(UiMessage::WAction(action)))
}

/// What a command that is acted on does: the state afterwards, and the
/// message for the user interface, if any.
pub open spec fn dispatch_accepted(state: AppState, msg: Message) -> (AppState, Option<UiMessage>) {
    let focus = state.current_focus;
    let mode = state.current_mode;
    let nothing = (state, None::<UiMessage>);
    match msg {
        Message::Exit => (AppState { exit: true, ..state }, None),
        Message::Update => (state, Some(UiMessage::UpdateUi)),
        Message::ChangeMode(m) => (AppState { current_mode: m, ..state }, None),
        Message::ChangeFocus(f) => (
            AppState { current_focus: f, ..state },
            Some(UiMessage::WAction(focus_action(f))),
        ),
        Message::SelectWorkspace => match focus {
            CurrentFocus::Workspace => (
                AppState { current_focus: CurrentFocus::TodoList, ..state },
                Some(UiMessage::WAction(WidgetAction::EnterWorkspace)),
            ),
            CurrentFocus::ArchivedWorkspace => (
                AppState { current_focus: CurrentFocus::TodoList, ..state },
                Some(UiMessage::WAction(WidgetAction::EnterArchivedWorkspace)),
            ),
            CurrentFocus::TodoList => nothing,
        },
        Message::AddItem => match focus {
            CurrentFocus::Workspace => act(state, CurrentMode::Insert, WidgetAction::AddWorkspace),
            CurrentFocus::TodoList => act(state, CurrentMode::Insert, WidgetAction::AddTask),
            CurrentFocus::ArchivedWorkspace => nothing,
        },
        Message::AddChild => match focus {
            CurrentFocus::Workspace => act(
                state,
                CurrentMode::Insert,
                WidgetAction::AddWorkspaceChild,
            ),
            CurrentFocus::TodoList => act(state, CurrentMode::Insert, WidgetAction::AddTaskChild),
            CurrentFocus::ArchivedWorkspace => nothing,
        },
        Message::DeleteItem => match focus {
            CurrentFocus::Workspace => act(
                state,
                CurrentMode::Insert,
                WidgetAction::DeleteWorkspace,
            ),
            CurrentFocus::TodoList => act(state, CurrentMode::Insert, WidgetAction::DeleteTask),
            CurrentFocus::ArchivedWorkspace => act(
                state,
                CurrentMode::Insert,
                WidgetAction::DeleteArchivedWorkspace,
            ),
        },
        Message::MoveUp => act(state, mode, WidgetAction::SelectUp),
        Message::MoveDown => act(state, mode, WidgetAction::SelectDown),
        Message::Archive => match focus {
            CurrentFocus::Workspace => act(state, CurrentMode::Insert, WidgetAction::ArchiveWS),
            _ => nothing,
        },
        Message::Recovery => match focus {
            CurrentFocus::ArchivedWorkspace => act(state, mode, WidgetAction::RecoveryWS),
            _ => nothing,
        },
        Message::Complete => match focus {
            CurrentFocus::TodoList => act(
                state,
                mode,
                WidgetAction::MarkTaskStatus(TaskStatus::Finished),
            ),
            _ => nothing,
        },
        Message::InProcess => match focus {
            CurrentFocus::TodoList => act(
                state,
                mode,
                WidgetAction::MarkTaskStatus(TaskStatus::InProcess),
            ),
            _ => nothing,
        },
        Message::Todo => match focus {
            CurrentFocus::TodoList => act(
                state,
                mode,
                WidgetAction::MarkTaskStatus(TaskStatus::Todo),
            ),
            _ => nothing,
        },
        Message::Deprecated => match focus {
            CurrentFocus::TodoList => act(
                state,
                mode,
                WidgetAction::MarkTaskStatus(TaskStatus::Deprecated),
            ),
            _ => nothing,
        },
        Message::Rename => act(state, CurrentMode::Insert, WidgetAction::Rename(focus)),
        Message::Filter => match focus {
            CurrentFocus::TodoList => act(state, CurrentMode::Insert, WidgetAction::Filter),
            _ => nothing,
        },
        Message::SearchMsg(event) => match event {
            SearchEvent::Next => act(state, mode, WidgetAction::SelectDown),
            SearchEvent::Previous => act(state, mode, WidgetAction::SelectUp),
            SearchEvent::Exit => act(state, CurrentMode::Normal, WidgetAction::ExitFilter),
        },
        Message::Help => act(state, CurrentMode::Help, WidgetAction::Help),
        Message::ExitHelp => act(state, CurrentMode::Normal, WidgetAction::ExitHelp),
        Message::Due => match focus {
            CurrentFocus::TodoList => act(state, mode, WidgetAction::Due),
            _ => nothing,
        },
        Message::SaveData => (state, Some(UiMessage::SaveData)),
        Message::IncreseUrgency | Message::DecreseUrgency | Message::Sort => nothing,
    }
}

/// What a command does: nothing at all when the mode does not accept it.
pub open spec fn dispatch_of(state: AppState, msg: Message) -> (AppState, Option<UiMessage>) {
    if accepts(state.current_mode, msg) {
        dispatch_accepted(state, msg)
    } else {
        (state, None)
    }
}

/// Whether the dispatcher acts on `msg` in mode `mode`.
pub fn is_accepted(mode: CurrentMode, msg: Message) -> (yes: bool)
    ensures
        yes == accepts(mode, msg),
{
    match msg {
        Message::Exit | Message::Update | Message::ChangeMode(_) => true,
        _ => match mode {
            CurrentMode::Normal => true,
            CurrentMode::Insert | CurrentMode::Sort => false,
            CurrentMode::Help => match msg {
                Message::MoveUp | Message::MoveDown | Message::ExitHelp => true,
                _ => false,
            },
            CurrentMode::Search => match msg {
                Message::SearchMsg(_) | Message::MoveUp | Message::MoveDown | Message::Due
                | Message::SaveData => true,
                _ => false,
            },
        },
    }
}

/// Switches to `mode` and asks the user interface for `action`.
fn ask(state: &mut AppState, mode: CurrentMode, action: WidgetAction) -> (out: Option<UiMessage>)
    ensures
        (*final(state), out) == act(*old(state), mode, action),
{
    state.current_mode = mode;
    Some(UiMessage::WAction(action))
}

/// Handles one command: updates the shared state and returns the message
/// for the user interface, if the command calls for one. The command to
/// exit sets `exit`, after which the dispatcher stops.
pub fn handle_msg(state: &mut AppState, msg: Message) -> (out: Option<UiMessage>)
    ensures
        (*final(state), out) == dispatch_of(*old(state), msg),
        msg is Exit ==> final(state).exit,
        !(msg is Exit) ==> final(state).exit == old(state).exit,
{
    if !is_accepted(state.current_mode, msg) {
        return None;
    }
    let focus = state.current_focus;
    let mode = state.current_mode;
    match msg {
        Message::Exit => {
            state.exit = true;
            None
        },
        Message::Update => Some(UiMessage::UpdateUi),
        Message::ChangeMode(m) => {
            state.current_mode = m;
            None
        },
        Message::ChangeFocus(f) => {
            state.current_focus = f;
            Some(
                UiMessage::WAction(
                    match f {
                        CurrentFocus::Workspace => WidgetAction::FocusWorkspace,
                        CurrentFocus::TodoList => WidgetAction::FocusTodolist,
                        CurrentFocus::ArchivedWorkspace => WidgetAction::FocusArchivedWorkspace,
                    },
                ),
            )
        },
        Message::SelectWorkspace => match focus {
            CurrentFocus::Workspace => {
                state.current_focus = CurrentFocus::TodoList;
                Some(UiMessage::WAction(WidgetAction::EnterWorkspace))
            },
            CurrentFocus::ArchivedWorkspace => {
                state.current_focus = CurrentFocus::TodoList;
                Some(UiMessage::WAction(WidgetAction::EnterArchivedWorkspace))
            },
            CurrentFocus::TodoList => None,
        },
        Message::AddItem => match focus {
            CurrentFocus::Workspace => ask(state, CurrentMode::Insert, WidgetAction::AddWorkspace),
            CurrentFocus::TodoList => ask(state, CurrentMode::Insert, WidgetAction::AddTask),
            CurrentFocus::ArchivedWorkspace => None,
        },
        Message::AddChild => match focus {
            CurrentFocus::Workspace => ask(
                state,
                CurrentMode::Insert,
                WidgetAction::AddWorkspaceChild,
            ),
            CurrentFocus::TodoList => ask(state, CurrentMode::Insert, WidgetAction::AddTaskChild),
            CurrentFocus::ArchivedWorkspace => None,
        },
        Message::DeleteItem => match focus {
            CurrentFocus::Workspace => ask(
                state,
                CurrentMode::Insert,
                WidgetAction::DeleteWorkspace,
            ),
            CurrentFocus::TodoList => ask(state, CurrentMode::Insert, WidgetAction::DeleteTask),
            CurrentFocus::ArchivedWorkspace => ask(
                state,
                CurrentMode::Insert,
                WidgetAction::DeleteArchivedWorkspace,
            ),
        },
        Message::MoveUp => ask(state, mode, WidgetAction::SelectUp),
        Message::MoveDown => ask(state, mode, WidgetAction::SelectDown),
        Message::Archive => match focus {
            CurrentFocus::Workspace => ask(state, CurrentMode::Insert, WidgetAction::ArchiveWS),
            _ => None,
        },
        Message::Recovery => match focus {
            CurrentFocus::ArchivedWorkspace => ask(state, mode, WidgetAction::RecoveryWS),
            _ => None,
        },
        Message::Complete => match focus {
            CurrentFocus::TodoList => ask(
                state,
                mode,
                WidgetAction::MarkTaskStatus(TaskStatus::Finished),
            ),
            _ => None,
        },
        Message::InProcess => match focus {
            CurrentFocus::TodoList => ask(
                state,
                mode,
                WidgetAction::MarkTaskStatus(TaskStatus::InProcess),
            ),
            _ => None,
        },
        Message::Todo => match focus {
            CurrentFocus::TodoList => ask(
                state,
                mode,
                WidgetAction::MarkTaskStatus(TaskStatus::Todo),
            ),
            _ => None,
        },
        Message::Deprecated => match focus {
            CurrentFocus::TodoList => ask(
                state,
                mode,
                WidgetAction::MarkTaskStatus(TaskStatus::Deprecated),
            ),
            _ => None,
        },
        Message::Rename => ask(state, CurrentMode::Insert, WidgetAction::Rename(focus)),
        Message::Filter => match focus {
            CurrentFocus::TodoList => ask(state, CurrentMode::Insert, WidgetAction::Filter),
            _ => None,
        },
        Message::SearchMsg(event) => match event {
            SearchEvent::Next => ask(state, mode, WidgetAction::SelectDown),
            SearchEvent::Previous => ask(state, mode, WidgetAction::SelectUp),
            SearchEvent::Exit => ask(state, CurrentMode::Normal, WidgetAction::ExitFilter),
        },
        Message::Help => ask(state, CurrentMode::Help, WidgetAction::Help),
        Message::ExitHelp => ask(state, CurrentMode::Normal, WidgetAction::ExitHelp),
        Message::Due => match focus {
            CurrentFocus::TodoList => ask(state, mode, WidgetAction::Due),
            _ => None,
        },
        Message::SaveData => Some(UiMessage::SaveData),
        Message::IncreseUrgency | Message::DecreseUrgency | Message::Sort => None,
    }
}

/// The outcome of handling the commands `queue[k..]` in order, stopping
/// after the first command to exit: the state afterwards, the messages for
/// the user interface in the order they arose, and the number of commands
/// of `queue` that have been taken, the first `k` included.
pub open spec fn drained(state: AppState, queue: Seq<Message>, k: int) -> (
    AppState,
    Seq<UiMessage>,
    int,
)
    decreases queue.len() - k,
{
    if k < 0 || k >= queue.len() || state.exit {
        (state, Seq::empty(), k)
    } else {
        let step = dispatch_of(state, queue[k]);
        let rest = drained(step.0, queue, k + 1);
        (
            rest.0,
            match step.1 {
                Some(m) => seq![m] + rest.1,
                None => rest.1,
            },
            rest.2,
        )
    }
}

/// Handles the queued commands in the order they were queued, and stops
/// after the first command to exit. Returns the messages for the user
/// interface, in order, and how many commands were taken.
pub fn drain_commands(state: &mut AppState, queue: &Vec<Message>) -> (out: (Vec<UiMessage>, usize))
    ensures
        (*final(state), out.0@, out.1 as int) == drained(*old(state), queue@, 0),
        out.1 <= queue@.len(),
{
    let mut sent: Vec<UiMessage> = Vec::new();
    let mut k: usize = 0;
    while k < queue.len() && !state.exit
        invariant
            k <= queue.len(),
            ({
                let rest = drained(*state, queue@, k as int);
                drained(*old(state), queue@, 0) == (rest.0, sent@ + rest.1, rest.2)
            }),
        decreases queue.len() - k,
    {
        let ghost before = *state;
        let ghost so_far = sent@;
        match handle_msg(state, queue[k]) {
            Some(m) => {
                sent.push(m);
            },
            None => {},
        }
        k += 1;
        proof {
            let rest = drained(*state, queue@, k as int);
            let here = drained(before, queue@, k - 1);
            match dispatch_of(before, queue@[k - 1]).1 {
                Some(m) => {
                    assert(so_far + (seq![m] + rest.1) =~= sent@ + rest.1);
                },
                None => {},
            }
        }
    }
    proof {
        assert(sent@ + Seq::<UiMessage>::empty() =~= sent@);
    }
    (sent, k)
}

/// However many commands are queued, the dispatcher takes none after the
/// first command to exit, and has `exit` set once it has taken that one.
pub proof fn lemma_exit_stops_dispatcher(state: AppState, queue: Seq<Message>, k: int, e: int)
    requires
        0 <= k <= e < queue.len(),
        !state.exit,
        queue[e] is Exit,
        forall|i: int| k <= i < e ==> !(queue[i] is Exit),
    ensures
        drained(state, queue, k).0.exit,
        drained(state, queue, k).2 == e + 1,
    decreases e - k,
{
    let step = dispatch_of(state, queue[k]);
    lemma_exit_only_by_exit(state, queue[k]);
    if k < e {
        lemma_exit_stops_dispatcher(step.0, queue, k + 1, e);
    } else {
        assert(drained(step.0, queue, k + 1) == (step.0, Seq::<UiMessage>::empty(), k + 1));
    }
}

/// Commands are handled strictly in the order they were queued: handling
/// one queue and then another is handling the two joined, and a command to
/// exit in the first leaves the second untouched.
pub proof fn lemma_drained_in_order(state: AppState, a: Seq<Message>, b: Seq<Message>, k: int)
    requires
        0 <= k <= a.len(),
    ensures
        ({
            let first = drained(state, a, k);
            let second = drained(first.0, b, 0);
            drained(state, a + b, k) == (
                second.0,
                first.1 + second.1,
                if first.0.exit {
                    first.2
                } else {
                    a.len() + second.2
                },
            )
        }),
    decreases a.len() - k,
{
    let first = drained(state, a, k);
    let second = drained(first.0, b, 0);
    let both = drained(state, a + b, k);
    if state.exit {
        assert(first.1 + second.1 =~= Seq::<UiMessage>::empty());
    } else if k < a.len() {
        assert((a + b)[k] == a[k]);
        let step = dispatch_of(state, a[k]);
        lemma_drained_in_order(step.0, a, b, k + 1);
        let rest = drained(step.0, a, k + 1);
        match step.1 {
            Some(m) => {
                assert(seq![m] + (rest.1 + second.1) =~= (seq![m] + rest.1) + second.1);
            },
            None => {},
        }
    } else {
        lemma_drained_shift(state, a, b, 0);
        assert(first.1 + second.1 =~= second.1);
    }
}

/// Handling the second of two joined queues does not look at the first.
proof fn lemma_drained_shift(state: AppState, a: Seq<Message>, b: Seq<Message>, j: int)
    requires
        0 <= j <= b.len(),
    ensures
        drained(state, a + b, a.len() + j) == (
            drained(state, b, j).0,
            drained(state, b, j).1,
            a.len() + drained(state, b, j).2,
        ),
    decreases b.len() - j,
{
    if !state.exit && j < b.len() {
        assert((a + b)[a.len() + j] == b[j]);
        lemma_drained_shift(dispatch_of(state, b[j]).0, a, b, j + 1);
    }
}

/// Only the command to exit sets `exit`, and it always does; no command
/// clears it.
pub proof fn lemma_exit_only_by_exit(state: AppState, msg: Message)
    ensures
        dispatch_of(state, msg).0.exit == (state.exit || msg is Exit),
{
}

} // verus!

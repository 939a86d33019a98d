use tui_todo::appstate::{AppState, CurrentFocus, CurrentMode, Message};
use tui_todo::dispatch::{
    cycle_focus, drain_commands, ends_input, handle_keyevt, handle_msg, is_accepted, App,
    InputEvent, KeyCode, KeyEvent, KeyRoute,
};
use tui_todo::ui::todolistwidget::TaskStatus;
use tui_todo::ui::{SearchEvent, UiMessage, WidgetAction};

fn press(c: char) -> InputEvent {
    InputEvent::Press(KeyEvent { code: KeyCode::Char(c), ctrl: false })
}

fn key(code: KeyCode) -> InputEvent {
    InputEvent::Press(KeyEvent { code, ctrl: false })
}

fn state(focus: CurrentFocus, mode: CurrentMode) -> AppState {
    AppState { current_focus: focus, current_mode: mode, exit: false }
}

#[test]
fn app_starts_in_normal_mode_on_workspaces() {
    let app = App::new();
    assert_eq!(app.appstate, AppState::new());
    assert_eq!(app.appstate.current_focus, CurrentFocus::Workspace);
    assert_eq!(app.appstate.current_mode, CurrentMode::Normal);
    assert!(!app.appstate.exit);
    assert_eq!(App::default().appstate, AppState::default());
}

#[test]
fn resize_always_asks_for_update() {
    for mode in [CurrentMode::Normal, CurrentMode::Insert, CurrentMode::Search, CurrentMode::Help, CurrentMode::Sort] {
        let s = state(CurrentFocus::TodoList, mode);
        assert_eq!(handle_keyevt(&s, InputEvent::Resize), KeyRoute::Command(Message::Update));
    }
}

#[test]
fn insert_mode_forwards_every_key_raw() {
    let s = state(CurrentFocus::Workspace, CurrentMode::Insert);
    for code in [KeyCode::Char('q'), KeyCode::Enter, KeyCode::Esc, KeyCode::Backspace, KeyCode::Left, KeyCode::Other] {
        let k = KeyEvent { code, ctrl: false };
        assert_eq!(handle_keyevt(&s, InputEvent::Press(k)), KeyRoute::Raw(k));
    }
    let k = KeyEvent { code: KeyCode::Char('o'), ctrl: true };
    assert_eq!(handle_keyevt(&s, InputEvent::Press(k)), KeyRoute::Raw(k));
}

#[test]
fn other_events_are_ignored() {
    let s = state(CurrentFocus::Workspace, CurrentMode::Normal);
    assert_eq!(handle_keyevt(&s, InputEvent::Other), KeyRoute::Ignored);
    assert_eq!(handle_keyevt(&s, press('z')), KeyRoute::Ignored);
    assert_eq!(handle_keyevt(&s, key(KeyCode::Esc)), KeyRoute::Ignored);
}

#[test]
fn normal_mode_keys_on_workspace_pane() {
    let s = state(CurrentFocus::Workspace, CurrentMode::Normal);
    let cases = [
        ('q', Message::Exit),
        ('a', Message::AddItem),
        ('i', Message::AddChild),
        ('j', Message::MoveDown),
        ('k', Message::MoveUp),
        ('l', Message::SelectWorkspace),
        ('A', Message::Archive),
        ('x', Message::DeleteItem),
        ('r', Message::Rename),
        ('?', Message::Help),
        ('1', Message::ChangeFocus(CurrentFocus::Workspace)),
        ('2', Message::ChangeFocus(CurrentFocus::ArchivedWorkspace)),
        ('3', Message::ChangeFocus(CurrentFocus::TodoList)),
    ];
    for (c, m) in cases {
        assert_eq!(handle_keyevt(&s, press(c)), KeyRoute::Command(m));
    }
    for c in ['c', 't', 'p', 'd', 'D', 'h', 'R', 's', 'f', '/', '+', '-'] {
        assert_eq!(handle_keyevt(&s, press(c)), KeyRoute::Ignored);
    }
    assert_eq!(handle_keyevt(&s, key(KeyCode::Enter)), KeyRoute::Command(Message::SelectWorkspace));
    assert_eq!(handle_keyevt(&s, key(KeyCode::Right)), KeyRoute::Command(Message::SelectWorkspace));
    assert_eq!(handle_keyevt(&s, key(KeyCode::Left)), KeyRoute::Ignored);
    assert_eq!(handle_keyevt(&s, key(KeyCode::Up)), KeyRoute::Command(Message::MoveUp));
    assert_eq!(handle_keyevt(&s, key(KeyCode::Down)), KeyRoute::Command(Message::MoveDown));
}

#[test]
fn normal_mode_keys_on_task_pane() {
    let s = state(CurrentFocus::TodoList, CurrentMode::Normal);
    let cases = [
        ('c', Message::Complete),
        ('t', Message::Todo),
        ('p', Message::InProcess),
        ('d', Message::Deprecated),
        ('D', Message::Due),
        ('h', Message::ChangeFocus(CurrentFocus::Workspace)),
        ('s', Message::Sort),
        ('f', Message::Filter),
        ('/', Message::Filter),
        ('+', Message::IncreseUrgency),
        ('=', Message::IncreseUrgency),
        ('-', Message::DecreseUrgency),
        ('_', Message::DecreseUrgency),
        ('a', Message::AddItem),
        ('i', Message::AddChild),
    ];
    for (c, m) in cases {
        assert_eq!(handle_keyevt(&s, press(c)), KeyRoute::Command(m));
    }
    for c in ['l', 'A', 'R'] {
        assert_eq!(handle_keyevt(&s, press(c)), KeyRoute::Ignored);
    }
    assert_eq!(handle_keyevt(&s, key(KeyCode::Enter)), KeyRoute::Ignored);
    assert_eq!(
        handle_keyevt(&s, key(KeyCode::Left)),
        KeyRoute::Command(Message::ChangeFocus(CurrentFocus::Workspace))
    );
}

#[test]
fn normal_mode_keys_on_archive_pane() {
    let s = state(CurrentFocus::ArchivedWorkspace, CurrentMode::Normal);
    assert_eq!(handle_keyevt(&s, press('R')), KeyRoute::Command(Message::Recovery));
    assert_eq!(handle_keyevt(&s, press('x')), KeyRoute::Command(Message::DeleteItem));
    assert_eq!(handle_keyevt(&s, press('l')), KeyRoute::Command(Message::SelectWorkspace));
    for c in ['a', 'i', 'A', 'c'] {
        assert_eq!(handle_keyevt(&s, press(c)), KeyRoute::Ignored);
    }
}

#[test]
fn control_s_saves() {
    let s = state(CurrentFocus::Workspace, CurrentMode::Normal);
    let k = InputEvent::Press(KeyEvent { code: KeyCode::Char('s'), ctrl: true });
    assert_eq!(handle_keyevt(&s, k), KeyRoute::Command(Message::SaveData));
    let k = InputEvent::Press(KeyEvent { code: KeyCode::Char('q'), ctrl: true });
    assert_eq!(handle_keyevt(&s, k), KeyRoute::Ignored);
}

#[test]
fn tab_cycles_through_three_panes() {
    assert_eq!(cycle_focus(CurrentFocus::Workspace), CurrentFocus::TodoList);
    assert_eq!(cycle_focus(CurrentFocus::TodoList), CurrentFocus::ArchivedWorkspace);
    assert_eq!(cycle_focus(CurrentFocus::ArchivedWorkspace), CurrentFocus::Workspace);
    let s = state(CurrentFocus::TodoList, CurrentMode::Normal);
    assert_eq!(
        handle_keyevt(&s, key(KeyCode::Tab)),
        KeyRoute::Command(Message::ChangeFocus(CurrentFocus::ArchivedWorkspace))
    );
}

#[test]
fn help_mode_only_scrolls_and_exits() {
    let s = state(CurrentFocus::Workspace, CurrentMode::Help);
    assert_eq!(handle_keyevt(&s, press('j')), KeyRoute::Command(Message::MoveDown));
    assert_eq!(handle_keyevt(&s, press('k')), KeyRoute::Command(Message::MoveUp));
    assert_eq!(handle_keyevt(&s, key(KeyCode::Esc)), KeyRoute::Command(Message::ExitHelp));
    assert_eq!(handle_keyevt(&s, press('q')), KeyRoute::Command(Message::ExitHelp));
    assert_eq!(handle_keyevt(&s, press('?')), KeyRoute::Command(Message::ExitHelp));
    for c in ['a', 'x', 'i', 'r'] {
        assert_eq!(handle_keyevt(&s, press(c)), KeyRoute::Ignored);
    }
    assert_eq!(handle_keyevt(&s, key(KeyCode::Tab)), KeyRoute::Ignored);
}

#[test]
fn search_mode_keys() {
    let s = state(CurrentFocus::TodoList, CurrentMode::Search);
    assert_eq!(handle_keyevt(&s, press('j')), KeyRoute::Command(Message::SearchMsg(SearchEvent::Next)));
    assert_eq!(handle_keyevt(&s, key(KeyCode::Up)), KeyRoute::Command(Message::SearchMsg(SearchEvent::Previous)));
    assert_eq!(handle_keyevt(&s, key(KeyCode::Esc)), KeyRoute::Command(Message::SearchMsg(SearchEvent::Exit)));
    assert_eq!(handle_keyevt(&s, press('D')), KeyRoute::Command(Message::Due));
    assert_eq!(handle_keyevt(&s, press('q')), KeyRoute::Ignored);
}

#[test]
fn sort_mode_only_leaves() {
    let s = state(CurrentFocus::TodoList, CurrentMode::Sort);
    assert_eq!(
        handle_keyevt(&s, key(KeyCode::Esc)),
        KeyRoute::Command(Message::ChangeMode(CurrentMode::Normal))
    );
    assert_eq!(handle_keyevt(&s, press('q')), KeyRoute::Ignored);
}

#[test]
fn reader_stops_after_exit_only() {
    assert!(ends_input(KeyRoute::Command(Message::Exit)));
    assert!(!ends_input(KeyRoute::Command(Message::Update)));
    assert!(!ends_input(KeyRoute::Ignored));
    assert!(!ends_input(KeyRoute::Raw(KeyEvent { code: KeyCode::Char('q'), ctrl: false })));
}

fn step(s: AppState, m: Message) -> (AppState, Option<UiMessage>) {
    let mut s = s;
    let out = handle_msg(&mut s, m);
    (s, out)
}

#[test]
fn exit_sets_exit_in_every_mode() {
    for mode in [CurrentMode::Normal, CurrentMode::Insert, CurrentMode::Search, CurrentMode::Help, CurrentMode::Sort] {
        let (s, out) = step(state(CurrentFocus::Workspace, mode), Message::Exit);
        assert!(s.exit);
        assert_eq!(out, None);
        assert_eq!(s.current_mode, mode);
    }
}

#[test]
fn add_item_depends_on_focus() {
    let (s, out) = step(state(CurrentFocus::Workspace, CurrentMode::Normal), Message::AddItem);
    assert_eq!(s.current_mode, CurrentMode::Insert);
    assert_eq!(out, Some(UiMessage::WAction(WidgetAction::AddWorkspace)));
    let (s, out) = step(state(CurrentFocus::TodoList, CurrentMode::Normal), Message::AddItem);
    assert_eq!(s.current_mode, CurrentMode::Insert);
    assert_eq!(out, Some(UiMessage::WAction(WidgetAction::AddTask)));
    let (s, out) = step(state(CurrentFocus::ArchivedWorkspace, CurrentMode::Normal), Message::AddItem);
    assert_eq!(s.current_mode, CurrentMode::Normal);
    assert_eq!(out, None);
    let (_, out) = step(state(CurrentFocus::Workspace, CurrentMode::Normal), Message::AddChild);
    assert_eq!(out, Some(UiMessage::WAction(WidgetAction::AddWorkspaceChild)));
    let (_, out) = step(state(CurrentFocus::TodoList, CurrentMode::Normal), Message::AddChild);
    assert_eq!(out, Some(UiMessage::WAction(WidgetAction::AddTaskChild)));
}

#[test]
fn delete_item_depends_on_focus() {
    let cases = [
        (CurrentFocus::Workspace, WidgetAction::DeleteWorkspace),
        (CurrentFocus::TodoList, WidgetAction::DeleteTask),
        (CurrentFocus::ArchivedWorkspace, WidgetAction::DeleteArchivedWorkspace),
    ];
    for (focus, action) in cases {
        let (s, out) = step(state(focus, CurrentMode::Normal), Message::DeleteItem);
        assert_eq!(s.current_mode, CurrentMode::Insert);
        assert_eq!(out, Some(UiMessage::WAction(action)));
    }
}

#[test]
fn change_focus_and_mode() {
    let (s, out) = step(state(CurrentFocus::Workspace, CurrentMode::Normal), Message::ChangeFocus(CurrentFocus::ArchivedWorkspace));
    assert_eq!(s.current_focus, CurrentFocus::ArchivedWorkspace);
    assert_eq!(out, Some(UiMessage::WAction(WidgetAction::FocusArchivedWorkspace)));
    let (s, out) = step(state(CurrentFocus::Workspace, CurrentMode::Insert), Message::ChangeMode(CurrentMode::Normal));
    assert_eq!(s.current_mode, CurrentMode::Normal);
    assert_eq!(out, None);
}

#[test]
fn select_workspace_drills_down() {
    let (s, out) = step(state(CurrentFocus::Workspace, CurrentMode::Normal), Message::SelectWorkspace);
    assert_eq!(s.current_focus, CurrentFocus::TodoList);
    assert_eq!(out, Some(UiMessage::WAction(WidgetAction::EnterWorkspace)));
    let (s, out) = step(state(CurrentFocus::ArchivedWorkspace, CurrentMode::Normal), Message::SelectWorkspace);
    assert_eq!(s.current_focus, CurrentFocus::TodoList);
    assert_eq!(out, Some(UiMessage::WAction(WidgetAction::EnterArchivedWorkspace)));
    let (s, out) = step(state(CurrentFocus::TodoList, CurrentMode::Normal), Message::SelectWorkspace);
    assert_eq!(s.current_focus, CurrentFocus::TodoList);
    assert_eq!(out, None);
}

#[test]
fn status_marks_only_in_task_pane() {
    let cases = [
        (Message::Complete, TaskStatus::Finished),
        (Message::InProcess, TaskStatus::InProcess),
        (Message::Todo, TaskStatus::Todo),
        (Message::Deprecated, TaskStatus::Deprecated),
    ];
    for (m, status) in cases {
        let (_, out) = step(state(CurrentFocus::TodoList, CurrentMode::Normal), m);
        assert_eq!(out, Some(UiMessage::WAction(WidgetAction::MarkTaskStatus(status))));
        let (_, out) = step(state(CurrentFocus::Workspace, CurrentMode::Normal), m);
        assert_eq!(out, None);
    }
}

#[test]
fn help_mode_accepts_only_scroll_and_exit() {
    let help = state(CurrentFocus::Workspace, CurrentMode::Help);
    let (s, out) = step(help, Message::AddItem);
    assert_eq!((s, out), (help, None));
    let (s, out) = step(help, Message::DeleteItem);
    assert_eq!((s, out), (help, None));
    let (_, out) = step(help, Message::MoveUp);
    assert_eq!(out, Some(UiMessage::WAction(WidgetAction::SelectUp)));
    let (s, out) = step(help, Message::ExitHelp);
    assert_eq!(s.current_mode, CurrentMode::Normal);
    assert_eq!(out, Some(UiMessage::WAction(WidgetAction::ExitHelp)));
    let (s, out) = step(state(CurrentFocus::Workspace, CurrentMode::Normal), Message::Help);
    assert_eq!(s.current_mode, CurrentMode::Help);
    assert_eq!(out, Some(UiMessage::WAction(WidgetAction::Help)));
    assert!(is_accepted(CurrentMode::Help, Message::Update));
    assert!(!is_accepted(CurrentMode::Help, Message::Rename));
    assert!(!is_accepted(CurrentMode::Insert, Message::MoveUp));
    assert!(is_accepted(CurrentMode::Insert, Message::Exit));
    assert!(is_accepted(CurrentMode::Search, Message::Due));
    assert!(!is_accepted(CurrentMode::Sort, Message::Filter));
}

#[test]
fn filter_and_search_messages() {
    let (s, out) = step(state(CurrentFocus::TodoList, CurrentMode::Normal), Message::Filter);
    assert_eq!(s.current_mode, CurrentMode::Insert);
    assert_eq!(out, Some(UiMessage::WAction(WidgetAction::Filter)));
    let (_, out) = step(state(CurrentFocus::Workspace, CurrentMode::Normal), Message::Filter);
    assert_eq!(out, None);
    let search = state(CurrentFocus::TodoList, CurrentMode::Search);
    let (_, out) = step(search, Message::SearchMsg(SearchEvent::Next));
    assert_eq!(out, Some(UiMessage::WAction(WidgetAction::SelectDown)));
    let (_, out) = step(search, Message::SearchMsg(SearchEvent::Previous));
    assert_eq!(out, Some(UiMessage::WAction(WidgetAction::SelectUp)));
    let (s, out) = step(search, Message::SearchMsg(SearchEvent::Exit));
    assert_eq!(s.current_mode, CurrentMode::Normal);
    assert_eq!(out, Some(UiMessage::WAction(WidgetAction::ExitFilter)));
}

#[test]
fn archive_recovery_rename_due_save() {
    let (s, out) = step(state(CurrentFocus::Workspace, CurrentMode::Normal), Message::Archive);
    assert_eq!(s.current_mode, CurrentMode::Insert);
    assert_eq!(out, Some(UiMessage::WAction(WidgetAction::ArchiveWS)));
    let (_, out) = step(state(CurrentFocus::TodoList, CurrentMode::Normal), Message::Archive);
    assert_eq!(out, None);
    let (s, out) = step(state(CurrentFocus::ArchivedWorkspace, CurrentMode::Normal), Message::Recovery);
    assert_eq!(s.current_mode, CurrentMode::Normal);
    assert_eq!(out, Some(UiMessage::WAction(WidgetAction::RecoveryWS)));
    let (s, out) = step(state(CurrentFocus::TodoList, CurrentMode::Normal), Message::Rename);
    assert_eq!(s.current_mode, CurrentMode::Insert);
    assert_eq!(out, Some(UiMessage::WAction(WidgetAction::Rename(CurrentFocus::TodoList))));
    let (s, out) = step(state(CurrentFocus::TodoList, CurrentMode::Search), Message::Due);
    assert_eq!(s.current_mode, CurrentMode::Search);
    assert_eq!(out, Some(UiMessage::WAction(WidgetAction::Due)));
    let (_, out) = step(state(CurrentFocus::Workspace, CurrentMode::Normal), Message::SaveData);
    assert_eq!(out, Some(UiMessage::SaveData));
    let (_, out) = step(state(CurrentFocus::Workspace, CurrentMode::Normal), Message::Update);
    assert_eq!(out, Some(UiMessage::UpdateUi));
    for m in [Message::IncreseUrgency, Message::DecreseUrgency, Message::Sort] {
        let before = state(CurrentFocus::TodoList, CurrentMode::Normal);
        assert_eq!(step(before, m), (before, None));
    }
}

#[test]
fn drain_is_fifo_and_stops_at_exit() {
    let mut s = AppState::new();
    let queue = vec![
        Message::MoveDown,
        Message::ChangeFocus(CurrentFocus::TodoList),
        Message::Complete,
        Message::Exit,
        Message::MoveUp,
        Message::AddItem,
    ];
    let (sent, taken) = drain_commands(&mut s, &queue);
    assert_eq!(taken, 4);
    assert!(s.exit);
    assert_eq!(
        sent,
        vec![
            UiMessage::WAction(WidgetAction::SelectDown),
            UiMessage::WAction(WidgetAction::FocusTodolist),
            UiMessage::WAction(WidgetAction::MarkTaskStatus(TaskStatus::Finished)),
        ]
    );
    let (sent, taken) = drain_commands(&mut s, &queue);
    assert_eq!((sent, taken), (Vec::new(), 0));
}

#[test]
fn drain_without_exit_takes_everything() {
    let mut s = AppState::new();
    let queue = vec![Message::Update; 25];
    let (sent, taken) = drain_commands(&mut s, &queue);
    assert_eq!(taken, 25);
    assert_eq!(sent.len(), 25);
    assert!(!s.exit);
}

use tui_todo::appstate::{AppState, CurrentFocus, CurrentMode};
use tui_todo::data::{export_snapshot, import_snapshot, Datas};
use tui_todo::ui::screen::{Answer, ConfirmKind, Pending, Request, Ui};
use tui_todo::ui::todolistwidget::{find_task, flatten_tasks, TaskStatus};
use tui_todo::ui::workspacewidget::flatten_workspaces;
use tui_todo::ui::{SelectBF, UiMessage, WidgetAction};

const W1: u128 = 1;
const W2: u128 = 2;
const T1: u128 = 11;
const T2: u128 = 12;

#[test]
fn inbox_scenario() {
    let mut ui = Ui::new();
    assert!(ui.workspace.workspaces.is_empty());

    ui.add_workspace(W1, "Inbox".to_string());
    assert_eq!(flatten_workspaces(&ui.workspace.workspaces), vec![W1]);
    assert_eq!(ui.todolist.todolists.len(), 1);
    assert_eq!(ui.todolist.todolists[0].workspace, W1);
    assert!(ui.todolist.todolists[0].tasks.is_empty());

    ui.workspace.current_workspace = Some(W1);
    ui.add_subworkspace(W2, "Urgent".to_string());
    assert_eq!(flatten_workspaces(&ui.workspace.workspaces), vec![W1, W2]);
    assert_eq!(ui.workspace.workspaces[0].children[0].desc, "Urgent");

    ui.enter_workspace(false);
    assert!(ui.todolist.focused);
    assert!(!ui.workspace.focused);
    assert_eq!(ui.todolist.current_todolist, Some(W1));

    ui.add_task(T1, 999, "Buy milk".to_string());
    let list = &ui.todolist.todolists[0];
    assert_eq!(flatten_tasks(&list.tasks), vec![T1]);
    assert_eq!(list.tasks[0].status, TaskStatus::Todo);
    assert_eq!(flatten_workspaces(&ui.workspace.workspaces), vec![W1, W2]);

    ui.todolist.todolists[0].current_task = Some(T1);
    ui.add_subtask(T2, "2% milk".to_string());
    assert_eq!(flatten_tasks(&ui.todolist.todolists[0].tasks), vec![T1, T2]);

    ui.mark_status(TaskStatus::Finished);
    let tasks = &ui.todolist.todolists[0].tasks;
    assert_eq!(find_task(tasks, T1).unwrap().status, TaskStatus::Finished);
    assert_eq!(find_task(tasks, T2).unwrap().status, TaskStatus::Finished);

    ui.delete_selected_workspace(CurrentFocus::Workspace);
    assert!(ui.workspace.workspaces.is_empty());
    assert!(ui.todolist.todolists.is_empty());
    assert_eq!(ui.workspace.current_workspace, None);
    assert_eq!(ui.todolist.current_todolist, None);
}

#[test]
fn add_task_without_list_makes_a_workspace() {
    let mut ui = Ui::new();
    ui.add_task(T1, W1, "Buy milk".to_string());
    assert_eq!(flatten_workspaces(&ui.workspace.workspaces), vec![W1]);
    assert_eq!(ui.workspace.workspaces[0].desc, "Workspace");
    assert_eq!(ui.workspace.current_workspace, Some(W1));
    assert_eq!(ui.todolist.current_todolist, Some(W1));
    assert_eq!(ui.todolist.todolists[0].workspace, W1);
    assert_eq!(flatten_tasks(&ui.todolist.todolists[0].tasks), vec![T1]);
}

#[test]
fn add_subtask_without_list_does_nothing() {
    let mut ui = Ui::new();
    ui.add_subtask(T1, "x".to_string());
    assert_eq!(ui, Ui::new());
}

fn answer(ui: &mut Ui, apps: &mut AppState, a: Answer, ids: (u128, u128)) -> Request {
    ui.handle_answer_with(apps, a, ids, tui_todo::date::Date { days: 738_000 })
}

#[test]
fn add_workspace_through_prompt() {
    let mut ui = Ui::new();
    let mut apps = AppState::new();
    apps.current_mode = CurrentMode::Insert;
    let r = ui.handle_uimsg(&mut apps, UiMessage::WAction(WidgetAction::AddWorkspace));
    assert_eq!(r, Request::AskText(WidgetAction::AddWorkspace));
    assert_eq!(ui.pending, Pending::Text(WidgetAction::AddWorkspace));
    assert_eq!(apps.current_mode, CurrentMode::Insert);
    let r = answer(&mut ui, &mut apps, Answer::Text("Inbox".to_string()), (W1, W2));
    assert_eq!(r, Request::Redraw);
    assert_eq!(ui.pending, Pending::Nothing);
    assert_eq!(apps.current_mode, CurrentMode::Normal);
    assert_eq!(ui.prompt.desc, "Workspace Added !");
    assert_eq!(flatten_workspaces(&ui.workspace.workspaces), vec![W1]);
    assert_eq!(ui.todolist.todolists.len(), 1);
}

#[test]
fn dismissed_prompt_adds_nothing() {
    let mut ui = Ui::new();
    let mut apps = AppState::new();
    ui.handle_uimsg(&mut apps, UiMessage::WAction(WidgetAction::AddWorkspace));
    let r = answer(&mut ui, &mut apps, Answer::Text(String::new()), (W1, W2));
    assert_eq!(r, Request::Redraw);
    assert!(ui.workspace.workspaces.is_empty());
    assert!(ui.todolist.todolists.is_empty());
    assert_eq!(apps.current_mode, CurrentMode::Normal);
}

#[test]
fn id_in_use_is_not_used_again() {
    let mut ui = Ui::new();
    let mut apps = AppState::new();
    ui.add_workspace(W1, "a".to_string());
    ui.handle_uimsg(&mut apps, UiMessage::WAction(WidgetAction::AddWorkspace));
    answer(&mut ui, &mut apps, Answer::Text("b".to_string()), (W1, W2));
    assert_eq!(flatten_workspaces(&ui.workspace.workspaces), vec![W1]);
    assert_eq!(ui.todolist.todolists.len(), 1);
    assert!(ui.id_in_use(W1));
    assert!(!ui.id_in_use(W2));
}

#[test]
fn random_ids_are_fresh_and_distinct() {
    let mut ui = Ui::new();
    let mut apps = AppState::new();
    for name in ["a", "b", "c"] {
        ui.handle_uimsg(&mut apps, UiMessage::WAction(WidgetAction::AddWorkspace));
        ui.handle_answer(&mut apps, Answer::Text(name.to_string()));
    }
    let ids = flatten_workspaces(&ui.workspace.workspaces);
    assert_eq!(ids.len(), 3);
    assert_ne!(ids[0], ids[1]);
    assert_ne!(ids[1], ids[2]);
    assert_ne!(ids[0], ids[2]);
    for id in ids {
        assert_eq!(id & 0x0000_0000_0000_f000_c000_0000_0000_0000, 0x0000_0000_0000_4000_8000_0000_0000_0000);
    }
}

fn two_level() -> Ui {
    let mut ui = Ui::new();
    ui.add_workspace(W1, "Inbox".to_string());
    ui.workspace.current_workspace = Some(W1);
    ui.add_subworkspace(W2, "Urgent".to_string());
    ui
}

#[test]
fn delete_asks_twice_when_not_empty() {
    let mut ui = two_level();
    let mut apps = AppState::new();
    let r = ui.handle_uimsg(&mut apps, UiMessage::WAction(WidgetAction::DeleteWorkspace));
    assert_eq!(r, Request::AskConfirm(ConfirmKind::Delete));
    let r = answer(&mut ui, &mut apps, Answer::Yes, (0, 0));
    assert_eq!(r, Request::AskConfirm(ConfirmKind::NotEmpty(CurrentFocus::Workspace)));
    assert_eq!(ui.pending, Pending::Confirm(WidgetAction::DeleteWorkspace, true));
    assert_eq!(flatten_workspaces(&ui.workspace.workspaces), vec![W1, W2]);
    let r = answer(&mut ui, &mut apps, Answer::Yes, (0, 0));
    assert_eq!(r, Request::Redraw);
    assert!(ui.workspace.workspaces.is_empty());
    assert!(ui.todolist.todolists.is_empty());
    assert_eq!(ui.prompt.desc, "Workspace Deleted !");
    assert_eq!(apps.current_mode, CurrentMode::Normal);
}

#[test]
fn delete_asks_once_for_a_leaf() {
    let mut ui = two_level();
    ui.workspace.current_workspace = Some(W2);
    let mut apps = AppState::new();
    ui.handle_uimsg(&mut apps, UiMessage::WAction(WidgetAction::DeleteWorkspace));
    let r = answer(&mut ui, &mut apps, Answer::Yes, (0, 0));
    assert_eq!(r, Request::Redraw);
    assert_eq!(flatten_workspaces(&ui.workspace.workspaces), vec![W1]);
    assert_eq!(ui.todolist.todolists.len(), 1);
    assert_eq!(ui.todolist.todolists[0].workspace, W1);
}

#[test]
fn delete_asks_about_tasks_of_a_leaf() {
    let mut ui = two_level();
    ui.workspace.current_workspace = Some(W2);
    ui.todolist.todolists[1].add_task(tui_todo::ui::todolistwidget::Task::with_id(T1, "t".to_string(), None));
    let mut apps = AppState::new();
    ui.handle_uimsg(&mut apps, UiMessage::WAction(WidgetAction::DeleteWorkspace));
    let r = answer(&mut ui, &mut apps, Answer::Yes, (0, 0));
    assert_eq!(r, Request::AskConfirm(ConfirmKind::NotEmpty(CurrentFocus::TodoList)));
}

#[test]
fn no_is_a_complete_no_op() {
    let mut ui = two_level();
    let before_ws = flatten_workspaces(&ui.workspace.workspaces);
    let mut apps = AppState::new();
    apps.current_mode = CurrentMode::Insert;
    ui.handle_uimsg(&mut apps, UiMessage::WAction(WidgetAction::DeleteWorkspace));
    let r = answer(&mut ui, &mut apps, Answer::No, (0, 0));
    assert_eq!(r, Request::Redraw);
    assert_eq!(flatten_workspaces(&ui.workspace.workspaces), before_ws);
    assert_eq!(ui.todolist.todolists.len(), 2);
    assert_eq!(ui.workspace.current_workspace, Some(W1));
    assert_eq!(ui.pending, Pending::Nothing);
    assert_eq!(apps.current_mode, CurrentMode::Normal);

    ui.handle_uimsg(&mut apps, UiMessage::WAction(WidgetAction::DeleteWorkspace));
    answer(&mut ui, &mut apps, Answer::Yes, (0, 0));
    answer(&mut ui, &mut apps, Answer::No, (0, 0));
    assert_eq!(flatten_workspaces(&ui.workspace.workspaces), before_ws);
    assert_eq!(ui.todolist.todolists.len(), 2);
}

#[test]
fn archive_and_recover_move_the_whole_subtree() {
    let mut ui = two_level();
    let mut apps = AppState::new();
    let r = ui.handle_uimsg(&mut apps, UiMessage::WAction(WidgetAction::ArchiveWS));
    assert_eq!(r, Request::AskConfirm(ConfirmKind::Archive));
    answer(&mut ui, &mut apps, Answer::Yes, (0, 0));
    let r = answer(&mut ui, &mut apps, Answer::Yes, (0, 0));
    assert_eq!(r, Request::Redraw);
    assert!(ui.workspace.workspaces.is_empty());
    assert_eq!(flatten_workspaces(&ui.archived_ws.workspaces), vec![W1, W2]);
    assert_eq!(ui.archived_ws.workspaces[0].children[0].desc, "Urgent");
    assert_eq!(ui.workspace.current_workspace, None);
    assert_eq!(ui.workspace.ws_state, None);
    assert_eq!(ui.todolist.todolists.len(), 2);

    ui.archived_ws.current_workspace = Some(W1);
    let r = ui.handle_uimsg(&mut apps, UiMessage::WAction(WidgetAction::RecoveryWS));
    assert_eq!(r, Request::Redraw);
    assert!(ui.archived_ws.workspaces.is_empty());
    assert_eq!(flatten_workspaces(&ui.workspace.workspaces), vec![W1, W2]);
    assert_eq!(ui.todolist.todolists.len(), 2);
}

#[test]
fn archive_without_selection_ends_at_once() {
    let mut ui = Ui::new();
    let mut apps = AppState::new();
    apps.current_mode = CurrentMode::Insert;
    let r = ui.handle_uimsg(&mut apps, UiMessage::WAction(WidgetAction::ArchiveWS));
    assert_eq!(r, Request::Redraw);
    assert_eq!(apps.current_mode, CurrentMode::Normal);
    assert_eq!(ui.pending, Pending::Nothing);
}

#[test]
fn rename_asks_then_collects_text() {
    let mut ui = two_level();
    ui.workspace.current_workspace = Some(W2);
    let mut apps = AppState::new();
    let action = WidgetAction::Rename(CurrentFocus::Workspace);
    let r = ui.handle_uimsg(&mut apps, UiMessage::WAction(action));
    assert_eq!(r, Request::AskConfirm(ConfirmKind::Rename));
    let r = answer(&mut ui, &mut apps, Answer::Yes, (0, 0));
    assert_eq!(r, Request::AskText(action));
    let r = answer(&mut ui, &mut apps, Answer::Text("Later".to_string()), (0, 0));
    assert_eq!(r, Request::Redraw);
    assert_eq!(ui.workspace.workspaces[0].children[0].desc, "Later");
    assert_eq!(ui.workspace.workspaces[0].desc, "Inbox");
    assert_eq!(apps.current_mode, CurrentMode::Normal);
}

fn with_tasks() -> Ui {
    let mut ui = two_level();
    ui.enter_workspace(false);
    ui.add_task(T1, 0, "Buy milk".to_string());
    ui.todolist.todolists[0].current_task = Some(T1);
    ui.add_subtask(T2, "2% milk".to_string());
    ui.add_task(13, 0, "Write report".to_string());
    ui
}

#[test]
fn select_moves_by_focus() {
    let mut ui = with_tasks();
    let mut apps = AppState::new();
    apps.current_focus = CurrentFocus::TodoList;
    ui.select(&apps, SelectBF::Forward);
    assert_eq!(ui.todolist.todolists[0].current_task, Some(T2));
    assert_eq!(ui.todolist.todolists[0].state, Some(1));
    ui.select(&apps, SelectBF::Forward);
    ui.select(&apps, SelectBF::Forward);
    assert_eq!(ui.todolist.todolists[0].current_task, Some(13));
    assert_eq!(ui.todolist.todolists[0].state, Some(2));

    apps.current_focus = CurrentFocus::Workspace;
    ui.select(&apps, SelectBF::Forward);
    assert_eq!(ui.workspace.current_workspace, Some(W2));
    assert_eq!(ui.workspace.ws_state, Some(1));
    assert_eq!(ui.todolist.current_todolist, Some(W2));

    apps.current_focus = CurrentFocus::ArchivedWorkspace;
    ui.select(&apps, SelectBF::Back);
    assert_eq!(ui.archived_ws.current_workspace, None);
    assert_eq!(ui.archived_ws.ws_state, None);
    assert_eq!(ui.todolist.current_todolist, Some(W2));
}

#[test]
fn select_scrolls_help_in_help_mode() {
    let mut ui = with_tasks();
    ui.helpwidget.scroll_max = 2;
    let mut apps = AppState::new();
    apps.current_mode = CurrentMode::Help;
    apps.current_focus = CurrentFocus::TodoList;
    let before = ui.todolist.todolists[0].current_task;
    ui.select(&apps, SelectBF::Back);
    assert_eq!(ui.helpwidget.scroll, 0);
    ui.select(&apps, SelectBF::Forward);
    ui.select(&apps, SelectBF::Forward);
    ui.select(&apps, SelectBF::Forward);
    assert_eq!(ui.helpwidget.scroll, 2);
    ui.select(&apps, SelectBF::Back);
    assert_eq!(ui.helpwidget.scroll, 1);
    assert_eq!(ui.todolist.todolists[0].current_task, before);
}

#[test]
fn filter_narrows_and_exit_clears() {
    let mut ui = with_tasks();
    let mut apps = AppState::new();
    apps.current_mode = CurrentMode::Insert;
    let r = ui.handle_uimsg(&mut apps, UiMessage::WAction(WidgetAction::Filter));
    assert_eq!(r, Request::AskFilter);
    let r = answer(&mut ui, &mut apps, Answer::Text("report".to_string()), (0, 0));
    assert_eq!(r, Request::Redraw);
    assert_eq!(apps.current_mode, CurrentMode::Search);
    assert_eq!(ui.todolist.search_string, "report");
    assert_eq!(ui.todolist.todolists[0].current_task, Some(13));
    assert_eq!(ui.todolist.todolists[0].state, Some(0));
    assert_eq!(ui.prompt.desc, "In Search Mode !");

    let r = ui.handle_uimsg(&mut apps, UiMessage::WAction(WidgetAction::ExitFilter));
    assert_eq!(r, Request::Redraw);
    assert_eq!(apps.current_mode, CurrentMode::Normal);
    assert_eq!(ui.todolist.search_string, "");
    assert_eq!(ui.todolist.todolists[0].state, None);
    assert_eq!(ui.todolist.todolists[0].current_task, Some(13));
}

#[test]
fn filter_without_match_keeps_selection() {
    let mut ui = with_tasks();
    ui.apply_filter("zzz".to_string());
    assert_eq!(ui.todolist.todolists[0].current_task, Some(T1));
    assert_eq!(ui.todolist.todolists[0].state, Some(0));
}

#[test]
fn filter_without_list_goes_to_search_mode() {
    let mut ui = Ui::new();
    let mut apps = AppState::new();
    let r = ui.handle_uimsg(&mut apps, UiMessage::WAction(WidgetAction::Filter));
    assert_eq!(r, Request::Redraw);
    assert_eq!(apps.current_mode, CurrentMode::Search);
}

#[test]
fn due_returns_to_the_mode_before() {
    let mut ui = with_tasks();
    let mut apps = AppState::new();
    apps.current_mode = CurrentMode::Search;
    let r = ui.handle_uimsg(&mut apps, UiMessage::WAction(WidgetAction::Due));
    assert_eq!(r, Request::AskDue(None));
    assert_eq!(apps.current_mode, CurrentMode::Insert);
    assert_eq!(ui.pending, Pending::Due(CurrentMode::Search));
    let r = answer(&mut ui, &mut apps, Answer::Text("tomorrow".to_string()), (0, 0));
    assert_eq!(r, Request::Redraw);
    assert_eq!(apps.current_mode, CurrentMode::Search);
    let tasks = &ui.todolist.todolists[0].tasks;
    assert_eq!(find_task(tasks, T1).unwrap().due, Some(tui_todo::date::Date { days: 738_001 }));
    assert_eq!(find_task(tasks, T2).unwrap().due, None);
    assert_eq!(ui.prompt.desc, "Set Due Date !");

    let r = ui.handle_uimsg(&mut apps, UiMessage::WAction(WidgetAction::Due));
    assert_eq!(r, Request::AskDue(Some(tui_todo::date::Date { days: 738_001 })));
    answer(&mut ui, &mut apps, Answer::Text("None".to_string()), (0, 0));
    assert_eq!(find_task(&ui.todolist.todolists[0].tasks, T1).unwrap().due, None);
}

#[test]
fn due_without_selection_asks_nothing() {
    let mut ui = Ui::new();
    let mut apps = AppState::new();
    let r = ui.handle_uimsg(&mut apps, UiMessage::WAction(WidgetAction::Due));
    assert_eq!(r, Request::Redraw);
    assert_eq!(apps.current_mode, CurrentMode::Normal);
    assert_eq!(ui.pending, Pending::Nothing);
}

#[test]
fn focus_help_save_and_redraw() {
    let mut ui = Ui::new();
    let mut apps = AppState::new();
    ui.handle_uimsg(&mut apps, UiMessage::WAction(WidgetAction::FocusArchivedWorkspace));
    assert!(ui.archived_ws.focused && !ui.workspace.focused && !ui.todolist.focused);
    assert_eq!(ui.helpwidget.keymap.focus, CurrentFocus::ArchivedWorkspace);
    ui.handle_uimsg(&mut apps, UiMessage::WAction(WidgetAction::FocusTodolist));
    assert!(!ui.archived_ws.focused && !ui.workspace.focused && ui.todolist.focused);
    ui.handle_uimsg(&mut apps, UiMessage::WAction(WidgetAction::FocusWorkspace));
    assert!(!ui.archived_ws.focused && ui.workspace.focused && !ui.todolist.focused);

    ui.handle_uimsg(&mut apps, UiMessage::WAction(WidgetAction::Help));
    assert_eq!(ui.helpwidget.keymap.mode, CurrentMode::Help);
    assert_eq!(ui.prompt.desc, "In Help Mode !");
    ui.handle_uimsg(&mut apps, UiMessage::WAction(WidgetAction::ExitHelp));
    assert_eq!(ui.helpwidget.keymap.mode, CurrentMode::Normal);
    assert_eq!(ui.prompt.desc, "In Normal Mode !");

    assert_eq!(ui.handle_uimsg(&mut apps, UiMessage::SaveData), Request::Save);
    assert_eq!(ui.prompt.desc, "Data Saved !");
    assert_eq!(ui.handle_uimsg(&mut apps, UiMessage::Update), Request::Redraw);
    assert_eq!(ui.handle_uimsg(&mut apps, UiMessage::UpdateUi), Request::Redraw);
}

#[test]
fn answer_without_prompt_does_nothing() {
    let mut ui = two_level();
    let mut apps = AppState::new();
    apps.current_mode = CurrentMode::Search;
    let before = export_snapshot(&ui);
    assert_eq!(answer(&mut ui, &mut apps, Answer::Yes, (5, 6)), Request::Redraw);
    assert_eq!(export_snapshot(&ui), before);
    assert_eq!(apps.current_mode, CurrentMode::Search);
}

#[test]
fn delete_task_with_children_asks_twice() {
    let mut ui = with_tasks();
    let mut apps = AppState::new();
    ui.handle_uimsg(&mut apps, UiMessage::WAction(WidgetAction::DeleteTask));
    let r = answer(&mut ui, &mut apps, Answer::Yes, (0, 0));
    assert_eq!(r, Request::AskConfirm(ConfirmKind::NotEmpty(CurrentFocus::TodoList)));
    let r = answer(&mut ui, &mut apps, Answer::Yes, (0, 0));
    assert_eq!(r, Request::Redraw);
    assert_eq!(flatten_tasks(&ui.todolist.todolists[0].tasks), vec![13]);
    assert_eq!(ui.todolist.todolists[0].current_task, None);
    assert_eq!(ui.prompt.desc, "Task Deleted !");
}

#[test]
fn snapshot_round_trip_keeps_forests() {
    let mut ui = with_tasks();
    ui.workspace.current_workspace = Some(W2);
    ui.move_subtree(CurrentFocus::Workspace);
    let saved = export_snapshot(&ui);
    let mut loaded = Ui::new();
    import_snapshot(&mut loaded, export_snapshot(&ui));
    let again = export_snapshot(&loaded);
    assert_eq!(again.workspace.workspaces, saved.workspace.workspaces);
    assert_eq!(again.archived_ws.workspaces, saved.archived_ws.workspaces);
    assert_eq!(again.todolist.todolists.len(), saved.todolist.todolists.len());
    for (a, b) in again.todolist.todolists.iter().zip(saved.todolist.todolists.iter()) {
        assert_eq!(a.tasks, b.tasks);
        assert_eq!(a.workspace, b.workspace);
    }
}

#[test]
fn import_drops_stale_selections() {
    let mut datas = Datas::default();
    datas.workspace.current_workspace = Some(77);
    datas.archived_ws.current_workspace = Some(78);
    let mut ui = Ui::new();
    import_snapshot(&mut ui, datas);
    assert_eq!(ui.workspace.current_workspace, None);
    assert_eq!(ui.archived_ws.current_workspace, None);
    assert_eq!(ui.helpwidget.keymap.focus, CurrentFocus::ArchivedWorkspace);
}

#[test]
fn empty_snapshot_is_a_valid_start() {
    let mut ui = Ui::new();
    import_snapshot(&mut ui, Datas::default());
    assert!(ui.workspace.workspaces.is_empty());
    assert!(ui.archived_ws.workspaces.is_empty());
    assert!(ui.todolist.todolists.is_empty());
    assert_eq!(export_snapshot(&ui), Datas::default());
}

#[test]
fn refresh_current_shows_list_of_selected_workspace() {
    let mut ui = two_level();
    ui.workspace.current_workspace = Some(W2);
    ui.archived_ws.focused = false;
    ui.refresh_current();
    assert_eq!(ui.todolist.current_todolist, Some(W2));
    assert_eq!(ui.helpwidget.keymap.focus, CurrentFocus::Workspace);
}

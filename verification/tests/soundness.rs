use tui_todo::appstate::{AppState, CurrentFocus};
use tui_todo::data::{export_snapshot, load_snapshot, Datas};
use tui_todo::errors::Errors;
use tui_todo::ui::invariants::{all_among, no_repeats, share_none};
use tui_todo::ui::screen::{Answer, Ui};
use tui_todo::ui::todolistwidget::{Task, TaskStatus, TodoList};
use tui_todo::ui::workspacewidget::Workspace;
use tui_todo::ui::{UiMessage, WidgetAction};

#[test]
fn no_repeats_finds_any_pair() {
    assert!(no_repeats(&Vec::new()));
    assert!(no_repeats(&vec![1]));
    assert!(no_repeats(&vec![1, 2, 3]));
    assert!(!no_repeats(&vec![1, 2, 1]));
    assert!(!no_repeats(&vec![2, 2]));
    assert!(!no_repeats(&vec![1, 2, 3, 3]));
}

#[test]
fn all_among_and_share_none() {
    assert!(all_among(&vec![1, 2], &vec![2, 1, 3]));
    assert!(!all_among(&vec![1, 4], &vec![2, 1, 3]));
    assert!(all_among(&Vec::new(), &Vec::new()));
    assert!(share_none(&vec![1, 2], &vec![3, 4]));
    assert!(!share_none(&vec![1, 2], &vec![3, 2]));
    assert!(share_none(&Vec::new(), &vec![1]));
}

fn sample() -> Ui {
    let mut ui = Ui::new();
    ui.add_workspace(1, "a".to_string());
    ui.workspace.current_workspace = Some(1);
    ui.add_subworkspace(2, "b".to_string());
    ui.enter_workspace(false);
    ui.add_task(11, 0, "t".to_string());
    ui.todolist.todolists[0].current_task = Some(11);
    ui.add_subtask(12, "u".to_string());
    ui
}

#[test]
fn fresh_and_built_states_are_consistent() {
    assert!(Ui::new().is_consistent());
    assert!(sample().is_consistent());
}

#[test]
fn every_step_keeps_the_state_consistent() {
    let mut ui = sample();
    let mut apps = AppState::new();
    let today = tui_todo::date::Date { days: 738_000 };
    let script: Vec<(WidgetAction, Vec<Answer>)> = vec![
        (WidgetAction::AddWorkspace, vec![Answer::Text("c".to_string())]),
        (WidgetAction::AddTask, vec![Answer::Text("v".to_string())]),
        (WidgetAction::AddTaskChild, vec![Answer::Text("w".to_string())]),
        (WidgetAction::MarkTaskStatus(TaskStatus::Finished), vec![]),
        (WidgetAction::SelectDown, vec![]),
        (WidgetAction::Due, vec![Answer::Text("3 days".to_string())]),
        (WidgetAction::Filter, vec![Answer::Text("t".to_string())]),
        (WidgetAction::ExitFilter, vec![]),
        (WidgetAction::DeleteTask, vec![Answer::Yes, Answer::Yes]),
        (WidgetAction::FocusWorkspace, vec![]),
        (WidgetAction::ArchiveWS, vec![Answer::Yes, Answer::Yes]),
        (WidgetAction::AddWorkspaceChild, vec![Answer::Text("d".to_string())]),
        (WidgetAction::FocusArchivedWorkspace, vec![]),
        (WidgetAction::SelectDown, vec![]),
        (WidgetAction::Rename(CurrentFocus::ArchivedWorkspace), vec![Answer::Yes, Answer::Yes, Answer::Text("z".to_string())]),
        (WidgetAction::RecoveryWS, vec![]),
        (WidgetAction::DeleteArchivedWorkspace, vec![Answer::Yes]),
        (WidgetAction::DeleteWorkspace, vec![Answer::Yes, Answer::Yes]),
    ];
    let mut next: u128 = 100;
    for (action, answers) in script {
        if matches!(action, WidgetAction::FocusWorkspace) {
            apps.current_focus = CurrentFocus::Workspace;
            ui.workspace.current_workspace = Some(1);
        }
        if matches!(action, WidgetAction::FocusArchivedWorkspace) {
            apps.current_focus = CurrentFocus::ArchivedWorkspace;
        }
        ui.handle_uimsg(&mut apps, UiMessage::WAction(action));
        assert!(ui.is_consistent());
        for a in answers {
            next += 2;
            ui.handle_answer_with(&mut apps, a, (next, next + 1), today);
            assert!(ui.is_consistent());
        }
    }
}

fn snapshot() -> Datas {
    export_snapshot(&sample())
}

#[test]
fn consistent_snapshot_loads_with_bound_selections() {
    let mut datas = snapshot();
    datas.workspace.current_workspace = Some(77);
    datas.todolist.todolists[1].current_task = Some(78);
    datas.todolist.current_todolist = Some(79);
    let ui = load_snapshot(datas).unwrap();
    assert_eq!(ui.workspace.current_workspace, None);
    assert_eq!(ui.todolist.todolists[1].current_task, None);
    assert_eq!(ui.todolist.current_todolist, None);
    assert_eq!(ui.todolist.todolists[0].current_task, Some(11));
    assert!(ui.is_consistent());
    assert_eq!(export_snapshot(&ui).workspace.workspaces, snapshot().workspace.workspaces);
}

#[test]
fn empty_snapshot_loads() {
    let ui = load_snapshot(Datas::default()).unwrap();
    assert_eq!(export_snapshot(&ui), Datas::default());
}

#[test]
fn repeated_workspace_id_is_refused() {
    let mut datas = snapshot();
    datas.archived_ws.workspaces.push(Workspace::with_id(2, "again".to_string()));
    assert_eq!(load_snapshot(datas).err(), Some(Errors::LoadError));
}

#[test]
fn workspace_without_list_is_refused() {
    let mut datas = snapshot();
    datas.workspace.workspaces.push(Workspace::with_id(3, "c".to_string()));
    assert_eq!(load_snapshot(datas).err(), Some(Errors::LoadError));
}

#[test]
fn list_without_workspace_is_refused() {
    let mut datas = snapshot();
    datas.todolist.todolists.push(TodoList::new(3));
    assert_eq!(load_snapshot(datas).err(), Some(Errors::LoadError));
}

#[test]
fn two_lists_for_one_workspace_are_refused() {
    let mut datas = snapshot();
    datas.todolist.todolists.push(TodoList::new(2));
    assert_eq!(load_snapshot(datas).err(), Some(Errors::LoadError));
}

#[test]
fn repeated_task_id_is_refused() {
    let mut datas = snapshot();
    datas.todolist.todolists[1].tasks.push(Task::with_id(12, "x".to_string(), None));
    assert_eq!(load_snapshot(datas).err(), Some(Errors::LoadError));
    let mut datas = snapshot();
    datas.todolist.todolists[0].tasks.push(Task::with_id(11, "x".to_string(), None));
    assert_eq!(load_snapshot(datas).err(), Some(Errors::LoadError));
}

#[test]
fn task_with_a_workspace_id_is_refused() {
    let mut datas = snapshot();
    datas.todolist.todolists[1].tasks.push(Task::with_id(1, "x".to_string(), None));
    assert_eq!(load_snapshot(datas).err(), Some(Errors::LoadError));
}

use tui_todo::ui::todolistwidget::{
    delete_task_item, edit_task, find_task, flatten_tasks, insert_child_task, rename_task, set_due,
    set_status_recursive, Task, TaskEdit, TaskStatus, TodoList, TodoWidget,
};
use tui_todo::ui::workspacewidget::{
    delete_workspace, edit_workspace, find_workspace, flatten_workspaces, insert_child,
    move_subtree, rename_workspace, take_workspace, Workspace, WorkspaceEdit, WorkspaceType,
    WorkspaceWidget,
};
use tui_todo::ui::{advance, position_of, refresh, SelectAction, SelectBF};

fn ws(id: u128, name: &str, children: Vec<Workspace>) -> Workspace {
    let mut w = Workspace::with_id(id, name.to_string());
    for c in children {
        w.add_child(c);
    }
    w
}

fn task(id: u128, name: &str, children: Vec<Task>) -> Task {
    let mut t = Task::with_id(id, name.to_string(), None);
    for c in children {
        t.add_child(c);
    }
    t
}

fn count_ws(forest: &Vec<Workspace>) -> usize {
    forest.iter().map(|w| 1 + count_ws(&w.children)).sum()
}

fn sample() -> Vec<Workspace> {
    vec![
        ws(1, "a", vec![ws(2, "b", vec![ws(3, "c", vec![])]), ws(4, "d", vec![])]),
        ws(5, "e", vec![]),
        ws(6, "f", vec![ws(7, "g", vec![])]),
    ]
}

#[test]
fn flatten_is_pre_order() {
    assert_eq!(flatten_workspaces(&sample()), vec![1, 2, 3, 4, 5, 6, 7]);
}

#[test]
fn flatten_of_empty_forest_is_empty() {
    assert_eq!(flatten_workspaces(&Vec::new()), Vec::<u128>::new());
    assert_eq!(flatten_tasks(&Vec::new()), Vec::<u128>::new());
}

#[test]
fn flatten_length_is_node_count() {
    let forest = sample();
    assert_eq!(flatten_workspaces(&forest).len(), count_ws(&forest));
    assert_eq!(count_ws(&forest), 7);
}

#[test]
fn flatten_handles_depth_of_six() {
    let deep = vec![ws(
        1,
        "1",
        vec![ws(2, "2", vec![ws(3, "3", vec![ws(4, "4", vec![ws(5, "5", vec![ws(6, "6", vec![])])])])])],
    )];
    assert_eq!(flatten_workspaces(&deep), vec![1, 2, 3, 4, 5, 6]);
    assert_eq!(count_ws(&deep), 6);
}

#[test]
fn trait_flatten_agrees_with_free_function() {
    let forest = sample();
    assert_eq!(
        <WorkspaceWidget as SelectAction<Workspace>>::get_flattened(&forest),
        flatten_workspaces(&forest)
    );
    let tasks = vec![task(1, "a", vec![task(2, "b", vec![])])];
    assert_eq!(<TodoWidget as SelectAction<Task>>::get_flattened(&tasks), vec![1, 2]);
}

#[test]
fn delete_removes_exactly_the_subtree() {
    let mut forest = sample();
    let before = flatten_workspaces(&forest);
    assert!(delete_workspace(&mut forest, 2));
    let after = flatten_workspaces(&forest);
    assert_eq!(after, vec![1, 4, 5, 6, 7]);
    assert_eq!(before.len() - after.len(), 2);
    assert_eq!(forest[0].children.len(), 1);
    assert_eq!(forest[0].children[0].id, 4);
}

#[test]
fn delete_of_a_root_keeps_siblings_in_order() {
    let mut forest = sample();
    assert!(delete_workspace(&mut forest, 1));
    assert_eq!(flatten_workspaces(&forest), vec![5, 6, 7]);
}

#[test]
fn delete_of_a_leaf_removes_one_node() {
    let mut forest = sample();
    assert!(WorkspaceWidget::delete_item(&mut forest, 7));
    assert_eq!(flatten_workspaces(&forest), vec![1, 2, 3, 4, 5, 6]);
    assert!(forest[2].children.is_empty());
}

#[test]
fn delete_of_missing_id_changes_nothing() {
    let mut forest = sample();
    assert!(!delete_workspace(&mut forest, 99));
    assert_eq!(forest, sample());
}

#[test]
fn delete_in_task_forest() {
    let mut tasks = vec![task(1, "a", vec![task(2, "b", vec![]), task(3, "c", vec![])]), task(4, "d", vec![])];
    assert!(TodoList::delete_item(3, &mut tasks));
    assert_eq!(flatten_tasks(&tasks), vec![1, 2, 4]);
    assert!(!delete_task_item(&mut tasks, 3));
    assert_eq!(flatten_tasks(&tasks), vec![1, 2, 4]);
}

#[test]
fn find_returns_first_in_pre_order() {
    let forest = sample();
    assert_eq!(find_workspace(&forest, 3).map(|w| w.desc.as_str()), Some("c"));
    assert_eq!(find_workspace(&forest, 6).map(|w| w.children.len()), Some(1));
    assert!(find_workspace(&forest, 42).is_none());
    let tasks = vec![task(1, "a", vec![task(2, "b", vec![])])];
    assert_eq!(find_task(&tasks, 2).map(|t| t.desc.as_str()), Some("b"));
    assert!(find_task(&tasks, 3).is_none());
}

#[test]
fn rename_by_id_changes_only_the_label() {
    let mut forest = sample();
    assert!(edit_workspace(&mut forest, 4, WorkspaceEdit::Rename("renamed".to_string())).is_none());
    assert_eq!(find_workspace(&forest, 4).unwrap().desc, "renamed");
    assert_eq!(flatten_workspaces(&forest), vec![1, 2, 3, 4, 5, 6, 7]);
}

#[test]
fn edit_of_missing_id_hands_the_edit_back() {
    let mut forest = sample();
    let back = edit_workspace(&mut forest, 42, WorkspaceEdit::Rename("x".to_string()));
    assert_eq!(back, Some(WorkspaceEdit::Rename("x".to_string())));
    assert_eq!(forest, sample());
}

#[test]
fn add_child_by_id_appends_after_existing_children() {
    let mut forest = sample();
    assert!(edit_workspace(&mut forest, 1, WorkspaceEdit::AddChild(ws(8, "h", vec![]))).is_none());
    assert_eq!(flatten_workspaces(&forest), vec![1, 2, 3, 4, 8, 5, 6, 7]);
}

#[test]
fn set_status_reaches_the_whole_subtree() {
    let mut tasks = vec![
        task(1, "a", vec![task(2, "b", vec![task(3, "c", vec![])]), task(4, "d", vec![])]),
        task(5, "e", vec![]),
    ];
    assert!(edit_task(&mut tasks, 2, TaskEdit::SetStatus(TaskStatus::Finished)).is_none());
    assert_eq!(find_task(&tasks, 2).unwrap().status, TaskStatus::Finished);
    assert_eq!(find_task(&tasks, 3).unwrap().status, TaskStatus::Finished);
    assert_eq!(find_task(&tasks, 1).unwrap().status, TaskStatus::Todo);
    assert_eq!(find_task(&tasks, 4).unwrap().status, TaskStatus::Todo);
    assert_eq!(find_task(&tasks, 5).unwrap().status, TaskStatus::Todo);
}

#[test]
fn set_task_status_on_a_node() {
    let mut t = task(1, "a", vec![task(2, "b", vec![task(3, "c", vec![])])]);
    t.set_task_status(TaskStatus::Deprecated);
    assert_eq!(t.status, TaskStatus::Deprecated);
    assert_eq!(t.children[0].status, TaskStatus::Deprecated);
    assert_eq!(t.children[0].children[0].status, TaskStatus::Deprecated);
    assert_eq!(t.desc, "a");
}

#[test]
fn new_task_starts_as_todo() {
    let t = Task::with_id(9, "x".to_string(), None);
    assert_eq!(t.status, TaskStatus::Todo);
    assert!(t.expanded);
    assert!(t.children.is_empty());
    assert_eq!(t.due, None);
    assert_eq!(t.urgency, None);
    assert_eq!(t.id, 9);
}

#[test]
fn deep_copy_equals_its_source() {
    let forest = sample();
    assert_eq!(forest[0].deep_copy(), forest[0]);
    let t = task(1, "a", vec![task(2, "b", vec![])]);
    assert_eq!(t.deep_copy(), t);
}

#[test]
fn position_is_first_occurrence() {
    assert_eq!(position_of(&vec![5, 6, 7, 6], 6), Some(1));
    assert_eq!(position_of(&vec![5, 6, 7], 8), None);
    assert_eq!(position_of(&Vec::new(), 8), None);
}

#[test]
fn advance_on_empty_sequence_selects_nothing() {
    assert_eq!(advance(None, &Vec::new(), SelectBF::Forward), (None, None));
    assert_eq!(advance(Some(1), &Vec::new(), SelectBF::Back), (None, None));
}

#[test]
fn advance_without_selection_anchors_by_direction() {
    let seq = vec![10, 20, 30];
    assert_eq!(advance(None, &seq, SelectBF::Forward), (Some(10), Some(0)));
    assert_eq!(advance(None, &seq, SelectBF::Back), (Some(30), Some(2)));
}

#[test]
fn advance_with_stale_selection_re_anchors() {
    let seq = vec![10, 20, 30];
    assert_eq!(advance(Some(99), &seq, SelectBF::Forward), (Some(10), Some(0)));
    assert_eq!(advance(Some(99), &seq, SelectBF::Back), (Some(30), Some(2)));
}

#[test]
fn advance_moves_one_step_and_saturates() {
    let seq = vec![10, 20, 30];
    for i in 0..seq.len() {
        let back = if i == 0 { 0 } else { i - 1 };
        let forward = if i + 1 < seq.len() { i + 1 } else { seq.len() - 1 };
        assert_eq!(advance(Some(seq[i]), &seq, SelectBF::Back), (Some(seq[back]), Some(back)));
        assert_eq!(
            advance(Some(seq[i]), &seq, SelectBF::Forward),
            (Some(seq[forward]), Some(forward))
        );
    }
}

#[test]
fn advance_on_single_entry_stays() {
    let seq = vec![10];
    assert_eq!(advance(Some(10), &seq, SelectBF::Back), (Some(10), Some(0)));
    assert_eq!(advance(Some(10), &seq, SelectBF::Forward), (Some(10), Some(0)));
}

#[test]
fn refresh_keeps_present_and_drops_absent() {
    let flat = vec![1, 2, 3];
    assert_eq!(refresh(Some(2), &flat), Some(2));
    assert_eq!(refresh(Some(9), &flat), None);
    assert_eq!(refresh(None, &flat), None);
    assert_eq!(refresh(Some(1), &Vec::new()), None);
}

#[test]
fn workspace_widget_starts_empty_and_focused() {
    let w = WorkspaceWidget::new(WorkspaceType::Archived);
    assert!(w.workspaces.is_empty());
    assert_eq!(w.current_workspace, None);
    assert!(w.focused);
    assert_eq!(w.ws_state, None);
    assert_eq!(w.ws_type, WorkspaceType::Archived);
}

#[test]
fn workspace_widget_refresh_current() {
    let mut w = WorkspaceWidget::new(WorkspaceType::Normal);
    for r in sample() {
        w.add_workspace(r);
    }
    w.current_workspace = Some(3);
    w.refresh_current();
    assert_eq!(w.current_workspace, Some(3));
    w.current_workspace = Some(33);
    w.refresh_current();
    assert_eq!(w.current_workspace, None);
}

#[test]
fn workspace_widget_add_child_falls_back_to_root() {
    let mut w = WorkspaceWidget::new(WorkspaceType::Normal);
    w.add_child_workspace(ws(1, "a", vec![]));
    assert_eq!(flatten_workspaces(&w.workspaces), vec![1]);
    w.current_workspace = Some(1);
    w.add_child_workspace(ws(2, "b", vec![]));
    assert_eq!(w.workspaces.len(), 1);
    assert_eq!(w.workspaces[0].children[0].id, 2);
    w.current_workspace = Some(77);
    w.add_child_workspace(ws(3, "c", vec![]));
    assert_eq!(w.workspaces.len(), 2);
    assert_eq!(flatten_workspaces(&w.workspaces), vec![1, 2, 3]);
}

#[test]
fn workspace_widget_navigation() {
    let mut w = WorkspaceWidget::new(WorkspaceType::Normal);
    for r in sample() {
        w.add_workspace(r);
    }
    assert_eq!(w.get_selected_bf(SelectBF::Forward), Some(1));
    assert_eq!(w.ws_state, Some(0));
    w.current_workspace = Some(1);
    assert_eq!(w.get_selected_bf(SelectBF::Forward), Some(2));
    assert_eq!(w.ws_state, Some(1));
    w.current_workspace = Some(7);
    assert_eq!(w.get_selected_bf(SelectBF::Forward), Some(7));
    assert_eq!(w.ws_state, Some(6));
    assert_eq!(w.get_selected_bf(SelectBF::Back), Some(6));
    let mut empty = WorkspaceWidget::new(WorkspaceType::Normal);
    empty.ws_state = Some(3);
    assert_eq!(empty.get_selected_bf(SelectBF::Back), None);
    assert_eq!(empty.ws_state, None);
}

#[test]
fn has_todolist_needs_a_task() {
    let w = ws(1, "a", vec![]);
    let mut lists = TodoWidget::new();
    assert!(!w.has_todolist(&lists));
    lists.add_list(TodoList::new(1));
    assert!(!w.has_todolist(&lists));
    lists.todolists[0].add_task(task(5, "t", vec![]));
    assert!(w.has_todolist(&lists));
    assert!(!ws(2, "b", vec![]).has_todolist(&lists));
}

#[test]
fn new_nodes_get_random_ids() {
    let a = Workspace::new("a".to_string());
    let b = Workspace::new("b".to_string());
    assert_ne!(a.id, b.id);
    assert_eq!(a.desc, "a");
    assert!(a.expanded && a.children.is_empty());
    let mask = 0x0000_0000_0000_f000_c000_0000_0000_0000u128;
    assert_eq!(a.id & mask, 0x0000_0000_0000_4000_8000_0000_0000_0000);
    let t = Task::new("t".to_string(), Some(tui_todo::date::Date { days: 5 }));
    let u = Task::new("u".to_string(), None);
    assert_ne!(t.id, u.id);
    assert_eq!(t.id & mask, 0x0000_0000_0000_4000_8000_0000_0000_0000);
    assert_eq!(t.status, TaskStatus::Todo);
    assert_eq!(t.due, Some(tui_todo::date::Date { days: 5 }));
    assert_eq!(u.due, None);
}

#[test]
fn add_children_appends_in_order() {
    let mut w = ws(1, "a", vec![ws(2, "b", vec![])]);
    w.add_children(vec![ws(3, "c", vec![ws(4, "d", vec![])]), ws(5, "e", vec![])]);
    assert_eq!(flatten_workspaces(&vec![w]), vec![1, 2, 3, 4, 5]);
    let mut w = ws(1, "a", vec![]);
    w.add_children(Vec::new());
    assert!(w.children.is_empty());
}

#[test]
fn take_hands_over_the_whole_subtree() {
    let mut forest = sample();
    let taken = take_workspace(&mut forest, 2).unwrap();
    assert_eq!(flatten_workspaces(&vec![taken]), vec![2, 3]);
    assert_eq!(flatten_workspaces(&forest), vec![1, 4, 5, 6, 7]);
    assert!(take_workspace(&mut forest, 2).is_none());
    assert_eq!(flatten_workspaces(&forest), vec![1, 4, 5, 6, 7]);
}

#[test]
fn move_subtree_between_forests() {
    let mut active = sample();
    let mut archive = vec![ws(9, "z", vec![])];
    assert!(move_subtree(&mut active, &mut archive, 6));
    assert_eq!(flatten_workspaces(&active), vec![1, 2, 3, 4, 5]);
    assert_eq!(flatten_workspaces(&archive), vec![9, 6, 7]);
    assert!(!move_subtree(&mut active, &mut archive, 6));
    assert_eq!(flatten_workspaces(&active), vec![1, 2, 3, 4, 5]);
    assert_eq!(flatten_workspaces(&archive), vec![9, 6, 7]);
    assert!(move_subtree(&mut archive, &mut active, 6));
    assert_eq!(flatten_workspaces(&active), vec![1, 2, 3, 4, 5, 6, 7]);
    assert_eq!(archive, vec![ws(9, "z", vec![])]);
}

#[test]
fn take_current_clears_the_selection() {
    let mut w = WorkspaceWidget::new(WorkspaceType::Normal);
    for r in sample() {
        w.add_workspace(r);
    }
    w.current_workspace = Some(1);
    w.ws_state = Some(0);
    let taken = w.take_current().unwrap();
    assert_eq!(taken.id, 1);
    assert_eq!(taken.children.len(), 2);
    assert_eq!(flatten_workspaces(&w.workspaces), vec![5, 6, 7]);
    assert_eq!(w.current_workspace, None);
    assert_eq!(w.ws_state, None);
    assert!(w.take_current().is_none());
}

#[test]
fn named_primitives_act_by_id() {
    let mut tasks = vec![task(1, "a", vec![task(2, "b", vec![])]), task(3, "c", vec![])];
    assert!(set_status_recursive(&mut tasks, 1, TaskStatus::InProcess));
    assert_eq!(find_task(&tasks, 2).unwrap().status, TaskStatus::InProcess);
    assert_eq!(find_task(&tasks, 3).unwrap().status, TaskStatus::Todo);
    assert!(!set_status_recursive(&mut tasks, 9, TaskStatus::Finished));
    assert!(rename_task(&mut tasks, 2, "bb".to_string()));
    assert_eq!(find_task(&tasks, 2).unwrap().desc, "bb");
    assert!(!rename_task(&mut tasks, 9, "x".to_string()));
    let due = Some(tui_todo::date::Date { days: 7 });
    assert!(set_due(&mut tasks, 3, due));
    assert_eq!(find_task(&tasks, 3).unwrap().due, due);
    assert!(set_due(&mut tasks, 3, None));
    assert_eq!(find_task(&tasks, 3).unwrap().due, None);
    insert_child_task(&mut tasks, Some(3), task(4, "d", vec![]));
    insert_child_task(&mut tasks, Some(99), task(5, "e", vec![]));
    insert_child_task(&mut tasks, None, task(6, "f", vec![]));
    assert_eq!(flatten_tasks(&tasks), vec![1, 2, 3, 4, 5, 6]);

    let mut forest = sample();
    assert!(rename_workspace(&mut forest, 7, "gg".to_string()));
    assert_eq!(find_workspace(&forest, 7).unwrap().desc, "gg");
    assert!(!rename_workspace(&mut forest, 70, "x".to_string()));
    insert_child(&mut forest, Some(5), ws(8, "h", vec![]));
    insert_child(&mut forest, Some(50), ws(9, "i", vec![]));
    assert_eq!(flatten_workspaces(&forest), vec![1, 2, 3, 4, 5, 8, 6, 7, 9]);
}

#[test]
fn refresh_in_flattens_the_roots() {
    let forest = sample();
    assert_eq!(tui_todo::ui::refresh_in::<Workspace, WorkspaceWidget>(Some(3), &forest), Some(3));
    assert_eq!(tui_todo::ui::refresh_in::<Workspace, WorkspaceWidget>(Some(30), &forest), None);
    assert_eq!(tui_todo::ui::refresh_in::<Workspace, WorkspaceWidget>(None, &forest), None);
    let tasks = vec![task(1, "a", vec![task(2, "b", vec![])])];
    assert_eq!(tui_todo::ui::refresh_in::<Task, TodoWidget>(Some(2), &tasks), Some(2));
    assert_eq!(tui_todo::ui::refresh_in::<Task, TodoWidget>(Some(2), &Vec::new()), None);
}

use tui_todo::search::label_is_target;
use tui_todo::ui::todolistwidget::{flatten_tasks, Task, TodoList, TodoWidget};
use tui_todo::ui::{SelectAction, SelectBF};

fn task(id: u128, name: &str, children: Vec<Task>) -> Task {
    let mut t = Task::with_id(id, name.to_string(), None);
    for c in children {
        t.add_child(c);
    }
    t
}

fn list() -> TodoList {
    let mut l = TodoList::new(100);
    l.add_task(task(1, "buy milk", vec![task(2, "two percent", vec![])]));
    l.add_task(task(3, "write report", vec![]));
    l.add_task(task(4, "call home", vec![task(5, "ask about milk", vec![])]));
    l
}

#[test]
fn label_matching_uses_any_piece() {
    assert!(label_is_target("buy milk", "milk"));
    assert!(label_is_target("buy milk", "tea milk"));
    assert!(!label_is_target("buy milk", "tea"));
    assert!(!label_is_target("buy milk", "Milk"));
}

#[test]
fn label_matching_with_empty_pieces_matches_everything() {
    assert!(label_is_target("buy milk", ""));
    assert!(label_is_target("buy milk", "tea "));
    assert!(label_is_target("", ""));
    assert!(!label_is_target("", "x"));
}

#[test]
fn is_target_looks_below() {
    let t = task(1, "call home", vec![task(2, "ask about milk", vec![])]);
    assert!(t.is_target("milk".to_string()));
    assert!(t.is_target("home".to_string()));
    assert!(!t.is_target("report".to_string()));
}

#[test]
fn new_list_is_empty() {
    let l = TodoList::new(7);
    assert_eq!(l.workspace, 7);
    assert!(l.tasks.is_empty());
    assert_eq!(l.current_task, None);
    assert_eq!(l.state, None);
}

#[test]
fn add_child_task_uses_selection_or_falls_back() {
    let mut l = list();
    l.current_task = Some(3);
    l.add_child_task(task(6, "x", vec![]));
    assert_eq!(flatten_tasks(&l.tasks), vec![1, 2, 3, 6, 4, 5]);
    l.current_task = Some(99);
    l.add_child_task(task(7, "y", vec![]));
    assert_eq!(flatten_tasks(&l.tasks), vec![1, 2, 3, 6, 4, 5, 7]);
    l.current_task = None;
    l.add_child_task(task(8, "z", vec![]));
    assert_eq!(flatten_tasks(&l.tasks), vec![1, 2, 3, 6, 4, 5, 7, 8]);
}

#[test]
fn delete_task_clears_selection() {
    let mut l = list();
    l.current_task = Some(1);
    l.state = Some(0);
    l.delete_task();
    assert_eq!(flatten_tasks(&l.tasks), vec![3, 4, 5]);
    assert_eq!(l.current_task, None);
    assert_eq!(l.state, None);
    l.delete_task();
    assert_eq!(flatten_tasks(&l.tasks), vec![3, 4, 5]);
}

#[test]
fn refresh_current_task_drops_stale_selection() {
    let mut l = list();
    l.current_task = Some(5);
    l.refresh_current_task();
    assert_eq!(l.current_task, Some(5));
    l.current_task = Some(55);
    l.refresh_current_task();
    assert_eq!(l.current_task, None);
}

#[test]
fn set_current_task_none_clears_both() {
    let mut l = list();
    l.current_task = Some(1);
    l.state = Some(0);
    l.set_current_task_none();
    assert_eq!(l.current_task, None);
    assert_eq!(l.state, None);
    assert_eq!(flatten_tasks(&l.tasks), vec![1, 2, 3, 4, 5]);
}

#[test]
fn navigable_without_filter_is_whole_list() {
    assert_eq!(list().navigable(""), vec![1, 2, 3, 4, 5]);
}

#[test]
fn navigable_with_filter_keeps_matching_roots_whole() {
    assert_eq!(list().navigable("milk"), vec![1, 2, 4, 5]);
    assert_eq!(list().navigable("report"), vec![3]);
    assert_eq!(list().navigable("nothing"), Vec::<u128>::new());
}

#[test]
fn todo_widget_starts_empty() {
    let w = TodoWidget::new();
    assert!(w.todolists.is_empty());
    assert_eq!(w.current_todolist, None);
    assert!(!w.focused);
    assert_eq!(w.search_string, "");
}

#[test]
fn find_list_is_first_with_key() {
    let mut w = TodoWidget::new();
    w.add_list(TodoList::new(10));
    w.add_list(TodoList::new(20));
    w.add_list(TodoList::new(10));
    assert_eq!(w.find_list(10), Some(0));
    assert_eq!(w.find_list(20), Some(1));
    assert_eq!(w.find_list(30), None);
}

#[test]
fn change_current_list_rebinds_or_clears() {
    let mut w = TodoWidget::new();
    let mut l = list();
    l.current_task = Some(55);
    w.add_list(l);
    w.change_current_list(&Some(100));
    assert_eq!(w.current_todolist, Some(100));
    assert_eq!(w.todolists[0].current_task, None);
    w.change_current_list(&None);
    assert_eq!(w.current_todolist, Some(100));
    w.change_current_list(&Some(5));
    assert_eq!(w.current_todolist, None);
}

#[test]
fn delete_list_removes_and_takes_off_display() {
    let mut w = TodoWidget::new();
    w.add_list(TodoList::new(10));
    w.add_list(TodoList::new(20));
    w.current_todolist = Some(20);
    w.delete_list(10);
    assert_eq!(w.todolists.len(), 1);
    assert_eq!(w.todolists[0].workspace, 20);
    assert_eq!(w.current_todolist, None);
    w.delete_list(99);
    assert_eq!(w.todolists.len(), 1);
}

#[test]
fn todo_widget_navigation_respects_filter() {
    let mut w = TodoWidget::new();
    w.add_list(list());
    assert_eq!(w.get_selected_bf(SelectBF::Forward), None);
    w.current_todolist = Some(100);
    assert_eq!(w.get_selected_bf(SelectBF::Forward), Some(1));
    assert_eq!(w.todolists[0].state, Some(0));
    w.todolists[0].current_task = Some(2);
    assert_eq!(w.get_selected_bf(SelectBF::Forward), Some(3));
    w.search_string = "milk".to_string();
    assert_eq!(w.get_selected_bf(SelectBF::Forward), Some(4));
    assert_eq!(w.todolists[0].state, Some(2));
    w.todolists[0].current_task = Some(3);
    assert_eq!(w.get_selected_bf(SelectBF::Back), Some(5));
    assert_eq!(w.todolists[0].state, Some(3));
    w.search_string = "zzz".to_string();
    assert_eq!(w.get_selected_bf(SelectBF::Back), None);
    assert_eq!(w.todolists[0].state, None);
}

#[test]
fn set_cur_task_none_only_touches_shown_list() {
    let mut w = TodoWidget::new();
    let mut a = list();
    a.current_task = Some(1);
    let mut b = TodoList::new(200);
    b.current_task = Some(9);
    w.add_list(a);
    w.add_list(b);
    w.current_todolist = Some(100);
    w.set_cur_task_none();
    assert_eq!(w.todolists[0].current_task, None);
    assert_eq!(w.todolists[1].current_task, Some(9));
}

#[test]
fn shown_tasks_are_matching_roots() {
    let l = list();
    assert_eq!(l.shown_tasks(""), l.tasks);
    let shown = l.shown_tasks("milk");
    assert_eq!(flatten_tasks(&shown), vec![1, 2, 4, 5]);
    assert_eq!(flatten_tasks(&shown), l.navigable("milk"));
    assert!(l.shown_tasks("zzz").is_empty());
}

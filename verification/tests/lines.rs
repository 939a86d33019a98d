use tui_todo::date::Date;
use tui_todo::ui::lines::{
    highlight_ranges, merge, note_due, place, task_lines, today, DueNote, DueTone, TaskLine,
};
use tui_todo::ui::todolistwidget::{Task, TaskStatus, TodoWidget};
use tui_todo::ui::workspacewidget::{Workspace, WorkspaceWidget};

fn task(id: u128, name: &str, children: Vec<Task>) -> Task {
    let mut t = Task::with_id(id, name.to_string(), None);
    for c in children {
        t.add_child(c);
    }
    t
}

fn ws(id: u128, name: &str, children: Vec<Workspace>) -> Workspace {
    let mut w = Workspace::with_id(id, name.to_string());
    for c in children {
        w.add_child(c);
    }
    w
}

#[test]
fn ws_list_indents_and_marks() {
    let mut collapsed = ws(4, "d", vec![ws(5, "hidden", vec![])]);
    collapsed.expanded = false;
    let forest = vec![ws(1, "a", vec![ws(2, "b", vec![ws(3, "c", vec![])])]), collapsed, ws(6, "f", vec![])];
    assert_eq!(
        WorkspaceWidget::get_ws_list(&forest, 0),
        vec!["∨ a", "    ∨ b", "        c", "﹥ d", "    hidden", "f"]
    );
    assert_eq!(
        WorkspaceWidget::get_ws_list(&forest, 1),
        vec!["  ∨ a", "      ∨ b", "          c", "  ﹥ d", "      hidden", "  f"]
    );
    assert_eq!(
        WorkspaceWidget::get_ws_list(&forest, 0).len(),
        tui_todo::ui::workspacewidget::flatten_workspaces(&forest).len()
    );
    assert_eq!(WorkspaceWidget::get_ws_list(&Vec::new(), 3), Vec::<String>::new());
}

#[test]
fn max_len_counts_bytes_and_depth() {
    let tasks = vec![task(1, "abcd", vec![task(2, "abc", vec![task(3, "a", vec![])])]), task(4, "é", vec![])];
    assert_eq!(TodoWidget::find_max_tasks_len(&tasks, 1), 7);
    assert_eq!(TodoWidget::find_max_tasks_len(&tasks, 0), 5);
    assert_eq!(TodoWidget::find_max_tasks_len(&vec![task(4, "é", vec![])], 1), 4);
    assert_eq!(TodoWidget::find_max_tasks_len(&Vec::new(), 9), 0);
    let mut hidden = task(1, "a", vec![task(2, "abcdefgh", vec![])]);
    hidden.expanded = false;
    assert_eq!(TodoWidget::find_max_tasks_len(&vec![hidden], 1), 12);
}

#[test]
fn due_note_tones() {
    let today = Date { days: 1000 };
    let note = |d: i32| note_due(TaskStatus::Todo, Some(Date { days: d }), today);
    assert_eq!(note(997), Some(DueNote { days: 3, tone: DueTone::Overdue }));
    assert_eq!(note(999), Some(DueNote { days: 1, tone: DueTone::Overdue }));
    assert_eq!(note(1000), Some(DueNote { days: 0, tone: DueTone::Today }));
    assert_eq!(note(1001), Some(DueNote { days: 1, tone: DueTone::Tomorrow }));
    assert_eq!(note(1002), Some(DueNote { days: 2, tone: DueTone::Soon }));
    assert_eq!(note(1003), Some(DueNote { days: 3, tone: DueTone::Soon }));
    assert_eq!(note(1004), Some(DueNote { days: 4, tone: DueTone::ThisWeek }));
    assert_eq!(note(1006), Some(DueNote { days: 6, tone: DueTone::ThisWeek }));
    assert_eq!(note(1007), Some(DueNote { days: 7, tone: DueTone::Later }));
    assert_eq!(note(5000), Some(DueNote { days: 4000, tone: DueTone::Later }));
}

#[test]
fn due_note_only_for_open_tasks_with_a_date() {
    let today = Date { days: 1000 };
    let due = Some(Date { days: 1001 });
    assert!(note_due(TaskStatus::InProcess, due, today).is_some());
    assert_eq!(note_due(TaskStatus::Finished, due, today), None);
    assert_eq!(note_due(TaskStatus::Deprecated, due, today), None);
    assert_eq!(note_due(TaskStatus::Todo, None, today), None);
    let far = note_due(TaskStatus::Todo, Some(Date { days: i32::MIN }), Date { days: i32::MAX });
    assert_eq!(far, Some(DueNote { days: 4_294_967_295, tone: DueTone::Overdue }));
}

#[test]
fn place_keeps_order_and_is_stable() {
    let mut v = Vec::new();
    for r in [(5, 6), (1, 2), (3, 9), (1, 7), (5, 5), (0, 1)] {
        place(&mut v, r);
    }
    assert_eq!(v, vec![(0, 1), (1, 2), (1, 7), (3, 9), (5, 6), (5, 5)]);
}

#[test]
fn merge_joins_overlaps_but_not_neighbours() {
    assert_eq!(merge(&vec![(0, 2), (1, 4), (4, 6), (5, 5), (8, 9)]), vec![(0, 4), (4, 6), (8, 9)]);
    assert_eq!(merge(&vec![(0, 9), (1, 2), (3, 4)]), vec![(0, 9)]);
    assert_eq!(merge(&Vec::new()), Vec::new());
    assert_eq!(merge(&vec![(0, 0), (1, 1), (2, 2)]), vec![(0, 0), (1, 1), (2, 2)]);
}

#[test]
fn highlights_of_a_label() {
    assert_eq!(highlight_ranges("buy milk and milk", "milk"), vec![(4, 8), (13, 17)]);
    assert_eq!(highlight_ranges("buy milk", "buy milk"), vec![(0, 3), (4, 8)]);
    assert_eq!(highlight_ranges("abcabc", "abc bca"), vec![(0, 6)]);
    assert_eq!(highlight_ranges("buy milk", "tea"), Vec::new());
    assert_eq!(highlight_ranges("buy milk", ""), Vec::new());
    assert_eq!(highlight_ranges("é milk", "milk"), vec![(2, 6)]);
    assert_eq!(highlight_ranges("aaaa", "aa"), vec![(0, 2), (2, 4)]);
}

#[test]
fn highlights_with_an_empty_piece() {
    assert_eq!(highlight_ranges("ab", "a "), vec![(0, 1), (1, 1), (2, 2)]);
}

fn sample() -> Vec<Task> {
    let mut a = task(1, "buy milk", vec![task(2, "2%", vec![])]);
    a.due = Some(Date { days: 1003 });
    let mut b = task(3, "call", vec![task(4, "ask for milk", vec![])]);
    b.expanded = false;
    b.status = TaskStatus::Finished;
    b.due = Some(Date { days: 1000 });
    vec![a, b]
}

#[test]
fn plain_lines_have_one_line_per_task() {
    let tasks = sample();
    let width = TodoWidget::find_max_tasks_len(&tasks, 1);
    assert_eq!(width, 16);
    let lines = TodoWidget::get_task_list_item(&tasks, 1, width, Date { days: 1000 });
    assert_eq!(
        lines,
        vec![
            TaskLine {
                id: 1,
                status: TaskStatus::Todo,
                depth: 1,
                desc: "buy milk".to_string(),
                padding: 7,
                due: Some(DueNote { days: 3, tone: DueTone::Soon }),
                marks: vec![],
            },
            TaskLine {
                id: 2,
                status: TaskStatus::Todo,
                depth: 2,
                desc: "2%".to_string(),
                padding: 11,
                due: None,
                marks: vec![],
            },
            TaskLine {
                id: 3,
                status: TaskStatus::Finished,
                depth: 1,
                desc: "call".to_string(),
                padding: 11,
                due: None,
                marks: vec![],
            },
            TaskLine {
                id: 4,
                status: TaskStatus::Todo,
                depth: 2,
                desc: "ask for milk".to_string(),
                padding: 1,
                due: None,
                marks: vec![],
            },
        ]
    );
}

#[test]
fn search_lines_show_everything_with_marks() {
    let tasks = sample();
    let lines = TodoWidget::get_search_list_item("milk", &tasks, 1, 16, Date { days: 1000 });
    let ids: Vec<u128> = lines.iter().map(|l| l.id).collect();
    assert_eq!(ids, vec![1, 2, 3, 4]);
    assert_eq!(lines[0].marks, vec![(4, 8)]);
    assert_eq!(lines[1].marks, vec![]);
    assert_eq!(lines[3].marks, vec![(8, 12)]);
    assert_eq!(lines[3].depth, 2);
    assert_eq!(lines[3].padding, 1);
    assert_eq!(task_lines(&tasks, 1, 16, Date { days: 1000 }, Some("milk")), lines);
}

#[test]
fn today_is_in_the_calendar() {
    let t = today();
    assert!(tui_todo::date::MIN_DAYS <= t.days && t.days <= tui_todo::date::MAX_DAYS);
}

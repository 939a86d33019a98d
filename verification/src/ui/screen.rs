//! The state that the renderer owns, every forest included: how it acts on
//! each message and on each answer to a prompt.

pub use crate::ui::model::{
    answer_text, done_text, drop_lists, first_match, first_question, focused_pane, in_mode, redraw,
    target_pane, task_leaf, ui_act, ui_answer, ui_step, workspace_leaf, AnswerView, ConfirmKind,
    Outcome, Pending, Request, UiView,
};

use crate::appstate::{AppState, CurrentFocus, CurrentMode};
use crate::date::{local_today, Date};
use crate::due::{resolve_due, DueChange};
use crate::ids::new_id;
use crate::tree::{contains_id, flatten, with_label};
use crate::ui::helpwidget::HelpWidget;
use crate::ui::invariants::{
    lemma_answer_wf, lemma_changes_keep_ids, lemma_confirmed_wf, lemma_due_change_wf,
    lemma_empty_wf, lemma_filter_wf, lemma_focus_wf, lemma_moving_wf, lemma_pane_change_wf,
    lemma_panes_only, lemma_rebound_wf, lemma_step_wf, lemma_stepping_wf, lemma_task_change_wf,
    lemma_with_task_wf, lemma_with_text_wf, lemma_with_workspace_wf, lemma_without_task_wf,
    lemma_without_workspace_wf,
};
use crate::ui::prompt::PromptWidget;
use crate::ui::todolistwidget::{
    find_task, flatten_tasks, lemma_task_forest, list_keys, list_views, task_forest, with_status,
    ListView, Task, TaskEdit, TaskStatus, TasksView, TodoList, TodoWidget,
};
use crate::ui::workspacewidget::{
    flatten_workspaces, lemma_workspace_forest, PaneView, Workspace, WorkspaceEdit, WorkspaceType,
    WorkspaceWidget,
};
use crate::ui::{position_of, SelectAction, SelectBF, UiMessage, WidgetAction};
use vstd::prelude::*;
use vstd::string::StringExecFns;

verus! {

/// The renderer's state: the two workspace panes, the task pane, the help
/// page, the status line, and the prompt that is open.
#[derive(Debug, PartialEq, Eq)]
pub struct Ui {
    /// The active workspaces.
    pub workspace: WorkspaceWidget,
    /// The task lists of all workspaces.
    pub todolist: TodoWidget,
    /// The archived workspaces.
    pub archived_ws: WorkspaceWidget,
    pub helpwidget: HelpWidget,
    pub prompt: PromptWidget,
    /// The prompt that is open.
    pub pending: Pending,
}

impl View for Ui {
    type V = UiView;

    open spec fn view(&self) -> UiView {
        UiView {
            workspace: self.workspace@,
            todolist: self.todolist@,
            archived_ws: self.archived_ws@,
            help: self.helpwidget,
            padding: self.prompt.padding@,
            prompt: self.prompt.desc@,
            pending: self.pending,
        }
    }
}

/// The answer to a prompt.
#[derive(Debug, PartialEq, Eq)]
pub enum Answer {
    /// The text that was entered; empty when the prompt was dismissed.
    Text(String),
    Yes,
    No,
}

impl View for Answer {
    type V = AnswerView;

    open spec fn view(&self) -> AnswerView {
        match self {
            Answer::Text(s) => AnswerView::Text(s@),
            Answer::Yes => AnswerView::Yes,
            Answer::No => AnswerView::No,
        }
    }
}
impl Ui {
    /// Empty panes, the active one focused; the help page at its top; the
    /// status line in its starting state; no prompt open.
    pub fn new() -> (ui: Self)
        ensures
            ui@.workspace == PaneView::empty(WorkspaceType::Normal),
            ui@.archived_ws == PaneView::empty(WorkspaceType::Archived),
            ui@.todolist == (TasksView {
                lists: Seq::empty(),
                current: None,
                focused: false,
                search: Seq::empty(),
            }),
            ui@.help.scroll == 0,
            ui@.help.keymap.focus == CurrentFocus::Workspace,
            ui@.help.keymap.mode == CurrentMode::Normal,
            ui@.prompt == "In Normal Mode"@,
            ui@.pending == Pending::Nothing,
            ui@.wf(),
    {
        let ui = Ui {
            workspace: WorkspaceWidget::new(WorkspaceType::Normal),
            todolist: TodoWidget::new(),
            archived_ws: WorkspaceWidget::new(WorkspaceType::Archived),
            helpwidget: HelpWidget::new(),
            prompt: PromptWidget::new(),
            pending: Pending::Nothing,
        };
        proof {
            lemma_empty_wf(ui@);
        }
        ui
    }

    /// Re-binds every selection after the forests have been loaded or
    /// replaced.
    pub fn refresh_current(&mut self)
        ensures
            final(self)@ == old(self)@.rebound(),
            old(self)@.ids_unique() && old(self)@.lists_match() ==> final(self)@.wf(),
    {
        proof {
            if self@.ids_unique() && self@.lists_match() {
                lemma_rebound_wf(self@);
            }
        }
        self.workspace.refresh_current();
        self.archived_ws.refresh_current();
        self.todolist.refresh_all();
        self.todolist.change_current_list(&self.workspace.current_workspace);
        self.helpwidget.keymap.focus = if self.archived_ws.focused {
            CurrentFocus::ArchivedWorkspace
        } else if self.todolist.focused {
            CurrentFocus::TodoList
        } else {
            CurrentFocus::Workspace
        };
    }

    /// Shows pane `focus`, and no other, as focused.
    pub fn focus_pane(&mut self, focus: CurrentFocus)
        ensures
            final(self)@ == old(self)@.focusing(focus),
            old(self)@.wf() ==> final(self)@.wf(),
    {
        proof {
            if self@.wf() {
                lemma_focus_wf(self@, focus, false);
            }
        }
        self.workspace.focused = matches!(focus, CurrentFocus::Workspace);
        self.todolist.focused = matches!(focus, CurrentFocus::TodoList);
        self.archived_ws.focused = matches!(focus, CurrentFocus::ArchivedWorkspace);
        self.helpwidget.keymap.focus = focus;
    }

    /// Focuses the task pane and puts on display the list of the workspace
    /// selected in the active pane, or in the archive when `archived`.
    pub fn enter_workspace(&mut self, archived: bool)
        ensures
            final(self)@ == old(self)@.entering(archived),
            old(self)@.wf() ==> final(self)@.wf(),
    {
        proof {
            if self@.wf() {
                lemma_focus_wf(self@, CurrentFocus::TodoList, archived);
            }
        }
        self.focus_pane(CurrentFocus::TodoList);
        let source = if archived {
            self.archived_ws.current_workspace
        } else {
            self.workspace.current_workspace
        };
        self.todolist.change_current_list(&source);
    }

    /// Moves the selection one step, or scrolls the help page while it is
    /// open.
    pub fn select(&mut self, apps: &AppState, bf: SelectBF)
        ensures
            final(self)@ == old(self)@.selecting(*apps, bf),
            old(self)@.wf() ==> final(self)@.wf(),
    {
        proof {
            if self@.wf() {
                lemma_panes_only(self@, self@.scrolled(bf));
                lemma_stepping_wf(self@, apps.current_focus, bf);
            }
        }
        if matches!(apps.current_mode, CurrentMode::Help) {
            match bf {
                SelectBF::Back => self.helpwidget.scroll_up(),
                SelectBF::Forward => self.helpwidget.scroll_down(),
            }
            return ;
        }
        match apps.current_focus {
            CurrentFocus::Workspace => {
                let target = self.workspace.get_selected_bf(bf);
                self.workspace.current_workspace = target;
                self.todolist.change_current_list(&target);
            },
            CurrentFocus::ArchivedWorkspace => {
                let target = self.archived_ws.get_selected_bf(bf);
                self.archived_ws.current_workspace = target;
                self.todolist.change_current_list(&target);
            },
            CurrentFocus::TodoList => {
                let target = self.todolist.get_selected_bf(bf);
                let ghost stepped = self.todolist@;
                match self.todolist.current_index() {
                    Some(k) => {
                        self.todolist.todolists[k].current_task = target;
                        proof {
                            assert(self.todolist@.lists =~= stepped.lists.update(
                                k as int,
                                ListView { current: target, ..stepped.lists[k as int] },
                            ));
                        }
                    },
                    None => {},
                }
            },
        }
    }

    /// Gives the selected task of the list on display, and every task below
    /// it, the status `status`.
    pub fn mark_status(&mut self, status: TaskStatus)
        ensures
            final(self)@ == old(self)@.marking(status),
            old(self)@.wf() ==> final(self)@.wf(),
    {
        proof {
            if self@.wf() {
                lemma_changes_keep_ids(Seq::empty(), status, None);
                lemma_task_change_wf(self@, with_status(status));
            }
        }
        match self.todolist.current_index() {
            Some(k) => {
                let _ = self.todolist.todolists[k].edit_current(TaskEdit::SetStatus(status));
                proof {
                    assert(self.todolist@.lists =~= old(self).todolist@.lists.update(
                        k as int,
                        old(self).todolist@.lists[k as int].with_current_changed(
                            with_status(status),
                        ),
                    ));
                }
            },
            None => {},
        }
    }
}

/// Deletes the selected workspace of `pane`, with everything below it, and
/// the task lists keyed to any of them.
fn remove_selected(pane: &mut WorkspaceWidget, lists: &mut TodoWidget)
    ensures
        final(pane)@ == old(pane)@.without_current(),
        final(lists)@ == drop_lists(
            old(lists)@,
            old(pane)@.selected_ids(),
            old(pane)@.selected_ids().len(),
        ),
{
    let mut gone: Vec<u128> = Vec::new();
    match pane.selected() {
        Some(ws) => {
            gone.push(ws.id);
            let mut below = flatten_workspaces(&ws.children);
            gone.append(&mut below);
        },
        None => {},
    }
    proof {
        match old(pane)@.selected() {
            Some(t) => {
                assert(gone@ =~= seq![t.id] + flatten(t.children));
            },
            None => {
                assert(gone@ =~= Seq::<u128>::empty());
            },
        }
    }
    pane.delete_current();
    let mut i: usize = 0;
    while i < gone.len()
        invariant
            i <= gone.len(),
            lists@ == drop_lists(old(lists)@, gone@, i as nat),
        decreases gone.len() - i,
    {
        lists.delete_list(gone[i]);
        i += 1;
    }
}

/// Moves the selected workspace of `source`, with everything below it, to
/// the end of `target`.
fn move_selected(source: &mut WorkspaceWidget, target: &mut WorkspaceWidget)
    ensures
        final(source)@ == old(source)@.detached(),
        final(target)@ == match old(source)@.selected() {
            Some(t) => old(target)@.with_root(t),
            None => old(target)@,
        },
{
    match source.take_current() {
        Some(ws) => target.add_workspace(ws),
        None => {},
    }
}

impl Ui {
    /// Whether some workspace, task list or task already goes by `id`.
    pub fn id_in_use(&self, id: u128) -> (used: bool)
        ensures
            used == self@.uses(id),
    {
        let active = flatten_workspaces(&self.workspace.workspaces);
        if position_of(&active, id).is_some() {
            return true;
        }
        let archived = flatten_workspaces(&self.archived_ws.workspaces);
        if position_of(&archived, id).is_some() {
            return true;
        }
        let ghost lists = self@.todolist.lists;
        let mut i: usize = 0;
        while i < self.todolist.todolists.len()
            invariant
                i <= self.todolist.todolists.len(),
                lists == list_views(self.todolist.todolists@),
                forall|j: int|
                    0 <= j < i ==> (#[trigger] lists[j]).workspace != id && !contains_id(
                        lists[j].forest,
                        id,
                    ),
            decreases self.todolist.todolists.len() - i,
        {
            let list = &self.todolist.todolists[i];
            if list.workspace == id {
                assert(list_keys(lists)[i as int] == id);
                return true;
            }
            let tasks = flatten_tasks(&list.tasks);
            if position_of(&tasks, id).is_some() {
                assert(contains_id(lists[i as int].forest, id));
                return true;
            }
            i += 1;
        }
        proof {
            if list_keys(lists).contains(id) {
                let j = choose|j: int| 0 <= j < lists.len() && list_keys(lists)[j] == id;
                assert(lists[j].workspace == id);
            }
        }
        false
    }

    /// The selected task of the list on display, when a task carries the
    /// selected id.
    pub fn selected_task(&self) -> (hit: Option<&Task>)
        ensures
            match hit {
                Some(t) => self@.todolist.selected() == Some(t@),
                None => self@.todolist.selected() is None,
            },
    {
        match self.todolist.current_index() {
            Some(k) => match self.todolist.todolists[k].current_task {
                Some(id) => find_task(&self.todolist.todolists[k].tasks, id),
                None => None,
            },
            None => None,
        }
    }

    /// The selected workspace of pane `focus`, the active pane standing in
    /// for the task pane.
    pub fn selected_workspace(&self, focus: CurrentFocus) -> (hit: Option<&Workspace>)
        ensures
            match hit {
                Some(ws) => self@.pane(focus).selected() == Some(ws@),
                None => self@.pane(focus).selected() is None,
            },
    {
        match focus {
            CurrentFocus::ArchivedWorkspace => self.archived_ws.selected(),
            _ => self.workspace.selected(),
        }
    }

    /// Whether pane `focus` has a selection that is still there.
    pub fn has_selection(&self, focus: CurrentFocus) -> (yes: bool)
        ensures
            yes == self@.has_selection(focus),
    {
        match focus {
            CurrentFocus::TodoList => self.selected_task().is_some(),
            _ => self.selected_workspace(focus).is_some(),
        }
    }

    /// Whether the selection of pane `focus` is not empty, and the second
    /// question to ask if so.
    pub fn selection_not_empty(&self, focus: CurrentFocus) -> (out: (bool, ConfirmKind))
        ensures
            out.0 == self@.selection_not_empty(focus),
            out.1 == self@.second_question(focus),
    {
        match focus {
            CurrentFocus::TodoList => match self.selected_task() {
                Some(t) => {
                    proof {
                        lemma_task_forest(t.children@);
                    }
                    (t.children.len() > 0, ConfirmKind::NotEmpty(CurrentFocus::TodoList))
                },
                None => (false, ConfirmKind::NotEmpty(CurrentFocus::TodoList)),
            },
            _ => match self.selected_workspace(focus) {
                Some(ws) => {
                    proof {
                        lemma_workspace_forest(ws.children@);
                    }
                    let has_tasks = ws.has_todolist(&self.todolist);
                    proof {
                        let lists = self@.todolist.lists;
                        assert forall|i: int| 0 <= i < lists.len() implies (
                        (#[trigger] lists[i]).forest.len()
                            == self.todolist.todolists@[i].tasks@.len()) by {
                            lemma_task_forest(self.todolist.todolists@[i].tasks@);
                        }
                        if has_tasks {
                            let i = choose|i: int|
                                0 <= i < self.todolist.todolists@.len() && (
                                #[trigger] self.todolist.todolists@[i]).workspace == ws.id
                                    && self.todolist.todolists@[i].tasks@.len() > 0;
                            assert(lists[i].workspace == ws.id);
                        }
                        if self@.todolist.has_tasks(ws.id) {
                            let i = choose|i: int|
                                0 <= i < lists.len() && (#[trigger] lists[i]).workspace == ws.id
                                    && lists[i].forest.len() > 0;
                            assert(self.todolist.todolists@[i].workspace == ws.id);
                        }
                    }
                    if ws.children.len() > 0 {
                        (true, ConfirmKind::NotEmpty(focus))
                    } else {
                        (has_tasks, ConfirmKind::NotEmpty(CurrentFocus::TodoList))
                    }
                },
                None => (false, ConfirmKind::NotEmpty(CurrentFocus::TodoList)),
            },
        }
    }

    /// Adds a workspace `id` named `name` as the last root of the active
    /// pane, and an empty task list keyed to it.
    pub fn add_workspace(&mut self, id: u128, name: String)
        ensures
            final(self)@ == old(self)@.with_workspace(id, name@),
            old(self)@.wf() && !old(self)@.uses(id) ==> final(self)@.wf(),
    {
        proof {
            if self@.wf() && !self@.uses(id) {
                lemma_with_workspace_wf(self@, id, name@);
            }
        }
        self.workspace.add_workspace(Workspace::with_id(id, name));
        self.todolist.add_list(TodoList::new(id));
    }

    /// Adds a workspace `id` named `name` below the selected active
    /// workspace, and an empty task list keyed to it.
    pub fn add_subworkspace(&mut self, id: u128, name: String)
        ensures
            final(self)@ == old(self)@.with_subworkspace(id, name@),
            old(self)@.wf() && !old(self)@.uses(id) ==> final(self)@.wf(),
    {
        proof {
            if self@.wf() && !self@.uses(id) {
                lemma_with_workspace_wf(self@, id, name@);
            }
        }
        self.workspace.add_child_workspace(Workspace::with_id(id, name));
        self.todolist.add_list(TodoList::new(id));
    }

    /// Adds a task `id` named `name` as the last root of the list on
    /// display. With no list on display, first makes a workspace `ws` named
    /// `Workspace`, selects it, and puts its list on display.
    pub fn add_task(&mut self, id: u128, ws: u128, name: String)
        ensures
            final(self)@ == old(self)@.with_task(id, ws, name@),
            old(self)@.wf() && !old(self)@.uses(id) && !old(self)@.uses(ws) && id != ws
                ==> final(self)@.wf(),
    {
        proof {
            if self@.wf() && !self@.uses(id) {
                lemma_with_task_wf(self@, id, ws, name@);
            }
        }
        let task = Task::with_id(id, name, None);
        match self.todolist.current_index() {
            Some(k) => {
                self.todolist.todolists[k].add_task(task);
                proof {
                    assert(self.todolist@.lists =~= old(self).todolist@.lists.update(
                        k as int,
                        old(self).todolist@.lists[k as int].with_root(task@),
                    ));
                }
            },
            None => {
                self.workspace.add_workspace(Workspace::with_id(ws, String::from_str("Workspace")));
                self.workspace.current_workspace = Some(ws);
                let mut list = TodoList::new(ws);
                list.add_task(task);
                self.todolist.add_list(list);
                self.todolist.current_todolist = Some(ws);
            },
        }
    }

    /// Adds a task `id` named `name` below the selected task of the list on
    /// display; as a root of that list when nothing is selected. Does
    /// nothing with no list on display.
    pub fn add_subtask(&mut self, id: u128, name: String)
        ensures
            final(self)@ == old(self)@.with_subtask(id, name@),
            old(self)@.wf() && !old(self)@.uses(id) ==> final(self)@.wf(),
    {
        proof {
            if self@.wf() && !self@.uses(id) {
                lemma_with_task_wf(self@, id, id, name@);
            }
        }
        let task = Task::with_id(id, name, None);
        match self.todolist.current_index() {
            Some(k) => {
                self.todolist.todolists[k].add_child_task(task);
                proof {
                    assert(self.todolist@.lists =~= old(self).todolist@.lists.update(
                        k as int,
                        old(self).todolist@.lists[k as int].with_child(task@),
                    ));
                }
            },
            None => {},
        }
    }

    /// Renames the selection of pane `focus`.
    pub fn rename_selected(&mut self, focus: CurrentFocus, name: String)
        ensures
            final(self)@ == old(self)@.renaming(focus, name@),
            old(self)@.wf() ==> final(self)@.wf(),
    {
        proof {
            if self@.wf() {
                lemma_changes_keep_ids(name@, TaskStatus::Todo, None);
                if focus == CurrentFocus::TodoList {
                    lemma_task_change_wf(self@, with_label(name@));
                } else {
                    lemma_pane_change_wf(self@, focus, with_label(name@));
                }
            }
        }
        match focus {
            CurrentFocus::TodoList => {
                self.edit_selected_task(TaskEdit::Rename(name));
            },
            CurrentFocus::Workspace => {
                let _ = self.workspace.edit_current(WorkspaceEdit::Rename(name));
            },
            CurrentFocus::ArchivedWorkspace => {
                let _ = self.archived_ws.edit_current(WorkspaceEdit::Rename(name));
            },
        }
    }

    /// Applies `edit` to the selected task of the list on display.
    pub fn edit_selected_task(&mut self, edit: TaskEdit)
        ensures
            final(self)@ == (UiView {
                todolist: old(self)@.todolist.with_current(
                    |l: ListView| l.with_current_changed(edit.change()),
                ),
                ..old(self)@
            }),
    {
        match self.todolist.current_index() {
            Some(k) => {
                let _ = self.todolist.todolists[k].edit_current(edit);
                proof {
                    assert(self.todolist@.lists =~= old(self).todolist@.lists.update(
                        k as int,
                        old(self).todolist@.lists[k as int].with_current_changed(edit.change()),
                    ));
                }
            },
            None => {},
        }
    }

    /// Deletes the selected workspace of pane `focus`, everything below it,
    /// and the task lists of all of them.
    pub fn delete_selected_workspace(&mut self, focus: CurrentFocus)
        ensures
            final(self)@ == old(self)@.without_workspace(focus),
            old(self)@.wf() ==> final(self)@.wf(),
    {
        proof {
            if self@.wf() {
                lemma_without_workspace_wf(self@, focus);
            }
        }
        match focus {
            CurrentFocus::ArchivedWorkspace => remove_selected(
                &mut self.archived_ws,
                &mut self.todolist,
            ),
            _ => remove_selected(&mut self.workspace, &mut self.todolist),
        }
    }

    /// Deletes the selected task of the list on display and everything
    /// below it.
    pub fn delete_selected_task(&mut self)
        ensures
            final(self)@ == old(self)@.without_task(),
            old(self)@.wf() ==> final(self)@.wf(),
    {
        proof {
            if self@.wf() {
                lemma_without_task_wf(self@);
            }
        }
        match self.todolist.current_index() {
            Some(k) => {
                self.todolist.todolists[k].delete_task();
                proof {
                    assert(self.todolist@.lists =~= old(self).todolist@.lists.update(
                        k as int,
                        old(self).todolist@.lists[k as int].without_current(),
                    ));
                }
            },
            None => {},
        }
    }

    /// Moves the selected workspace of pane `from`, with everything below
    /// it, to the end of the other workspace pane.
    pub fn move_subtree(&mut self, from: CurrentFocus)
        ensures
            final(self)@ == old(self)@.moving(from),
            old(self)@.wf() ==> final(self)@.wf(),
    {
        proof {
            if self@.wf() {
                lemma_moving_wf(self@, from);
            }
        }
        match from {
            CurrentFocus::ArchivedWorkspace => move_selected(
                &mut self.archived_ws,
                &mut self.workspace,
            ),
            _ => move_selected(&mut self.workspace, &mut self.archived_ws),
        }
    }

    /// Makes `search` the filter and re-anchors the list on display on what
    /// the filter lets through.
    pub fn apply_filter(&mut self, search: String)
        ensures
            final(self)@ == old(self)@.filtering(search@),
            old(self)@.wf() ==> final(self)@.wf(),
    {
        proof {
            if self@.wf() {
                lemma_filter_wf(self@, search@);
            }
        }
        match self.todolist.current_index() {
            Some(k) => {
                let list = &mut self.todolist.todolists[k];
                list.state = Some(0);
                let ghost forest = list@.forest;
                let mut hit: Option<u128> = None;
                let mut i: usize = 0;
                proof {
                    lemma_task_forest(list.tasks@);
                }
                while i < list.tasks.len() && hit.is_none()
                    invariant
                        i <= list.tasks.len(),
                        forest == task_forest(list.tasks@),
                        forest.len() == list.tasks.len(),
                        hit is None ==> first_match(forest, i as int, search@) == first_match(
                            forest,
                            0,
                            search@,
                        ),
                        hit is Some ==> first_match(forest, 0, search@) == hit,
                    decreases list.tasks.len() - i + if hit is None { 1int } else { 0int },
                {
                    proof {
                        lemma_task_forest(list.tasks@);
                    }
                    if list.tasks[i].is_target(search.clone()) {
                        hit = Some(list.tasks[i].id);
                    } else {
                        i += 1;
                    }
                }
                if hit.is_some() {
                    list.current_task = hit;
                }
                proof {
                    assert(self.todolist@.lists =~= old(self).todolist@.lists.update(
                        k as int,
                        old(self).todolist@.lists[k as int].filtered(search@),
                    ));
                }
            },
            None => {},
        }
        self.todolist.search_string = search;
    }

    /// Drops the filter, and the cursor of the list on display.
    pub fn clear_filter(&mut self)
        ensures
            final(self)@ == old(self)@.unfiltered(),
            old(self)@.wf() ==> final(self)@.wf(),
    {
        proof {
            if self@.wf() {
                lemma_filter_wf(self@, Seq::empty());
            }
        }
        match self.todolist.current_index() {
            Some(k) => {
                self.todolist.todolists[k].state = None;
                proof {
                    assert(self.todolist@.lists =~= old(self).todolist@.lists.update(
                        k as int,
                        ListView { cursor: None, ..old(self).todolist@.lists[k as int] },
                    ));
                }
            },
            None => {},
        }
        self.todolist.search_string = String::new();
    }

    /// Changes the due date of the selected task as `change` says.
    pub fn apply_due(&mut self, change: DueChange)
        ensures
            final(self)@ == old(self)@.with_due_change(change),
            old(self)@.wf() ==> final(self)@.wf(),
    {
        proof {
            if self@.wf() {
                lemma_due_change_wf(self@, change);
            }
        }
        match change {
            DueChange::Keep => {},
            DueChange::Clear => self.edit_selected_task(TaskEdit::SetDue(None)),
            DueChange::On(d) => self.edit_selected_task(TaskEdit::SetDue(Some(d))),
        }
    }
}

impl Ui {
    /// Sets the status line to what `action` leaves it saying.
    pub fn report(&mut self, action: WidgetAction)
        ensures
            final(self)@ == old(self)@.reporting(action),
            old(self)@.wf() ==> final(self)@.wf(),
    {
        proof {
            lemma_panes_only(self@, self@.reporting(action));
        }
        match action {
            WidgetAction::AddWorkspace | WidgetAction::AddWorkspaceChild => self.prompt.say(
                "Workspace Added !",
            ),
            WidgetAction::AddTask | WidgetAction::AddTaskChild => self.prompt.say("Task Added !"),
            WidgetAction::DeleteWorkspace | WidgetAction::DeleteArchivedWorkspace => {
                self.prompt.say("Workspace Deleted !")
            },
            WidgetAction::DeleteTask => self.prompt.say("Task Deleted !"),
            _ => {},
        }
    }

    /// Handles one widget action up to its first prompt.
    pub fn act(&mut self, apps: &mut AppState, action: WidgetAction) -> (request: Request)
        ensures
            (Outcome { ui: final(self)@, apps: *final(apps), request }) == ui_act(
                old(self)@,
                *old(apps),
                action,
            ),
    {
        match action {
            WidgetAction::FocusWorkspace => {
                self.focus_pane(CurrentFocus::Workspace);
                Request::Redraw
            },
            WidgetAction::FocusTodolist => {
                self.focus_pane(CurrentFocus::TodoList);
                Request::Redraw
            },
            WidgetAction::FocusArchivedWorkspace => {
                self.focus_pane(CurrentFocus::ArchivedWorkspace);
                Request::Redraw
            },
            WidgetAction::AddWorkspace | WidgetAction::AddWorkspaceChild | WidgetAction::AddTask
            | WidgetAction::AddTaskChild => {
                self.pending = Pending::Text(action);
                Request::AskText(action)
            },
            WidgetAction::SelectUp => {
                self.select(apps, SelectBF::Back);
                Request::Redraw
            },
            WidgetAction::SelectDown => {
                self.select(apps, SelectBF::Forward);
                Request::Redraw
            },
            WidgetAction::EnterWorkspace => {
                self.enter_workspace(false);
                Request::Redraw
            },
            WidgetAction::EnterArchivedWorkspace => {
                self.enter_workspace(true);
                Request::Redraw
            },
            WidgetAction::DeleteWorkspace | WidgetAction::DeleteArchivedWorkspace
            | WidgetAction::DeleteTask => {
                self.pending = Pending::Confirm(action, false);
                Request::AskConfirm(ConfirmKind::Delete)
            },
            WidgetAction::ArchiveWS => {
                if self.has_selection(CurrentFocus::Workspace) {
                    self.pending = Pending::Confirm(action, false);
                    Request::AskConfirm(ConfirmKind::Archive)
                } else {
                    apps.current_mode = CurrentMode::Normal;
                    Request::Redraw
                }
            },
            WidgetAction::Rename(focus) => {
                if self.has_selection(focus) {
                    self.pending = Pending::Confirm(action, false);
                    Request::AskConfirm(ConfirmKind::Rename)
                } else {
                    apps.current_mode = CurrentMode::Normal;
                    Request::Redraw
                }
            },
            WidgetAction::MarkTaskStatus(status) => {
                self.mark_status(status);
                Request::Redraw
            },
            WidgetAction::RecoveryWS => {
                self.move_subtree(CurrentFocus::ArchivedWorkspace);
                Request::Redraw
            },
            WidgetAction::Filter => {
                if self.todolist.current_index().is_some() {
                    self.pending = Pending::Filter;
                    Request::AskFilter
                } else {
                    self.prompt.say("In Search Mode !");
                    apps.current_mode = CurrentMode::Search;
                    Request::Redraw
                }
            },
            WidgetAction::ExitFilter => {
                self.clear_filter();
                apps.current_mode = CurrentMode::Normal;
                Request::Redraw
            },
            WidgetAction::Help => {
                self.helpwidget.keymap.mode = CurrentMode::Help;
                self.prompt.say("In Help Mode !");
                Request::Redraw
            },
            WidgetAction::ExitHelp => {
                self.helpwidget.keymap.mode = CurrentMode::Normal;
                self.prompt.say("In Normal Mode !");
                Request::Redraw
            },
            WidgetAction::Due => {
                let due = match self.selected_task() {
                    Some(t) => Some(t.due),
                    None => None,
                };
                match due {
                    Some(present) => {
                        self.pending = Pending::Due(apps.current_mode);
                        apps.current_mode = CurrentMode::Insert;
                        Request::AskDue(present)
                    },
                    None => {
                        self.prompt.say("Set Due Date !");
                        Request::Redraw
                    },
                }
            },
        }
    }

    /// Handles one message: acts on the forests at once, or opens the
    /// prompt that the action needs first. A sound state stays sound.
    pub fn handle_uimsg(&mut self, apps: &mut AppState, msg: UiMessage) -> (request: Request)
        ensures
            (Outcome { ui: final(self)@, apps: *final(apps), request }) == ui_step(
                old(self)@,
                *old(apps),
                msg,
            ),
            old(self)@.wf() ==> final(self)@.wf(),
    {
        proof {
            if self@.wf() {
                lemma_step_wf(self@, *apps, msg);
            }
        }
        match msg {
            UiMessage::Update | UiMessage::UpdateUi => Request::Redraw,
            UiMessage::SaveData => {
                self.prompt.say("Data Saved !");
                Request::Save
            },
            UiMessage::WAction(action) => self.act(apps, action),
        }
    }

    /// Adds or renames what the text `name`, given for `action`, names.
    /// Nothing is added under an id that is already in use.
    pub fn apply_text(&mut self, action: WidgetAction, name: String, ids: (u128, u128))
        ensures
            final(self)@ == old(self)@.with_text(action, name@, ids),
            old(self)@.wf() ==> final(self)@.wf(),
    {
        proof {
            if self@.wf() {
                lemma_with_text_wf(self@, action, name@, ids);
            }
        }
        match action {
            WidgetAction::AddWorkspace => {
                if !self.id_in_use(ids.0) {
                    self.add_workspace(ids.0, name);
                }
            },
            WidgetAction::AddWorkspaceChild => {
                if !self.id_in_use(ids.0) {
                    self.add_subworkspace(ids.0, name);
                }
            },
            WidgetAction::AddTask => {
                if !self.id_in_use(ids.0) && !self.id_in_use(ids.1) && ids.0 != ids.1 {
                    self.add_task(ids.0, ids.1, name);
                }
            },
            WidgetAction::AddTaskChild => {
                if !self.id_in_use(ids.0) {
                    self.add_subtask(ids.0, name);
                }
            },
            WidgetAction::Rename(focus) => self.rename_selected(focus, name),
            _ => {},
        }
    }

    /// Carries out `action` once every question has been answered with yes.
    pub fn confirm(&mut self, action: WidgetAction)
        ensures
            final(self)@ == old(self)@.confirmed(action),
            old(self)@.wf() ==> final(self)@.wf(),
    {
        proof {
            if self@.wf() {
                lemma_confirmed_wf(self@, action);
            }
        }
        match action {
            WidgetAction::DeleteWorkspace => self.delete_selected_workspace(
                CurrentFocus::Workspace,
            ),
            WidgetAction::DeleteArchivedWorkspace => self.delete_selected_workspace(
                CurrentFocus::ArchivedWorkspace,
            ),
            WidgetAction::DeleteTask => self.delete_selected_task(),
            WidgetAction::ArchiveWS => self.move_subtree(CurrentFocus::Workspace),
            _ => {},
        }
    }

    /// Handles the answer to the open prompt, with `ids` as the fresh ids
    /// for what it may add and `today` as the day it is given. A sound
    /// state stays sound.
    pub fn handle_answer_with(
        &mut self,
        apps: &mut AppState,
        answer: Answer,
        ids: (u128, u128),
        today: Date,
    ) -> (request: Request)
        ensures
            (Outcome { ui: final(self)@, apps: *final(apps), request }) == ui_answer(
                old(self)@,
                *old(apps),
                answer@,
                ids,
                today,
            ),
            old(self)@.wf() ==> final(self)@.wf(),
    {
        proof {
            if self@.wf() {
                lemma_answer_wf(self@, *apps, answer@, ids, today);
            }
        }
        let pending = self.pending;
        let yes = matches!(answer, Answer::Yes);
        let text = match answer {
            Answer::Text(s) => s,
            _ => String::new(),
        };
        match pending {
            Pending::Nothing => Request::Redraw,
            Pending::Text(action) => {
                if !text.as_str().is_empty() {
                    self.apply_text(action, text, ids);
                }
                self.report(action);
                self.pending = Pending::Nothing;
                apps.current_mode = CurrentMode::Normal;
                Request::Redraw
            },
            Pending::Confirm(action, second) => {
                if !yes {
                    self.report(action);
                    self.pending = Pending::Nothing;
                    apps.current_mode = CurrentMode::Normal;
                    return Request::Redraw;
                }
                let target = match action {
                    WidgetAction::DeleteArchivedWorkspace => CurrentFocus::ArchivedWorkspace,
                    WidgetAction::DeleteTask => CurrentFocus::TodoList,
                    WidgetAction::Rename(focus) => focus,
                    _ => CurrentFocus::Workspace,
                };
                let (not_empty, question) = self.selection_not_empty(target);
                if !second && not_empty {
                    self.pending = Pending::Confirm(action, true);
                    return Request::AskConfirm(question);
                }
                match action {
                    WidgetAction::Rename(_) => {
                        self.pending = Pending::Text(action);
                        Request::AskText(action)
                    },
                    _ => {
                        self.confirm(action);
                        self.report(action);
                        self.pending = Pending::Nothing;
                        apps.current_mode = CurrentMode::Normal;
                        Request::Redraw
                    },
                }
            },
            Pending::Due(origin) => {
                let change = resolve_due(text.as_str(), today);
                self.apply_due(change);
                self.prompt.say("Set Due Date !");
                self.pending = Pending::Nothing;
                apps.current_mode = origin;
                Request::Redraw
            },
            Pending::Filter => {
                self.apply_filter(text);
                self.prompt.say("In Search Mode !");
                self.pending = Pending::Nothing;
                apps.current_mode = CurrentMode::Search;
                Request::Redraw
            },
        }
    }

    /// Handles the answer to the open prompt. What it adds gets ids drawn
    /// at random, and a due date counts from today. A sound state stays
    /// sound.
    pub fn handle_answer(&mut self, apps: &mut AppState, answer: Answer) -> (request: Request)
        ensures
            exists|ids: (u128, u128), today: Date|
                (Outcome { ui: final(self)@, apps: *final(apps), request }) == #[trigger] ui_answer(
                    old(self)@,
                    *old(apps),
                    answer@,
                    ids,
                    today,
                ),
            old(self)@.wf() ==> final(self)@.wf(),
    {
        let ids = (new_id(), new_id());
        let today = local_today();
        let ghost before = self@;
        let ghost shared = *apps;
        let ghost given = answer@;
        let request = self.handle_answer_with(apps, answer, ids, today);
        proof {
            assert((Outcome { ui: self@, apps: *apps, request }) == ui_answer(
                before,
                shared,
                given,
                ids,
                today,
            ));
        }
        request
    }
}

} // verus!

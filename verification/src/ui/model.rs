//! The model of the renderer's state, and what each message and each answer
//! to a prompt does to it.

use crate::appstate::{AppState, CurrentFocus, CurrentMode};
use crate::date::Date;
use crate::due::{due_change, DueChange};
use crate::search::matches_search;
use crate::tree::{contains_id, find, with_label, Tree};
use crate::ui::helpwidget::HelpWidget;
use crate::ui::keymap::KeymapWidget;
use crate::ui::todolistwidget::{
    list_keys, with_due, with_status, ListView, TaskInfo, TaskStatus, TasksView,
};
use crate::ui::workspacewidget::PaneView;
use crate::ui::{SelectBF, UiMessage, WidgetAction};
use vstd::prelude::*;

verus! {

/// A prompt that is open, and what its answer is for.
#[derive(Debug, Clone, Copy, PartialEq, Eq, Structural)]
pub enum Pending {
    /// No prompt is open.
    Nothing,
    /// A line of text for this action: the name of what is added, or the
    /// new name of what is renamed.
    Text(WidgetAction),
    /// A yes or no for this action; the flag says that it is the second
    /// question.
    Confirm(WidgetAction, bool),
    /// A due date; the mode to return to afterwards.
    Due(CurrentMode),
    /// A filter.
    Filter,
}

/// The model of the renderer's state.
pub struct UiView {
    pub workspace: PaneView,
    pub todolist: TasksView,
    pub archived_ws: PaneView,
    pub help: HelpWidget,
    pub padding: Seq<char>,
    /// The text of the status line.
    pub prompt: Seq<char>,
    pub pending: Pending,
}

/// The pane that the focus says is focused.
pub open spec fn focused_pane(todo_focused: bool, archived_focused: bool) -> CurrentFocus {
    if archived_focused {
        CurrentFocus::ArchivedWorkspace
    } else if todo_focused {
        CurrentFocus::TodoList
    } else {
        CurrentFocus::Workspace
    }
}

impl UiView {
    /// With the key hints set to pane `focus`.
    pub open spec fn hinting(self, focus: CurrentFocus) -> UiView {
        UiView {
            help: HelpWidget {
                keymap: KeymapWidget { focus, ..self.help.keymap },
                ..self.help
            },
            ..self
        }
    }

    /// With the key hints set to mode `mode`.
    pub open spec fn hinting_mode(self, mode: CurrentMode) -> UiView {
        UiView {
            help: HelpWidget {
                keymap: KeymapWidget { mode, ..self.help.keymap },
                ..self.help
            },
            ..self
        }
    }

    /// With the status line saying `text`.
    pub open spec fn saying(self, text: Seq<char>) -> UiView {
        UiView { prompt: text, ..self }
    }

    /// With every selection re-bound to the loaded forests: each pane and
    /// each task list keeps its selection only where a node carries it, the
    /// list of the selected active workspace is put on display, and the key
    /// hints follow the pane that is marked as focused.
    pub open spec fn rebound(self) -> UiView {
        let workspace = self.workspace.rebound();
        UiView {
            workspace,
            archived_ws: self.archived_ws.rebound(),
            todolist: self.todolist.settled().showing(workspace.current),
            ..self
        }.hinting(focused_pane(self.todolist.focused, self.archived_ws.focused))
    }

    /// With pane `focus`, and no other, shown as focused.
    pub open spec fn focusing(self, focus: CurrentFocus) -> UiView {
        UiView {
            workspace: PaneView { focused: focus == CurrentFocus::Workspace, ..self.workspace },
            todolist: TasksView { focused: focus == CurrentFocus::TodoList, ..self.todolist },
            archived_ws: PaneView {
                focused: focus == CurrentFocus::ArchivedWorkspace,
                ..self.archived_ws
            },
            ..self
        }.hinting(focus)
    }

    /// With the task pane focused and showing the list of the workspace
    /// selected in the active pane, or in the archive.
    pub open spec fn entering(self, archived: bool) -> UiView {
        let source = if archived {
            self.archived_ws
        } else {
            self.workspace
        };
        let focused = self.focusing(CurrentFocus::TodoList);
        UiView { todolist: focused.todolist.showing(source.current), ..focused }
    }

    /// With the help page scrolled one line.
    pub open spec fn scrolled(self, bf: SelectBF) -> UiView {
        let scroll = self.help.scroll;
        let top = self.help.scroll_max;
        UiView {
            help: HelpWidget {
                scroll: match bf {
                    SelectBF::Back => if scroll == 0 {
                        0
                    } else {
                        (scroll - 1) as usize
                    },
                    SelectBF::Forward => if scroll < top {
                        (scroll + 1) as usize
                    } else {
                        top
                    },
                },
                ..self.help
            },
            ..self
        }
    }

    /// With the selection of pane `focus` moved one step. Moving through a
    /// workspace pane also puts the list of the newly selected workspace on
    /// display.
    pub open spec fn stepping(self, focus: CurrentFocus, bf: SelectBF) -> UiView {
        match focus {
            CurrentFocus::Workspace => {
                let target = self.workspace.step_target(bf);
                UiView {
                    workspace: PaneView { current: target, ..self.workspace.stepped(bf) },
                    todolist: self.todolist.showing(target),
                    ..self
                }
            },
            CurrentFocus::ArchivedWorkspace => {
                let target = self.archived_ws.step_target(bf);
                UiView {
                    archived_ws: PaneView { current: target, ..self.archived_ws.stepped(bf) },
                    todolist: self.todolist.showing(target),
                    ..self
                }
            },
            CurrentFocus::TodoList => {
                let target = self.todolist.step_target(bf);
                UiView {
                    todolist: self.todolist.stepped(bf).with_current(
                        |l: ListView| ListView { current: target, ..l },
                    ),
                    ..self
                }
            },
        }
    }

    /// What moving the selection does: in help mode it scrolls the help
    /// page and moves no selection.
    pub open spec fn selecting(self, apps: AppState, bf: SelectBF) -> UiView {
        if apps.current_mode == CurrentMode::Help {
            self.scrolled(bf)
        } else {
            self.stepping(apps.current_focus, bf)
        }
    }

    /// With the selected task of the list on display, and every task below
    /// it, given `status`.
    pub open spec fn marking(self, status: TaskStatus) -> UiView {
        UiView {
            todolist: self.todolist.with_current(
                |l: ListView| l.with_current_changed(with_status(status)),
            ),
            ..self
        }
    }

    /// Whether some workspace, task list or task already goes by `id`.
    pub open spec fn uses(self, id: u128) -> bool {
        ||| contains_id(self.workspace.forest, id)
        ||| contains_id(self.archived_ws.forest, id)
        ||| list_keys(self.todolist.lists).contains(id)
        ||| exists|k: int|
            0 <= k < self.todolist.lists.len() && contains_id(
                (#[trigger] self.todolist.lists[k]).forest,
                id,
            )
    }
}

/// Which question a confirmation asks.
#[derive(Debug, Clone, Copy, PartialEq, Eq, Structural)]
pub enum ConfirmKind {
    /// Delete the selection?
    Delete,
    /// Archive the selection?
    Archive,
    /// Rename the selection?
    Rename,
    /// What is selected in this pane is not empty: go on?
    NotEmpty(CurrentFocus),
}

/// What the renderer is to do once a message or an answer has been handled.
#[derive(Debug, Clone, Copy, PartialEq, Eq, Structural)]
pub enum Request {
    /// Draw the screen.
    Redraw,
    /// Write everything to disk, then draw the screen.
    Save,
    /// Collect a line of text for this action and hand it back.
    AskText(WidgetAction),
    /// Collect a due date, showing the present one, and hand it back.
    AskDue(Option<Date>),
    /// Collect a filter and hand it back.
    AskFilter,
    /// Ask this question and hand the answer back.
    AskConfirm(ConfirmKind),
}

/// The model of an answer.
pub enum AnswerView {
    Text(Seq<char>),
    Yes,
    No,
}

/// The text of an answer; empty for a yes or a no.
pub open spec fn answer_text(answer: AnswerView) -> Seq<char> {
    match answer {
        AnswerView::Text(s) => s,
        _ => Seq::empty(),
    }
}

/// A workspace without children.
pub open spec fn workspace_leaf(id: u128, name: Seq<char>) -> Tree<()> {
    Tree { id, label: name, expanded: true, payload: (), children: Seq::empty() }
}

/// A task without children, due date or urgency, still to do.
pub open spec fn task_leaf(id: u128, name: Seq<char>) -> Tree<TaskInfo> {
    Tree {
        id,
        label: name,
        expanded: true,
        payload: TaskInfo { status: TaskStatus::Todo, due: None, urgency: None },
        children: Seq::empty(),
    }
}

/// The task pane without the first `n` of the lists keyed to `ids`, and,
/// if `n` is not zero, with nothing on display.
pub open spec fn drop_lists(pane: TasksView, ids: Seq<u128>, n: nat) -> TasksView
    decreases n,
{
    if n == 0 || n > ids.len() {
        pane
    } else {
        drop_lists(pane, ids, (n - 1) as nat).without_list(ids[n - 1])
    }
}

/// The id of the first root from `forest[k..]` that the search selects.
pub open spec fn first_match(forest: Seq<Tree<TaskInfo>>, k: int, search: Seq<char>) -> Option<
    u128,
>
    decreases forest.len() - k,
{
    if k < 0 || k >= forest.len() {
        None
    } else if matches_search(forest[k], search) {
        Some(forest[k].id)
    } else {
        first_match(forest, k + 1, search)
    }
}

/// The text that the status line shows once the prompts of `action` are
/// over; `None` where it keeps what it showed.
pub open spec fn done_text(action: WidgetAction) -> Option<Seq<char>> {
    match action {
        WidgetAction::AddWorkspace | WidgetAction::AddWorkspaceChild => Some(
            "Workspace Added !"@,
        ),
        WidgetAction::AddTask | WidgetAction::AddTaskChild => Some("Task Added !"@),
        WidgetAction::DeleteWorkspace | WidgetAction::DeleteArchivedWorkspace => Some(
            "Workspace Deleted !"@,
        ),
        WidgetAction::DeleteTask => Some("Task Deleted !"@),
        _ => None,
    }
}

/// The pane whose selection `action` is about, for the actions that ask
/// before they act.
pub open spec fn target_pane(action: WidgetAction) -> CurrentFocus {
    match action {
        WidgetAction::DeleteArchivedWorkspace => CurrentFocus::ArchivedWorkspace,
        WidgetAction::DeleteTask => CurrentFocus::TodoList,
        WidgetAction::Rename(focus) => focus,
        _ => CurrentFocus::Workspace,
    }
}

/// The first question that `action` asks.
pub open spec fn first_question(action: WidgetAction) -> ConfirmKind {
    match action {
        WidgetAction::ArchiveWS => ConfirmKind::Archive,
        WidgetAction::Rename(_) => ConfirmKind::Rename,
        _ => ConfirmKind::Delete,
    }
}

impl ListView {
    /// The selected task with everything below it, when a task carries the
    /// selected id.
    pub open spec fn selected(self) -> Option<Tree<TaskInfo>> {
        match self.current {
            Some(id) => find(self.forest, id),
            None => None,
        }
    }

    /// With the cursor on the first row and the first root that the search
    /// selects as the selection; the selection stays when the search
    /// selects no root.
    pub open spec fn filtered(self, search: Seq<char>) -> ListView {
        ListView {
            cursor: Some(0usize),
            current: match first_match(self.forest, 0, search) {
                Some(id) => Some(id),
                None => self.current,
            },
            ..self
        }
    }
}

impl TasksView {
    /// The list on display.
    pub open spec fn shown(self) -> Option<ListView> {
        match self.current_list() {
            Some(k) => Some(self.lists[k]),
            None => None,
        }
    }

    /// The selected task of the list on display.
    pub open spec fn selected(self) -> Option<Tree<TaskInfo>> {
        match self.shown() {
            Some(l) => l.selected(),
            None => None,
        }
    }

    /// Whether some list keyed to workspace `ws` holds a task.
    pub open spec fn has_tasks(self, ws: u128) -> bool {
        exists|i: int|
            0 <= i < self.lists.len() && (#[trigger] self.lists[i]).workspace == ws
                && self.lists[i].forest.len() > 0
    }
}

impl UiView {
    /// The pane `focus`, if it is a workspace pane.
    pub open spec fn pane(self, focus: CurrentFocus) -> PaneView {
        if focus == CurrentFocus::ArchivedWorkspace {
            self.archived_ws
        } else {
            self.workspace
        }
    }

    /// With the pane `focus` replaced, if it is a workspace pane.
    pub open spec fn with_pane(self, focus: CurrentFocus, pane: PaneView) -> UiView {
        if focus == CurrentFocus::ArchivedWorkspace {
            UiView { archived_ws: pane, ..self }
        } else {
            UiView { workspace: pane, ..self }
        }
    }

    /// With `pending` as the open prompt.
    pub open spec fn awaiting(self, pending: Pending) -> UiView {
        UiView { pending, ..self }
    }

    /// With the status line saying what `action` leaves it saying.
    pub open spec fn reporting(self, action: WidgetAction) -> UiView {
        match done_text(action) {
            Some(text) => self.saying(text),
            None => self,
        }
    }

    /// Whether pane `focus` has a selection that is still there.
    pub open spec fn has_selection(self, focus: CurrentFocus) -> bool {
        if focus == CurrentFocus::TodoList {
            self.todolist.selected() is Some
        } else {
            self.pane(focus).selected() is Some
        }
    }

    /// Whether the selection of pane `focus` is not empty: a workspace with
    /// sub-workspaces or with tasks in its list, or a task with sub-tasks.
    pub open spec fn selection_not_empty(self, focus: CurrentFocus) -> bool {
        if focus == CurrentFocus::TodoList {
            self.todolist.selected() matches Some(t) && t.children.len() > 0
        } else {
            self.pane(focus).selected() matches Some(t) && (t.children.len() > 0
                || self.todolist.has_tasks(t.id))
        }
    }

    /// The second question for the selection of pane `focus`: about the
    /// pane itself when the selection has children, about the task list
    /// otherwise.
    pub open spec fn second_question(self, focus: CurrentFocus) -> ConfirmKind {
        if focus != CurrentFocus::TodoList && (self.pane(focus).selected() matches Some(t)
            && t.children.len() > 0) {
            ConfirmKind::NotEmpty(focus)
        } else {
            ConfirmKind::NotEmpty(CurrentFocus::TodoList)
        }
    }

    /// With a new workspace `id` named `name` as the last root of the
    /// active pane, and an empty task list keyed to it.
    pub open spec fn with_workspace(self, id: u128, name: Seq<char>) -> UiView {
        UiView {
            workspace: self.workspace.with_root(workspace_leaf(id, name)),
            todolist: self.todolist.with_list(ListView::empty(id)),
            ..self
        }
    }

    /// With a new workspace `id` named `name` below the selected active
    /// workspace, and an empty task list keyed to it.
    pub open spec fn with_subworkspace(self, id: u128, name: Seq<char>) -> UiView {
        UiView {
            workspace: self.workspace.with_child(workspace_leaf(id, name)),
            todolist: self.todolist.with_list(ListView::empty(id)),
            ..self
        }
    }

    /// With a new task `id` named `name` as the last root of the list on
    /// display. With no list on display, a workspace `ws` named `Workspace`
    /// is made first, selected, and its list, holding the task, put on
    /// display.
    pub open spec fn with_task(self, id: u128, ws: u128, name: Seq<char>) -> UiView {
        if self.todolist.current_list() is Some {
            UiView {
                todolist: self.todolist.with_current(
                    |l: ListView| l.with_root(task_leaf(id, name)),
                ),
                ..self
            }
        } else {
            UiView {
                workspace: PaneView {
                    current: Some(ws),
                    ..self.workspace.with_root(workspace_leaf(ws, "Workspace"@))
                },
                todolist: TasksView {
                    current: Some(ws),
                    ..self.todolist.with_list(ListView::empty(ws).with_root(task_leaf(id, name)))
                },
                ..self
            }
        }
    }

    /// With a new task `id` named `name` below the selected task of the
    /// list on display.
    pub open spec fn with_subtask(self, id: u128, name: Seq<char>) -> UiView {
        UiView {
            todolist: self.todolist.with_current(|l: ListView| l.with_child(task_leaf(id, name))),
            ..self
        }
    }

    /// What the text `name`, given for `action`, adds or renames. Nothing
    /// is added under an id that is already in use.
    pub open spec fn with_text(
        self,
        action: WidgetAction,
        name: Seq<char>,
        ids: (u128, u128),
    ) -> UiView {
        match action {
            WidgetAction::AddWorkspace => if self.uses(ids.0) {
                self
            } else {
                self.with_workspace(ids.0, name)
            },
            WidgetAction::AddWorkspaceChild => if self.uses(ids.0) {
                self
            } else {
                self.with_subworkspace(ids.0, name)
            },
            WidgetAction::AddTask => if self.uses(ids.0) || self.uses(ids.1) || ids.0 == ids.1 {
                self
            } else {
                self.with_task(ids.0, ids.1, name)
            },
            WidgetAction::AddTaskChild => if self.uses(ids.0) {
                self
            } else {
                self.with_subtask(ids.0, name)
            },
            WidgetAction::Rename(focus) => self.renaming(focus, name),
            _ => self,
        }
    }

    /// With the selection of pane `focus` renamed to `name`.
    pub open spec fn renaming(self, focus: CurrentFocus, name: Seq<char>) -> UiView {
        if focus == CurrentFocus::TodoList {
            UiView {
                todolist: self.todolist.with_current(
                    |l: ListView| l.with_current_changed(with_label(name)),
                ),
                ..self
            }
        } else {
            self.with_pane(focus, self.pane(focus).with_current_changed(with_label(name)))
        }
    }

    /// Without the selected workspace of pane `focus`, everything below it,
    /// and the task lists of all of them; the pane has no selection
    /// afterwards.
    pub open spec fn without_workspace(self, focus: CurrentFocus) -> UiView {
        let pane = self.pane(focus);
        let gone = pane.selected_ids();
        UiView {
            todolist: drop_lists(self.todolist, gone, gone.len()),
            ..self
        }.with_pane(focus, pane.without_current())
    }

    /// Without the selected task of the list on display and everything
    /// below it; the list has no selection afterwards.
    pub open spec fn without_task(self) -> UiView {
        UiView { todolist: self.todolist.with_current(|l: ListView| l.without_current()), ..self }
    }

    /// With the selected workspace of pane `from`, and everything below it,
    /// moved to the end of the other workspace pane; pane `from` has no
    /// selection afterwards. The task lists stay where they are.
    pub open spec fn moving(self, from: CurrentFocus) -> UiView {
        let to = if from == CurrentFocus::ArchivedWorkspace {
            CurrentFocus::Workspace
        } else {
            CurrentFocus::ArchivedWorkspace
        };
        let source = self.pane(from);
        let target = match source.selected() {
            Some(t) => self.pane(to).with_root(t),
            None => self.pane(to),
        };
        self.with_pane(from, source.detached()).with_pane(to, target)
    }

    /// What `action` does once every question has been answered with yes.
    pub open spec fn confirmed(self, action: WidgetAction) -> UiView {
        match action {
            WidgetAction::DeleteWorkspace => self.without_workspace(CurrentFocus::Workspace),
            WidgetAction::DeleteArchivedWorkspace => self.without_workspace(
                CurrentFocus::ArchivedWorkspace,
            ),
            WidgetAction::DeleteTask => self.without_task(),
            WidgetAction::ArchiveWS => self.moving(CurrentFocus::Workspace),
            _ => self,
        }
    }

    /// With `search` as the filter of the task pane, and the list on
    /// display re-anchored on what the filter lets through.
    pub open spec fn filtering(self, search: Seq<char>) -> UiView {
        UiView {
            todolist: TasksView { search, ..self.todolist }.with_current(
                |l: ListView| l.filtered(search),
            ),
            ..self
        }
    }

    /// Without filter, and without cursor in the list on display.
    pub open spec fn unfiltered(self) -> UiView {
        UiView {
            todolist: TasksView { search: Seq::empty(), ..self.todolist }.with_current(
                |l: ListView| ListView { cursor: None, ..l },
            ),
            ..self
        }
    }

    /// With the due date of the selected task changed as `change` says.
    pub open spec fn with_due_change(self, change: DueChange) -> UiView {
        match change {
            DueChange::Keep => self,
            DueChange::Clear => UiView {
                todolist: self.todolist.with_current(
                    |l: ListView| l.with_current_changed(with_due(None)),
                ),
                ..self
            },
            DueChange::On(d) => UiView {
                todolist: self.todolist.with_current(
                    |l: ListView| l.with_current_changed(with_due(Some(d))),
                ),
                ..self
            },
        }
    }
}

/// A state of the renderer together with the shared state and what the
/// renderer is to do next.
pub struct Outcome {
    pub ui: UiView,
    pub apps: AppState,
    pub request: Request,
}

/// The outcome that only redraws.
pub open spec fn redraw(ui: UiView, apps: AppState) -> Outcome {
    Outcome { ui, apps, request: Request::Redraw }
}

/// The same shared state in mode `mode`.
pub open spec fn in_mode(apps: AppState, mode: CurrentMode) -> AppState {
    AppState { current_mode: mode, ..apps }
}

/// What a widget action does before any prompt is answered.
///
/// Additions ask for a name. Deleting asks whether to delete; archiving and
/// renaming ask likewise when there is a selection, and otherwise end at
/// once in normal mode. Filtering asks for the filter when a list is on
/// display; setting a due date asks for it, in insert mode, when a task is
/// selected. Everything else acts at once.
pub open spec fn ui_act(ui: UiView, apps: AppState, action: WidgetAction) -> Outcome {
    match action {
        WidgetAction::FocusWorkspace => redraw(ui.focusing(CurrentFocus::Workspace), apps),
        WidgetAction::FocusTodolist => redraw(ui.focusing(CurrentFocus::TodoList), apps),
        WidgetAction::FocusArchivedWorkspace => redraw(
            ui.focusing(CurrentFocus::ArchivedWorkspace),
            apps,
        ),
        WidgetAction::AddWorkspace | WidgetAction::AddWorkspaceChild | WidgetAction::AddTask
        | WidgetAction::AddTaskChild => Outcome {
            ui: ui.awaiting(Pending::Text(action)),
            apps,
            request: Request::AskText(action),
        },
        WidgetAction::SelectUp => redraw(ui.selecting(apps, SelectBF::Back), apps),
        WidgetAction::SelectDown => redraw(ui.selecting(apps, SelectBF::Forward), apps),
        WidgetAction::EnterWorkspace => redraw(ui.entering(false), apps),
        WidgetAction::EnterArchivedWorkspace => redraw(ui.entering(true), apps),
        WidgetAction::DeleteWorkspace | WidgetAction::DeleteArchivedWorkspace
        | WidgetAction::DeleteTask => Outcome {
            ui: ui.awaiting(Pending::Confirm(action, false)),
            apps,
            request: Request::AskConfirm(ConfirmKind::Delete),
        },
        WidgetAction::ArchiveWS | WidgetAction::Rename(_) => if ui.has_selection(
            target_pane(action),
        ) {
            Outcome {
                ui: ui.awaiting(Pending::Confirm(action, false)),
                apps,
                request: Request::AskConfirm(first_question(action)),
            }
        } else {
            redraw(ui, in_mode(apps, CurrentMode::Normal))
        },
        WidgetAction::MarkTaskStatus(status) => redraw(ui.marking(status), apps),
        WidgetAction::RecoveryWS => redraw(ui.moving(CurrentFocus::ArchivedWorkspace), apps),
        WidgetAction::Filter => if ui.todolist.current_list() is Some {
            Outcome { ui: ui.awaiting(Pending::Filter), apps, request: Request::AskFilter }
        } else {
            redraw(ui.saying("In Search Mode !"@), in_mode(apps, CurrentMode::Search))
        },
        WidgetAction::ExitFilter => redraw(ui.unfiltered(), in_mode(apps, CurrentMode::Normal)),
        WidgetAction::Help => redraw(
            ui.hinting_mode(CurrentMode::Help).saying("In Help Mode !"@),
            apps,
        ),
        WidgetAction::ExitHelp => redraw(
            ui.hinting_mode(CurrentMode::Normal).saying("In Normal Mode !"@),
            apps,
        ),
        WidgetAction::Due => match ui.todolist.selected() {
            Some(t) => Outcome {
                ui: ui.awaiting(Pending::Due(apps.current_mode)),
                apps: in_mode(apps, CurrentMode::Insert),
                request: Request::AskDue(t.payload.due),
            },
            None => redraw(ui.saying("Set Due Date !"@), apps),
        },
    }
}

/// What a message does to the renderer's state and to the shared state, and
/// what the renderer is to do next.
pub open spec fn ui_step(ui: UiView, apps: AppState, msg: UiMessage) -> Outcome {
    match msg {
        UiMessage::Update | UiMessage::UpdateUi => redraw(ui, apps),
        UiMessage::SaveData => Outcome {
            ui: ui.saying("Data Saved !"@),
            apps,
            request: Request::Save,
        },
        UiMessage::WAction(action) => ui_act(ui, apps, action),
    }
}

/// What the answer to the open prompt does. `ids` are two fresh ids for
/// what the answer may add, and `today` is the day it is given.
///
/// With no prompt open an answer does nothing. Text that is empty adds and
/// renames nothing. A yes to the first question leads to a second one when
/// the selection is not empty; a yes to the last question lets a deletion
/// or a move happen and a renaming ask for the new name; any other answer
/// to a question ends the action with nothing changed. When the prompts of
/// an action are over the mode is normal again, except after a due date,
/// where it is what it was before, and after a filter, where it is search.
pub open spec fn ui_answer(
    ui: UiView,
    apps: AppState,
    answer: AnswerView,
    ids: (u128, u128),
    today: Date,
) -> Outcome {
    let text = answer_text(answer);
    let normal = in_mode(apps, CurrentMode::Normal);
    match ui.pending {
        Pending::Nothing => redraw(ui, apps),
        Pending::Text(action) => redraw(
            (if text.len() > 0 {
                ui.with_text(action, text, ids)
            } else {
                ui
            }).reporting(action).awaiting(Pending::Nothing),
            normal,
        ),
        Pending::Confirm(action, second) => if answer is Yes {
            if !second && ui.selection_not_empty(target_pane(action)) {
                Outcome {
                    ui: ui.awaiting(Pending::Confirm(action, true)),
                    apps,
                    request: Request::AskConfirm(ui.second_question(target_pane(action))),
                }
            } else if action is Rename {
                Outcome {
                    ui: ui.awaiting(Pending::Text(action)),
                    apps,
                    request: Request::AskText(action),
                }
            } else {
                redraw(ui.confirmed(action).reporting(action).awaiting(Pending::Nothing), normal)
            }
        } else {
            redraw(ui.reporting(action).awaiting(Pending::Nothing), normal)
        },
        Pending::Due(origin) => redraw(
            ui.with_due_change(due_change(text, today)).saying("Set Due Date !"@).awaiting(
                Pending::Nothing,
            ),
            in_mode(apps, origin),
        ),
        Pending::Filter => redraw(
            ui.filtering(text).saying("In Search Mode !"@).awaiting(Pending::Nothing),
            in_mode(apps, CurrentMode::Search),
        ),
    }
}

} // verus!

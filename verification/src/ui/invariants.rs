//! What holds of the renderer's state at all times, and why every message
//! and every answer keeps it so.

use crate::appstate::{AppState, CurrentFocus, CurrentMode};
use crate::data::{exported, DatasView};
use crate::date::Date;
use crate::due::{due_change, DueChange};
use crate::search::{matches_search, navigable_ids, search_pred};
use crate::tree::{
    adopt, contains_id, delete, disjoint, find, flatten, flatten_from, lemma_first_index,
    lemma_flatten_one, subtree_ids, unique_ids, update, with_label, Tree,
};
use crate::tree_laws::{
    lemma_adopt_ids, lemma_contains_concat, lemma_contains_step, lemma_delete_ids,
    lemma_detach_is_delete, lemma_disjoint_grow, lemma_disjoint_shrink, lemma_find_concat,
    lemma_find_from, lemma_flatten_concat_one, lemma_no_duplicates_concat, lemma_update_keeps_ids,
};
use crate::ui::screen::{
    answer_text, drop_lists, first_match, task_leaf, ui_act, ui_answer, ui_step, workspace_leaf,
    AnswerView, Pending, Request, Ui, UiView,
};
use crate::ui::todolistwidget::{
    flatten_tasks, lemma_set_status_tree, list_at, list_keys, list_views, with_due, with_status,
    ListView, TaskInfo, TaskStatus, TasksView,
};
use crate::ui::workspacewidget::{flatten_workspaces, PaneView};
use crate::ui::{
    advance_id, advance_index, position_of, refreshed, SelectBF, UiMessage, WidgetAction,
};
use vstd::prelude::*;

verus! {

impl DatasView {
    /// The ids of all workspaces: the active ones, then the archived ones.
    pub open spec fn workspace_ids(self) -> Seq<u128> {
        flatten(self.workspace.forest) + flatten(self.archived_ws.forest)
    }

    /// No id is used twice: not by two workspaces, active or archived, not
    /// by two tasks, in one list or in two, and not by a workspace and a
    /// task.
    pub open spec fn ids_unique(self) -> bool {
        let lists = self.todolist.lists;
        &&& self.workspace_ids().no_duplicates()
        &&& forall|k: int| 0 <= k < lists.len() ==> unique_ids((#[trigger] lists[k]).forest)
        &&& forall|k: int|
            0 <= k < lists.len() ==> disjoint(
                flatten((#[trigger] lists[k]).forest),
                self.workspace_ids(),
            )
        &&& forall|j: int, k: int|
            0 <= j < lists.len() && 0 <= k < lists.len() && j != k ==> disjoint(
                flatten((#[trigger] lists[j]).forest),
                flatten((#[trigger] lists[k]).forest),
            )
    }

    /// Every workspace, active or archived, has exactly one task list, and
    /// every task list belongs to a workspace.
    pub open spec fn lists_match(self) -> bool {
        let keys = list_keys(self.todolist.lists);
        &&& keys.no_duplicates()
        &&& forall|x: u128| keys.contains(x) <==> self.workspace_ids().contains(x)
    }

    /// What a snapshot must satisfy to be loaded: no id is used twice, and
    /// every workspace has exactly one task list.
    pub open spec fn consistent(self) -> bool {
        self.ids_unique() && self.lists_match()
    }
}

impl UiView {
    /// The ids of all workspaces: the active ones, then the archived ones.
    pub open spec fn workspace_ids(self) -> Seq<u128> {
        exported(self).workspace_ids()
    }

    /// No id is used twice: not by two workspaces, active or archived, not
    /// by two tasks, in one list or in two, and not by a workspace and a
    /// task.
    pub open spec fn ids_unique(self) -> bool {
        exported(self).ids_unique()
    }

    /// Every workspace, active or archived, has exactly one task list, and
    /// every task list belongs to a workspace.
    pub open spec fn lists_match(self) -> bool {
        exported(self).lists_match()
    }

    /// Every selection points at something that is there: a pane's at one
    /// of its workspaces, the task pane's at a list, a list's at one of its
    /// tasks.
    pub open spec fn selections_bound(self) -> bool {
        let lists = self.todolist.lists;
        &&& self.workspace.current matches Some(id) ==> contains_id(self.workspace.forest, id)
        &&& self.archived_ws.current matches Some(id) ==> contains_id(self.archived_ws.forest, id)
        &&& self.todolist.current matches Some(ws) ==> list_keys(lists).contains(ws)
        &&& forall|k: int|
            0 <= k < lists.len() ==> ((#[trigger] lists[k]).current matches Some(id)
                ==> contains_id(lists[k].forest, id))
    }

    /// The state is sound: ids are unique, lists and workspaces match, and
    /// selections are bound.
    pub open spec fn wf(self) -> bool {
        &&& self.ids_unique()
        &&& self.lists_match()
        &&& self.selections_bound()
    }

    /// Whether `other` holds the same ids in the same places: forest for
    /// forest and list for list.
    pub open spec fn same_ids(self, other: UiView) -> bool {
        &&& flatten(self.workspace.forest) == flatten(other.workspace.forest)
        &&& flatten(self.archived_ws.forest) == flatten(other.archived_ws.forest)
        &&& self.todolist.lists.len() == other.todolist.lists.len()
        &&& forall|k: int|
            0 <= k < self.todolist.lists.len() ==> (#[trigger] self.todolist.lists[k]).workspace
                == other.todolist.lists[k].workspace && flatten(self.todolist.lists[k].forest)
                == flatten(other.todolist.lists[k].forest)
    }
}

/// A list is found under a key exactly when the key is among the keys, and
/// then it is a list with that key.
pub proof fn lemma_list_at(lists: Seq<ListView>, ws: u128)
    ensures
        list_at(lists, ws) is Some <==> list_keys(lists).contains(ws),
        list_at(lists, ws) matches Some(k) ==> 0 <= k < lists.len() && lists[k].workspace == ws,
{
    lemma_first_index(list_keys(lists), ws);
}

/// A state that holds the same ids in the same places as a sound state is
/// sound once its selections are bound.
pub proof fn lemma_same_ids_wf(before: UiView, after: UiView)
    requires
        before.wf(),
        before.same_ids(after),
        after.selections_bound(),
    ensures
        after.wf(),
{
    assert(list_keys(after.todolist.lists) =~= list_keys(before.todolist.lists));
    assert(after.workspace_ids() == before.workspace_ids());
    let lists = after.todolist.lists;
    let old_lists = before.todolist.lists;
    assert forall|k: int| 0 <= k < lists.len() implies unique_ids((#[trigger] lists[k]).forest)
        && disjoint(flatten(lists[k].forest), after.workspace_ids()) by {
        assert(unique_ids(old_lists[k].forest));
        assert(disjoint(flatten(old_lists[k].forest), before.workspace_ids()));
    }
    assert forall|j: int, k: int|
        0 <= j < lists.len() && 0 <= k < lists.len() && j != k implies disjoint(
        flatten((#[trigger] lists[j]).forest),
        flatten((#[trigger] lists[k]).forest),
    ) by {
        assert(disjoint(flatten(old_lists[j].forest), flatten(old_lists[k].forest)));
    }
}

/// Showing the list of a workspace keeps selections bound.
pub proof fn lemma_showing(pane: TasksView, workspace: Option<u128>)
    ensures
        pane.showing(workspace).lists.len() == pane.lists.len(),
        forall|k: int|
            0 <= k < pane.lists.len() ==> (#[trigger] pane.showing(workspace).lists[k]).workspace
                == pane.lists[k].workspace && pane.showing(workspace).lists[k].forest
                == pane.lists[k].forest,
        forall|k: int|
            0 <= k < pane.lists.len() ==> (#[trigger] pane.showing(workspace).lists[k]).current
                == pane.lists[k].current || pane.showing(workspace).lists[k].current == refreshed(
                pane.lists[k].current,
                flatten(pane.lists[k].forest),
            ),
        pane.showing(workspace).current matches Some(ws) ==> list_keys(pane.lists).contains(ws)
            || pane.current == Some(ws),
{
    if let Some(ws) = workspace {
        lemma_list_at(pane.lists, ws);
    }
}

/// The id that a step selects is one of the ids it steps over.
pub proof fn lemma_advance_in(seq: Seq<u128>, current: Option<u128>, bf: SelectBF)
    ensures
        advance_id(seq, current, bf) matches Some(id) ==> seq.contains(id),
{
    if let Some(i) = advance_index(seq, current, bf) {
        if current is Some {
            lemma_first_index(seq, current->0);
        }
        assert(seq.contains(seq[i]));
    }
}

/// An id occurs in a forest exactly when it occurs in the tree of one of
/// the roots.
pub proof fn lemma_contains_by_root<P>(forest: Seq<Tree<P>>, k: int, x: u128)
    requires
        0 <= k <= forest.len(),
    ensures
        flatten_from(forest, k).contains(x) <==> exists|i: int|
            k <= i < forest.len() && flatten(seq![#[trigger] forest[i]]).contains(x),
    decreases forest.len() - k,
{
    if k < forest.len() {
        lemma_contains_by_root(forest, k + 1, x);
        lemma_contains_step(forest, k, x);
        lemma_flatten_one(forest[k]);
        let own = seq![forest[k].id];
        lemma_contains_concat(own, flatten(forest[k].children), x);
        assert(own[0] == forest[k].id);
        if flatten(seq![forest[k]]).contains(x) {
            assert(k <= k < forest.len() && flatten(seq![forest[k]]).contains(x));
        }
        if exists|i: int|
            k <= i < forest.len() && flatten(seq![#[trigger] forest[i]]).contains(x) {
            let i = choose|i: int|
                k <= i < forest.len() && flatten(seq![#[trigger] forest[i]]).contains(x);
            if i > k {
                assert(k + 1 <= i < forest.len() && flatten(seq![forest[i]]).contains(x));
            }
        }
    }
}

/// What a filter lets through is part of the forest.
pub proof fn lemma_navigable_in<P>(forest: Seq<Tree<P>>, search: Seq<char>, x: u128)
    requires
        navigable_ids(forest, search).contains(x),
    ensures
        contains_id(forest, x),
{
    if search.len() > 0 {
        let kept = forest.filter(search_pred(search));
        lemma_contains_by_root(kept, 0, x);
        let i = choose|i: int| 0 <= i < kept.len() && flatten(seq![#[trigger] kept[i]]).contains(x);
        assert(kept.contains(kept[i]));
        forest.lemma_filter_contains_rev(search_pred(search), kept[i]);
        let j = choose|j: int| 0 <= j < forest.len() && forest[j] == kept[i];
        lemma_contains_by_root(forest, 0, x);
        assert(0 <= j < forest.len() && flatten(seq![forest[j]]).contains(x));
    }
}

/// The first root that a search selects is a root of the forest.
pub proof fn lemma_first_match_in(forest: Seq<Tree<TaskInfo>>, k: int, search: Seq<char>)
    requires
        0 <= k,
    ensures
        first_match(forest, k, search) matches Some(id) ==> contains_id(forest, id),
    decreases forest.len() - k,
{
    if k < forest.len() {
        if matches_search(forest[k], search) {
            lemma_contains_by_root(forest, 0, forest[k].id);
            lemma_flatten_one(forest[k]);
            assert((seq![forest[k].id] + flatten(forest[k].children))[0] == forest[k].id);
            assert(0 <= k < forest.len() && flatten(seq![forest[k]]).contains(forest[k].id));
        } else {
            lemma_first_match_in(forest, k + 1, search);
        }
    }
}

/// Soundness speaks of the three panes only.
pub proof fn lemma_panes_only(before: UiView, after: UiView)
    requires
        after.workspace == before.workspace,
        after.archived_ws == before.archived_ws,
        after.todolist == before.todolist,
    ensures
        after.wf() == before.wf(),
{
}

/// A change keeps ids when it keeps the id of the node it is applied to and
/// the ids below it.
pub open spec fn keeps_ids<P>(change: spec_fn(Tree<P>) -> Tree<P>) -> bool {
    forall|t: Tree<P>|
        (#[trigger] change(t)).id == t.id && flatten(change(t).children) == flatten(t.children)
}

/// Relabelling, setting a status and setting a due date keep ids.
pub proof fn lemma_changes_keep_ids(name: Seq<char>, status: TaskStatus, due: Option<Date>)
    ensures
        keeps_ids(with_label::<()>(name)),
        keeps_ids(with_label::<TaskInfo>(name)),
        keeps_ids(with_status(status)),
        keeps_ids(with_due(due)),
{
    assert forall|t: Tree<TaskInfo>|
        (#[trigger] with_status(status)(t)).id == t.id && flatten(with_status(status)(t).children)
            == flatten(t.children) by {
        lemma_set_status_tree(t, status);
    }
}

/// Putting a list on display keeps the state sound.
pub proof fn lemma_showing_wf(ui: UiView, workspace: Option<u128>)
    requires
        ui.wf(),
    ensures
        (UiView { todolist: ui.todolist.showing(workspace), ..ui }).wf(),
{
    let after = UiView { todolist: ui.todolist.showing(workspace), ..ui };
    lemma_showing(ui.todolist, workspace);
    assert(list_keys(after.todolist.lists) =~= list_keys(ui.todolist.lists));
    lemma_same_ids_wf(ui, after);
}

/// Moving a selection keeps the state sound.
pub proof fn lemma_stepping_wf(ui: UiView, focus: CurrentFocus, bf: SelectBF)
    requires
        ui.wf(),
    ensures
        ui.stepping(focus, bf).wf(),
{
    match focus {
        CurrentFocus::Workspace => {
            let target = ui.workspace.step_target(bf);
            lemma_advance_in(flatten(ui.workspace.forest), ui.workspace.current, bf);
            let moved = UiView {
                workspace: PaneView { current: target, ..ui.workspace.stepped(bf) },
                ..ui
            };
            lemma_same_ids_wf(ui, moved);
            lemma_showing_wf(moved, target);
        },
        CurrentFocus::ArchivedWorkspace => {
            let target = ui.archived_ws.step_target(bf);
            lemma_advance_in(flatten(ui.archived_ws.forest), ui.archived_ws.current, bf);
            let moved = UiView {
                archived_ws: PaneView { current: target, ..ui.archived_ws.stepped(bf) },
                ..ui
            };
            lemma_same_ids_wf(ui, moved);
            lemma_showing_wf(moved, target);
        },
        CurrentFocus::TodoList => {
            let after = ui.stepping(focus, bf);
            if let Some(k) = ui.todolist.current_list() {
                lemma_list_at(ui.todolist.lists, ui.todolist.current->0);
                let list = ui.todolist.lists[k];
                let ids = list.navigable(ui.todolist.search);
                lemma_advance_in(ids, list.current, bf);
                if let Some(id) = advance_id(ids, list.current, bf) {
                    lemma_navigable_in(list.forest, ui.todolist.search, id);
                }
                lemma_list_at(ui.todolist.stepped(bf).lists, ui.todolist.current->0);
                assert(list_keys(ui.todolist.stepped(bf).lists) =~= list_keys(ui.todolist.lists));
                assert(list_keys(after.todolist.lists) =~= list_keys(ui.todolist.lists));
            }
            lemma_same_ids_wf(ui, after);
        },
    }
}

/// Changing the selected task in a way that keeps ids keeps the state
/// sound.
pub proof fn lemma_task_change_wf(ui: UiView, change: spec_fn(Tree<TaskInfo>) -> Tree<TaskInfo>)
    requires
        ui.wf(),
        keeps_ids(change),
    ensures
        (UiView {
            todolist: ui.todolist.with_current(|l: ListView| l.with_current_changed(change)),
            ..ui
        }).wf(),
{
    let after = UiView {
        todolist: ui.todolist.with_current(|l: ListView| l.with_current_changed(change)),
        ..ui
    };
    if let Some(k) = ui.todolist.current_list() {
        lemma_list_at(ui.todolist.lists, ui.todolist.current->0);
        let list = ui.todolist.lists[k];
        if let Some(id) = list.current {
            lemma_find_from(list.forest, 0, id);
            lemma_update_keeps_ids(list.forest, id, change);
        }
        assert(list_keys(after.todolist.lists) =~= list_keys(ui.todolist.lists));
    }
    lemma_same_ids_wf(ui, after);
}

/// Changing the selected workspace of a pane in a way that keeps ids keeps
/// the state sound.
pub proof fn lemma_pane_change_wf(
    ui: UiView,
    focus: CurrentFocus,
    change: spec_fn(Tree<()>) -> Tree<()>,
)
    requires
        ui.wf(),
        keeps_ids(change),
    ensures
        ui.with_pane(focus, ui.pane(focus).with_current_changed(change)).wf(),
{
    let after = ui.with_pane(focus, ui.pane(focus).with_current_changed(change));
    if let Some(id) = ui.pane(focus).current {
        lemma_find_from(ui.pane(focus).forest, 0, id);
        lemma_update_keeps_ids(ui.pane(focus).forest, id, change);
    }
    lemma_same_ids_wf(ui, after);
}

/// Applying and dropping a filter keep the state sound.
pub proof fn lemma_filter_wf(ui: UiView, search: Seq<char>)
    requires
        ui.wf(),
    ensures
        ui.filtering(search).wf(),
        ui.unfiltered().wf(),
{
    let narrowed = ui.filtering(search);
    let cleared = ui.unfiltered();
    if let Some(k) = ui.todolist.current_list() {
        lemma_list_at(ui.todolist.lists, ui.todolist.current->0);
        lemma_first_match_in(ui.todolist.lists[k].forest, 0, search);
        assert(list_keys(narrowed.todolist.lists) =~= list_keys(ui.todolist.lists));
        assert(list_keys(cleared.todolist.lists) =~= list_keys(ui.todolist.lists));
    }
    lemma_same_ids_wf(ui, narrowed);
    lemma_same_ids_wf(ui, cleared);
}

/// A leaf flattens to its own id.
pub proof fn lemma_leaf_ids<P>(leaf: Tree<P>)
    requires
        leaf.children.len() == 0,
    ensures
        flatten(seq![leaf]) == seq![leaf.id],
        unique_ids(seq![leaf]),
        forall|x: u128| flatten(seq![leaf]).contains(x) <==> x == leaf.id,
{
    lemma_flatten_one(leaf);
    assert(flatten(seq![leaf]) =~= seq![leaf.id]);
    assert(seq![leaf.id][0] == leaf.id);
}

/// Giving the active pane one more workspace under a fresh id, with an
/// empty task list keyed to it, keeps the state sound.
pub proof fn lemma_grow_workspace(ui: UiView, grown: Seq<Tree<()>>, id: u128)
    requires
        ui.wf(),
        !ui.uses(id),
        unique_ids(grown),
        forall|x: u128|
            flatten(grown).contains(x) <==> flatten(ui.workspace.forest).contains(x) || x == id,
    ensures
        (UiView {
            workspace: PaneView { forest: grown, ..ui.workspace },
            todolist: ui.todolist.with_list(ListView::empty(id)),
            ..ui
        }).wf(),
        forall|x: u128|
            (UiView {
                workspace: PaneView { forest: grown, ..ui.workspace },
                todolist: ui.todolist.with_list(ListView::empty(id)),
                ..ui
            }).uses(x) <==> ui.uses(x) || x == id,
{
    let after = UiView {
        workspace: PaneView { forest: grown, ..ui.workspace },
        todolist: ui.todolist.with_list(ListView::empty(id)),
        ..ui
    };
    let lists = ui.todolist.lists;
    let more = after.todolist.lists;
    let keys = list_keys(lists);
    let active = flatten(ui.workspace.forest);
    let archived = flatten(ui.archived_ws.forest);
    let before_ids = ui.workspace_ids();
    let after_ids = after.workspace_ids();
    assert(!active.contains(id) && !archived.contains(id) && !keys.contains(id));
    assert(list_keys(more) =~= keys + seq![id]);
    assert(seq![id][0] == id);
    assert forall|x: u128| after_ids.contains(x) <==> before_ids.contains(x) || x == id by {
        lemma_contains_concat(flatten(grown), archived, x);
        lemma_contains_concat(active, archived, x);
    }
    assert forall|x: u128| list_keys(more).contains(x) <==> keys.contains(x) || x == id by {
        lemma_contains_concat(keys, seq![id], x);
    }
    assert(after_ids.no_duplicates()) by {
        lemma_no_duplicates_concat(active, archived);
        lemma_disjoint_grow(active, flatten(grown), archived, id);
        lemma_no_duplicates_concat(flatten(grown), archived);
    }
    assert(list_keys(more).no_duplicates()) by {
        lemma_no_duplicates_concat(keys, seq![id]);
    }
    assert(more[lists.len() as int] == ListView::empty(id));
    assert(flatten(ListView::empty(id).forest) =~= Seq::<u128>::empty());
    assert forall|k: int| 0 <= k < more.len() implies unique_ids((#[trigger] more[k]).forest)
        && disjoint(flatten(more[k].forest), after_ids) by {
        if k < lists.len() {
            assert(more[k] == lists[k]);
            assert(unique_ids(lists[k].forest));
            assert(disjoint(flatten(lists[k].forest), before_ids));
            assert(!contains_id(lists[k].forest, id));
            lemma_disjoint_grow(before_ids, after_ids, flatten(lists[k].forest), id);
        }
    }
    assert forall|j: int, k: int|
        0 <= j < more.len() && 0 <= k < more.len() && j != k implies disjoint(
        flatten((#[trigger] more[j]).forest),
        flatten((#[trigger] more[k]).forest),
    ) by {
        if j < lists.len() && k < lists.len() {
            assert(more[j] == lists[j] && more[k] == lists[k]);
            assert(disjoint(flatten(lists[j].forest), flatten(lists[k].forest)));
        }
    }
    assert forall|k: int| 0 <= k < more.len() implies ((#[trigger] more[k]).current matches Some(
        t,
    ) ==> contains_id(more[k].forest, t)) by {
        if k < lists.len() {
            assert(more[k] == lists[k]);
        }
    }
    assert(after.ids_unique());
    assert forall|x: u128| list_keys(more).contains(x) <==> after_ids.contains(x) by {
        assert(keys.contains(x) <==> before_ids.contains(x));
    }
    assert(after.lists_match());
    assert(after.selections_bound());
    assert forall|x: u128| after.uses(x) <==> ui.uses(x) || x == id by {
        if exists|k: int| 0 <= k < more.len() && contains_id((#[trigger] more[k]).forest, x) {
            let k = choose|k: int|
                0 <= k < more.len() && contains_id((#[trigger] more[k]).forest, x);
            assert(k < lists.len());
            assert(more[k] == lists[k]);
        }
        if exists|k: int| 0 <= k < lists.len() && contains_id((#[trigger] lists[k]).forest, x) {
            let k = choose|k: int|
                0 <= k < lists.len() && contains_id((#[trigger] lists[k]).forest, x);
            assert(more[k] == lists[k]);
        }
    }
}

/// Giving one task list one more task under a fresh id keeps the state
/// sound.
pub proof fn lemma_grow_list(ui: UiView, k: int, grown: Seq<Tree<TaskInfo>>, id: u128)
    requires
        ui.wf(),
        !ui.uses(id),
        0 <= k < ui.todolist.lists.len(),
        unique_ids(grown),
        forall|x: u128|
            flatten(grown).contains(x) <==> flatten(ui.todolist.lists[k].forest).contains(x) || x
                == id,
    ensures
        (UiView {
            todolist: TasksView {
                lists: ui.todolist.lists.update(
                    k,
                    ListView { forest: grown, ..ui.todolist.lists[k] },
                ),
                ..ui.todolist
            },
            ..ui
        }).wf(),
{
    let lists = ui.todolist.lists;
    let more = lists.update(k, ListView { forest: grown, ..lists[k] });
    let after = UiView { todolist: TasksView { lists: more, ..ui.todolist }, ..ui };
    let ids = ui.workspace_ids();
    assert(list_keys(more) =~= list_keys(lists));
    assert(!ids.contains(id)) by {
        lemma_contains_concat(flatten(ui.workspace.forest), flatten(ui.archived_ws.forest), id);
    }
    assert forall|j: int| 0 <= j < more.len() implies unique_ids((#[trigger] more[j]).forest)
        && disjoint(flatten(more[j].forest), ids) by {
        assert(unique_ids(lists[j].forest));
        assert(disjoint(flatten(lists[j].forest), ids));
        if j != k {
            assert(more[j] == lists[j]);
        } else {
            lemma_disjoint_grow(flatten(lists[k].forest), flatten(grown), ids, id);
        }
    }
    assert forall|i: int, j: int|
        0 <= i < more.len() && 0 <= j < more.len() && i != j implies disjoint(
        flatten((#[trigger] more[i]).forest),
        flatten((#[trigger] more[j]).forest),
    ) by {
        assert(disjoint(flatten(lists[i].forest), flatten(lists[j].forest)));
        assert(!contains_id(lists[i].forest, id));
        assert(!contains_id(lists[j].forest, id));
        if i == k {
            lemma_disjoint_grow(
                flatten(lists[i].forest),
                flatten(grown),
                flatten(lists[j].forest),
                id,
            );
        } else if j == k {
            lemma_disjoint_grow(
                flatten(lists[j].forest),
                flatten(grown),
                flatten(lists[i].forest),
                id,
            );
        }
    }
    assert forall|j: int| 0 <= j < more.len() implies ((#[trigger] more[j]).current matches Some(
        t,
    ) ==> contains_id(more[j].forest, t)) by {
        assert(lists[j].current matches Some(t) ==> contains_id(lists[j].forest, t));
    }
    assert(after.ids_unique());
    assert(after.lists_match());
    assert(after.selections_bound());
}

/// Adding a workspace under a fresh id keeps the state sound.
pub proof fn lemma_with_workspace_wf(ui: UiView, id: u128, name: Seq<char>)
    requires
        ui.wf(),
        !ui.uses(id),
    ensures
        ui.with_workspace(id, name).wf(),
        ui.with_subworkspace(id, name).wf(),
        forall|x: u128| ui.with_workspace(id, name).uses(x) <==> ui.uses(x) || x == id,
{
    let leaf = workspace_leaf(id, name);
    lemma_leaf_ids(leaf);
    lemma_adopt_ids(ui.workspace.forest, None, leaf);
    lemma_adopt_ids(ui.workspace.forest, ui.workspace.current, leaf);
    lemma_no_duplicates_concat(flatten(ui.workspace.forest), flatten(ui.archived_ws.forest));
    lemma_grow_workspace(ui, ui.workspace.forest.push(leaf), id);
    lemma_grow_workspace(ui, adopt(ui.workspace.forest, ui.workspace.current, leaf), id);
}

/// Adding a task under a fresh id keeps the state sound; so does making a
/// workspace for it first, under another fresh id, when no list is on
/// display.
pub proof fn lemma_with_task_wf(ui: UiView, id: u128, ws: u128, name: Seq<char>)
    requires
        ui.wf(),
        !ui.uses(id),
    ensures
        ui.with_subtask(id, name).wf(),
        !ui.uses(ws) && ws != id ==> ui.with_task(id, ws, name).wf(),
{
    let leaf = task_leaf(id, name);
    lemma_leaf_ids(leaf);
    let lists = ui.todolist.lists;
    if let Some(k) = ui.todolist.current_list() {
        lemma_list_at(lists, ui.todolist.current->0);
        let list = lists[k];
        assert(unique_ids(list.forest));
        lemma_adopt_ids(list.forest, None, leaf);
        lemma_adopt_ids(list.forest, list.current, leaf);
        lemma_grow_list(ui, k, list.forest.push(leaf), id);
        lemma_grow_list(ui, k, adopt(list.forest, list.current, leaf), id);
    } else if !ui.uses(ws) && ws != id {
        let home = workspace_leaf(ws, "Workspace"@);
        lemma_with_workspace_wf(ui, ws, "Workspace"@);
        let housed = ui.with_workspace(ws, "Workspace"@);
        let n = lists.len() as int;
        assert(housed.todolist.lists[n] == ListView::empty(ws));
        lemma_adopt_ids(Seq::<Tree<TaskInfo>>::empty(), None, leaf);
        assert(flatten(Seq::<Tree<TaskInfo>>::empty()) =~= Seq::<u128>::empty());
        let only = Seq::<Tree<TaskInfo>>::empty().push(leaf);
        lemma_grow_list(housed, n, only, id);
        let filled = UiView {
            todolist: TasksView {
                lists: housed.todolist.lists.update(
                    n,
                    ListView { forest: only, ..ListView::empty(ws) },
                ),
                ..housed.todolist
            },
            ..housed
        };
        let after = ui.with_task(id, ws, name);
        assert(after.todolist.lists =~= filled.todolist.lists);
        assert(list_keys(after.todolist.lists)[n] == ws);
        lemma_leaf_ids(home);
        lemma_flatten_concat_one(ui.workspace.forest, home);
        lemma_contains_concat(flatten(ui.workspace.forest), flatten(seq![home]), ws);
        assert(flatten(after.workspace.forest) =~= flatten(ui.workspace.forest) + flatten(
            seq![home],
        ));
        lemma_same_ids_wf(filled, after);
    }
}

/// What soundness asks of the task lists, given the ids `taken` by the
/// workspaces: keys and task ids are unique, no task shares an id with
/// another task or with a workspace, and every list's selection is bound.
pub open spec fn lists_sound(lists: Seq<ListView>, taken: Seq<u128>) -> bool {
    &&& list_keys(lists).no_duplicates()
    &&& forall|k: int| 0 <= k < lists.len() ==> unique_ids((#[trigger] lists[k]).forest)
    &&& forall|k: int|
        0 <= k < lists.len() ==> disjoint(flatten((#[trigger] lists[k]).forest), taken)
    &&& forall|j: int, k: int|
        0 <= j < lists.len() && 0 <= k < lists.len() && j != k ==> disjoint(
            flatten((#[trigger] lists[j]).forest),
            flatten((#[trigger] lists[k]).forest),
        )
    &&& forall|k: int|
        0 <= k < lists.len() ==> ((#[trigger] lists[k]).current matches Some(id) ==> contains_id(
            lists[k].forest,
            id,
        ))
}

/// A state is sound exactly when its workspace ids are unique, its lists
/// are sound and keyed to exactly those ids, and the selections of the
/// three panes are bound.
pub proof fn lemma_wf_parts(ui: UiView)
    ensures
        ui.wf() <==> {
            &&& ui.workspace_ids().no_duplicates()
            &&& lists_sound(ui.todolist.lists, ui.workspace_ids())
            &&& forall|x: u128|
                list_keys(ui.todolist.lists).contains(x) <==> ui.workspace_ids().contains(x)
            &&& ui.workspace.current matches Some(id) ==> contains_id(ui.workspace.forest, id)
            &&& ui.archived_ws.current matches Some(id) ==> contains_id(ui.archived_ws.forest, id)
            &&& ui.todolist.current matches Some(ws) ==> list_keys(ui.todolist.lists).contains(ws)
        },
{
}

/// Sound lists stay sound when the workspaces take fewer ids.
pub proof fn lemma_lists_sound_fewer(lists: Seq<ListView>, taken: Seq<u128>, fewer: Seq<u128>)
    requires
        lists_sound(lists, taken),
        forall|x: u128| fewer.contains(x) ==> taken.contains(x),
    ensures
        lists_sound(lists, fewer),
{
    assert forall|k: int| 0 <= k < lists.len() implies disjoint(
        flatten((#[trigger] lists[k]).forest),
        fewer,
    ) by {
        let own = flatten(lists[k].forest);
        assert(disjoint(own, taken));
        lemma_disjoint_shrink(own, taken, own, fewer);
    }
}

/// Taking one list away leaves sound lists sound, and leaves the keys of
/// all the others.
pub proof fn lemma_without_list(pane: TasksView, taken: Seq<u128>, ws: u128)
    requires
        lists_sound(pane.lists, taken),
    ensures
        lists_sound(pane.without_list(ws).lists, taken),
        forall|x: u128|
            list_keys(pane.without_list(ws).lists).contains(x) <==> list_keys(pane.lists).contains(
                x,
            ) && x != ws,
        pane.without_list(ws).current is None,
{
    let lists = pane.lists;
    let keys = list_keys(lists);
    lemma_list_at(lists, ws);
    match list_at(lists, ws) {
        Some(k) => {
            let less = lists.remove(k);
            let less_keys = list_keys(less);
            assert(less_keys =~= keys.remove(k));
            assert forall|i: int| 0 <= i < less.len() implies (#[trigger] less[i]) == lists[if i
                < k {
                i
            } else {
                i + 1
            }] by {}
            assert forall|i: int, j: int|
                0 <= i < less_keys.len() && 0 <= j < less_keys.len() && i != j implies less_keys[i]
                != less_keys[j] by {
                let a = if i < k { i } else { i + 1 };
                let b = if j < k { j } else { j + 1 };
                assert(less_keys[i] == keys[a] && less_keys[j] == keys[b]);
            }
            assert forall|x: u128| less_keys.contains(x) <==> keys.contains(x) && x != ws by {
                if less_keys.contains(x) {
                    let i = choose|i: int| 0 <= i < less_keys.len() && less_keys[i] == x;
                    let a = if i < k { i } else { i + 1 };
                    assert(keys[a] == x);
                    assert(keys[k] == ws);
                }
                if keys.contains(x) && x != ws {
                    let a = choose|a: int| 0 <= a < keys.len() && keys[a] == x;
                    let i = if a < k { a } else { a - 1 };
                    assert(less_keys[i] == x);
                }
            }
            assert forall|i: int| 0 <= i < less.len() implies unique_ids(
                (#[trigger] less[i]).forest,
            ) && disjoint(flatten(less[i].forest), taken) && (less[i].current matches Some(t)
                ==> contains_id(less[i].forest, t)) by {
                let a = if i < k { i } else { i + 1 };
                assert(less[i] == lists[a]);
                assert(unique_ids(lists[a].forest));
            }
            assert forall|i: int, j: int|
                0 <= i < less.len() && 0 <= j < less.len() && i != j implies disjoint(
                flatten((#[trigger] less[i]).forest),
                flatten((#[trigger] less[j]).forest),
            ) by {
                let a = if i < k { i } else { i + 1 };
                let b = if j < k { j } else { j + 1 };
                assert(less[i] == lists[a] && less[j] == lists[b]);
                assert(disjoint(flatten(lists[a].forest), flatten(lists[b].forest)));
            }
        },
        None => {},
    }
}

/// Taking away the lists keyed to the first `n` of `gone` leaves sound
/// lists sound, and leaves exactly the keys that are not among those.
pub proof fn lemma_drop_lists(pane: TasksView, taken: Seq<u128>, gone: Seq<u128>, n: nat)
    requires
        lists_sound(pane.lists, taken),
        n <= gone.len(),
    ensures
        lists_sound(drop_lists(pane, gone, n).lists, taken),
        forall|x: u128|
            list_keys(drop_lists(pane, gone, n).lists).contains(x) <==> list_keys(
                pane.lists,
            ).contains(x) && !gone.subrange(0, n as int).contains(x),
        drop_lists(pane, gone, n).current == if n == 0 {
            pane.current
        } else {
            None
        },
    decreases n,
{
    if n > 0 {
        lemma_drop_lists(pane, taken, gone, (n - 1) as nat);
        let before = drop_lists(pane, gone, (n - 1) as nat);
        lemma_without_list(before, taken, gone[n - 1]);
        let shorter = gone.subrange(0, n - 1);
        let longer = gone.subrange(0, n as int);
        assert(longer =~= shorter + seq![gone[n - 1]]);
        assert(seq![gone[n - 1]][0] == gone[n - 1]);
        assert forall|x: u128|
            list_keys(drop_lists(pane, gone, n).lists).contains(x) <==> list_keys(
                pane.lists,
            ).contains(x) && !longer.contains(x) by {
            lemma_contains_concat(shorter, seq![gone[n - 1]], x);
        }
    } else {
        assert(gone.subrange(0, 0) =~= Seq::<u128>::empty());
    }
}

/// Deleting the selected task keeps the state sound.
pub proof fn lemma_without_task_wf(ui: UiView)
    requires
        ui.wf(),
    ensures
        ui.without_task().wf(),
{
    let after = ui.without_task();
    let lists = ui.todolist.lists;
    let taken = ui.workspace_ids();
    lemma_wf_parts(ui);
    lemma_wf_parts(after);
    if let Some(k) = ui.todolist.current_list() {
        lemma_list_at(lists, ui.todolist.current->0);
        let list = lists[k];
        let less = after.todolist.lists;
        assert(less == lists.update(k, list.without_current()));
        assert(list_keys(less) =~= list_keys(lists));
        let old_ids = flatten(list.forest);
        let new_ids = flatten(list.without_current().forest);
        assert(unique_ids(list.forest));
        assert forall|x: u128| new_ids.contains(x) implies old_ids.contains(x) by {
            if let Some(id) = list.current {
                lemma_delete_ids(list.forest, id);
            }
        }
        assert(unique_ids(list.without_current().forest)) by {
            if let Some(id) = list.current {
                lemma_delete_ids(list.forest, id);
            }
        }
        assert forall|j: int| 0 <= j < less.len() implies unique_ids((#[trigger] less[j]).forest)
            && disjoint(flatten(less[j].forest), taken) && (less[j].current matches Some(t)
            ==> contains_id(less[j].forest, t)) by {
            assert(unique_ids(lists[j].forest));
            assert(disjoint(flatten(lists[j].forest), taken));
            if j == k {
                lemma_disjoint_shrink(old_ids, taken, new_ids, taken);
            } else {
                assert(less[j] == lists[j]);
            }
        }
        assert forall|i: int, j: int|
            0 <= i < less.len() && 0 <= j < less.len() && i != j implies disjoint(
            flatten((#[trigger] less[i]).forest),
            flatten((#[trigger] less[j]).forest),
        ) by {
            let a = flatten(lists[i].forest);
            let b = flatten(lists[j].forest);
            assert(disjoint(a, b));
            if i == k {
                lemma_disjoint_shrink(a, b, new_ids, b);
            } else if j == k {
                lemma_disjoint_shrink(a, b, a, new_ids);
            }
        }
    }
}

/// What cutting the selected subtree out of one pane does to the ids of
/// the two panes, where `other` are the ids of the other pane: the pane
/// keeps unique ids that are its old ones without the subtree's, the
/// subtree's ids are unique and were all the pane's own, and none of them
/// is in the other pane.
proof fn lemma_cut_selected(pane: PaneView, other: Seq<u128>)
    requires
        unique_ids(pane.forest),
        disjoint(flatten(pane.forest), other),
        pane.current matches Some(id) ==> contains_id(pane.forest, id),
    ensures
        flatten(pane.without_current().forest).no_duplicates(),
        pane.selected_ids().no_duplicates(),
        forall|x: u128|
            flatten(pane.without_current().forest).contains(x) <==> flatten(pane.forest).contains(
                x,
            ) && !pane.selected_ids().contains(x),
        forall|x: u128| pane.selected_ids().contains(x) ==> flatten(pane.forest).contains(x),
        disjoint(pane.selected_ids(), other),
        disjoint(flatten(pane.without_current().forest), other),
        disjoint(flatten(pane.without_current().forest), pane.selected_ids()),
        pane.selected() matches Some(t) ==> flatten(seq![t]) == pane.selected_ids(),
{
    let own = flatten(pane.forest);
    let left = flatten(pane.without_current().forest);
    let gone = pane.selected_ids();
    match pane.current {
        Some(id) => {
            lemma_find_from(pane.forest, 0, id);
            lemma_delete_ids(pane.forest, id);
            assert(gone == subtree_ids(pane.forest, id));
            assert(left == flatten(delete(pane.forest, id)));
            lemma_disjoint_shrink(own, other, gone, other);
            lemma_disjoint_shrink(own, other, left, other);
            assert forall|x: u128| !(left.contains(x) && gone.contains(x)) by {
                if left.contains(x) && gone.contains(x) {
                    assert(flatten(delete(pane.forest, id)).contains(x));
                    assert(subtree_ids(pane.forest, id).contains(x));
                }
            }
        },
        None => {
            assert(gone =~= Seq::<u128>::empty());
            assert forall|x: u128| !(left.contains(x) && gone.contains(x)) by {}
            assert forall|x: u128| !(gone.contains(x) && other.contains(x)) by {}
        },
    }
}

/// In a pane without repeated ids, taking the selected workspace out and
/// deleting it come to the same.
proof fn lemma_detached(pane: PaneView)
    requires
        unique_ids(pane.forest),
    ensures
        pane.detached() == pane.without_current(),
{
    if let Some(id) = pane.current {
        lemma_detach_is_delete(pane.forest, id);
    }
}

/// The two panes of a sound state, seen from one of them: each has unique
/// ids and they share none.
proof fn lemma_two_panes(ui: UiView, focus: CurrentFocus)
    requires
        ui.wf(),
    ensures
        ({
            let other = if focus == CurrentFocus::ArchivedWorkspace {
                ui.workspace
            } else {
                ui.archived_ws
            };
            &&& unique_ids(ui.pane(focus).forest)
            &&& unique_ids(other.forest)
            &&& disjoint(flatten(ui.pane(focus).forest), flatten(other.forest))
            &&& disjoint(flatten(other.forest), flatten(ui.pane(focus).forest))
            &&& forall|x: u128|
                ui.workspace_ids().contains(x) <==> flatten(ui.pane(focus).forest).contains(x)
                    || flatten(other.forest).contains(x)
            &&& ui.pane(focus).current matches Some(id) ==> contains_id(ui.pane(focus).forest, id)
            &&& other.current matches Some(id) ==> contains_id(other.forest, id)
        }),
{
    let active = flatten(ui.workspace.forest);
    let archived = flatten(ui.archived_ws.forest);
    lemma_no_duplicates_concat(active, archived);
    lemma_disjoint_shrink(active, archived, active, archived);
    assert forall|x: u128| ui.workspace_ids().contains(x) <==> active.contains(x)
        || archived.contains(x) by {
        lemma_contains_concat(active, archived, x);
    }
}

/// Workspace ids that are unique in each pane and shared by none are unique
/// over both.
proof fn lemma_panes_unique(ui: UiView)
    requires
        unique_ids(ui.workspace.forest),
        unique_ids(ui.archived_ws.forest),
        disjoint(flatten(ui.workspace.forest), flatten(ui.archived_ws.forest)),
    ensures
        ui.workspace_ids().no_duplicates(),
        forall|x: u128|
            ui.workspace_ids().contains(x) <==> flatten(ui.workspace.forest).contains(x)
                || flatten(ui.archived_ws.forest).contains(x),
{
    let active = flatten(ui.workspace.forest);
    let archived = flatten(ui.archived_ws.forest);
    lemma_no_duplicates_concat(active, archived);
    assert forall|x: u128| ui.workspace_ids().contains(x) <==> active.contains(x)
        || archived.contains(x) by {
        lemma_contains_concat(active, archived, x);
    }
}

/// Moving the selected workspace to the other pane keeps the state sound:
/// the subtree changes panes whole, every workspace id stays in use, and no
/// task list is touched.
pub proof fn lemma_moving_wf(ui: UiView, from: CurrentFocus)
    requires
        ui.wf(),
    ensures
        ui.moving(from).wf(),
        ui.moving(from).todolist == ui.todolist,
        forall|x: u128|
            ui.moving(from).workspace_ids().contains(x) <==> ui.workspace_ids().contains(x),
        ui.moving(from).workspace_ids().len() == ui.workspace_ids().len(),
{
    let after = ui.moving(from);
    let source = ui.pane(from);
    let to = if from == CurrentFocus::ArchivedWorkspace {
        CurrentFocus::Workspace
    } else {
        CurrentFocus::ArchivedWorkspace
    };
    let target = ui.pane(to);
    let own = flatten(source.forest);
    let other = flatten(target.forest);
    lemma_two_panes(ui, from);
    lemma_detached(source);
    lemma_cut_selected(source, other);
    let left = flatten(source.without_current().forest);
    let gone = source.selected_ids();
    let landed = flatten(after.pane(to).forest);
    match source.selected() {
        Some(t) => {
            lemma_flatten_concat_one(target.forest, t);
            assert(landed =~= other + gone);
        },
        None => {
            assert(other + gone =~= other);
        },
    }
    lemma_no_duplicates_concat(other, gone);
    assert(disjoint(other, gone)) by {
        lemma_disjoint_shrink(gone, other, gone, other);
    }
    assert forall|x: u128| landed.contains(x) <==> other.contains(x) || gone.contains(x) by {
        lemma_contains_concat(other, gone, x);
    }
    assert(disjoint(left, landed) && disjoint(landed, left)) by {
        assert forall|x: u128| !(left.contains(x) && landed.contains(x)) by {
            if left.contains(x) && landed.contains(x) {
                assert(own.contains(x) && !gone.contains(x));
                assert(other.contains(x));
            }
        }
    }
    lemma_panes_unique(after);
    lemma_panes_unique(ui);
    assert forall|x: u128| after.workspace_ids().contains(x) <==> ui.workspace_ids().contains(
        x,
    ) by {
        assert(left.contains(x) <==> own.contains(x) && !gone.contains(x));
        assert(gone.contains(x) ==> own.contains(x));
    }
    lemma_wf_parts(ui);
    lemma_wf_parts(after);
    lemma_lists_sound_fewer(ui.todolist.lists, ui.workspace_ids(), after.workspace_ids());
    assert(after.workspace_ids().len() == ui.workspace_ids().len()) by {
        lemma_left_len(own, left, gone);
    }
}

/// A move is whole: the selected workspace arrives in the other pane with
/// everything below it, exactly as it was, and none of its ids stays
/// behind.
pub proof fn lemma_move_is_whole(ui: UiView, from: CurrentFocus)
    requires
        ui.wf(),
        ui.pane(from).selected() is Some,
    ensures
        ({
            let moved = ui.pane(from).selected()->0;
            let to = if from == CurrentFocus::ArchivedWorkspace {
                CurrentFocus::Workspace
            } else {
                CurrentFocus::ArchivedWorkspace
            };
            &&& find(ui.moving(from).pane(to).forest, moved.id) == Some(moved)
            &&& ui.moving(from).pane(to).forest == ui.pane(to).forest.push(moved)
            &&& forall|x: u128|
                flatten(seq![moved]).contains(x) ==> !flatten(
                    ui.moving(from).pane(from).forest,
                ).contains(x)
        }),
{
    let source = ui.pane(from);
    let moved = source.selected()->0;
    let to = if from == CurrentFocus::ArchivedWorkspace {
        CurrentFocus::Workspace
    } else {
        CurrentFocus::ArchivedWorkspace
    };
    let target = ui.pane(to);
    lemma_two_panes(ui, from);
    lemma_detached(source);
    lemma_cut_selected(source, flatten(target.forest));
    lemma_find_from(source.forest, 0, source.current->0);
    lemma_find_from(target.forest, 0, moved.id);
    assert(flatten(source.forest).contains(moved.id));
    assert(target.forest.push(moved) =~= target.forest + seq![moved]);
    lemma_find_concat(target.forest, seq![moved], 0, moved.id);
    assert(seq![moved][0] == moved);
}

/// Where `left` and `gone` are without repeats, share nothing, and
/// together hold exactly the ids of `own`, which is without repeats too,
/// they are together as long as `own`.
proof fn lemma_left_len(own: Seq<u128>, left: Seq<u128>, gone: Seq<u128>)
    requires
        own.no_duplicates(),
        left.no_duplicates(),
        gone.no_duplicates(),
        disjoint(left, gone),
        forall|x: u128| left.contains(x) <==> own.contains(x) && !gone.contains(x),
        forall|x: u128| gone.contains(x) ==> own.contains(x),
    ensures
        left.len() + gone.len() == own.len(),
{
    let both = left + gone;
    lemma_no_duplicates_concat(left, gone);
    assert forall|x: u128| both.contains(x) <==> own.contains(x) by {
        lemma_contains_concat(left, gone, x);
    }
    both.unique_seq_to_set();
    own.unique_seq_to_set();
    assert(both.to_set() =~= own.to_set());
}

/// Deleting the selected workspace, with everything below it and the task
/// lists of all of them, keeps the state sound.
pub proof fn lemma_without_workspace_wf(ui: UiView, focus: CurrentFocus)
    requires
        ui.wf(),
    ensures
        ui.without_workspace(focus).wf(),
{
    let after = ui.without_workspace(focus);
    let pane = ui.pane(focus);
    let rest = if focus == CurrentFocus::ArchivedWorkspace {
        ui.workspace
    } else {
        ui.archived_ws
    };
    let own = flatten(pane.forest);
    let other = flatten(rest.forest);
    lemma_two_panes(ui, focus);
    lemma_cut_selected(pane, other);
    let left = flatten(pane.without_current().forest);
    let gone = pane.selected_ids();
    lemma_wf_parts(ui);
    lemma_wf_parts(after);
    lemma_drop_lists(ui.todolist, ui.workspace_ids(), gone, gone.len());
    assert(gone.subrange(0, gone.len() as int) =~= gone);
    lemma_disjoint_shrink(left, other, left, other);
    lemma_panes_unique(after);
    assert forall|x: u128| after.workspace_ids().contains(x) <==> ui.workspace_ids().contains(x)
        && !gone.contains(x) by {
        assert(left.contains(x) <==> own.contains(x) && !gone.contains(x));
        assert(!(gone.contains(x) && other.contains(x)));
    }
    lemma_lists_sound_fewer(after.todolist.lists, ui.workspace_ids(), after.workspace_ids());
    if gone.len() == 0 {
        assert(after.todolist == ui.todolist);
    }
    assert(after.workspace_ids().no_duplicates());
    assert(lists_sound(after.todolist.lists, after.workspace_ids()));
    assert forall|x: u128|
        list_keys(after.todolist.lists).contains(x) <==> after.workspace_ids().contains(x) by {
        assert(list_keys(ui.todolist.lists).contains(x) <==> ui.workspace_ids().contains(x));
    }
    assert(after.todolist.current matches Some(ws) ==> list_keys(after.todolist.lists).contains(
        ws,
    ));
    assert(after.workspace.current matches Some(id) ==> contains_id(after.workspace.forest, id));
    assert(after.archived_ws.current matches Some(id) ==> contains_id(
        after.archived_ws.forest,
        id,
    ));
}

/// A state without workspaces and lists is sound once nothing is
/// selected.
pub proof fn lemma_empty_wf(ui: UiView)
    requires
        ui.workspace.forest.len() == 0,
        ui.archived_ws.forest.len() == 0,
        ui.todolist.lists.len() == 0,
        ui.workspace.current is None,
        ui.archived_ws.current is None,
        ui.todolist.current is None,
    ensures
        ui.wf(),
{
    assert(ui.workspace_ids() =~= Seq::<u128>::empty());
    assert(list_keys(ui.todolist.lists) =~= Seq::<u128>::empty());
}

/// Re-binding the selections makes a state sound whose ids are unique and
/// whose lists match its workspaces, whatever its selections pointed at.
pub proof fn lemma_rebound_wf(ui: UiView)
    requires
        ui.ids_unique(),
        ui.lists_match(),
    ensures
        ui.rebound().wf(),
{
    let after = ui.rebound();
    let lists = ui.todolist.lists;
    let settled = ui.todolist.settled();
    let workspace = ui.workspace.rebound();
    lemma_showing(settled, workspace.current);
    assert(list_keys(settled.lists) =~= list_keys(lists));
    assert(list_keys(after.todolist.lists) =~= list_keys(lists));
    if let Some(ws) = ui.todolist.current {
        lemma_list_at(lists, ws);
    }
    assert forall|k: int| 0 <= k < lists.len() implies (#[trigger] after.todolist.lists[k]).forest
        == lists[k].forest && (after.todolist.lists[k].current matches Some(id) ==> contains_id(
        lists[k].forest,
        id,
    )) by {
        assert(settled.lists[k] == lists[k].rebound());
    }
    assert(after.workspace_ids() == ui.workspace_ids());
    assert forall|k: int| 0 <= k < lists.len() implies unique_ids(
        (#[trigger] after.todolist.lists[k]).forest,
    ) && disjoint(flatten(after.todolist.lists[k].forest), after.workspace_ids()) by {
        assert(unique_ids(lists[k].forest));
        assert(disjoint(flatten(lists[k].forest), ui.workspace_ids()));
    }
    assert forall|j: int, k: int|
        0 <= j < lists.len() && 0 <= k < lists.len() && j != k implies disjoint(
        flatten((#[trigger] after.todolist.lists[j]).forest),
        flatten((#[trigger] after.todolist.lists[k]).forest),
    ) by {
        assert(disjoint(flatten(lists[j].forest), flatten(lists[k].forest)));
    }
}

/// Showing a pane as focused, alone or together with one of the lists,
/// keeps the state sound.
pub proof fn lemma_focus_wf(ui: UiView, focus: CurrentFocus, archived: bool)
    requires
        ui.wf(),
    ensures
        ui.focusing(focus).wf(),
        ui.entering(archived).wf(),
{
    let focused = ui.focusing(focus);
    assert(list_keys(focused.todolist.lists) =~= list_keys(ui.todolist.lists));
    lemma_same_ids_wf(ui, focused);
    let on_tasks = ui.focusing(CurrentFocus::TodoList);
    assert(list_keys(on_tasks.todolist.lists) =~= list_keys(ui.todolist.lists));
    lemma_same_ids_wf(ui, on_tasks);
    let source = if archived {
        ui.archived_ws
    } else {
        ui.workspace
    };
    lemma_showing_wf(on_tasks, source.current);
}

/// Whatever a widget action does before its first prompt, it keeps the
/// state sound.
pub proof fn lemma_act_wf(ui: UiView, apps: AppState, action: WidgetAction)
    requires
        ui.wf(),
    ensures
        ui_act(ui, apps, action).ui.wf(),
{
    let after = ui_act(ui, apps, action).ui;
    match action {
        WidgetAction::FocusWorkspace => lemma_focus_wf(ui, CurrentFocus::Workspace, false),
        WidgetAction::FocusTodolist => lemma_focus_wf(ui, CurrentFocus::TodoList, false),
        WidgetAction::FocusArchivedWorkspace => lemma_focus_wf(
            ui,
            CurrentFocus::ArchivedWorkspace,
            false,
        ),
        WidgetAction::EnterWorkspace => lemma_focus_wf(ui, CurrentFocus::TodoList, false),
        WidgetAction::EnterArchivedWorkspace => lemma_focus_wf(ui, CurrentFocus::TodoList, true),
        WidgetAction::SelectUp => {
            lemma_panes_only(ui, ui.scrolled(SelectBF::Back));
            lemma_stepping_wf(ui, apps.current_focus, SelectBF::Back);
        },
        WidgetAction::SelectDown => {
            lemma_panes_only(ui, ui.scrolled(SelectBF::Forward));
            lemma_stepping_wf(ui, apps.current_focus, SelectBF::Forward);
        },
        WidgetAction::MarkTaskStatus(status) => {
            lemma_changes_keep_ids(Seq::empty(), status, None);
            lemma_task_change_wf(ui, with_status(status));
        },
        WidgetAction::RecoveryWS => lemma_moving_wf(ui, CurrentFocus::ArchivedWorkspace),
        WidgetAction::ExitFilter => lemma_filter_wf(ui, Seq::empty()),
        _ => lemma_panes_only(ui, after),
    }
}

/// Every message keeps the state sound.
pub proof fn lemma_step_wf(ui: UiView, apps: AppState, msg: UiMessage)
    requires
        ui.wf(),
    ensures
        ui_step(ui, apps, msg).ui.wf(),
{
    match msg {
        UiMessage::WAction(action) => lemma_act_wf(ui, apps, action),
        _ => lemma_panes_only(ui, ui_step(ui, apps, msg).ui),
    }
}

/// Whatever text is given for an action, and whatever ids come with it,
/// the state stays sound.
pub proof fn lemma_with_text_wf(
    ui: UiView,
    action: WidgetAction,
    name: Seq<char>,
    ids: (u128, u128),
)
    requires
        ui.wf(),
    ensures
        ui.with_text(action, name, ids).wf(),
{
    match action {
        WidgetAction::AddWorkspace | WidgetAction::AddWorkspaceChild => {
            if !ui.uses(ids.0) {
                lemma_with_workspace_wf(ui, ids.0, name);
            }
        },
        WidgetAction::AddTask => {
            if !(ui.uses(ids.0) || ui.uses(ids.1) || ids.0 == ids.1) {
                lemma_with_task_wf(ui, ids.0, ids.1, name);
            }
        },
        WidgetAction::AddTaskChild => {
            if !ui.uses(ids.0) {
                lemma_with_task_wf(ui, ids.0, ids.1, name);
            }
        },
        WidgetAction::Rename(focus) => {
            lemma_changes_keep_ids(name, TaskStatus::Todo, None);
            if focus == CurrentFocus::TodoList {
                lemma_task_change_wf(ui, with_label(name));
            } else {
                lemma_pane_change_wf(ui, focus, with_label(name));
            }
        },
        _ => {},
    }
}

/// Changing the due date of the selected task keeps the state sound.
pub proof fn lemma_due_change_wf(ui: UiView, change: DueChange)
    requires
        ui.wf(),
    ensures
        ui.with_due_change(change).wf(),
{
    lemma_changes_keep_ids(
        Seq::empty(),
        TaskStatus::Todo,
        match change {
            DueChange::On(d) => Some(d),
            _ => None,
        },
    );
    match change {
        DueChange::Keep => {},
        DueChange::Clear => lemma_task_change_wf(ui, with_due(None)),
        DueChange::On(d) => lemma_task_change_wf(ui, with_due(Some(d))),
    }
}

/// What an action does once every question has been answered with yes
/// keeps the state sound.
pub proof fn lemma_confirmed_wf(ui: UiView, action: WidgetAction)
    requires
        ui.wf(),
    ensures
        ui.confirmed(action).wf(),
{
    match action {
        WidgetAction::DeleteWorkspace => lemma_without_workspace_wf(ui, CurrentFocus::Workspace),
        WidgetAction::DeleteArchivedWorkspace => lemma_without_workspace_wf(
            ui,
            CurrentFocus::ArchivedWorkspace,
        ),
        WidgetAction::DeleteTask => lemma_without_task_wf(ui),
        WidgetAction::ArchiveWS => lemma_moving_wf(ui, CurrentFocus::Workspace),
        _ => {},
    }
}

/// Every answer to a prompt keeps the state sound, whichever ids are drawn
/// for what it adds and whatever day it is given on.
pub proof fn lemma_answer_wf(
    ui: UiView,
    apps: AppState,
    answer: AnswerView,
    ids: (u128, u128),
    today: Date,
)
    requires
        ui.wf(),
    ensures
        ui_answer(ui, apps, answer, ids, today).ui.wf(),
{
    let after = ui_answer(ui, apps, answer, ids, today).ui;
    let text = answer_text(answer);
    match ui.pending {
        Pending::Nothing => {},
        Pending::Text(action) => {
            let changed = if text.len() > 0 {
                ui.with_text(action, text, ids)
            } else {
                ui
            };
            lemma_with_text_wf(ui, action, text, ids);
            lemma_panes_only(changed, after);
        },
        Pending::Confirm(action, second) => {
            let done = ui.confirmed(action);
            lemma_confirmed_wf(ui, action);
            if after.workspace == ui.workspace && after.archived_ws == ui.archived_ws
                && after.todolist == ui.todolist {
                lemma_panes_only(ui, after);
            } else {
                lemma_panes_only(done, after);
            }
        },
        Pending::Due(origin) => {
            let change = due_change(text, today);
            lemma_due_change_wf(ui, change);
            lemma_panes_only(ui.with_due_change(change), after);
        },
        Pending::Filter => {
            lemma_filter_wf(ui, text);
            lemma_panes_only(ui.filtering(text), after);
        },
    }
}

/// An answer other than yes to a question ends the action with every pane
/// as it was: nothing is deleted, moved or renamed.
pub proof fn lemma_no_changes_nothing(
    ui: UiView,
    apps: AppState,
    answer: AnswerView,
    ids: (u128, u128),
    today: Date,
)
    requires
        ui.pending is Confirm,
        !(answer is Yes),
    ensures
        ({
            let after = ui_answer(ui, apps, answer, ids, today);
            &&& after.ui.workspace == ui.workspace
            &&& after.ui.archived_ws == ui.archived_ws
            &&& after.ui.todolist == ui.todolist
            &&& after.ui.pending == Pending::Nothing
            &&& after.apps.current_mode == CurrentMode::Normal
            &&& after.request == Request::Redraw
        }),
{
}

/// Text that is empty, as a dismissed prompt gives it, adds and renames
/// nothing.
pub proof fn lemma_dismissed_changes_nothing(
    ui: UiView,
    apps: AppState,
    answer: AnswerView,
    ids: (u128, u128),
    today: Date,
)
    requires
        ui.pending is Text,
        answer_text(answer).len() == 0,
    ensures
        ({
            let after = ui_answer(ui, apps, answer, ids, today);
            &&& after.ui.workspace == ui.workspace
            &&& after.ui.archived_ws == ui.archived_ws
            &&& after.ui.todolist == ui.todolist
            &&& after.ui.pending == Pending::Nothing
            &&& after.apps.current_mode == CurrentMode::Normal
        }),
{
}

/// Setting a due date leaves the mode as it found it: whatever the mode
/// was when the action came, it is that again once the prompt has been
/// answered, whatever the answer.
pub proof fn lemma_due_restores_mode(
    ui: UiView,
    apps: AppState,
    answer: AnswerView,
    ids: (u128, u128),
    today: Date,
)
    ensures
        ({
            let asked = ui_act(ui, apps, WidgetAction::Due);
            if asked.request is AskDue {
                let after = ui_answer(asked.ui, asked.apps, answer, ids, today);
                asked.apps.current_mode == CurrentMode::Insert && after.apps.current_mode
                    == apps.current_mode && after.ui.pending == Pending::Nothing
            } else {
                asked.apps == apps && asked.ui.pending == ui.pending
            }
        }),
{
}

/// Whether no id occurs twice in `ids`.
pub fn no_repeats(ids: &Vec<u128>) -> (ok: bool)
    ensures
        ok == ids@.no_duplicates(),
{
    let mut i: usize = 0;
    while i < ids.len()
        invariant
            i <= ids.len(),
            forall|a: int, b: int| 0 <= a < b < ids@.len() && a < i ==> ids@[a] != ids@[b],
        decreases ids.len() - i,
    {
        let mut j: usize = i + 1;
        while j < ids.len()
            invariant
                i < j <= ids.len(),
                forall|b: int| i < b < j ==> ids@[i as int] != ids@[b],
            decreases ids.len() - j,
        {
            if ids[i] == ids[j] {
                return false;
            }
            j += 1;
        }
        i += 1;
    }
    proof {
        assert forall|a: int, b: int|
            0 <= a < ids@.len() && 0 <= b < ids@.len() && a != b implies ids@[a] != ids@[b] by {
            if a < b {
                assert(ids@[a] != ids@[b]);
            } else {
                assert(ids@[b] != ids@[a]);
            }
        }
    }
    true
}

/// Whether every id of `a` is an id of `b`.
pub fn all_among(a: &Vec<u128>, b: &Vec<u128>) -> (ok: bool)
    ensures
        ok == forall|x: u128| a@.contains(x) ==> b@.contains(x),
{
    let mut i: usize = 0;
    while i < a.len()
        invariant
            i <= a.len(),
            forall|k: int| 0 <= k < i ==> b@.contains(#[trigger] a@[k]),
        decreases a.len() - i,
    {
        if position_of(b, a[i]).is_none() {
            assert(a@.contains(a@[i as int]));
            return false;
        }
        i += 1;
    }
    proof {
        assert forall|x: u128| a@.contains(x) implies b@.contains(x) by {
            let k = choose|k: int| 0 <= k < a@.len() && a@[k] == x;
            assert(b@.contains(a@[k]));
        }
    }
    true
}

/// Whether `a` and `b` have no id in common.
pub fn share_none(a: &Vec<u128>, b: &Vec<u128>) -> (ok: bool)
    ensures
        ok == disjoint(a@, b@),
{
    let mut i: usize = 0;
    while i < a.len()
        invariant
            i <= a.len(),
            forall|k: int| 0 <= k < i ==> !b@.contains(#[trigger] a@[k]),
        decreases a.len() - i,
    {
        if position_of(b, a[i]).is_some() {
            assert(a@.contains(a@[i as int]));
            return false;
        }
        i += 1;
    }
    proof {
        assert forall|x: u128| !(a@.contains(x) && b@.contains(x)) by {
            if a@.contains(x) {
                let k = choose|k: int| 0 <= k < a@.len() && a@[k] == x;
                assert(!b@.contains(a@[k]));
            }
        }
    }
    true
}

impl Ui {
    /// Whether ids are unique and task lists match workspaces: what must
    /// hold of loaded data for the state to be sound once its selections
    /// are re-bound.
    pub fn is_consistent(&self) -> (ok: bool)
        ensures
            ok == (self@.ids_unique() && self@.lists_match()),
    {
        let ghost lists = self@.todolist.lists;
        let mut taken = flatten_workspaces(&self.workspace.workspaces);
        let mut archived = flatten_workspaces(&self.archived_ws.workspaces);
        taken.append(&mut archived);
        assert(taken@ == self@.workspace_ids());
        if !no_repeats(&taken) {
            return false;
        }
        let mut keys: Vec<u128> = Vec::new();
        let mut tasks: Vec<Vec<u128>> = Vec::new();
        let mut k: usize = 0;
        while k < self.todolist.todolists.len()
            invariant
                k <= self.todolist.todolists.len(),
                lists == list_views(self.todolist.todolists@),
                taken@ == self@.workspace_ids(),
                keys@ == list_keys(lists).subrange(0, k as int),
                tasks@.len() == k,
                forall|j: int| 0 <= j < k ==> (#[trigger] tasks@[j])@ == flatten(lists[j].forest),
                forall|j: int|
                    0 <= j < k ==> unique_ids((#[trigger] lists[j]).forest) && disjoint(
                        flatten(lists[j].forest),
                        taken@,
                    ),
                forall|i: int, j: int|
                    0 <= i < j < k ==> disjoint(
                        flatten((#[trigger] lists[i]).forest),
                        flatten((#[trigger] lists[j]).forest),
                    ),
            decreases self.todolist.todolists.len() - k,
        {
            let list = &self.todolist.todolists[k];
            let own = flatten_tasks(&list.tasks);
            assert(own@ == flatten(lists[k as int].forest));
            if !no_repeats(&own) || !share_none(&own, &taken) {
                return false;
            }
            let mut i: usize = 0;
            while i < k
                invariant
                    i <= k,
                    k < self.todolist.todolists.len(),
                    lists == list_views(self.todolist.todolists@),
                    tasks@.len() == k,
                    own@ == flatten(lists[k as int].forest),
                    forall|j: int|
                        0 <= j < k ==> (#[trigger] tasks@[j])@ == flatten(lists[j].forest),
                    forall|j: int|
                        0 <= j < i ==> disjoint(
                            flatten((#[trigger] lists[j]).forest),
                            flatten(lists[k as int].forest),
                        ),
                decreases k - i,
            {
                if !share_none(&tasks[i], &own) {
                    assert(!disjoint(
                        flatten(lists[i as int].forest),
                        flatten(lists[k as int].forest),
                    ));
                    return false;
                }
                i += 1;
            }
            keys.push(list.workspace);
            tasks.push(own);
            proof {
                assert(keys@ =~= list_keys(lists).subrange(0, k + 1));
            }
            k += 1;
        }
        proof {
            assert(keys@ =~= list_keys(lists));
            assert forall|i: int, j: int|
                0 <= i < lists.len() && 0 <= j < lists.len() && i != j implies disjoint(
                flatten((#[trigger] lists[i]).forest),
                flatten((#[trigger] lists[j]).forest),
            ) by {
                if i < j {
                    assert(disjoint(flatten(lists[i].forest), flatten(lists[j].forest)));
                } else {
                    let a = flatten(lists[j].forest);
                    let b = flatten(lists[i].forest);
                    assert(disjoint(a, b));
                    lemma_disjoint_shrink(a, b, a, b);
                }
            }
            assert(self@.ids_unique());
        }
        no_repeats(&keys) && all_among(&keys, &taken) && all_among(&taken, &keys)
    }
}

} // verus!

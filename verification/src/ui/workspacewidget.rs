//! Workspaces: named nodes that nest, and the pane that holds a forest of
//! them together with the current selection.

use crate::tree::{
    adopt, contains_id, delete, delete_from, detach, detach_from, find, find_from, flatten,
    flatten_from, prune, update, update_from, with_child, with_label, Tree,
};
use crate::tree_laws::{
    lemma_contains_step, lemma_detach_absent_from, lemma_find_from, lemma_update_shape,
};
use crate::ui::todolistwidget::TodoWidget;
use crate::ids::{is_random_id, new_id};
use crate::ui::{advance, advance_cursor, advance_id, refresh, refreshed, SelectAction, SelectBF};
use vstd::prelude::*;
use vstd::string::StringExecFns;

verus! {

/// A workspace and the sub-workspaces it owns.
#[derive(Debug, PartialEq, Eq)]
pub struct Workspace {
    pub desc: String,
    pub id: u128,
    pub expanded: bool,
    pub children: Vec<Workspace>,
}

/// The model of one workspace.
pub open spec fn workspace_tree(w: Workspace) -> Tree<()>
    decreases w, 0nat,
{
    Tree {
        id: w.id,
        label: w.desc@,
        expanded: w.expanded,
        payload: (),
        children: workspace_forest(w.children@),
    }
}

/// The models of the first `n` workspaces of `s`.
pub open spec fn workspace_forest_upto(s: Seq<Workspace>, n: nat) -> Seq<Tree<()>>
    decreases s, n,
{
    if n == 0 || n > s.len() {
        Seq::empty()
    } else {
        workspace_forest_upto(s, (n - 1) as nat).push(workspace_tree(s[n - 1]))
    }
}

/// The model of a sequence of workspaces: the model of each, in order.
pub open spec fn workspace_forest(s: Seq<Workspace>) -> Seq<Tree<()>>
    decreases s, s.len() + 1,
{
    workspace_forest_upto(s, s.len())
}

impl View for Workspace {
    type V = Tree<()>;

    open spec fn view(&self) -> Tree<()> {
        workspace_tree(*self)
    }
}

/// The model of the first `n` workspaces has `n` trees, each the model of
/// the workspace at the same place.
pub proof fn lemma_workspace_forest_upto(s: Seq<Workspace>, n: nat)
    requires
        n <= s.len(),
    ensures
        workspace_forest_upto(s, n).len() == n,
        forall|i: int| 0 <= i < n ==> (#[trigger] workspace_forest_upto(s, n)[i]) == s[i]@,
    decreases n,
{
    if n > 0 {
        lemma_workspace_forest_upto(s, (n - 1) as nat);
    }
}

/// The model of a sequence has one tree per workspace, each the model of
/// the workspace at the same place.
pub proof fn lemma_workspace_forest(s: Seq<Workspace>)
    ensures
        workspace_forest(s).len() == s.len(),
        forall|i: int| 0 <= i < s.len() ==> (#[trigger] workspace_forest(s)[i]) == s[i]@,
{
    lemma_workspace_forest_upto(s, s.len());
}

impl Workspace {
    /// A workspace with the given name under an id drawn at random,
    /// expanded and without children.
    pub fn new(desc: String) -> (ws: Self)
        ensures
            ws@ == (Tree::<()> {
                id: ws.id,
                label: desc@,
                expanded: true,
                payload: (),
                children: Seq::empty(),
            }),
            is_random_id(ws.id),
    {
        Workspace::with_id(new_id(), desc)
    }

    /// A workspace with the given id and name, expanded and without children.
    pub fn with_id(id: u128, desc: String) -> (ws: Self)
        ensures
            ws@ == (Tree::<()> {
                id,
                label: desc@,
                expanded: true,
                payload: (),
                children: Seq::empty(),
            }),
    {
        Workspace { desc, id, expanded: true, children: Vec::new() }
    }

    /// Appends `workspace` as the last child.
    pub fn add_child(&mut self, workspace: Workspace)
        ensures
            final(self)@ == (Tree::<()> {
                children: old(self)@.children.push(workspace@),
                ..old(self)@
            }),
    {
        self.children.push(workspace);
        proof {
            lemma_workspace_forest(self.children@);
            lemma_workspace_forest(old(self).children@);
            assert(self@.children =~= old(self)@.children.push(workspace@));
        }
    }

    /// Appends `workspaces`, in order, behind the children there are.
    pub fn add_children(&mut self, workspaces: Vec<Workspace>)
        ensures
            final(self)@ == (Tree::<()> {
                children: old(self)@.children + workspace_forest(workspaces@),
                ..old(self)@
            }),
    {
        let mut workspaces = workspaces;
        let ghost given = workspaces@;
        self.children.append(&mut workspaces);
        proof {
            lemma_workspace_forest(self.children@);
            lemma_workspace_forest(old(self).children@);
            lemma_workspace_forest(given);
            assert(self@.children =~= old(self)@.children + workspace_forest(given));
        }
    }

    /// Whether some task list keyed to this workspace holds at least one
    /// task.
    pub fn has_todolist(&self, todo_lists: &TodoWidget) -> (nonempty: bool)
        ensures
            nonempty == exists|i: int|
                0 <= i < todo_lists.todolists@.len() && (
                #[trigger] todo_lists.todolists@[i]).workspace == self.id
                    && todo_lists.todolists@[i].tasks@.len() > 0,
    {
        let mut i: usize = 0;
        while i < todo_lists.todolists.len()
            invariant
                i <= todo_lists.todolists.len(),
                forall|j: int|
                    0 <= j < i ==> !((#[trigger] todo_lists.todolists@[j]).workspace == self.id
                        && todo_lists.todolists@[j].tasks@.len() > 0),
            decreases todo_lists.todolists.len() - i,
        {
            if todo_lists.todolists[i].workspace == self.id && todo_lists.todolists[i].tasks.len()
                > 0 {
                return true;
            }
            i += 1;
        }
        false
    }

    /// A copy of this workspace and of everything below it.
    pub fn deep_copy(&self) -> (copy: Workspace)
        ensures
            copy@ == self@,
        decreases self,
    {
        let mut children: Vec<Workspace> = Vec::new();
        let mut i: usize = 0;
        while i < self.children.len()
            invariant
                i <= self.children.len(),
                children@.len() == i,
                forall|j: int| 0 <= j < i ==> (#[trigger] children@[j])@ == self.children@[j]@,
            decreases self.children.len() - i,
        {
            children.push(self.children[i].deep_copy());
            i += 1;
        }
        proof {
            lemma_workspace_forest(children@);
            lemma_workspace_forest(self.children@);
            assert(workspace_forest(children@) =~= workspace_forest(self.children@));
        }
        Workspace { desc: self.desc.clone(), id: self.id, expanded: self.expanded, children }
    }

    /// Replaces the name.
    pub fn rename(&mut self, new_name: String)
        ensures
            final(self)@ == (Tree::<()> { label: new_name@, ..old(self)@ }),
    {
        self.desc = new_name;
    }
}

/// Deletes by id from a forest of workspaces. Returns whether the id was
/// present; when it was not, the forest is left as it was.
pub fn delete_workspace(workspaces: &mut Vec<Workspace>, cur_ws: u128) -> (found: bool)
    ensures
        workspace_forest(final(workspaces)@) == delete(workspace_forest(old(workspaces)@), cur_ws),
        found == contains_id(workspace_forest(old(workspaces)@), cur_ws),
    decreases *old(workspaces),
{
    let ghost before = workspace_forest(workspaces@);
    let mut found = false;
    let mut i: usize = 0;
    proof {
        lemma_workspace_forest(workspaces@);
    }
    while i < workspaces.len()
        invariant
            i <= workspaces.len(),
            workspaces.len() == old(workspaces).len(),
            before == workspace_forest(old(workspaces)@),
            before.len() == workspaces.len(),
            forall|j: int| i <= j < workspaces.len() ==> workspaces@[j] == old(workspaces)@[j],
            workspace_forest(workspaces@).subrange(0, i as int) + delete_from(
                before,
                i as int,
                cur_ws,
            ) == delete(before, cur_ws),
            found ==> contains_id(before, cur_ws),
            !found ==> (contains_id(before, cur_ws) <==> flatten_from(before, i as int).contains(
                cur_ws,
            )),
        decreases workspaces.len() - i,
    {
        let ghost prefix = workspace_forest(workspaces@).subrange(0, i as int);
        let ghost entering = workspaces@;
        proof {
            lemma_workspace_forest(old(workspaces)@);
            lemma_workspace_forest(entering);
            lemma_contains_step(before, i as int, cur_ws);
            assert(before[i as int] == entering[i as int]@);
        }
        if workspaces[i].id == cur_ws {
            workspaces.remove(i);
            proof {
                lemma_workspace_forest(workspaces@);
                assert(workspace_forest(workspaces@) =~= prefix + delete_from(
                    before,
                    i as int,
                    cur_ws,
                ));
            }
            return true;
        }
        assert(decreases_to!(*old(workspaces) => old(workspaces)@[i as int].children));
        let inner_found = delete_workspace(&mut workspaces[i].children, cur_ws);
        found = found || inner_found;
        proof {
            lemma_workspace_forest(workspaces@);
            assert(workspace_forest(workspaces@).subrange(0, i + 1) =~= prefix.push(
                workspaces@[i as int]@,
            ));
            assert(prefix.push(workspaces@[i as int]@) + delete_from(before, i + 1, cur_ws)
                =~= prefix + delete_from(before, i as int, cur_ws));
        }
        i += 1;
    }
    proof {
        lemma_workspace_forest(workspaces@);
        assert(workspace_forest(workspaces@).subrange(0, i as int) =~= workspace_forest(
            workspaces@,
        ));
        assert(workspace_forest(workspaces@) + delete_from(before, i as int, cur_ws)
            =~= workspace_forest(workspaces@));
    }
    found
}

/// Pre-order ids of a forest of workspaces.
pub fn flatten_workspaces(target: &Vec<Workspace>) -> (ids: Vec<u128>)
    ensures
        ids@ == flatten(workspace_forest(target@)),
    decreases target,
{
    let ghost forest = workspace_forest(target@);
    let mut ids: Vec<u128> = Vec::new();
    let mut i: usize = 0;
    proof {
        lemma_workspace_forest(target@);
        assert(ids@ + flatten_from(forest, 0) =~= flatten(forest));
    }
    while i < target.len()
        invariant
            i <= target.len(),
            forest == workspace_forest(target@),
            forest.len() == target.len(),
            ids@ + flatten_from(forest, i as int) == flatten(forest),
        decreases target.len() - i,
    {
        let ghost so_far = ids@;
        proof {
            lemma_workspace_forest(target@);
        }
        ids.push(target[i].id);
        let mut below = flatten_workspaces(&target[i].children);
        ids.append(&mut below);
        proof {
            assert(ids@ + flatten_from(forest, i + 1) =~= so_far + flatten_from(forest, i as int));
        }
        i += 1;
    }
    proof {
        assert(ids@ + flatten_from(forest, i as int) =~= ids@);
    }
    ids
}

/// The first workspace in pre-order that carries `id`.
pub fn find_workspace(target: &Vec<Workspace>, id: u128) -> (hit: Option<&Workspace>)
    ensures
        hit is Some <==> contains_id(workspace_forest(target@), id),
        match hit {
            Some(ws) => find(workspace_forest(target@), id) == Some(ws@),
            None => find(workspace_forest(target@), id) is None,
        },
    decreases target,
{
    let ghost forest = workspace_forest(target@);
    let mut i: usize = 0;
    proof {
        lemma_workspace_forest(target@);
        lemma_find_from(forest, 0, id);
    }
    while i < target.len()
        invariant
            i <= target.len(),
            forest == workspace_forest(target@),
            forest.len() == target.len(),
            find_from(forest, i as int, id) == find(forest, id),
        decreases target.len() - i,
    {
        proof {
            lemma_workspace_forest(target@);
            lemma_find_from(forest, 0, id);
            lemma_find_from(workspace_forest(target@[i as int].children@), 0, id);
        }
        if target[i].id == id {
            return Some(&target[i]);
        }
        match find_workspace(&target[i].children, id) {
            Some(ws) => {
                return Some(ws);
            },
            None => {},
        }
        i += 1;
    }
    proof {
        lemma_find_from(forest, 0, id);
    }
    None
}

/// Takes the first workspace in pre-order that carries `id` out of the
/// forest, with everything below it, and hands it over. Hands over nothing,
/// with the forest untouched, when no workspace carries `id`.
pub fn take_workspace(workspaces: &mut Vec<Workspace>, id: u128) -> (taken: Option<Workspace>)
    ensures
        workspace_forest(final(workspaces)@) == detach(workspace_forest(old(workspaces)@), id),
        match taken {
            Some(ws) => find(workspace_forest(old(workspaces)@), id) == Some(ws@),
            None => find(workspace_forest(old(workspaces)@), id) is None,
        },
    decreases *old(workspaces),
{
    let ghost before = workspace_forest(workspaces@);
    let mut i: usize = 0;
    proof {
        lemma_workspace_forest(workspaces@);
        lemma_find_from(before, 0, id);
        assert(before.subrange(0, 0) + detach_from(before, 0, id) =~= detach(before, id));
    }
    while i < workspaces.len()
        invariant
            i <= workspaces.len(),
            workspaces.len() == old(workspaces).len(),
            forall|j: int| i <= j < workspaces.len() ==> workspaces@[j] == old(workspaces)@[j],
            before == workspace_forest(old(workspaces)@),
            before == workspace_forest(workspaces@),
            before.len() == workspaces.len(),
            before.subrange(0, i as int) + detach_from(before, i as int, id) == detach(before, id),
            find_from(before, i as int, id) == find(before, id),
        decreases workspaces.len() - i,
    {
        proof {
            lemma_workspace_forest(workspaces@);
            lemma_workspace_forest(old(workspaces)@);
            lemma_find_from(before[i as int].children, 0, id);
        }
        if workspaces[i].id == id {
            let taken = workspaces.remove(i);
            proof {
                lemma_workspace_forest(workspaces@);
                assert(workspace_forest(workspaces@) =~= before.subrange(0, i as int)
                    + detach_from(before, i as int, id));
            }
            return Some(taken);
        }
        assert(decreases_to!(*old(workspaces) => old(workspaces)@[i as int].children));
        match take_workspace(&mut workspaces[i].children, id) {
            Some(taken) => {
                proof {
                    lemma_workspace_forest(workspaces@);
                    assert(workspace_forest(workspaces@) =~= before.subrange(0, i as int)
                        + detach_from(before, i as int, id));
                }
                return Some(taken);
            },
            None => {},
        }
        proof {
            lemma_workspace_forest(workspaces@);
            lemma_detach_absent_from(before[i as int].children, 0, id);
            assert(before[i as int].children.subrange(0, before[i as int].children.len() as int)
                =~= before[i as int].children);
            assert(workspaces@[i as int]@ == before[i as int]);
            assert(workspace_forest(workspaces@) =~= before);
            assert(before.subrange(0, i + 1) + detach_from(before, i + 1, id)
                =~= before.subrange(0, i as int) + detach_from(before, i as int, id));
        }
        i += 1;
    }
    proof {
        assert(before.subrange(0, i as int) + detach_from(before, i as int, id) =~= before);
    }
    None
}

/// Moves the workspace that carries `id`, with everything below it, from
/// `source` to the end of `target`. Returns whether `source` held the id;
/// when it did not, nothing changes.
pub fn move_subtree(source: &mut Vec<Workspace>, target: &mut Vec<Workspace>, id: u128) -> (moved:
    bool)
    ensures
        workspace_forest(final(source)@) == detach(workspace_forest(old(source)@), id),
        workspace_forest(final(target)@) == match find(workspace_forest(old(source)@), id) {
            Some(t) => workspace_forest(old(target)@).push(t),
            None => workspace_forest(old(target)@),
        },
        moved == contains_id(workspace_forest(old(source)@), id),
{
    proof {
        lemma_find_from(workspace_forest(source@), 0, id);
    }
    match take_workspace(source, id) {
        Some(ws) => {
            target.push(ws);
            proof {
                lemma_workspace_forest(target@);
                lemma_workspace_forest(old(target)@);
                assert(workspace_forest(target@) =~= workspace_forest(old(target)@).push(ws@));
            }
            true
        },
        None => false,
    }
}

/// Renames the workspace that carries `id`. Returns whether a workspace
/// carried the id; when none did, nothing changes.
pub fn rename_workspace(workspaces: &mut Vec<Workspace>, id: u128, new_name: String) -> (found:
    bool)
    ensures
        workspace_forest(final(workspaces)@) == update(
            workspace_forest(old(workspaces)@),
            id,
            with_label(new_name@),
        ),
        found == contains_id(workspace_forest(old(workspaces)@), id),
{
    edit_workspace(workspaces, id, WorkspaceEdit::Rename(new_name)).is_none()
}

/// Adds `workspace` as the last child of the workspace that carries
/// `parent`; as the last root when there is no parent or no workspace
/// carries the parent's id.
pub fn insert_child(workspaces: &mut Vec<Workspace>, parent: Option<u128>, workspace: Workspace)
    ensures
        workspace_forest(final(workspaces)@) == adopt(
            workspace_forest(old(workspaces)@),
            parent,
            workspace@,
        ),
{
    let orphan = match parent {
        Some(id) => match edit_workspace(workspaces, id, WorkspaceEdit::AddChild(workspace)) {
            Some(WorkspaceEdit::AddChild(back)) => Some(back),
            _ => None,
        },
        None => Some(workspace),
    };
    match orphan {
        Some(root) => {
            let ghost before = workspaces@;
            workspaces.push(root);
            proof {
                lemma_workspace_forest(workspaces@);
                lemma_workspace_forest(before);
                assert(workspace_forest(workspaces@) =~= workspace_forest(before).push(root@));
            }
        },
        None => {},
    }
}

/// A change to one workspace.
#[derive(Debug, PartialEq, Eq)]
pub enum WorkspaceEdit {
    /// Replace the name.
    Rename(String),
    /// Append a child.
    AddChild(Workspace),
}

impl WorkspaceEdit {
    /// What the edit does to the model of the workspace it is applied to.
    pub open spec fn change(self) -> spec_fn(Tree<()>) -> Tree<()> {
        match self {
            WorkspaceEdit::Rename(name) => with_label(name@),
            WorkspaceEdit::AddChild(child) => with_child(child@),
        }
    }
}

impl Workspace {
    /// Applies one edit to this workspace.
    pub fn apply(&mut self, edit: WorkspaceEdit)
        ensures
            final(self)@ == (edit.change())(old(self)@),
            final(self).id == old(self).id,
    {
        match edit {
            WorkspaceEdit::Rename(name) => self.rename(name),
            WorkspaceEdit::AddChild(child) => self.add_child(child),
        }
    }
}

/// Applies `edit` to the first workspace in pre-order that carries `id`.
/// Hands the edit back, with the forest untouched, when no workspace does.
pub fn edit_workspace(workspaces: &mut Vec<Workspace>, id: u128, edit: WorkspaceEdit) -> (back:
    Option<WorkspaceEdit>)
    ensures
        workspace_forest(final(workspaces)@) == update(
            workspace_forest(old(workspaces)@),
            id,
            edit.change(),
        ),
        back is None <==> contains_id(workspace_forest(old(workspaces)@), id),
        back matches Some(e) ==> e == edit && workspace_forest(final(workspaces)@)
            == workspace_forest(old(workspaces)@),
    decreases *old(workspaces),
{
    let ghost before = workspace_forest(workspaces@);
    let ghost change = edit.change();
    let mut pending = edit;
    let mut i: usize = 0;
    proof {
        lemma_workspace_forest(workspaces@);
        assert(before.subrange(0, 0) + update_from(before, 0, id, change) =~= update(
            before,
            id,
            change,
        ));
    }
    while i < workspaces.len()
        invariant
            i <= workspaces.len(),
            workspaces.len() == old(workspaces).len(),
            forall|j: int| i <= j < workspaces.len() ==> workspaces@[j] == old(workspaces)@[j],
            before == workspace_forest(old(workspaces)@),
            before == workspace_forest(workspaces@),
            before.len() == workspaces.len(),
            change == edit.change(),
            pending == edit,
            before.subrange(0, i as int) + update_from(before, i as int, id, change) == update(
                before,
                id,
                change,
            ),
            contains_id(before, id) <==> flatten_from(before, i as int).contains(id),
        decreases workspaces.len() - i,
    {
        let ghost entering = workspaces@;
        proof {
            lemma_workspace_forest(entering);
            lemma_workspace_forest(old(workspaces)@);
            lemma_contains_step(before, i as int, id);
            lemma_update_shape(before[i as int].children, 0, id, change);
        }
        if workspaces[i].id == id {
            workspaces[i].apply(pending);
            proof {
                lemma_workspace_forest(workspaces@);
                assert(workspace_forest(workspaces@) =~= before.subrange(0, i as int)
                    + update_from(before, i as int, id, change));
            }
            return None;
        }
        assert(decreases_to!(*old(workspaces) => old(workspaces)@[i as int].children));
        match edit_workspace(&mut workspaces[i].children, id, pending) {
            None => {
                proof {
                    lemma_workspace_forest(workspaces@);
                    assert(workspace_forest(workspaces@) =~= before.subrange(0, i as int)
                        + update_from(before, i as int, id, change));
                }
                return None;
            },
            Some(e) => {
                pending = e;
            },
        }
        proof {
            lemma_workspace_forest(workspaces@);
            assert(workspaces@[i as int]@ == before[i as int]);
            assert(workspace_forest(workspaces@) =~= before);
            assert(before.subrange(0, i + 1) + update_from(before, i + 1, id, change)
                =~= before.subrange(0, i as int) + update_from(before, i as int, id, change));
        }
        i += 1;
    }
    proof {
        assert(before.subrange(0, i as int) + update_from(before, i as int, id, change)
            =~= before);
    }
    Some(pending)
}

/// Which of the two workspace panes a widget is.
#[derive(Debug, Clone, Copy, PartialEq, Eq, Structural)]
pub enum WorkspaceType {
    Normal,
    Archived,
}

/// A forest of workspaces with the selected workspace and the cursor of the
/// list that displays them.
#[derive(Debug, PartialEq, Eq)]
pub struct WorkspaceWidget {
    pub workspaces: Vec<Workspace>,
    /// Id of the selected workspace.
    pub current_workspace: Option<u128>,
    pub focused: bool,
    /// Row of the selected workspace in the displayed list.
    pub ws_state: Option<usize>,
    pub ws_type: WorkspaceType,
}

/// The model of a workspace pane.
pub struct PaneView {
    pub forest: Seq<Tree<()>>,
    /// Id of the selected workspace.
    pub current: Option<u128>,
    pub focused: bool,
    /// Row of the selected workspace in the displayed list.
    pub cursor: Option<usize>,
    pub kind: WorkspaceType,
}

impl PaneView {
    /// The empty, focused pane of the given kind.
    pub open spec fn empty(kind: WorkspaceType) -> PaneView {
        PaneView { forest: Seq::empty(), current: None, focused: true, cursor: None, kind }
    }

    /// With `workspace` as the last root.
    pub open spec fn with_root(self, workspace: Tree<()>) -> PaneView {
        PaneView { forest: self.forest.push(workspace), ..self }
    }

    /// With `workspace` below the selected workspace, or as the last root
    /// when there is no selection or its id is gone.
    pub open spec fn with_child(self, workspace: Tree<()>) -> PaneView {
        PaneView { forest: adopt(self.forest, self.current, workspace), ..self }
    }

    /// With the selection kept only if a workspace still carries its id.
    pub open spec fn rebound(self) -> PaneView {
        PaneView { current: refreshed(self.current, flatten(self.forest)), ..self }
    }

    /// With the cursor moved one step in direction `bf`.
    pub open spec fn stepped(self, bf: SelectBF) -> PaneView {
        PaneView { cursor: advance_cursor(flatten(self.forest), self.current, bf), ..self }
    }

    /// The id that a step in direction `bf` selects.
    pub open spec fn step_target(self, bf: SelectBF) -> Option<u128> {
        advance_id(flatten(self.forest), self.current, bf)
    }

    /// Without the selected workspace and everything below it, and without
    /// selection and cursor.
    pub open spec fn without_current(self) -> PaneView {
        PaneView { forest: prune(self.forest, self.current), current: None, cursor: None, ..self }
    }

    /// Without the selected workspace, taken out with everything below it,
    /// and without selection and cursor.
    pub open spec fn detached(self) -> PaneView {
        PaneView {
            forest: match self.current {
                Some(id) => detach(self.forest, id),
                None => self.forest,
            },
            current: None,
            cursor: None,
            ..self
        }
    }

    /// With `change` applied to the selected workspace.
    pub open spec fn with_current_changed(self, change: spec_fn(Tree<()>) -> Tree<()>) -> PaneView {
        match self.current {
            Some(id) => PaneView { forest: update(self.forest, id, change), ..self },
            None => self,
        }
    }

    /// The ids of the selected workspace and of everything below it; none
    /// without a selection that is still there.
    pub open spec fn selected_ids(self) -> Seq<u128> {
        match self.selected() {
            Some(t) => seq![t.id] + flatten(t.children),
            None => Seq::empty(),
        }
    }

    /// The selected workspace with everything below it, when a workspace
    /// carries the selected id.
    pub open spec fn selected(self) -> Option<Tree<()>> {
        match self.current {
            Some(id) => find(self.forest, id),
            None => None,
        }
    }
}

impl View for WorkspaceWidget {
    type V = PaneView;

    open spec fn view(&self) -> PaneView {
        PaneView {
            forest: workspace_forest(self.workspaces@),
            current: self.current_workspace,
            focused: self.focused,
            cursor: self.ws_state,
            kind: self.ws_type,
        }
    }
}

impl WorkspaceWidget {
    /// The model of the workspace forest.
    pub open spec fn forest(&self) -> Seq<Tree<()>> {
        workspace_forest(self.workspaces@)
    }

    /// An empty, focused pane of the given kind.
    pub fn new(ws_type: WorkspaceType) -> (widget: Self)
        ensures
            widget@ == PaneView::empty(ws_type),
            widget.workspaces@.len() == 0,
    {
        let widget = WorkspaceWidget {
            workspaces: Vec::new(),
            current_workspace: None,
            focused: true,
            ws_state: None,
            ws_type,
        };
        proof {
            lemma_workspace_forest(widget.workspaces@);
            assert(widget@.forest =~= Seq::<Tree<()>>::empty());
        }
        widget
    }

    /// Appends `workspace` as the last root.
    pub fn add_workspace(&mut self, workspace: Workspace)
        ensures
            final(self)@ == old(self)@.with_root(workspace@),
    {
        self.workspaces.push(workspace);
        proof {
            lemma_workspace_forest(self.workspaces@);
            lemma_workspace_forest(old(self).workspaces@);
            assert(self.forest() =~= old(self).forest().push(workspace@));
        }
    }

    /// Appends `workspace` as the last child of the selected workspace.
    /// Without a selection, or with one whose id is no longer in the
    /// forest, `workspace` becomes the last root instead.
    pub fn add_child_workspace(&mut self, workspace: Workspace)
        ensures
            final(self)@ == old(self)@.with_child(workspace@),
    {
        insert_child(&mut self.workspaces, self.current_workspace, workspace);
    }

    /// Re-binds the selection to the workspaces now in the forest: it is
    /// kept when a workspace still carries its id and dropped otherwise.
    pub fn refresh_current(&mut self)
        ensures
            final(self)@ == old(self)@.rebound(),
            final(self).workspaces == old(self).workspaces,
    {
        if self.current_workspace.is_some() {
            let ids = flatten_workspaces(&self.workspaces);
            self.current_workspace = refresh(self.current_workspace, &ids);
        }
    }

    /// Deletes the workspace carrying `cur_ws`, with everything below it,
    /// from `workspaces`. Returns whether the id was present.
    pub fn delete_item(workspaces: &mut Vec<Workspace>, cur_ws: u128) -> (found: bool)
        ensures
            workspace_forest(final(workspaces)@) == delete(
                workspace_forest(old(workspaces)@),
                cur_ws,
            ),
            found == contains_id(workspace_forest(old(workspaces)@), cur_ws),
    {
        delete_workspace(workspaces, cur_ws)
    }

    /// Deletes the selected workspace with everything below it, then clears
    /// the selection and the cursor.
    pub fn delete_current(&mut self)
        ensures
            final(self)@ == old(self)@.without_current(),
    {
        match self.current_workspace {
            Some(id) => {
                let _ = WorkspaceWidget::delete_item(&mut self.workspaces, id);
            },
            None => {},
        }
        self.current_workspace = None;
        self.ws_state = None;
    }

    /// Takes the selected workspace out of the pane, with everything below
    /// it, and clears the selection and the cursor.
    pub fn take_current(&mut self) -> (taken: Option<Workspace>)
        ensures
            final(self)@ == old(self)@.detached(),
            match taken {
                Some(ws) => old(self)@.selected() == Some(ws@),
                None => old(self)@.selected() is None,
            },
    {
        let taken = match self.current_workspace {
            Some(id) => take_workspace(&mut self.workspaces, id),
            None => None,
        };
        self.current_workspace = None;
        self.ws_state = None;
        taken
    }

    /// Applies `edit` to the selected workspace. Returns whether there was
    /// a selection and a workspace carried its id.
    pub fn edit_current(&mut self, edit: WorkspaceEdit) -> (done: bool)
        ensures
            final(self)@ == old(self)@.with_current_changed(edit.change()),
            done == (old(self)@.selected() is Some),
    {
        proof {
            if self.current_workspace is Some {
                lemma_find_from(self.forest(), 0, self.current_workspace->0);
            }
        }
        match self.current_workspace {
            Some(id) => edit_workspace(&mut self.workspaces, id, edit).is_none(),
            None => false,
        }
    }

    /// A copy of this pane and of every workspace in it.
    pub fn deep_copy(&self) -> (copy: WorkspaceWidget)
        ensures
            copy@ == self@,
    {
        let mut workspaces: Vec<Workspace> = Vec::new();
        let mut i: usize = 0;
        while i < self.workspaces.len()
            invariant
                i <= self.workspaces.len(),
                workspaces@.len() == i,
                forall|j: int| 0 <= j < i ==> (#[trigger] workspaces@[j])@ == self.workspaces@[j]@,
            decreases self.workspaces.len() - i,
        {
            workspaces.push(self.workspaces[i].deep_copy());
            i += 1;
        }
        proof {
            lemma_workspace_forest(workspaces@);
            lemma_workspace_forest(self.workspaces@);
            assert(workspace_forest(workspaces@) =~= workspace_forest(self.workspaces@));
        }
        WorkspaceWidget {
            workspaces,
            current_workspace: self.current_workspace,
            focused: self.focused,
            ws_state: self.ws_state,
            ws_type: self.ws_type,
        }
    }

    /// The selected workspace, when a workspace carries the selected id.
    pub fn selected(&self) -> (hit: Option<&Workspace>)
        ensures
            match hit {
                Some(ws) => self@.selected() == Some(ws@),
                None => self@.selected() is None,
            },
    {
        match self.current_workspace {
            Some(id) => find_workspace(&self.workspaces, id),
            None => None,
        }
    }
}

impl SelectAction<Workspace> for WorkspaceWidget {
    open spec fn walked(&self) -> Seq<u128> {
        flatten(self@.forest)
    }

    open spec fn selection(&self) -> Option<u128> {
        self.current_workspace
    }

    open spec fn cursor(&self) -> Option<usize> {
        self.ws_state
    }

    open spec fn flattened(target: Seq<Workspace>) -> Seq<u128> {
        flatten(workspace_forest(target))
    }

    /// Moves the cursor one step over the flattened forest and returns the
    /// id selected afterwards.
    fn get_selected_bf(&mut self, bf: SelectBF) -> (selected: Option<u128>)
        ensures
            final(self)@ == old(self)@.stepped(bf),
            selected == old(self)@.step_target(bf),
            final(self).workspaces == old(self).workspaces,
    {
        let ids = flatten_workspaces(&self.workspaces);
        let moved = advance(self.current_workspace, &ids, bf);
        self.ws_state = moved.1;
        moved.0
    }

    fn get_flattened(target: &Vec<Workspace>) -> (ids: Vec<u128>)
        ensures
            ids@ == flatten(workspace_forest(target@)),
    {
        flatten_workspaces(target)
    }
}

/// Indentation for depth `dep`: two blanks per level.
pub open spec fn indent(dep: nat) -> Seq<char> {
    Seq::new(2 * dep, |i: int| ' ')
}

/// The mark in front of a workspace's name: none without children, one for
/// an expanded workspace with children, another for a collapsed one.
pub open spec fn fold_mark(t: Tree<()>) -> Seq<char> {
    if t.children.len() == 0 {
        Seq::empty()
    } else if t.expanded {
        "∨ "@
    } else {
        "﹥ "@
    }
}

/// The lines that display the workspaces `forest[k..]` at depth `dep`: for
/// each workspace its indented, marked name, followed by the lines of its
/// children two levels deeper. There is one line for every workspace, in
/// the order in which a selection walks them.
pub open spec fn ws_lines_from(forest: Seq<Tree<()>>, k: int, dep: nat) -> Seq<Seq<char>>
    decreases forest, forest.len() - k,
{
    if k < 0 || k >= forest.len() {
        Seq::empty()
    } else {
        seq![indent(dep) + fold_mark(forest[k]) + forest[k].label] + ws_lines_from(
            forest[k].children,
            0,
            dep + 2,
        ) + ws_lines_from(forest, k + 1, dep)
    }
}

/// There is one line for each workspace: the row of a workspace is its
/// place in the sequence that a selection walks.
pub proof fn lemma_ws_lines_len(forest: Seq<Tree<()>>, k: int, dep: nat)
    requires
        0 <= k,
    ensures
        ws_lines_from(forest, k, dep).len() == flatten_from(forest, k).len(),
    decreases forest, forest.len() - k,
{
    if k < forest.len() {
        lemma_ws_lines_len(forest[k].children, 0, dep + 2);
        lemma_ws_lines_len(forest, k + 1, dep);
    }
}

/// The character sequences of a sequence of strings, in order.
pub open spec fn texts(lines: Seq<String>) -> Seq<Seq<char>> {
    Seq::new(lines.len(), |i: int| lines[i]@)
}

/// The lines of `workspaces` behind the indentation `pad`, which is that of
/// depth `dep`.
fn lines_indented(workspaces: &Vec<Workspace>, pad: &str, Ghost(dep): Ghost<nat>) -> (lines: Vec<
    String,
>)
    requires
        pad@ == indent(dep),
    ensures
        texts(lines@) == ws_lines_from(workspace_forest(workspaces@), 0, dep),
    decreases workspaces,
{
    let ghost forest = workspace_forest(workspaces@);
    let mut lines: Vec<String> = Vec::new();
    let mut i: usize = 0;
    proof {
        lemma_workspace_forest(workspaces@);
        assert(texts(lines@) + ws_lines_from(forest, 0, dep) =~= ws_lines_from(forest, 0, dep));
    }
    while i < workspaces.len()
        invariant
            i <= workspaces.len(),
            forest == workspace_forest(workspaces@),
            forest.len() == workspaces.len(),
            pad@ == indent(dep),
            texts(lines@) + ws_lines_from(forest, i as int, dep) == ws_lines_from(forest, 0, dep),
        decreases workspaces.len() - i,
    {
        let ghost so_far = texts(lines@);
        let item = &workspaces[i];
        proof {
            lemma_workspace_forest(workspaces@);
            lemma_workspace_forest(item.children@);
        }
        let mark = if item.children.len() == 0 {
            ""
        } else if item.expanded {
            "∨ "
        } else {
            "﹥ "
        };
        proof {
            reveal_strlit("");
            assert(""@ =~= Seq::<char>::empty());
        }
        let mut line = String::from_str(pad);
        line.append(mark);
        line.append(item.desc.as_str());
        lines.push(line);
        let ghost with_line = texts(lines@);
        proof {
            assert(with_line =~= so_far + seq![indent(dep) + fold_mark(forest[i as int])
                + forest[i as int].label]);
        }
        let mut deeper = String::from_str(pad);
        deeper.append("    ");
        proof {
            reveal_strlit("    ");
            assert(deeper@ =~= indent(dep + 2));
        }
        let mut below = lines_indented(&item.children, deeper.as_str(), Ghost(dep + 2));
        let ghost below_texts = texts(below@);
        lines.append(&mut below);
        proof {
            assert(texts(lines@) =~= with_line + below_texts);
        }
        proof {
            assert(texts(lines@) + ws_lines_from(forest, i + 1, dep) =~= so_far + ws_lines_from(
                forest,
                i as int,
                dep,
            ));
        }
        i += 1;
    }
    proof {
        assert(texts(lines@) + ws_lines_from(forest, i as int, dep) =~= texts(lines@));
    }
    lines
}

impl WorkspaceWidget {
    /// The lines that display `workspaces`, starting at depth `dep`: one
    /// for every workspace, in pre-order, with two blanks of indentation
    /// per level and children two levels below their parent.
    pub fn get_ws_list(workspaces: &Vec<Workspace>, dep: usize) -> (lines: Vec<String>)
        ensures
            texts(lines@) == ws_lines_from(workspace_forest(workspaces@), 0, dep as nat),
    {
        let mut pad = String::new();
        let mut level: usize = 0;
        proof {
            assert(pad@ =~= indent(0));
        }
        while level < dep
            invariant
                level <= dep,
                pad@ == indent(level as nat),
            decreases dep - level,
        {
            pad.append("  ");
            proof {
                reveal_strlit("  ");
                assert(pad@ =~= indent((level + 1) as nat));
            }
            level += 1;
        }
        lines_indented(workspaces, pad.as_str(), Ghost(dep as nat))
    }
}

} // verus!

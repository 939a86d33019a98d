//! Tasks: named nodes with a status that nest, the list of tasks that a
//! workspace owns, and the pane that shows the list of the open workspace.

use crate::date::Date;
use crate::ids::{is_random_id, new_id};
use crate::search::{
    label_is_target, label_matches, matches_search, navigable_ids, search_pred, shown_roots,
};
use crate::tree::{
    adopt, contains_id, delete, delete_from, find, find_from, first_index, flatten, flatten_from,
    lemma_first_index, prune, update, update_from, with_child, with_label, Tree,
};
use crate::tree_laws::{
    lemma_contains_step, lemma_find_from, lemma_flatten_concat_one, lemma_update_keeps_ids,
    lemma_update_shape,
};
use crate::ui::{advance, advance_cursor, advance_id, refresh, refreshed, SelectAction, SelectBF};
use vstd::prelude::*;
use vstd::utf8::encode_utf8;

verus! {

/// Progress of a task.
#[derive(Debug, Clone, Copy, PartialEq, Eq, Structural)]
pub enum TaskStatus {
    Todo,
    InProcess,
    Finished,
    Deprecated,
}

/// How pressing a task is.
#[derive(Debug, Clone, Copy, PartialEq, Eq, Structural)]
pub enum Urgency {
    Critical,
    Important,
    Common,
}

/// What a task carries beyond its place in the tree.
pub struct TaskInfo {
    pub status: TaskStatus,
    pub due: Option<Date>,
    pub urgency: Option<Urgency>,
}

/// A task and the sub-tasks it owns.
#[derive(Debug, PartialEq, Eq)]
pub struct Task {
    pub desc: String,
    pub status: TaskStatus,
    pub expanded: bool,
    pub due: Option<Date>,
    pub children: Vec<Task>,
    pub id: u128,
    pub urgency: Option<Urgency>,
}

/// The model of one task.
pub open spec fn task_tree(w: Task) -> Tree<TaskInfo>
    decreases w, 0nat,
{
    Tree {
        id: w.id,
        label: w.desc@,
        expanded: w.expanded,
        payload: TaskInfo { status: w.status, due: w.due, urgency: w.urgency },
        children: task_forest(w.children@),
    }
}

/// The models of the first `n` tasks of `s`.
pub open spec fn task_forest_upto(s: Seq<Task>, n: nat) -> Seq<Tree<TaskInfo>>
    decreases s, n,
{
    if n == 0 || n > s.len() {
        Seq::empty()
    } else {
        task_forest_upto(s, (n - 1) as nat).push(task_tree(s[n - 1]))
    }
}

/// The model of a sequence of tasks: the model of each, in order.
pub open spec fn task_forest(s: Seq<Task>) -> Seq<Tree<TaskInfo>>
    decreases s, s.len() + 1,
{
    task_forest_upto(s, s.len())
}

impl View for Task {
    type V = Tree<TaskInfo>;

    open spec fn view(&self) -> Tree<TaskInfo> {
        task_tree(*self)
    }
}

/// The model of the first `n` tasks has `n` trees, each the model of the
/// task at the same place.
pub proof fn lemma_task_forest_upto(s: Seq<Task>, n: nat)
    requires
        n <= s.len(),
    ensures
        task_forest_upto(s, n).len() == n,
        forall|i: int| 0 <= i < n ==> (#[trigger] task_forest_upto(s, n)[i]) == s[i]@,
    decreases n,
{
    if n > 0 {
        lemma_task_forest_upto(s, (n - 1) as nat);
    }
}

/// The model of a sequence has one tree per task, each the model of
/// the task at the same place.
pub proof fn lemma_task_forest(s: Seq<Task>)
    ensures
        task_forest(s).len() == s.len(),
        forall|i: int| 0 <= i < s.len() ==> (#[trigger] task_forest(s)[i]) == s[i]@,
{
    lemma_task_forest_upto(s, s.len());
}

/// The subtree `t` with every status replaced by `status`.
pub open spec fn set_status_tree(t: Tree<TaskInfo>, status: TaskStatus) -> Tree<TaskInfo>
    decreases t, 0nat,
{
    Tree {
        payload: TaskInfo { status, ..t.payload },
        children: set_status_upto(t.children, t.children.len(), status),
        ..t
    }
}

/// The first `n` trees of `forest` with every status replaced by `status`.
pub open spec fn set_status_upto(forest: Seq<Tree<TaskInfo>>, n: nat, status: TaskStatus) -> Seq<
    Tree<TaskInfo>,
>
    decreases forest, n,
{
    if n == 0 || n > forest.len() {
        Seq::empty()
    } else {
        set_status_upto(forest, (n - 1) as nat, status).push(
            set_status_tree(forest[n - 1], status),
        )
    }
}

/// The change that sets the status of a task and of everything below it.
pub open spec fn with_status(status: TaskStatus) -> spec_fn(Tree<TaskInfo>) -> Tree<TaskInfo> {
    |t: Tree<TaskInfo>| set_status_tree(t, status)
}

/// The change that sets or clears a task's due date.
pub open spec fn with_due(due: Option<Date>) -> spec_fn(Tree<TaskInfo>) -> Tree<TaskInfo> {
    |t: Tree<TaskInfo>| Tree { payload: TaskInfo { due, ..t.payload }, ..t }
}

/// Every node of the subtree `t` has status `status`.
pub open spec fn all_status(t: Tree<TaskInfo>, status: TaskStatus) -> bool
    decreases t,
{
    &&& t.payload.status == status
    &&& forall|i: int| 0 <= i < t.children.len() ==> all_status(#[trigger] t.children[i], status)
}

/// Setting the status of the first `n` trees gives `n` trees, each the tree
/// at the same place with its status set.
pub proof fn lemma_set_status_upto(forest: Seq<Tree<TaskInfo>>, n: nat, status: TaskStatus)
    requires
        n <= forest.len(),
    ensures
        set_status_upto(forest, n, status).len() == n,
        forall|i: int|
            0 <= i < n ==> (#[trigger] set_status_upto(forest, n, status)[i]) == set_status_tree(
                forest[i],
                status,
            ),
    decreases n,
{
    if n > 0 {
        lemma_set_status_upto(forest, (n - 1) as nat, status);
    }
}

/// Setting the status of a subtree leaves every id where it was and gives
/// every node of the subtree that status.
pub proof fn lemma_set_status_tree(t: Tree<TaskInfo>, status: TaskStatus)
    ensures
        set_status_tree(t, status).id == t.id,
        set_status_tree(t, status).label == t.label,
        set_status_tree(t, status).children.len() == t.children.len(),
        flatten(set_status_tree(t, status).children) == flatten(t.children),
        all_status(set_status_tree(t, status), status),
    decreases t, 1nat,
{
    lemma_set_status_upto(t.children, t.children.len(), status);
    lemma_set_status_flatten(t.children, 0, status);
    let after = set_status_tree(t, status);
    assert forall|i: int| 0 <= i < after.children.len() implies all_status(
        #[trigger] after.children[i],
        status,
    ) by {
        lemma_set_status_tree(t.children[i], status);
    }
}

/// Setting the status of every tree of a forest leaves every id where it
/// was.
proof fn lemma_set_status_flatten(forest: Seq<Tree<TaskInfo>>, k: int, status: TaskStatus)
    requires
        0 <= k,
    ensures
        flatten_from(set_status_upto(forest, forest.len(), status), k) == flatten_from(forest, k),
    decreases forest, 0nat, forest.len() - k,
{
    lemma_set_status_upto(forest, forest.len(), status);
    if k < forest.len() {
        lemma_set_status_tree(forest[k], status);
        lemma_set_status_flatten(forest, k + 1, status);
    }
}

/// After the status of the task `id` has been set, the task that goes by
/// `id` and every task below it have that status, and every task of the
/// forest is where it was.
pub proof fn lemma_status_reaches_subtree(forest: Seq<Tree<TaskInfo>>, id: u128, status: TaskStatus)
    requires
        contains_id(forest, id),
    ensures
        find(update(forest, id, with_status(status)), id) matches Some(t) && all_status(t, status),
        find(forest, id) matches Some(t) && find(update(forest, id, with_status(status)), id)
            == Some(set_status_tree(t, status)),
        flatten(update(forest, id, with_status(status))) == flatten(forest),
{
    lemma_find_from(forest, 0, id);
    let t = find(forest, id)->0;
    lemma_set_status_tree(t, status);
    lemma_update_keeps_ids(forest, id, with_status(status));
}

/// A change to one task.
#[derive(Debug, PartialEq, Eq)]
pub enum TaskEdit {
    /// Replace the description.
    Rename(String),
    /// Append a child.
    AddChild(Task),
    /// Set the status of the task and of every task below it.
    SetStatus(TaskStatus),
    /// Set or clear the due date.
    SetDue(Option<Date>),
}

impl TaskEdit {
    /// What the edit does to the model of the task it is applied to.
    pub open spec fn change(self) -> spec_fn(Tree<TaskInfo>) -> Tree<TaskInfo> {
        match self {
            TaskEdit::Rename(name) => with_label(name@),
            TaskEdit::AddChild(child) => with_child(child@),
            TaskEdit::SetStatus(status) => with_status(status),
            TaskEdit::SetDue(due) => with_due(due),
        }
    }
}

impl Task {
    /// A task with the given description and due date under an id drawn at
    /// random: status `Todo`, expanded, no urgency, no children.
    pub fn new(desc: String, due: Option<Date>) -> (task: Self)
        ensures
            task@ == (Tree::<TaskInfo> {
                id: task.id,
                label: desc@,
                expanded: true,
                payload: TaskInfo { status: TaskStatus::Todo, due, urgency: None },
                children: Seq::empty(),
            }),
            is_random_id(task.id),
    {
        Task::with_id(new_id(), desc, due)
    }

    /// A task with the given id, description and due date: status `Todo`,
    /// expanded, no urgency, no children.
    pub fn with_id(id: u128, desc: String, due: Option<Date>) -> (task: Self)
        ensures
            task@ == (Tree::<TaskInfo> {
                id,
                label: desc@,
                expanded: true,
                payload: TaskInfo { status: TaskStatus::Todo, due, urgency: None },
                children: Seq::empty(),
            }),
    {
        Task {
            desc,
            status: TaskStatus::Todo,
            expanded: true,
            due,
            children: Vec::new(),
            id,
            urgency: None,
        }
    }

    /// Appends `task` as the last child.
    pub fn add_child(&mut self, task: Task)
        ensures
            final(self)@ == (Tree::<TaskInfo> {
                children: old(self)@.children.push(task@),
                ..old(self)@
            }),
    {
        self.children.push(task);
        proof {
            lemma_task_forest(self.children@);
            lemma_task_forest(old(self).children@);
            assert(self@.children =~= old(self)@.children.push(task@));
        }
    }

    /// A copy of the task and of everything below it.
    pub fn deep_copy(&self) -> (copy: Task)
        ensures
            copy@ == self@,
        decreases self,
    {
        let mut children: Vec<Task> = Vec::new();
        let mut i: usize = 0;
        while i < self.children.len()
            invariant
                i <= self.children.len(),
                children@.len() == i,
                forall|j: int| 0 <= j < i ==> (#[trigger] children@[j])@ == self.children@[j]@,
            decreases self.children.len() - i,
        {
            children.push(self.children[i].deep_copy());
            i += 1;
        }
        proof {
            lemma_task_forest(children@);
            lemma_task_forest(self.children@);
            assert(task_forest(children@) =~= task_forest(self.children@));
        }
        Task {
            desc: self.desc.clone(),
            status: self.status,
            expanded: self.expanded,
            due: self.due,
            children,
            id: self.id,
            urgency: self.urgency,
        }
    }

    /// Replaces the description.
    pub fn rename(&mut self, new_name: String)
        ensures
            final(self)@ == (Tree::<TaskInfo> { label: new_name@, ..old(self)@ }),
    {
        self.desc = new_name;
    }

    /// Sets the status of the task and of every task below it.
    pub fn set_task_status(&mut self, status: TaskStatus)
        ensures
            final(self)@ == set_status_tree(old(self)@, status),
        decreases *old(self),
    {
        self.status = status;
        let ghost before = task_forest(self.children@);
        let mut i: usize = 0;
        proof {
            lemma_task_forest(self.children@);
        }
        while i < self.children.len()
            invariant
                i <= self.children.len(),
                self.children.len() == old(self).children.len(),
                before == task_forest(old(self).children@),
                before.len() == self.children.len(),
                self.desc == old(self).desc,
                self.id == old(self).id,
                self.expanded == old(self).expanded,
                self.due == old(self).due,
                self.urgency == old(self).urgency,
                self.status == status,
                forall|j: int|
                    i <= j < self.children.len() ==> self.children@[j] == old(self).children@[j],
                forall|j: int|
                    0 <= j < i ==> (#[trigger] self.children@[j])@ == set_status_tree(
                        before[j],
                        status,
                    ),
            decreases self.children.len() - i,
        {
            proof {
                lemma_task_forest(old(self).children@);
            }
            assert(decreases_to!(*old(self) => old(self).children@[i as int]));
            self.children[i].set_task_status(status);
            i += 1;
        }
        proof {
            lemma_task_forest(self.children@);
            lemma_set_status_upto(before, before.len(), status);
            assert(self@.children =~= set_status_upto(before, before.len(), status));
        }
    }

    /// Sets or clears the due date.
    pub fn set_due(&mut self, due: Option<Date>)
        ensures
            final(self)@ == (with_due(due))(old(self)@),
    {
        self.due = due;
    }

    /// Whether the search selects the task: some piece of the search
    /// string occurs in its description, or the search selects one of its
    /// children.
    pub fn is_target(&self, search_string: String) -> (hit: bool)
        ensures
            hit == matches_search(self@, search_string@),
        decreases self,
    {
        if label_is_target(self.desc.as_str(), search_string.as_str()) {
            return true;
        }
        proof {
            lemma_task_forest(self.children@);
        }
        let mut i: usize = 0;
        while i < self.children.len()
            invariant
                i <= self.children.len(),
                self@.children.len() == self.children.len(),
                forall|j: int|
                    0 <= j < self.children.len() ==> (#[trigger] self@.children[j])
                        == self.children@[j]@,
                forall|j: int|
                    0 <= j < i ==> !matches_search(#[trigger] self@.children[j], search_string@),
                !label_matches(self@.label, search_string@),
            decreases self.children.len() - i,
        {
            if self.children[i].is_target(search_string.clone()) {
                assert(matches_search(self@.children[i as int], search_string@));
                return true;
            }
            i += 1;
        }
        false
    }

    /// Applies one edit to the task.
    pub fn apply(&mut self, edit: TaskEdit)
        ensures
            final(self)@ == (edit.change())(old(self)@),
            final(self).id == old(self).id,
    {
        match edit {
            TaskEdit::Rename(name) => self.rename(name),
            TaskEdit::AddChild(child) => self.add_child(child),
            TaskEdit::SetStatus(status) => {
                self.set_task_status(status);
            },
            TaskEdit::SetDue(due) => self.set_due(due),
        }
    }
}

/// Deletes by id from a forest of tasks. Returns whether the id was
/// present; when it was not, the forest is left as it was.
pub fn delete_task_item(tasks: &mut Vec<Task>, cur_task: u128) -> (found: bool)
    ensures
        task_forest(final(tasks)@) == delete(task_forest(old(tasks)@), cur_task),
        found == contains_id(task_forest(old(tasks)@), cur_task),
    decreases *old(tasks),
{
    let ghost before = task_forest(tasks@);
    let mut found = false;
    let mut i: usize = 0;
    proof {
        lemma_task_forest(tasks@);
    }
    while i < tasks.len()
        invariant
            i <= tasks.len(),
            tasks.len() == old(tasks).len(),
            before == task_forest(old(tasks)@),
            before.len() == tasks.len(),
            forall|j: int| i <= j < tasks.len() ==> tasks@[j] == old(tasks)@[j],
            task_forest(tasks@).subrange(0, i as int) + delete_from(
                before,
                i as int,
                cur_task,
            ) == delete(before, cur_task),
            found ==> contains_id(before, cur_task),
            !found ==> (contains_id(before, cur_task) <==> flatten_from(before, i as int).contains(
                cur_task,
            )),
        decreases tasks.len() - i,
    {
        let ghost prefix = task_forest(tasks@).subrange(0, i as int);
        let ghost entering = tasks@;
        proof {
            lemma_task_forest(old(tasks)@);
            lemma_task_forest(entering);
            lemma_contains_step(before, i as int, cur_task);
            assert(before[i as int] == entering[i as int]@);
        }
        if tasks[i].id == cur_task {
            tasks.remove(i);
            proof {
                lemma_task_forest(tasks@);
                assert(task_forest(tasks@) =~= prefix + delete_from(
                    before,
                    i as int,
                    cur_task,
                ));
            }
            return true;
        }
        assert(decreases_to!(*old(tasks) => old(tasks)@[i as int].children));
        let inner_found = delete_task_item(&mut tasks[i].children, cur_task);
        found = found || inner_found;
        proof {
            lemma_task_forest(tasks@);
            assert(task_forest(tasks@).subrange(0, i + 1) =~= prefix.push(
                tasks@[i as int]@,
            ));
            assert(prefix.push(tasks@[i as int]@) + delete_from(before, i + 1, cur_task)
                =~= prefix + delete_from(before, i as int, cur_task));
        }
        i += 1;
    }
    proof {
        lemma_task_forest(tasks@);
        assert(task_forest(tasks@).subrange(0, i as int) =~= task_forest(
            tasks@,
        ));
        assert(task_forest(tasks@) + delete_from(before, i as int, cur_task)
            =~= task_forest(tasks@));
    }
    found
}

/// Pre-order ids of a forest of tasks.
pub fn flatten_tasks(target: &Vec<Task>) -> (ids: Vec<u128>)
    ensures
        ids@ == flatten(task_forest(target@)),
    decreases target,
{
    let ghost forest = task_forest(target@);
    let mut ids: Vec<u128> = Vec::new();
    let mut i: usize = 0;
    proof {
        lemma_task_forest(target@);
        assert(ids@ + flatten_from(forest, 0) =~= flatten(forest));
    }
    while i < target.len()
        invariant
            i <= target.len(),
            forest == task_forest(target@),
            forest.len() == target.len(),
            ids@ + flatten_from(forest, i as int) == flatten(forest),
        decreases target.len() - i,
    {
        let ghost so_far = ids@;
        proof {
            lemma_task_forest(target@);
        }
        ids.push(target[i].id);
        let mut below = flatten_tasks(&target[i].children);
        ids.append(&mut below);
        proof {
            assert(ids@ + flatten_from(forest, i + 1) =~= so_far + flatten_from(forest, i as int));
        }
        i += 1;
    }
    proof {
        assert(ids@ + flatten_from(forest, i as int) =~= ids@);
    }
    ids
}

/// The first task in pre-order that carries `id`.
pub fn find_task(target: &Vec<Task>, id: u128) -> (hit: Option<&Task>)
    ensures
        hit is Some <==> contains_id(task_forest(target@), id),
        match hit {
            Some(task) => find(task_forest(target@), id) == Some(task@),
            None => find(task_forest(target@), id) is None,
        },
    decreases target,
{
    let ghost forest = task_forest(target@);
    let mut i: usize = 0;
    proof {
        lemma_task_forest(target@);
        lemma_find_from(forest, 0, id);
    }
    while i < target.len()
        invariant
            i <= target.len(),
            forest == task_forest(target@),
            forest.len() == target.len(),
            find_from(forest, i as int, id) == find(forest, id),
        decreases target.len() - i,
    {
        proof {
            lemma_task_forest(target@);
            lemma_find_from(forest, 0, id);
            lemma_find_from(task_forest(target@[i as int].children@), 0, id);
        }
        if target[i].id == id {
            return Some(&target[i]);
        }
        match find_task(&target[i].children, id) {
            Some(task) => {
                return Some(task);
            },
            None => {},
        }
        i += 1;
    }
    proof {
        lemma_find_from(forest, 0, id);
    }
    None
}

/// Applies `edit` to the first task in pre-order that carries `id`.
/// Hands the edit back, with the forest untouched, when no task does.
pub fn edit_task(tasks: &mut Vec<Task>, id: u128, edit: TaskEdit) -> (back:
    Option<TaskEdit>)
    ensures
        task_forest(final(tasks)@) == update(
            task_forest(old(tasks)@),
            id,
            edit.change(),
        ),
        back is None <==> contains_id(task_forest(old(tasks)@), id),
        back matches Some(e) ==> e == edit && task_forest(final(tasks)@)
            == task_forest(old(tasks)@),
    decreases *old(tasks),
{
    let ghost before = task_forest(tasks@);
    let ghost change = edit.change();
    let mut pending = edit;
    let mut i: usize = 0;
    proof {
        lemma_task_forest(tasks@);
        assert(before.subrange(0, 0) + update_from(before, 0, id, change) =~= update(
            before,
            id,
            change,
        ));
    }
    while i < tasks.len()
        invariant
            i <= tasks.len(),
            tasks.len() == old(tasks).len(),
            forall|j: int| i <= j < tasks.len() ==> tasks@[j] == old(tasks)@[j],
            before == task_forest(old(tasks)@),
            before == task_forest(tasks@),
            before.len() == tasks.len(),
            change == edit.change(),
            pending == edit,
            before.subrange(0, i as int) + update_from(before, i as int, id, change) == update(
                before,
                id,
                change,
            ),
            contains_id(before, id) <==> flatten_from(before, i as int).contains(id),
        decreases tasks.len() - i,
    {
        let ghost entering = tasks@;
        proof {
            lemma_task_forest(entering);
            lemma_task_forest(old(tasks)@);
            lemma_contains_step(before, i as int, id);
            lemma_update_shape(before[i as int].children, 0, id, change);
        }
        if tasks[i].id == id {
            tasks[i].apply(pending);
            proof {
                lemma_task_forest(tasks@);
                assert(task_forest(tasks@) =~= before.subrange(0, i as int)
                    + update_from(before, i as int, id, change));
            }
            return None;
        }
        assert(decreases_to!(*old(tasks) => old(tasks)@[i as int].children));
        match edit_task(&mut tasks[i].children, id, pending) {
            None => {
                proof {
                    lemma_task_forest(tasks@);
                    assert(task_forest(tasks@) =~= before.subrange(0, i as int)
                        + update_from(before, i as int, id, change));
                }
                return None;
            },
            Some(e) => {
                pending = e;
            },
        }
        proof {
            lemma_task_forest(tasks@);
            assert(tasks@[i as int]@ == before[i as int]);
            assert(task_forest(tasks@) =~= before);
            assert(before.subrange(0, i + 1) + update_from(before, i + 1, id, change)
                =~= before.subrange(0, i as int) + update_from(before, i as int, id, change));
        }
        i += 1;
    }
    proof {
        assert(before.subrange(0, i as int) + update_from(before, i as int, id, change)
            =~= before);
    }
    Some(pending)
}

/// Sets the status of the task that carries `id` and of every task below
/// it. Returns whether a task carried the id; when none did, nothing
/// changes.
pub fn set_status_recursive(tasks: &mut Vec<Task>, id: u128, status: TaskStatus) -> (found: bool)
    ensures
        task_forest(final(tasks)@) == update(task_forest(old(tasks)@), id, with_status(status)),
        found == contains_id(task_forest(old(tasks)@), id),
{
    edit_task(tasks, id, TaskEdit::SetStatus(status)).is_none()
}

/// Renames the task that carries `id`. Returns whether a task carried the
/// id; when none did, nothing changes.
pub fn rename_task(tasks: &mut Vec<Task>, id: u128, new_name: String) -> (found: bool)
    ensures
        task_forest(final(tasks)@) == update(task_forest(old(tasks)@), id, with_label(new_name@)),
        found == contains_id(task_forest(old(tasks)@), id),
{
    edit_task(tasks, id, TaskEdit::Rename(new_name)).is_none()
}

/// Sets or clears the due date of the task that carries `id`. Returns
/// whether a task carried the id; when none did, nothing changes.
pub fn set_due(tasks: &mut Vec<Task>, id: u128, due: Option<Date>) -> (found: bool)
    ensures
        task_forest(final(tasks)@) == update(task_forest(old(tasks)@), id, with_due(due)),
        found == contains_id(task_forest(old(tasks)@), id),
{
    edit_task(tasks, id, TaskEdit::SetDue(due)).is_none()
}

/// Adds `task` as the last child of the task that carries `parent`; as the
/// last root when there is no parent or no task carries the parent's id.
pub fn insert_child_task(tasks: &mut Vec<Task>, parent: Option<u128>, task: Task)
    ensures
        task_forest(final(tasks)@) == adopt(task_forest(old(tasks)@), parent, task@),
{
    let orphan = match parent {
        Some(id) => match edit_task(tasks, id, TaskEdit::AddChild(task)) {
            Some(TaskEdit::AddChild(back)) => Some(back),
            _ => None,
        },
        None => Some(task),
    };
    match orphan {
        Some(root) => {
            let ghost before = tasks@;
            tasks.push(root);
            proof {
                lemma_task_forest(tasks@);
                lemma_task_forest(before);
                assert(task_forest(tasks@) =~= task_forest(before).push(root@));
            }
        },
        None => {},
    }
}

/// The tasks of one workspace, with the selected task and the cursor of
/// the list that displays them.
#[derive(Debug, PartialEq, Eq)]
pub struct TodoList {
    /// Id of the workspace that owns this list.
    pub workspace: u128,
    pub tasks: Vec<Task>,
    /// Id of the selected task.
    pub current_task: Option<u128>,
    /// Row of the selected task in the displayed list.
    pub state: Option<usize>,
}

/// The model of a task list.
pub struct ListView {
    /// Id of the workspace that owns the list.
    pub workspace: u128,
    pub forest: Seq<Tree<TaskInfo>>,
    /// Id of the selected task.
    pub current: Option<u128>,
    /// Row of the selected task in the displayed list.
    pub cursor: Option<usize>,
}

impl ListView {
    /// The empty list of workspace `ws`.
    pub open spec fn empty(ws: u128) -> ListView {
        ListView { workspace: ws, forest: Seq::empty(), current: None, cursor: None }
    }

    /// With `task` as the last root.
    pub open spec fn with_root(self, task: Tree<TaskInfo>) -> ListView {
        ListView { forest: self.forest.push(task), ..self }
    }

    /// With `task` below the selected task, or as the last root when there
    /// is no selection or its id is gone.
    pub open spec fn with_child(self, task: Tree<TaskInfo>) -> ListView {
        ListView { forest: adopt(self.forest, self.current, task), ..self }
    }

    /// Without selection and cursor.
    pub open spec fn deselected(self) -> ListView {
        ListView { current: None, cursor: None, ..self }
    }

    /// With the selection kept only if a task still carries its id.
    pub open spec fn rebound(self) -> ListView {
        ListView { current: refreshed(self.current, flatten(self.forest)), ..self }
    }

    /// Without the selected task and everything below it, and without
    /// selection and cursor.
    pub open spec fn without_current(self) -> ListView {
        ListView { forest: prune(self.forest, self.current), current: None, cursor: None, ..self }
    }

    /// With `change` applied to the selected task.
    pub open spec fn with_current_changed(
        self,
        change: spec_fn(Tree<TaskInfo>) -> Tree<TaskInfo>,
    ) -> ListView {
        match self.current {
            Some(id) => ListView { forest: update(self.forest, id, change), ..self },
            None => self,
        }
    }

    /// The ids a selection moves over under `search`.
    pub open spec fn navigable(self, search: Seq<char>) -> Seq<u128> {
        navigable_ids(self.forest, search)
    }

    /// With the cursor moved one step in direction `bf`.
    pub open spec fn stepped(self, search: Seq<char>, bf: SelectBF) -> ListView {
        ListView { cursor: advance_cursor(self.navigable(search), self.current, bf), ..self }
    }

    /// The id that a step in direction `bf` selects.
    pub open spec fn step_target(self, search: Seq<char>, bf: SelectBF) -> Option<u128> {
        advance_id(self.navigable(search), self.current, bf)
    }
}

impl View for TodoList {
    type V = ListView;

    open spec fn view(&self) -> ListView {
        ListView {
            workspace: self.workspace,
            forest: task_forest(self.tasks@),
            current: self.current_task,
            cursor: self.state,
        }
    }
}

impl TodoList {
    /// The model of the task forest.
    pub open spec fn forest(&self) -> Seq<Tree<TaskInfo>> {
        task_forest(self.tasks@)
    }

    /// An empty list for workspace `ws_id`.
    pub fn new(ws_id: u128) -> (list: Self)
        ensures
            list@ == ListView::empty(ws_id),
            list.tasks@.len() == 0,
    {
        let list =
            TodoList { workspace: ws_id, tasks: Vec::new(), current_task: None, state: None };
        proof {
            lemma_task_forest(list.tasks@);
            assert(list@.forest =~= Seq::<Tree<TaskInfo>>::empty());
        }
        list
    }

    /// Appends `task` as the last root.
    pub fn add_task(&mut self, task: Task)
        ensures
            final(self)@ == old(self)@.with_root(task@),
    {
        self.tasks.push(task);
        proof {
            lemma_task_forest(self.tasks@);
            lemma_task_forest(old(self).tasks@);
            assert(self.forest() =~= old(self).forest().push(task@));
        }
    }

    /// Appends `task` as the last child of the selected task. Without a
    /// selection, or with one whose id is no longer in the list, `task`
    /// becomes the last root instead.
    pub fn add_child_task(&mut self, task: Task)
        ensures
            final(self)@ == old(self)@.with_child(task@),
    {
        insert_child_task(&mut self.tasks, self.current_task, task);
    }

    /// Clears the selection and the cursor.
    pub fn set_current_task_none(&mut self)
        ensures
            final(self)@ == old(self)@.deselected(),
            final(self).tasks == old(self).tasks,
    {
        self.state = None;
        self.current_task = None;
    }

    /// Re-binds the selection to the tasks now in the list: it is kept when
    /// a task still carries its id and dropped otherwise.
    pub fn refresh_current_task(&mut self)
        ensures
            final(self)@ == old(self)@.rebound(),
            final(self).tasks == old(self).tasks,
    {
        if self.current_task.is_some() {
            let ids = flatten_tasks(&self.tasks);
            self.current_task = refresh(self.current_task, &ids);
        }
    }

    /// Deletes the task carrying `cur_task`, with everything below it, from
    /// `tasks`. Returns whether the id was present.
    pub fn delete_item(cur_task: u128, tasks: &mut Vec<Task>) -> (found: bool)
        ensures
            task_forest(final(tasks)@) == delete(task_forest(old(tasks)@), cur_task),
            found == contains_id(task_forest(old(tasks)@), cur_task),
    {
        delete_task_item(tasks, cur_task)
    }

    /// Deletes the selected task with everything below it, then clears the
    /// selection and the cursor.
    pub fn delete_task(&mut self)
        ensures
            final(self)@ == old(self)@.without_current(),
    {
        match self.current_task {
            Some(id) => {
                let _ = TodoList::delete_item(id, &mut self.tasks);
            },
            None => {},
        }
        self.current_task = None;
        self.state = None;
    }

    /// A copy of this list and of every task in it.
    pub fn deep_copy(&self) -> (copy: TodoList)
        ensures
            copy@ == self@,
    {
        let mut tasks: Vec<Task> = Vec::new();
        let mut i: usize = 0;
        while i < self.tasks.len()
            invariant
                i <= self.tasks.len(),
                tasks@.len() == i,
                forall|j: int| 0 <= j < i ==> (#[trigger] tasks@[j])@ == self.tasks@[j]@,
            decreases self.tasks.len() - i,
        {
            tasks.push(self.tasks[i].deep_copy());
            i += 1;
        }
        proof {
            lemma_task_forest(tasks@);
            lemma_task_forest(self.tasks@);
            assert(task_forest(tasks@) =~= task_forest(self.tasks@));
        }
        TodoList {
            workspace: self.workspace,
            tasks,
            current_task: self.current_task,
            state: self.state,
        }
    }

    /// Applies `edit` to the selected task. Returns whether there was a
    /// selection and a task carried its id.
    pub fn edit_current(&mut self, edit: TaskEdit) -> (done: bool)
        ensures
            final(self)@ == old(self)@.with_current_changed(edit.change()),
            done == (old(self).current_task is Some && contains_id(
                old(self).forest(),
                old(self).current_task->0,
            )),
    {
        match self.current_task {
            Some(id) => edit_task(&mut self.tasks, id, edit).is_none(),
            None => false,
        }
    }

    /// Copies of the roots that are shown under `search`, each with
    /// everything below it.
    pub fn shown_tasks(&self, search: &str) -> (shown: Vec<Task>)
        ensures
            task_forest(shown@) == shown_roots(self.forest(), search@),
    {
        let ghost forest = self.forest();
        let ghost pred = search_pred::<TaskInfo>(search@);
        let unfiltered = search.is_empty();
        let mut shown: Vec<Task> = Vec::new();
        let mut i: usize = 0;
        proof {
            lemma_task_forest(self.tasks@);
            lemma_task_forest(shown@);
            assert(forest.subrange(0, 0).filter(pred) =~= Seq::<Tree<TaskInfo>>::empty());
            assert(task_forest(shown@) =~= forest.subrange(0, 0));
        }
        while i < self.tasks.len()
            invariant
                i <= self.tasks.len(),
                forest == task_forest(self.tasks@),
                forest.len() == self.tasks.len(),
                pred == search_pred::<TaskInfo>(search@),
                unfiltered == (search@.len() == 0),
                task_forest(shown@) == if unfiltered {
                    forest.subrange(0, i as int)
                } else {
                    forest.subrange(0, i as int).filter(pred)
                },
            decreases self.tasks.len() - i,
        {
            let ghost kept = task_forest(shown@);
            let ghost before = shown@;
            proof {
                lemma_task_forest(self.tasks@);
                let one = seq![forest[i as int]];
                assert(forest.subrange(0, i + 1) =~= forest.subrange(0, i as int) + one);
                Seq::filter_distributes_over_add(forest.subrange(0, i as int), one, pred);
                reveal_with_fuel(Seq::filter, 2);
                assert(one.drop_last() =~= Seq::<Tree<TaskInfo>>::empty());
                assert(one.filter(pred) =~= if pred(forest[i as int]) {
                    one
                } else {
                    Seq::<Tree<TaskInfo>>::empty()
                });
            }
            if unfiltered || self.tasks[i].is_target(search.to_owned()) {
                shown.push(self.tasks[i].deep_copy());
                proof {
                    lemma_task_forest(shown@);
                    lemma_task_forest(before);
                    assert(task_forest(shown@) =~= kept + seq![forest[i as int]]);
                }
            } else {
                proof {
                    assert(kept + Seq::<Tree<TaskInfo>>::empty() =~= kept);
                }
            }
            i += 1;
        }
        proof {
            assert(forest.subrange(0, i as int) =~= forest);
        }
        shown
    }

    /// The ids a selection moves over in this list under `search`.
    pub fn navigable(&self, search: &str) -> (ids: Vec<u128>)
        ensures
            ids@ == navigable_ids(self.forest(), search@),
    {
        if search.is_empty() {
            return flatten_tasks(&self.tasks);
        }
        let ghost forest = self.forest();
        let ghost pred = search_pred::<TaskInfo>(search@);
        let mut ids: Vec<u128> = Vec::new();
        let mut i: usize = 0;
        proof {
            lemma_task_forest(self.tasks@);
            assert(forest.subrange(0, 0).filter(pred) =~= Seq::<Tree<TaskInfo>>::empty());
        }
        while i < self.tasks.len()
            invariant
                i <= self.tasks.len(),
                forest == task_forest(self.tasks@),
                forest.len() == self.tasks.len(),
                pred == search_pred::<TaskInfo>(search@),
                ids@ == flatten(forest.subrange(0, i as int).filter(pred)),
            decreases self.tasks.len() - i,
        {
            let ghost kept = forest.subrange(0, i as int).filter(pred);
            proof {
                lemma_task_forest(self.tasks@);
                let one = seq![forest[i as int]];
                assert(forest.subrange(0, i + 1) =~= forest.subrange(0, i as int) + one);
                Seq::filter_distributes_over_add(forest.subrange(0, i as int), one, pred);
                reveal_with_fuel(Seq::filter, 2);
                assert(one.drop_last() =~= Seq::<Tree<TaskInfo>>::empty());
                assert(one.filter(pred) =~= if pred(forest[i as int]) {
                    one
                } else {
                    Seq::<Tree<TaskInfo>>::empty()
                });
            }
            if self.tasks[i].is_target(search.to_owned()) {
                ids.push(self.tasks[i].id);
                let mut below = flatten_tasks(&self.tasks[i].children);
                ids.append(&mut below);
                proof {
                    lemma_flatten_concat_one(kept, forest[i as int]);
                    assert(kept + seq![forest[i as int]] =~= kept.push(forest[i as int]));
                }
            } else {
                proof {
                    assert(kept + Seq::<Tree<TaskInfo>>::empty() =~= kept);
                }
            }
            i += 1;
        }
        proof {
            assert(forest.subrange(0, i as int) =~= forest);
        }
        ids
    }
}

/// The workspace ids that a sequence of lists is keyed to, in order.
pub open spec fn list_keys(lists: Seq<ListView>) -> Seq<u128> {
    Seq::new(lists.len(), |i: int| lists[i].workspace)
}

/// Place of the list keyed to workspace `ws`: the first with that key.
pub open spec fn list_at(lists: Seq<ListView>, ws: u128) -> Option<int> {
    let at = first_index(list_keys(lists), ws);
    if at < lists.len() {
        Some(at as int)
    } else {
        None
    }
}

/// The models of a sequence of task lists, in order.
pub open spec fn list_views(lists: Seq<TodoList>) -> Seq<ListView> {
    Seq::new(lists.len(), |i: int| lists[i]@)
}

/// The model of the task pane.
pub struct TasksView {
    pub lists: Seq<ListView>,
    /// Id of the workspace whose list is on display.
    pub current: Option<u128>,
    pub focused: bool,
    /// The active filter; empty when none is.
    pub search: Seq<char>,
}

impl TasksView {
    /// Place of the list on display.
    pub open spec fn current_list(self) -> Option<int> {
        match self.current {
            Some(ws) => list_at(self.lists, ws),
            None => None,
        }
    }

    /// With `change` applied to the list on display.
    pub open spec fn with_current(self, change: spec_fn(ListView) -> ListView) -> TasksView {
        match self.current_list() {
            Some(k) => TasksView { lists: self.lists.update(k, change(self.lists[k])), ..self },
            None => self,
        }
    }

    /// With the list of `workspace` on display and its selection re-bound.
    /// Unchanged without a workspace; with nothing on display when no list
    /// is keyed to the workspace.
    pub open spec fn showing(self, workspace: Option<u128>) -> TasksView {
        match workspace {
            None => self,
            Some(ws) => match list_at(self.lists, ws) {
                None => TasksView { current: None, ..self },
                Some(k) => TasksView {
                    lists: self.lists.update(k, self.lists[k].rebound()),
                    current: Some(ws),
                    ..self
                },
            },
        }
    }

    /// With the selection of every list re-bound to its own tasks, and with
    /// nothing on display unless a list is keyed to what was.
    pub open spec fn settled(self) -> TasksView {
        TasksView {
            lists: Seq::new(self.lists.len(), |i: int| self.lists[i].rebound()),
            current: if self.current_list() is Some {
                self.current
            } else {
                None
            },
            ..self
        }
    }

    /// With the list on display stripped of selection and cursor.
    pub open spec fn deselected(self) -> TasksView {
        self.with_current(|l: ListView| l.deselected())
    }

    /// With one more list at the end.
    pub open spec fn with_list(self, list: ListView) -> TasksView {
        TasksView { lists: self.lists.push(list), ..self }
    }

    /// Without the list keyed to `ws`, and with nothing on display.
    pub open spec fn without_list(self, ws: u128) -> TasksView {
        TasksView {
            lists: match list_at(self.lists, ws) {
                Some(k) => self.lists.remove(k),
                None => self.lists,
            },
            current: None,
            ..self
        }
    }

    /// With the cursor of the list on display moved one step.
    pub open spec fn stepped(self, bf: SelectBF) -> TasksView {
        match self.current_list() {
            Some(k) => TasksView {
                lists: self.lists.update(k, self.lists[k].stepped(self.search, bf)),
                ..self
            },
            None => self,
        }
    }

    /// The id that a step selects in the list on display.
    pub open spec fn step_target(self, bf: SelectBF) -> Option<u128> {
        match self.current_list() {
            Some(k) => self.lists[k].step_target(self.search, bf),
            None => None,
        }
    }
}

impl View for TodoWidget {
    type V = TasksView;

    open spec fn view(&self) -> TasksView {
        TasksView {
            lists: list_views(self.todolists@),
            current: self.current_todolist,
            focused: self.focused,
            search: self.search_string@,
        }
    }
}

/// Every task list there is, the one on display, and the active filter.
#[derive(Debug, PartialEq, Eq)]
pub struct TodoWidget {
    pub todolists: Vec<TodoList>,
    /// Id of the workspace whose list is on display.
    pub current_todolist: Option<u128>,
    pub focused: bool,
    /// The active filter; empty when none is.
    pub search_string: String,
}

impl TodoWidget {
    /// No lists, nothing on display, not focused, no filter.
    pub fn new() -> (widget: Self)
        ensures
            widget@ == (TasksView {
                lists: Seq::empty(),
                current: None,
                focused: false,
                search: Seq::empty(),
            }),
    {
        let widget = TodoWidget {
            todolists: Vec::new(),
            current_todolist: None,
            focused: false,
            search_string: String::new(),
        };
        proof {
            assert(widget@.lists =~= Seq::<ListView>::empty());
        }
        widget
    }

    /// Place of the list keyed to workspace `ws`.
    pub fn find_list(&self, ws: u128) -> (at: Option<usize>)
        ensures
            match at {
                Some(k) => list_at(self@.lists, ws) == Some(k as int) && k < self.todolists@.len()
                    && self.todolists@[k as int].workspace == ws,
                None => list_at(self@.lists, ws) is None,
            },
            at is None <==> forall|j: int|
                0 <= j < self.todolists@.len() ==> self.todolists@[j].workspace != ws,
    {
        let ghost keys = list_keys(list_views(self.todolists@));
        let mut i: usize = 0;
        while i < self.todolists.len()
            invariant
                i <= self.todolists.len(),
                keys == list_keys(list_views(self.todolists@)),
                forall|j: int| 0 <= j < i ==> self.todolists@[j].workspace != ws,
            decreases self.todolists.len() - i,
        {
            if self.todolists[i].workspace == ws {
                proof {
                    lemma_first_index(keys, ws);
                    assert(keys[i as int] == ws);
                    assert forall|j: int| 0 <= j < i implies keys[j] != ws by {}
                    if first_index(keys, ws) > i {
                        assert(keys[i as int] != ws);
                    }
                }
                return Some(i);
            }
            i += 1;
        }
        proof {
            lemma_first_index(keys, ws);
            if keys.contains(ws) {
                let j = choose|j: int| 0 <= j < keys.len() && keys[j] == ws;
                assert(self.todolists@[j].workspace == ws);
            }
        }
        None
    }

    /// A copy of this pane and of every list in it.
    pub fn deep_copy(&self) -> (copy: TodoWidget)
        ensures
            copy@ == self@,
    {
        let mut todolists: Vec<TodoList> = Vec::new();
        let mut i: usize = 0;
        while i < self.todolists.len()
            invariant
                i <= self.todolists.len(),
                todolists@.len() == i,
                forall|j: int| 0 <= j < i ==> (#[trigger] todolists@[j])@ == self.todolists@[j]@,
            decreases self.todolists.len() - i,
        {
            todolists.push(self.todolists[i].deep_copy());
            i += 1;
        }
        proof {
            assert(list_views(todolists@) =~= list_views(self.todolists@));
        }
        TodoWidget {
            todolists,
            current_todolist: self.current_todolist,
            focused: self.focused,
            search_string: self.search_string.clone(),
        }
    }

    /// Place of the list on display.
    pub fn current_index(&self) -> (at: Option<usize>)
        ensures
            match at {
                Some(k) => self@.current_list() == Some(k as int) && k < self.todolists@.len(),
                None => self@.current_list() is None,
            },
    {
        match self.current_todolist {
            Some(ws) => self.find_list(ws),
            None => None,
        }
    }

    /// Puts the list of `workspace` on display and re-binds that list's
    /// selection to its tasks. Without a workspace nothing changes; when no
    /// list is keyed to the workspace, nothing is on display afterwards.
    pub fn change_current_list(&mut self, workspace: &Option<u128>)
        ensures
            final(self)@ == old(self)@.showing(*workspace),
    {
        match *workspace {
            Some(ws) => {
                match self.find_list(ws) {
                    Some(k) => {
                        self.todolists[k].refresh_current_task();
                        self.current_todolist = Some(ws);
                        proof {
                            assert(self@.lists =~= old(self)@.lists.update(
                                k as int,
                                old(self)@.lists[k as int].rebound(),
                            ));
                        }
                    },
                    None => {
                        self.current_todolist = None;
                    },
                }
            },
            None => {},
        }
    }

    /// Re-binds the selection of every list to the tasks now in it, and
    /// takes off display a list that is not there.
    pub fn refresh_all(&mut self)
        ensures
            final(self)@ == old(self)@.settled(),
    {
        if self.current_index().is_none() {
            self.current_todolist = None;
        }
        let mut i: usize = 0;
        while i < self.todolists.len()
            invariant
                i <= self.todolists.len(),
                self.todolists@.len() == old(self).todolists@.len(),
                self.focused == old(self).focused,
                self.search_string == old(self).search_string,
                self.current_todolist == old(self)@.settled().current,
                forall|j: int|
                    0 <= j < i ==> (#[trigger] self.todolists@[j])@
                        == old(self).todolists@[j]@.rebound(),
                forall|j: int|
                    i <= j < self.todolists@.len() ==> (#[trigger] self.todolists@[j])
                        == old(self).todolists@[j],
            decreases self.todolists.len() - i,
        {
            self.todolists[i].refresh_current_task();
            i += 1;
        }
        proof {
            assert(self@.lists =~= old(self)@.settled().lists);
        }
    }

    /// Clears the selection and cursor of the list on display.
    pub fn set_cur_task_none(&mut self)
        ensures
            final(self)@ == old(self)@.deselected(),
    {
        match self.current_index() {
            Some(k) => {
                self.todolists[k].set_current_task_none();
                proof {
                    assert(self@.lists =~= old(self)@.lists.update(
                        k as int,
                        old(self)@.lists[k as int].deselected(),
                    ));
                }
            },
            None => {},
        }
    }

    /// Appends a list.
    pub fn add_list(&mut self, list: TodoList)
        ensures
            final(self)@ == old(self)@.with_list(list@),
    {
        self.todolists.push(list);
        proof {
            assert(self@.lists =~= old(self)@.lists.push(list@));
        }
    }

    /// Removes the list keyed to workspace `tar_ws`, if there is one, and
    /// takes whatever list was on display off display.
    pub fn delete_list(&mut self, tar_ws: u128)
        ensures
            final(self)@ == old(self)@.without_list(tar_ws),
    {
        match self.find_list(tar_ws) {
            Some(k) => {
                let _ = self.todolists.remove(k);
                proof {
                    assert(self@.lists =~= old(self)@.lists.remove(k as int));
                }
            },
            None => {},
        }
        self.current_todolist = None;
    }
}

impl SelectAction<Task> for TodoWidget {
    open spec fn walked(&self) -> Seq<u128> {
        match self@.shown() {
            Some(list) => list.navigable(self@.search),
            None => Seq::empty(),
        }
    }

    open spec fn selection(&self) -> Option<u128> {
        match self@.shown() {
            Some(list) => list.current,
            None => None,
        }
    }

    open spec fn cursor(&self) -> Option<usize> {
        match self@.shown() {
            Some(list) => list.cursor,
            None => None,
        }
    }

    open spec fn flattened(target: Seq<Task>) -> Seq<u128> {
        flatten(task_forest(target))
    }

    /// Moves the cursor of the list on display one step over the ids that
    /// its filter lets through, and returns the id selected afterwards. With
    /// no list on display nothing changes and nothing is selected.
    fn get_selected_bf(&mut self, bf: SelectBF) -> (selected: Option<u128>)
        ensures
            final(self)@ == old(self)@.stepped(bf),
            selected == old(self)@.step_target(bf),
    {
        let k = match self.current_index() {
            Some(k) => k,
            None => {
                return None;
            },
        };
        let ids = self.todolists[k].navigable(self.search_string.as_str());
        let moved = advance(self.todolists[k].current_task, &ids, bf);
        self.todolists[k].state = moved.1;
        proof {
            assert(self@.lists =~= old(self)@.lists.update(
                k as int,
                old(self)@.lists[k as int].stepped(old(self)@.search, bf),
            ));
            assert(list_keys(self@.lists) =~= list_keys(old(self)@.lists));
        }
        moved.0
    }

    fn get_flattened(target: &Vec<Task>) -> (ids: Vec<u128>)
        ensures
            ids@ == flatten(task_forest(target@)),
    {
        flatten_tasks(target)
    }
}

/// Width of a label in the list: the number of bytes of its UTF-8 form.
pub open spec fn label_width(label: Seq<char>) -> nat {
    encode_utf8(label).len()
}

/// The larger of two numbers.
pub open spec fn larger(a: nat, b: nat) -> nat {
    if a >= b {
        a
    } else {
        b
    }
}

/// The widest line among the tasks `forest[k..]` and everything below
/// them, where a task at depth `d` takes its label's width and two columns
/// per level; zero for no tasks.
pub open spec fn max_len_from(forest: Seq<Tree<TaskInfo>>, k: int, dep: nat) -> nat
    decreases forest, forest.len() - k,
{
    if k < 0 || k >= forest.len() {
        0
    } else {
        larger(
            larger(
                label_width(forest[k].label) + 2 * dep,
                max_len_from(forest[k].children, 0, dep + 1),
            ),
            max_len_from(forest, k + 1, dep),
        )
    }
}

impl TodoWidget {
    /// The widest line among `task_list` and everything below it, starting
    /// at depth `dep`. The widths must fit the machine's integers.
    pub fn find_max_tasks_len(task_list: &Vec<Task>, dep: usize) -> (max_len: usize)
        requires
            max_len_from(task_forest(task_list@), 0, dep as nat) <= usize::MAX,
        ensures
            max_len == max_len_from(task_forest(task_list@), 0, dep as nat),
        decreases task_list,
    {
        let ghost forest = task_forest(task_list@);
        let ghost total = max_len_from(forest, 0, dep as nat);
        let mut max_len: usize = 0;
        let mut i: usize = 0;
        proof {
            lemma_task_forest(task_list@);
        }
        while i < task_list.len()
            invariant
                i <= task_list.len(),
                forest == task_forest(task_list@),
                forest.len() == task_list.len(),
                total <= usize::MAX,
                larger(max_len as nat, max_len_from(forest, i as int, dep as nat)) == total,
            decreases task_list.len() - i,
        {
            let item = &task_list[i];
            proof {
                lemma_task_forest(task_list@);
                lemma_task_forest(item.children@);
            }
            let own = item.desc.as_str().len() + dep * 2;
            if own > max_len {
                max_len = own;
            }
            if item.children.len() > 0 {
                let below = TodoWidget::find_max_tasks_len(&item.children, dep + 1);
                if below > max_len {
                    max_len = below;
                }
            }
            i += 1;
        }
        max_len
    }
}

} // verus!

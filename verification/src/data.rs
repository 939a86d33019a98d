//! The snapshot that is saved and loaded: both workspace panes and the task
//! pane, as they stand.

use crate::errors::Errors;
use crate::ui::invariants::lemma_rebound_wf;
use crate::ui::screen::{Ui, UiView};
use crate::ui::todolistwidget::{TasksView, TodoWidget};
use crate::ui::workspacewidget::{PaneView, WorkspaceType, WorkspaceWidget};
use vstd::prelude::*;

verus! {

/// Everything that is saved.
#[derive(Debug, PartialEq, Eq)]
pub struct Datas {
    /// The active workspaces.
    pub workspace: WorkspaceWidget,
    /// The task lists of all workspaces.
    pub todolist: TodoWidget,
    /// The archived workspaces.
    pub archived_ws: WorkspaceWidget,
}

/// The model of a snapshot.
pub struct DatasView {
    pub workspace: PaneView,
    pub todolist: TasksView,
    pub archived_ws: PaneView,
}

impl View for Datas {
    type V = DatasView;

    open spec fn view(&self) -> DatasView {
        DatasView {
            workspace: self.workspace@,
            todolist: self.todolist@,
            archived_ws: self.archived_ws@,
        }
    }
}

impl Default for Datas {
    /// The snapshot of an application that holds nothing yet.
    fn default() -> (datas: Self)
        ensures
            datas@.workspace == PaneView::empty(WorkspaceType::Normal),
            datas@.archived_ws == PaneView::empty(WorkspaceType::Archived),
            datas@.todolist == (TasksView {
                lists: Seq::empty(),
                current: None,
                focused: false,
                search: Seq::empty(),
            }),
    {
        Datas {
            workspace: WorkspaceWidget::new(WorkspaceType::Normal),
            todolist: TodoWidget::new(),
            archived_ws: WorkspaceWidget::new(WorkspaceType::Archived),
        }
    }
}

/// What a state of the renderer saves: its three panes.
pub open spec fn exported(ui: UiView) -> DatasView {
    DatasView { workspace: ui.workspace, todolist: ui.todolist, archived_ws: ui.archived_ws }
}

/// What loading a snapshot into the state `ui` gives: the three panes are
/// replaced and every selection is re-bound to them.
pub open spec fn imported(ui: UiView, datas: DatasView) -> UiView {
    UiView {
        workspace: datas.workspace,
        todolist: datas.todolist,
        archived_ws: datas.archived_ws,
        ..ui
    }.rebound()
}

/// Takes a snapshot of the three panes. The renderer's state is untouched.
pub fn export_snapshot(ui: &Ui) -> (datas: Datas)
    ensures
        datas@ == exported(ui@),
{
    Datas {
        workspace: ui.workspace.deep_copy(),
        todolist: ui.todolist.deep_copy(),
        archived_ws: ui.archived_ws.deep_copy(),
    }
}

/// Loads a snapshot into the renderer's state and re-binds every selection
/// to what was loaded.
pub fn import_snapshot(ui: &mut Ui, datas: Datas)
    ensures
        final(ui)@ == imported(old(ui)@, datas@),
{
    ui.workspace = datas.workspace;
    ui.todolist = datas.todolist;
    ui.archived_ws = datas.archived_ws;
    ui.refresh_current();
}

/// Starts from a snapshot: a fresh state with the snapshot loaded into it.
/// A snapshot that is not consistent is refused; what is loaded is sound.
pub fn load_snapshot(datas: Datas) -> (loaded: Result<Ui, Errors>)
    ensures
        match loaded {
            Ok(ui) => datas@.consistent() && ui@.wf() && exists|fresh: UiView|
                ui@ == #[trigger] imported(fresh, datas@),
            Err(e) => e == Errors::LoadError && !datas@.consistent(),
        },
{
    let mut ui = Ui::new();
    let ghost fresh = ui@;
    ui.workspace = datas.workspace;
    ui.todolist = datas.todolist;
    ui.archived_ws = datas.archived_ws;
    if !ui.is_consistent() {
        return Err(Errors::LoadError);
    }
    proof {
        lemma_rebound_wf(ui@);
    }
    ui.refresh_current();
    proof {
        assert(ui@ == imported(fresh, datas@));
    }
    Ok(ui)
}

/// Saving what was loaded gives back what was loaded, forest for forest:
/// every workspace and every task with its id, label, status, due date and
/// children in their order, and every task list under its key. Only
/// selections may differ, where a snapshot held one that pointed at
/// nothing.
pub proof fn lemma_snapshot_round_trip(ui: UiView, datas: DatasView)
    ensures
        ({
            let back = exported(imported(ui, datas));
            &&& back.workspace.forest == datas.workspace.forest
            &&& back.archived_ws.forest == datas.archived_ws.forest
            &&& back.todolist.lists.len() == datas.todolist.lists.len()
            &&& forall|k: int|
                0 <= k < datas.todolist.lists.len() ==> (#[trigger] back.todolist.lists[k]).forest
                    == datas.todolist.lists[k].forest && back.todolist.lists[k].workspace
                    == datas.todolist.lists[k].workspace
            &&& back.todolist.search == datas.todolist.search
        }),
{
}

} // verus!

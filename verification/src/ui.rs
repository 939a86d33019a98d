//! The widgets that own the forests, and the rules that move a selection
//! through them.

pub mod calendarwidget;
pub mod helpwidget;
pub mod invariants;
pub mod keymap;
pub mod lines;
pub mod model;
pub mod prompt;
pub mod prompts;
pub mod screen;
pub mod todolistwidget;
pub mod workspacewidget;

use crate::appstate::CurrentFocus;
use crate::tree::first_index;
use crate::tree::lemma_first_index;
use crate::ui::todolistwidget::TaskStatus;
use vstd::prelude::*;

verus! {

/// What the dispatcher asks of the actor that owns the forests.
#[derive(Debug, Clone, Copy, PartialEq, Eq, Structural)]
pub enum UiMessage {
    /// Redraw after a change of data.
    Update,
    /// Redraw.
    UpdateUi,
    /// Write everything to disk.
    SaveData,
    /// Act on a widget.
    WAction(WidgetAction),
}

/// An action on one of the widgets.
#[derive(Debug, Clone, Copy, PartialEq, Eq, Structural)]
pub enum WidgetAction {
    /// Add a workspace as a new root.
    AddWorkspace,
    /// Add a workspace below the selected one.
    AddWorkspaceChild,
    /// Add a task as a new root of the list on display.
    AddTask,
    /// Add a task below the selected one.
    AddTaskChild,
    /// Move the selection up.
    SelectUp,
    /// Move the selection down.
    SelectDown,
    /// Show the active workspaces as focused.
    FocusWorkspace,
    /// Show the task list as focused.
    FocusTodolist,
    /// Show the archived workspaces as focused.
    FocusArchivedWorkspace,
    /// Open the task list of the selected active workspace.
    EnterWorkspace,
    /// Open the task list of the selected archived workspace.
    EnterArchivedWorkspace,
    /// Delete the selected active workspace.
    DeleteWorkspace,
    /// Delete the selected archived workspace.
    DeleteArchivedWorkspace,
    /// Delete the selected task.
    DeleteTask,
    /// Give the selected task, and every task below it, a status.
    MarkTaskStatus(TaskStatus),
    /// Move the selected active workspace to the archive.
    ArchiveWS,
    /// Move the selected archived workspace back.
    RecoveryWS,
    /// Rename the selection of the given pane.
    Rename(CurrentFocus),
    /// Ask for a filter and apply it.
    Filter,
    /// Drop the filter.
    ExitFilter,
    /// Open the help page.
    Help,
    /// Close the help page.
    ExitHelp,
    /// Ask for a due date and set it on the selected task.
    Due,
}

/// A step through the results of a search.
#[derive(Debug, Clone, Copy, PartialEq, Eq, Structural)]
pub enum SearchEvent {
    /// To the next result.
    Next,
    /// To the previous result.
    Previous,
    /// Leave the search.
    Exit,
}

/// Direction of a selection move.
#[derive(Debug, Clone, Copy, PartialEq, Eq, Structural)]
pub enum SelectBF {
    /// Towards the start of the list.
    Back,
    /// Towards the end of the list.
    Forward,
}

/// The position the cursor lands on when a selection moves over `seq`.
///
/// Nothing can be selected in an empty sequence. A selection that is absent,
/// or whose id no longer occurs, re-anchors: at the first entry when moving
/// forward, at the last when moving back. Otherwise the cursor moves one
/// step from the first occurrence of the selected id and stops at the ends.
pub open spec fn advance_index(seq: Seq<u128>, current: Option<u128>, bf: SelectBF) -> Option<
    int,
> {
    if seq.len() == 0 {
        None
    } else if current is Some && seq.contains(current->0) {
        let at = first_index(seq, current->0) as int;
        match bf {
            SelectBF::Back => Some(if at == 0 { 0 } else { at - 1 }),
            SelectBF::Forward => Some(if at + 1 < seq.len() { at + 1 } else { at }),
        }
    } else {
        match bf {
            SelectBF::Back => Some(seq.len() - 1),
            SelectBF::Forward => Some(0),
        }
    }
}

/// The cursor position as the widgets store it.
pub open spec fn advance_cursor(seq: Seq<u128>, current: Option<u128>, bf: SelectBF) -> Option<
    usize,
> {
    match advance_index(seq, current, bf) {
        Some(i) => Some(i as usize),
        None => None,
    }
}

/// The id a selection holds after moving over `seq`.
pub open spec fn advance_id(seq: Seq<u128>, current: Option<u128>, bf: SelectBF) -> Option<u128> {
    match advance_index(seq, current, bf) {
        Some(i) => Some(seq[i]),
        None => None,
    }
}

/// What is left of a selection once the forest it pointed into has been
/// replaced: the same id when `flat` still holds it, nothing otherwise.
pub open spec fn refreshed(stale: Option<u128>, flat: Seq<u128>) -> Option<u128> {
    if stale is Some && flat.contains(stale->0) {
        stale
    } else {
        None
    }
}

/// A pane whose items can be walked one at a time.
pub trait SelectAction<T> {
    /// The ids that a selection walks in this pane, in order.
    spec fn walked(&self) -> Seq<u128>;

    /// The id that is selected in this pane.
    spec fn selection(&self) -> Option<u128>;

    /// The row that the cursor of this pane is on.
    spec fn cursor(&self) -> Option<usize>;

    /// The ids of `target` in pre-order.
    spec fn flattened(target: Seq<T>) -> Seq<u128>;

    /// Moves the cursor one step in direction `bf` and returns the id that
    /// is selected afterwards, if any. The caller stores that id as the
    /// pane's selection; what is walked and what is selected stay as they
    /// are.
    fn get_selected_bf(&mut self, bf: SelectBF) -> (selected: Option<u128>)
        ensures
            selected == advance_id(old(self).walked(), old(self).selection(), bf),
            final(self).cursor() == advance_cursor(old(self).walked(), old(self).selection(), bf),
            final(self).walked() == old(self).walked(),
            final(self).selection() == old(self).selection(),
    ;

    /// The ids of `target` in pre-order: each node, then its children left
    /// to right.
    fn get_flattened(target: &Vec<T>) -> (ids: Vec<u128>)
        ensures
            ids@ == Self::flattened(target@),
    ;
}

/// Position of the first occurrence of `id` in `seq`.
pub fn position_of(seq: &Vec<u128>, id: u128) -> (at: Option<usize>)
    ensures
        at is Some <==> seq@.contains(id),
        at matches Some(i) ==> i == first_index(seq@, id) && i < seq.len() && seq@[i as int] == id,
{
    let mut i: usize = 0;
    while i < seq.len()
        invariant
            i <= seq.len(),
            forall|j: int| 0 <= j < i ==> seq@[j] != id,
        decreases seq.len() - i,
    {
        if seq[i] == id {
            proof {
                lemma_first_index(seq@, id);
            }
            return Some(i);
        }
        i += 1;
    }
    proof {
        lemma_first_index(seq@, id);
    }
    None
}

/// Moves a selection one step over a flattened sequence. Returns the newly
/// selected id together with its cursor position, or nothing twice when the
/// sequence is empty.
pub fn advance(current: Option<u128>, seq: &Vec<u128>, bf: SelectBF) -> (moved: (
    Option<u128>,
    Option<usize>,
))
    ensures
        moved.0 == advance_id(seq@, current, bf),
        moved.1 == advance_cursor(seq@, current, bf),
        moved.0 is Some <==> seq@.len() > 0,
        moved.0 matches Some(id) ==> seq@.contains(id),
{
    if seq.len() == 0 {
        return (None, None);
    }
    let located = match current {
        Some(id) => position_of(seq, id),
        None => None,
    };
    let target: usize = match located {
        Some(at) => match bf {
            SelectBF::Back => if at == 0 {
                0
            } else {
                at - 1
            },
            SelectBF::Forward => if at + 1 < seq.len() {
                at + 1
            } else {
                at
            },
        },
        None => match bf {
            SelectBF::Back => seq.len() - 1,
            SelectBF::Forward => 0,
        },
    };
    (Some(seq[target]), Some(target))
}

/// Re-binds a selection to freshly loaded data: keeps the id when the
/// flattened sequence still holds it, drops it otherwise.
pub fn refresh(stale: Option<u128>, flat: &Vec<u128>) -> (kept: Option<u128>)
    ensures
        kept == refreshed(stale, flat@),
{
    match stale {
        Some(id) => match position_of(flat, id) {
            Some(_) => Some(id),
            None => None,
        },
        None => None,
    }
}

/// Re-binds a selection to freshly loaded roots: flattens them and keeps
/// the id when a node still carries it, drops it otherwise.
pub fn refresh_in<T, W: SelectAction<T>>(stale: Option<u128>, fresh_roots: &Vec<T>) -> (kept:
    Option<u128>)
    ensures
        kept == refreshed(stale, W::flattened(fresh_roots@)),
{
    match stale {
        Some(_) => {
            let flat = W::get_flattened(fresh_roots);
            refresh(stale, &flat)
        },
        None => None,
    }
}

/// From a position `i` in a sequence without repeated ids, moving back
/// lands on `max(i - 1, 0)` and moving forward on `min(i + 1, len - 1)`.
pub proof fn lemma_advance_from_index(seq: Seq<u128>, i: int)
    requires
        seq.no_duplicates(),
        0 <= i < seq.len(),
    ensures
        advance_index(seq, Some(seq[i]), SelectBF::Back) == Some(if i - 1 > 0 { i - 1 } else { 0 }),
        advance_index(seq, Some(seq[i]), SelectBF::Forward) == Some(
            if i + 1 < seq.len() - 1 {
                i + 1
            } else {
                seq.len() - 1
            },
        ),
        advance_id(seq, Some(seq[i]), SelectBF::Back) == Some(
            seq[if i - 1 > 0 {
                i - 1
            } else {
                0
            }],
        ),
        advance_id(seq, Some(seq[i]), SelectBF::Forward) == Some(
            seq[if i + 1 < seq.len() - 1 {
                i + 1
            } else {
                seq.len() - 1
            }],
        ),
{
    lemma_first_index(seq, seq[i]);
    assert(seq.contains(seq[i]));
}

} // verus!

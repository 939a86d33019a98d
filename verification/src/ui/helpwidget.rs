//! The help page: every key hint, in a viewport that scrolls.

use crate::ui::keymap::KeymapWidget;
use crate::appstate::{CurrentFocus, CurrentMode};
use vstd::prelude::*;

verus! {

/// Lines of the help page that are no hint: a heading above each of the
/// four tables and a blank line below each.
pub const HELP_FRAME_LINES: usize = 8;

/// Lines of the help page that stay in view however far it is scrolled.
pub const HELP_KEPT_LINES: usize = 6;

/// The help page.
#[derive(Debug, PartialEq, Eq)]
pub struct HelpWidget {
    /// First line in view.
    pub scroll: usize,
    /// Largest value that `scroll` may take.
    pub scroll_max: usize,
    pub keymap: KeymapWidget,
}

/// Number of lines on the help page of `keymap`.
pub open spec fn help_lines(keymap: KeymapWidget) -> int {
    keymap.general_hint@.len() + keymap.workspace_hint@.len() + keymap.tasklist_hint@.len()
        + keymap.archived_ws_hint@.len() + HELP_FRAME_LINES
}

impl HelpWidget {
    /// The help page at its top, with the default hints.
    pub fn new() -> (widget: Self)
        ensures
            widget.scroll == 0,
            widget.scroll_max == 0,
            widget.keymap.focus == CurrentFocus::Workspace,
            widget.keymap.mode == CurrentMode::Normal,
            help_lines(widget.keymap) == 45,
    {
        HelpWidget { scroll: 0, scroll_max: 0, keymap: KeymapWidget::default() }
    }

    /// Sets `scroll_max` from the number of lines on the page: all but the
    /// lines that stay in view can scroll away.
    pub fn measure(&mut self)
        requires
            help_lines(old(self).keymap) <= usize::MAX,
        ensures
            final(self).scroll_max == help_lines(old(self).keymap) - HELP_KEPT_LINES,
            final(self).scroll == old(self).scroll,
            final(self).keymap == old(self).keymap,
    {
        let hints = self.keymap.general_hint.len() + self.keymap.workspace_hint.len()
            + self.keymap.tasklist_hint.len() + self.keymap.archived_ws_hint.len();
        self.scroll_max = hints + HELP_FRAME_LINES - HELP_KEPT_LINES;
    }

    /// Scrolls one line up; stays at the top.
    pub fn scroll_up(&mut self)
        ensures
            final(self).scroll == if old(self).scroll == 0 {
                0
            } else {
                old(self).scroll - 1
            },
            final(self).scroll_max == old(self).scroll_max,
            final(self).keymap == old(self).keymap,
    {
        if self.scroll > 0 {
            self.scroll = self.scroll - 1;
        }
    }

    /// Scrolls one line down; stays at `scroll_max`, and comes back to it
    /// from beyond.
    pub fn scroll_down(&mut self)
        ensures
            final(self).scroll == if old(self).scroll < old(self).scroll_max {
                old(self).scroll + 1
            } else {
                old(self).scroll_max as int
            },
            final(self).scroll_max == old(self).scroll_max,
            final(self).keymap == old(self).keymap,
    {
        if self.scroll < self.scroll_max {
            self.scroll = self.scroll + 1;
        } else {
            self.scroll = self.scroll_max;
        }
    }
}

} // verus!

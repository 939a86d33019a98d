//! The status line: a short text that says what mode the application is in
//! or what it has just done.

use vstd::prelude::*;
use vstd::string::StringExecFns;

verus! {

/// The status line.
#[derive(Debug, PartialEq, Eq)]
pub struct PromptWidget {
    /// Blank space in front of the text.
    pub padding: String,
    /// The text.
    pub desc: String,
}

impl PromptWidget {
    /// The status line at start: two blanks, then `In Normal Mode`.
    pub fn new() -> (widget: Self)
        ensures
            widget.padding@ == "  "@,
            widget.desc@ == "In Normal Mode"@,
    {
        PromptWidget { padding: String::from_str("  "), desc: String::from_str("In Normal Mode") }
    }

    /// Replaces the text.
    pub fn say(&mut self, text: &str)
        ensures
            final(self).desc@ == text@,
            final(self).padding == old(self).padding,
    {
        self.desc = String::from_str(text);
    }
}

impl Default for PromptWidget {
    fn default() -> (widget: Self)
        ensures
            widget.padding@ == "  "@,
            widget.desc@ == "In Normal Mode"@,
    {
        PromptWidget::new()
    }
}

} // verus!

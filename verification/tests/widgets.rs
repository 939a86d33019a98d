use tui_todo::appstate::{CurrentFocus, CurrentMode};
use tui_todo::errors::Errors;
use tui_todo::ui::helpwidget::HelpWidget;
use tui_todo::ui::keymap::{HintTable, Keymap, KeymapWidget};
use tui_todo::ui::prompt::PromptWidget;

#[test]
fn keymap_holds_three_texts() {
    let k = Keymap::new("q", "quit", "quit the application");
    assert_eq!(k.key, "q");
    assert_eq!(k.desc, "quit");
    assert_eq!(k.detailed, "quit the application");
}

#[test]
fn keymap_widget_tables() {
    let w = KeymapWidget::new(CurrentFocus::TodoList);
    assert_eq!(w.focus, CurrentFocus::TodoList);
    assert_eq!(w.mode, CurrentMode::Normal);
    assert_eq!(w.general_hint.len(), 10);
    assert_eq!(w.workspace_hint.len(), 7);
    assert_eq!(w.tasklist_hint.len(), 15);
    assert_eq!(w.archived_ws_hint.len(), 5);
    assert_eq!(w.general_hint[7].key, "q");
    assert_eq!(w.archived_ws_hint[2].desc, "recovery");
    assert_eq!(KeymapWidget::default().focus, CurrentFocus::Workspace);
}

#[test]
fn shown_table_follows_mode_then_focus() {
    let mut w = KeymapWidget::new(CurrentFocus::TodoList);
    assert_eq!(w.shown_table(), HintTable::TaskList);
    assert_eq!(w.shown_hints().len(), 15);
    w.focus = CurrentFocus::Workspace;
    assert_eq!(w.shown_table(), HintTable::Workspace);
    w.focus = CurrentFocus::ArchivedWorkspace;
    assert_eq!(w.shown_table(), HintTable::ArchivedWorkspace);
    assert_eq!(w.shown_hints().len(), 5);
    w.mode = CurrentMode::Help;
    assert_eq!(w.shown_table(), HintTable::General);
    assert_eq!(w.shown_hints().len(), 10);
}

#[test]
fn prompt_starts_in_normal_mode() {
    let p = PromptWidget::new();
    assert_eq!(p.padding, "  ");
    assert_eq!(p.desc, "In Normal Mode");
    assert_eq!(PromptWidget::default(), p);
    let mut p = p;
    p.say("Data Saved !");
    assert_eq!(p.desc, "Data Saved !");
    assert_eq!(p.padding, "  ");
}

#[test]
fn help_scroll_is_bounded() {
    let mut h = HelpWidget::new();
    assert_eq!(h.scroll, 0);
    assert_eq!(h.scroll_max, 0);
    h.scroll_down();
    assert_eq!(h.scroll, 0);
    h.measure();
    assert_eq!(h.scroll_max, 39);
    h.scroll_up();
    assert_eq!(h.scroll, 0);
    for _ in 0..50 {
        h.scroll_down();
    }
    assert_eq!(h.scroll, 39);
    h.scroll_up();
    assert_eq!(h.scroll, 38);
    h.scroll = 100;
    h.scroll_down();
    assert_eq!(h.scroll, 39);
}

#[test]
fn errors_are_distinct() {
    assert_ne!(Errors::AppError, Errors::UiError);
    assert_ne!(Errors::WriteError, Errors::LoadError);
}

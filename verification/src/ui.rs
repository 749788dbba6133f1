//! What the interface does on a key or a turn of the mouse wheel, view by
//! view. The interface performs what is decided here; nothing in this
//! module touches a terminal.

use crate::forms::FormKey;
use crate::selection::SelectedItem;
use vstd::prelude::*;

verus! {

/// Which view the interface shows.
#[derive(Clone, Copy, Debug, PartialEq, Eq)]
pub enum View {
    /// The task list.
    Selection,
    /// The log of the active instance.
    Terminal,
    /// The form for a task's inputs.
    Inputs,
}

/// A key, as far as the interface tells keys apart.
#[derive(Clone, Copy, Debug, PartialEq, Eq)]
pub enum Key {
    Char(char),
    Up,
    Down,
    Left,
    Right,
    Enter,
    Esc,
    Tab,
    Backspace,
    PageUp,
    PageDown,
    Other,
}

/// A turn of the mouse wheel.
#[derive(Clone, Copy, Debug, PartialEq, Eq)]
pub enum Wheel {
    Up,
    Down,
}

/// What the interface does.
#[derive(Clone, Copy, Debug, PartialEq, Eq)]
pub enum UiAction {
    /// Nothing.
    Ignore,
    /// Clear the screen and draw everything again.
    Redraw,
    /// End all running instances and leave.
    QuitAll,
    /// Move the selection to the next row.
    SelectNext,
    /// Move the selection to the previous row.
    SelectPrevious,
    /// Start the task at this index of the catalogue.
    StartTask(usize),
    /// Show the form for the inputs of the task at this index.
    OpenInputs(usize),
    /// Show the log of the running instance of this id.
    ActivateRun(u64),
    /// End the active instance and go back to the list.
    KillActive,
    /// Go back to the list and let the instance run.
    BackToList,
    /// Scroll the log towards its end by this many lines.
    ScrollDown(u16),
    /// Scroll the log towards its start by this many lines.
    ScrollUp(u16),
    /// Drop the form and go back to the list.
    CancelInputs,
    /// Start the task with the values of the form.
    SubmitInputs,
    /// Hand the key to the form.
    EditForm(FormKey),
}

/// What the task list needs to know for a decision: what is selected, and
/// whether the selected task has inputs to ask for.
#[derive(Clone, Copy, Debug, PartialEq, Eq)]
pub struct ListContext {
    pub selected: Option<SelectedItem>,
    pub has_inputs: bool,
}

/// What the task list does on a key.
pub open spec fn list_decision(key: Key, context: ListContext) -> UiAction {
    match key {
        Key::Char(c) => if c == 'q' {
            UiAction::QuitAll
        } else {
            UiAction::Ignore
        },
        Key::Down => UiAction::SelectNext,
        Key::Up => UiAction::SelectPrevious,
        Key::Enter => match context.selected {
            Some(SelectedItem::Task(index)) => if context.has_inputs {
                UiAction::OpenInputs(index)
            } else {
                UiAction::StartTask(index)
            },
            Some(SelectedItem::Running(run_id)) => UiAction::ActivateRun(run_id),
            None => UiAction::Ignore,
        },
        _ => UiAction::Ignore,
    }
}

/// What the log view does on a key. Where the terminal's own scrollback is
/// in use, the view does not scroll.
pub open spec fn log_decision(key: Key, native_scrollback: bool) -> UiAction {
    match key {
        Key::Esc => UiAction::KillActive,
        Key::Char(c) => if c == 'q' {
            UiAction::BackToList
        } else {
            UiAction::Ignore
        },
        Key::Backspace => UiAction::BackToList,
        Key::PageDown => if native_scrollback {
            UiAction::Ignore
        } else {
            UiAction::ScrollDown(5)
        },
        Key::PageUp => if native_scrollback {
            UiAction::Ignore
        } else {
            UiAction::ScrollUp(5)
        },
        _ => UiAction::Ignore,
    }
}

/// What the form does on a key.
pub open spec fn form_decision(key: Key) -> UiAction {
    match key {
        Key::Esc => UiAction::CancelInputs,
        Key::Up => UiAction::EditForm(FormKey::Up),
        Key::Down => UiAction::EditForm(FormKey::Down),
        Key::Tab => UiAction::EditForm(FormKey::Down),
        Key::Left => UiAction::EditForm(FormKey::Left),
        Key::Right => UiAction::EditForm(FormKey::Right),
        Key::Backspace => UiAction::EditForm(FormKey::Backspace),
        Key::Enter => UiAction::SubmitInputs,
        Key::Char(c) => UiAction::EditForm(FormKey::Char(c)),
        _ => UiAction::Ignore,
    }
}

/// What the interface does on a key: `Ctrl+l` redraws in every view; any
/// other key goes to the view that is shown.
pub open spec fn key_decision(
    view: View,
    key: Key,
    ctrl: bool,
    context: ListContext,
    native_scrollback: bool,
) -> UiAction {
    if key == Key::Char('l') && ctrl {
        UiAction::Redraw
    } else {
        match view {
            View::Selection => list_decision(key, context),
            View::Terminal => log_decision(key, native_scrollback),
            View::Inputs => form_decision(key),
        }
    }
}

/// What the interface does on a turn of the mouse wheel: the log view
/// scrolls by two lines, unless the terminal's own scrollback is in use.
pub open spec fn wheel_decision(view: View, wheel: Wheel, native_scrollback: bool) -> UiAction {
    if native_scrollback || view != View::Terminal {
        UiAction::Ignore
    } else {
        match wheel {
            Wheel::Up => UiAction::ScrollUp(2),
            Wheel::Down => UiAction::ScrollDown(2),
        }
    }
}

/// The view that is shown after an action.
pub open spec fn view_after(view: View, action: UiAction, run_known: bool) -> View {
    match action {
        UiAction::StartTask(_) => View::Terminal,
        UiAction::SubmitInputs => View::Terminal,
        UiAction::OpenInputs(_) => View::Inputs,
        UiAction::ActivateRun(_) => if run_known {
            View::Terminal
        } else {
            view
        },
        UiAction::KillActive => View::Selection,
        UiAction::BackToList => View::Selection,
        UiAction::CancelInputs => View::Selection,
        _ => view,
    }
}

/// What the interface does on a key.
pub fn on_key(view: View, key: Key, ctrl: bool, context: ListContext, native_scrollback: bool)
    -> (action: UiAction)
    ensures
        action == key_decision(view, key, ctrl, context, native_scrollback),
{
    match key {
        Key::Char(c) => {
            if c == 'l' && ctrl {
                return UiAction::Redraw;
            }
        },
        _ => {},
    }
    match view {
        View::Selection => match key {
            Key::Char(c) => if c == 'q' {
                UiAction::QuitAll
            } else {
                UiAction::Ignore
            },
            Key::Down => UiAction::SelectNext,
            Key::Up => UiAction::SelectPrevious,
            Key::Enter => match context.selected {
                Some(SelectedItem::Task(index)) => if context.has_inputs {
                    UiAction::OpenInputs(index)
                } else {
                    UiAction::StartTask(index)
                },
                Some(SelectedItem::Running(run_id)) => UiAction::ActivateRun(run_id),
                None => UiAction::Ignore,
            },
            _ => UiAction::Ignore,
        },
        View::Terminal => match key {
            Key::Esc => UiAction::KillActive,
            Key::Char(c) => if c == 'q' {
                UiAction::BackToList
            } else {
                UiAction::Ignore
            },
            Key::Backspace => UiAction::BackToList,
            Key::PageDown => if native_scrollback {
                UiAction::Ignore
            } else {
                UiAction::ScrollDown(5)
            },
            Key::PageUp => if native_scrollback {
                UiAction::Ignore
            } else {
                UiAction::ScrollUp(5)
            },
            _ => UiAction::Ignore,
        },
        View::Inputs => match key {
            Key::Esc => UiAction::CancelInputs,
            Key::Up => UiAction::EditForm(FormKey::Up),
            Key::Down => UiAction::EditForm(FormKey::Down),
            Key::Tab => UiAction::EditForm(FormKey::Down),
            Key::Left => UiAction::EditForm(FormKey::Left),
            Key::Right => UiAction::EditForm(FormKey::Right),
            Key::Backspace => UiAction::EditForm(FormKey::Backspace),
            Key::Enter => UiAction::SubmitInputs,
            Key::Char(c) => UiAction::EditForm(FormKey::Char(c)),
            _ => UiAction::Ignore,
        },
    }
}

/// What the interface does on a turn of the mouse wheel.
pub fn on_wheel(view: View, wheel: Wheel, native_scrollback: bool) -> (action: UiAction)
    ensures
        action == wheel_decision(view, wheel, native_scrollback),
{
    if native_scrollback {
        return UiAction::Ignore;
    }
    match view {
        View::Terminal => match wheel {
            Wheel::Up => UiAction::ScrollUp(2),
            Wheel::Down => UiAction::ScrollDown(2),
        },
        _ => UiAction::Ignore,
    }
}

/// The view that is shown after an action; `run_known` says whether the
/// instance that an `ActivateRun` names is still running.
pub fn next_view(view: View, action: UiAction, run_known: bool) -> (r: View)
    ensures
        r == view_after(view, action, run_known),
{
    match action {
        UiAction::StartTask(_) => View::Terminal,
        UiAction::SubmitInputs => View::Terminal,
        UiAction::OpenInputs(_) => View::Inputs,
        UiAction::ActivateRun(_) => if run_known {
            View::Terminal
        } else {
            view
        },
        UiAction::KillActive => View::Selection,
        UiAction::BackToList => View::Selection,
        UiAction::CancelInputs => View::Selection,
        _ => view,
    }
}

} // verus!

use cmdhub::forms::FormKey;
use cmdhub::selection::SelectedItem;
use cmdhub::ui::{next_view, on_key, on_wheel, Key, ListContext, UiAction, View, Wheel};

fn ctx(selected: Option<SelectedItem>, has_inputs: bool) -> ListContext {
    ListContext { selected, has_inputs }
}

#[test]
fn control_l_redraws_in_every_view() {
    for view in [View::Selection, View::Terminal, View::Inputs] {
        assert_eq!(on_key(view, Key::Char('l'), true, ctx(None, false), true), UiAction::Redraw);
    }
    assert_eq!(
        on_key(View::Inputs, Key::Char('l'), false, ctx(None, false), true),
        UiAction::EditForm(FormKey::Char('l'))
    );
    assert_eq!(on_key(View::Selection, Key::Char('l'), false, ctx(None, false), true), UiAction::Ignore);
}

#[test]
fn keys_of_the_task_list() {
    let none = ctx(None, false);
    assert_eq!(on_key(View::Selection, Key::Char('q'), false, none, true), UiAction::QuitAll);
    assert_eq!(on_key(View::Selection, Key::Down, false, none, true), UiAction::SelectNext);
    assert_eq!(on_key(View::Selection, Key::Up, false, none, true), UiAction::SelectPrevious);
    assert_eq!(on_key(View::Selection, Key::Enter, false, none, true), UiAction::Ignore);
    assert_eq!(on_key(View::Selection, Key::Esc, false, none, true), UiAction::Ignore);
    assert_eq!(
        on_key(View::Selection, Key::Enter, false, ctx(Some(SelectedItem::Task(2)), false), true),
        UiAction::StartTask(2)
    );
    assert_eq!(
        on_key(View::Selection, Key::Enter, false, ctx(Some(SelectedItem::Task(2)), true), true),
        UiAction::OpenInputs(2)
    );
    assert_eq!(
        on_key(View::Selection, Key::Enter, false, ctx(Some(SelectedItem::Running(9)), true), true),
        UiAction::ActivateRun(9)
    );
}

#[test]
fn keys_of_the_log_view() {
    let none = ctx(None, false);
    assert_eq!(on_key(View::Terminal, Key::Esc, false, none, true), UiAction::KillActive);
    assert_eq!(on_key(View::Terminal, Key::Char('q'), false, none, true), UiAction::BackToList);
    assert_eq!(on_key(View::Terminal, Key::Backspace, false, none, true), UiAction::BackToList);
    assert_eq!(on_key(View::Terminal, Key::PageDown, false, none, true), UiAction::Ignore);
    assert_eq!(on_key(View::Terminal, Key::PageUp, false, none, true), UiAction::Ignore);
    assert_eq!(on_key(View::Terminal, Key::PageDown, false, none, false), UiAction::ScrollDown(5));
    assert_eq!(on_key(View::Terminal, Key::PageUp, false, none, false), UiAction::ScrollUp(5));
    assert_eq!(on_key(View::Terminal, Key::Enter, false, none, false), UiAction::Ignore);
}

#[test]
fn keys_of_the_form() {
    let none = ctx(None, false);
    assert_eq!(on_key(View::Inputs, Key::Esc, false, none, true), UiAction::CancelInputs);
    assert_eq!(on_key(View::Inputs, Key::Enter, false, none, true), UiAction::SubmitInputs);
    assert_eq!(on_key(View::Inputs, Key::Up, false, none, true), UiAction::EditForm(FormKey::Up));
    assert_eq!(on_key(View::Inputs, Key::Down, false, none, true), UiAction::EditForm(FormKey::Down));
    assert_eq!(on_key(View::Inputs, Key::Tab, false, none, true), UiAction::EditForm(FormKey::Down));
    assert_eq!(on_key(View::Inputs, Key::Left, false, none, true), UiAction::EditForm(FormKey::Left));
    assert_eq!(on_key(View::Inputs, Key::Right, false, none, true), UiAction::EditForm(FormKey::Right));
    assert_eq!(
        on_key(View::Inputs, Key::Backspace, false, none, true),
        UiAction::EditForm(FormKey::Backspace)
    );
    assert_eq!(
        on_key(View::Inputs, Key::Char('q'), false, none, true),
        UiAction::EditForm(FormKey::Char('q'))
    );
    assert_eq!(on_key(View::Inputs, Key::PageUp, false, none, true), UiAction::Ignore);
    assert_eq!(on_key(View::Inputs, Key::Other, false, none, true), UiAction::Ignore);
}

#[test]
fn wheel_scrolls_the_log_view_only() {
    assert_eq!(on_wheel(View::Terminal, Wheel::Up, false), UiAction::ScrollUp(2));
    assert_eq!(on_wheel(View::Terminal, Wheel::Down, false), UiAction::ScrollDown(2));
    assert_eq!(on_wheel(View::Terminal, Wheel::Down, true), UiAction::Ignore);
    assert_eq!(on_wheel(View::Selection, Wheel::Down, false), UiAction::Ignore);
    assert_eq!(on_wheel(View::Inputs, Wheel::Up, false), UiAction::Ignore);
}

#[test]
fn views_follow_actions() {
    assert_eq!(next_view(View::Selection, UiAction::StartTask(0), false), View::Terminal);
    assert_eq!(next_view(View::Inputs, UiAction::SubmitInputs, false), View::Terminal);
    assert_eq!(next_view(View::Selection, UiAction::OpenInputs(0), false), View::Inputs);
    assert_eq!(next_view(View::Selection, UiAction::ActivateRun(1), true), View::Terminal);
    assert_eq!(next_view(View::Selection, UiAction::ActivateRun(1), false), View::Selection);
    assert_eq!(next_view(View::Terminal, UiAction::KillActive, false), View::Selection);
    assert_eq!(next_view(View::Terminal, UiAction::BackToList, false), View::Selection);
    assert_eq!(next_view(View::Inputs, UiAction::CancelInputs, false), View::Selection);
    assert_eq!(next_view(View::Terminal, UiAction::ScrollUp(5), false), View::Terminal);
    assert_eq!(next_view(View::Inputs, UiAction::EditForm(FormKey::Up), false), View::Inputs);
}

use cmdhub::forms::{initial_input, prepare_inputs, FormKey, InputEntry, InputState, InputValue};
use cmdhub::models::InputConfig;

fn strings(list: &[&str]) -> Vec<String> {
    list.iter().map(|s| s.to_string()).collect()
}

fn inputs() -> Vec<(String, InputConfig)> {
    vec![
        (
            "tag".to_string(),
            InputConfig::Text { placeholder: Some("v1".to_string()), default: Some("latest".to_string()) },
        ),
        (
            "env".to_string(),
            InputConfig::Select { options: strings(&["dev", "stage", "prod"]), default: "stage".to_string() },
        ),
        ("note".to_string(), InputConfig::Text { placeholder: None, default: None }),
        (
            "Zone".to_string(),
            InputConfig::Select { options: strings(&["a", "b"]), default: "missing".to_string() },
        ),
    ]
}

#[test]
fn form_has_one_field_per_input_in_name_order() {
    let list = inputs();
    let state = prepare_inputs(3, Some(&list));
    assert_eq!(state.task_index, 3);
    assert_eq!(state.selected, 0);
    let names: Vec<&str> = state.entries.iter().map(|e| e.name.as_str()).collect();
    let mut want = vec!["tag", "env", "note", "Zone"];
    want.sort();
    assert_eq!(names, want);
    assert_eq!(names, vec!["Zone", "env", "note", "tag"]);
    assert_eq!(
        state.entries[1].value,
        InputValue::Select { options: strings(&["dev", "stage", "prod"]), selected: 1 }
    );
    assert_eq!(
        state.entries[0].value,
        InputValue::Select { options: strings(&["a", "b"]), selected: 0 }
    );
    assert_eq!(
        state.entries[2].value,
        InputValue::Text { value: String::new(), placeholder: None }
    );
    assert_eq!(
        state.entries[3].value,
        InputValue::Text { value: "latest".to_string(), placeholder: Some("v1".to_string()) }
    );
}

#[test]
fn form_without_inputs_is_empty() {
    assert_eq!(prepare_inputs(1, None), InputState { task_index: 1, entries: vec![], selected: 0 });
    assert_eq!(
        prepare_inputs(1, Some(&Vec::new())),
        InputState { task_index: 1, entries: vec![], selected: 0 }
    );
}

#[test]
fn names_sort_as_strings_do() {
    let names = ["b", "a", "ab", "", "B", "é", "z", "aa", "a b", "\u{10000}", "\u{ffff}"];
    let list: Vec<(String, InputConfig)> = names
        .iter()
        .map(|n| (n.to_string(), InputConfig::Text { placeholder: None, default: None }))
        .collect();
    let state = prepare_inputs(0, Some(&list));
    let got: Vec<String> = state.entries.iter().map(|e| e.name.clone()).collect();
    let mut want: Vec<String> = names.iter().map(|n| n.to_string()).collect();
    want.sort();
    assert_eq!(got, want);
}

#[test]
fn select_without_options_stands_on_zero() {
    let v = initial_input(&InputConfig::Select { options: Vec::new(), default: "x".to_string() });
    assert_eq!(v, InputValue::Select { options: Vec::new(), selected: 0 });
    assert_eq!(v.chosen(), "");
}

#[test]
fn focus_moves_and_stops_at_the_ends() {
    let list = inputs();
    let mut state = prepare_inputs(0, Some(&list));
    state.on_key(FormKey::Up);
    assert_eq!(state.selected, 0);
    state.on_key(FormKey::Down);
    state.on_key(FormKey::Down);
    assert_eq!(state.selected, 2);
    state.on_key(FormKey::Down);
    state.on_key(FormKey::Down);
    state.on_key(FormKey::Down);
    assert_eq!(state.selected, 3);
    state.on_key(FormKey::Up);
    assert_eq!(state.selected, 2);
    let mut empty = prepare_inputs(0, None);
    empty.on_key(FormKey::Down);
    empty.on_key(FormKey::Char('x'));
    assert_eq!(empty.selected, 0);
    assert!(empty.entries.is_empty());
}

#[test]
fn options_are_stepped_through_going_round() {
    let mut v = InputValue::Select { options: strings(&["a", "b", "c"]), selected: 0 };
    v.edit(FormKey::Left);
    assert_eq!(v, InputValue::Select { options: strings(&["a", "b", "c"]), selected: 2 });
    v.edit(FormKey::Right);
    assert_eq!(v.chosen(), "a");
    v.edit(FormKey::Right);
    v.edit(FormKey::Right);
    assert_eq!(v.chosen(), "c");
    v.edit(FormKey::Left);
    assert_eq!(v.chosen(), "b");
    v.edit(FormKey::Char('x'));
    v.edit(FormKey::Backspace);
    assert_eq!(v.chosen(), "b");
    let mut none = InputValue::Select { options: Vec::new(), selected: 0 };
    none.edit(FormKey::Right);
    none.edit(FormKey::Left);
    assert_eq!(none, InputValue::Select { options: Vec::new(), selected: 0 });
}

#[test]
fn text_is_typed_and_erased() {
    let mut v = InputValue::Text { value: "ab".to_string(), placeholder: Some("p".to_string()) };
    v.edit(FormKey::Char('c'));
    v.edit(FormKey::Char('é'));
    assert_eq!(v.chosen(), "abcé");
    v.edit(FormKey::Backspace);
    v.edit(FormKey::Backspace);
    v.edit(FormKey::Left);
    v.edit(FormKey::Right);
    assert_eq!(v.chosen(), "ab");
    v.edit(FormKey::Backspace);
    v.edit(FormKey::Backspace);
    v.edit(FormKey::Backspace);
    assert_eq!(v, InputValue::Text { value: String::new(), placeholder: Some("p".to_string()) });
}

#[test]
fn keys_edit_the_field_with_the_focus_only() {
    let list = inputs();
    let mut state = prepare_inputs(0, Some(&list));
    state.on_key(FormKey::Down);
    state.on_key(FormKey::Right);
    state.on_key(FormKey::Down);
    state.on_key(FormKey::Char('h'));
    state.on_key(FormKey::Char('i'));
    state.on_key(FormKey::Down);
    state.on_key(FormKey::Backspace);
    assert_eq!(
        state.values(),
        vec![
            ("Zone".to_string(), "a".to_string()),
            ("env".to_string(), "prod".to_string()),
            ("note".to_string(), "hi".to_string()),
            ("tag".to_string(), "lates".to_string()),
        ]
    );
}

#[test]
fn choice_beyond_the_options_gives_nothing() {
    let e = InputEntry {
        name: "x".to_string(),
        value: InputValue::Select { options: strings(&["a"]), selected: 5 },
    };
    assert_eq!(e.value.chosen(), "");
    let mut v = e.value.clone();
    v.edit(FormKey::Right);
    assert_eq!(v, InputValue::Select { options: strings(&["a"]), selected: 0 });
}

//! The form on which the inputs of a task are filled in before it starts:
//! one field per input, in order of name; a list of options is stepped
//! through, a text is typed.

use crate::models::{opt_text, InputConfig};
use crate::order::{sort_stably, stably_sorted, Ranked};
use crate::text::{
    append_char, chars_of, drop_last_char, lemma_text_le_total, lemma_text_le_transitive,
    same_text, strings_view, text_before, text_le,
};
use vstd::prelude::*;

verus! {

/// What a field holds.
#[derive(Clone, Debug, PartialEq, Eq)]
pub enum InputValue {
    /// One of `options`; `selected` is the index of the one chosen.
    Select { options: Vec<String>, selected: usize },
    /// Text as typed so far; `placeholder` is shown while it is empty.
    Text { value: String, placeholder: Option<String> },
}

/// A field: the name of the input and what it holds.
#[derive(Clone, Debug, PartialEq, Eq)]
pub struct InputEntry {
    pub name: String,
    pub value: InputValue,
}

/// The form of the task at `task_index`; `selected` is the index of the
/// field that has the focus.
#[derive(Clone, Debug, PartialEq, Eq)]
pub struct InputState {
    pub task_index: usize,
    pub entries: Vec<InputEntry>,
    pub selected: usize,
}

/// A key that edits the form.
#[derive(Clone, Copy, Debug, PartialEq, Eq)]
pub enum FormKey {
    Up,
    Down,
    Left,
    Right,
    Backspace,
    Char(char),
}

/// What an `InputValue` holds.
pub enum ValueModel {
    Select { options: Seq<Seq<char>>, selected: usize },
    Text { value: Seq<char>, placeholder: Option<Seq<char>> },
}

/// What an `InputEntry` holds.
pub struct FieldModel {
    pub name: Seq<char>,
    pub value: ValueModel,
}

impl View for InputValue {
    type V = ValueModel;

    open spec fn view(&self) -> ValueModel {
        match self {
            InputValue::Select { options, selected } => ValueModel::Select {
                options: strings_view(options@),
                selected: *selected,
            },
            InputValue::Text { value, placeholder } => ValueModel::Text {
                value: value@,
                placeholder: opt_text(*placeholder),
            },
        }
    }
}

impl View for InputEntry {
    type V = FieldModel;

    open spec fn view(&self) -> FieldModel {
        FieldModel { name: self.name@, value: self.value@ }
    }
}

/// What a list of fields holds.
pub open spec fn fields_view(entries: Seq<InputEntry>) -> Seq<FieldModel> {
    Seq::new(entries.len(), |i: int| entries[i]@)
}

impl Ranked for InputEntry {
    /// Fields stand in dictionary order of their names.
    open spec fn no_later(&self, other: &Self) -> bool {
        text_le(self.name@, other.name@)
    }

    proof fn total(a: &Self, b: &Self) {
        lemma_text_le_total(a.name@, b.name@);
    }

    proof fn transitive(a: &Self, b: &Self, c: &Self) {
        lemma_text_le_transitive(a.name@, b.name@, c.name@);
    }

    fn stands_before(&self, other: &Self) -> (b: bool) {
        let x = chars_of(self.name.as_str());
        let y = chars_of(other.name.as_str());
        text_before(&x, &y)
    }
}

/// Index of the first of `options` that is `wanted`, or their number when
/// none is.
pub open spec fn option_index(options: Seq<Seq<char>>, wanted: Seq<char>) -> int
    decreases options.len(),
{
    if options.len() == 0 {
        0
    } else if options[0] == wanted {
        0
    } else {
        1 + option_index(options.drop_first(), wanted)
    }
}

/// What the field of an input holds at first: a list of options stands on
/// its default, or on the first option when the default is none of them; a
/// text holds its default, or nothing.
pub open spec fn initial_value(config: InputConfig) -> ValueModel {
    match config {
        InputConfig::Select { options, default } => {
            let i = option_index(strings_view(options@), default@);
            ValueModel::Select {
                options: strings_view(options@),
                selected: if 0 <= i < options@.len() {
                    i as usize
                } else {
                    0
                },
            }
        },
        InputConfig::Text { placeholder, default } => ValueModel::Text {
            value: match default {
                Some(d) => d@,
                None => Seq::empty(),
            },
            placeholder: opt_text(placeholder),
        },
    }
}

/// The field of the input `name` as it is at first.
pub open spec fn initial_field(name: Seq<char>, config: InputConfig) -> FieldModel {
    FieldModel { name: name, value: initial_value(config) }
}

/// What a field holds after a step to the left (`forward` false) or to the
/// right through its options, going round. A text, and a list without
/// options, stay as they are.
pub open spec fn stepped(value: ValueModel, forward: bool) -> ValueModel {
    match value {
        ValueModel::Select { options, selected } => if options.len() == 0 {
            value
        } else if forward {
            ValueModel::Select {
                options: options,
                selected: ((selected as int % options.len() as int + 1) % (
                options.len() as int)) as usize,
            }
        } else if selected == 0 {
            ValueModel::Select { options: options, selected: (options.len() - 1) as usize }
        } else {
            ValueModel::Select { options: options, selected: (selected - 1) as usize }
        },
        ValueModel::Text { value: _, placeholder: _ } => value,
    }
}

/// What a field holds after the character `c` was typed: a text grows by
/// it, a list of options stays as it is.
pub open spec fn typed(value: ValueModel, c: char) -> ValueModel {
    match value {
        ValueModel::Text { value: text, placeholder } => ValueModel::Text {
            value: text.push(c),
            placeholder: placeholder,
        },
        ValueModel::Select { options: _, selected: _ } => value,
    }
}

/// What a field holds after a backspace: a text loses its last character,
/// if it has one; a list of options stays as it is.
pub open spec fn erased(value: ValueModel) -> ValueModel {
    match value {
        ValueModel::Text { value: text, placeholder } => ValueModel::Text {
            value: if text.len() > 0 {
                text.drop_last()
            } else {
                text
            },
            placeholder: placeholder,
        },
        ValueModel::Select { options: _, selected: _ } => value,
    }
}

/// What a field holds after an editing key.
pub open spec fn value_after(value: ValueModel, key: FormKey) -> ValueModel {
    match key {
        FormKey::Left => stepped(value, false),
        FormKey::Right => stepped(value, true),
        FormKey::Backspace => erased(value),
        FormKey::Char(c) => typed(value, c),
        _ => value,
    }
}

/// Which field has the focus after a key: `Up` and `Down` move it by one
/// and stop at the ends.
pub open spec fn focus_after(selected: usize, count: nat, key: FormKey) -> usize {
    match key {
        FormKey::Up => if selected > 0 {
            (selected - 1) as usize
        } else {
            selected
        },
        FormKey::Down => if selected + 1 < count {
            (selected + 1) as usize
        } else {
            selected
        },
        _ => selected,
    }
}

/// The fields after a key: the field with the focus is edited, the others
/// stay.
pub open spec fn fields_after(fields: Seq<FieldModel>, selected: usize, key: FormKey) -> Seq<
    FieldModel,
> {
    if selected < fields.len() {
        fields.update(
            selected as int,
            FieldModel {
                name: fields[selected as int].name,
                value: value_after(fields[selected as int].value, key),
            },
        )
    } else {
        fields
    }
}

/// The value that a field gives to the task's template: the option chosen
/// (nothing when the choice is beyond the options), or the text.
pub open spec fn field_value(value: ValueModel) -> Seq<char> {
    match value {
        ValueModel::Select { options, selected } => if selected < options.len() {
            options[selected as int]
        } else {
            Seq::empty()
        },
        ValueModel::Text { value: text, placeholder: _ } => text,
    }
}

/// A first option found by scanning is the one `option_index` names.
pub proof fn lemma_option_index(options: Seq<Seq<char>>, wanted: Seq<char>, i: int)
    requires
        0 <= i <= options.len(),
        forall|j: int| 0 <= j < i ==> #[trigger] options[j] != wanted,
        i == options.len() || options[i] == wanted,
    ensures
        option_index(options, wanted) == i,
    decreases options.len(),
{
    if options.len() > 0 && i > 0 {
        let rest = options.drop_first();
        lemma_option_index(rest, wanted, i - 1);
    }
}

/// Copies of the strings of `list`.
fn copy_strings(list: &Vec<String>) -> (r: Vec<String>)
    ensures
        strings_view(r@) == strings_view(list@),
{
    let mut r: Vec<String> = Vec::new();
    let mut i: usize = 0;
    while i < list.len()
        invariant
            i <= list@.len(),
            r@.len() == i,
            forall|j: int| 0 <= j < i ==> (#[trigger] r@[j])@ == list@[j]@,
        decreases list@.len() - i,
    {
        r.push(list[i].clone());
        i += 1;
    }
    r
}

/// What the field of an input holds at first.
pub fn initial_input(config: &InputConfig) -> (value: InputValue)
    ensures
        value@ == initial_value(*config),
{
    match config {
        InputConfig::Select { options, default } => {
            let mut i: usize = 0;
            while i < options.len() && !same_text(options[i].as_str(), default.as_str())
                invariant
                    i <= options@.len(),
                    forall|j: int|
                        0 <= j < i ==> #[trigger] strings_view(options@)[j] != default@,
                decreases options@.len() - i,
            {
                i += 1;
            }
            proof {
                lemma_option_index(strings_view(options@), default@, i as int);
            }
            let selected = if i < options.len() {
                i
            } else {
                0
            };
            InputValue::Select { options: copy_strings(options), selected: selected }
        },
        InputConfig::Text { placeholder, default } => InputValue::Text {
            value: match default {
                Some(d) => d.clone(),
                None => String::new(),
            },
            placeholder: match placeholder {
                Some(p) => Some(p.clone()),
                None => None,
            },
        },
    }
}

/// The form for the task at `task_index` with the inputs given: one field
/// per input as it is at first, the fields in dictionary order of their
/// names, the focus on the first.
pub fn prepare_inputs(task_index: usize, inputs: Option<&Vec<(String, InputConfig)>>) -> (state:
    InputState)
    ensures
        state.task_index == task_index,
        state.selected == 0,
        match inputs {
            Some(list) => exists|fields: Seq<InputEntry>|
                {
                    &&& fields.len() == list@.len()
                    &&& forall|i: int|
                        0 <= i < fields.len() ==> (#[trigger] fields[i])@ == initial_field(
                            list@[i].0@,
                            list@[i].1,
                        )
                    &&& state.entries@ == stably_sorted(fields)
                },
            None => state.entries@.len() == 0,
        },
{
    let mut entries: Vec<InputEntry> = Vec::new();
    match inputs {
        Some(list) => {
            let mut i: usize = 0;
            while i < list.len()
                invariant
                    i <= list@.len(),
                    entries@.len() == i,
                    forall|j: int|
                        0 <= j < i ==> (#[trigger] entries@[j])@ == initial_field(
                            list@[j].0@,
                            list@[j].1,
                        ),
                decreases list@.len() - i,
            {
                entries.push(
                    InputEntry { name: list[i].0.clone(), value: initial_input(&list[i].1) },
                );
                i += 1;
            }
            let sorted = sort_stably(entries);
            InputState { task_index: task_index, entries: sorted, selected: 0 }
        },
        None => InputState { task_index: task_index, entries: entries, selected: 0 },
    }
}

impl InputValue {
    /// Applies an editing key to the value.
    pub fn edit(&mut self, key: FormKey)
        ensures
            final(self)@ == value_after(old(self)@, key),
    {
        match self {
            InputValue::Select { options, selected } => {
                let n = options.len();
                if n > 0 {
                    match key {
                        FormKey::Left => {
                            if *selected == 0 {
                                *selected = n - 1;
                            } else {
                                *selected = *selected - 1;
                            }
                        },
                        FormKey::Right => {
                            *selected = (*selected % n + 1) % n;
                        },
                        _ => {},
                    }
                }
            },
            InputValue::Text { value, placeholder: _ } => {
                match key {
                    FormKey::Backspace => {
                        drop_last_char(value);
                    },
                    FormKey::Char(c) => {
                        append_char(value, c);
                    },
                    _ => {},
                }
            },
        }
    }

    /// The value that the field gives to the task's template.
    pub fn chosen(&self) -> (text: String)
        ensures
            text@ == field_value(self@),
    {
        match self {
            InputValue::Select { options, selected } => {
                if *selected < options.len() {
                    options[*selected].clone()
                } else {
                    String::new()
                }
            },
            InputValue::Text { value, placeholder: _ } => value.clone(),
        }
    }
}

impl InputState {
    /// Applies an editing key to the form: `Up` and `Down` move the focus,
    /// the other keys edit the field that has it.
    pub fn on_key(&mut self, key: FormKey)
        ensures
            final(self).task_index == old(self).task_index,
            final(self).selected == focus_after(old(self).selected, old(self).entries@.len(), key),
            fields_view(final(self).entries@) == fields_after(
                fields_view(old(self).entries@),
                old(self).selected,
                key,
            ),
    {
        match key {
            FormKey::Up => {
                if self.selected > 0 {
                    self.selected = self.selected - 1;
                }
            },
            FormKey::Down => {
                if self.selected < self.entries.len() && self.selected + 1 < self.entries.len() {
                    self.selected = self.selected + 1;
                }
            },
            _ => {
                if self.selected < self.entries.len() {
                    let i = self.selected;
                    self.entries[i].value.edit(key);
                }
            },
        }
    }

    /// The values of the form, field by field: each field's name with the
    /// value it gives.
    pub fn values(&self) -> (pairs: Vec<(String, String)>)
        ensures
            pairs@.len() == self.entries@.len(),
            forall|i: int|
                0 <= i < pairs@.len() ==> (#[trigger] pairs@[i]).0@ == self.entries@[i].name@
                    && pairs@[i].1@ == field_value(self.entries@[i].value@),
    {
        let mut pairs: Vec<(String, String)> = Vec::new();
        let mut i: usize = 0;
        while i < self.entries.len()
            invariant
                i <= self.entries@.len(),
                pairs@.len() == i,
                forall|j: int|
                    0 <= j < i ==> (#[trigger] pairs@[j]).0@ == self.entries@[j].name@
                        && pairs@[j].1@ == field_value(self.entries@[j].value@),
            decreases self.entries@.len() - i,
        {
            pairs.push((self.entries[i].name.clone(), self.entries[i].value.chosen()));
            i += 1;
        }
        pairs
    }
}

} // verus!

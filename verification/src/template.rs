//! Renders a task's command template: every `{{ name }}` or
//! `{{ name | default }}` is replaced by a value.

use crate::models::{opt_text, InputConfig};
use crate::text::{
    chars_of, extend, find_char, find_pair, first_at, first_pair_at, is_text, slice_of, text_of,
    trim, trimmed,
};
use vstd::prelude::*;

verus! {

/// Why a template cannot be rendered.
#[derive(Clone, Debug, PartialEq, Eq)]
pub enum TemplateError {
    /// A `{{` without a `}}` after it.
    Unclosed,
    /// A placeholder without a name.
    EmptyName,
    /// No value, inline default or input default for the variable named.
    Missing(String),
}

/// What a `TemplateError` holds.
pub enum TemplateErrorModel {
    Unclosed,
    EmptyName,
    Missing(Seq<char>),
}

impl View for TemplateError {
    type V = TemplateErrorModel;

    open spec fn view(&self) -> TemplateErrorModel {
        match self {
            TemplateError::Unclosed => TemplateErrorModel::Unclosed,
            TemplateError::EmptyName => TemplateErrorModel::EmptyName,
            TemplateError::Missing(name) => TemplateErrorModel::Missing(name@),
        }
    }
}

/// What the outcome of a rendering holds.
pub open spec fn outcome_view(r: Result<String, TemplateError>) -> Result<
    Seq<char>,
    TemplateErrorModel,
> {
    match r {
        Ok(text) => Ok(text@),
        Err(e) => Err(e@),
    }
}

/// The value that the first pair named `name` gives.
pub open spec fn value_of(pairs: Seq<(String, String)>, name: Seq<char>) -> Option<Seq<char>>
    decreases pairs.len(),
{
    if pairs.len() == 0 {
        None
    } else if pairs[0].0@ == name {
        Some(pairs[0].1@)
    } else {
        value_of(pairs.drop_first(), name)
    }
}

/// The default that an input's description gives, if it gives one.
pub open spec fn input_default(config: InputConfig) -> Option<Seq<char>> {
    match config {
        InputConfig::Select { options, default } => Some(default@),
        InputConfig::Text { placeholder, default } => opt_text(default),
    }
}

/// The default that the first input named `name` gives.
pub open spec fn default_of(inputs: Seq<(String, InputConfig)>, name: Seq<char>) -> Option<
    Seq<char>,
>
    decreases inputs.len(),
{
    if inputs.len() == 0 {
        None
    } else if inputs[0].0@ == name {
        input_default(inputs[0].1)
    } else {
        default_of(inputs.drop_first(), name)
    }
}

/// The inputs of a task, if it has any.
pub open spec fn inputs_seq(inputs: Option<&Vec<(String, InputConfig)>>) -> Seq<
    (String, InputConfig),
> {
    match inputs {
        Some(list) => list@,
        None => Seq::empty(),
    }
}

/// The name in a placeholder: what stands before the first `|`, trimmed.
pub open spec fn placeholder_name(inner: Seq<char>) -> Seq<char> {
    let t = trimmed(inner);
    trimmed(t.take(first_at(t, '|')))
}

/// The inline default in a placeholder: what follows the first `|`,
/// trimmed.
pub open spec fn placeholder_default(inner: Seq<char>) -> Option<Seq<char>> {
    let t = trimmed(inner);
    let bar = first_at(t, '|');
    if 0 <= bar < t.len() {
        Some(trimmed(t.skip(bar + 1)))
    } else {
        None
    }
}

/// The text that stands for a placeholder: the value given for its name,
/// else its inline default, else the default of the input of that name.
pub open spec fn placeholder_value(
    inner: Seq<char>,
    values: Seq<(String, String)>,
    inputs: Seq<(String, InputConfig)>,
) -> Result<Seq<char>, TemplateErrorModel> {
    let name = placeholder_name(inner);
    if name.len() == 0 {
        Err(TemplateErrorModel::EmptyName)
    } else {
        match value_of(values, name) {
            Some(v) => Ok(v),
            None => match placeholder_default(inner) {
                Some(d) => Ok(d),
                None => match default_of(inputs, name) {
                    Some(f) => Ok(f),
                    None => Err(TemplateErrorModel::Missing(name)),
                },
            },
        }
    }
}

/// `head` followed by a rendering, or the rendering's error.
pub open spec fn prefixed(head: Seq<char>, r: Result<Seq<char>, TemplateErrorModel>) -> Result<
    Seq<char>,
    TemplateErrorModel,
> {
    match r {
        Ok(tail) => Ok(head + tail),
        Err(e) => Err(e),
    }
}

/// The command that a template renders to, or the first thing that is
/// wrong with it, reading left to right.
pub open spec fn rendered(
    template: Seq<char>,
    values: Seq<(String, String)>,
    inputs: Seq<(String, InputConfig)>,
) -> Result<Seq<char>, TemplateErrorModel>
    decreases template.len(),
{
    let open = first_pair_at(template, '{', '{');
    if !(0 <= open && open + 1 < template.len()) {
        Ok(template)
    } else {
        let rest = template.skip(open + 2);
        let close = first_pair_at(rest, '}', '}');
        if !(0 <= close && close + 1 < rest.len()) {
            Err(TemplateErrorModel::Unclosed)
        } else {
            match placeholder_value(rest.take(close), values, inputs) {
                Err(e) => Err(e),
                Ok(v) => prefixed(
                    template.take(open) + v,
                    rendered(rest.skip(close + 2), values, inputs),
                ),
            }
        }
    }
}

proof fn lemma_value_scan(pairs: Seq<(String, String)>, name: Seq<char>, i: int)
    requires
        0 <= i <= pairs.len(),
        forall|j: int| 0 <= j < i ==> (#[trigger] pairs[j]).0@ != name,
        i == pairs.len() || pairs[i].0@ == name,
    ensures
        value_of(pairs, name) == if i < pairs.len() {
            Some(pairs[i].1@)
        } else {
            None
        },
    decreases pairs.len(),
{
    if pairs.len() > 0 && i > 0 {
        let rest = pairs.drop_first();
        lemma_value_scan(rest, name, i - 1);
    }
}

proof fn lemma_default_scan(inputs: Seq<(String, InputConfig)>, name: Seq<char>, i: int)
    requires
        0 <= i <= inputs.len(),
        forall|j: int| 0 <= j < i ==> (#[trigger] inputs[j]).0@ != name,
        i == inputs.len() || inputs[i].0@ == name,
    ensures
        default_of(inputs, name) == if i < inputs.len() {
            input_default(inputs[i].1)
        } else {
            None
        },
    decreases inputs.len(),
{
    if inputs.len() > 0 && i > 0 {
        let rest = inputs.drop_first();
        lemma_default_scan(rest, name, i - 1);
    }
}

impl TemplateError {
    /// The error in words.
    pub fn message(&self) -> (text: String)
        ensures
            text@ == match self {
                TemplateError::Unclosed => "unclosed template variable"@,
                TemplateError::EmptyName => "empty template variable"@,
                TemplateError::Missing(name) => "missing value for template variable: "@ + name@,
            },
    {
        match self {
            TemplateError::Unclosed => "unclosed template variable".to_owned(),
            TemplateError::EmptyName => "empty template variable".to_owned(),
            TemplateError::Missing(name) => {
                let mut out = chars_of("missing value for template variable: ");
                let tail = chars_of(name.as_str());
                extend(&mut out, &tail);
                text_of(&out)
            },
        }
    }
}

/// The default that an input's description gives, if it gives one.
pub fn default_from_input(config: &InputConfig) -> (r: Option<String>)
    ensures
        opt_text(r) == input_default(*config),
{
    match config {
        InputConfig::Select { options: _, default } => Some(default.clone()),
        InputConfig::Text { placeholder: _, default } => match default {
            Some(d) => Some(d.clone()),
            None => None,
        },
    }
}

/// The value that the first pair named `name` gives.
pub fn lookup_value(pairs: &Vec<(String, String)>, name: &Vec<char>) -> (r: Option<Vec<char>>)
    ensures
        match r {
            Some(v) => value_of(pairs@, name@) == Some(v@),
            None => value_of(pairs@, name@) is None,
        },
{
    let mut i: usize = 0;
    while i < pairs.len() && !is_text(name, pairs[i].0.as_str())
        invariant
            i <= pairs@.len(),
            forall|j: int| 0 <= j < i ==> (#[trigger] pairs@[j]).0@ != name@,
        decreases pairs@.len() - i,
    {
        i += 1;
    }
    proof {
        lemma_value_scan(pairs@, name@, i as int);
    }
    if i < pairs.len() {
        Some(chars_of(pairs[i].1.as_str()))
    } else {
        None
    }
}

/// The default that the first input named `name` gives.
pub fn lookup_default(inputs: &Vec<(String, InputConfig)>, name: &Vec<char>) -> (r: Option<
    Vec<char>,
>)
    ensures
        match r {
            Some(v) => default_of(inputs@, name@) == Some(v@),
            None => default_of(inputs@, name@) is None,
        },
{
    let mut i: usize = 0;
    while i < inputs.len() && !is_text(name, inputs[i].0.as_str())
        invariant
            i <= inputs@.len(),
            forall|j: int| 0 <= j < i ==> (#[trigger] inputs@[j]).0@ != name@,
        decreases inputs@.len() - i,
    {
        i += 1;
    }
    proof {
        lemma_default_scan(inputs@, name@, i as int);
    }
    if i < inputs.len() {
        match default_from_input(&inputs[i].1) {
            Some(d) => Some(chars_of(d.as_str())),
            None => None,
        }
    } else {
        None
    }
}

/// The text that stands for the placeholder whose inside is `inner`.
fn resolve_placeholder(
    inner: &Vec<char>,
    values: &Vec<(String, String)>,
    inputs: Option<&Vec<(String, InputConfig)>>,
) -> (r: Result<Vec<char>, TemplateError>)
    ensures
        match r {
            Ok(v) => placeholder_value(inner@, values@, inputs_seq(inputs)) == Ok::<
                Seq<char>,
                TemplateErrorModel,
            >(v@),
            Err(e) => placeholder_value(inner@, values@, inputs_seq(inputs)) == Err::<
                Seq<char>,
                TemplateErrorModel,
            >(e@),
        },
{
    let t = trim(inner);
    let bar = find_char(&t, 0, '|');
    assert(t@.skip(0) =~= t@);
    let raw_name = slice_of(&t, 0, bar);
    let name = trim(&raw_name);
    if name.len() == 0 {
        return Err(TemplateError::EmptyName);
    }
    match lookup_value(values, &name) {
        Some(v) => {
            return Ok(v);
        },
        None => {},
    }
    if bar < t.len() {
        let raw_default = slice_of(&t, bar + 1, t.len());
        return Ok(trim(&raw_default));
    }
    match inputs {
        Some(list) => match lookup_default(list, &name) {
            Some(f) => {
                return Ok(f);
            },
            None => {},
        },
        None => {},
    }
    Err(TemplateError::Missing(text_of(&name)))
}

/// Renders the template `command`. Each placeholder `{{ name }}` or
/// `{{ name | default }}` is replaced by the value that `values` gives for
/// the name, else by the inline default, else by the default of the input
/// of that name. Fails on the first placeholder, from the left, that is
/// not closed, has no name, or has no value from any of the three.
pub fn render_command(
    command: &str,
    values: &Vec<(String, String)>,
    inputs: Option<&Vec<(String, InputConfig)>>,
) -> (r: Result<String, TemplateError>)
    ensures
        outcome_view(r) == rendered(command@, values@, inputs_seq(inputs)),
{
    let all = chars_of(command);
    let n = all.len();
    let mut out: Vec<char> = Vec::new();
    let mut cursor: usize = 0;
    let ghost goal = rendered(all@, values@, inputs_seq(inputs));
    assert(all@.skip(0) =~= all@);
    assert(Seq::<char>::empty() + all@ =~= all@);
    loop
        invariant_except_break
            cursor <= n,
            goal == prefixed(out@, rendered(all@.skip(cursor as int), values@, inputs_seq(inputs))),
        invariant
            n == all@.len(),
            all@ == command@,
            goal == rendered(all@, values@, inputs_seq(inputs)),
        ensures
            goal == Ok::<Seq<char>, TemplateErrorModel>(out@),
        decreases n - cursor,
    {
        let ghost template = all@.skip(cursor as int);
        let ghost had = out@;
        let open = find_pair(&all, cursor, '{', '{');
        if open >= n - cursor {
            let rest = slice_of(&all, cursor, n);
            extend(&mut out, &rest);
            break ;
        }
        let start = cursor + open;
        let after = start + 2;
        let ghost rest = template.skip(open + 2);
        assert(rest =~= all@.skip(after as int));
        let close = find_pair(&all, after, '}', '}');
        if close >= n - after {
            return Err(TemplateError::Unclosed);
        }
        let end = after + close;
        let inner = slice_of(&all, after, end);
        assert(inner@ =~= rest.take(close as int));
        match resolve_placeholder(&inner, values, inputs) {
            Err(e) => {
                return Err(e);
            },
            Ok(v) => {
                let piece = slice_of(&all, cursor, start);
                extend(&mut out, &piece);
                extend(&mut out, &v);
                assert(rest.skip(close + 2) =~= all@.skip(end + 2));
                proof {
                    let tail = rendered(rest.skip(close + 2), values@, inputs_seq(inputs));
                    match tail {
                        Ok(t) => {
                            assert(had + (template.take(open as int) + v@ + t) =~= out@ + t);
                        },
                        Err(_) => {},
                    }
                }
                cursor = end + 2;
            },
        }
    }
    Ok(text_of(&out))
}

} // verus!

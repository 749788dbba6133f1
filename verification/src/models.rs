//! The task catalogue as the engine consumes it: tasks with their inputs,
//! and the presentation settings that come with a configuration.

use crate::text::{chars_of, decimal_digits, extend, is_text, push_decimal, split_words, text_of, texts, words};
use vstd::prelude::*;

verus! {

/// How one template input of a task is asked for.
#[derive(Clone, Debug)]
pub enum InputConfig {
    /// One of a fixed list of options.
    Select { options: Vec<String>, default: String },
    /// Free text.
    Text { placeholder: Option<String>, default: Option<String> },
}

/// One entry of the task catalogue. `env` and `inputs` list each name once.
#[derive(Clone, Debug)]
pub struct Task {
    pub id: String,
    pub name: String,
    pub command: String,
    pub category: Option<String>,
    pub cwd: Option<String>,
    pub env: Option<Vec<(String, String)>>,
    pub env_clear: Option<bool>,
    pub inputs: Option<Vec<(String, InputConfig)>>,
}

/// Bindings from action name to key expression, one list per view. Each
/// list names an action once.
#[derive(Clone, Debug)]
pub struct KeyBindings {
    pub global: Vec<(String, String)>,
    pub task_list: Vec<(String, String)>,
    pub task_running: Vec<(String, String)>,
}

/// Colours of the status bar and of command mode, as style expressions.
#[derive(Clone, Debug)]
pub struct UiConfig {
    pub status_bar_fg: Option<String>,
    pub status_bar_bg: Option<String>,
    pub command_mode_fg: Option<String>,
    pub command_mode_bg: Option<String>,
}

/// A whole configuration.
#[derive(Clone, Debug)]
pub struct AppConfig {
    pub tasks: Vec<Task>,
    pub history_limit: Option<usize>,
    pub ui: Option<UiConfig>,
    pub keys: Option<KeyBindings>,
}

/// The text of an optional string.
pub open spec fn opt_text(o: Option<String>) -> Option<Seq<char>> {
    match o {
        Some(s) => Some(s@),
        None => None,
    }
}

/// The texts of a list of pairs of strings.
pub open spec fn pairs_view(pairs: Seq<(String, String)>) -> Seq<(Seq<char>, Seq<char>)> {
    Seq::new(pairs.len(), |i: int| (pairs[i].0@, pairs[i].1@))
}

/// A pair of owned strings holding the two texts.
fn pair(key: &str, value: &str) -> (p: (String, String))
    ensures
        p.0@ == key@,
        p.1@ == value@,
{
    (key.to_owned(), value.to_owned())
}

impl Default for KeyBindings {
    /// The bindings in force where a configuration gives none.
    fn default() -> (k: KeyBindings)
        ensures
            pairs_view(k.global@) == Seq::<(Seq<char>, Seq<char>)>::empty(),
            pairs_view(k.task_list@) == seq![
                ("quit"@, "q"@),
                ("up"@, "up"@),
                ("down"@, "down"@),
                ("select"@, "enter"@),
                ("delete_instance"@, "d"@),
                ("kill_instance"@, "X"@),
                ("fold_task"@, "tab"@),
            ],
            pairs_view(k.task_running@) == seq![
                ("toggle_command_mode"@, "ctrl+p"@),
                ("back_to_list"@, "b"@),
                ("quit_task"@, "q"@),
                ("kill_task"@, "k"@),
            ],
    {
        let mut task_list: Vec<(String, String)> = Vec::new();
        task_list.push(pair("quit", "q"));
        task_list.push(pair("up", "up"));
        task_list.push(pair("down", "down"));
        task_list.push(pair("select", "enter"));
        task_list.push(pair("delete_instance", "d"));
        task_list.push(pair("kill_instance", "X"));
        task_list.push(pair("fold_task", "tab"));
        let mut task_running: Vec<(String, String)> = Vec::new();
        task_running.push(pair("toggle_command_mode", "ctrl+p"));
        task_running.push(pair("back_to_list", "b"));
        task_running.push(pair("quit_task", "q"));
        task_running.push(pair("kill_task", "k"));
        let k = KeyBindings { global: Vec::new(), task_list, task_running };
        k
    }
}

impl Default for UiConfig {
    /// The colours in force where a configuration gives none.
    fn default() -> (u: UiConfig)
        ensures
            opt_text(u.status_bar_fg) == Some("white bold"@),
            opt_text(u.status_bar_bg) == Some("blue"@),
            opt_text(u.command_mode_fg) == Some("white bold"@),
            opt_text(u.command_mode_bg) == Some("red"@),
    {
        UiConfig {
            status_bar_fg: Some("white bold".to_owned()),
            status_bar_bg: Some("blue".to_owned()),
            command_mode_fg: Some("white bold".to_owned()),
            command_mode_bg: Some("red".to_owned()),
        }
    }
}

/// The lower-case form of a text, as `str::to_lowercase` gives it.
pub uninterp spec fn lowercased(s: Seq<char>) -> Seq<char>;

/// `str::to_lowercase`: the lower-case form of `s`.
#[verifier::external_body]
fn to_lower(s: &str) -> (r: String)
    ensures
        r@ == lowercased(s@),
{
    s.to_lowercase()
}

/// The SGR number of an attribute name.
pub open spec fn attribute_code(lower: Seq<char>) -> Option<nat> {
    if lower == "bold"@ {
        Some(1nat)
    } else if lower == "dim"@ {
        Some(2nat)
    } else if lower == "italic"@ {
        Some(3nat)
    } else if lower == "underline"@ {
        Some(4nat)
    } else if lower == "blink"@ {
        Some(5nat)
    } else if lower == "reverse"@ {
        Some(7nat)
    } else if lower == "hidden"@ {
        Some(8nat)
    } else {
        None
    }
}

/// The place of a basic colour name among the eight colours.
pub open spec fn basic_color(lower: Seq<char>) -> Option<nat> {
    if lower == "black"@ {
        Some(0nat)
    } else if lower == "red"@ {
        Some(1nat)
    } else if lower == "green"@ {
        Some(2nat)
    } else if lower == "yellow"@ {
        Some(3nat)
    } else if lower == "blue"@ {
        Some(4nat)
    } else if lower == "magenta"@ {
        Some(5nat)
    } else if lower == "cyan"@ {
        Some(6nat)
    } else if lower == "white"@ {
        Some(7nat)
    } else {
        None
    }
}

/// The place of a bright colour name among the eight colours.
pub open spec fn bright_color(lower: Seq<char>) -> Option<nat> {
    if lower == "light_black"@ || lower == "gray"@ || lower == "grey"@ {
        Some(0nat)
    } else if lower == "light_red"@ {
        Some(1nat)
    } else if lower == "light_green"@ {
        Some(2nat)
    } else if lower == "light_yellow"@ {
        Some(3nat)
    } else if lower == "light_blue"@ {
        Some(4nat)
    } else if lower == "light_magenta"@ {
        Some(5nat)
    } else if lower == "light_cyan"@ {
        Some(6nat)
    } else if lower == "light_white"@ {
        Some(7nat)
    } else {
        None
    }
}

/// The SGR parameter that one word of a style expression stands for, given
/// the word and its lower-case form: `reset` and `default` clear the colour,
/// an attribute name gives its number, a colour name gives the foreground or
/// background number of that colour, and any other word stands for itself.
pub open spec fn word_code(part: Seq<char>, lower: Seq<char>, is_bg: bool) -> Seq<char> {
    if lower == "reset"@ || lower == "default"@ {
        decimal_digits(if is_bg { 49nat } else { 39nat })
    } else if attribute_code(lower) is Some {
        decimal_digits(attribute_code(lower)->0)
    } else if basic_color(lower) is Some {
        decimal_digits((if is_bg { 40nat } else { 30nat }) + basic_color(lower)->0)
    } else if bright_color(lower) is Some {
        decimal_digits((if is_bg { 100nat } else { 90nat }) + bright_color(lower)->0)
    } else {
        part
    }
}

/// The parameters of the words of a style expression, joined by `;`.
pub open spec fn codes_joined(parts: Seq<Seq<char>>, is_bg: bool) -> Seq<char>
    decreases parts.len(),
{
    if parts.len() == 0 {
        Seq::empty()
    } else if parts.len() == 1 {
        word_code(parts[0], lowercased(parts[0]), is_bg)
    } else {
        codes_joined(parts.drop_last(), is_bg) + seq![';'] + word_code(
            parts.last(),
            lowercased(parts.last()),
            is_bg,
        )
    }
}

/// The SGR parameter text of a style expression: the default colour when
/// the expression holds no word.
pub open spec fn style_parameters(style: Seq<char>, is_bg: bool) -> Seq<char> {
    if words(style).len() == 0 {
        decimal_digits(if is_bg { 49nat } else { 39nat })
    } else {
        codes_joined(words(style), is_bg)
    }
}

fn attribute_number(lower: &Vec<char>) -> (r: Option<u64>)
    ensures
        r is Some <==> attribute_code(lower@) is Some,
        r matches Some(n) ==> attribute_code(lower@) == Some(n as nat),
{
    if is_text(lower, "bold") {
        Some(1)
    } else if is_text(lower, "dim") {
        Some(2)
    } else if is_text(lower, "italic") {
        Some(3)
    } else if is_text(lower, "underline") {
        Some(4)
    } else if is_text(lower, "blink") {
        Some(5)
    } else if is_text(lower, "reverse") {
        Some(7)
    } else if is_text(lower, "hidden") {
        Some(8)
    } else {
        None
    }
}

fn basic_color_number(lower: &Vec<char>) -> (r: Option<u64>)
    ensures
        r is Some <==> basic_color(lower@) is Some,
        r matches Some(n) ==> basic_color(lower@) == Some(n as nat) && n < 8,
{
    if is_text(lower, "black") {
        Some(0)
    } else if is_text(lower, "red") {
        Some(1)
    } else if is_text(lower, "green") {
        Some(2)
    } else if is_text(lower, "yellow") {
        Some(3)
    } else if is_text(lower, "blue") {
        Some(4)
    } else if is_text(lower, "magenta") {
        Some(5)
    } else if is_text(lower, "cyan") {
        Some(6)
    } else if is_text(lower, "white") {
        Some(7)
    } else {
        None
    }
}

fn bright_color_number(lower: &Vec<char>) -> (r: Option<u64>)
    ensures
        r is Some <==> bright_color(lower@) is Some,
        r matches Some(n) ==> bright_color(lower@) == Some(n as nat) && n < 8,
{
    if is_text(lower, "light_black") || is_text(lower, "gray") || is_text(lower, "grey") {
        Some(0)
    } else if is_text(lower, "light_red") {
        Some(1)
    } else if is_text(lower, "light_green") {
        Some(2)
    } else if is_text(lower, "light_yellow") {
        Some(3)
    } else if is_text(lower, "light_blue") {
        Some(4)
    } else if is_text(lower, "light_magenta") {
        Some(5)
    } else if is_text(lower, "light_cyan") {
        Some(6)
    } else if is_text(lower, "light_white") {
        Some(7)
    } else {
        None
    }
}

/// Appends to `out` the SGR parameter that the word `part` stands for;
/// `lower` is the word in lower case.
pub fn push_word_code(out: &mut Vec<char>, part: &Vec<char>, lower: &Vec<char>, is_bg: bool)
    ensures
        final(out)@ == old(out)@ + word_code(part@, lower@, is_bg),
{
    if is_text(lower, "reset") || is_text(lower, "default") {
        push_decimal(out, if is_bg { 49 } else { 39 });
        return ;
    }
    match attribute_number(lower) {
        Some(n) => {
            push_decimal(out, n);
            return ;
        },
        None => {},
    }
    match basic_color_number(lower) {
        Some(n) => {
            push_decimal(out, (if is_bg { 40 } else { 30 }) + n);
            return ;
        },
        None => {},
    }
    match bright_color_number(lower) {
        Some(n) => {
            push_decimal(out, (if is_bg { 100 } else { 90 }) + n);
            return ;
        },
        None => {},
    }
    extend(out, part);
}

impl UiConfig {
    /// The SGR parameter text of a style expression such as `"white bold"`:
    /// the parameter of each word in turn, joined by `;`. Words are matched
    /// in lower case; a word that names nothing is passed through as it is
    /// written. An expression without words gives the default colour, `49`
    /// for a background and `39` for a foreground.
    pub fn parse_style(style_str: &str, is_bg: bool) -> (r: String)
        ensures
            r@ == style_parameters(style_str@, is_bg),
    {
        let chars = chars_of(style_str);
        let parts = split_words(&chars);
        let mut out: Vec<char> = Vec::new();
        if parts.len() == 0 {
            push_decimal(&mut out, if is_bg { 49 } else { 39 });
            return text_of(&out);
        }
        let mut i: usize = 0;
        while i < parts.len()
            invariant
                i <= parts@.len(),
                parts@.len() > 0,
                out@ == codes_joined(texts(parts@).take(i as int), is_bg),
            decreases parts@.len() - i,
        {
            let ghost seen = texts(parts@).take(i as int);
            let ghost now = texts(parts@).take(i + 1);
            assert(now.drop_last() =~= seen);
            if i > 0 {
                out.push(';');
            }
            let word = text_of(&parts[i]);
            let lower_text = to_lower(word.as_str());
            let lower = chars_of(lower_text.as_str());
            push_word_code(&mut out, &parts[i], &lower, is_bg);
            i += 1;
        }
        assert(texts(parts@).take(parts@.len() as int) =~= texts(parts@));
        text_of(&out)
    }
}

} // verus!

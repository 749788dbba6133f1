use cmdhub::models::{push_word_code, KeyBindings, UiConfig};

fn pairs(list: &[(&str, &str)]) -> Vec<(String, String)> {
    list.iter().map(|(k, v)| (k.to_string(), v.to_string())).collect()
}

#[test]
fn default_key_bindings() {
    let k = KeyBindings::default();
    assert!(k.global.is_empty());
    assert_eq!(
        k.task_list,
        pairs(&[
            ("quit", "q"),
            ("up", "up"),
            ("down", "down"),
            ("select", "enter"),
            ("delete_instance", "d"),
            ("kill_instance", "X"),
            ("fold_task", "tab"),
        ])
    );
    assert_eq!(
        k.task_running,
        pairs(&[
            ("toggle_command_mode", "ctrl+p"),
            ("back_to_list", "b"),
            ("quit_task", "q"),
            ("kill_task", "k"),
        ])
    );
}

#[test]
fn default_ui_colours() {
    let u = UiConfig::default();
    assert_eq!(u.status_bar_fg, Some("white bold".to_string()));
    assert_eq!(u.status_bar_bg, Some("blue".to_string()));
    assert_eq!(u.command_mode_fg, Some("white bold".to_string()));
    assert_eq!(u.command_mode_bg, Some("red".to_string()));
}

#[test]
fn style_of_the_defaults() {
    assert_eq!(UiConfig::parse_style("white bold", false), "37;1");
    assert_eq!(UiConfig::parse_style("blue", true), "44");
    assert_eq!(UiConfig::parse_style("red", true), "41");
}

#[test]
fn style_without_words_is_the_default_colour() {
    assert_eq!(UiConfig::parse_style("", false), "39");
    assert_eq!(UiConfig::parse_style("", true), "49");
    assert_eq!(UiConfig::parse_style("  \t ", true), "49");
}

#[test]
fn style_names_are_matched_in_lower_case() {
    assert_eq!(UiConfig::parse_style("BOLD Red", false), "1;31");
    assert_eq!(UiConfig::parse_style("Light_Blue UNDERLINE", true), "104;4");
}

#[test]
fn style_attributes() {
    assert_eq!(
        UiConfig::parse_style("bold dim italic underline blink reverse hidden", false),
        "1;2;3;4;5;7;8"
    );
    assert_eq!(UiConfig::parse_style("reset default", false), "39;39");
    assert_eq!(UiConfig::parse_style("reset default", true), "49;49");
}

#[test]
fn style_colours_foreground_and_background() {
    assert_eq!(
        UiConfig::parse_style("black red green yellow blue magenta cyan white", false),
        "30;31;32;33;34;35;36;37"
    );
    assert_eq!(
        UiConfig::parse_style("black red green yellow blue magenta cyan white", true),
        "40;41;42;43;44;45;46;47"
    );
    assert_eq!(
        UiConfig::parse_style(
            "light_black gray grey light_red light_green light_yellow light_blue light_magenta light_cyan light_white",
            false
        ),
        "90;90;90;91;92;93;94;95;96;97"
    );
    assert_eq!(
        UiConfig::parse_style(
            "light_black gray grey light_red light_green light_yellow light_blue light_magenta light_cyan light_white",
            true
        ),
        "100;100;100;101;102;103;104;105;106;107"
    );
}

#[test]
fn style_unknown_words_pass_through_as_written() {
    assert_eq!(UiConfig::parse_style("38;5;208 Bold Weird", false), "38;5;208;1;Weird");
    assert_eq!(UiConfig::parse_style("  x  ", true), "x");
}

#[test]
fn word_code_takes_the_lower_case_form_as_given() {
    let mut out: Vec<char> = vec!['>'];
    push_word_code(&mut out, &"XYZ".chars().collect(), &"bold".chars().collect(), false);
    assert_eq!(out, vec!['>', '1']);
    let mut out2: Vec<char> = Vec::new();
    push_word_code(&mut out2, &"XYZ".chars().collect(), &"xyz".chars().collect(), true);
    assert_eq!(out2, vec!['X', 'Y', 'Z']);
}

use cmdhub::ansi::{
    ansi_color, apply_code, apply_codes, apply_sgr, clamp_u8, parse_ansi_text, Attribute, Color,
    Modifiers, Style, StyledRun,
};

fn run(text: &str, style: Style) -> StyledRun {
    StyledRun { text: text.to_string(), style }
}

fn plain() -> Style {
    Style::default()
}

#[test]
fn default_style_is_plain() {
    let s = Style::default();
    assert_eq!(s.fg, None);
    assert_eq!(s.bg, None);
    assert_eq!(s.add_modifier, Modifiers::empty());
    assert_eq!(s.sub_modifier, Modifiers::empty());
    assert!(!Modifiers::empty().contains(Attribute::Bold));
}

#[test]
fn bold_red_then_reset() {
    let lines = parse_ansi_text("\x1b[1;31mERR\x1b[0m ok");
    let bold_red = plain().add_modifier(Attribute::Bold).with_color(true, Some(Color::Red));
    assert_eq!(lines, vec![vec![run("ERR", bold_red), run(" ok", plain())]]);
    assert!(bold_red.add_modifier.bold);
    assert_eq!(bold_red.fg, Some(Color::Red));
}

#[test]
fn plain_text_is_one_run() {
    assert_eq!(parse_ansi_text("hello"), vec![vec![run("hello", plain())]]);
    assert_eq!(parse_ansi_text(""), Vec::<Vec<StyledRun>>::new());
}

#[test]
fn line_break_ends_the_line_and_carries_the_style() {
    let green = plain().with_color(true, Some(Color::Green));
    let lines = parse_ansi_text("\x1b[32ma\nb\n\nc");
    assert_eq!(
        lines,
        vec![vec![run("a", green)], vec![run("b", green)], vec![], vec![run("c", green)]]
    );
}

#[test]
fn trailing_line_break_adds_no_empty_line() {
    assert_eq!(parse_ansi_text("a\n"), vec![vec![run("a", plain())]]);
    assert_eq!(parse_ansi_text("\n"), vec![Vec::<StyledRun>::new()]);
}

#[test]
fn no_run_spans_a_line_break() {
    let lines = parse_ansi_text("one\ntwo\x1b[1mthree\nfour\x1b[0m\n\nfive");
    for line in &lines {
        for r in line {
            assert!(!r.text.is_empty());
            assert!(!r.text.contains('\n'));
        }
    }
    assert_eq!(lines.len(), 5);
}

#[test]
fn empty_sequence_resets() {
    let lines = parse_ansi_text("\x1b[4mu\x1b[mv");
    let under = plain().add_modifier(Attribute::Underlined);
    assert_eq!(lines, vec![vec![run("u", under), run("v", plain())]]);
}

#[test]
fn lone_escape_is_text() {
    assert_eq!(parse_ansi_text("a\x1bb"), vec![vec![run("a\x1bb", plain())]]);
    assert_eq!(parse_ansi_text("a\x1b"), vec![vec![run("a\x1b", plain())]]);
}

#[test]
fn unclosed_sequence_swallows_the_rest() {
    assert_eq!(parse_ansi_text("ab\x1b[31;1 never closed"), vec![vec![run("ab", plain())]]);
}

#[test]
fn other_final_letters_are_not_recognised() {
    // The sequence reaches to the next `m`, whatever stands between.
    let lines = parse_ansi_text("\x1b[2Jxm!");
    assert_eq!(lines, vec![vec![run("!", plain())]]);
}

#[test]
fn attributes_set_and_clear() {
    let mut s = plain();
    apply_sgr("1;2;3;4;7;9", &mut s);
    assert_eq!(
        s.add_modifier,
        Modifiers {
            bold: true,
            dim: true,
            italic: true,
            underlined: true,
            reversed: true,
            crossed_out: true
        }
    );
    assert_eq!(s.sub_modifier, Modifiers::empty());
    apply_sgr("22", &mut s);
    assert!(!s.add_modifier.bold && !s.add_modifier.dim);
    assert!(s.sub_modifier.bold && s.sub_modifier.dim);
    assert!(s.add_modifier.italic);
    apply_sgr("23;24;27;29", &mut s);
    assert_eq!(s.add_modifier, Modifiers::empty());
    assert_eq!(
        s.sub_modifier,
        Modifiers {
            bold: true,
            dim: true,
            italic: true,
            underlined: true,
            reversed: true,
            crossed_out: true
        }
    );
    apply_sgr("1", &mut s);
    assert!(s.add_modifier.bold && !s.sub_modifier.bold);
    apply_sgr("0", &mut s);
    assert_eq!(s, plain());
}

#[test]
fn named_colours() {
    assert_eq!(ansi_color(30), Some(Color::Black));
    assert_eq!(ansi_color(31), Some(Color::Red));
    assert_eq!(ansi_color(32), Some(Color::Green));
    assert_eq!(ansi_color(33), Some(Color::Yellow));
    assert_eq!(ansi_color(34), Some(Color::Blue));
    assert_eq!(ansi_color(35), Some(Color::Magenta));
    assert_eq!(ansi_color(36), Some(Color::Cyan));
    assert_eq!(ansi_color(37), Some(Color::Gray));
    assert_eq!(ansi_color(90), Some(Color::DarkGray));
    assert_eq!(ansi_color(91), Some(Color::LightRed));
    assert_eq!(ansi_color(92), Some(Color::LightGreen));
    assert_eq!(ansi_color(93), Some(Color::LightYellow));
    assert_eq!(ansi_color(94), Some(Color::LightBlue));
    assert_eq!(ansi_color(95), Some(Color::LightMagenta));
    assert_eq!(ansi_color(96), Some(Color::LightCyan));
    assert_eq!(ansi_color(97), Some(Color::White));
    assert_eq!(ansi_color(38), None);
    assert_eq!(ansi_color(29), None);
    assert_eq!(ansi_color(98), None);
    assert_eq!(ansi_color(-31), None);
}

#[test]
fn foreground_and_background_codes() {
    let mut s = plain();
    apply_sgr("34;43", &mut s);
    assert_eq!(s.fg, Some(Color::Blue));
    assert_eq!(s.bg, Some(Color::Yellow));
    apply_sgr("97;100", &mut s);
    assert_eq!(s.fg, Some(Color::White));
    assert_eq!(s.bg, Some(Color::DarkGray));
    apply_sgr("107", &mut s);
    assert_eq!(s.bg, Some(Color::White));
    apply_sgr("39", &mut s);
    assert_eq!(s.fg, None);
    assert_eq!(s.bg, Some(Color::White));
    apply_sgr("49", &mut s);
    assert_eq!(s, plain());
}

#[test]
fn indexed_and_rgb_colours() {
    let mut s = plain();
    apply_sgr("38;5;200", &mut s);
    assert_eq!(s.fg, Some(Color::Indexed(200)));
    apply_sgr("48;5;999", &mut s);
    assert_eq!(s.bg, Some(Color::Indexed(255)));
    apply_sgr("38;2;1;2;3", &mut s);
    assert_eq!(s.fg, Some(Color::Rgb(1, 2, 3)));
    apply_sgr("48;2;300;-4;255;1", &mut s);
    assert_eq!(s.bg, Some(Color::Rgb(255, 0, 255)));
    assert!(s.add_modifier.bold);
}

#[test]
fn malformed_extended_colour_is_skipped() {
    let mut s = plain();
    apply_sgr("38;5", &mut s);
    assert_eq!(s, plain());
    apply_sgr("38", &mut s);
    assert_eq!(s, plain());
    // too few parameters for RGB: the scan resumes at the `2`, which is dim
    apply_sgr("38;2;10;20", &mut s);
    assert_eq!(s.fg, None);
    assert!(s.add_modifier.dim);
    let mut t = plain();
    apply_sgr("38;7;1", &mut t);
    assert_eq!(t.fg, None);
    assert!(t.add_modifier.reversed && t.add_modifier.bold);
}

#[test]
fn unknown_and_unparsable_parameters_are_ignored() {
    let mut s = plain();
    apply_sgr("5;x;;31;8;99999999999999999999;4", &mut s);
    assert_eq!(s.fg, Some(Color::Red));
    assert!(s.add_modifier.underlined);
    assert!(!s.add_modifier.bold);
    let mut t = plain();
    apply_sgr(";", &mut t);
    assert_eq!(t, plain());
    let mut u = plain().add_modifier(Attribute::Bold);
    apply_sgr("+0", &mut u);
    assert_eq!(u, plain());
}

#[test]
fn apply_code_and_codes_agree() {
    let s = apply_code(plain(), 3);
    assert!(s.add_modifier.italic);
    let mut t = plain();
    apply_codes(&vec![3, 31, 48, 5, 7], &mut t);
    assert!(t.add_modifier.italic);
    assert_eq!(t.fg, Some(Color::Red));
    assert_eq!(t.bg, Some(Color::Indexed(7)));
    assert!(!t.add_modifier.reversed);
}

#[test]
fn clamp_forces_into_a_byte() {
    assert_eq!(clamp_u8(-1), 0);
    assert_eq!(clamp_u8(i64::MIN), 0);
    assert_eq!(clamp_u8(0), 0);
    assert_eq!(clamp_u8(17), 17);
    assert_eq!(clamp_u8(255), 255);
    assert_eq!(clamp_u8(256), 255);
    assert_eq!(clamp_u8(i64::MAX), 255);
}

use cmdhub::text::{
    chars_of, contains, find_char, find_pair, has_prefix, has_suffix, is_space, parse_i64,
    parse_u32, push_decimal, same_text, split, split_words, text_of, trim,
};

fn cs(s: &str) -> Vec<char> {
    s.chars().collect()
}

#[test]
fn chars_and_text_round_trip() {
    let v = chars_of("héllo ✓");
    assert_eq!(v, cs("héllo ✓"));
    assert_eq!(text_of(&v), "héllo ✓".to_string());
    assert_eq!(text_of(&Vec::new()), String::new());
}

#[test]
fn white_space_is_what_std_says() {
    let mut n: u32 = 0;
    while n < 0x3100 {
        if let Some(c) = char::from_u32(n) {
            assert_eq!(is_space(c), c.is_whitespace(), "U+{:04X}", n);
        }
        n += 1;
    }
    assert!(!is_space('\u{feff}'));
    assert!(!is_space('\u{200b}'));
}

#[test]
fn trim_agrees_with_std() {
    for s in ["", " ", "  a  ", "a", "\t a b \r\n", "\u{a0}x\u{3000}", "   ", "x  y"] {
        assert_eq!(text_of(&trim(&cs(s))), s.trim().to_string());
    }
}

#[test]
fn split_agrees_with_std() {
    for s in ["", ";", "a;b", "a;;b;", ";a", "abc", "state=exited;code=7"] {
        let got: Vec<String> = split(&cs(s), ';').iter().map(|p| text_of(p)).collect();
        let want: Vec<String> = s.split(';').map(|p| p.to_string()).collect();
        assert_eq!(got, want);
    }
}

#[test]
fn split_words_agrees_with_std() {
    for s in ["", "  ", "white bold", "  a \t b\nc  ", "one"] {
        let got: Vec<String> = split_words(&cs(s)).iter().map(|p| text_of(p)).collect();
        let want: Vec<String> = s.split_whitespace().map(|p| p.to_string()).collect();
        assert_eq!(got, want);
    }
}

#[test]
fn find_char_counts_from_the_start_given() {
    let v = cs("a=b=c");
    assert_eq!(find_char(&v, 0, '='), 1);
    assert_eq!(find_char(&v, 2, '='), 1);
    assert_eq!(find_char(&v, 4, '='), 1);
    assert_eq!(find_char(&v, 5, '='), 0);
}

#[test]
fn find_pair_finds_the_first_pair() {
    let v = cs("a{b{{c}}");
    assert_eq!(find_pair(&v, 0, '{', '{'), 3);
    assert_eq!(find_pair(&v, 4, '{', '{'), 4);
    assert_eq!(find_pair(&v, 0, '}', '}'), 6);
    assert_eq!(find_pair(&cs("{"), 0, '{', '{'), 1);
}

#[test]
fn prefix_suffix_and_contains() {
    assert!(has_prefix(&cs("CMDHUB:x"), &cs("CMDHUB:")));
    assert!(!has_prefix(&cs("CMDHU"), &cs("CMDHUB:")));
    assert!(has_suffix(&cs("/bin/bash"), &cs("bash")));
    assert!(!has_suffix(&cs("ash"), &cs("bash")));
    assert!(contains(&cs("/usr/bash/x"), &cs("/bash")));
    assert!(!contains(&cs("/usr/zsh"), &cs("/bash")));
    assert!(contains(&cs("abc"), &cs("")));
    assert!(same_text("abc", "abc"));
    assert!(!same_text("abc", "abd"));
}

#[test]
fn parse_u32_agrees_with_std() {
    for s in [
        "", "0", "7", "+7", "-7", "+", "-", "007", "4294967295", "4294967296",
        "99999999999999999999999999", "12a", " 1", "1 ", "1_0", "+-1", "٣",
    ] {
        assert_eq!(parse_u32(&cs(s)), s.parse::<u32>().ok(), "{:?}", s);
    }
}

#[test]
fn parse_i64_agrees_with_std() {
    for s in [
        "", "0", "31", "+31", "-31", "-0", "+", "-", "0031", "9223372036854775807",
        "9223372036854775808", "-9223372036854775808", "-9223372036854775809",
        "999999999999999999999999999999", "1;2", "x", " 5", "--5",
    ] {
        assert_eq!(parse_i64(&cs(s)), s.parse::<i64>().ok(), "{:?}", s);
    }
}

#[test]
fn decimal_agrees_with_std() {
    for n in [0u64, 1, 9, 10, 11, 99, 100, 107, 4294967295, u64::MAX] {
        let mut out = cs("#");
        push_decimal(&mut out, n);
        assert_eq!(text_of(&out), format!("#{}", n));
    }
}

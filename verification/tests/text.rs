use makefile2doc::text::{
    char_is_whitespace, find, has_prefix, push_chars, str_is_blank, from_chars, to_chars, trim,
    trim_end, trim_start,
};

fn text_chars(s: &str) -> Vec<char> {
    s.chars().collect()
}

fn text_of(c: &[char]) -> String {
    c.iter().collect()
}

#[test]
fn whitespace_agrees_with_std_for_every_char() {
    let mut code: u32 = 0;
    while code <= 0x10FFFF {
        if let Some(c) = char::from_u32(code) {
            assert_eq!(char_is_whitespace(c), c.is_whitespace(), "U+{:04X}", code);
        }
        code += 1;
    }
}

#[test]
fn whitespace_examples() {
    for c in [' ', '\t', '\n', '\r', '\u{0B}', '\u{0C}', '\u{85}', '\u{A0}', '\u{3000}'] {
        assert!(char_is_whitespace(c), "{:?}", c);
    }
    for c in ['a', '#', '@', ':', '\u{08}', '\u{0E}', '\u{200B}', '\u{FEFF}'] {
        assert!(!char_is_whitespace(c), "{:?}", c);
    }
}

#[test]
fn to_chars_gives_each_character_once() {
    assert_eq!(to_chars(""), Vec::<char>::new());
    assert_eq!(to_chars("aé\u{1F600}z"), vec!['a', 'é', '\u{1F600}', 'z']);
}

#[test]
fn from_chars_puts_the_characters_back() {
    assert_eq!(from_chars(&[]), "");
    assert_eq!(from_chars(&['a', 'é', '\u{1F600}', 'z']), "aé\u{1F600}z");
    let text = "## @category Base de données\n";
    assert_eq!(from_chars(&to_chars(text)), text);
}

#[test]
fn push_chars_appends() {
    let mut s = String::from("ab");
    push_chars(&mut s, &['c', 'd']);
    assert_eq!(s, "abcd");
    push_chars(&mut s, &[]);
    assert_eq!(s, "abcd");
}

#[test]
fn find_gives_the_first_position_or_the_length() {
    assert_eq!(find(&text_chars("a,b,c"), ','), 1);
    assert_eq!(find(&text_chars(",a"), ','), 0);
    assert_eq!(find(&text_chars("abc"), ','), 3);
    assert_eq!(find(&text_chars(""), ','), 0);
}

#[test]
fn trim_agrees_with_std() {
    let samples = [
        "",
        " ",
        "a",
        "  a  ",
        "\t a b \r\n",
        "\u{A0}x\u{2003}",
        "\u{3000}\u{3000}",
        "x\u{200B} ",
        " \u{85}é\u{1680} ",
    ];
    for s in samples {
        let c = text_chars(s);
        assert_eq!(text_of(trim(&c)), s.trim(), "trim of {:?}", s);
        assert_eq!(text_of(trim_start(&c)), s.trim_start(), "trim_start of {:?}", s);
        assert_eq!(text_of(trim_end(&c)), s.trim_end(), "trim_end of {:?}", s);
    }
}

#[test]
fn blank_means_nothing_but_whitespace() {
    for s in ["", " ", "\n", "\t\r\n \u{A0}"] {
        assert!(str_is_blank(s), "{:?}", s);
        assert_eq!(str_is_blank(s), s.trim().is_empty());
    }
    for s in ["a", " a ", "\n.\n", "\u{200B}"] {
        assert!(!str_is_blank(s), "{:?}", s);
        assert_eq!(str_is_blank(s), s.trim().is_empty());
    }
}

#[test]
fn has_prefix_examples() {
    assert!(has_prefix(&text_chars("## @x"), &text_chars("## @")));
    assert!(has_prefix(&text_chars("## @"), &text_chars("## @")));
    assert!(has_prefix(&text_chars("abc"), &text_chars("")));
    assert!(!has_prefix(&text_chars("## "), &text_chars("## @")));
    assert!(!has_prefix(&text_chars("#  @x"), &text_chars("## @")));
    assert!(!has_prefix(&text_chars(""), &text_chars("a")));
}

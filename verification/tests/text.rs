use wayback_archiver::text::{order_of, trim, white_space, KeyOrder};

#[test]
fn white_space_agrees_with_std_on_every_char() {
    let mut v: u32 = 0;
    while v <= 0x10FFFF {
        if let Some(c) = char::from_u32(v) {
            assert_eq!(white_space(c), c.is_whitespace(), "U+{:04X}", v);
        }
        v += 1;
    }
}

#[test]
fn white_space_knows_the_usual_blanks() {
    assert!(white_space(' '));
    assert!(white_space('\t'));
    assert!(white_space('\n'));
    assert!(white_space('\r'));
    assert!(white_space('\u{00A0}'));
    assert!(white_space('\u{3000}'));
    assert!(!white_space('a'));
    assert!(!white_space('\u{200B}'));
    assert!(!white_space('\u{180E}'));
}

#[test]
fn trim_removes_both_ends() {
    assert_eq!(trim("  https://example.com/a b \n"), "https://example.com/a b");
}

#[test]
fn trim_keeps_inner_white_space() {
    assert_eq!(trim("\ta \t b\r\n"), "a \t b");
}

#[test]
fn trim_of_blank_is_empty() {
    assert_eq!(trim(""), "");
    assert_eq!(trim(" \t\r\n"), "");
    assert_eq!(trim("\u{2003}\u{3000}"), "");
}

#[test]
fn trim_leaves_clean_text_alone() {
    assert_eq!(trim("https://example.com"), "https://example.com");
    assert_eq!(trim("x"), "x");
}

#[test]
fn trim_handles_wide_chars() {
    assert_eq!(trim("\u{00A0}\u{2028}h\u{00E9}llo w\u{00F6}rld \u{1F600}\u{205F}"), "h\u{00E9}llo w\u{00F6}rld \u{1F600}");
}

#[test]
fn trim_agrees_with_std() {
    let samples = [
        "",
        " ",
        "a",
        " a",
        "a ",
        " a ",
        "\n\na b c\t\t",
        "\u{0085}x\u{0085}",
        "\u{1680}\u{2000}\u{200A}y z\u{2029}\u{202F}",
        "\u{200B}not blank\u{200B}",
        "http://example.org/?q=1 ",
        "  \u{00E9}  ",
    ];
    for s in samples {
        assert_eq!(trim(s), s.trim(), "{:?}", s);
    }
}

fn by_std(a: &str, b: &str) -> KeyOrder {
    if a < b {
        KeyOrder::Before
    } else if a == b {
        KeyOrder::Same
    } else {
        KeyOrder::After
    }
}

#[test]
fn order_of_compares_byte_by_byte() {
    assert_eq!(order_of("a", "b"), KeyOrder::Before);
    assert_eq!(order_of("b", "a"), KeyOrder::After);
    assert_eq!(order_of("a", "a"), KeyOrder::Same);
    assert_eq!(order_of("", ""), KeyOrder::Same);
}

#[test]
fn order_of_puts_a_prefix_first() {
    assert_eq!(order_of("", "a"), KeyOrder::Before);
    assert_eq!(order_of("http://a", "http://a/"), KeyOrder::Before);
    assert_eq!(order_of("http://a/", "http://a"), KeyOrder::After);
}

#[test]
fn order_of_tells_case_and_form_apart() {
    assert_eq!(order_of("A", "a"), KeyOrder::Before);
    assert_eq!(order_of("http://example.com", "http://example.com/"), KeyOrder::Before);
    assert_eq!(order_of("Z", "a"), KeyOrder::Before);
}

#[test]
fn order_of_agrees_with_std() {
    let samples = [
        "",
        "a",
        "ab",
        "b",
        "B",
        "\u{00E9}",
        "e\u{0301}",
        "\u{1F600}",
        "\u{FFFF}",
        "\u{10000}",
        "http://example.com",
        "https://example.com",
        "https://example.com/",
        "zz",
        "~",
    ];
    for a in samples {
        for b in samples {
            assert_eq!(order_of(a, b), by_std(a, b), "{:?} {:?}", a, b);
        }
    }
}

use shinbun::text::{chars_of, is_whitespace, trim_bounds};

#[test]
fn whitespace_is_what_std_calls_whitespace() {
    let mut c = 0u32;
    while c <= 0x10FFFF {
        if let Some(ch) = char::from_u32(c) {
            assert_eq!(is_whitespace(ch), ch.is_whitespace(), "U+{:04X}", c);
        }
        c += 1;
    }
}

#[test]
fn chars_of_lists_the_characters() {
    assert_eq!(chars_of("aé日"), vec!['a', 'é', '日']);
    assert_eq!(chars_of(""), Vec::<char>::new());
}

#[test]
fn trim_bounds_agree_with_trim() {
    for s in ["", " ", "a", "  a b  ", "\t\nx\u{2003}", "\u{a0}\u{3000}", "x", " x", "x "] {
        let chars = chars_of(s);
        let (a, b) = trim_bounds(&chars, 0, chars.len());
        let got: String = chars[a..b].iter().collect();
        assert_eq!(got, s.trim(), "{:?}", s);
    }
}

#[test]
fn trim_bounds_of_a_part() {
    let chars = chars_of("ab  cd  ef");
    assert_eq!(trim_bounds(&chars, 2, 8), (4, 6));
    assert_eq!(trim_bounds(&chars, 2, 4), (4, 4));
    assert_eq!(trim_bounds(&chars, 3, 3), (3, 3));
}

#[test]
fn texts_are_the_same_as_std_says() {
    let samples = ["", "a", "ab", "abc", "abd", "b", "é", "e\u{301}", "日本", "日本語", "\u{10000}", "\u{ffff}", " a"];
    for a in samples {
        for b in samples {
            assert_eq!(shinbun::text::text_eq(a, b), a == b, "{:?} {:?}", a, b);
        }
    }
}

#[test]
fn texts_are_ordered_as_std_orders_them() {
    let samples = [
        "", "a", "ab", "abc", "abd", "b", "B", "é", "e\u{301}", "日本", "日本語", "\u{10000}", "\u{ffff}",
        "\u{e000}", "\u{d7ff}", "2024-01-01", "2024-06-01", "2024", "~", "\u{7f}", "\u{80}", "\u{7ff}",
        "\u{800}",
    ];
    for a in samples {
        for b in samples {
            assert_eq!(shinbun::text::text_lt(a, b), a < b, "{:?} {:?}", a, b);
        }
    }
}

#[test]
fn characters_are_ordered_by_code_point() {
    assert!(shinbun::text::char_lt('a', 'b'));
    assert!(!shinbun::text::char_lt('b', 'a'));
    assert!(!shinbun::text::char_lt('a', 'a'));
    assert!(shinbun::text::char_lt('\u{ffff}', '\u{10000}'));
}

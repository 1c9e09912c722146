use negaboku::text::{
    begins_with, char_is_whitespace, comes_first, equals, equals_str, find, format_i32,
    format_u32, includes, inner_of, is_enclosed_by, parse_bool, parse_u32, scan, scan_back, slice,
    split, split_words, stands_at, to_chars, to_string, trimmed, CharClass,
};

fn chars(s: &str) -> Vec<char> {
    s.chars().collect()
}

fn text(v: &[char]) -> String {
    v.iter().collect()
}

const SAMPLES: [&str; 24] = [
    "",
    " ",
    "a",
    " a",
    "a ",
    "  a b  ",
    "\t\n\r a \u{b}\u{c}",
    "\u{3000}全角\u{3000}空白\u{3000}",
    "\u{a0}nbsp\u{a0}",
    "\u{85}nel\u{85}",
    "\u{1680}ogham\u{1680}",
    "\u{2000}\u{2001}\u{2002}\u{2003}\u{2004}\u{2005}x\u{2006}\u{2007}\u{2008}\u{2009}\u{200a}",
    "\u{2028}line\u{2029}",
    "\u{202f}narrow\u{205f}",
    "\u{200b}zero width\u{200b}",
    "\u{feff}bom\u{feff}",
    "\u{180e}mongolian\u{180e}",
    "\u{1c}\u{1d}\u{1e}\u{1f}x",
    "a\u{3000}b  c\td\ne",
    "[bg storage=a.jpg time=500]",
    "**ソウマ**「こんにちは」",
    "   \t  ",
    "x\u{10ffff}y",
    "\u{8}\u{e}",
];

#[test]
fn white_space_is_what_char_says() {
    for code in 0..=0x10ffffu32 {
        if let Some(c) = char::from_u32(code) {
            assert_eq!(char_is_whitespace(c), c.is_whitespace());
            assert_eq!(CharClass::Whitespace.contains(c), c.is_whitespace());
            assert_eq!(CharClass::Visible.contains(c), !c.is_whitespace());
        }
    }
    assert!(CharClass::Except('=').contains('a'));
    assert!(!CharClass::Except('=').contains('='));
}

#[test]
fn chars_and_strings() {
    for s in SAMPLES {
        assert_eq!(to_chars(s), chars(s));
        assert_eq!(to_string(&chars(s)), s);
        assert!(equals_str(&chars(s), s));
        assert!(equals(&chars(s), &chars(s)));
    }
    assert!(!equals_str(&chars("a"), "b"));
    assert!(!equals_str(&chars("a"), "ab"));
    assert!(!equals_str(&chars("ab"), "a"));
    assert!(!equals(&chars("ab"), &chars("ac")));
    assert!(equals(&chars(""), &chars("")));
}

#[test]
fn trimming_is_what_str_does() {
    for s in SAMPLES {
        assert_eq!(text(&trimmed(&chars(s))), s.trim());
    }
    assert_eq!(text(&trimmed(&chars("  a b  "))), "a b");
    assert_eq!(text(&trimmed(&chars("\u{3000}"))), "");
}

#[test]
fn words_are_what_split_whitespace_gives() {
    for s in SAMPLES {
        let words: Vec<String> = split_words(&chars(s)).iter().map(|w| text(w)).collect();
        let expected: Vec<&str> = s.split_whitespace().collect();
        assert_eq!(words, expected);
    }
    let words: Vec<String> = split_words(&chars(" bg  storage=a\ttime=5 ")).iter().map(|w| text(w)).collect();
    assert_eq!(words, vec!["bg", "storage=a", "time=5"]);
    assert!(split_words(&chars("")).is_empty());
    assert!(split_words(&chars("  \n ")).is_empty());
}

#[test]
fn pieces_are_what_split_gives() {
    for s in ["", ":", "a", "a:b", "a:", ":a", "a::b", "::", "char:souma:normal:left", "全:角"] {
        let pieces: Vec<String> = split(&chars(s), ':').iter().map(|w| text(w)).collect();
        let expected: Vec<&str> = s.split(':').collect();
        assert_eq!(pieces, expected);
    }
    let lines: Vec<String> = split(&chars("a\nb\n\nc\n"), '\n').iter().map(|w| text(w)).collect();
    assert_eq!(lines, vec!["a", "b", "", "c", ""]);
}

#[test]
fn finding_is_what_str_does() {
    let needles = ["", "a", "**", "ab", "b", "souma", "ソ", "マ**", "xyz", "aa", "aaa"];
    let hays = ["", "a", "ab", "aab", "**a**b", "*a*", "a**", "**", "***", "xsoumax", "**ソウマ**「」", "aaaa", "ba"];
    for hay in hays {
        for needle in needles {
            let expected = hay.find(needle).map(|byte| hay[..byte].chars().count());
            assert_eq!(find(&chars(hay), &chars(needle)), expected);
            assert_eq!(includes(&chars(hay), &chars(needle)), hay.contains(needle));
            assert_eq!(begins_with(&chars(hay), &chars(needle)), hay.starts_with(needle));
        }
    }
    assert_eq!(find(&chars("a**b**"), &chars("**")), Some(1));
    assert_eq!(find(&chars("ab"), &chars("abc")), None);
    assert!(stands_at(&chars("abcabc"), &chars("bc"), 4));
    assert!(!stands_at(&chars("abcabc"), &chars("bc"), 5));
    assert!(!stands_at(&chars("abcabc"), &chars("bc"), 2));
    assert!(stands_at(&chars("abc"), &chars(""), 3));
    assert!(!stands_at(&chars("abc"), &chars(""), 4));
    assert!(!stands_at(&chars("abc"), &chars("a"), usize::MAX));
}

#[test]
fn scanning() {
    let v = chars("  ab  cd ");
    assert_eq!(scan(&v, 0, CharClass::Whitespace), 2);
    assert_eq!(scan(&v, 2, CharClass::Whitespace), 2);
    assert_eq!(scan(&v, 2, CharClass::Visible), 4);
    assert_eq!(scan(&v, 8, CharClass::Whitespace), 9);
    assert_eq!(scan(&v, 9, CharClass::Whitespace), 9);
    assert_eq!(scan(&v, 0, CharClass::Except('c')), 6);
    assert_eq!(scan(&v, 0, CharClass::Except('x')), 9);
    assert_eq!(scan_back(&v, 0, 9, CharClass::Whitespace), 8);
    assert_eq!(scan_back(&v, 0, 8, CharClass::Visible), 6);
    assert_eq!(scan_back(&v, 7, 8, CharClass::Visible), 7);
    assert_eq!(scan_back(&v, 0, 2, CharClass::Whitespace), 0);
    assert_eq!(scan_back(&v, 3, 3, CharClass::Whitespace), 3);
    assert_eq!(text(&slice(&v, 2, 4)), "ab");
    assert_eq!(text(&slice(&v, 4, 4)), "");
    assert_eq!(text(&slice(&v, 0, 9)), "  ab  cd ");
}

#[test]
fn enclosing() {
    assert!(is_enclosed_by(&chars("[a]"), '[', ']'));
    assert!(is_enclosed_by(&chars("[]"), '[', ']'));
    assert!(is_enclosed_by(&chars("``"), '`', '`'));
    assert!(!is_enclosed_by(&chars("`"), '`', '`'));
    assert!(!is_enclosed_by(&chars(""), '[', ']'));
    assert!(!is_enclosed_by(&chars("[a"), '[', ']'));
    assert!(!is_enclosed_by(&chars("a]"), '[', ']'));
    assert!(!is_enclosed_by(&chars("]["), '[', ']'));
    assert_eq!(text(&inner_of(&chars("[a b]"))), "a b");
    assert_eq!(text(&inner_of(&chars("「」"))), "");
}

#[test]
fn numbers_are_read_as_str_reads_them() {
    let samples = [
        "", "0", "5", "+5", "-5", "+", "-", "++5", "+-5", "05", "0000000000000000000005", "500", " 5", "5 ", "5a", "a5",
        "4294967295", "4294967296", "+4294967295", "04294967295", "42949672950", "99999999999999999999999999",
        "1_000", "1.0", "1e3", "0x10", "１２", "٣", "+0", "-0", "4294967294", "1000000000", "3999999999", "5000000000",
    ];
    for s in samples {
        assert_eq!(parse_u32(&chars(s)), s.parse::<u32>().ok());
    }
    assert_eq!(parse_u32(&chars("500")), Some(500));
    assert_eq!(parse_u32(&chars("+4294967295")), Some(u32::MAX));
    assert_eq!(parse_u32(&chars("4294967296")), None);
}

#[test]
fn truth_values_are_read_as_str_reads_them() {
    for s in ["true", "false", "", "True", "FALSE", "1", "0", "yes", " true", "true ", "truee", "tru", "fals"] {
        assert_eq!(parse_bool(&chars(s)), s.parse::<bool>().ok());
    }
    assert_eq!(parse_bool(&chars("true")), Some(true));
    assert_eq!(parse_bool(&chars("false")), Some(false));
}

#[test]
fn numbers_are_written_as_they_are_shown() {
    for n in [0u32, 1, 9, 10, 11, 99, 100, 101, 500, 999, 1000, 65535, 1234567890, u32::MAX - 1, u32::MAX] {
        assert_eq!(text(&format_u32(n)), n.to_string());
        assert_eq!(parse_u32(&format_u32(n)), Some(n));
    }
    for n in [0i32, 1, -1, 9, -9, 10, -10, 100, -100, 12345, -12345, i32::MAX, i32::MIN, i32::MIN + 1] {
        assert_eq!(text(&format_i32(n)), n.to_string());
    }
    assert_eq!(text(&format_i32(-20)), "-20");
}

#[test]
fn order_is_that_of_strings() {
    let samples = ["", "a", "A", "aa", "ab", "b", "ba", "souma", "yuzuki", "ソウマ", "ユズキ", "é", "z", "\u{ffff}", "\u{10000}", "a\u{10000}", "a\u{ffff}"];
    for a in samples {
        for b in samples {
            assert_eq!(comes_first(&chars(a), &chars(b)), a <= b);
        }
    }
    assert!(comes_first(&chars("souma"), &chars("yuzuki")));
    assert!(!comes_first(&chars("yuzuki"), &chars("souma")));
    assert!(comes_first(&chars("a"), &chars("a")));
}

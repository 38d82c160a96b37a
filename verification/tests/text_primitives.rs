use manasight_parser::text;

#[test]
fn whitespace_is_that_of_std() {
    for n in 0..=0x10ffff_u32 {
        if let Some(c) = char::from_u32(n) {
            assert_eq!(text::is_whitespace(c), c.is_whitespace(), "{n:x}");
        }
    }
}

#[test]
fn ascii_punctuation_is_that_of_std() {
    for n in 0..=0x10ffff_u32 {
        if let Some(c) = char::from_u32(n) {
            assert_eq!(text::is_ascii_punctuation(c), c.is_ascii_punctuation(), "{n:x}");
        }
    }
}

fn samples() -> Vec<&'static str> {
    vec![
        "",
        " ",
        "a",
        "  a b  ",
        "\t\u{a0}x\u{3000}",
        "one\ntwo",
        "one\r\ntwo\r\n",
        "one\r",
        "\n",
        "\r\n\r\n",
        "a\n\nb",
        "tail\n",
        "h\u{e9}llo w\u{f6}rld \u{1f600}",
        "x: y; z.",
        "...",
        "aaa",
        "+12",
        "4294967295",
        "4294967296",
    ]
}

#[test]
fn trimming_is_that_of_std() {
    for s in samples() {
        assert_eq!(text::trim(s), s.trim(), "{s:?}");
        assert_eq!(text::trim_start(s), s.trim_start(), "{s:?}");
        assert_eq!(
            text::trim_end_punctuation(s),
            s.trim_end_matches(|c: char| c.is_ascii_punctuation()),
            "{s:?}"
        );
    }
}

#[test]
fn trimming_twice_is_trimming_once() {
    for s in samples() {
        assert_eq!(text::trim(text::trim(s)), text::trim(s), "{s:?}");
    }
}

#[test]
fn lines_are_those_of_std() {
    for s in samples() {
        let expected: Vec<&str> = s.lines().collect();
        assert_eq!(text::lines(s), expected, "{s:?}");
        assert_eq!(text::first_line(s), s.lines().next().unwrap_or(s), "{s:?}");
        assert!(text::lines(s).iter().all(|l| !l.contains('\n')));
    }
}

#[test]
fn words_are_those_of_std() {
    for s in samples() {
        let expected: Vec<&str> = s.split_whitespace().collect();
        assert_eq!(text::split_whitespace(s), expected, "{s:?}");
        let words = text::split_whitespace(s);
        assert!(words.iter().all(|w| !w.is_empty() && !w.contains(char::is_whitespace)));
        for n in 0..=words.len() {
            assert_eq!(text::join_first(&words, n), expected[..n].join(" "));
        }
    }
}

#[test]
fn numbers_are_those_of_std() {
    for s in [
        "", "+", "-", "0", "+0", "-0", "007", "42", "+42", "++4", "4x", " 4", "4294967295",
        "4294967296", "99999999999999999999", "\u{664}",
    ] {
        assert_eq!(text::parse_u32(s), s.parse::<u32>().ok(), "{s:?}");
    }
}

#[test]
fn searching_is_that_of_std() {
    for s in samples() {
        for pat in ["", "a", "b", "ne", "two", "aa", "aaaa", "\u{1f600}", "\r\n"] {
            assert_eq!(text::contains(s, pat), s.contains(pat), "{s:?} {pat:?}");
            assert_eq!(text::strip_prefix(s, pat), s.strip_prefix(pat), "{s:?} {pat:?}");
            if !pat.is_empty() {
                assert_eq!(text::piece_after(s, pat), s.split(pat).nth(1), "{s:?} {pat:?}");
            }
        }
    }
}

#[test]
fn piece_ends_before_the_next_label() {
    assert_eq!(text::piece_after("k:one k:two k:three", "k:"), Some("one "));
    assert_eq!(text::piece_after("aaaa", "aa"), Some(""));
    assert_eq!(text::piece_after("nothing", "k:"), None);
}

#[test]
fn parts_around_a_character() {
    assert_eq!(text::before_char("a,b,c", ','), "a");
    assert_eq!(text::before_char("abc", ','), "abc");
    assert_eq!(text::after_char("a,b,c", ','), Some("b,c"));
    assert_eq!(text::after_char("abc", ','), None);
    assert_eq!(text::after_char("abc,", ','), Some(""));
}

#[test]
fn string_comparison_is_exact() {
    assert!(text::str_eq("", ""));
    assert!(text::str_eq("h\u{e9}", "h\u{e9}"));
    assert!(!text::str_eq("a", "b"));
    assert!(!text::str_eq("a", "ab"));
    assert_eq!(text::chars_of("h\u{e9}"), vec!['h', '\u{e9}']);
}

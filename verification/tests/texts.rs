use blackbird::text::{
    chars_of, find, is_space, lower_all, matches_at, same_chars, same_ignoring_case, split,
    string_of, to_lower, trim,
};

fn cs(s: &str) -> Vec<char> {
    s.chars().collect()
}

#[test]
fn chars_and_strings_round_trip() {
    let v = chars_of("a\u{e9}\u{4e2d}\u{1f600}z");
    assert_eq!(v, vec!['a', '\u{e9}', '\u{4e2d}', '\u{1f600}', 'z']);
    assert_eq!(string_of(&v), "a\u{e9}\u{4e2d}\u{1f600}z");
    assert_eq!(string_of(&[]), "");
    assert_eq!(chars_of(""), Vec::<char>::new());
}

#[test]
fn find_gives_the_first_occurrence_from_the_start_index() {
    let hay = cs("abcabcabc");
    assert_eq!(find(&hay, &cs("bc"), 0), Some(1));
    assert_eq!(find(&hay, &cs("bc"), 1), Some(1));
    assert_eq!(find(&hay, &cs("bc"), 2), Some(4));
    assert_eq!(find(&hay, &cs("bc"), 8), None);
    assert_eq!(find(&hay, &cs("x"), 0), None);
    assert_eq!(find(&hay, &cs("abcabcabcd"), 0), None);
    assert_eq!(find(&hay, &cs("abc"), 100), None);
}

#[test]
fn find_of_the_empty_needle() {
    let hay = cs("ab");
    assert_eq!(find(&hay, &[], 0), Some(0));
    assert_eq!(find(&hay, &[], 2), Some(2));
    assert_eq!(find(&hay, &[], 3), None);
    assert_eq!(find(&[], &[], 0), Some(0));
}

#[test]
fn matches_at_checks_bounds() {
    let hay = cs("abc");
    assert!(matches_at(&hay, &cs("bc"), 1));
    assert!(!matches_at(&hay, &cs("bc"), 2));
    assert!(!matches_at(&hay, &cs("bc"), 0));
    assert!(!matches_at(&hay, &cs("abcd"), 0));
    assert!(matches_at(&hay, &[], 3));
    assert!(!matches_at(&hay, &[], 4));
}

#[test]
fn split_cuts_left_to_right_without_overlap() {
    let parts = split(&cs("a---b"), &cs("--"));
    assert_eq!(parts, vec![cs("a"), cs("-b")]);
    let parts = split(&cs("--a----"), &cs("--"));
    assert_eq!(parts, vec![cs(""), cs("a"), cs(""), cs("")]);
    let parts = split(&cs("none"), &cs("--"));
    assert_eq!(parts, vec![cs("none")]);
    let parts = split(&cs(""), &cs("--"));
    assert_eq!(parts, vec![cs("")]);
}

#[test]
fn split_agrees_with_the_standard_library() {
    for text in ["", "x", "a--b--c", "----", "-", "a-b--", "--\r\n\r\n--", "ab\n\ncd\n"] {
        for sep in ["--", "\n", "\r\n\r\n", "-"] {
            let mine: Vec<String> =
                split(&cs(text), &cs(sep)).iter().map(|p| p.iter().collect()).collect();
            let theirs: Vec<String> = text.split(sep).map(|p| p.to_string()).collect();
            assert_eq!(mine, theirs);
        }
    }
}

#[test]
fn split_on_the_empty_separator_leaves_the_text_whole() {
    assert_eq!(split(&cs("abc"), &[]), vec![cs("abc")]);
}

#[test]
fn lowering_touches_ascii_capitals_only() {
    assert_eq!(to_lower('A'), 'a');
    assert_eq!(to_lower('Z'), 'z');
    assert_eq!(to_lower('a'), 'a');
    assert_eq!(to_lower('@'), '@');
    assert_eq!(to_lower('['), '[');
    assert_eq!(to_lower('\u{c9}'), '\u{c9}');
    assert_eq!(lower_all(&cs("Re: Command (X1) \u{c9}")), cs("re: command (x1) \u{c9}"));
}

#[test]
fn lowering_agrees_with_the_standard_library() {
    for n in 0u32..0x3000 {
        if let Some(c) = char::from_u32(n) {
            assert_eq!(to_lower(c), c.to_ascii_lowercase());
        }
    }
}

#[test]
fn comparison_of_characters() {
    assert!(same_chars(&cs("abc"), &cs("abc")));
    assert!(!same_chars(&cs("abc"), &cs("abd")));
    assert!(!same_chars(&cs("abc"), &cs("ab")));
    assert!(same_chars(&[], &[]));
    assert!(same_ignoring_case(&cs("Command (X1)"), &cs("cOMMAND (x1)")));
    assert!(!same_ignoring_case(&cs("Command (X1)"), &cs("Command (X2)")));
    assert!(!same_ignoring_case(&cs("\u{e9}"), &cs("\u{c9}")));
}

#[test]
fn white_space_agrees_with_the_standard_library() {
    for n in 0u32..0x11_0000 {
        if let Some(c) = char::from_u32(n) {
            assert_eq!(is_space(c), c.is_whitespace());
        }
    }
}

#[test]
fn trim_removes_white_space_at_both_ends_only() {
    assert_eq!(trim(&cs("  echo  A \t\r\n")), cs("echo  A"));
    assert_eq!(trim(&cs("\u{a0}\u{3000}x\u{2003}")), cs("x"));
    assert_eq!(trim(&cs(" \t ")), cs(""));
    assert_eq!(trim(&cs("")), cs(""));
    assert_eq!(trim(&cs("x")), cs("x"));
    assert_eq!(trim(&cs("\u{200b}x")), cs("\u{200b}x"));
}

#[test]
fn trim_agrees_with_the_standard_library() {
    for text in ["", " ", "a", " a", "a ", "\r\na b\t", "\u{85}\u{1680}q\u{2028}\u{2029}\u{202f}\u{205f}"] {
        let mine: String = trim(&cs(text)).iter().collect();
        assert_eq!(mine, text.trim());
    }
}

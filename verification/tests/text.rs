use noctalia::text::{
    chars_of, followed_by, copy_of, find_from, find_in, has_substring, is_whitespace, join, matches_at,
    next_line, range_starts_with, skip_prefix_repeated, str_eq, trim_char_range, trim_range,
};

fn text(v: &[char], lo: usize, hi: usize) -> String {
    v[lo..hi].iter().collect()
}

#[test]
fn chars_of_gives_every_character() {
    assert_eq!(chars_of(""), Vec::<char>::new());
    assert_eq!(chars_of("a\u{e9}\u{1F600}"), vec!['a', '\u{e9}', '\u{1F600}']);
}

#[test]
fn str_eq_compares_characters() {
    assert!(str_eq("", ""));
    assert!(str_eq("shell", "shell"));
    assert!(!str_eq("shell", "shel"));
    assert!(!str_eq("shell", "shelL"));
    assert!(!str_eq("", "x"));
}

#[test]
fn matches_at_checks_bounds() {
    let s = chars_of("abcabc");
    let p = chars_of("bc");
    assert!(matches_at(&s, &p, 1));
    assert!(matches_at(&s, &p, 4));
    assert!(!matches_at(&s, &p, 0));
    assert!(!matches_at(&s, &p, 5));
    assert!(!matches_at(&s, &p, 6));
    assert!(!matches_at(&s, &p, 7));
    assert!(matches_at(&s, &chars_of(""), 6));
    assert!(!matches_at(&s, &chars_of(""), 7));
}

#[test]
fn has_substring_agrees_with_contains() {
    let texts = ["", "a", "ii", "hi  ii there", "xiix", "i i", "archlinux", "qs -c shell"];
    let pats = ["", "i", "ii", "arch", "qs", "linux", "x", "shell "];
    for t in texts {
        for p in pats {
            assert_eq!(has_substring(&chars_of(t), &chars_of(p)), t.contains(p), "{:?} {:?}", t, p);
        }
    }
}

#[test]
fn find_from_and_find_in() {
    let s = chars_of("a,b,,c");
    assert_eq!(find_from(&s, 0, ','), 1);
    assert_eq!(find_from(&s, 1, ','), 1);
    assert_eq!(find_from(&s, 2, ','), 3);
    assert_eq!(find_from(&s, 5, ','), 6);
    assert_eq!(find_from(&s, 6, ','), 6);
    assert_eq!(find_in(&s, 0, 1, ','), 1);
    assert_eq!(find_in(&s, 2, 3, ','), 3);
    assert_eq!(find_in(&s, 2, 6, ','), 3);
    assert_eq!(find_in(&s, 5, 6, ','), 6);
}

#[test]
fn skip_prefix_repeated_agrees_with_trim_start_matches() {
    for (t, p) in [("ID=ID=x", "ID="), ("ID=", "ID="), ("xID=", "ID="), ("aaaa", "aa"), ("aaa", "aa"), ("", "a")] {
        let s = chars_of(t);
        let start = skip_prefix_repeated(&s, 0, s.len(), &chars_of(p));
        assert_eq!(text(&s, start, s.len()), t.trim_start_matches(p), "{:?} {:?}", t, p);
    }
    let s = chars_of("ab");
    assert_eq!(skip_prefix_repeated(&s, 0, 2, &chars_of("")), 0);
    let s = chars_of("aaab");
    assert_eq!(skip_prefix_repeated(&s, 0, 2, &chars_of("a")), 2);
}

#[test]
fn trim_char_range_agrees_with_trim_matches() {
    for t in ["", "\"", "\"\"", "\"a\"", "a\"", "\"a", "\"\"a\"b\"\"", "abc"] {
        let s = chars_of(t);
        let (lo, hi) = trim_char_range(&s, 0, s.len(), '"');
        assert_eq!(text(&s, lo, hi), t.trim_matches('"'), "{:?}", t);
    }
}

#[test]
fn is_whitespace_agrees_with_the_standard_library() {
    let mut code: u32 = 0;
    while code <= 0x10FFFF {
        if let Some(c) = char::from_u32(code) {
            assert_eq!(is_whitespace(c), c.is_whitespace(), "U+{:04X}", code);
        }
        code += 1;
    }
}

#[test]
fn trim_range_agrees_with_trim() {
    for t in ["", " ", "  a  ", "\t a b \r\n", "a", "\u{a0}x\u{3000}", " \u{200b} "] {
        let s = chars_of(t);
        let (lo, hi) = trim_range(&s, 0, s.len());
        assert_eq!(text(&s, lo, hi), t.trim(), "{:?}", t);
    }
}

fn lines_of(t: &str) -> Vec<String> {
    let s = chars_of(t);
    let mut out = Vec::new();
    let mut pos = 0;
    while pos < s.len() {
        let (end, next) = next_line(&s, pos);
        out.push(text(&s, pos, end));
        pos = next;
    }
    out
}

#[test]
fn next_line_agrees_with_lines() {
    for t in [
        "", "\n", "a", "a\n", "a\nb", "a\r\nb\r\n", "a\rb", "a\r", "a\r\r\n", "\n\n", "\r\n\r\n",
        "foo\nbar\n\r\nbaz\r", "x\n\ny\n",
    ] {
        let expected: Vec<String> = t.lines().map(|l| l.to_string()).collect();
        assert_eq!(lines_of(t), expected, "{:?}", t);
    }
}

#[test]
fn range_starts_with_stays_inside_the_range() {
    let s = chars_of("target x");
    let key = chars_of("target ");
    assert!(range_starts_with(&s, 0, 8, &key));
    assert!(range_starts_with(&s, 0, 7, &key));
    assert!(!range_starts_with(&s, 0, 6, &key));
    assert!(!range_starts_with(&s, 1, 8, &key));
    assert!(range_starts_with(&s, 3, 3, &chars_of("")));
}

#[test]
fn join_and_concat() {
    assert_eq!(join(&vec![], ", "), "");
    assert_eq!(join(&vec!["a".to_string()], ", "), "a");
    assert_eq!(join(&vec!["a".to_string(), "".to_string(), "c".to_string()], ", "), "a, , c");
    assert_eq!(join(&vec!["".to_string(), "".to_string()], "-"), "-");
    assert_eq!(followed_by("ab", "cd"), "abcd");
    assert_eq!(followed_by("", ""), "");
}

#[test]
fn copy_of_counts_characters() {
    assert_eq!(copy_of("h\u{e9}llo", 1, 3), "\u{e9}l");
    assert_eq!(copy_of("abc", 3, 3), "");
    assert_eq!(copy_of("abc", 0, 3), "abc");
}

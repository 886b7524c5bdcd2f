use pkg_manager::text::{
    chars_of, contains_chars, find_char, join_strings, line_bounds, split_bounds, string_of,
    trim_chars,
};

fn pieces(s: &str, sep: char) -> Vec<String> {
    let chars = chars_of(s);
    split_bounds(&chars, sep).iter().map(|&(a, b)| string_of(&chars[a..b])).collect()
}

fn lines_of(s: &str) -> Vec<String> {
    let chars = chars_of(s);
    line_bounds(&chars).iter().map(|&(a, b)| string_of(&chars[a..b])).collect()
}

#[test]
fn chars_round_trip() {
    let cs = chars_of("héllo wörld");
    assert_eq!(cs.len(), 11);
    assert_eq!(string_of(&cs), "héllo wörld");
}

#[test]
fn trim_removes_unicode_whitespace_at_both_ends() {
    let cs = chars_of("\u{3000} \t v1.2 \u{a0}\n");
    assert_eq!(string_of(trim_chars(&cs)), "v1.2");
    let blank = chars_of(" \r\n ");
    assert_eq!(string_of(trim_chars(&blank)), "");
    let inner = chars_of("a b");
    assert_eq!(string_of(trim_chars(&inner)), "a b");
}

#[test]
fn split_keeps_empty_pieces() {
    assert_eq!(pieces("a::b:", ':'), vec!["a", "", "b", ""]);
    assert_eq!(pieces("", ':'), vec![""]);
    assert_eq!(pieces("abc", ':'), vec!["abc"]);
}

#[test]
fn lines_follow_str_lines() {
    assert_eq!(lines_of("a\r\nb\n\nc"), vec!["a", "b", "", "c"]);
    assert_eq!(lines_of("a\nb\n"), vec!["a", "b"]);
    assert_eq!(lines_of(""), Vec::<String>::new());
    assert_eq!(lines_of("\n"), vec![""]);
    assert_eq!(lines_of("x\r"), vec!["x\r"]);
    for s in ["a\r\nb\n\nc", "a\nb\n", "", "\n", "x\r", "\r\n\r\n", "tail"] {
        let expected: Vec<String> = s.lines().map(|l| l.to_string()).collect();
        assert_eq!(lines_of(s), expected);
    }
}

#[test]
fn split_matches_str_split() {
    for s in ["a b  c", " lead", "trail ", "", "none"] {
        let expected: Vec<String> = s.split(' ').map(|p| p.to_string()).collect();
        assert_eq!(pieces(s, ' '), expected);
    }
}

#[test]
fn find_and_contains() {
    let cs = chars_of("openssl@3 3.2.0_1");
    assert_eq!(find_char(&cs, ' '), Some(9));
    assert_eq!(find_char(&cs, '#'), None);
    assert!(contains_chars(&cs, &chars_of("3.2")));
    assert!(!contains_chars(&cs, &chars_of("3.3")));
    assert!(contains_chars(&cs, &chars_of("")));
    assert!(!contains_chars(&chars_of("ab"), &chars_of("abc")));
}

#[test]
fn join_puts_separator_between() {
    let parts = vec!["/usr/bin".to_string(), "/bin".to_string(), "".to_string()];
    assert_eq!(join_strings(&parts, ':'), "/usr/bin:/bin:");
    assert_eq!(join_strings(&Vec::new(), ':'), "");
    assert_eq!(join_strings(&vec!["one".to_string()], ':'), "one");
}

#[test]
fn split_then_join_gives_text_back() {
    for s in ["a:b::c", "", ":", "x"] {
        let joined = join_strings(&pieces(s, ':'), ':');
        assert_eq!(joined, s);
    }
}

#[test]
fn trimming_twice_changes_nothing() {
    for s in ["  a b  ", "\u{2003}x\u{2003}", "", "   ", "plain"] {
        let once = string_of(trim_chars(&chars_of(s)));
        let twice = string_of(trim_chars(&chars_of(&once)));
        assert_eq!(once, twice);
        assert_eq!(once, s.trim());
    }
}

use workmux::text::{chars_contain, chars_lex_le, chars_start_with, trim_chars, trimmed_lines_of};

fn chars(s: &str) -> Vec<char> {
    s.chars().collect()
}

fn lines(s: &str) -> Vec<String> {
    trimmed_lines_of(&chars(s))
        .into_iter()
        .map(|line| line.into_iter().collect())
        .collect()
}

#[test]
fn lines_split_like_str_lines_and_are_trimmed() {
    assert_eq!(lines(""), Vec::<String>::new());
    assert_eq!(lines("\n"), vec![""]);
    assert_eq!(lines("a\n\n"), vec!["a", ""]);
    assert_eq!(lines("  a \r\n\tb\u{3000}"), vec!["a", "b"]);
    assert_eq!(lines("x\ry"), vec!["x\ry"]);
}

#[test]
fn trimming_removes_unicode_whitespace_only_at_the_ends() {
    let trimmed: String = trim_chars(&chars("\u{a0} a b \u{2009}")).into_iter().collect();
    assert_eq!(trimmed, "a b");
    let trimmed: String = trim_chars(&chars(" \t ")).into_iter().collect();
    assert_eq!(trimmed, "");
}

#[test]
fn prefixes_substrings_and_text_order() {
    assert!(chars_start_with(&chars("gpt-6"), &chars("gpt-")));
    assert!(!chars_start_with(&chars("gp"), &chars("gpt-")));
    assert!(chars_contain(&chars("a · b"), &chars(" · ")));
    assert!(chars_contain(&chars("abc"), &chars("")));
    assert!(!chars_contain(&chars("a· b"), &chars(" · ")));
    assert!(chars_lex_le(&chars("pane-a"), &chars("pane-b")));
    assert!(chars_lex_le(&chars("pane"), &chars("pane-a")));
    assert!(!chars_lex_le(&chars("pane-b"), &chars("pane-a")));
    assert!(chars_lex_le(&chars("Z"), &chars("a")));
}

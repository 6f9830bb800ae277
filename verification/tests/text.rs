use kubesess::text::{
    is_whitespace, joined, path_join, replaced, same_text, split_lines, starts_with, trimmed,
};

#[test]
fn trim_removes_surrounding_whitespace() {
    assert_eq!(trimmed("  prod \n"), "prod");
    assert_eq!(trimmed("\u{3000}dev\u{a0}"), "dev");
    assert_eq!(trimmed(" \t\r\n"), "");
    assert_eq!(trimmed("a b"), "a b");
    assert_eq!(trimmed(""), "");
}

#[test]
fn whitespace_matches_std() {
    for c in ['\t', '\n', ' ', '\u{85}', '\u{2028}', '\u{3000}', 'a', '-', '\u{200b}', '_'] {
        assert_eq!(is_whitespace(c), c.is_whitespace());
    }
}

#[test]
fn lines_split_like_std() {
    for s in ["a\r\nb\n", "a\r", "", "\n\n", "x\ny", "one\r\r\n", "é\nü"] {
        let expected: Vec<String> = s.lines().map(|l| l.to_string()).collect();
        assert_eq!(split_lines(s), expected);
    }
}

#[test]
fn join_with_separator() {
    let items = vec!["a".to_string(), "b".to_string(), "c".to_string()];
    assert_eq!(joined(&items, " "), "a b c");
    assert_eq!(joined(&Vec::new(), " "), "");
}

#[test]
fn replace_and_compare() {
    assert_eq!(replaced("arn:aws:eks", ':', '_'), "arn_aws_eks");
    assert!(same_text("abc", "abc"));
    assert!(!same_text("abc", "abd"));
    assert!(starts_with("production", "prod"));
    assert!(starts_with("prod", ""));
    assert!(!starts_with("pro", "prod"));
}

#[test]
fn path_join_like_std() {
    assert_eq!(path_join("/tmp", "x"), "/tmp/x");
    assert_eq!(path_join("/tmp/", "x"), "/tmp/x");
    assert_eq!(path_join("", "x"), "x");
}

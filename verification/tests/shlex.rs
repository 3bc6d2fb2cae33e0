use fixit::shlex::shlex;

#[test]
fn simple() {
    let cmd = "git push origin master";
    let expected = vec![
        "git".to_string(),
        "push".to_string(),
        "origin".to_string(),
        "master".to_string(),
    ];
    assert_eq!(expected, shlex(cmd));
}

#[test]
fn with_quotes() {
    let cmd = "git commit -m \"initial commit\" --amend";
    let expected = vec![
        "git".to_string(),
        "commit".to_string(),
        "-m".to_string(),
        "\"initial commit\"".to_string(),
        "--amend".to_string(),
    ];
    assert_eq!(expected, shlex(cmd));
}

#[test]
fn escaped_chars_inside_quotes() {
    let cmd = "git commit -m \"test \\\"escaping\\\"\"";
    let expected = vec![
        "git".to_string(),
        "commit".to_string(),
        "-m".to_string(),
        "\"test \\\"escaping\\\"\"".to_string(),
    ];
    assert_eq!(expected, shlex(cmd));
}

#[test]
fn shlex_empty_and_blank() {
    assert_eq!(Vec::<String>::new(), shlex(""));
    assert_eq!(Vec::<String>::new(), shlex(" \t\n "));
}

#[test]
fn shlex_single_quotes_and_escaped_space() {
    assert_eq!(
        vec!["echo".to_string(), "'a b'".to_string(), "c\\ d".to_string()],
        shlex("echo 'a b' c\\ d")
    );
}

#[test]
fn shlex_unicode_whitespace_separates() {
    // U+00A0 and U+3000 are white space, as `char::is_whitespace` says
    assert_eq!(
        vec!["a".to_string(), "b".to_string(), "c".to_string()],
        shlex("a\u{a0}b\u{3000}c")
    );
}

#[test]
fn shlex_open_quote_and_trailing_backslash() {
    assert_eq!(vec!["a".to_string(), "\"b c".to_string()], shlex("a \"b c"));
    assert_eq!(vec!["a".to_string(), "\\".to_string()], shlex("a \\"));
}

#[test]
fn shlex_words_keep_non_separating_chars() {
    let cmd = "  git   commit -m 'x  y'  ";
    let words = shlex(cmd);
    assert!(words.iter().all(|w| !w.is_empty()));
    assert_eq!("gitcommit-m'x  y'", words.concat());
}

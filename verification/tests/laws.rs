use fixit::rules::{all_rules, find_fixes, needs_executables, rank_fixes};
use fixit::shlex::shlex;

fn words(v: &[&str]) -> Vec<String> {
    v.iter().map(|s| s.to_string()).collect()
}

#[test]
fn split_join_split_is_stable() {
    for cmd in [
        "git commit -m \"initial commit\" --amend",
        "  a\tb   'c d'  e\\ f ",
        "echo \"unterminated quote",
        "trailing \\",
        "",
    ] {
        let w = shlex(cmd);
        assert_eq!(w, shlex(&w.join(" ")));
    }
}

#[test]
fn ranking_ignores_proposal_order_and_repeats() {
    let a = rank_fixes("gti push", words(&["git push", "gti pull", "tig push", "git push"]));
    let b = rank_fixes("gti push", words(&["tig push", "git push", "gti pull"]));
    assert_eq!(a, b);
    let mut sorted = a.clone();
    sorted.dedup();
    assert_eq!(a, sorted);
}

#[test]
fn executables_unread_without_report() {
    let rules = all_rules();
    let output = vec!["rm: src: is a directory".to_string()];
    assert!(!needs_executables("rm src", &output, &rules));
    let a = find_fixes("rm src", output.clone(), &rules, &vec![]);
    let b = find_fixes("rm src", output, &rules, &words(&["rm", "rmdir"]));
    assert_eq!(a, b);
    assert_eq!(words(&["rm -r src"]), a);
}

#[test]
fn executables_needed_with_report() {
    let rules = all_rules();
    let output = vec!["Bash: gti: command not found".to_string()];
    // the outputs are lower-cased before the rules read them
    assert!(needs_executables("gti status", &output, &rules));
    assert!(!needs_executables("git status", &output, &rules));
    assert!(!needs_executables("gti status", &output, &[]));
}

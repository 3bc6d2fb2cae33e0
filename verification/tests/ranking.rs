use fixit::cmd::fix::{has_command, outcome, Cmd, Outcome};
use fixit::get_text::Config;
use fixit::rules::{all_rules, apply_rule, find_fixes, rank_by_distance, rank_fixes, Rule};
use fixit::shlex::shlex;

fn words(v: &[&str]) -> Vec<String> {
    v.iter().map(|s| s.to_string()).collect()
}

#[test]
fn duplicate() {
    // The rules are a closed enum here, so no test-only rule can be handed to `find_fixes`; the
    // proposals two such rules would make go straight to `rank_fixes`, the ranking step of
    // `find_fixes`. Two rules proposing the same fix give it once.
    assert_eq!(vec!["git"], rank_fixes("", words(&["git", "git"])));
}

#[test]
fn sorting() {
    // As in `duplicate`, the proposals of the two rules go straight to `rank_fixes`.
    assert_eq!(
        vec!["git".to_string(), "qwerty".to_string()],
        rank_fixes("gti", words(&["qwerty", "git"]))
    );
}

#[test]
fn rank_fixes_ties_in_text_order() {
    // both at distance 1 from "ab"
    assert_eq!(words(&["abc", "abd"]), rank_fixes("ab", words(&["abd", "abc", "abd"])));
    assert_eq!(Vec::<String>::new(), rank_fixes("x", vec![]));
}

#[test]
fn rank_by_damerau_levenshtein() {
    // "bca" is 2 edits from "ab" (a transposition counts as one), "xyz" is 3, "ab" itself 0
    assert_eq!(words(&["ab", "bca", "xyz"]), rank_fixes("ab", words(&["xyz", "bca", "ab"])));
    // a transposition is one edit: "git" before "gxx"
    assert_eq!(words(&["git", "gxx"]), rank_fixes("gti", words(&["gxx", "git"])));
}

#[test]
fn all_rules_test() {
    let rules = all_rules();
    assert_eq!(19, rules.len());
    assert_eq!(Rule::BrewUpdateUpgrade, rules[0]);
    assert_eq!(Rule::UvUnexpectedArgument, rules[18]);
}

#[test]
fn apply_rule_test() {
    let fixes = apply_rule(Rule::Sudo, shlex("ls /root"), "ls: /root: permission denied", &vec![]);
    assert_eq!(vec![shlex("sudo ls /root")], fixes);
    let fixes = apply_rule(Rule::CommandNotFound, shlex("gti status"), "zsh: command not found: gti", &words(&["git"]));
    assert_eq!(vec![shlex("git status")], fixes);
    let fixes = apply_rule(Rule::GitCommitNoChanges, shlex("git commit"), "no changes added to commit", &vec![]);
    assert_eq!(vec![shlex("git commit -a")], fixes);
}

#[test]
fn find_fixes_end_to_end() {
    let rules = all_rules();
    let output = vec!["zsh: command not found: gti".to_string(), "".to_string()];
    let fixes = find_fixes("gti status", output, &rules, &words(&["tig", "git", "got"]));
    assert_eq!(words(&["git status", "got status", "tig status"]), fixes);
}

#[test]
fn find_fixes_lowercases_output() {
    let rules = vec![Rule::RmDir, Rule::Sudo];
    let output = vec!["rm: src: Is a directory".to_string(), "Permission denied".to_string()];
    let fixes = find_fixes("rm src", output, &rules, &vec![]);
    assert_eq!(words(&["rm -r src", "sudo rm src"]), fixes);
}

#[test]
fn fix_outcome_test() {
    let config = || Config { quick: false, depth: 10, powershell: false };
    assert!(!has_command(&Cmd { cmd: String::new(), page_size: 5, get_text: config() }));
    assert!(has_command(&Cmd { cmd: "ls".to_string(), page_size: 5, get_text: config() }));
    let rules = all_rules();
    assert!(matches!(outcome("ls", None, &rules, &vec![]), Outcome::NothingToFix));
    assert!(matches!(
        outcome("ls", Some(vec!["unrelated".to_string()]), &rules, &vec![]),
        Outcome::NoFixes
    ));
    match outcome("rm src", Some(vec!["rm: src: is a directory".to_string()]), &rules, &vec![]) {
        Outcome::Choose(f) => assert_eq!(words(&["rm -r src"]), f),
        _ => panic!("expected fixes"),
    }
}

#[test]
fn rank_by_distance_test() {
    assert_eq!(
        words(&["c", "a", "b"]),
        rank_by_distance(words(&["b", "a", "c", "a"]), vec![1, 1, 0, 1])
    );
    assert_eq!(words(&["z", "y"]), rank_by_distance(words(&["y", "z"]), vec![7, 2]));
    assert_eq!(Vec::<String>::new(), rank_by_distance(vec![], vec![]));
}

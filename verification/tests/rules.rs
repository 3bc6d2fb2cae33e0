use fixit::rules::brew_update_upgrade::brew_update_upgrade;
use fixit::rules::cargo_clippy_args::{cargo_clippy_args, move_flag_command};
use fixit::rules::cargo_install_cwd::cargo_install_cwd;
use fixit::rules::cargo_wrong_command::cargo_wrong_command;
use fixit::rules::command_not_found::{command_not_found, detect_command};
use fixit::rules::cp_cwd::cp_cwd;
use fixit::rules::cp_dir::cp_dir;
use fixit::rules::git_add_all_lowercase::git_add_all_lowercase;
use fixit::rules::git_branch_exists::{drop_branch_flag_command, git_branch_exists};
use fixit::rules::git_branch_not_found::git_branch_not_found;
use fixit::rules::git_commit_no_changes::git_commit_no_changes;
use fixit::rules::git_commit_untracked_files::git_commit_untracked_files;
use fixit::rules::git_no_upstream::{git_no_upstream, set_upstream_command};
use fixit::rules::git_retag::{git_retag, retag_command};
use fixit::rules::git_wrong_command::git_wrong_command;
use fixit::rules::mkdir_missing_parent::mkdir_missing_parent;
use fixit::rules::rm_dir::rm_dir;
use fixit::rules::sudo::sudo;
use fixit::rules::taskfile_no_task::{listed_task_names, taskfile_no_task};
use fixit::rules::utils::{find_incorrect_arg, replace_named_token};
use fixit::rules::uv_unexpected_argument::uv_unexpected_argument;
use fixit::shlex::shlex;

fn words(v: &[&str]) -> Vec<String> {
    v.iter().map(|s| s.to_string()).collect()
}

#[test]
fn brew_update() {
    let cmd = shlex("brew update git");
    let error = "error: this command updates brew itself, and does not take formula names.";
    let expected = shlex("brew upgrade git");
    assert_eq!(Some(expected), brew_update_upgrade(cmd, error));
}

#[test]
fn brew_update_upgrade_other_error() {
    let cmd = shlex("cp ./target/debug/fixit");
    let error = "usage: cp [-R [-H | -L | -P]] [-fi | -n] [-aclpSsvXx] source_file target_file
    cp [-R [-H | -L | -P]] [-fi | -n] [-aclpSsvXx] source_file ... target_directory";
    assert_eq!(None, brew_update_upgrade(cmd, error));
}

#[test]
fn cargo_clippy_args_test() {
    let cmd = shlex("cargo clippy -D warnings");
    let error = "error: unexpected argument '-D'".to_lowercase();
    let expected = shlex("cargo clippy -- -D warnings");
    assert_eq!(Some(expected), cargo_clippy_args(cmd, &error));
}

#[test]
fn cargo_clippy_args_existing_separator_and_last_flag() {
    let cmd = shlex("cargo clippy -W clippy::pedantic -- -A x");
    let error = "error: unexpected argument '-w' found";
    assert_eq!(
        Some(shlex("cargo clippy -- -A x -W clippy::pedantic")),
        cargo_clippy_args(cmd, error)
    );
    // a flag with no value after it gives no fix
    let cmd = shlex("cargo clippy -D");
    assert_eq!(None, cargo_clippy_args(cmd, "error: unexpected argument '-d'"));
    // not a clippy command
    let cmd = shlex("cargo build -D warnings");
    assert_eq!(None, cargo_clippy_args(cmd, "error: unexpected argument '-d'"));
}

#[test]
fn move_flag_command_test() {
    assert_eq!(
        Some(words(&["cargo", "clippy", "--", "-D", "warnings"])),
        move_flag_command(words(&["cargo", "clippy", "-D", "warnings"]), Some("-D".to_string()))
    );
    assert_eq!(None, move_flag_command(words(&["cargo", "clippy"]), None));
    assert_eq!(
        None,
        move_flag_command(words(&["cargo", "clippy", "-W", "x"]), Some("-D".to_string()))
    );
}

#[test]
fn cargo_install_cwd_test() {
    let cmd = shlex("cargo install");
    let error = "error: Using `cargo install` to install the binaries from the package in current working directory is no longer supported, use `cargo install --path .` instead. Use `cargo build` if you want to simply build the package.";
    let expected = shlex("cargo install --path .");
    assert_eq!(Some(expected), cargo_install_cwd(cmd, &error.to_lowercase()));
}

#[test]
fn cargo_install_cwd_unrelated() {
    assert_eq!(None, cargo_install_cwd(shlex("cargo install"), "error: something else"));
}

#[test]
fn cargo_wrong_command_test() {
    let cmd = shlex("cargo instal");
    let error = "error: no such command: `instal`

        Did you mean `install`?

        View all installed commands with `cargo --list`
        Find a package to install `instal` with `cargo search cargo-instal`";
    let expected = shlex("cargo install");
    assert_eq!(
        expected,
        cargo_wrong_command(cmd, &error.to_string().to_lowercase()).unwrap()
    );
}

#[test]
fn cargo_wrong_command_not_cargo() {
    let error = "error: no such command: `instal`\n\ndid you mean `install`?";
    assert_eq!(None, cargo_wrong_command(shlex("rustup instal"), error));
}

#[test]
fn cp_cwd_success() {
    let cmd = shlex("cp target/release/fixit");
    let error = "usage: cp [-R [-H | -L | -P]] [-fi | -n] [-aclpSsvXx] source_file target_file
       cp [-R [-H | -L | -P]] [-fi | -n] [-aclpSsvXx] source_file ... target_directory";
    let expected = shlex("cp target/release/fixit .");
    assert_eq!(Some(expected), cp_cwd(cmd, error));
}

#[test]
fn non_cp_cmd() {
    let cmd = shlex("git push");
    let error = "";
    assert_eq!(None, cp_cwd(cmd, error));
}

#[test]
fn cp_cwd_unrelated_error() {
    let cmd = shlex("cp a b");
    let error = "cp: a: no such file or directory";
    assert_eq!(None, cp_cwd(cmd, error));
}

#[test]
fn cp_cwd_missing_operand() {
    let cmd = shlex("cp a");
    let error = "cp: missing destination file operand after 'a'";
    assert_eq!(Some(shlex("cp a .")), cp_cwd(cmd, error));
}

#[test]
fn cp_dir_test() {
    let cmd = shlex("cp src/ target/");
    let error = "cp: src/ is a directory (not copied).";
    let expected = shlex("cp -R src/ target/");
    assert_eq!(expected, cp_dir(cmd, error).unwrap());
}

#[test]
fn git_add_all_lowercase_test() {
    let cmd = shlex("git add -a");
    let error = "error: unknown switch `a'";
    let expected = shlex("git add -A");
    assert_eq!(expected, git_add_all_lowercase(cmd, error).unwrap());
}

#[test]
fn git_add_all_lowercase_needs_add() {
    assert_eq!(None, git_add_all_lowercase(shlex("git commit -a"), "error: unknown switch `a'"));
}

#[test]
fn branch_exists() {
    let cmd = shlex("git checkout -b develop");
    let error = "fatal: a branch named 'develop' already exists";
    let expected = shlex("git checkout develop");
    assert_eq!(Some(expected), git_branch_exists(cmd, error))
}

#[test]
fn drop_branch_flag_command_test() {
    assert_eq!(
        Some(words(&["git", "checkout", "x"])),
        drop_branch_flag_command(words(&["git", "checkout", "-b", "x"]), true)
    );
    assert_eq!(None, drop_branch_flag_command(words(&["git", "checkout", "-b", "x"]), false));
    assert_eq!(None, drop_branch_flag_command(words(&["git", "checkout", "x"]), true));
}

#[test]
fn git_branch_not_found_test() {
    let cmd = shlex("git checkout feature");
    let error = "error: pathspec 'feature' did not match any file(s) known to git";
    let branches = Some(words(&["main", "dev"]));
    assert_eq!(
        vec![
            shlex("git checkout main"),
            shlex("git checkout dev"),
            shlex("git checkout -b feature"),
        ],
        git_branch_not_found(cmd.clone(), error, branches)
    );
    assert_eq!(Vec::<Vec<String>>::new(), git_branch_not_found(cmd.clone(), error, None));
    assert_eq!(
        Vec::<Vec<String>>::new(),
        git_branch_not_found(cmd, "fatal: something else", Some(words(&["main"])))
    );
}

#[test]
fn git_commit_no_changes_git_commit_no_changes_test() {
    let cmd = shlex("git commit -m 'initial commit'");
    let error = "no changes added to commit (use \"git add\" and/or \"git commit -a\")";
    let expected = shlex("git commit -a -m 'initial commit'");
    assert_eq!(Some(expected), git_commit_no_changes(&cmd, error));
}

#[test]
fn git_commit_untracked_files_git_commit_no_changes_test() {
    let cmd = shlex("git commit -m 'initial commit'");
    let error = "no changes added to commit (use \"git add\" and/or \"git commit -a\")";
    let expected = shlex("git add -A && git commit -m 'initial commit'");
    assert_eq!(Some(expected), git_commit_untracked_files(cmd, error));
}

#[test]
fn git_commit_untracked_files_test() {
    let cmd = shlex("git commit -m 'initial commit'");
    let error = "nothing added to commit but untracked files present";
    let expected = shlex("git add -A && git commit -m 'initial commit'");
    assert_eq!(Some(expected), git_commit_untracked_files(cmd, error));
}

#[test]
fn test_no_upstream() {
    let cmd = shlex("git push");
    let error = "fatal: The current branch master has no upstream branch.
        To push the current branch and set the remote as upstream, use

            git push --set-upstream origin master

        To have this happen automatically for branches without a tracking
        upstream, see 'push.autoSetupRemote' in 'git help config'.";
    assert_eq!(
        Some(shlex("git push --set-upstream origin master")),
        git_no_upstream(cmd, &error.to_lowercase())
    );
}

#[test]
fn set_upstream_command_test() {
    assert_eq!(
        Some(words(&["git", "push", "--set-upstream", "up", "main", "-f"])),
        set_upstream_command(
            words(&["git", "push", "-f"]),
            Some("up".to_string()),
            Some("main".to_string())
        )
    );
    assert_eq!(None, set_upstream_command(words(&["git", "push"]), None, Some("m".to_string())));
}

#[test]
fn git_tag_exists() {
    let cmd = shlex("git tag v0.10.0");
    let error = "fatal: tag 'v0.10.0' already exists";
    let expected = shlex("git tag -d v0.10.0 && git tag v0.10.0");
    assert_eq!(Some(expected), git_retag(cmd, error));
}

#[test]
fn retag_command_test() {
    assert_eq!(
        Some(words(&["git", "tag", "-d", "x", "&&", "git", "tag", "x"])),
        retag_command(words(&["git", "tag", "x"]), Some("x".to_string()))
    );
    assert_eq!(None, retag_command(words(&["git", "tag", "x"]), None));
}

#[test]
fn git_pusk() {
    let cmd = shlex("git pusk");
    let error = "git: 'pusk' is not a git command. See 'git --help'.

The most similar command is
        push";

    assert_eq!(Some(shlex("git push")), git_wrong_command(cmd, error));
}

#[test]
fn mkdir() {
    let cmd = shlex("mkdir hello/world");
    let error = "no such file or directory";
    assert_eq!(Some(shlex("mkdir -p hello/world")), mkdir_missing_parent(cmd, error));
}

#[test]
fn rm_dir_test() {
    let cmd = shlex("rm src");
    let error = "rm: src: is a directory";
    let expected = shlex("rm -r src");
    assert_eq!(expected, rm_dir(cmd, error).unwrap());
}

#[test]
fn rm_dir_other_error() {
    let cmd = shlex("cp ./target/debug/fixit");
    let error = "usage: cp [-R [-H | -L | -P]] [-fi | -n] [-aclpSsvXx] source_file target_file
    cp [-R [-H | -L | -P]] [-fi | -n] [-aclpSsvXx] source_file ... target_directory";
    assert_eq!(None, rm_dir(cmd, error));
}

#[test]
fn other_rm_error() {
    let cmd = shlex("rm test");
    let error = "rm: test: no such file or directory";
    assert_eq!(None, rm_dir(cmd, error));
}

#[test]
fn permission_denied() {
    let cmd = shlex("mv /etc/pam.d /etc/pam.d.bak");
    let error = "mv: rename /etc/pam.d to /etc/pam.d.bak: permission denied";
    assert_eq!(Some(shlex("sudo mv /etc/pam.d /etc/pam.d.bak")), sudo(cmd, error));
}

#[test]
fn operation_not_permitted() {
    let cmd = shlex("cp ./target/debug/fixit /bin");
    let error = "cp: /bin/fixit: operation not permitted";
    assert_eq!(Some(shlex("sudo cp ./target/debug/fixit /bin")), sudo(cmd, error));
}

#[test]
fn sudo_other_error() {
    let cmd = shlex("cp ./target/debug/fixit");
    let error = "usage: cp [-R [-H | -L | -P]] [-fi | -n] [-aclpSsvXx] source_file target_file
    cp [-R [-H | -L | -P]] [-fi | -n] [-aclpSsvXx] source_file ... target_directory";
    assert_eq!(None, sudo(cmd, error));
}

#[test]
fn sudo_only_on_missing_permission() {
    // a command that already starts with sudo gets nothing unless permission was denied
    assert_eq!(None, sudo(shlex("sudo ls"), ""));
    assert_eq!(Some(shlex("sudo sudo ls")), sudo(shlex("sudo ls"), "ls: permission denied"));
}

#[test]
fn sudo_empty_command() {
    assert_eq!(None, sudo(vec![], "permission denied"));
    assert_eq!(None, sudo(shlex("   "), "operation not permitted"));
}

#[test]
fn task_does_not_exist() {
    let cmd = shlex("task lin");
    let err = r#"task: Available tasks for this project:
* lint:     Run linters
* build:    Build project
task: Task "lin" does not exist"#;
    let expected = vec![shlex("task lint"), shlex("task build")];
    assert_eq!(expected, taskfile_no_task(cmd, &err.to_lowercase()));
}

#[test]
fn listed_task_names_test() {
    assert_eq!(
        words(&["lint", "build"]),
        listed_task_names("tasks:\r\n* lint: x\r\nno task here\n* build:  y\n")
    );
    assert_eq!(Vec::<String>::new(), listed_task_names(""));
}

#[test]
fn fix_argument() {
    let cmd = shlex("uv run --hlp");
    let err = r#"error: unexpected argument '--hlp' found

  tip: a similar argument exists: '--help'

Usage: uv run --help

For more information, try '--help'."#;
    let expected = shlex("uv run --help");
    assert_eq!(Some(expected), uv_unexpected_argument(cmd, err));
}

#[test]
fn uv_unexpected_argument_unrelated_error() {
    let cmd = shlex("uv rn");
    let err = r#"error: unrecognized subcommand 'rn'

Usage: uv [OPTIONS] <COMMAND>

For more information, try '--help'."#;
    assert_eq!(None, uv_unexpected_argument(cmd, err));
}

#[test]
fn unrelated_command() {
    let cmd = shlex("cargo tst");
    let err = r#"error: no such command: `tst`

        Did you mean `test`?"#;
    assert_eq!(None, uv_unexpected_argument(cmd, err));
}

#[test]
fn replace_named_token_test() {
    assert_eq!(
        Some(words(&["a", "y", "b", "x"])),
        replace_named_token(words(&["a", "x", "b", "x"]), Some("x".to_string()), Some("y".to_string()))
    );
    assert_eq!(
        None,
        replace_named_token(words(&["a"]), Some("x".to_string()), Some("y".to_string()))
    );
    assert_eq!(None, replace_named_token(words(&["a"]), Some("a".to_string()), None));
    assert_eq!(None, replace_named_token(words(&["a"]), None, Some("y".to_string())));
}

#[test]
fn find_incorrect_arg_test() {
    let cmd = shlex("git checkout foo");
    assert_eq!(
        Some(2),
        find_incorrect_arg(r"pathspec '([^']+)'", &cmd, "error: pathspec 'foo' did not match")
    );
    assert_eq!(None, find_incorrect_arg(r"pathspec '([^']+)'", &cmd, "error: pathspec 'bar'"));
    // a pattern that does not compile finds nothing
    assert_eq!(None, find_incorrect_arg(r"pathspec '(", &cmd, "error: pathspec 'foo'"));
}

#[test]
fn detect_command_test() {
    let cmd = shlex("LOG=info gti status");
    for error in [
        "bash: gti: command not found",
        "zsh: command not found: gti",
        "fish: unknown command: gti",
    ] {
        assert_eq!(Some(1), detect_command(&cmd, error));
    }
    assert_eq!(None, detect_command(&cmd, "bash: git: command not found"));
}

#[test]
fn test_rule() {
    let executables = words(&["git", "tig", "lazygit"]);
    let expected = vec![
        shlex("LOG=info git status"),
        shlex("LOG=info tig status"),
        shlex("LOG=info lazygit status"),
    ];
    let error = "bash: gti: command not found";
    assert_eq!(expected, command_not_found(shlex("LOG=info gti status"), error, executables));
}

#[test]
fn test_rule_no_match() {
    let executables = words(&["git", "tig", "lazygit"]);
    let error = "error: Using `cargo install` to install the binaries from the package in current working directory is no longer supported, use `cargo install --path .` instead. Use `cargo build` if you want to simply build the package.";
    assert_eq!(
        Vec::<Vec<String>>::new(),
        command_not_found(shlex("LOG=info gti status"), error, executables)
    );
}

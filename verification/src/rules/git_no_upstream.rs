//! `git push` without an upstream branch: set it.
use vstd::prelude::*;

use super::utils::{index_of_token, insert_token};
use crate::matching::{regex_group, regex_group_of};
use crate::text::{first_index, lemma_first_index};

verus! {

/// Finds the remote and the branch that git proposes for `--set-upstream`.
pub const SET_UPSTREAM: &'static str = r"--set-upstream\s([A-Za-z0-9-_./]+)\s([A-Za-z0-9-_./]+)";

/// The command with `--set-upstream <remote> <branch>` right after its first `push` token.
pub open spec fn set_upstream(
    cmd: Seq<Seq<char>>,
    remote: Option<Seq<char>>,
    branch: Option<Seq<char>>,
) -> Option<Seq<Seq<char>>> {
    match (remote, branch) {
        (Some(r), Some(b)) => match first_index(cmd, "push"@) {
            Some(i) => Some(cmd.insert(i + 1, "--set-upstream"@).insert(i + 2, r).insert(i + 3, b)),
            None => None,
        },
        _ => None,
    }
}

/// The fix: the remote and branch that git proposes are set as upstream when pushing.
pub open spec fn git_no_upstream_fix(cmd: Seq<Seq<char>>, error: Seq<char>) -> Option<
    Seq<Seq<char>>,
> {
    set_upstream(cmd, regex_group_of(SET_UPSTREAM@, error, 1), regex_group_of(SET_UPSTREAM@, error, 2))
}

/// Adds `--set-upstream <remote> <branch>` after `push`, where both were found.
pub fn set_upstream_command(cmd: Vec<String>, remote: Option<String>, branch: Option<String>) -> (res:
    Option<Vec<String>>)
    ensures
        res.deep_view() == set_upstream(cmd.deep_view(), remote.deep_view(), branch.deep_view()),
{
    match (remote, branch) {
        (Some(r), Some(b)) => match index_of_token(&cmd, "push") {
            Some(idx) => {
                let mut cmd = cmd;
                insert_token(&mut cmd, idx + 1, String::from_str("--set-upstream"));
                insert_token(&mut cmd, idx + 2, r);
                insert_token(&mut cmd, idx + 3, b);
                Some(cmd)
            },
            None => None,
        },
        _ => None,
    }
}

/// Sets the upstream branch when pushing. Both groups come from the same, leftmost match, which is
/// the first item `regex::Regex::captures_iter` yields.
pub fn git_no_upstream(cmd: Vec<String>, error: &str) -> (res: Option<Vec<String>>)
    ensures
        res.deep_view() == git_no_upstream_fix(cmd.deep_view(), error@),
{
    let remote = regex_group(SET_UPSTREAM, error, 1);
    let branch = regex_group(SET_UPSTREAM, error, 2);
    set_upstream_command(cmd, remote, branch)
}

/// `--set-upstream <remote> <branch>` goes right after the first `push` token exactly where git
/// proposed both the remote and the branch and the command has a `push` token; nothing else
/// changes.
pub proof fn lemma_git_no_upstream_law(cmd: Seq<Seq<char>>, error: Seq<char>)
    ensures
        git_no_upstream_fix(cmd, error) is Some <==> regex_group_of(SET_UPSTREAM@, error, 1) is Some
            && regex_group_of(SET_UPSTREAM@, error, 2) is Some && cmd.contains("push"@),
        git_no_upstream_fix(cmd, error) matches Some(r) ==> exists|i: int|
            0 <= i < cmd.len() && cmd[i] == "push"@ && (forall|j: int| 0 <= j < i ==> cmd[j] != "push"@)
                && r == cmd.take(i + 1) + seq![
                "--set-upstream"@,
                regex_group_of(SET_UPSTREAM@, error, 1)->0,
                regex_group_of(SET_UPSTREAM@, error, 2)->0,
            ] + cmd.skip(i + 1),
{
    lemma_first_index(cmd, "push"@);
    if let Some(r) = git_no_upstream_fix(cmd, error) {
        let i = first_index(cmd, "push"@)->0;
        assert(r =~= cmd.take(i + 1) + seq![
            "--set-upstream"@,
            regex_group_of(SET_UPSTREAM@, error, 1)->0,
            regex_group_of(SET_UPSTREAM@, error, 2)->0,
        ] + cmd.skip(i + 1));
    }
}

} // verus!

//! A misspelled command name: try the executables found on `$PATH`.
use vstd::prelude::*;

use super::utils::{index_of_string, opt_int, substitute_all, substitute_token_all};
use crate::matching::{regex_group, regex_group_of};
use crate::text::{first_index, lemma_first_index};

verus! {

/// Finds the unknown command in bash's report.
pub const BASH_NOT_FOUND: &'static str = r"bash: ([^\s]+): command not found";

/// Finds the unknown command in zsh's report.
pub const ZSH_NOT_FOUND: &'static str = r"zsh: command not found: ([^\s]+)";

/// Finds the unknown command in fish's report.
pub const FISH_NOT_FOUND: &'static str = r"fish: unknown command: ([^\s]+)";

/// The first of the names that the shell reports (bash, zsh, fish) hold.
pub open spec fn first_reported(
    bash: Option<Seq<char>>,
    zsh: Option<Seq<char>>,
    fish: Option<Seq<char>>,
) -> Option<Seq<char>> {
    if bash is Some {
        bash
    } else if zsh is Some {
        zsh
    } else {
        fish
    }
}

/// The unknown command, from the first shell report (bash, zsh, fish) that names one.
pub open spec fn unknown_command(error: Seq<char>) -> Option<Seq<char>> {
    first_reported(
        regex_group_of(BASH_NOT_FOUND@, error, 1),
        regex_group_of(ZSH_NOT_FOUND@, error, 1),
        regex_group_of(FISH_NOT_FOUND@, error, 1),
    )
}

/// The position in `cmd` of the command that the shell did not find.
pub open spec fn detected_command(cmd: Seq<Seq<char>>, error: Seq<char>) -> Option<int> {
    match unknown_command(error) {
        Some(w) => first_index(cmd, w),
        None => None,
    }
}

/// The fixes: the unknown command replaced, in turn, by each of `executables`.
pub open spec fn command_not_found_fixes(
    cmd: Seq<Seq<char>>,
    error: Seq<char>,
    executables: Seq<Seq<char>>,
) -> Seq<Seq<Seq<char>>> {
    match detected_command(cmd, error) {
        Some(i) => substitute_all(cmd, i, executables),
        None => Seq::empty(),
    }
}

/// The position in `cmd` of the first of the reported names, where it is a token.
pub fn locate_reported(
    cmd: &Vec<String>,
    bash: Option<String>,
    zsh: Option<String>,
    fish: Option<String>,
) -> (res: Option<usize>)
    ensures
        opt_int(res) == match first_reported(bash.deep_view(), zsh.deep_view(), fish.deep_view()) {
            Some(w) => first_index(cmd.deep_view(), w),
            None => None,
        },
        res matches Some(i) ==> i < cmd.len(),
{
    let wrong_cmd = match bash {
        Some(w) => Some(w),
        None => match zsh {
            Some(w) => Some(w),
            None => fish,
        },
    };
    match wrong_cmd {
        Some(w) => index_of_string(cmd, &w),
        None => None,
    }
}

/// Finds the position in `cmd` of the command that bash, zsh or fish reported as not found.
pub fn detect_command(cmd: &Vec<String>, error: &str) -> (res: Option<usize>)
    ensures
        opt_int(res) == detected_command(cmd.deep_view(), error@),
        res matches Some(i) ==> i < cmd.len(),
{
    let bash = regex_group(BASH_NOT_FOUND, error, 1);
    let zsh = regex_group(ZSH_NOT_FOUND, error, 1);
    let fish = regex_group(FISH_NOT_FOUND, error, 1);
    locate_reported(cmd, bash, zsh, fish)
}

/// Searches for a misspelled command among `executables`, the names of the files found in the
/// directories of `$PATH`: one fix per name.
pub fn command_not_found(cmd: Vec<String>, error: &str, executables: Vec<String>) -> (res: Vec<
    Vec<String>,
>)
    ensures
        res.deep_view() == command_not_found_fixes(cmd.deep_view(), error@, executables.deep_view()),
{
    match detect_command(&cmd, error) {
        Some(idx) => substitute_token_all(&cmd, idx, executables),
        None => {
            let empty: Vec<Vec<String>> = Vec::new();
            assert(empty.deep_view() =~= Seq::<Seq<Seq<char>>>::empty());
            empty
        },
    }
}

/// Only where a shell reports a command as not found, the reports read in the order bash, zsh,
/// fish, and the reported name is a token of the command, fixes are proposed: one per executable,
/// in order, with that token (its first occurrence) replaced by the executable.
pub proof fn lemma_command_not_found_law(
    cmd: Seq<Seq<char>>,
    error: Seq<char>,
    executables: Seq<Seq<char>>,
)
    ensures
        regex_group_of(BASH_NOT_FOUND@, error, 1) is None && regex_group_of(ZSH_NOT_FOUND@, error, 1)
            is None && regex_group_of(FISH_NOT_FOUND@, error, 1) is None ==> command_not_found_fixes(
            cmd,
            error,
            executables,
        ).len() == 0,
        ({
            let reported = if regex_group_of(BASH_NOT_FOUND@, error, 1) is Some {
                regex_group_of(BASH_NOT_FOUND@, error, 1)
            } else if regex_group_of(ZSH_NOT_FOUND@, error, 1) is Some {
                regex_group_of(ZSH_NOT_FOUND@, error, 1)
            } else {
                regex_group_of(FISH_NOT_FOUND@, error, 1)
            };
            let fixes = command_not_found_fixes(cmd, error, executables);
            &&& reported is Some && !cmd.contains(reported->0) ==> fixes.len() == 0
            &&& reported is Some && cmd.contains(reported->0) ==> exists|i: int|
                0 <= i < cmd.len() && cmd[i] == reported->0 && (forall|j: int|
                    0 <= j < i ==> cmd[j] != reported->0) && fixes.len() == executables.len() && forall|k: int|
                    0 <= k < executables.len() ==> #[trigger] fixes[k] == cmd.update(i, executables[k])
        }),
{
    if let Some(w) = unknown_command(error) {
        lemma_first_index(cmd, w);
    }
}

} // verus!

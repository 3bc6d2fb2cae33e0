//! `cargo install` without arguments needs `--path .`.
use vstd::prelude::*;

use super::utils::push_token;
use crate::text::{has_substring, str_contains};

verus! {

/// The fix: on cargo's complaint about installing from the current directory, `--path .` is
/// appended.
pub open spec fn cargo_install_cwd_fix(cmd: Seq<Seq<char>>, error: Seq<char>) -> Option<
    Seq<Seq<char>>,
> {
    if !has_substring(error, "using `cargo install` to install the binaries"@) {
        None
    } else {
        Some(cmd.push("--path"@).push("."@))
    }
}

/// Fixes `cargo install` without arguments (it requires `--path`).
pub fn cargo_install_cwd(cmd: Vec<String>, error: &str) -> (res: Option<Vec<String>>)
    ensures
        res.deep_view() == cargo_install_cwd_fix(cmd.deep_view(), error@),
{
    if !str_contains(error, "using `cargo install` to install the binaries") {
        return None;
    }
    let mut cmd = cmd;
    push_token(&mut cmd, String::from_str("--path"));
    push_token(&mut cmd, String::from_str("."));
    Some(cmd)
}

/// `--path .` is appended exactly when cargo reports that `cargo install` needs a path.
pub proof fn lemma_cargo_install_cwd_law(cmd: Seq<Seq<char>>, error: Seq<char>)
    ensures
        cargo_install_cwd_fix(cmd, error) is Some <==> has_substring(
            error,
            "using `cargo install` to install the binaries"@,
        ),
        cargo_install_cwd_fix(cmd, error) matches Some(r) ==> r == cmd + seq!["--path"@, "."@],
{
    assert(cmd.push("--path"@).push("."@) =~= cmd + seq!["--path"@, "."@]);
}

} // verus!

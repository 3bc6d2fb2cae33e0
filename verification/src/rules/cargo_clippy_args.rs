//! `cargo clippy` lint flags must come after `--`.
use vstd::prelude::*;

use super::utils::{has_token, index_of_string, push_token, remove_token};
use crate::matching::{regex_group, regex_group_of};
use crate::text::{first_index, lemma_first_index, to_uppercase, uppercase_of};

verus! {

/// Finds the lint flag that cargo rejected.
pub const CLIPPY_FLAG: &'static str = r#"unexpected argument '(-[wadf]{1})'"#;

/// The flag, where found, as it is written in the command: upper-cased.
pub open spec fn clippy_flag(error: Seq<char>) -> Option<Seq<char>> {
    match regex_group_of(CLIPPY_FLAG@, error, 1) {
        Some(f) => Some(uppercase_of(f)),
        None => None,
    }
}

/// The flag, where found in the command, is followed there by its value.
pub open spec fn flag_has_value(cmd: Seq<Seq<char>>, flag: Option<Seq<char>>) -> bool {
    match flag {
        Some(f) => match first_index(cmd, f) {
            Some(p) => p + 1 < cmd.len(),
            None => true,
        },
        None => true,
    }
}

/// The command with the first occurrence of `flag` and the token after it moved to the end,
/// behind `--` (added unless the command already has one).
pub open spec fn move_flag(cmd: Seq<Seq<char>>, flag: Option<Seq<char>>) -> Option<Seq<Seq<char>>> {
    match flag {
        None => None,
        Some(f) => match first_index(cmd, f) {
            None => None,
            Some(p) => {
                let value = cmd[p + 1];
                let rest = cmd.remove(p).remove(p);
                let sep = if rest.contains("--"@) {
                    rest
                } else {
                    rest.push("--"@)
                };
                Some(sep.push(f).push(value))
            },
        },
    }
}

/// The fix: in a `cargo clippy` command, a lint flag (`-W`, `-A`, `-D` or `-F`) that cargo
/// rejected is moved, with its value, behind `--`. A flag that is the last token has no value to
/// move, and gives no fix.
pub open spec fn cargo_clippy_args_fix(cmd: Seq<Seq<char>>, error: Seq<char>) -> Option<
    Seq<Seq<char>>,
> {
    if !cmd.contains("clippy"@) || !flag_has_value(cmd, clippy_flag(error)) {
        None
    } else {
        move_flag(cmd, clippy_flag(error))
    }
}

/// Moves `flag` and its value behind `--`.
pub fn move_flag_command(cmd: Vec<String>, flag: Option<String>) -> (res: Option<Vec<String>>)
    requires
        flag_has_value(cmd.deep_view(), flag.deep_view()),
    ensures
        res.deep_view() == move_flag(cmd.deep_view(), flag.deep_view()),
{
    let f = match flag {
        Some(f) => f,
        None => return None,
    };
    let pos = match index_of_string(&cmd, &f) {
        Some(pos) => pos,
        None => return None,
    };
    let mut cmd = cmd;
    let ghost before = cmd.deep_view();
    remove_token(&mut cmd, pos);
    let value = remove_token(&mut cmd, pos);
    assert(value@ == before[pos + 1]);
    if !has_token(&cmd, "--") {
        push_token(&mut cmd, String::from_str("--"));
    }
    push_token(&mut cmd, f);
    push_token(&mut cmd, value);
    Some(cmd)
}

/// Separates `cargo clippy` lint flags from cargo's own arguments with `--`.
pub fn cargo_clippy_args(cmd: Vec<String>, error: &str) -> (res: Option<Vec<String>>)
    ensures
        res.deep_view() == cargo_clippy_args_fix(cmd.deep_view(), error@),
{
    if !has_token(&cmd, "clippy") {
        return None;
    }
    let flag = match regex_group(CLIPPY_FLAG, error, 1) {
        Some(f) => Some(to_uppercase(f.as_str())),
        None => None,
    };
    assert(flag.deep_view() == clippy_flag(error@));
    let has_value = match &flag {
        Some(f) => match index_of_string(&cmd, f) {
            Some(p) => p + 1 < cmd.len(),
            None => true,
        },
        None => true,
    };
    if !has_value {
        return None;
    }
    move_flag_command(cmd, flag)
}

/// Only in a `cargo clippy` command, and only where cargo names a rejected lint flag, the first
/// token equal to that flag (upper-cased) and the value after it are moved to the end, behind a
/// `--` that is added unless the rest of the command has one; everything else keeps its order.
pub proof fn lemma_cargo_clippy_args_law(cmd: Seq<Seq<char>>, error: Seq<char>)
    ensures
        !cmd.contains("clippy"@) ==> cargo_clippy_args_fix(cmd, error) is None,
        regex_group_of(CLIPPY_FLAG@, error, 1) is None ==> cargo_clippy_args_fix(cmd, error) is None,
        cargo_clippy_args_fix(cmd, error) matches Some(r) ==> exists|p: int|
            #![trigger cmd[p]]
            {
                let f = uppercase_of(regex_group_of(CLIPPY_FLAG@, error, 1)->0);
                let rest = cmd.take(p) + cmd.skip(p + 2);
                &&& 0 <= p && p + 1 < cmd.len()
                &&& cmd[p] == f
                &&& forall|j: int| 0 <= j < p ==> cmd[j] != f
                &&& r == (if rest.contains("--"@) {
                    rest
                } else {
                    rest.push("--"@)
                }) + seq![f, cmd[p + 1]]
            },
{
    if let Some(r) = cargo_clippy_args_fix(cmd, error) {
        let f = uppercase_of(regex_group_of(CLIPPY_FLAG@, error, 1)->0);
        lemma_first_index(cmd, f);
        let p = first_index(cmd, f)->0;
        let rest = cmd.take(p) + cmd.skip(p + 2);
        assert(cmd.remove(p).remove(p) =~= rest);
        if rest.contains("--"@) {
            assert(r =~= rest + seq![f, cmd[p + 1]]);
        } else {
            assert(r =~= rest.push("--"@) + seq![f, cmd[p + 1]]);
        }
    }
}

} // verus!

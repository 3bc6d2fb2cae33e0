//! The scrollback of Zellij, dumped to a file.
use vstd::prelude::*;

verus! {

/// The arguments of `zellij` that dump the whole screen to the file at `path`.
pub fn args(path: &str) -> (res: Vec<String>)
    ensures
        res.deep_view() == seq!["action"@, "dump-screen"@, "--full"@, path@],
{
    let res = vec![
        String::from_str("action"),
        String::from_str("dump-screen"),
        String::from_str("--full"),
        String::from_str(path),
    ];
    assert(res.deep_view() =~= seq!["action"@, "dump-screen"@, "--full"@, path@]);
    res
}

} // verus!

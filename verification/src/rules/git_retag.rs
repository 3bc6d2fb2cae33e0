//! Tagging with a tag that already exists: delete it first.
use vstd::prelude::*;

use super::utils::prepend_tokens;
use crate::matching::{regex_group, regex_group_of};

verus! {

/// Finds the tag that already exists.
pub const TAG_EXISTS: &'static str = r#"tag\s'([^']+)'\salready\sexists"#;

/// The command preceded by `git tag -d <tag> &&`, where the tag was found.
pub open spec fn retag(cmd: Seq<Seq<char>>, tag: Option<Seq<char>>) -> Option<Seq<Seq<char>>> {
    match tag {
        Some(t) => Some(seq!["git"@, "tag"@, "-d"@, t, "&&"@] + cmd),
        None => None,
    }
}

/// The fix: when git reports that a tag already exists, the tag is deleted before the command.
pub open spec fn git_retag_fix(cmd: Seq<Seq<char>>, error: Seq<char>) -> Option<Seq<Seq<char>>> {
    retag(cmd, regex_group_of(TAG_EXISTS@, error, 1))
}

/// Precedes the command by the deletion of `tag`, where one was found.
pub fn retag_command(cmd: Vec<String>, tag: Option<String>) -> (res: Option<Vec<String>>)
    ensures
        res.deep_view() == retag(cmd.deep_view(), tag.deep_view()),
{
    match tag {
        Some(t) => {
            let ghost tv = t@;
            let prefix = vec![
                String::from_str("git"),
                String::from_str("tag"),
                String::from_str("-d"),
                t,
                String::from_str("&&"),
            ];
            assert(prefix.deep_view() =~= seq!["git"@, "tag"@, "-d"@, tv, "&&"@]);
            Some(prepend_tokens(prefix, cmd))
        },
        None => None,
    }
}

/// Suggests deleting a git tag and tagging again with it, if the tag already exists.
pub fn git_retag(cmd: Vec<String>, error: &str) -> (res: Option<Vec<String>>)
    ensures
        res.deep_view() == git_retag_fix(cmd.deep_view(), error@),
{
    let tag = regex_group(TAG_EXISTS, error, 1);
    retag_command(cmd, tag)
}

/// The tag is deleted before the command exactly when git reports, in a form the pattern
/// recognizes, that a tag already exists; the deleted tag is the one named there and the command
/// is kept whole.
pub proof fn lemma_git_retag_law(cmd: Seq<Seq<char>>, error: Seq<char>)
    ensures
        git_retag_fix(cmd, error) is Some <==> regex_group_of(TAG_EXISTS@, error, 1) is Some,
        git_retag_fix(cmd, error) matches Some(r) ==> r.len() == cmd.len() + 5 && r.take(5) == seq![
            "git"@,
            "tag"@,
            "-d"@,
            regex_group_of(TAG_EXISTS@, error, 1)->0,
            "&&"@,
        ] && r.skip(5) == cmd,
{
    if let Some(r) = git_retag_fix(cmd, error) {
        assert(r.take(5) =~= seq![
            "git"@,
            "tag"@,
            "-d"@,
            regex_group_of(TAG_EXISTS@, error, 1)->0,
            "&&"@,
        ]);
        assert(r.skip(5) =~= cmd);
    }
}

} // verus!

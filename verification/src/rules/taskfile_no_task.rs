//! Running a task that the Taskfile does not define: suggest the listed tasks.
use vstd::prelude::*;

use super::utils::{find_incorrect_arg, incorrect_arg, lemma_incorrect_arg, substitute_all, substitute_token_all};
use crate::matching::{regex_group, regex_group_of};
use crate::text::{chars_of, lemma_chars_deep_view, lines, lines_chars, string_of};

verus! {

/// Finds the task that does not exist.
pub const MISSING_TASK: &'static str = r#"task\s"([^"]+)"\sdoes\snot\sexist"#;

/// Finds the name of a task in a line of the task list.
pub const LISTED_TASK: &'static str = r"\*\s([^\s:]+)";

/// The names of the tasks listed in `lines`, in order.
pub open spec fn listed_tasks(lines: Seq<Seq<char>>) -> Seq<Seq<char>>
    decreases lines.len(),
{
    if lines.len() == 0 {
        Seq::<Seq<char>>::empty()
    } else {
        let before = listed_tasks(lines.drop_last());
        match regex_group_of(LISTED_TASK@, lines.last(), 1) {
            Some(name) => before.push(name),
            None => before,
        }
    }
}

/// The fixes: the missing task replaced, in turn, by each task the error lists.
pub open spec fn taskfile_no_task_fixes(cmd: Seq<Seq<char>>, error: Seq<char>) -> Seq<
    Seq<Seq<char>>,
> {
    match incorrect_arg(MISSING_TASK@, cmd, error) {
        Some(i) => substitute_all(cmd, i, listed_tasks(lines(error))),
        None => Seq::empty(),
    }
}

/// The names of the tasks listed in the lines of `error`.
pub fn listed_task_names(error: &str) -> (res: Vec<String>)
    ensures
        res.deep_view() == listed_tasks(lines(error@)),
{
    let chars = chars_of(error);
    let ls = lines_chars(&chars);
    let ghost lv = ls.deep_view();
    let mut res: Vec<String> = Vec::new();
    let mut k: usize = 0;
    assert(lv.take(0) =~= Seq::<Seq<char>>::empty());
    while k < ls.len()
        invariant
            k <= ls.len(),
            lv == ls.deep_view(),
            lv == lines(error@),
            res.deep_view() == listed_tasks(lv.take(k as int)),
        decreases ls.len() - k,
    {
        proof {
            lemma_chars_deep_view(ls[k as int]);
        }
        let line = string_of(&ls[k]);
        assert(lv.take(k + 1).drop_last() =~= lv.take(k as int));
        assert(lv.take(k + 1).last() == line@);
        match regex_group(LISTED_TASK, line.as_str(), 1) {
            Some(name) => {
                let ghost before = res.deep_view();
                res.push(name);
                assert(res.deep_view() =~= before.push(name@));
            },
            None => {},
        }
        k = k + 1;
    }
    assert(lv.take(ls.len() as int) =~= lv);
    res
}

/// Suggests task names when trying to run a task that the `Taskfile` does not define.
pub fn taskfile_no_task(cmd: Vec<String>, error: &str) -> (res: Vec<Vec<String>>)
    ensures
        res.deep_view() == taskfile_no_task_fixes(cmd.deep_view(), error@),
{
    let old_task_idx = match find_incorrect_arg(MISSING_TASK, &cmd, error) {
        Some(v) => v,
        None => {
            let empty: Vec<Vec<String>> = Vec::new();
            assert(empty.deep_view() =~= Seq::<Seq<Seq<char>>>::empty());
            return empty;
        },
    };
    let names = listed_task_names(error);
    substitute_token_all(&cmd, old_task_idx, names)
}

/// Only where task reports a missing task that is a token of the command, one fix is proposed per
/// task that the error lists, in order: the command with that token (its first occurrence)
/// replaced by the listed task.
pub proof fn lemma_taskfile_no_task_law(cmd: Seq<Seq<char>>, error: Seq<char>)
    ensures
        !(regex_group_of(MISSING_TASK@, error, 1) is Some && cmd.contains(
            regex_group_of(MISSING_TASK@, error, 1)->0,
        )) ==> taskfile_no_task_fixes(cmd, error).len() == 0,
        taskfile_no_task_fixes(cmd, error).len() > 0 ==> exists|i: int|
            0 <= i < cmd.len() && cmd[i] == regex_group_of(MISSING_TASK@, error, 1)->0 && (forall|j: int|
                0 <= j < i ==> cmd[j] != regex_group_of(MISSING_TASK@, error, 1)->0)
                && taskfile_no_task_fixes(cmd, error).len() == listed_tasks(lines(error)).len()
                && forall|k: int|
                0 <= k < listed_tasks(lines(error)).len() ==> #[trigger] taskfile_no_task_fixes(
                    cmd,
                    error,
                )[k] == cmd.update(i, listed_tasks(lines(error))[k]),
{
    lemma_incorrect_arg(MISSING_TASK@, cmd, error);
}

} // verus!

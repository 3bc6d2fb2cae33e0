//! The rules that propose fixes for a failed command, and the search over them.
use vstd::prelude::*;

pub mod brew_update_upgrade;
pub mod cargo_clippy_args;
pub mod cargo_install_cwd;
pub mod cargo_wrong_command;
pub mod command_not_found;
pub mod cp_cwd;
pub mod cp_dir;
pub mod git_add_all_lowercase;
pub mod git_branch_exists;
pub mod git_branch_not_found;
pub mod git_commit_no_changes;
pub mod git_commit_untracked_files;
pub mod git_no_upstream;
pub mod git_retag;
pub mod git_wrong_command;
pub mod mkdir_missing_parent;
pub mod rm_dir;
pub mod sudo;
pub mod taskfile_no_task;
pub mod utils;
pub mod uv_unexpected_argument;

use brew_update_upgrade::{brew_update_upgrade, brew_update_upgrade_fix};
use cargo_clippy_args::{cargo_clippy_args, cargo_clippy_args_fix};
use cargo_install_cwd::{cargo_install_cwd, cargo_install_cwd_fix};
use cargo_wrong_command::{cargo_wrong_command, cargo_wrong_command_fix};
use command_not_found::{command_not_found, command_not_found_fixes, detect_command, detected_command};
use cp_cwd::{cp_cwd, cp_cwd_fix};
use cp_dir::{cp_dir, cp_dir_fix};
use git_add_all_lowercase::{git_add_all_lowercase, git_add_all_lowercase_fix};
use git_branch_exists::{git_branch_exists, git_branch_exists_fix};
use git_commit_no_changes::{git_commit_no_changes, git_commit_no_changes_fix};
use git_commit_untracked_files::{git_commit_untracked_files, git_commit_untracked_files_fix};
use git_no_upstream::{git_no_upstream, git_no_upstream_fix};
use git_retag::{git_retag, git_retag_fix};
use git_wrong_command::{git_wrong_command, git_wrong_command_fix};
use mkdir_missing_parent::{mkdir_missing_parent, mkdir_missing_parent_fix};
use rm_dir::{rm_dir, rm_dir_fix};
use sudo::{sudo, sudo_fix};
use taskfile_no_task::{taskfile_no_task, taskfile_no_task_fixes};
use utils::tokens_to_vec;
use uv_unexpected_argument::{uv_unexpected_argument, uv_unexpected_argument_fix};

use crate::shlex::{shlex, shlex_words};
use crate::text::{
    chars_of,
    join,
    join_strings,
    lemma_text_lt_irreflexive,
    lemma_text_lt_total,
    lemma_text_lt_transitive,
    lowercase_of,
    string_of,
    text_less,
    text_lt,
    to_lowercase,
};

verus! {

/// A rule: it looks at a tokenized command and one (lower-cased) error output of it, and proposes
/// corrected commands. Proposals are possibilities, not certainties.
#[derive(Clone, Copy, Debug, PartialEq, Eq, Structural)]
pub enum Rule {
    BrewUpdateUpgrade,
    CargoClippyArgs,
    CargoInstallCwd,
    CargoWrongCommand,
    CommandNotFound,
    CpCwd,
    CpDir,
    GitAddAllLowercase,
    GitBranchExists,
    GitCommitNoChanges,
    GitCommitUntrackedFiles,
    GitNoUpstream,
    GitRetag,
    GitWrongCommand,
    MkdirMissingParent,
    RmDir,
    Sudo,
    TaskfileNoTask,
    UvUnexpectedArgument,
}

/// The proposal, if any, as a list of proposals.
pub open spec fn opt_fixes(o: Option<Seq<Seq<char>>>) -> Seq<Seq<Seq<char>>> {
    match o {
        Some(f) => seq![f],
        None => Seq::empty(),
    }
}

/// What `rule` proposes for the tokenized command `cmd` and the error output `error`, where
/// `executables` are the names of the files on `$PATH`.
pub open spec fn rule_fixes(
    rule: Rule,
    cmd: Seq<Seq<char>>,
    error: Seq<char>,
    executables: Seq<Seq<char>>,
) -> Seq<Seq<Seq<char>>> {
    match rule {
        Rule::BrewUpdateUpgrade => opt_fixes(brew_update_upgrade_fix(cmd, error)),
        Rule::CargoClippyArgs => opt_fixes(cargo_clippy_args_fix(cmd, error)),
        Rule::CargoInstallCwd => opt_fixes(cargo_install_cwd_fix(cmd, error)),
        Rule::CargoWrongCommand => opt_fixes(cargo_wrong_command_fix(cmd, error)),
        Rule::CommandNotFound => command_not_found_fixes(cmd, error, executables),
        Rule::CpCwd => opt_fixes(cp_cwd_fix(cmd, error)),
        Rule::CpDir => opt_fixes(cp_dir_fix(cmd, error)),
        Rule::GitAddAllLowercase => opt_fixes(git_add_all_lowercase_fix(cmd, error)),
        Rule::GitBranchExists => opt_fixes(git_branch_exists_fix(cmd, error)),
        Rule::GitCommitNoChanges => opt_fixes(git_commit_no_changes_fix(cmd, error)),
        Rule::GitCommitUntrackedFiles => opt_fixes(git_commit_untracked_files_fix(cmd, error)),
        Rule::GitNoUpstream => opt_fixes(git_no_upstream_fix(cmd, error)),
        Rule::GitRetag => opt_fixes(git_retag_fix(cmd, error)),
        Rule::GitWrongCommand => opt_fixes(git_wrong_command_fix(cmd, error)),
        Rule::MkdirMissingParent => opt_fixes(mkdir_missing_parent_fix(cmd, error)),
        Rule::RmDir => opt_fixes(rm_dir_fix(cmd, error)),
        Rule::Sudo => opt_fixes(sudo_fix(cmd, error)),
        Rule::TaskfileNoTask => taskfile_no_task_fixes(cmd, error),
        Rule::UvUnexpectedArgument => opt_fixes(uv_unexpected_argument_fix(cmd, error)),
    }
}

/// The rules in use, in alphanumeric order of their names.
pub open spec fn rule_list() -> Seq<Rule> {
    seq![
        Rule::BrewUpdateUpgrade,
        Rule::CargoClippyArgs,
        Rule::CargoInstallCwd,
        Rule::CargoWrongCommand,
        Rule::CommandNotFound,
        Rule::CpCwd,
        Rule::CpDir,
        Rule::GitAddAllLowercase,
        Rule::GitBranchExists,
        Rule::GitCommitNoChanges,
        Rule::GitCommitUntrackedFiles,
        Rule::GitNoUpstream,
        Rule::GitRetag,
        Rule::GitWrongCommand,
        Rule::MkdirMissingParent,
        Rule::RmDir,
        Rule::Sudo,
        Rule::TaskfileNoTask,
        Rule::UvUnexpectedArgument,
    ]
}

/// What `rule` proposes for each of the error outputs `errors`, in order.
pub open spec fn line_fixes(
    rule: Rule,
    cmd: Seq<Seq<char>>,
    errors: Seq<Seq<char>>,
    executables: Seq<Seq<char>>,
) -> Seq<Seq<Seq<char>>>
    decreases errors.len(),
{
    if errors.len() == 0 {
        Seq::empty()
    } else {
        line_fixes(rule, cmd, errors.drop_last(), executables) + rule_fixes(
            rule,
            cmd,
            errors.last(),
            executables,
        )
    }
}

/// What all `rules` propose for all `errors`, rule by rule.
pub open spec fn all_fixes(
    rules: Seq<Rule>,
    cmd: Seq<Seq<char>>,
    errors: Seq<Seq<char>>,
    executables: Seq<Seq<char>>,
) -> Seq<Seq<Seq<char>>>
    decreases rules.len(),
{
    if rules.len() == 0 {
        Seq::empty()
    } else {
        all_fixes(rules.drop_last(), cmd, errors, executables) + line_fixes(
            rules.last(),
            cmd,
            errors,
            executables,
        )
    }
}

/// The outputs, lower-cased.
pub open spec fn lowered(output: Seq<Seq<char>>) -> Seq<Seq<char>> {
    output.map_values(|l: Seq<char>| lowercase_of(l))
}

/// The proposals as command lines: the tokens joined with single spaces.
pub open spec fn fix_texts(fixes: Seq<Seq<Seq<char>>>) -> Seq<Seq<char>> {
    fixes.map_values(|f: Seq<Seq<char>>| join(f, " "@))
}

/// All proposals of `rules` for the command line `cmd` and its outputs, as command lines.
pub open spec fn candidate_texts(
    cmd: Seq<char>,
    output: Seq<Seq<char>>,
    rules: Seq<Rule>,
    executables: Seq<Seq<char>>,
) -> Seq<Seq<char>> {
    fix_texts(all_fixes(rules, shlex_words(cmd), lowered(output), executables))
}

/// The Damerau-Levenshtein distance between two texts over their characters, as
/// `strsim::damerau_levenshtein` computes it.
pub uninterp spec fn damerau_levenshtein_of(a: Seq<char>, b: Seq<char>) -> usize;

/// How far the proposal `fix` is from the command line `cmd`.
pub open spec fn fix_distance(cmd: Seq<char>, fix: Seq<char>) -> nat {
    damerau_levenshtein_of(cmd, fix) as nat
}

/// How far each proposal is from the command line `cmd`.
pub open spec fn distance_key(cmd: Seq<char>) -> spec_fn(Seq<char>) -> nat {
    |fix: Seq<char>| fix_distance(cmd, fix)
}

/// Equal proposals were given equal distances, one per proposal.
pub open spec fn consistent_distances(fixes: Seq<Seq<char>>, distances: Seq<usize>) -> bool {
    &&& fixes.len() == distances.len()
    &&& forall|i: int, j: int|
        #![trigger fixes[i], fixes[j]]
        0 <= i < fixes.len() && 0 <= j < fixes.len() && fixes[i] == fixes[j] ==> distances[i]
            == distances[j]
}

/// The distance given to each proposal (and zero to other texts).
pub open spec fn given_key(fixes: Seq<Seq<char>>, distances: Seq<usize>) -> spec_fn(Seq<char>) -> nat {
    |t: Seq<char>|
        if fixes.contains(t) {
            distances[choose|i: int| 0 <= i < fixes.len() && fixes[i] == t] as nat
        } else {
            0
        }
}

/// `a` is listed before `b`: its distance `key(a)` is smaller, or the same and `a` comes first in
/// text order.
pub open spec fn ranked_before(key: spec_fn(Seq<char>) -> nat, a: Seq<char>, b: Seq<char>) -> bool {
    key(a) < key(b) || (key(a) == key(b) && text_lt(a, b))
}

/// Each two entries of `list` are in ranking order; in particular no entry occurs twice.
pub open spec fn ranked(key: spec_fn(Seq<char>) -> nat, list: Seq<Seq<char>>) -> bool {
    forall|i: int, j: int|
        #![trigger list[i], list[j]]
        0 <= i < j < list.len() ==> ranked_before(key, list[i], list[j])
}

/// `res` lists the texts of `fixes`, each once, in ranking order.
pub open spec fn is_ranking(
    key: spec_fn(Seq<char>) -> nat,
    fixes: Seq<Seq<char>>,
    res: Seq<Seq<char>>,
) -> bool {
    &&& ranked(key, res)
    &&& forall|s: Seq<char>| res.contains(s) <==> fixes.contains(s)
}

/// No text is ranked before itself.
pub proof fn lemma_ranked_before_irreflexive(key: spec_fn(Seq<char>) -> nat, a: Seq<char>)
    ensures
        !ranked_before(key, a, a),
{
    lemma_text_lt_irreflexive(a);
}

/// Ranking order is transitive.
pub proof fn lemma_ranked_before_transitive(key: spec_fn(Seq<char>) -> nat, a: Seq<char>, b: Seq<char>, c: Seq<char>)
    requires
        ranked_before(key, a, b),
        ranked_before(key, b, c),
    ensures
        ranked_before(key, a, c),
{
    if key(a) == key(b) && key(b) == key(c) {
        lemma_text_lt_transitive(a, b, c);
    }
}

/// Two different texts are ranked one way or the other.
pub proof fn lemma_ranked_before_total(key: spec_fn(Seq<char>) -> nat, a: Seq<char>, b: Seq<char>)
    requires
        a != b,
    ensures
        ranked_before(key, a, b) || ranked_before(key, b, a),
{
    lemma_text_lt_total(a, b);
}

/// A ranking is unique: two lists that each hold the same texts once, in ranking order, are equal.
pub proof fn lemma_ranking_unique(key: spec_fn(Seq<char>) -> nat, fixes: Seq<Seq<char>>, r1: Seq<Seq<char>>, r2: Seq<Seq<char>>)
    requires
        is_ranking(key, fixes, r1),
        is_ranking(key, fixes, r2),
    ensures
        r1 == r2,
    decreases r1.len(),
{
    broadcast use vstd::seq_lib::group_filter_ensures;

    if r1.len() == 0 {
        if r2.len() > 0 {
            assert(r2.contains(r2[0]));
        }
        assert(r1 =~= r2);
    } else if r2.len() == 0 {
        assert(r1.contains(r1[0]));
    } else {
        // the first entries are the least texts of the set, so they agree
        let a = r1[0];
        let b = r2[0];
        assert(r1.contains(a));
        assert(r2.contains(b));
        if a != b {
            let i = choose|i: int| 0 <= i < r1.len() && r1[i] == b;
            let j = choose|j: int| 0 <= j < r2.len() && r2[j] == a;
            assert(i > 0);
            assert(j > 0);
            assert(ranked_before(key, a, b));
            assert(ranked_before(key, b, a));
            lemma_ranked_before_transitive(key, a, b, a);
            lemma_ranked_before_irreflexive(key, a);
        }
        let rest = fixes.filter(|s: Seq<char>| s != a);
        let t1 = r1.drop_first();
        let t2 = r2.drop_first();
        assert forall|s: Seq<char>| t1.contains(s) <==> rest.contains(s) by {
            if t1.contains(s) {
                let k = choose|k: int| 0 <= k < t1.len() && t1[k] == s;
                assert(r1[k + 1] == s);
                assert(ranked_before(key, r1[0], r1[k + 1]));
                if s == a {
                    lemma_ranked_before_irreflexive(key, a);
                }
                assert(r1.contains(s));
                assert(fixes.contains(s));
                let m = choose|m: int| 0 <= m < fixes.len() && fixes[m] == s;
                fixes.lemma_filter_contains(|s2: Seq<char>| s2 != a, m);
            }
            if rest.contains(s) {
                fixes.lemma_filter_contains_rev(|s2: Seq<char>| s2 != a, s);
                assert(r1.contains(s));
                let k = choose|k: int| 0 <= k < r1.len() && r1[k] == s;
                assert(k != 0);
                assert(t1[k - 1] == s);
            }
        }
        assert forall|s: Seq<char>| t2.contains(s) <==> rest.contains(s) by {
            if t2.contains(s) {
                let k = choose|k: int| 0 <= k < t2.len() && t2[k] == s;
                assert(r2[k + 1] == s);
                assert(ranked_before(key, r2[0], r2[k + 1]));
                if s == a {
                    lemma_ranked_before_irreflexive(key, a);
                }
                assert(r2.contains(s));
                assert(fixes.contains(s));
                let m = choose|m: int| 0 <= m < fixes.len() && fixes[m] == s;
                fixes.lemma_filter_contains(|s2: Seq<char>| s2 != a, m);
            }
            if rest.contains(s) {
                fixes.lemma_filter_contains_rev(|s2: Seq<char>| s2 != a, s);
                assert(r2.contains(s));
                let k = choose|k: int| 0 <= k < r2.len() && r2[k] == s;
                assert(k != 0);
                assert(t2[k - 1] == s);
            }
        }
        assert(ranked(key, t1)) by {
            assert forall|i: int, j: int| 0 <= i < j < t1.len() implies ranked_before(key, t1[i], t1[j]) by {
                assert(t1[i] == r1[i + 1] && t1[j] == r1[j + 1]);
            }
        }
        assert(ranked(key, t2)) by {
            assert forall|i: int, j: int| 0 <= i < j < t2.len() implies ranked_before(key, t2[i], t2[j]) by {
                assert(t2[i] == r2[i + 1] && t2[j] == r2[j + 1]);
            }
        }
        lemma_ranking_unique(key, rest, t1, t2);
        assert(r1 =~= seq![a] + t1);
        assert(r2 =~= seq![b] + t2);
    }
}

/// The distance between the command line `a` and the proposal `b`, computed by
/// `strsim::damerau_levenshtein`. The contract claims only that the result is
/// `damerau_levenshtein_of` of the two texts, which that function computes from them alone.
#[verifier::external_body]
pub(crate) fn damerau_levenshtein(a: &str, b: &str) -> (res: usize)
    ensures
        res == damerau_levenshtein_of(a@, b@),
{
    strsim::damerau_levenshtein(a, b)
}

/// The rules in use (in alphanumeric order).
pub fn all_rules() -> (res: Vec<Rule>)
    ensures
        res@ == rule_list(),
{
    let res = vec![
        Rule::BrewUpdateUpgrade,
        Rule::CargoClippyArgs,
        Rule::CargoInstallCwd,
        Rule::CargoWrongCommand,
        Rule::CommandNotFound,
        Rule::CpCwd,
        Rule::CpDir,
        Rule::GitAddAllLowercase,
        Rule::GitBranchExists,
        Rule::GitCommitNoChanges,
        Rule::GitCommitUntrackedFiles,
        Rule::GitNoUpstream,
        Rule::GitRetag,
        Rule::GitWrongCommand,
        Rule::MkdirMissingParent,
        Rule::RmDir,
        Rule::Sudo,
        Rule::TaskfileNoTask,
        Rule::UvUnexpectedArgument,
    ];
    assert(res@ =~= rule_list());
    res
}

/// The proposal, if any, as a list of proposals.
fn option_fixes(o: Option<Vec<String>>) -> (res: Vec<Vec<String>>)
    ensures
        res.deep_view() == opt_fixes(o.deep_view()),
{
    let mut res: Vec<Vec<String>> = Vec::new();
    match o {
        Some(f) => {
            let ghost fv = f.deep_view();
            res.push(f);
            assert(res.deep_view() =~= seq![fv]);
        },
        None => {
            assert(res.deep_view() =~= Seq::<Seq<Seq<char>>>::empty());
        },
    }
    res
}

/// Applies `rule` to the tokenized command `cmd` and the error output `error`. `executables` are
/// the names of the files on `$PATH`, which only the `CommandNotFound` rule reads.
pub fn apply_rule(rule: Rule, cmd: Vec<String>, error: &str, executables: &Vec<String>) -> (res: Vec<
    Vec<String>,
>)
    ensures
        res.deep_view() == rule_fixes(rule, cmd.deep_view(), error@, executables.deep_view()),
{
    match rule {
        Rule::BrewUpdateUpgrade => option_fixes(brew_update_upgrade(cmd, error)),
        Rule::CargoClippyArgs => option_fixes(cargo_clippy_args(cmd, error)),
        Rule::CargoInstallCwd => option_fixes(cargo_install_cwd(cmd, error)),
        Rule::CargoWrongCommand => option_fixes(cargo_wrong_command(cmd, error)),
        Rule::CommandNotFound => command_not_found(
            cmd,
            error,
            tokens_to_vec(executables.as_slice()),
        ),
        Rule::CpCwd => option_fixes(cp_cwd(cmd, error)),
        Rule::CpDir => option_fixes(cp_dir(cmd, error)),
        Rule::GitAddAllLowercase => option_fixes(git_add_all_lowercase(cmd, error)),
        Rule::GitBranchExists => option_fixes(git_branch_exists(cmd, error)),
        Rule::GitCommitNoChanges => option_fixes(git_commit_no_changes(cmd.as_slice(), error)),
        Rule::GitCommitUntrackedFiles => option_fixes(git_commit_untracked_files(cmd, error)),
        Rule::GitNoUpstream => option_fixes(git_no_upstream(cmd, error)),
        Rule::GitRetag => option_fixes(git_retag(cmd, error)),
        Rule::GitWrongCommand => option_fixes(git_wrong_command(cmd, error)),
        Rule::MkdirMissingParent => option_fixes(mkdir_missing_parent(cmd, error)),
        Rule::RmDir => option_fixes(rm_dir(cmd, error)),
        Rule::Sudo => option_fixes(sudo(cmd, error)),
        Rule::TaskfileNoTask => taskfile_no_task(cmd, error),
        Rule::UvUnexpectedArgument => option_fixes(uv_unexpected_argument(cmd, error)),
    }
}

/// Lists the proposals `fixes`, each once, by the distances given to them, smallest first;
/// proposals at the same distance come in text order. `distances[i]` belongs to `fixes[i]`, and
/// equal proposals have equal distances. The list is kept sorted by insertion: a `BTreeSet` of
/// `(distance, text)` pairs would order it too, but vstd states what a `BTreeSet` holds only for
/// keys whose order it specifies, and it specifies none for `String`.
pub fn rank_by_distance(fixes: Vec<String>, distances: Vec<usize>) -> (res: Vec<String>)
    requires
        consistent_distances(fixes.deep_view(), distances@),
    ensures
        is_ranking(given_key(fixes.deep_view(), distances@), fixes.deep_view(), res.deep_view()),
{
    let ghost fv = fixes.deep_view();
    let ghost key = given_key(fv, distances@);
    let mut dists: Vec<usize> = Vec::new();
    let mut texts: Vec<Vec<char>> = Vec::new();
    let mut strs: Vec<String> = Vec::new();
    let mut k: usize = 0;
    assert(fv.take(0) =~= Seq::<Seq<char>>::empty());
    while k < fixes.len()
        invariant
            k <= fixes.len(),
            fv == fixes.deep_view(),
            key == given_key(fv, distances@),
            consistent_distances(fv, distances@),
            dists.len() == texts.len(),
            texts.len() == strs.len(),
            forall|i: int| 0 <= i < strs.len() ==> dists@[i] as nat == key(#[trigger] strs.deep_view()[i]),
            forall|i: int| 0 <= i < strs.len() ==> texts@[i]@ == #[trigger] strs.deep_view()[i],
            ranked(key, strs.deep_view()),
            forall|s: Seq<char>| strs.deep_view().contains(s) <==> fv.take(k as int).contains(s),
        decreases fixes.len() - k,
    {
        let t = chars_of(fixes[k].as_str());
        let d = distances[k];
        let ghost tv = t@;
        let ghost sv = strs.deep_view();
        assert(tv == fv[k as int]);
        proof {
            assert(fv.contains(tv));
            let i = choose|i: int| 0 <= i < fv.len() && fv[i] == tv;
            assert(fv[i] == fv[k as int]);
        }
        let n = texts.len();
        let mut p: usize = 0;
        while p < n && (dists[p] < d || (dists[p] == d && text_less(&texts[p], &t)))
            invariant
                p <= n,
                n == texts.len(),
                n == strs.len(),
                n == dists.len(),
                sv == strs.deep_view(),
                tv == t@,
                d as nat == key(tv),
                forall|i: int| 0 <= i < n ==> dists@[i] as nat == key(#[trigger] sv[i]),
                forall|i: int| 0 <= i < n ==> texts@[i]@ == #[trigger] sv[i],
                forall|i: int| 0 <= i < p ==> ranked_before(key, #[trigger] sv[i], tv),
            decreases n - p,
        {
            assert(texts@[p as int]@ == sv[p as int]);
            p = p + 1;
        }
        let duplicate = p < n && dists[p] == d && !text_less(&texts[p], &t) && !text_less(&t, &texts[p]);
        if duplicate {
            proof {
                assert(texts@[p as int]@ == sv[p as int]);
                if sv[p as int] != tv {
                    lemma_text_lt_total(sv[p as int], tv);
                }
                assert(sv.contains(tv));
            }
        } else {
            proof {
                assert(p < n ==> texts@[p as int]@ == sv[p as int]);
                if p < n {
                    // the entry at p comes after the new text
                    if sv[p as int] == tv {
                        lemma_text_lt_irreflexive(tv);
                    }
                    lemma_ranked_before_total(key, sv[p as int], tv);
                }
                assert(!sv.contains(tv)) by {
                    if sv.contains(tv) {
                        let m = choose|m: int| 0 <= m < sv.len() && sv[m] == tv;
                        if m < p {
                            lemma_ranked_before_irreflexive(key, tv);
                        } else if m > p {
                            assert(ranked_before(key, sv[p as int], sv[m]));
                            lemma_ranked_before_transitive(key, tv, sv[p as int], tv);
                            lemma_ranked_before_irreflexive(key, tv);
                        }
                    }
                }
            }
            let ghost old_dists = dists@;
            let ghost old_texts = texts@;
            dists.insert(p, d);
            texts.insert(p, t);
            let s = string_of(&texts[p]);
            strs.insert(p, s);
            proof {
                let nv = strs.deep_view();
                assert(nv =~= sv.insert(p as int, tv));
                assert forall|i: int| 0 <= i < strs.len() implies dists@[i] as nat == key(#[trigger] strs.deep_view()[i]) by {
                    if i < p {
                        assert(dists@[i] == old_dists[i]);
                    } else if i > p {
                        assert(dists@[i] == old_dists[i - 1]);
                    }
                }
                assert forall|i: int| 0 <= i < strs.len() implies texts@[i]@ == #[trigger] strs.deep_view()[i] by {
                    if i < p {
                        assert(texts@[i] == old_texts[i]);
                    } else if i > p {
                        assert(texts@[i] == old_texts[i - 1]);
                    }
                }
                assert forall|i: int, j: int| 0 <= i < j < nv.len() implies ranked_before(key, #[trigger] nv[i], #[trigger] nv[j]) by {
                    if j < p {
                        assert(nv[i] == sv[i] && nv[j] == sv[j]);
                    } else if j == p {
                        assert(nv[i] == sv[i]);
                    } else if i == p {
                        assert(nv[j] == sv[j - 1]);
                        if j - 1 > p {
                            assert(ranked_before(key, sv[p as int], sv[j - 1]));
                            lemma_ranked_before_transitive(key, tv, sv[p as int], sv[j - 1]);
                        }
                    } else if i < p {
                        assert(nv[i] == sv[i] && nv[j] == sv[j - 1]);
                        if j - 1 >= p {
                            assert(ranked_before(key, sv[i], tv));
                            if j - 1 == p {
                                lemma_ranked_before_transitive(key, sv[i], tv, sv[j - 1]);
                            } else {
                                assert(ranked_before(key, sv[p as int], sv[j - 1]));
                                lemma_ranked_before_transitive(key, tv, sv[p as int], sv[j - 1]);
                                lemma_ranked_before_transitive(key, sv[i], tv, sv[j - 1]);
                            }
                        }
                    } else {
                        assert(nv[i] == sv[i - 1] && nv[j] == sv[j - 1]);
                    }
                }
            }
        }
        proof {
            let nv = strs.deep_view();
            let pre = fv.take(k as int);
            let pre1 = fv.take(k + 1);
            assert(pre1 =~= pre.push(tv));
            assert forall|s2: Seq<char>| nv.contains(s2) <==> pre1.contains(s2) by {
                if nv.contains(s2) {
                    let m = choose|m: int| 0 <= m < nv.len() && nv[m] == s2;
                    if !duplicate {
                        if m < p {
                            assert(sv[m] == s2);
                        } else if m > p {
                            assert(sv[m - 1] == s2);
                        }
                    } else {
                        assert(sv[m] == s2);
                    }
                    if s2 != tv {
                        assert(sv.contains(s2));
                        assert(pre.contains(s2));
                        let q = choose|q: int| 0 <= q < k && pre[q] == s2;
                        assert(pre1[q] == s2);
                    } else {
                        assert(pre1[k as int] == s2);
                    }
                }
                if pre1.contains(s2) {
                    let q = choose|q: int| 0 <= q < k + 1 && pre1[q] == s2;
                    if q < k {
                        assert(pre[q] == s2);
                        assert(sv.contains(s2));
                        let m = choose|m: int| 0 <= m < sv.len() && sv[m] == s2;
                        if !duplicate {
                            if m < p {
                                assert(nv[m] == s2);
                            } else {
                                assert(nv[m + 1] == s2);
                            }
                        } else {
                            assert(nv[m] == s2);
                        }
                    } else {
                        if !duplicate {
                            assert(nv[p as int] == s2);
                        } else {
                            let m = choose|m: int| 0 <= m < sv.len() && sv[m] == tv;
                            assert(nv[m] == s2);
                        }
                    }
                }
            }
        }
        k = k + 1;
    }
    assert(fv.take(fixes.len() as int) =~= fv);
    strs
}

/// Lists the proposals `fixes`, each once, closest to the command line `cmd` first; proposals as
/// close as each other come in text order.
pub fn rank_fixes(cmd: &str, fixes: Vec<String>) -> (res: Vec<String>)
    ensures
        is_ranking(distance_key(cmd@), fixes.deep_view(), res.deep_view()),
{
    let ghost fv = fixes.deep_view();
    let mut distances: Vec<usize> = Vec::new();
    let mut k: usize = 0;
    while k < fixes.len()
        invariant
            k <= fixes.len(),
            fv == fixes.deep_view(),
            distances.len() == k,
            forall|i: int| 0 <= i < k ==> distances@[i] as nat == fix_distance(cmd@, #[trigger] fv[i]),
        decreases fixes.len() - k,
    {
        distances.push(damerau_levenshtein(cmd, fixes[k].as_str()));
        k = k + 1;
    }
    let ghost dv = distances@;
    assert(consistent_distances(fv, dv));
    let res = rank_by_distance(fixes, distances);
    proof {
        let key = given_key(fv, dv);
        let rv = res.deep_view();
        assert forall|t: Seq<char>| fv.contains(t) implies key(t) == distance_key(cmd@)(t) by {
            let i = choose|i: int| 0 <= i < fv.len() && fv[i] == t;
            assert(dv[i] as nat == fix_distance(cmd@, fv[i]));
        }
        assert forall|i: int, j: int| 0 <= i < j < rv.len() implies ranked_before(
            distance_key(cmd@),
            #[trigger] rv[i],
            #[trigger] rv[j],
        ) by {
            assert(rv.contains(rv[i]) && rv.contains(rv[j]));
            assert(ranked_before(key, rv[i], rv[j]));
        }
    }
    res
}

/// `fix_texts` of two lists one after the other.
proof fn lemma_fix_texts_add(a: Seq<Seq<Seq<char>>>, b: Seq<Seq<Seq<char>>>)
    ensures
        fix_texts(a + b) == fix_texts(a) + fix_texts(b),
{
    assert(fix_texts(a + b) =~= fix_texts(a) + fix_texts(b));
}

/// The proposals of `rules` for the tokenized command `cmd_split` and each of the outputs, as
/// command lines, rule by rule.
pub fn collect_fixes(
    cmd_split: &Vec<String>,
    output: &Vec<String>,
    rules: &[Rule],
    executables: &Vec<String>,
) -> (res: Vec<String>)
    ensures
        res.deep_view() == fix_texts(
            all_fixes(rules@, cmd_split.deep_view(), lowered(output.deep_view()), executables.deep_view()),
        ),
{
    let ghost c = cmd_split.deep_view();
    let ghost ls = lowered(output.deep_view());
    let ghost e = executables.deep_view();
    let mut res: Vec<String> = Vec::new();
    let mut r: usize = 0;
    assert(rules@.take(0) =~= Seq::<Rule>::empty());
    assert(res.deep_view() =~= fix_texts(all_fixes(rules@.take(0), c, ls, e)));
    while r < rules.len()
        invariant
            r <= rules.len(),
            c == cmd_split.deep_view(),
            ls == lowered(output.deep_view()),
            e == executables.deep_view(),
            res.deep_view() == fix_texts(all_fixes(rules@.take(r as int), c, ls, e)),
        decreases rules.len() - r,
    {
        let rule = rules[r];
        let ghost base = all_fixes(rules@.take(r as int), c, ls, e);
        let mut l: usize = 0;
        assert(ls.take(0) =~= Seq::<Seq<char>>::empty());
        assert(base + line_fixes(rule, c, ls.take(0), e) =~= base);
        while l < output.len()
            invariant
                l <= output.len(),
                r < rules.len(),
                rule == rules@[r as int],
                c == cmd_split.deep_view(),
                ls == lowered(output.deep_view()),
                e == executables.deep_view(),
                res.deep_view() == fix_texts(base + line_fixes(rule, c, ls.take(l as int), e)),
            decreases output.len() - l,
        {
            let error = to_lowercase(output[l].as_str());
            assert(error@ == ls[l as int]);
            let fixes = apply_rule(rule, tokens_to_vec(cmd_split.as_slice()), error.as_str(), executables);
            let ghost fv = fixes.deep_view();
            let ghost before = res.deep_view();
            let mut f: usize = 0;
            assert(fv.take(0) =~= Seq::<Seq<Seq<char>>>::empty());
            assert(before + fix_texts(fv.take(0)) =~= before);
            while f < fixes.len()
                invariant
                    f <= fixes.len(),
                    fv == fixes.deep_view(),
                    res.deep_view() == before + fix_texts(fv.take(f as int)),
                decreases fixes.len() - f,
            {
                let text = join_strings(&fixes[f], " ");
                let ghost prev = res.deep_view();
                res.push(text);
                assert(res.deep_view() =~= prev.push(text@));
                assert(fv.take(f + 1) =~= fv.take(f as int).push(fv[f as int]));
                assert(fix_texts(fv.take(f + 1)) =~= fix_texts(fv.take(f as int)).push(text@));
                f = f + 1;
            }
            assert(fv.take(fixes.len() as int) =~= fv);
            proof {
                assert(ls.take(l + 1).drop_last() =~= ls.take(l as int));
                assert(ls.take(l + 1).last() == ls[l as int]);
                let lf = line_fixes(rule, c, ls.take(l as int), e);
                assert(line_fixes(rule, c, ls.take(l + 1), e) == lf + fv);
                assert(base + (lf + fv) =~= (base + lf) + fv);
                lemma_fix_texts_add(base + lf, fv);
            }
            l = l + 1;
        }
        proof {
            assert(ls.take(output.len() as int) =~= ls);
            assert(rules@.take(r + 1).drop_last() =~= rules@.take(r as int));
            assert(rules@.take(r + 1).last() == rule);
        }
        r = r + 1;
    }
    assert(rules@.take(rules.len() as int) =~= rules@);
    res
}

/// Finds the fixes that `rules` propose for the failed command line `cmd`, whose outputs are
/// `output`: each output is lower-cased, every rule is applied to the tokens of `cmd` and each
/// output, and the proposals are joined with spaces and listed each once, closest to `cmd` first.
/// `executables` are the names of the files on `$PATH`.
pub fn find_fixes(cmd: &str, output: Vec<String>, rules: &[Rule], executables: &Vec<String>) -> (res:
    Vec<String>)
    ensures
        is_ranking(
            distance_key(cmd@),
            candidate_texts(cmd@, output.deep_view(), rules@, executables.deep_view()),
            res.deep_view(),
        ),
{
    let cmd_split = shlex(cmd);
    let candidates = collect_fixes(&cmd_split, &output, rules, executables);
    rank_fixes(cmd, candidates)
}

/// Some output names, as not found, a command among the tokens of `cmd`.
pub open spec fn reports_unknown_command(cmd: Seq<Seq<char>>, errors: Seq<Seq<char>>) -> bool {
    exists|l: int| 0 <= l < errors.len() && (#[trigger] detected_command(cmd, errors[l])) is Some
}

/// Whether the names of the files on `$PATH` are needed: the `CommandNotFound` rule is in use and
/// some (lower-cased) output reports one of the command's tokens as not found.
pub fn needs_executables(cmd: &str, output: &Vec<String>, rules: &[Rule]) -> (res: bool)
    ensures
        res == (rules@.contains(Rule::CommandNotFound) && reports_unknown_command(
            shlex_words(cmd@),
            lowered(output.deep_view()),
        )),
{
    let mut used = false;
    let mut r: usize = 0;
    while r < rules.len()
        invariant
            r <= rules.len(),
            used == exists|i: int| 0 <= i < r && rules@[i] == Rule::CommandNotFound,
        decreases rules.len() - r,
    {
        if rules[r] == Rule::CommandNotFound {
            used = true;
        }
        r = r + 1;
    }
    if !used {
        return false;
    }
    let ghost witness = choose|i: int| 0 <= i < rules.len() && rules@[i] == Rule::CommandNotFound;
    assert(rules@.contains(Rule::CommandNotFound)) by {
        assert(rules@[witness] == Rule::CommandNotFound);
    }
    let cmd_split = shlex(cmd);
    let ghost ls = lowered(output.deep_view());
    let mut l: usize = 0;
    while l < output.len()
        invariant
            l <= output.len(),
            cmd_split.deep_view() == shlex_words(cmd@),
            ls == lowered(output.deep_view()),
            rules@.contains(Rule::CommandNotFound),
            forall|i: int| 0 <= i < l ==> (#[trigger] detected_command(cmd_split.deep_view(), ls[i])) is None,
        decreases output.len() - l,
    {
        let error = to_lowercase(output[l].as_str());
        assert(error@ == ls[l as int]);
        if detect_command(&cmd_split, error.as_str()).is_some() {
            assert(detected_command(cmd_split.deep_view(), ls[l as int]) is Some);
            return true;
        }
        l = l + 1;
    }
    false
}

/// Without a report of an unknown command, the proposals of a rule do not depend on the files on
/// `$PATH`.
proof fn lemma_rule_fixes_ignore_executables(
    rule: Rule,
    cmd: Seq<Seq<char>>,
    error: Seq<char>,
    e1: Seq<Seq<char>>,
    e2: Seq<Seq<char>>,
)
    requires
        detected_command(cmd, error) is None,
    ensures
        rule_fixes(rule, cmd, error, e1) == rule_fixes(rule, cmd, error, e2),
{
}

/// Without a report of an unknown command, the proposals for some outputs do not depend on the
/// files on `$PATH`.
proof fn lemma_line_fixes_ignore_executables(
    rule: Rule,
    cmd: Seq<Seq<char>>,
    errors: Seq<Seq<char>>,
    e1: Seq<Seq<char>>,
    e2: Seq<Seq<char>>,
)
    requires
        !reports_unknown_command(cmd, errors),
    ensures
        line_fixes(rule, cmd, errors, e1) == line_fixes(rule, cmd, errors, e2),
    decreases errors.len(),
{
    if errors.len() > 0 {
        let p = errors.drop_last();
        assert(!reports_unknown_command(cmd, p)) by {
            if reports_unknown_command(cmd, p) {
                let l = choose|l: int| 0 <= l < p.len() && (#[trigger] detected_command(cmd, p[l])) is Some;
                assert(errors[l] == p[l]);
            }
        }
        lemma_line_fixes_ignore_executables(rule, cmd, p, e1, e2);
        assert(detected_command(cmd, errors[errors.len() - 1]) is None);
        lemma_rule_fixes_ignore_executables(rule, cmd, errors.last(), e1, e2);
    }
}

/// The files on `$PATH` matter to the fixes only where an output reports an unknown command among
/// the command's tokens (or the `CommandNotFound` rule is in use): otherwise any list of them gives
/// the same proposals.
pub proof fn lemma_executables_unread(
    cmd: Seq<char>,
    output: Seq<Seq<char>>,
    rules: Seq<Rule>,
    e1: Seq<Seq<char>>,
    e2: Seq<Seq<char>>,
)
    requires
        !reports_unknown_command(shlex_words(cmd), lowered(output)),
    ensures
        candidate_texts(cmd, output, rules, e1) == candidate_texts(cmd, output, rules, e2),
{
    let c = shlex_words(cmd);
    let ls = lowered(output);
    lemma_all_fixes_ignore_executables(rules, c, ls, e1, e2);
}

/// `all_fixes` does not read the files on `$PATH` without a report of an unknown command.
proof fn lemma_all_fixes_ignore_executables(
    rules: Seq<Rule>,
    cmd: Seq<Seq<char>>,
    errors: Seq<Seq<char>>,
    e1: Seq<Seq<char>>,
    e2: Seq<Seq<char>>,
)
    requires
        !reports_unknown_command(cmd, errors),
    ensures
        all_fixes(rules, cmd, errors, e1) == all_fixes(rules, cmd, errors, e2),
    decreases rules.len(),
{
    if rules.len() > 0 {
        lemma_all_fixes_ignore_executables(rules.drop_last(), cmd, errors, e1, e2);
        lemma_line_fixes_ignore_executables(rules.last(), cmd, errors, e1, e2);
    }
}

/// A proposal is among those for some outputs exactly where the rule proposes it for one of them.
proof fn lemma_line_fixes_member(
    rule: Rule,
    cmd: Seq<Seq<char>>,
    errors: Seq<Seq<char>>,
    executables: Seq<Seq<char>>,
    f: Seq<Seq<char>>,
)
    ensures
        line_fixes(rule, cmd, errors, executables).contains(f) <==> exists|l: int|
            0 <= l < errors.len() && #[trigger] rule_fixes(rule, cmd, errors[l], executables).contains(f),
    decreases errors.len(),
{
    if errors.len() > 0 {
        let p = errors.drop_last();
        lemma_line_fixes_member(rule, cmd, p, executables, f);
        let a = line_fixes(rule, cmd, p, executables);
        let b = rule_fixes(rule, cmd, errors.last(), executables);
        if (a + b).contains(f) {
            let k = choose|k: int| 0 <= k < (a + b).len() && (a + b)[k] == f;
            if k < a.len() {
                assert(a[k] == f);
                let l = choose|l: int| 0 <= l < p.len() && #[trigger] rule_fixes(rule, cmd, p[l], executables).contains(f);
                assert(errors[l] == p[l]);
            } else {
                assert(b[k - a.len()] == f);
                assert(rule_fixes(rule, cmd, errors[errors.len() - 1], executables).contains(f));
            }
        }
        if exists|l: int| 0 <= l < errors.len() && #[trigger] rule_fixes(rule, cmd, errors[l], executables).contains(f) {
            let l = choose|l: int| 0 <= l < errors.len() && #[trigger] rule_fixes(rule, cmd, errors[l], executables).contains(f);
            let k = choose|k: int| 0 <= k < rule_fixes(rule, cmd, errors[l], executables).len() && rule_fixes(rule, cmd, errors[l], executables)[k] == f;
            if l < p.len() {
                assert(p[l] == errors[l]);
                assert(a.contains(f));
                let m = choose|m: int| 0 <= m < a.len() && a[m] == f;
                assert((a + b)[m] == f);
            } else {
                assert((a + b)[a.len() + k] == f);
            }
        }
    }
}

/// The proposals of the rules for the outputs are exactly what some rule in use proposes for some
/// output: no rule and no output is skipped, and nothing else is proposed.
pub proof fn lemma_all_fixes_member(
    rules: Seq<Rule>,
    cmd: Seq<Seq<char>>,
    errors: Seq<Seq<char>>,
    executables: Seq<Seq<char>>,
    f: Seq<Seq<char>>,
)
    ensures
        all_fixes(rules, cmd, errors, executables).contains(f) <==> exists|r: int, l: int|
            0 <= r < rules.len() && 0 <= l < errors.len() && #[trigger] rule_fixes(
                rules[r],
                cmd,
                errors[l],
                executables,
            ).contains(f),
    decreases rules.len(),
{
    if rules.len() > 0 {
        let p = rules.drop_last();
        lemma_all_fixes_member(p, cmd, errors, executables, f);
        lemma_line_fixes_member(rules.last(), cmd, errors, executables, f);
        let a = all_fixes(p, cmd, errors, executables);
        let b = line_fixes(rules.last(), cmd, errors, executables);
        if (a + b).contains(f) {
            let k = choose|k: int| 0 <= k < (a + b).len() && (a + b)[k] == f;
            if k < a.len() {
                assert(a[k] == f);
                let (r, l) = choose|r: int, l: int|
                    0 <= r < p.len() && 0 <= l < errors.len() && #[trigger] rule_fixes(p[r], cmd, errors[l], executables).contains(f);
                assert(rules[r] == p[r]);
            } else {
                assert(b[k - a.len()] == f);
                let l = choose|l: int| 0 <= l < errors.len() && #[trigger] rule_fixes(rules.last(), cmd, errors[l], executables).contains(f);
                assert(rules[rules.len() - 1] == rules.last());
                assert(rule_fixes(rules[rules.len() - 1], cmd, errors[l], executables).contains(f));
            }
        }
        if exists|r: int, l: int|
            0 <= r < rules.len() && 0 <= l < errors.len() && #[trigger] rule_fixes(rules[r], cmd, errors[l], executables).contains(f) {
            let (r, l) = choose|r: int, l: int|
                0 <= r < rules.len() && 0 <= l < errors.len() && #[trigger] rule_fixes(rules[r], cmd, errors[l], executables).contains(f);
            if r < p.len() {
                assert(p[r] == rules[r]);
                assert(rule_fixes(p[r], cmd, errors[l], executables).contains(f));
                assert(a.contains(f));
                let m = choose|m: int| 0 <= m < a.len() && a[m] == f;
                assert((a + b)[m] == f);
            } else {
                assert(rule_fixes(rules.last(), cmd, errors[l], executables).contains(f));
                assert(b.contains(f));
                let m = choose|m: int| 0 <= m < b.len() && b[m] == f;
                assert((a + b)[a.len() + m] == f);
            }
        }
    }
}

/// `find_fixes` lists a command line exactly where some rule in use, applied to the words of the
/// command and to some output (lower-cased), proposes a fix whose words joined with spaces are that
/// line.
pub proof fn lemma_candidate_texts_member(
    cmd: Seq<char>,
    output: Seq<Seq<char>>,
    rules: Seq<Rule>,
    executables: Seq<Seq<char>>,
    t: Seq<char>,
)
    ensures
        candidate_texts(cmd, output, rules, executables).contains(t) <==> exists|r: int, l: int, f: Seq<Seq<char>>|
            0 <= r < rules.len() && 0 <= l < output.len() && #[trigger] rule_fixes(
                rules[r],
                shlex_words(cmd),
                lowercase_of(output[l]),
                executables,
            ).contains(f) && join(f, " "@) == t,
{
    let c = shlex_words(cmd);
    let ls = lowered(output);
    let fixes = all_fixes(rules, c, ls, executables);
    let texts = fix_texts(fixes);
    if texts.contains(t) {
        let k = choose|k: int| 0 <= k < texts.len() && texts[k] == t;
        let f = fixes[k];
        assert(fixes.contains(f));
        lemma_all_fixes_member(rules, c, ls, executables, f);
        let (r, l) = choose|r: int, l: int|
            0 <= r < rules.len() && 0 <= l < ls.len() && #[trigger] rule_fixes(rules[r], c, ls[l], executables).contains(f);
        assert(ls[l] == lowercase_of(output[l]));
        assert(rule_fixes(rules[r], c, lowercase_of(output[l]), executables).contains(f));
    }
    if exists|r: int, l: int, f: Seq<Seq<char>>|
        0 <= r < rules.len() && 0 <= l < output.len() && #[trigger] rule_fixes(
            rules[r],
            c,
            lowercase_of(output[l]),
            executables,
        ).contains(f) && join(f, " "@) == t {
        let (r, l, f) = choose|r: int, l: int, f: Seq<Seq<char>>|
            0 <= r < rules.len() && 0 <= l < output.len() && #[trigger] rule_fixes(
                rules[r],
                c,
                lowercase_of(output[l]),
                executables,
            ).contains(f) && join(f, " "@) == t;
        assert(ls[l] == lowercase_of(output[l]));
        assert(rule_fixes(rules[r], c, ls[l], executables).contains(f));
        lemma_all_fixes_member(rules, c, ls, executables, f);
        let k = choose|k: int| 0 <= k < fixes.len() && fixes[k] == f;
        assert(texts[k] == t);
    }
}

} // verus!

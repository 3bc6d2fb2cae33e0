//! `fix`: fixing a failing command.
use vstd::prelude::*;

use crate::get_text::Config;
use crate::rules::{candidate_texts, distance_key, find_fixes, is_ranking, Rule};

verus! {

/// The arguments of `fix`.
pub struct Cmd {
    /// The command to fix.
    pub cmd: String,
    /// The maximum number of fixes to show on the screen.
    pub page_size: usize,
    /// How the output of the command is looked for.
    pub get_text: Config,
}

/// What `fix` does with a command.
pub enum Outcome {
    /// The command ran successfully.
    NothingToFix,
    /// No rule proposed anything.
    NoFixes,
    /// Offer these fixes, best first.
    Choose(Vec<String>),
}

/// Whether there is a command to fix at all.
pub fn has_command(cmd: &Cmd) -> (res: bool)
    ensures
        res == (cmd.cmd@.len() > 0),
{
    !cmd.cmd.as_str().is_empty()
}

/// Decides what to offer once the output of the command is known (`None` where it ran
/// successfully): the fixes that `rules` find, unless there are none.
pub fn outcome(cmd: &str, output: Option<Vec<String>>, rules: &[Rule], executables: &Vec<String>) -> (res:
    Outcome)
    ensures
        output is None ==> res is NothingToFix,
        output matches Some(o) ==> match res {
            Outcome::NoFixes => is_ranking(
                distance_key(cmd@),
                candidate_texts(cmd@, o.deep_view(), rules@, executables.deep_view()),
                Seq::empty(),
            ),
            Outcome::Choose(fixes) => fixes.len() > 0 && is_ranking(
                distance_key(cmd@),
                candidate_texts(cmd@, o.deep_view(), rules@, executables.deep_view()),
                fixes.deep_view(),
            ),
            _ => false,
        },
{
    match output {
        None => Outcome::NothingToFix,
        Some(o) => {
            let fixes = find_fixes(cmd, o, rules, executables);
            if fixes.len() == 0 {
                assert(fixes.deep_view() =~= Seq::<Seq<char>>::empty());
                Outcome::NoFixes
            } else {
                Outcome::Choose(fixes)
            }
        },
    }
}

} // verus!

//! `init`: the shell alias that runs the fixer.
use vstd::prelude::*;

use crate::text::{replace_first, replace_first_str};

verus! {

/// The shells for which an alias can be generated.
#[derive(Clone, Copy, Debug, PartialEq, Eq, Structural)]
pub enum Shell {
    Bash,
    Fish,
    Zsh,
    Powershell,
}

/// The arguments of `init`.
pub struct Cmd {
    /// The name of the alias.
    pub name: String,
    /// The shell for which the alias is generated.
    pub shell: Shell,
}

/// The placeholder that the alias templates hold for the alias name.
pub const NAME_PLACEHOLDER: &'static str = "__name__";

/// The file extension of the alias template for `shell`.
pub open spec fn template_extension_of(shell: Shell) -> Seq<char> {
    match shell {
        Shell::Bash => "sh"@,
        Shell::Fish => "fish"@,
        Shell::Zsh => "zsh"@,
        Shell::Powershell => "ps1"@,
    }
}

/// The file extension of the alias template for `shell` (`templates/alias.<extension>`).
pub fn template_extension(shell: Shell) -> (res: &'static str)
    ensures
        res@ == template_extension_of(shell),
{
    match shell {
        Shell::Bash => "sh",
        Shell::Fish => "fish",
        Shell::Zsh => "zsh",
        Shell::Powershell => "ps1",
    }
}

/// The alias: the template with its first placeholder replaced by the alias name.
pub fn render_alias(template: &str, name: &str) -> (res: String)
    ensures
        res@ == replace_first(template@, NAME_PLACEHOLDER@, name@),
{
    replace_first_str(template, NAME_PLACEHOLDER, name)
}

} // verus!

//! Fixes mistakes in shell commands: tokenizing, rule matching and ranking.

pub mod text;
pub mod shlex;
pub mod matching;
pub mod rules;
pub mod get_text;
pub mod check_update;
pub mod cmd;
pub mod packaging;

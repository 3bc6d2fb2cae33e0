//! The update check run from the top-level `check_update` command. It shares its decisions with
//! `cmd::check_update`, but where the latest release cannot be had it falls back on the update
//! file: it tells the stored version and writes the file back.
use vstd::prelude::*;

use crate::cmd::check_update::{after_successful_fetch, fetched, writes, AfterFetch, CheckResult, LocalVersion};

verus! {

/// The arguments of the update check.
pub struct Cmd {
    /// Update check interval in seconds.
    pub interval: u64,
    /// Enable periodic update checking.
    pub enabled: bool,
}

/// Decides what to tell and what to write once the latest release tag (`None` where it could not
/// be had) is known. Without a tag, the stored version is told and the stored contents are written
/// back.
pub fn after_fetch(stored: CheckResult, tag: Option<String>, time: u64, local: &LocalVersion) -> (res:
    AfterFetch)
    ensures
        tag is None ==> res.answer.deep_view() == stored.result.deep_view() && writes(
            res.write,
            stored.timestamp,
            stored.init,
            stored.result.deep_view(),
        ),
        tag matches Some(t) ==> fetched(local.view_text(), t@, time, res),
{
    match tag {
        None => {
            let answer = match &stored.result {
                Some(r) => Some(r.clone()),
                None => None,
            };
            AfterFetch { answer, write: Some(stored) }
        },
        Some(t) => after_successful_fetch(t.as_str(), time, local),
    }
}

} // verus!

//! `check-update`: telling about newer releases, at most once per interval.
use vstd::prelude::*;

verus! {

/// The arguments of the update check.
pub struct Cmd {
    /// Update check interval in seconds.
    pub interval: u64,
    /// Enable periodic update checking.
    pub enabled: bool,
}

/// What the update file holds: when the last check was made and the newer version it found (as
/// text). `init` marks a result made up because there was no readable file.
pub struct CheckResult {
    pub timestamp: u64,
    pub result: Option<String>,
    pub init: bool,
}

/// Whether the version `a` precedes the version `b` in semantic-versioning order, where both parse
/// with `semver::Version::parse`; `None` where one does not parse.
pub uninterp spec fn version_less_of(a: Seq<char>, b: Seq<char>) -> Option<bool>;

/// The text of the version `s` as `semver::Version` prints it after parsing it; `None` where it
/// does not parse.
pub uninterp spec fn version_text_of(s: Seq<char>) -> Option<Seq<char>>;

/// Parses both versions with `semver::Version::parse` and compares them with `Version`'s `<`. The
/// contract claims only that the answer is `version_less_of` of the two texts.
#[verifier::external_body]
pub(crate) fn version_less(a: &str, b: &str) -> (res: Option<bool>)
    ensures
        res == version_less_of(a@, b@),
{
    match (semver::Version::parse(a), semver::Version::parse(b)) {
        (Ok(va), Ok(vb)) => Some(va < vb),
        _ => None,
    }
}

/// Parses `s` with `semver::Version::parse` and prints the version with its `Display`. The
/// contract claims only that the result is `version_text_of` of `s`.
#[verifier::external_body]
pub(crate) fn version_text(s: &str) -> (res: Option<String>)
    ensures
        res.deep_view() == version_text_of(s@),
{
    match semver::Version::parse(s) {
        Ok(v) => Some(v.to_string()),
        Err(_) => None,
    }
}

/// The version of the running program, known to parse as a semantic version.
pub struct LocalVersion {
    text: String,
}

impl LocalVersion {
    /// The version parses.
    #[verifier::type_invariant]
    spec fn parses(self) -> bool {
        version_text_of(self.text@) is Some
    }

    /// The text of the version.
    pub closed spec fn view_text(self) -> Seq<char> {
        self.text@
    }

    /// The version `s`, where it parses as a semantic version.
    pub fn parse(s: &str) -> (res: Option<LocalVersion>)
        ensures
            res is Some <==> version_text_of(s@) is Some,
            res matches Some(v) ==> v.view_text() == s@,
    {
        if version_text(s).is_some() {
            Some(LocalVersion { text: String::from_str(s) })
        } else {
            None
        }
    }

    /// The text of the version.
    pub fn as_str(&self) -> (res: &str)
        ensures
            res@ == self.view_text(),
            version_text_of(res@) is Some,
    {
        proof {
            use_type_invariant(self);
        }
        self.text.as_str()
    }
}

/// The update file was written too recently for a new check: less than `interval` seconds ago, or
/// at a time after `time`.
pub open spec fn too_early(stored: CheckResult, time: u64, interval: u64) -> bool {
    !stored.init && (stored.timestamp > time || time - stored.timestamp <= interval)
}

/// The stored version, where it is newer than the local one.
pub open spec fn newer_stored(local: Seq<char>, result: Option<Seq<char>>) -> Option<Seq<char>> {
    match result {
        Some(r) => if version_less_of(local, r) == Some(true) {
            Some(r)
        } else {
            None
        },
        None => None,
    }
}

/// What to do before asking for the latest release.
pub enum BeforeFetch {
    /// The last check is recent: tell this newer version, if any, and stop.
    Answer(Option<String>),
    /// Ask for the latest release.
    Fetch,
}

/// Decides, from the update file and the time, whether a new check is due. Where it is not, the
/// stored version is told if it is newer than `local_version`.
pub fn before_fetch(stored: &CheckResult, time: u64, interval: u64, local: &LocalVersion) -> (res:
    BeforeFetch)
    ensures
        too_early(*stored, time, interval) <==> res is Answer,
        res matches BeforeFetch::Answer(a) ==> a.deep_view() == newer_stored(
            local.view_text(),
            stored.result.deep_view(),
        ),
{
    let local_version = local.as_str();
    let early = !stored.init && (stored.timestamp > time || time - stored.timestamp <= interval);
    if !early {
        return BeforeFetch::Fetch;
    }
    match &stored.result {
        Some(r) => {
            if version_less(local_version, r.as_str()) == Some(true) {
                BeforeFetch::Answer(Some(r.clone()))
            } else {
                BeforeFetch::Answer(None)
            }
        },
        None => BeforeFetch::Answer(None),
    }
}

/// The tag without a leading `v`.
pub open spec fn tag_version(tag: Seq<char>) -> Seq<char> {
    if tag.len() > 0 && tag[0] == 'v' {
        tag.drop_first()
    } else {
        tag
    }
}

/// The tag without a leading `v` (`str::strip_prefix('v')`, or the tag itself).
pub fn strip_v(tag: &str) -> (res: String)
    ensures
        res@ == tag_version(tag@),
{
    let n = tag.unicode_len();
    if n > 0 && tag.get_char(0) == 'v' {
        String::from_str(tag.substring_char(1, n))
    } else {
        String::from_str(tag)
    }
}

/// What the check found after asking for the latest release: the version to tell, and what to
/// write to the update file.
pub struct AfterFetch {
    pub answer: Option<String>,
    pub write: Option<CheckResult>,
}

/// The outcome of a successful fetch of the tag `tag`: nothing (and nothing written) where the tag
/// is not a version; otherwise the remote version where it is newer than the local one, written
/// with the time of the check.
pub open spec fn fetched_answer(local: Seq<char>, tag: Seq<char>) -> Option<Seq<char>> {
    match version_text_of(tag_version(tag)) {
        Some(v) => if version_less_of(local, tag_version(tag)) == Some(true) {
            Some(v)
        } else {
            None
        },
        None => None,
    }
}

/// Decides what to tell and what to write once the latest release tag is known; where it could
/// not be had (`None`), nothing is told or written.
pub fn after_fetch(tag: Option<String>, time: u64, local: &LocalVersion) -> (res: AfterFetch)
    ensures
        tag is None ==> res.answer is None && res.write is None,
        tag matches Some(t) ==> fetched(local.view_text(), t@, time, res),
{
    match tag {
        None => AfterFetch { answer: None, write: None },
        Some(t) => after_successful_fetch(t.as_str(), time, local),
    }
}

/// `write` writes an update file with these contents.
pub open spec fn writes(
    write: Option<CheckResult>,
    timestamp: u64,
    init: bool,
    result: Option<Seq<char>>,
) -> bool {
    match write {
        Some(w) => w.timestamp == timestamp && w.init == init && w.result.deep_view() == result,
        None => false,
    }
}

/// The outcome `res` is the one of a successful fetch of `tag` at `time`.
pub open spec fn fetched(local: Seq<char>, tag: Seq<char>, time: u64, res: AfterFetch) -> bool {
    &&& res.answer.deep_view() == fetched_answer(local, tag)
    &&& match version_text_of(tag_version(tag)) {
        None => res.write is None,
        Some(_) => writes(res.write, time, false, fetched_answer(local, tag)),
    }
}

/// The outcome of a successful fetch of the tag `tag`.
pub fn after_successful_fetch(tag: &str, time: u64, local: &LocalVersion) -> (res: AfterFetch)
    ensures
        fetched(local.view_text(), tag@, time, res),
{
    let local_version = local.as_str();
    let text = strip_v(tag);
    let remote = match version_text(text.as_str()) {
        Some(v) => v,
        None => return AfterFetch { answer: None, write: None },
    };
    let newer = version_less(local_version, text.as_str()) == Some(true);
    let result = if newer {
        Some(remote)
    } else {
        None
    };
    let answer = match &result {
        Some(r) => Some(r.clone()),
        None => None,
    };
    AfterFetch { answer, write: Some(CheckResult { timestamp: time, result, init: false }) }
}

/// A check is made at most once per interval: after a check recorded at `stored.timestamp`, every
/// call up to `interval` seconds later is answered from the update file, and any later call asks
/// again; a result made up for want of a readable file always asks.
pub proof fn lemma_check_interval(stored: CheckResult, time: u64, interval: u64)
    ensures
        stored.init ==> !too_early(stored, time, interval),
        !stored.init && stored.timestamp <= time && time <= stored.timestamp + interval ==> too_early(
            stored,
            time,
            interval,
        ),
        !stored.init && time > stored.timestamp + interval ==> !too_early(stored, time, interval),
{
}

/// Only a version that is newer than the local one is told, whether it comes from the update file
/// or from the latest release; a stored newer version is always told.
pub proof fn lemma_only_newer_versions_told(local: Seq<char>, stored: Option<Seq<char>>, tag: Seq<char>)
    ensures
        newer_stored(local, stored) matches Some(v) ==> stored == Some(v) && version_less_of(local, v)
            == Some(true),
        stored matches Some(v) ==> (version_less_of(local, v) == Some(true) ==> newer_stored(
            local,
            stored,
        ) == Some(v)),
        fetched_answer(local, tag) matches Some(v) ==> version_less_of(local, tag_version(tag)) == Some(
            true,
        ) && version_text_of(tag_version(tag)) == Some(v),
        version_less_of(local, tag_version(tag)) != Some(true) ==> fetched_answer(local, tag) is None,
{
}

/// A leading `v` is dropped from a tag, and only a leading `v`.
pub proof fn lemma_tag_version(t: Seq<char>)
    ensures
        tag_version(seq!['v'] + t) == t,
        (t.len() == 0 || t[0] != 'v') ==> tag_version(t) == t,
{
    assert((seq!['v'] + t).drop_first() =~= t);
}

} // verus!

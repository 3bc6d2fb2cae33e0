use fixit::check_update;
use fixit::cmd::check_update::{
    after_fetch, after_successful_fetch, before_fetch, strip_v, BeforeFetch, CheckResult,
    LocalVersion,
};

fn stored(timestamp: u64, result: Option<&str>, init: bool) -> CheckResult {
    CheckResult { timestamp, result: result.map(|s| s.to_string()), init }
}

fn local() -> LocalVersion {
    LocalVersion::parse("0.2.0-alpha").unwrap()
}

#[test]
fn local_version_parse() {
    assert!(LocalVersion::parse("0.2.0-alpha").is_some());
    assert_eq!("1.2.3", LocalVersion::parse("1.2.3").unwrap().as_str());
    assert!(LocalVersion::parse("x0.3.0").is_none());
    assert!(LocalVersion::parse("1.2").is_none());
}

#[test]
fn strip_v_test() {
    assert_eq!("0.3.0", strip_v("v0.3.0"));
    assert_eq!("0.3.0", strip_v("0.3.0"));
    assert_eq!("", strip_v(""));
}

#[test]
fn before_fetch_decisions() {
    const INTERVAL: u64 = 1000000;
    // no update file: check
    assert!(matches!(before_fetch(&stored(500, None, true), 500, INTERVAL, &local()), BeforeFetch::Fetch));
    // an old check: check again
    assert!(matches!(
        before_fetch(&stored(0, Some("0.2.1-beta"), false), 2 * INTERVAL, INTERVAL, &local()),
        BeforeFetch::Fetch
    ));
    // a recent check that found a newer version tells it
    match before_fetch(&stored(100, Some("0.3.0-alpha"), false), 200, INTERVAL, &local()) {
        BeforeFetch::Answer(a) => assert_eq!(Some("0.3.0-alpha".to_string()), a),
        BeforeFetch::Fetch => panic!("expected an answer"),
    }
    // a recent check that found this version tells nothing
    match before_fetch(&stored(100, Some("0.2.0-alpha"), false), 200, INTERVAL, &local()) {
        BeforeFetch::Answer(a) => assert_eq!(None, a),
        BeforeFetch::Fetch => panic!("expected an answer"),
    }
    // a check dated in the future counts as recent
    assert!(matches!(
        before_fetch(&stored(300, None, false), 200, INTERVAL, &local()),
        BeforeFetch::Answer(None)
    ));
}

#[test]
fn after_fetch_decisions() {
    let out = after_successful_fetch("v0.3.0-beta", 42, &local());
    assert_eq!(Some("0.3.0-beta".to_string()), out.answer);
    let w = out.write.unwrap();
    assert_eq!((42, Some("0.3.0-beta".to_string()), false), (w.timestamp, w.result, w.init));

    let out = after_successful_fetch("v0.2.0-alpha", 42, &local());
    assert_eq!(None, out.answer);
    assert_eq!(None, out.write.unwrap().result);

    // not a version: nothing told, nothing written
    let out = after_successful_fetch("x0.3.0-alpha", 42, &local());
    assert_eq!(None, out.answer);
    assert!(out.write.is_none());

    // no tag: the top-level check tells and writes back the stored result
    let out = check_update::after_fetch(stored(7, Some("0.2.1-beta"), false), None, 42, &local());
    assert_eq!(Some("0.2.1-beta".to_string()), out.answer);
    let w = out.write.unwrap();
    assert_eq!((7, Some("0.2.1-beta".to_string())), (w.timestamp, w.result));

    // the `cmd` check tells and writes nothing without a tag
    let out = after_fetch(None, 42, &local());
    assert!(out.answer.is_none() && out.write.is_none());
    let out = after_fetch(Some("v0.3.0-beta".to_string()), 42, &local());
    assert_eq!(Some("0.3.0-beta".to_string()), out.answer);
}

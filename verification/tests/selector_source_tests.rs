use pvm::resolve::resolve_installed;
use pvm::version::{parse_selector, PythonVersion, Source};

#[test]
fn selector_source_follows_its_text() {
    assert_eq!(parse_selector("3.12.7@cpython").unwrap().source(), Some(Source::Org));
    assert_eq!(parse_selector("3.12@org").unwrap().source(), Some(Source::Org));
    assert_eq!(parse_selector(" latest@standalone ").unwrap().source(), Some(Source::Standalone));
    assert_eq!(parse_selector("cpython-3.13.1t-standalone").unwrap().source(), Some(Source::Standalone));
    assert_eq!(parse_selector("cpython-3.12.7-org").unwrap().source(), Some(Source::Org));
    assert_eq!(parse_selector("3.12").unwrap().source(), None);
    assert_eq!(parse_selector("system").unwrap().source(), None);
}

#[test]
fn resolution_takes_highest_even_with_repeats() {
    let a = PythonVersion { source: Source::Standalone, major: 3, minor: 12, patch: 7, freethreaded: false };
    let b = PythonVersion { source: Source::Standalone, major: 3, minor: 12, patch: 9, freethreaded: false };
    let list = vec![a, b, a, b];
    let sel = parse_selector("3.12").unwrap();
    assert_eq!(resolve_installed(&sel, Source::Standalone, &list).unwrap(), b);
}

#[test]
fn duplicated_org_entry_without_default_is_ambiguous() {
    let o = PythonVersion { source: Source::Org, major: 3, minor: 10, patch: 1, freethreaded: false };
    let sel = parse_selector("3.10").unwrap();
    assert!(resolve_installed(&sel, Source::Standalone, &vec![o, o]).is_err());
    assert_eq!(resolve_installed(&sel, Source::Standalone, &vec![o]).unwrap(), o);
}
